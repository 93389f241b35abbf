//! Decisions of a scan: how a paged listing goes on, and which items of a
//! page belong to the listing.

use vstd::prelude::*;
use crate::policy::contains_text;
use crate::resource::texts_view;
use crate::text::{opt_text, str_eq};

verus! {

/// One page of a listing: its items, and the marker of the next page if
/// there is one.
pub struct Page<T> {
    pub items: Vec<T>,
    pub marker: Option<String>,
}

/// How a paged listing goes on after a page was asked for.
#[derive(Debug)]
pub enum PageStep {
    /// Ask for the page that this marker stands for.
    Fetch(String),
    /// The listing is complete.
    Done,
    /// The page could not be had; what was collected is incomplete.
    Failed,
}

/// Takes the outcome of one request for a page: the items of a page are
/// added to what was collected, and the listing goes on while the provider
/// names a next page. A request that failed ends the listing and leaves
/// what was collected as it is.
pub fn collect_page<T>(collected: &mut Vec<T>, page: Option<Page<T>>) -> (step: PageStep)
    ensures
        match page {
            Some(p) => final(collected)@ == old(collected)@ + p.items@ && match p.marker {
                Some(m) => step == PageStep::Fetch(m),
                None => step == PageStep::Done,
            },
            None => final(collected)@ == old(collected)@ && step == PageStep::Failed,
        },
{
    match page {
        Some(p) => {
            let mut items = p.items;
            collected.append(&mut items);
            match p.marker {
                Some(m) => PageStep::Fetch(m),
                None => PageStep::Done,
            }
        },
        None => PageStep::Failed,
    }
}

/// Whether a database engine is one of the cluster engines, whose instances
/// are handled with their cluster.
pub open spec fn cluster_engine(engine: Option<Seq<char>>) -> bool {
    engine == Some("aurora-mysql"@) || engine == Some("aurora-postgresql"@)
}

/// Whether a database engine is one of the cluster engines.
pub fn is_cluster_engine(engine: &Option<String>) -> (r: bool)
    ensures
        r == cluster_engine(opt_text(*engine)),
{
    match engine {
        Some(e) => str_eq(e.as_str(), "aurora-mysql") || str_eq(e.as_str(), "aurora-postgresql"),
        None => false,
    }
}

/// Whether an item of a listing is on the ignore list, so that it is left
/// out of the listing. An item without an id is on no list.
pub open spec fn listed(id: Option<Seq<char>>, ignore: Option<Seq<Seq<char>>>) -> bool {
    ignore matches Some(list) && id matches Some(i) && list.contains(i)
}

/// Whether an item of a listing is on the ignore list.
pub fn is_listed(id: &Option<String>, ignore: &Option<Vec<String>>) -> (r: bool)
    ensures
        r == (*ignore matches Some(l) && *id matches Some(i) && texts_view(l@).contains(i@)),
{
    match (id, ignore) {
        (Some(i), Some(list)) => contains_text(list, i.as_str()),
        _ => false,
    }
}

} // verus!
