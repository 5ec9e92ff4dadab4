//! The shapes in which the Solidtime API wraps lists and single records.
use vstd::prelude::*;

use crate::text::{is_blank, opt_view, trim};

verus! {

/// A list response: a bare array, or an object with `data` and optional
/// pagination metadata.
#[derive(Debug)]
pub enum ListEnvelope<T> {
    Direct(Vec<T>),
    Data { data: Vec<T>, links: Option<PaginationLinks>, meta: Option<PaginationMeta> },
}

/// One page of a list response.
#[derive(Debug)]
pub struct ListPage<T> {
    pub items: Vec<T>,
    pub has_next: bool,
    pub has_pagination_metadata: bool,
}

#[derive(Debug)]
pub struct PaginationLinks {
    pub next: Option<String>,
}

#[derive(Debug)]
pub struct PaginationMeta {
    pub current_page: Option<u64>,
    pub last_page: Option<u64>,
    pub next_page_url: Option<String>,
}

/// Whether an optional URL is present and not empty.
pub open spec fn names_next(url: Option<Seq<char>>) -> bool {
    url matches Some(u) && u.len() > 0
}

/// Whether the `links` object points to a further page.
pub open spec fn links_point_to_next(links: Option<PaginationLinks>) -> bool {
    links matches Some(l) && names_next(opt_view(l.next))
}

impl PaginationMeta {
    /// A next-page URL, or a current page before the last one.
    pub open spec fn spec_has_next(self) -> bool {
        ||| names_next(opt_view(self.next_page_url))
        ||| (self.current_page matches Some(c) && self.last_page matches Some(l) && c < l)
    }

    /// Whether the metadata points to a further page.
    pub fn has_next(&self) -> (r: bool)
        ensures
            r == self.spec_has_next(),
    {
        let by_url = match &self.next_page_url {
            Some(next) => !next.as_str().is_empty(),
            None => false,
        };
        by_url || match (self.current_page, self.last_page) {
            (Some(current), Some(last)) => current < last,
            _ => false,
        }
    }
}

/// Whether the `meta` object points to a further page.
pub open spec fn meta_points_to_next(meta: Option<PaginationMeta>) -> bool {
    meta matches Some(m) && m.spec_has_next()
}

impl<T> ListEnvelope<T> {
    /// The page that the envelope holds: a bare array has no pagination
    /// metadata and no next page; otherwise a next page exists when the links
    /// or the metadata point to one.
    pub fn into_page(self) -> (page: ListPage<T>)
        ensures
            match self {
                ListEnvelope::Direct(items) => {
                    &&& page.items == items
                    &&& !page.has_next
                    &&& !page.has_pagination_metadata
                },
                ListEnvelope::Data { data, links, meta } => {
                    &&& page.items == data
                    &&& page.has_next == (links_point_to_next(links) || meta_points_to_next(meta))
                    &&& page.has_pagination_metadata == (links is Some || meta is Some)
                },
            },
    {
        match self {
            ListEnvelope::Direct(items) => ListPage { items, has_next: false, has_pagination_metadata: false },
            ListEnvelope::Data { data, links, meta } => {
                let by_links = match &links {
                    Some(l) => match &l.next {
                        Some(next) => !next.as_str().is_empty(),
                        None => false,
                    },
                    None => false,
                };
                let by_meta = match &meta {
                    Some(m) => m.has_next(),
                    None => false,
                };
                let has_pagination_metadata = links.is_some() || meta.is_some();
                ListPage { items: data, has_next: by_links || by_meta, has_pagination_metadata }
            },
        }
    }
}

/// A single-record response: the bare record, or an object with `data`.
#[derive(Debug)]
pub enum ItemEnvelope<T> {
    Direct(T),
    Data { data: T },
}

impl<T> ItemEnvelope<T> {
    /// The record that the envelope holds.
    pub fn into_item(self) -> (item: T)
        ensures
            match self {
                ItemEnvelope::Direct(x) => item == x,
                ItemEnvelope::Data { data } => item == data,
            },
    {
        match self {
            ItemEnvelope::Direct(item) => item,
            ItemEnvelope::Data { data } => data,
        }
    }
}

/// A relationship id from the Clockify API: blank text means no relationship;
/// other text is kept without its surrounding whitespace.
pub fn blank_as_none(value: Option<String>) -> (r: Option<String>)
    ensures
        match value {
            None => r is None,
            Some(v) => if is_blank(v@) {
                r is None
            } else {
                r matches Some(t) && t@ == crate::text::trimmed(v@)
            },
        },
{
    match value {
        None => None,
        Some(v) => {
            let t = trim(v.as_str());
            if t.is_empty() {
                None
            } else {
                Some(t.to_owned())
            }
        },
    }
}

} // verus!
