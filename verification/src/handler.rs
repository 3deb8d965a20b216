//! The compute core of the three HTTP handlers.
//!
//! Each handler is a function from the table and the request's fields
//! to the next table and a response. The surrounding server decodes
//! the request, holds the table behind a lock (so at most one handler
//! runs against it at a time), and turns the response into HTTP.

use vstd::prelude::*;
use crate::escape::escape_seq;
use crate::render::page_spec;
use crate::render::render_page;
use crate::store::TodoStore;
use crate::store::without_id;

verus! {

/// What a handler answers: a full HTML page, a redirect back to the
/// list, or a generic server failure.
pub enum Response {
    Page(String),
    SeeOther,
    ServerError,
}

/// Lists the table: answers the complete HTML document for the entries
/// in display order. The table is not changed.
pub fn handle_index(store: &TodoStore) -> (r: Response)
    requires
        store.wf(),
    ensures
        r matches Response::Page(h) && h@ == page_spec(store.entries@),
{
    Response::Page(render_page(store.list()))
}

/// Adds an entry: stores the display form of `text` under a fresh
/// identifier and answers a redirect. When the identifier space is
/// exhausted the insert would fail, so the table is left unchanged and
/// a server failure is answered.
pub fn handle_add(store: &mut TodoStore, text: &str) -> (r: Response)
    requires
        old(store).wf(),
    ensures
        final(store).wf(),
        old(store).next_id < u32::MAX ==> {
            &&& r is SeeOther
            &&& final(store).next_id == old(store).next_id + 1
            &&& final(store).entries@.len() == old(store).entries@.len() + 1
            &&& final(store).entries@[0].id == old(store).next_id
            &&& final(store).entries@[0].text@ == escape_seq(text@)
            &&& final(store).entries@.skip(1) =~= old(store).entries@
        },
        old(store).next_id == u32::MAX ==> r is ServerError && *final(store) == *old(store),
{
    if store.next_id < u32::MAX {
        store.insert(text);
        Response::SeeOther
    } else {
        Response::ServerError
    }
}

/// Deletes the entry carrying `id`, if any, and answers a redirect.
/// Deleting an absent identifier is a no-op that still succeeds.
pub fn handle_delete(store: &mut TodoStore, id: u32) -> (r: Response)
    requires
        old(store).wf(),
    ensures
        final(store).wf(),
        r is SeeOther,
        final(store).entries@ =~= without_id(old(store).entries@, id),
        final(store).next_id == old(store).next_id,
{
    store.delete(id);
    Response::SeeOther
}

} // verus!
