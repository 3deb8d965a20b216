//! The todo table, modelled in memory.
//!
//! One flat table of entries, each an identifier with a text body.
//! Identifiers are assigned by a counter that never goes back, so they
//! are never reused; the entries are kept sorted by identifier
//! descending (most recently added first), which is the display order.

use vstd::prelude::*;
use crate::escape::escape_seq;
use crate::escape::escape_text;

verus! {

/// One todo entry: a unique identifier and a text body, stored in its
/// display form (see `escape_text`).
pub struct TodoEntry {
    pub id: u32,
    pub text: String,
}

/// Entries sorted by identifier, strictly descending. Strictness makes
/// every identifier unique.
pub open spec fn sorted_desc(s: Seq<TodoEntry>) -> bool {
    forall|i: int, j: int| 0 <= i < j < s.len() ==> s[i].id > s[j].id
}

/// Every identifier in `s` lies below the bound `b`.
pub open spec fn ids_below(s: Seq<TodoEntry>, b: u32) -> bool {
    forall|i: int| 0 <= i < s.len() ==> s[i].id < b
}

/// No entry of `s` carries the identifier `id`.
pub open spec fn no_id(s: Seq<TodoEntry>, id: u32) -> bool {
    forall|i: int| 0 <= i < s.len() ==> s[i].id != id
}

/// `s` with every entry whose identifier is `id` removed, order kept.
pub open spec fn without_id(s: Seq<TodoEntry>, id: u32) -> Seq<TodoEntry>
    decreases s.len(),
{
    if s.len() == 0 {
        s
    } else if s.last().id == id {
        without_id(s.drop_last(), id)
    } else {
        without_id(s.drop_last(), id).push(s.last())
    }
}

/// The todo table: entries in display order and the next free
/// identifier.
pub struct TodoStore {
    pub entries: Vec<TodoEntry>,
    pub next_id: u32,
}

impl TodoStore {
    /// The table's invariant: display order is identifier-descending,
    /// and every assigned identifier lies below the counter, so an
    /// insert can never collide with an existing entry.
    pub open spec fn wf(self) -> bool {
        &&& sorted_desc(self.entries@)
        &&& ids_below(self.entries@, self.next_id)
    }

    /// An empty table. The first assigned identifier is 1.
    pub fn new() -> (r: TodoStore)
        ensures
            r.wf(),
            r.entries@ =~= Seq::<TodoEntry>::empty(),
            r.next_id == 1,
    {
        TodoStore { entries: Vec::new(), next_id: 1 }
    }

    /// Inserts a new entry holding the display form of `text`, under a
    /// fresh identifier greater than every identifier ever assigned,
    /// and returns that identifier. The new entry stands first in
    /// display order; the old entries are unchanged behind it.
    pub fn insert(&mut self, text: &str) -> (r: u32)
        requires
            old(self).wf(),
            old(self).next_id < u32::MAX,
        ensures
            final(self).wf(),
            r == old(self).next_id,
            final(self).next_id == old(self).next_id + 1,
            final(self).entries@.len() == old(self).entries@.len() + 1,
            final(self).entries@[0].id == r,
            final(self).entries@[0].text@ == escape_seq(text@),
            final(self).entries@.skip(1) =~= old(self).entries@,
            forall|i: int| 0 <= i < old(self).entries@.len() ==> old(self).entries@[i].id < r,
    {
        let id = self.next_id;
        let entry = TodoEntry { id, text: escape_text(text) };
        self.entries.insert(0, entry);
        self.next_id = self.next_id + 1;
        proof {
            assert(self.entries@.skip(1) =~= old(self).entries@);
        }
        id
    }

    /// Removes the entry carrying `id`, if any; removing an absent
    /// identifier changes nothing. The counter is untouched, so the
    /// identifier is never handed out again.
    pub fn delete(&mut self, id: u32)
        requires
            old(self).wf(),
        ensures
            final(self).wf(),
            final(self).entries@ =~= without_id(old(self).entries@, id),
            final(self).next_id == old(self).next_id,
    {
        let ghost s = self.entries@;
        let mut found: Option<usize> = None;
        let n = self.entries.len();
        let mut i: usize = 0;
        while i < n
            invariant
                n == self.entries@.len(),
                i <= n,
                match found {
                    Some(k) => k < i && self.entries@[k as int].id == id,
                    None => forall|j: int| 0 <= j < i ==> self.entries@[j].id != id,
                },
            decreases n - i,
        {
            if self.entries[i].id == id {
                found = Some(i);
            }
            i = i + 1;
        }
        match found {
            None => {
                proof {
                    lemma_without_id_absent(s, id);
                }
            },
            Some(k) => {
                self.entries.remove(k);
                proof {
                    lemma_without_id_present(s, id, k as int);
                    assert forall|p: int, q: int| 0 <= p < q < self.entries@.len()
                        implies self.entries@[p].id > self.entries@[q].id by {
                        assert(self.entries@[p] == if p < k { s[p] } else { s[p + 1] });
                        assert(self.entries@[q] == if q < k { s[q] } else { s[q + 1] });
                    }
                    assert forall|p: int| 0 <= p < self.entries@.len()
                        implies self.entries@[p].id < self.next_id by {
                        assert(self.entries@[p] == if p < k { s[p] } else { s[p + 1] });
                    }
                }
            },
        }
    }

    /// All entries, in display order: sorted by identifier descending.
    pub fn list(&self) -> (r: &Vec<TodoEntry>)
        requires
            self.wf(),
        ensures
            r@ == self.entries@,
            sorted_desc(r@),
    {
        &self.entries
    }
}

/// Removing an identifier that no entry carries changes nothing.
pub proof fn lemma_without_id_absent(s: Seq<TodoEntry>, id: u32)
    requires
        no_id(s, id),
    ensures
        without_id(s, id) =~= s,
    decreases s.len(),
{
    if s.len() > 0 {
        lemma_without_id_absent(s.drop_last(), id);
    }
}

/// When the identifiers of `s` are unique and `s[k]` carries `id`,
/// removing `id` removes exactly the one entry at `k`.
pub proof fn lemma_without_id_present(s: Seq<TodoEntry>, id: u32, k: int)
    requires
        sorted_desc(s),
        0 <= k < s.len(),
        s[k].id == id,
    ensures
        without_id(s, id) =~= s.remove(k),
    decreases s.len(),
{
    if k == s.len() - 1 {
        assert(no_id(s.drop_last(), id));
        lemma_without_id_absent(s.drop_last(), id);
        assert(s.remove(k) =~= s.drop_last());
    } else {
        assert(s.last().id != id);
        lemma_without_id_present(s.drop_last(), id, k);
        assert(s.drop_last().remove(k).push(s.last()) =~= s.remove(k));
    }
}

/// After removing an identifier, no entry carries it: a second removal
/// of the same identifier changes nothing.
pub proof fn lemma_without_id_removes_all(s: Seq<TodoEntry>, id: u32)
    ensures
        no_id(without_id(s, id), id),
    decreases s.len(),
{
    if s.len() > 0 {
        lemma_without_id_removes_all(s.drop_last(), id);
    }
}

/// Deletion is idempotent: removing the same identifier twice gives
/// the same table as removing it once.
pub proof fn lemma_delete_idempotent(s: Seq<TodoEntry>, id: u32)
    ensures
        without_id(without_id(s, id), id) =~= without_id(s, id),
{
    lemma_without_id_removes_all(s, id);
    lemma_without_id_absent(without_id(s, id), id);
}

/// In a well-formed table every identifier is unique: after any run of
/// inserts, the table holds as many distinct identifiers as entries.
pub proof fn lemma_sorted_ids_distinct(s: Seq<TodoEntry>)
    requires
        sorted_desc(s),
    ensures
        forall|i: int, j: int|
            0 <= i < s.len() && 0 <= j < s.len() && i != j ==> s[i].id != s[j].id,
{
}

} // verus!
