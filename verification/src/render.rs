//! Rendering a sequence of entries into a complete HTML document.
//!
//! The page lists each entry's text with a delete control keyed by its
//! identifier, followed by a form for submitting new entry text. Entry
//! text is already in display form when it reaches the renderer (see
//! `escape_text`), so it is emitted as it stands.

use vstd::prelude::*;
use crate::escape::push_char;
use crate::store::TodoEntry;

verus! {

/// The decimal digit character for `d`.
pub open spec fn digit_char(d: nat) -> char {
    if d == 0 {
        '0'
    } else if d == 1 {
        '1'
    } else if d == 2 {
        '2'
    } else if d == 3 {
        '3'
    } else if d == 4 {
        '4'
    } else if d == 5 {
        '5'
    } else if d == 6 {
        '6'
    } else if d == 7 {
        '7'
    } else if d == 8 {
        '8'
    } else {
        '9'
    }
}

/// The decimal numeral for `n`, most significant digit first, with no
/// leading zero except for `n == 0` itself.
pub open spec fn dec_seq(n: nat) -> Seq<char>
    decreases n,
{
    if n < 10 {
        seq![digit_char(n)]
    } else {
        dec_seq(n / 10).push(digit_char(n % 10))
    }
}

/// The digit character for one digit value.
fn digit(d: u32) -> (c: char)
    requires
        d < 10,
    ensures
        c == digit_char(d as nat),
{
    if d == 0 {
        '0'
    } else if d == 1 {
        '1'
    } else if d == 2 {
        '2'
    } else if d == 3 {
        '3'
    } else if d == 4 {
        '4'
    } else if d == 5 {
        '5'
    } else if d == 6 {
        '6'
    } else if d == 7 {
        '7'
    } else if d == 8 {
        '8'
    } else {
        '9'
    }
}

/// The decimal numeral for `n` as a string.
pub fn u32_to_dec(n: u32) -> (s: String)
    ensures
        s@ == dec_seq(n as nat),
    decreases n,
{
    if n < 10 {
        let mut s = String::new();
        push_char(&mut s, digit(n));
        proof {
            assert(s@ =~= dec_seq(n as nat));
        }
        s
    } else {
        let mut s = u32_to_dec(n / 10);
        push_char(&mut s, digit(n % 10));
        s
    }
}

/// The page fragment for one entry: its text and a delete control
/// keyed by its identifier.
pub open spec fn row_spec(e: TodoEntry) -> Seq<char> {
    "<li>"@ + e.text@
        + "<form action=\"/delete\" method=\"post\"><input type=\"hidden\" name=\"id\" value=\""@
        + dec_seq(e.id as nat) + "\"><button>delete</button></form></li>"@
}

/// The page fragments for a sequence of entries, in order.
pub open spec fn rows_spec(s: Seq<TodoEntry>) -> Seq<char>
    decreases s.len(),
{
    if s.len() == 0 {
        Seq::empty()
    } else {
        rows_spec(s.drop_last()) + row_spec(s.last())
    }
}

/// The complete HTML document for a sequence of entries: a heading,
/// the entries in the order given, and the form for a new entry.
pub open spec fn page_spec(s: Seq<TodoEntry>) -> Seq<char> {
    "<!DOCTYPE html><html><head><meta charset=\"utf-8\"><title>Todo</title></head><body><h1>Todo</h1><ul>"@
        + rows_spec(s)
        + "</ul><form action=\"/add\" method=\"post\"><input type=\"text\" name=\"text\"><button>add</button></form></body></html>"@
}

/// Renders the entries, in the order given, into the complete HTML
/// document.
pub fn render_page(entries: &Vec<TodoEntry>) -> (out: String)
    ensures
        out@ == page_spec(entries@),
{
    let mut out = String::from_str(
        "<!DOCTYPE html><html><head><meta charset=\"utf-8\"><title>Todo</title></head><body><h1>Todo</h1><ul>",
    );
    let ghost head = out@;
    let n = entries.len();
    let mut i: usize = 0;
    while i < n
        invariant
            n == entries@.len(),
            i <= n,
            out@ == head + rows_spec(entries@.take(i as int)),
        decreases n - i,
    {
        let ghost prev = out@;
        let e = &entries[i];
        out.append("<li>");
        out.append(e.text.as_str());
        out.append(
            "<form action=\"/delete\" method=\"post\"><input type=\"hidden\" name=\"id\" value=\"",
        );
        let id_str = u32_to_dec(e.id);
        out.append(id_str.as_str());
        out.append("\"><button>delete</button></form></li>");
        proof {
            assert(out@ =~= prev + row_spec(entries@[i as int]));
            assert(entries@.take(i + 1).drop_last() =~= entries@.take(i as int));
            assert(entries@.take(i + 1).last() == entries@[i as int]);
            assert(out@ =~= head + rows_spec(entries@.take(i + 1)));
        }
        i = i + 1;
    }
    out.append(
        "</ul><form action=\"/add\" method=\"post\"><input type=\"text\" name=\"text\"><button>add</button></form></body></html>",
    );
    proof {
        assert(entries@.take(n as int) =~= entries@);
        assert(out@ =~= page_spec(entries@));
    }
    out
}

} // verus!
