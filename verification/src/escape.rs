//! Write-time transformation of user text into its display form.
//!
//! Entry text is stored already prepared for HTML display: the five
//! HTML-significant characters become character entities and a newline
//! becomes a line-break tag.

use vstd::prelude::*;

verus! {

/// The display form of one character of user text.
pub open spec fn escaped_char(c: char) -> Seq<char> {
    if c == '&' {
        seq!['&', 'a', 'm', 'p', ';']
    } else if c == '<' {
        seq!['&', 'l', 't', ';']
    } else if c == '>' {
        seq!['&', 'g', 't', ';']
    } else if c == '"' {
        seq!['&', 'q', 'u', 'o', 't', ';']
    } else if c == '\'' {
        seq!['&', '#', '3', '9', ';']
    } else if c == '\n' {
        seq!['<', 'b', 'r', ' ', '/', '>']
    } else {
        seq![c]
    }
}

/// The display form of a whole text: each character replaced by its
/// display form, in order.
pub open spec fn escape_seq(s: Seq<char>) -> Seq<char>
    decreases s.len(),
{
    if s.len() == 0 {
        Seq::empty()
    } else {
        escape_seq(s.drop_last()) + escaped_char(s.last())
    }
}

/// Relies on String::push: appends exactly the one character.
#[verifier::external_body]
pub(crate) fn push_char(s: &mut String, c: char)
    ensures
        final(s)@ == old(s)@.push(c),
{
    s.push(c);
}

/// Escapes user text for HTML display and turns each newline into a
/// line-break tag.
pub fn escape_text(s: &str) -> (out: String)
    ensures
        out@ == escape_seq(s@),
{
    let n = s.unicode_len();
    let mut out = String::new();
    let mut i: usize = 0;
    while i < n
        invariant
            n == s@.len(),
            i <= n,
            out@ == escape_seq(s@.take(i as int)),
        decreases n - i,
    {
        let ghost prev = out@;
        let c = s.get_char(i);
        if c == '&' {
            out.append("&amp;");
            proof {
                reveal_strlit("&amp;");
                assert("&amp;"@ =~= escaped_char(c));
            }
        } else if c == '<' {
            out.append("&lt;");
            proof {
                reveal_strlit("&lt;");
                assert("&lt;"@ =~= escaped_char(c));
            }
        } else if c == '>' {
            out.append("&gt;");
            proof {
                reveal_strlit("&gt;");
                assert("&gt;"@ =~= escaped_char(c));
            }
        } else if c == '"' {
            out.append("&quot;");
            proof {
                reveal_strlit("&quot;");
                assert("&quot;"@ =~= escaped_char(c));
            }
        } else if c == '\'' {
            out.append("&#39;");
            proof {
                reveal_strlit("&#39;");
                assert("&#39;"@ =~= escaped_char(c));
            }
        } else if c == '\n' {
            out.append("<br />");
            proof {
                reveal_strlit("<br />");
                assert("<br />"@ =~= escaped_char(c));
            }
        } else {
            push_char(&mut out, c);
            proof {
                assert(prev.push(c) =~= prev + escaped_char(c));
            }
        }
        proof {
            assert(s@.take(i + 1).drop_last() =~= s@.take(i as int));
            assert(s@.take(i + 1).last() == s@[i as int]);
            assert(out@ == escape_seq(s@.take(i + 1)));
        }
        i = i + 1;
    }
    proof {
        assert(s@.take(n as int) =~= s@);
    }
    out
}

/// Every `<` in `t` is the opening of a line-break tag: nothing else
/// in `t` can open a markup tag.
pub open spec fn lt_only_breaks(t: Seq<char>) -> bool {
    forall|i: int|
        0 <= i < t.len() && #[trigger] t[i] == '<' ==> i + 6 <= t.len() && t[i + 1] == 'b' && t[i
            + 2] == 'r' && t[i + 3] == ' ' && t[i + 4] == '/' && t[i + 5] == '>'
}

/// Escaped text opens no markup tag of its own: the only `<` it can
/// hold is the opening of the line-break tag that stands for a
/// newline. In particular no raw tag of the user's text, such as a
/// script tag, survives escaping.
pub proof fn lemma_escape_lt_only_breaks(s: Seq<char>)
    ensures
        lt_only_breaks(escape_seq(s)),
    decreases s.len(),
{
    if s.len() > 0 {
        lemma_escape_lt_only_breaks(s.drop_last());
        let pre = escape_seq(s.drop_last());
        let suf = escaped_char(s.last());
        assert(escape_seq(s) == pre + suf);
        assert forall|i: int|
            0 <= i < escape_seq(s).len() && #[trigger] escape_seq(s)[i] == '<' implies i + 6
            <= escape_seq(s).len() && escape_seq(s)[i + 1] == 'b' && escape_seq(s)[i + 2] == 'r'
            && escape_seq(s)[i + 3] == ' ' && escape_seq(s)[i + 4] == '/' && escape_seq(s)[i + 5]
            == '>' by {
            if i < pre.len() {
                assert(pre[i] == '<');
                assert(i + 6 <= pre.len());
            } else {
                assert(suf[i - pre.len()] == '<');
                assert(s.last() == '\n');
                assert(i == pre.len());
            }
        }
    }
}

/// Text without a newline escapes to text without any `<` or `>`: no
/// markup at all can appear in its display form.
pub proof fn lemma_escape_no_markup(s: Seq<char>)
    requires
        forall|i: int| 0 <= i < s.len() ==> s[i] != '\n',
    ensures
        forall|i: int|
            0 <= i < escape_seq(s).len() ==> escape_seq(s)[i] != '<' && escape_seq(s)[i] != '>',
    decreases s.len(),
{
    if s.len() > 0 {
        assert(forall|i: int| 0 <= i < s.drop_last().len() ==> s.drop_last()[i] != '\n');
        lemma_escape_no_markup(s.drop_last());
        let pre = escape_seq(s.drop_last());
        let suf = escaped_char(s.last());
        assert(escape_seq(s) == pre + suf);
        assert forall|i: int| 0 <= i < escape_seq(s).len() implies escape_seq(s)[i] != '<'
            && escape_seq(s)[i] != '>' by {
            if i < pre.len() {
                assert(escape_seq(s)[i] == pre[i]);
            } else {
                assert(escape_seq(s)[i] == suf[i - pre.len()]);
            }
        }
    }
}

} // verus!
