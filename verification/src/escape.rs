//! HTML escaping of text content: the model of the escaping, the trusted call
//! into the escaping crate, and what the escaped text is guaranteed not to
//! contain.

use vstd::prelude::*;

verus! {

/// What one character becomes in escaped text: the six characters that HTML
/// treats as markup or quoting are rewritten to entities, every other
/// character stands as it is.
pub open spec fn escape_char(c: char) -> Seq<char> {
    if c == '"' {
        seq!['&', 'q', 'u', 'o', 't', ';']
    } else if c == '&' {
        seq!['&', 'a', 'm', 'p', ';']
    } else if c == '\'' {
        seq!['&', '#', 'x', '2', '7', ';']
    } else if c == '/' {
        seq!['&', '#', 'x', '2', 'f', ';']
    } else if c == '<' {
        seq!['&', 'l', 't', ';']
    } else if c == '>' {
        seq!['&', 'g', 't', ';']
    } else {
        seq![c]
    }
}

/// A text HTML-escaped: the concatenation of `escape_char` over its
/// characters.
pub open spec fn escape_seq(s: Seq<char>) -> Seq<char>
    decreases s.len(),
{
    if s.len() == 0 {
        Seq::empty()
    } else {
        escape_char(s[0]) + escape_seq(s.skip(1))
    }
}

/// Relies on v_htmlescape::escape_string: it appends the input to the buffer
/// with `"`, `&`, `'`, `/`, `<` and `>` rewritten to their HTML entities
/// (`&quot;`, `&amp;`, `&#x27;`, `&#x2f;`, `&lt;`, `&gt;`) and every other
/// character forwarded verbatim.
#[verifier::external_body]
pub(crate) fn escape_into(out: &mut String, s: &str)
    ensures
        final(out)@ == old(out)@ + escape_seq(s@),
{
    v_htmlescape::escape_string(s, out)
}

/// Escaped text never contains a raw `<` or `>`: every occurrence in the
/// input was rewritten to an entity, and no entity contains one.
pub proof fn lemma_escape_no_markup(s: Seq<char>)
    ensures
        forall|i: int|
            0 <= i < escape_seq(s).len() ==> escape_seq(s)[i] != '<' && escape_seq(s)[i] != '>',
    decreases s.len(),
{
    if s.len() == 0 {
    } else {
        lemma_escape_no_markup(s.skip(1));
        let e = escape_char(s[0]);
        let rest = escape_seq(s.skip(1));
        assert(forall|i: int| 0 <= i < e.len() ==> e[i] != '<' && e[i] != '>');
        assert forall|i: int| 0 <= i < escape_seq(s).len() implies escape_seq(s)[i] != '<'
            && escape_seq(s)[i] != '>' by {
            if i < e.len() {
                assert(escape_seq(s)[i] == e[i]);
            } else {
                assert(escape_seq(s)[i] == rest[i - e.len()]);
            }
        }
    }
}

/// Escaping leaves a text without any of the six special characters
/// unchanged.
pub proof fn lemma_escape_plain(s: Seq<char>)
    requires
        forall|i: int|
            0 <= i < s.len() ==> s[i] != '"' && s[i] != '&' && s[i] != '\'' && s[i] != '/' && s[i]
                != '<' && s[i] != '>',
    ensures
        escape_seq(s) == s,
    decreases s.len(),
{
    if s.len() == 0 {
        assert(escape_seq(s) =~= s);
    } else {
        lemma_escape_plain(s.skip(1));
        assert(escape_char(s[0]) =~= seq![s[0]]);
        assert(escape_seq(s) =~= s);
    }
}

} // verus!
