use vstd::prelude::*;

verus! {

/// How one character is rendered in escaped HTML text: the five
/// markup-significant characters become entities, every other character
/// stays itself.
pub open spec fn escape_char(c: char) -> Seq<char> {
    if c == '"' {
        seq!['&', 'q', 'u', 'o', 't', ';']
    } else if c == '&' {
        seq!['&', 'a', 'm', 'p', ';']
    } else if c == '\'' {
        seq!['&', '#', 'x', '2', '7', ';']
    } else if c == '<' {
        seq!['&', 'l', 't', ';']
    } else if c == '>' {
        seq!['&', 'g', 't', ';']
    } else {
        seq![c]
    }
}

/// A string rendered in escaped HTML text, character by character.
pub open spec fn escaped(s: Seq<char>) -> Seq<char>
    decreases s.len(),
{
    if s.len() == 0 {
        Seq::empty()
    } else {
        escape_char(s[0]) + escaped(s.drop_first())
    }
}

/// Relies on htmlescape::encode_minimal: it replaces each of `"` `&` `'`
/// `<` `>` by its entity and keeps every other character unchanged.
#[verifier::external_body]
pub fn escape_html(s: &str) -> (r: String)
    ensures
        r@ == escaped(s@),
{
    htmlescape::encode_minimal(s)
}

/// An escaped string never holds a raw `<` or `>`: markup cannot be
/// injected through entry names or paths.
pub proof fn lemma_escaped_no_markup(s: Seq<char>)
    ensures
        forall|i: int| 0 <= i < escaped(s).len() ==> escaped(s)[i] != '<' && escaped(s)[i] != '>',
    decreases s.len(),
{
    if s.len() != 0 {
        lemma_escaped_no_markup(s.drop_first());
        assert forall|i: int| 0 <= i < escaped(s).len() implies escaped(s)[i] != '<' && escaped(
            s,
        )[i] != '>' by {
            if i < escape_char(s[0]).len() {
                assert(escaped(s)[i] == escape_char(s[0])[i]);
            } else {
                assert(escaped(s)[i] == escaped(s.drop_first())[i - escape_char(s[0]).len()]);
            }
        }
    }
}

} // verus!
