use vstd::prelude::*;
use crate::text::{chars_of, string_from_chars};

verus! {

/// The characters that Telegram's MarkdownV2 reserves and that the converter
/// escapes with a backslash.
pub open spec fn is_reserved(c: char) -> bool {
    c == '\\' || c == '[' || c == ']' || c == '(' || c == ')' || c == '~' || c == '`' || c == '>'
        || c == '#' || c == '+' || c == '-' || c == '=' || c == '|' || c == '{' || c == '}' || c
        == '.' || c == '!'
}

/// The text of one character after escaping.
pub open spec fn escape_char(c: char) -> Seq<char> {
    if is_reserved(c) {
        seq!['\\', c]
    } else {
        seq![c]
    }
}

/// `s` with a backslash put before every reserved character.
pub open spec fn escape_markdown(s: Seq<char>) -> Seq<char>
    decreases s.len(),
{
    if s.len() == 0 {
        Seq::empty()
    } else {
        escape_markdown(s.drop_last()) + escape_char(s.last())
    }
}

/// Escaping works character by character: the escape of a text followed by
/// another is the escape of the first followed by the escape of the second.
pub proof fn lemma_escape_concat(a: Seq<char>, b: Seq<char>)
    ensures
        escape_markdown(a + b) == escape_markdown(a) + escape_markdown(b),
    decreases b.len(),
{
    if b.len() == 0 {
        assert(a + b =~= a);
        assert(escape_markdown(a) + escape_markdown(b) =~= escape_markdown(a));
    } else {
        lemma_escape_concat(a, b.drop_last());
        assert((a + b).drop_last() =~= a + b.drop_last());
        assert((a + b).last() == b.last());
        assert(escape_markdown(a) + escape_markdown(b) =~= escape_markdown(a) + escape_markdown(b.drop_last())
            + escape_char(b.last()));
    }
}

/// What the escaping does to each character: the characters
/// \ [ ] ( ) ~ ` > # + - = | { } . ! get a backslash in front, every other
/// character stays as it is, and a text is escaped character by character.
pub proof fn lemma_escape_markdown_law(c: char, a: Seq<char>, b: Seq<char>)
    ensures
        escape_markdown(seq![c]) == if c == '\\' || c == '[' || c == ']' || c == '(' || c == ')' || c == '~'
            || c == '`' || c == '>' || c == '#' || c == '+' || c == '-' || c == '=' || c == '|' || c == '{'
            || c == '}' || c == '.' || c == '!' {
            seq!['\\', c]
        } else {
            seq![c]
        },
        escape_markdown(a + b) == escape_markdown(a) + escape_markdown(b),
{
    assert(seq![c].drop_last() =~= Seq::<char>::empty());
    assert(escape_markdown(Seq::<char>::empty()) == Seq::<char>::empty());
    assert(escape_markdown(seq![c]) == escape_markdown(seq![c].drop_last()) + escape_char(seq![c].last()));
    assert(Seq::<char>::empty() + escape_char(c) =~= escape_char(c));
    lemma_escape_concat(a, b);
}

fn is_reserved_exec(c: char) -> (res: bool)
    ensures
        res == is_reserved(c),
{
    c == '\\' || c == '[' || c == ']' || c == '(' || c == ')' || c == '~' || c == '`' || c == '>'
        || c == '#' || c == '+' || c == '-' || c == '=' || c == '|' || c == '{' || c == '}' || c
        == '.' || c == '!'
}

/// Escapes the characters that MarkdownV2 reserves (backslash first, then
/// `[ ] ( ) ~ \` > # + - = | { } . !`), so that Telegram shows the text as written.
pub fn convert_markdown_to_telegram(markdown: &str) -> (res: String)
    ensures
        res@ == escape_markdown(markdown@),
{
    let cs = chars_of(markdown);
    let mut out: Vec<char> = Vec::new();
    let mut i: usize = 0;
    while i < cs.len()
        invariant
            i <= cs@.len(),
            out@ == escape_markdown(cs@.take(i as int)),
        decreases cs.len() - i,
    {
        let c = cs[i];
        assert(cs@.take(i + 1).drop_last() =~= cs@.take(i as int));
        let ghost before = out@;
        if is_reserved_exec(c) {
            out.push('\\');
        }
        out.push(c);
        assert(out@ =~= before + escape_char(c));
        i = i + 1;
    }
    assert(cs@.take(i as int) =~= markdown@);
    string_from_chars(&out)
}


/// The HTML that CommonMark rendering gives for a markdown text.
pub uninterp spec fn commonmark_html(markdown: Seq<char>) -> Seq<char>;

/// Renders markdown as HTML: calls `pulldown_cmark::Parser::new` on the text
/// and `pulldown_cmark::html::push_html` into an empty string. The contract
/// names the result; the renderer is not restated.
#[verifier::external_body]
pub fn markdown_to_html(markdown: &str) -> (res: String)
    ensures
        res@ == commonmark_html(markdown@),
{
    let parser = pulldown_cmark::Parser::new(markdown);
    let mut html_output = String::new();
    pulldown_cmark::html::push_html(&mut html_output, parser);
    html_output
}

} // verus!
