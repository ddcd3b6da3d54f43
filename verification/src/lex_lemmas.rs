//! What the tokenizer makes of texts of known shape, and of texts put end to
//! end.

use vstd::prelude::*;
use crate::lex::{
    content_kind, lex_spec, line_len, line_tokens, newline_len, piece, SyntaxKind, TokenView,
};
use crate::text::{is_blank, is_newline, lemma_scan, scan, CharClass};

verus! {

/// Whether `s` holds no line terminator.
pub open spec fn no_newline(s: Seq<char>) -> bool {
    forall|i: int| 0 <= i < s.len() ==> !is_newline(#[trigger] s[i])
}

/// Whether `s` is made of complete lines that end in a line feed.
pub open spec fn ends_line(s: Seq<char>) -> bool {
    s.len() == 0 || s.last() == '\n'
}

/// Whether `key` can be the name of a field: it is not empty, holds neither
/// a colon nor a line terminator, and starts with neither `#` nor a blank.
pub open spec fn is_key(key: Seq<char>) -> bool {
    &&& key.len() > 0
    &&& key[0] != '#'
    &&& !is_blank(key[0])
    &&& no_newline(key)
    &&& forall|i: int| 0 <= i < key.len() ==> #[trigger] key[i] != ':'
}

/// Whether `text` can stand after the blanks that follow a colon: it holds
/// no line terminator and starts with no blank.
pub open spec fn is_line_value(text: Seq<char>) -> bool {
    &&& no_newline(text)
    &&& text.len() > 0 ==> !is_blank(text[0])
}

/// Whether `w` is a run of blanks that is not empty.
pub open spec fn is_indent(w: Seq<char>) -> bool {
    &&& w.len() > 0
    &&& forall|i: int| 0 <= i < w.len() ==> is_blank(#[trigger] w[i])
}

/// The token of a line feed.
pub open spec fn line_feed() -> TokenView {
    TokenView { kind: SyntaxKind::Newline, text: seq!['\n'] }
}

/// The text of `k` line feeds.
pub open spec fn line_feeds(k: nat) -> Seq<char> {
    Seq::new(k, |i: int| '\n')
}

/// The tokens of `k` line feeds.
pub open spec fn line_feed_tokens(k: nat) -> Seq<TokenView> {
    Seq::new(k, |i: int| line_feed())
}

/// The tokens of complete lines do not depend on what follows the lines.
pub proof fn lemma_lex_concat(a: Seq<char>, b: Seq<char>)
    requires
        ends_line(a),
    ensures
        lex_spec(a + b) == lex_spec(a) + lex_spec(b),
    decreases a.len(),
{
    if a.len() == 0 {
        assert(a + b =~= b);
        lemma_scan(a, 0, CharClass::NotNewline, 0);
        assert(lex_spec(a) =~= Seq::empty());
        assert(lex_spec(a) + lex_spec(b) =~= lex_spec(b));
    } else {
        let s = a + b;
        let e = line_len(a);
        lemma_scan(a, 0, CharClass::NotNewline, 0);
        assert(e < a.len()) by {
            if e == a.len() {
                assert(CharClass::NotNewline.holds(a[a.len() - 1]));
            }
        }
        assert forall|j: int| 0 <= j < e implies CharClass::NotNewline.holds(#[trigger] s[j]) by {
            assert(s[j] == a[j]);
        }
        assert(s[e] == a[e]);
        lemma_scan(s, 0, CharClass::NotNewline, e);
        assert(line_len(s) == e);
        if e + 1 < a.len() {
            assert(s[e + 1] == a[e + 1]);
        }
        let n = e + newline_len(a, e);
        assert(newline_len(s, e) == newline_len(a, e));
        assert(s.take(e) =~= a.take(e));
        assert(s.subrange(e, n) =~= a.subrange(e, n));
        assert(s.skip(n) =~= a.skip(n) + b);
        if a.skip(n).len() > 0 {
            assert(a.skip(n).last() == a.last());
        }
        lemma_lex_concat(a.skip(n), b);
        assert(lex_spec(s) =~= lex_spec(a) + lex_spec(b));
    }
}

/// The tokens of a text that ends in a line feed end in a `Newline`.
pub proof fn lemma_lex_ends_line(a: Seq<char>)
    requires
        a.len() > 0,
        a.last() == '\n',
    ensures
        lex_spec(a).len() > 0,
        lex_spec(a).last().kind == SyntaxKind::Newline,
    decreases a.len(),
{
    let e = line_len(a);
    lemma_scan(a, 0, CharClass::NotNewline, 0);
    assert(e < a.len()) by {
        if e == a.len() {
            assert(CharClass::NotNewline.holds(a[a.len() - 1]));
        }
    }
    let n = e + newline_len(a, e);
    let head = line_tokens(a.take(e)) + piece(SyntaxKind::Newline, a.subrange(e, n));
    assert(head.last().kind == SyntaxKind::Newline);
    if n < a.len() {
        assert(a.skip(n).last() == a.last());
        lemma_lex_ends_line(a.skip(n));
        assert((head + lex_spec(a.skip(n))).last() == lex_spec(a.skip(n)).last());
    } else {
        lemma_scan(a.skip(n), 0, CharClass::NotNewline, 0);
        assert(lex_spec(a.skip(n)) =~= Seq::empty());
        assert(head + lex_spec(a.skip(n)) =~= head);
    }
}

/// A line without terminator gives its own tokens; with a line feed after
/// it, a `Newline` follows them.
pub proof fn lemma_lex_line(l: Seq<char>)
    requires
        no_newline(l),
    ensures
        lex_spec(l) == line_tokens(l),
        lex_spec(l + seq!['\n']) == line_tokens(l).push(line_feed()),
{
    lemma_scan(l, 0, CharClass::NotNewline, l.len() as int);
    let s = l + seq!['\n'];
    assert forall|j: int| 0 <= j < l.len() implies CharClass::NotNewline.holds(#[trigger] s[j]) by {
        assert(s[j] == l[j]);
    }
    assert(s[l.len() as int] == '\n');
    lemma_scan(s, 0, CharClass::NotNewline, l.len() as int);
    let e = l.len() as int;
    assert(s.take(e) =~= l);
    assert(s.subrange(e, e + 1) =~= seq!['\n']);
    assert(s.skip(e + 1) =~= Seq::empty());
    lemma_scan(s.skip(e + 1), 0, CharClass::NotNewline, 0);
    assert(lex_spec(s.skip(e + 1)) =~= Seq::empty());
    assert(lex_spec(s) =~= line_tokens(l).push(line_feed()));
}

/// Line feeds in a row give one `Newline` each.
pub proof fn lemma_lex_line_feeds(k: nat)
    ensures
        lex_spec(line_feeds(k)) == line_feed_tokens(k),
    decreases k,
{
    let s = line_feeds(k);
    if k == 0 {
        lemma_scan(s, 0, CharClass::NotNewline, 0);
        assert(lex_spec(s) =~= line_feed_tokens(k));
    } else {
        let rest = line_feeds((k - 1) as nat);
        assert(s =~= seq!['\n'] + rest);
        assert(no_newline(Seq::<char>::empty()));
        lemma_lex_line(Seq::empty());
        assert(Seq::<char>::empty() + seq!['\n'] =~= seq!['\n']);
        lemma_lex_concat(seq!['\n'], rest);
        lemma_lex_line_feeds((k - 1) as nat);
        assert(line_tokens(Seq::empty()) =~= Seq::empty());
        assert(lex_spec(s) =~= line_feed_tokens(k));
    }
}

/// The tokens of a line `Key: value`, with any run of blanks after the
/// colon.
pub proof fn lemma_field_line(key: Seq<char>, blanks: Seq<char>, value: Seq<char>)
    requires
        is_key(key),
        forall|i: int| 0 <= i < blanks.len() ==> is_blank(#[trigger] blanks[i]),
        value.len() > 0 ==> !is_blank(value[0]),
    ensures
        line_tokens(key + seq![':'] + blanks + value) == seq![
            TokenView { kind: SyntaxKind::Key, text: key },
            TokenView { kind: SyntaxKind::Colon, text: seq![':'] },
        ] + piece(SyntaxKind::Whitespace, blanks) + piece(SyntaxKind::Value, value),
{
    let l = key + seq![':'] + blanks + value;
    let k = key.len() as int;
    let w = k + 1 + blanks.len();
    assert(l[0] == key[0]);
    assert forall|j: int| 0 <= j < k implies CharClass::Except(':').holds(#[trigger] l[j]) by {
        assert(l[j] == key[j]);
    }
    assert(l[k] == ':');
    lemma_scan(l, 0, CharClass::Except(':'), k);
    assert forall|j: int| k + 1 <= j < w implies CharClass::Blank.holds(#[trigger] l[j]) by {
        assert(l[j] == blanks[j - k - 1]);
    }
    if w < l.len() {
        assert(l[w] == value[0]);
    }
    lemma_scan(l, k + 1, CharClass::Blank, w);
    assert(l.take(k) =~= key);
    assert(l.subrange(k, k + 1) =~= seq![':']);
    assert(l.subrange(k + 1, w) =~= blanks);
    assert(l.skip(w) =~= value);
    assert(line_tokens(l) =~= seq![
        TokenView { kind: SyntaxKind::Key, text: key },
        TokenView { kind: SyntaxKind::Colon, text: seq![':'] },
    ] + piece(SyntaxKind::Whitespace, blanks) + piece(SyntaxKind::Value, value));
}

/// The tokens of a line that is a key and nothing else.
pub proof fn lemma_key_line(key: Seq<char>)
    requires
        is_key(key),
    ensures
        line_tokens(key) == seq![TokenView { kind: SyntaxKind::Key, text: key }],
{
    lemma_scan(key, 0, CharClass::Except(':'), key.len() as int);
}

/// The tokens of an indented line.
pub proof fn lemma_indented_line(indent: Seq<char>, content: Seq<char>)
    requires
        is_indent(indent),
        content.len() > 0 ==> !is_blank(content[0]),
    ensures
        line_tokens(indent + content) == seq![
            TokenView { kind: SyntaxKind::Indent, text: indent },
        ] + piece(content_kind(content), content),
{
    let l = indent + content;
    let w = indent.len() as int;
    assert(l[0] == indent[0]);
    assert forall|j: int| 0 <= j < w implies CharClass::Blank.holds(#[trigger] l[j]) by {
        assert(l[j] == indent[j]);
    }
    if w < l.len() {
        assert(l[w] == content[0]);
    }
    lemma_scan(l, 0, CharClass::Blank, w);
    assert(l.take(w) =~= indent);
    assert(l.skip(w) =~= content);
    assert(line_tokens(l) =~= seq![TokenView { kind: SyntaxKind::Indent, text: indent }] + piece(
        content_kind(content),
        content,
    ));
}

/// A text that starts with no blank does not start with an `Indent`.
pub proof fn lemma_lex_first_kind(b: Seq<char>)
    requires
        b.len() > 0,
        !is_blank(b[0]),
    ensures
        lex_spec(b).len() > 0,
        lex_spec(b)[0].kind != SyntaxKind::Indent,
{
    let e = line_len(b);
    lemma_scan(b, 0, CharClass::NotNewline, 0);
    let l = b.take(e);
    if e > 0 {
        assert(l[0] == b[0]);
        if l[0] != '#' && l[0] != ':' {
            lemma_scan(l, 0, CharClass::Except(':'), 0);
            let k = scan(l, 0, CharClass::Except(':'));
            assert(k >= 1) by {
                if k == 0 {
                    assert(!CharClass::Except(':').holds(l[0]));
                }
            }
            if k < l.len() {
                assert(line_tokens(l)[0].kind == SyntaxKind::Key);
            }
        }
        assert(line_tokens(l).len() > 0);
        assert(line_tokens(l)[0].kind != SyntaxKind::Indent);
        if e < b.len() {
            assert(lex_spec(b)[0] == line_tokens(l)[0]);
        } else {
            assert(l =~= b);
        }
    } else {
        assert(line_tokens(l) =~= Seq::empty());
        let n = e + newline_len(b, e);
        assert(lex_spec(b)[0] == piece(SyntaxKind::Newline, b.subrange(e, n))[0]);
    }
}

/// The tokens of a comment line.
pub proof fn lemma_comment_line(comment: Seq<char>)
    requires
        no_newline(comment),
    ensures
        lex_spec(seq!['#'] + comment + seq!['\n']) == seq![
            TokenView { kind: SyntaxKind::Comment, text: seq!['#'] + comment },
            line_feed(),
        ],
{
    let l = seq!['#'] + comment;
    assert forall|i: int| 0 <= i < l.len() implies !is_newline(#[trigger] l[i]) by {
        if i > 0 {
            assert(l[i] == comment[i - 1]);
        }
    }
    lemma_lex_line(l);
    assert(lex_spec(l + seq!['\n']) =~= seq![
        TokenView { kind: SyntaxKind::Comment, text: l },
        line_feed(),
    ]);
}

} // verus!
