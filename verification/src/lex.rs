//! The tokenizer: raw text to a sequence of classified tokens.
//!
//! Tokenization works line by line. A line ends at a line feed, a carriage
//! return, or a carriage return followed by a line feed, and what a line
//! holds decides how it is cut:
//!
//! * an empty line gives no token but its terminator;
//! * a line that starts with `#` is one `Comment`;
//! * a line that starts with a space or a tab is an `Indent` (the whole run
//!   of blanks) and the rest, if any: a `Comment` if it starts with `#`,
//!   else a `Value`;
//! * a line that starts with `:` is one `Error`;
//! * any other line is a `Key` up to its first `:`, the `Colon`, a
//!   `Whitespace` run and a `Value`; without a `:` the whole line is a `Key`.
//!
//! Every terminator is a `Newline` token of its own. No token is empty, and
//! the token texts, put end to end, are the input.

use vstd::prelude::*;
use crate::text::{
    chars_of, is_blank, lemma_scan, lemma_scan_window, scan, scan_while, string_of, CharClass,
};

verus! {

/// What a token is.
#[derive(Clone, Copy, Debug, PartialEq, Eq, Hash, Structural)]
pub enum SyntaxKind {
    /// A field name.
    Key,
    /// The `:` after a field name.
    Colon,
    /// Field content on one line.
    Value,
    /// Blanks between the colon and the value.
    Whitespace,
    /// Blanks at the start of a line.
    Indent,
    /// A line terminator.
    Newline,
    /// A line that starts with `#`.
    Comment,
    /// A line that fits no rule.
    Error,
}

/// A classified piece of the source text.
#[derive(Clone, Debug, PartialEq, Eq)]
pub struct Token {
    pub kind: SyntaxKind,
    pub text: String,
}

/// The mathematical value of a [`Token`].
#[verifier::ext_equal]
pub struct TokenView {
    pub kind: SyntaxKind,
    pub text: Seq<char>,
}

impl View for Token {
    type V = TokenView;

    open spec fn view(&self) -> TokenView {
        TokenView { kind: self.kind, text: self.text@ }
    }
}

/// The values of a sequence of tokens.
pub open spec fn token_views(tokens: Seq<Token>) -> Seq<TokenView> {
    tokens.map_values(|t: Token| t@)
}

/// No token, or one token of the given kind, depending on whether `text` is
/// empty.
pub open spec fn piece(kind: SyntaxKind, text: Seq<char>) -> Seq<TokenView> {
    if text.len() == 0 {
        Seq::empty()
    } else {
        seq![TokenView { kind, text }]
    }
}

/// What the content of an indented line is: a comment if it starts with `#`,
/// else a value.
pub open spec fn content_kind(content: Seq<char>) -> SyntaxKind {
    if content.len() > 0 && content[0] == '#' {
        SyntaxKind::Comment
    } else {
        SyntaxKind::Value
    }
}

/// The tokens of one line, `l` being the line without its terminator.
pub open spec fn line_tokens(l: Seq<char>) -> Seq<TokenView> {
    if l.len() == 0 {
        Seq::empty()
    } else if l[0] == '#' {
        piece(SyntaxKind::Comment, l)
    } else if is_blank(l[0]) {
        let w = scan(l, 0, CharClass::Blank);
        piece(SyntaxKind::Indent, l.take(w)) + piece(content_kind(l.skip(w)), l.skip(w))
    } else if l[0] == ':' {
        piece(SyntaxKind::Error, l)
    } else {
        let k = scan(l, 0, CharClass::Except(':'));
        if k >= l.len() {
            piece(SyntaxKind::Key, l)
        } else {
            let w = scan(l, k + 1, CharClass::Blank);
            piece(SyntaxKind::Key, l.take(k)) + piece(SyntaxKind::Colon, l.subrange(k, k + 1))
                + piece(SyntaxKind::Whitespace, l.subrange(k + 1, w)) + piece(
                SyntaxKind::Value,
                l.skip(w),
            )
        }
    }
}

/// The length of the first line of `s`, terminator excluded.
pub open spec fn line_len(s: Seq<char>) -> int {
    scan(s, 0, CharClass::NotNewline)
}

/// The length of the line terminator that starts at `e`: two for a carriage
/// return followed by a line feed, else one.
pub open spec fn newline_len(s: Seq<char>, e: int) -> int {
    if e + 1 < s.len() && s[e] == '\r' && s[e + 1] == '\n' {
        2
    } else {
        1
    }
}

/// The tokens of `s`.
pub open spec fn lex_spec(s: Seq<char>) -> Seq<TokenView>
    decreases s.len(),
{
    let e = line_len(s);
    if 0 <= e < s.len() {
        let n = e + newline_len(s, e);
        line_tokens(s.take(e)) + piece(SyntaxKind::Newline, s.subrange(e, n)) + lex_spec(s.skip(n))
    } else {
        line_tokens(s)
    }
}

/// The texts of `ts` put end to end.
pub open spec fn joined(ts: Seq<TokenView>) -> Seq<char>
    decreases ts.len(),
{
    if ts.len() == 0 {
        Seq::empty()
    } else {
        joined(ts.drop_last()) + ts.last().text
    }
}

/// Whether no token of `ts` is empty.
pub open spec fn no_empty_token(ts: Seq<TokenView>) -> bool {
    forall|i: int| 0 <= i < ts.len() ==> (#[trigger] ts[i]).text.len() > 0
}

/// Joining tokens goes along with putting token sequences end to end.
pub proof fn lemma_joined_concat(a: Seq<TokenView>, b: Seq<TokenView>)
    ensures
        joined(a + b) == joined(a) + joined(b),
    decreases b.len(),
{
    if b.len() == 0 {
        assert(a + b =~= a);
        assert(joined(a) + joined(b) =~= joined(a));
    } else {
        lemma_joined_concat(a, b.drop_last());
        assert((a + b).drop_last() =~= a + b.drop_last());
        assert((a + b).last() == b.last());
        assert(joined(a + b) =~= joined(a) + joined(b));
    }
}

/// A piece holds its text and nothing else.
pub proof fn lemma_joined_piece(kind: SyntaxKind, text: Seq<char>)
    ensures
        joined(piece(kind, text)) == text,
        no_empty_token(piece(kind, text)),
{
    if text.len() > 0 {
        let p = piece(kind, text);
        assert(p.drop_last() =~= Seq::empty());
        assert(joined(p.drop_last()) =~= Seq::empty());
        assert(joined(p) =~= text);
    } else {
        assert(joined(piece(kind, text)) =~= text);
    }
}

/// The tokens of a line hold the line and nothing else.
pub proof fn lemma_line_lossless(l: Seq<char>)
    ensures
        joined(line_tokens(l)) == l,
        no_empty_token(line_tokens(l)),
{
    if l.len() == 0 {
        assert(joined(line_tokens(l)) =~= l);
    } else if l[0] == '#' {
        lemma_joined_piece(SyntaxKind::Comment, l);
    } else if is_blank(l[0]) {
        let w = scan(l, 0, CharClass::Blank);
        lemma_scan(l, 0, CharClass::Blank, 0);
        let a = piece(SyntaxKind::Indent, l.take(w));
        let b = piece(content_kind(l.skip(w)), l.skip(w));
        lemma_joined_piece(SyntaxKind::Indent, l.take(w));
        lemma_joined_piece(content_kind(l.skip(w)), l.skip(w));
        lemma_joined_concat(a, b);
        assert(l.take(w) + l.skip(w) =~= l);
    } else if l[0] == ':' {
        lemma_joined_piece(SyntaxKind::Error, l);
    } else {
        let k = scan(l, 0, CharClass::Except(':'));
        lemma_scan(l, 0, CharClass::Except(':'), 0);
        if k >= l.len() {
            lemma_joined_piece(SyntaxKind::Key, l);
        } else {
            let w = scan(l, k + 1, CharClass::Blank);
            lemma_scan(l, k + 1, CharClass::Blank, 0);
            let a = piece(SyntaxKind::Key, l.take(k));
            let b = piece(SyntaxKind::Colon, l.subrange(k, k + 1));
            let c = piece(SyntaxKind::Whitespace, l.subrange(k + 1, w));
            let d = piece(SyntaxKind::Value, l.skip(w));
            lemma_joined_piece(SyntaxKind::Key, l.take(k));
            lemma_joined_piece(SyntaxKind::Colon, l.subrange(k, k + 1));
            lemma_joined_piece(SyntaxKind::Whitespace, l.subrange(k + 1, w));
            lemma_joined_piece(SyntaxKind::Value, l.skip(w));
            lemma_joined_concat(a, b);
            lemma_joined_concat(a + b, c);
            lemma_joined_concat(a + b + c, d);
            assert(l.take(k) + l.subrange(k, k + 1) + l.subrange(k + 1, w) + l.skip(w) =~= l);
        }
    }
}

/// Tokenization loses nothing: the tokens of `s`, joined, are `s`, and none
/// of them is empty.
pub proof fn lemma_lex_lossless(s: Seq<char>)
    ensures
        joined(lex_spec(s)) == s,
        no_empty_token(lex_spec(s)),
    decreases s.len(),
{
    let e = line_len(s);
    lemma_scan(s, 0, CharClass::NotNewline, 0);
    if 0 <= e < s.len() {
        let n = e + newline_len(s, e);
        let a = line_tokens(s.take(e));
        let b = piece(SyntaxKind::Newline, s.subrange(e, n));
        let c = lex_spec(s.skip(n));
        lemma_line_lossless(s.take(e));
        lemma_joined_piece(SyntaxKind::Newline, s.subrange(e, n));
        lemma_lex_lossless(s.skip(n));
        lemma_joined_concat(a, b);
        lemma_joined_concat(a + b, c);
        assert(s.take(e) + s.subrange(e, n) + s.skip(n) =~= s);
    } else {
        lemma_line_lossless(s);
    }
}

/// Appends a token with the text `chars[from..to]`, unless that text is empty.
fn push_piece(tokens: &mut Vec<Token>, kind: SyntaxKind, chars: &Vec<char>, from: usize, to: usize)
    requires
        from <= to <= chars.len(),
    ensures
        token_views(final(tokens)@) == token_views(old(tokens)@) + piece(
            kind,
            chars@.subrange(from as int, to as int),
        ),
{
    if from < to {
        let text = string_of(chars, from, to);
        tokens.push(Token { kind, text });
    }
    assert(token_views(tokens@) =~= token_views(old(tokens)@) + piece(
        kind,
        chars@.subrange(from as int, to as int),
    ));
}

/// Appends the tokens of the line `chars[from..to]`, which holds no line
/// terminator.
fn lex_line(tokens: &mut Vec<Token>, chars: &Vec<char>, from: usize, to: usize)
    requires
        from <= to <= chars.len(),
    ensures
        token_views(final(tokens)@) == token_views(old(tokens)@) + line_tokens(
            chars@.subrange(from as int, to as int),
        ),
{
    let ghost l = chars@.subrange(from as int, to as int);
    let ghost before = token_views(tokens@);
    if from == to {
        assert(before + line_tokens(l) =~= before);
        return ;
    }
    let first = chars[from];
    assert(first == l[0]);
    if first == '#' {
        push_piece(tokens, SyntaxKind::Comment, chars, from, to);
    } else if first == ' ' || first == '\t' {
        let w = scan_while(chars, from, to, CharClass::Blank);
        proof {
            lemma_scan_window(chars@, from as int, to as int, from as int, CharClass::Blank, w as int);
            assert(l.take(w - from) =~= chars@.subrange(from as int, w as int));
            assert(l.skip(w - from) =~= chars@.subrange(w as int, to as int));
        }
        push_piece(tokens, SyntaxKind::Indent, chars, from, w);
        let kind = if w < to && chars[w] == '#' {
            SyntaxKind::Comment
        } else {
            SyntaxKind::Value
        };
        assert(w < to ==> l.skip(w - from)[0] == chars@[w as int]);
        push_piece(tokens, kind, chars, w, to);
        assert(token_views(tokens@) =~= before + line_tokens(l));
    } else if first == ':' {
        push_piece(tokens, SyntaxKind::Error, chars, from, to);
    } else {
        let k = scan_while(chars, from, to, CharClass::Except(':'));
        proof {
            lemma_scan_window(chars@, from as int, to as int, from as int, CharClass::Except(':'), k as int);
        }
        if k == to {
            push_piece(tokens, SyntaxKind::Key, chars, from, to);
        } else {
            let w = scan_while(chars, k + 1, to, CharClass::Blank);
            proof {
                lemma_scan_window(
                    chars@,
                    from as int,
                    to as int,
                    k + 1,
                    CharClass::Blank,
                    w as int,
                );
                assert(l.take(k - from) =~= chars@.subrange(from as int, k as int));
                assert(l.subrange(k - from, k - from + 1) =~= chars@.subrange(k as int, k + 1));
                assert(l.subrange(k - from + 1, w - from) =~= chars@.subrange(k + 1, w as int));
                assert(l.skip(w - from) =~= chars@.subrange(w as int, to as int));
            }
            push_piece(tokens, SyntaxKind::Key, chars, from, k);
            push_piece(tokens, SyntaxKind::Colon, chars, k, k + 1);
            push_piece(tokens, SyntaxKind::Whitespace, chars, k + 1, w);
            push_piece(tokens, SyntaxKind::Value, chars, w, to);
            assert(token_views(tokens@) =~= before + line_tokens(l));
        }
    }
}

/// Cuts `input` into tokens.
pub fn lex(input: &str) -> (tokens: Vec<Token>)
    ensures
        token_views(tokens@) == lex_spec(input@),
        joined(token_views(tokens@)) == input@,
        no_empty_token(token_views(tokens@)),
{
    proof {
        lemma_lex_lossless(input@);
    }
    let chars = chars_of(input);
    let n = chars.len();
    let mut tokens: Vec<Token> = Vec::new();
    let mut i: usize = 0;
    assert(chars@.skip(0) =~= chars@);
    loop
        invariant_except_break
            lex_spec(chars@) == token_views(tokens@) + lex_spec(chars@.skip(i as int)),
        invariant
            n == chars.len(),
            i <= n,
        ensures
            lex_spec(chars@) == token_views(tokens@),
        decreases n - i,
    {
        let ghost rest = chars@.skip(i as int);
        let ghost before = token_views(tokens@);
        let e = scan_while(&chars, i, n, CharClass::NotNewline);
        proof {
            lemma_scan_window(chars@, i as int, n as int, i as int, CharClass::NotNewline, e as int);
            assert(chars@.subrange(i as int, n as int) =~= rest);
            assert(line_len(rest) == e - i);
        }
        lex_line(&mut tokens, &chars, i, e);
        if e == n {
            assert(chars@.subrange(i as int, e as int) =~= rest);
            assert(lex_spec(rest) == line_tokens(rest));
            break ;
        }
        let m = if e + 1 < n && chars[e] == '\r' && chars[e + 1] == '\n' {
            e + 2
        } else {
            e + 1
        };
        proof {
            assert(rest[e - i] == chars@[e as int]);
            if e + 1 < n {
                assert(rest[e - i + 1] == chars@[e + 1]);
            }
            assert(m - e == newline_len(rest, e - i));
            assert(rest.take(e - i) =~= chars@.subrange(i as int, e as int));
            assert(rest.subrange(e - i, m - i) =~= chars@.subrange(e as int, m as int));
            assert(rest.skip(m - i) =~= chars@.skip(m as int));
        }
        push_piece(&mut tokens, SyntaxKind::Newline, &chars, e, m);
        proof {
            assert(lex_spec(rest) == line_tokens(rest.take(e - i)) + piece(
                SyntaxKind::Newline,
                rest.subrange(e - i, m - i),
            ) + lex_spec(rest.skip(m - i)));
            assert(token_views(tokens@) + lex_spec(chars@.skip(m as int)) =~= before + lex_spec(
                rest,
            ));
        }
        i = m;
    }
    tokens
}

} // verus!
