//! Laws of the parser: what it makes of texts of known shape, and how the
//! parse of a text follows from the parses of its parts.

use vstd::prelude::*;
use crate::lex::{content_kind, lex_spec, line_len, line_tokens, piece, SyntaxKind, TokenView};
use crate::lex_lemmas::{
    ends_line, is_indent, is_key, is_line_value, lemma_field_line, lemma_indented_line,
    lemma_comment_line, lemma_key_line, lemma_lex_concat, lemma_lex_ends_line,
    lemma_lex_first_kind, lemma_lex_line, lemma_lex_line_feeds, line_feed, line_feed_tokens,
    line_feeds, no_newline,
};
use crate::lossy::{
    assemble_spec, complete, document_text, flush, lemma_run_error, lookup,
    lookup_from, paragraph_text, parse_spec, run, run_all, trim_newline, unexpected,
    values_named, Assembly, ErrorView, FieldView, Mode,
};
use crate::text::{is_blank, is_newline, lemma_scan, scan, CharClass};

verus! {

/// The first `n` transitions depend on the first `n` tokens alone.
pub proof fn lemma_run_prefix(from: Assembly, a: Seq<TokenView>, b: Seq<TokenView>, n: nat)
    requires
        n <= a.len(),
    ensures
        run(from, a + b, n) == run(from, a, n),
    decreases n,
{
    if n > 0 {
        lemma_run_prefix(from, a, b, (n - 1) as nat);
        assert((a + b)[n - 1] == a[n - 1]);
    }
}

/// Running over `a + b` is running over `a`, then over the first tokens of
/// `b`.
pub proof fn lemma_run_steps(from: Assembly, a: Seq<TokenView>, b: Seq<TokenView>, k: nat)
    requires
        k <= b.len(),
    ensures
        run(from, a + b, a.len() + k) == match run_all(from, a) {
            Ok(state) => run(state, b, k),
            Err(e) => Err(e),
        },
    decreases k,
{
    if k == 0 {
        lemma_run_prefix(from, a, b, a.len());
    } else {
        lemma_run_steps(from, a, b, (k - 1) as nat);
        assert((a + b)[a.len() + k - 1] == b[k - 1]);
    }
}

/// Running over `a + b` is running over `a`, then over `b`.
pub proof fn lemma_run_concat(from: Assembly, a: Seq<TokenView>, b: Seq<TokenView>)
    ensures
        run_all(from, a + b) == match run_all(from, a) {
            Ok(state) => run_all(state, b),
            Err(e) => Err(e),
        },
        complete(from, a + b) == match run_all(from, a) {
            Ok(state) => complete(state, b),
            Err(e) => Err(e),
        },
{
    lemma_run_steps(from, a, b, b.len());
}

/// From the second token on, a run depends on its start only through the
/// state after the first token.
pub proof fn lemma_run_after_first(s1: Assembly, s2: Assembly, ts: Seq<TokenView>, n: nat)
    requires
        1 <= n,
        run(s1, ts, 1) == run(s2, ts, 1),
    ensures
        run(s1, ts, n) == run(s2, ts, n),
    decreases n,
{
    if n > 1 {
        lemma_run_after_first(s1, s2, ts, (n - 1) as nat);
    }
}

/// Whether the state keeps no name and no value between fields.
pub open spec fn tidy(state: Assembly) -> bool {
    state.mode == Mode::Top || state.mode == Mode::Comment ==> state.name.len() == 0
        && state.value.len() == 0
}

/// Whether the state is one that the end of a line leaves behind: between
/// fields, or in a field whose last line just ended.
pub open spec fn at_line_start(state: Assembly) -> bool {
    &&& tidy(state)
    &&& state.mode == Mode::Top || state.mode == Mode::LineStart
    &&& state.mode == Mode::LineStart ==> state.value.len() > 0 && state.value.last() == '\n'
}

/// A run from a tidy state ends in a tidy state.
pub proof fn lemma_run_tidy(from: Assembly, ts: Seq<TokenView>, n: nat)
    requires
        tidy(from),
    ensures
        run(from, ts, n) matches Ok(state) ==> tidy(state),
    decreases n,
{
    if n > 0 {
        lemma_run_tidy(from, ts, (n - 1) as nat);
    }
}

/// After a `Newline` the assembler stands at the start of a line.
pub proof fn lemma_run_ends_line(from: Assembly, ts: Seq<TokenView>)
    requires
        tidy(from),
        ts.len() > 0,
        ts.last().kind == SyntaxKind::Newline,
    ensures
        run_all(from, ts) matches Ok(state) ==> at_line_start(state),
{
    lemma_run_tidy(from, ts, ts.len());
    lemma_run_tidy(from, ts, (ts.len() - 1) as nat);
}

/// After the tokens of complete lines the assembler stands at the start of
/// a line.
pub proof fn lemma_parse_ends_line(a: Seq<char>)
    requires
        ends_line(a),
    ensures
        run_all(Assembly::start(), lex_spec(a)) matches Ok(state) ==> at_line_start(state),
{
    if a.len() == 0 {
        lemma_scan(a, 0, CharClass::NotNewline, 0);
        assert(lex_spec(a) =~= Seq::empty());
    } else {
        lemma_lex_ends_line(a);
        lemma_run_ends_line(Assembly::start(), lex_spec(a));
    }
}

/// The state with the paragraphs `before` in front of its closed ones.
pub open spec fn after_paragraphs(before: Seq<Seq<FieldView>>, state: Assembly) -> Assembly {
    Assembly { closed: before + state.closed, ..state }
}

/// The outcome with the paragraphs `before` in front of the closed ones.
pub open spec fn state_after_paragraphs(
    before: Seq<Seq<FieldView>>,
    outcome: Result<Assembly, ErrorView>,
) -> Result<Assembly, ErrorView> {
    match outcome {
        Ok(state) => Ok(after_paragraphs(before, state)),
        Err(e) => Err(e),
    }
}

/// The document with the paragraphs `before` in front of it.
pub open spec fn document_after_paragraphs(
    before: Seq<Seq<FieldView>>,
    outcome: Result<Seq<Seq<FieldView>>, ErrorView>,
) -> Result<Seq<Seq<FieldView>>, ErrorView> {
    match outcome {
        Ok(doc) => Ok(before + doc),
        Err(e) => Err(e),
    }
}

/// A transition does not look at the paragraphs that are closed.
pub proof fn lemma_step_after_paragraphs(
    before: Seq<Seq<FieldView>>,
    state: Assembly,
    t: TokenView,
)
    ensures
        after_paragraphs(before, state).step(t) == state_after_paragraphs(before, state.step(t)),
{
    let shifted = after_paragraphs(before, state);
    assert(flush(before + state.closed, state.open) =~= before + flush(state.closed, state.open));
    let closing = state.close_field();
    assert(flush(before + closing.closed, closing.open) =~= before + flush(
        closing.closed,
        closing.open,
    ));
    assert(shifted.close_field() == after_paragraphs(before, closing));
    match state.step(t) {
        Ok(next) => {
            assert(shifted.step(t) matches Ok(got) && got =~= after_paragraphs(before, next));
        },
        Err(e) => {},
    }
}

/// A run does not look at the paragraphs that are closed.
pub proof fn lemma_run_after_paragraphs(
    before: Seq<Seq<FieldView>>,
    from: Assembly,
    ts: Seq<TokenView>,
    n: nat,
)
    ensures
        run(after_paragraphs(before, from), ts, n) == state_after_paragraphs(
            before,
            run(from, ts, n),
        ),
    decreases n,
{
    if n > 0 {
        lemma_run_after_paragraphs(before, from, ts, (n - 1) as nat);
        match run(from, ts, (n - 1) as nat) {
            Ok(state) => {
                lemma_step_after_paragraphs(before, state, ts[n - 1]);
            },
            Err(e) => {},
        }
    }
}

/// The end of the input does not look at the paragraphs that are closed.
pub proof fn lemma_complete_after_paragraphs(
    before: Seq<Seq<FieldView>>,
    from: Assembly,
    ts: Seq<TokenView>,
)
    ensures
        complete(after_paragraphs(before, from), ts) == document_after_paragraphs(
            before,
            complete(from, ts),
        ),
{
    lemma_run_after_paragraphs(before, from, ts, ts.len());
    match run_all(from, ts) {
        Ok(state) => {
            assert(flush(before + state.closed, state.open) =~= before + flush(
                state.closed,
                state.open,
            ));
            let closing = state.close_field();
            assert((before + state.closed).push(closing.open) =~= before + state.closed.push(
                closing.open,
            ));
        },
        Err(e) => {},
    }
}

/// Empty lines at the start of a line close the paragraph and leave the
/// assembler as it was before the first token, but for the paragraphs that
/// are closed.
pub proof fn lemma_run_line_feeds(state: Assembly, k: nat)
    requires
        at_line_start(state),
        k >= 1,
    ensures
        state.finish() matches Ok(doc) && run_all(state, line_feed_tokens(k)) == Ok::<
            _,
            ErrorView,
        >(after_paragraphs(doc, Assembly::start())),
    decreases k,
{
    let ts = line_feed_tokens(k);
    let doc = state.finish()->Ok_0;
    let target = after_paragraphs(doc, Assembly::start());
    assert(ts[k - 1] == line_feed());
    if k == 1 {
        assert(run(state, ts, 0) == Ok::<_, ErrorView>(state));
        assert(state.step(line_feed()) matches Ok(got) && got =~= target);
    } else {
        let shorter = line_feed_tokens((k - 1) as nat);
        lemma_run_line_feeds(state, (k - 1) as nat);
        assert(ts =~= shorter + seq![line_feed()]);
        lemma_run_prefix(state, shorter, seq![line_feed()], (k - 1) as nat);
        assert(flush(doc, Seq::<FieldView>::empty()) == doc);
        assert(target.step(line_feed()) matches Ok(got) && got =~= target);
    }
}

/// Two texts with empty lines between them give the paragraphs of the
/// first, then those of the second: however many empty lines there are, they
/// end the last paragraph of the first text and add no paragraph of their
/// own. The first text ends with the end of a line.
pub proof fn law_blank_lines_separate(a: Seq<char>, b: Seq<char>, k: nat)
    requires
        ends_line(a),
        k >= 1,
        parse_spec(a) is Ok,
        parse_spec(b) is Ok,
    ensures
        parse_spec(a + line_feeds(k) + b) == Ok::<_, ErrorView>(
            parse_spec(a)->Ok_0 + parse_spec(b)->Ok_0,
        ),
{
    let start = Assembly::start();
    let ta = lex_spec(a);
    let tn = line_feed_tokens(k);
    let tb = lex_spec(b);
    assert(a + line_feeds(k) + b =~= a + (line_feeds(k) + b));
    lemma_lex_concat(a, line_feeds(k) + b);
    assert(line_feeds(k).last() == '\n');
    lemma_lex_concat(line_feeds(k), b);
    lemma_lex_line_feeds(k);
    lemma_run_concat(start, ta, tn + tb);
    let state = run_all(start, ta)->Ok_0;
    lemma_parse_ends_line(a);
    lemma_run_concat(state, tn, tb);
    lemma_run_line_feeds(state, k);
    let doc = parse_spec(a)->Ok_0;
    lemma_complete_after_paragraphs(doc, start, tb);
    assert(after_paragraphs(Seq::empty(), start) =~= start);
}

/// Between fields, a comment line changes nothing; in a field it ends the
/// field.
proof fn lemma_run_comment_line(state: Assembly, comment: TokenView)
    requires
        at_line_start(state),
        comment.kind == SyntaxKind::Comment,
    ensures
        run_all(state, seq![comment, line_feed()]) == Ok::<_, ErrorView>(
            if state.mode == Mode::Top {
                state
            } else {
                state.close_field()
            },
        ),
{
    let tc = seq![comment, line_feed()];
    assert(run(state, tc, 0) == Ok::<_, ErrorView>(state));
    assert(run(state, tc, 1) == state.step(tc[0]));
    let middle = run(state, tc, 1)->Ok_0;
    assert(run(state, tc, 2) == middle.step(tc[1]));
    let after = run(state, tc, 2)->Ok_0;
    if state.mode == Mode::Top {
        assert(after =~= state);
    } else {
        assert(after =~= state.close_field());
    }
}

/// Before a token that is no indent, it makes no difference whether the
/// field under construction was closed already.
proof fn lemma_complete_closed_field(state: Assembly, tb: Seq<TokenView>)
    requires
        state.mode == Mode::LineStart,
        tb.len() > 0 ==> tb[0].kind != SyntaxKind::Indent,
    ensures
        complete(state.close_field(), tb) == complete(state, tb),
{
    let after = state.close_field();
    if tb.len() > 0 {
        assert(run(state, tb, 0) == Ok::<_, ErrorView>(state));
        assert(run(after, tb, 0) == Ok::<_, ErrorView>(after));
        assert(run(state, tb, 1) == run(after, tb, 1));
        lemma_run_after_first(state, after, tb, tb.len());
    }
}

/// A comment line between complete lines and a line that is not indented
/// leaves no trace: the text parses as it does without the line. (Before an
/// indented line the comment would end the field that the line continues.)
pub proof fn law_comment_line_dropped(a: Seq<char>, comment: Seq<char>, b: Seq<char>)
    requires
        ends_line(a),
        no_newline(comment),
        b.len() > 0 ==> !is_blank(b[0]),
    ensures
        parse_spec(a + seq!['#'] + comment + seq!['\n'] + b) == parse_spec(a + b),
{
    let start = Assembly::start();
    let line = seq!['#'] + comment + seq!['\n'];
    let tb = lex_spec(b);
    assert(a + seq!['#'] + comment + seq!['\n'] + b =~= a + line + b);
    assert(line.last() == '\n');
    lemma_parse_line_between(a, line, b);
    lemma_lex_concat(a, b);
    lemma_run_concat(start, lex_spec(a), tb);
    lemma_comment_line(comment);
    lemma_parse_ends_line(a);
    match run_all(start, lex_spec(a)) {
        Ok(state) => {
            lemma_run_comment_line(
                state,
                TokenView { kind: SyntaxKind::Comment, text: seq!['#'] + comment },
            );
            if state.mode != Mode::Top {
                if b.len() > 0 {
                    lemma_lex_first_kind(b);
                } else {
                    lemma_scan(b, 0, CharClass::NotNewline, 0);
                    assert(tb =~= Seq::empty());
                }
                lemma_complete_closed_field(state, tb);
            }
        },
        Err(e) => {},
    }
}

/// The tokens of an indented line with a line feed after it.
proof fn lemma_lex_indented_line(indent: Seq<char>, content: Seq<char>)
    requires
        is_indent(indent),
        no_newline(content),
        content.len() > 0 ==> !is_blank(content[0]),
    ensures
        lex_spec(indent + content + seq!['\n']) == (seq![
            TokenView { kind: SyntaxKind::Indent, text: indent },
        ] + piece(content_kind(content), content)).push(line_feed()),
{
    let l = indent + content;
    assert forall|i: int| 0 <= i < l.len() implies !is_newline(#[trigger] l[i]) by {
        if i < indent.len() {
            assert(is_blank(indent[i]));
        } else {
            assert(l[i] == content[i - indent.len()]);
        }
    }
    lemma_lex_line(l);
    lemma_indented_line(indent, content);
}

/// In no state does it matter whether a comment stands between an indent
/// and the end of its line.
proof fn lemma_run_indented_comment(state: Assembly, indent: TokenView, comment: TokenView)
    requires
        indent.kind == SyntaxKind::Indent,
        comment.kind == SyntaxKind::Comment,
    ensures
        run_all(state, seq![indent, comment, line_feed()]) == run_all(
            state,
            seq![indent, line_feed()],
        ),
{
    let with = seq![indent, comment, line_feed()];
    let without = seq![indent, line_feed()];
    assert(run(state, with, 0) == Ok::<_, ErrorView>(state));
    assert(run(state, without, 0) == Ok::<_, ErrorView>(state));
    assert(run(state, with, 1) == state.step(indent));
    assert(run(state, without, 1) == state.step(indent));
    match state.step(indent) {
        Ok(next) => {
            assert(next.step(comment) == Ok::<_, ErrorView>(next));
            assert(run(state, with, 2) == next.step(with[1]));
            assert(run(state, with, 3) == next.step(with[2]));
            assert(run(state, without, 2) == next.step(without[1]));
        },
        Err(e) => {
            lemma_run_error(state, with, 1, 3);
            lemma_run_error(state, without, 1, 2);
        },
    }
}

/// The parse of complete lines, one more line and a rest, by its stages.
proof fn lemma_parse_line_between(a: Seq<char>, line: Seq<char>, b: Seq<char>)
    requires
        ends_line(a),
        line.len() > 0,
        line.last() == '\n',
    ensures
        parse_spec(a + line + b) == match run_all(Assembly::start(), lex_spec(a)) {
            Ok(state) => match run_all(state, lex_spec(line)) {
                Ok(next) => complete(next, lex_spec(b)),
                Err(e) => Err(e),
            },
            Err(e) => Err(e),
        },
        run_all(Assembly::start(), lex_spec(a + line + b)) == match run_all(
            Assembly::start(),
            lex_spec(a),
        ) {
            Ok(state) => match run_all(state, lex_spec(line)) {
                Ok(next) => run_all(next, lex_spec(b)),
                Err(e) => Err(e),
            },
            Err(e) => Err(e),
        },
{
    let start = Assembly::start();
    assert(a + line + b =~= a + (line + b));
    lemma_lex_concat(a, line + b);
    lemma_lex_concat(line, b);
    lemma_run_concat(start, lex_spec(a), lex_spec(line) + lex_spec(b));
    match run_all(start, lex_spec(a)) {
        Ok(state) => {
            lemma_run_concat(state, lex_spec(line), lex_spec(b));
        },
        Err(e) => {},
    }
}

/// The tokens of an indented comment and of an indented line without
/// content.
proof fn lemma_lex_indented_comment(indent: Seq<char>, comment: Seq<char>)
    requires
        is_indent(indent),
        no_newline(comment),
    ensures
        lex_spec(indent + seq!['#'] + comment + seq!['\n']) == seq![
            TokenView { kind: SyntaxKind::Indent, text: indent },
            TokenView { kind: SyntaxKind::Comment, text: seq!['#'] + comment },
            line_feed(),
        ],
        lex_spec(indent + seq!['\n']) == seq![
            TokenView { kind: SyntaxKind::Indent, text: indent },
            line_feed(),
        ],
{
    let content = seq!['#'] + comment;
    assert forall|i: int| 0 <= i < content.len() implies !is_newline(#[trigger] content[i]) by {
        if i > 0 {
            assert(content[i] == comment[i - 1]);
        }
    }
    lemma_lex_indented_line(indent, content);
    lemma_lex_indented_line(indent, Seq::empty());
    assert(indent + seq!['#'] + comment + seq!['\n'] =~= indent + content + seq!['\n']);
    assert(indent + seq!['\n'] =~= indent + Seq::<char>::empty() + seq!['\n']);
    let ti = TokenView { kind: SyntaxKind::Indent, text: indent };
    let tc = TokenView { kind: SyntaxKind::Comment, text: content };
    assert((seq![ti] + piece(content_kind(content), content)).push(line_feed()) =~= seq![
        ti,
        tc,
        line_feed(),
    ]);
    assert((seq![ti] + piece(content_kind(Seq::<char>::empty()), Seq::<char>::empty())).push(
        line_feed(),
    ) =~= seq![ti, line_feed()]);
}

/// An indented comment counts as an indented line without content: its text
/// reaches no value.
pub proof fn law_indented_comment_dropped(
    a: Seq<char>,
    indent: Seq<char>,
    comment: Seq<char>,
    b: Seq<char>,
)
    requires
        ends_line(a),
        is_indent(indent),
        no_newline(comment),
    ensures
        parse_spec(a + indent + seq!['#'] + comment + seq!['\n'] + b) == parse_spec(
            a + indent + seq!['\n'] + b,
        ),
{
    let with = indent + seq!['#'] + comment + seq!['\n'];
    let without = indent + seq!['\n'];
    assert(a + indent + seq!['#'] + comment + seq!['\n'] + b =~= a + with + b);
    assert(a + indent + seq!['\n'] + b =~= a + without + b);
    assert(with.last() == '\n');
    assert(without.last() == '\n');
    lemma_parse_line_between(a, with, b);
    lemma_parse_line_between(a, without, b);
    lemma_lex_indented_comment(indent, comment);
    match run_all(Assembly::start(), lex_spec(a)) {
        Ok(state) => {
            lemma_run_indented_comment(
                state,
                TokenView { kind: SyntaxKind::Indent, text: indent },
                TokenView { kind: SyntaxKind::Comment, text: seq!['#'] + comment },
            );
        },
        Err(e) => {},
    }
}

/// The tokens of a field's first line before its end: the key, the colon,
/// the blanks and the value, as far as there are any.
pub open spec fn field_head_tokens(key: Seq<char>, blanks: Seq<char>, value: Seq<char>) -> Seq<
    TokenView,
> {
    seq![
        TokenView { kind: SyntaxKind::Key, text: key },
        TokenView { kind: SyntaxKind::Colon, text: seq![':'] },
    ] + piece(SyntaxKind::Whitespace, blanks) + piece(SyntaxKind::Value, value)
}

/// The tokens of a field's first line, its line feed included.
pub open spec fn field_line_tokens(key: Seq<char>, blanks: Seq<char>, value: Seq<char>) -> Seq<
    TokenView,
> {
    field_head_tokens(key, blanks, value).push(line_feed())
}

/// Whether `blanks` holds blanks only.
pub open spec fn all_blank(blanks: Seq<char>) -> bool {
    forall|i: int| 0 <= i < blanks.len() ==> is_blank(#[trigger] blanks[i])
}

/// Whether the characters of a field's first line hold no line terminator.
proof fn lemma_field_line_no_newline(key: Seq<char>, blanks: Seq<char>, value: Seq<char>)
    requires
        is_key(key),
        all_blank(blanks),
        is_line_value(value),
    ensures
        no_newline(key + seq![':'] + blanks + value),
{
    let l = key + seq![':'] + blanks + value;
    assert forall|i: int| 0 <= i < l.len() implies !is_newline(#[trigger] l[i]) by {
        if i < key.len() {
            assert(l[i] == key[i]);
        } else if i == key.len() {
        } else if i < key.len() + 1 + blanks.len() {
            assert(is_blank(blanks[i - key.len() - 1]));
        } else {
            assert(l[i] == value[i - key.len() - 1 - blanks.len()]);
        }
    }
}

/// The tokens of a line `Key: value`, without and with a line feed after
/// it.
proof fn lemma_lex_field_line(key: Seq<char>, blanks: Seq<char>, value: Seq<char>)
    requires
        is_key(key),
        all_blank(blanks),
        is_line_value(value),
    ensures
        lex_spec(key + seq![':'] + blanks + value) == field_head_tokens(key, blanks, value),
        lex_spec(key + seq![':'] + blanks + value + seq!['\n']) == field_line_tokens(
            key,
            blanks,
            value,
        ),
{
    lemma_field_line_no_newline(key, blanks, value);
    lemma_lex_line(key + seq![':'] + blanks + value);
    lemma_field_line(key, blanks, value);
}

/// The state in a field called `name` whose lines so far, each with its line
/// feed, are `value`.
pub open spec fn in_field_state(state: Assembly, name: Seq<char>, value: Seq<char>) -> Assembly {
    Assembly { name, value, mode: Mode::LineStart, ..state }
}

/// Between fields, the first line of a field, short of its end, leaves the
/// assembler in that line with the line's value gathered.
proof fn lemma_run_field_head(
    state: Assembly,
    key: Seq<char>,
    blanks: Seq<char>,
    value: Seq<char>,
)
    requires
        state.mode == Mode::Top,
    ensures
        run_all(state, field_head_tokens(key, blanks, value)) == Ok::<_, ErrorView>(
            Assembly {
                name: key,
                value,
                mode: if value.len() > 0 {
                    Mode::FirstLine
                } else {
                    Mode::AfterColon
                },
                ..state
            },
        ),
{
    let ts = field_head_tokens(key, blanks, value);
    let s1 = Assembly { name: key, value: Seq::empty(), mode: Mode::ExpectColon, ..state };
    let s2 = s1.in_mode(Mode::AfterColon);
    let target = Assembly {
        name: key,
        value,
        mode: if value.len() > 0 {
            Mode::FirstLine
        } else {
            Mode::AfterColon
        },
        ..state
    };
    assert(run(state, ts, 0) == Ok::<_, ErrorView>(state));
    assert(run(state, ts, 1) == state.step(ts[0]));
    assert(run(state, ts, 2) == s1.step(ts[1]));
    assert(run(state, ts, 2) == Ok::<_, ErrorView>(s2));
    if blanks.len() == 0 {
        if value.len() == 0 {
            assert(s2 =~= target);
        } else {
            assert(run(state, ts, 3) == s2.step(ts[2]));
            assert(s2.gather(value, Mode::FirstLine) =~= target);
        }
    } else {
        assert(run(state, ts, 3) == s2.step(ts[2]));
        assert(run(state, ts, 3) == Ok::<_, ErrorView>(s2));
        if value.len() == 0 {
            assert(s2 =~= target);
        } else {
            assert(run(state, ts, 4) == s2.step(ts[3]));
            assert(s2.gather(value, Mode::FirstLine) =~= target);
        }
    }
}

/// Between fields, the first line of a field leaves the assembler in that
/// field, with the line's value and a line feed gathered.
proof fn lemma_run_field_line(
    state: Assembly,
    key: Seq<char>,
    blanks: Seq<char>,
    value: Seq<char>,
)
    requires
        state.mode == Mode::Top,
    ensures
        run_all(state, field_line_tokens(key, blanks, value)) == Ok::<_, ErrorView>(
            in_field_state(state, key, value.push('\n')),
        ),
{
    let head = field_head_tokens(key, blanks, value);
    let ts = field_line_tokens(key, blanks, value);
    lemma_run_field_head(state, key, blanks, value);
    assert(ts =~= head + seq![line_feed()]);
    lemma_run_prefix(state, head, seq![line_feed()], head.len());
    let before = run_all(state, head)->Ok_0;
    assert(run(state, ts, ts.len()) == before.step(ts[ts.len() - 1]));
    assert(before.step(line_feed()) matches Ok(got) && got =~= in_field_state(
        state,
        key,
        value.push('\n'),
    ));
}

/// A text that is one field on one line parses into one paragraph with that
/// field: the name is what stands before the colon, the value what stands
/// after the blanks that follow it.
pub proof fn law_single_field(key: Seq<char>, blanks: Seq<char>, value: Seq<char>)
    requires
        is_key(key),
        all_blank(blanks),
        is_line_value(value),
    ensures
        parse_spec(key + seq![':'] + blanks + value + seq!['\n']) == Ok::<_, ErrorView>(
            seq![seq![FieldView { name: key, value }]],
        ),
{
    lemma_lex_field_line(key, blanks, value);
    lemma_run_field_line(Assembly::start(), key, blanks, value);
    let state = in_field_state(Assembly::start(), key, value.push('\n'));
    assert(trim_newline(value.push('\n')) =~= value);
    assert(state.finish() matches Ok(doc) && doc =~= seq![seq![FieldView { name: key, value }]]);
}

/// Writing out what `Key: value` and a line feed parse into gives the text
/// back.
pub proof fn law_single_field_round_trip(key: Seq<char>, value: Seq<char>)
    requires
        is_key(key),
        is_line_value(value),
    ensures
        parse_spec(key + seq![':', ' '] + value + seq!['\n']) matches Ok(doc) && doc == seq![
            seq![FieldView { name: key, value }],
        ] && document_text(doc) == key + seq![':', ' '] + value + seq!['\n'],
{
    let text = key + seq![':', ' '] + value + seq!['\n'];
    assert(text =~= key + seq![':'] + seq![' '] + value + seq!['\n']);
    law_single_field(key, seq![' '], value);
    let field = FieldView { name: key, value };
    let paragraph = seq![field];
    let doc = seq![paragraph];
    assert(paragraph.drop_last() =~= Seq::empty());
    assert(paragraph_text(paragraph.drop_last()) =~= Seq::empty());
    assert(paragraph_text(paragraph) =~= text);
    assert(document_text(doc) == paragraph_text(doc[0]));
}

/// Whether the text `a` ends inside a field: after its last line the
/// assembler waits for a line that continues the field.
pub open spec fn in_field(a: Seq<char>) -> bool {
    run_all(Assembly::start(), lex_spec(a)) matches Ok(state) && state.mode == Mode::LineStart
}

/// The document with `value` as the value of its last field.
pub open spec fn with_last_value(doc: Seq<Seq<FieldView>>, value: Seq<char>) -> Seq<
    Seq<FieldView>,
> {
    doc.drop_last().push(
        doc.last().drop_last().push(FieldView { name: doc.last().last().name, value }),
    )
}

/// The tokens of a continuation line: the indent, the content if there is
/// any, and the line feed.
pub open spec fn continuation_line_tokens(indent: Seq<char>, more: Seq<char>) -> Seq<TokenView> {
    (seq![TokenView { kind: SyntaxKind::Indent, text: indent }] + piece(
        SyntaxKind::Value,
        more,
    )).push(line_feed())
}

/// In a field, a continuation line adds its content and a line feed to what
/// the value has gathered.
proof fn lemma_run_continuation_line(state: Assembly, indent: Seq<char>, more: Seq<char>)
    requires
        state.mode == Mode::LineStart,
    ensures
        run_all(state, continuation_line_tokens(indent, more)) == Ok::<_, ErrorView>(
            in_field_state(state, state.name, (state.value + more).push('\n')),
        ),
{
    let tl = continuation_line_tokens(indent, more);
    let s1 = state.in_mode(Mode::Continuation);
    let target = in_field_state(state, state.name, (state.value + more).push('\n'));
    assert(run(state, tl, 0) == Ok::<_, ErrorView>(state));
    assert(run(state, tl, 1) == state.step(tl[0]));
    assert(run(state, tl, 1) == Ok::<_, ErrorView>(s1));
    if more.len() == 0 {
        assert(state.value + more =~= state.value);
        assert(run(state, tl, 2) == s1.step(tl[1]));
        assert(s1.step(line_feed()) matches Ok(got) && got =~= target);
    } else {
        let s2 = s1.gather(more, Mode::Continuation);
        assert(run(state, tl, 2) == s1.step(tl[1]));
        assert(run(state, tl, 2) == Ok::<_, ErrorView>(s2));
        assert(run(state, tl, 3) == s2.step(tl[2]));
        assert(s2.step(line_feed()) matches Ok(got) && got =~= target);
    }
}

/// What the end of the input makes of a field that gained a line.
proof fn lemma_finish_longer_field(state: Assembly, more: Seq<char>)
    requires
        at_line_start(state),
        state.mode == Mode::LineStart,
    ensures
        state.finish() matches Ok(doc) && doc.len() > 0 && doc.last().len() > 0 && in_field_state(
            state,
            state.name,
            (state.value + more).push('\n'),
        ).finish() == Ok::<_, ErrorView>(
            with_last_value(doc, doc.last().last().value + seq!['\n'] + more),
        ),
{
    let doc = state.finish()->Ok_0;
    let old_value = trim_newline(state.value);
    let field = FieldView { name: state.name, value: old_value };
    assert(doc == state.closed.push(state.open.push(field)));
    assert(doc.last() == state.open.push(field));
    assert(doc.last().last() == field);
    assert(doc.drop_last() =~= state.closed);
    assert(doc.last().drop_last() =~= state.open);
    let new_value = state.value + more;
    assert(new_value =~= old_value + seq!['\n'] + more);
    assert(trim_newline(new_value.push('\n')) =~= new_value);
}

/// A continuation line after a text that ends inside a field joins the
/// value of that field: a line feed and the line's content, without its
/// indent, are added to it.
pub proof fn law_continuation_line(a: Seq<char>, indent: Seq<char>, more: Seq<char>)
    requires
        ends_line(a),
        in_field(a),
        is_indent(indent),
        is_line_value(more),
        more.len() > 0 ==> more[0] != '#',
    ensures
        parse_spec(a) matches Ok(doc) && doc.len() > 0 && doc.last().len() > 0 && parse_spec(
            a + indent + more + seq!['\n'],
        ) == Ok::<_, ErrorView>(
            with_last_value(doc, doc.last().last().value + seq!['\n'] + more),
        ),
{
    let line = indent + more + seq!['\n'];
    assert(a + indent + more + seq!['\n'] =~= a + line + Seq::<char>::empty());
    assert(line.last() == '\n');
    lemma_parse_line_between(a, line, Seq::empty());
    lemma_scan(Seq::<char>::empty(), 0, CharClass::NotNewline, 0);
    assert(lex_spec(Seq::<char>::empty()) =~= Seq::empty());
    lemma_lex_indented_line(indent, more);
    assert(lex_spec(line) == continuation_line_tokens(indent, more));
    lemma_parse_ends_line(a);
    let state = run_all(Assembly::start(), lex_spec(a))->Ok_0;
    lemma_run_continuation_line(state, indent, more);
    lemma_finish_longer_field(state, more);
}

/// A field of two lines: the value is the first line's value, a line feed,
/// and the content of the continuation line without its indent.
pub proof fn law_single_field_continuation(
    key: Seq<char>,
    first: Seq<char>,
    indent: Seq<char>,
    more: Seq<char>,
)
    requires
        is_key(key),
        is_line_value(first),
        is_indent(indent),
        is_line_value(more),
        more.len() > 0 ==> more[0] != '#',
    ensures
        parse_spec(key + seq![':', ' '] + first + seq!['\n'] + indent + more + seq!['\n']) == Ok::<
            _,
            ErrorView,
        >(seq![seq![FieldView { name: key, value: first + seq!['\n'] + more }]]),
{
    let a = key + seq![':'] + seq![' '] + first + seq!['\n'];
    assert(key + seq![':', ' '] + first + seq!['\n'] + indent + more + seq!['\n'] =~= a + indent
        + more + seq!['\n']);
    lemma_lex_field_line(key, seq![' '], first);
    lemma_run_field_line(Assembly::start(), key, seq![' '], first);
    law_single_field(key, seq![' '], first);
    law_continuation_line(a, indent, more);
    let doc = seq![seq![FieldView { name: key, value: first }]];
    let joined = FieldView { name: key, value: first + seq!['\n'] + more };
    assert(doc.drop_last() =~= Seq::empty());
    assert(doc.last().drop_last() =~= Seq::empty());
    assert(doc.last().drop_last().push(joined) =~= seq![joined]);
    assert(with_last_value(doc, first + seq!['\n'] + more) =~= seq![seq![joined]]);
}

/// A text whose first token has no transition from the start is rejected
/// with that token.
proof fn lemma_first_token_rejected(ts: Seq<TokenView>)
    requires
        ts.len() > 0,
        Assembly::start().step(ts[0]) is Err,
    ensures
        assemble_spec(ts) == Err::<Seq<Seq<FieldView>>, _>(unexpected(ts[0])),
{
    let start = Assembly::start();
    assert(run(start, ts, 0) == Ok::<_, ErrorView>(start));
    assert(run(start, ts, 1) == start.step(ts[0]));
    lemma_run_error(start, ts, 1, ts.len());
}

/// A text that starts with a colon is rejected: its first line is an
/// unexpected token of the kind `Error`.
pub proof fn law_leading_colon(s: Seq<char>)
    requires
        s.len() > 0,
        s[0] == ':',
    ensures
        parse_spec(s) == Err::<Seq<Seq<FieldView>>, _>(
            ErrorView::UnexpectedToken(SyntaxKind::Error, s.take(line_len(s))),
        ),
{
    let e = line_len(s);
    lemma_scan(s, 0, CharClass::NotNewline, 0);
    assert(e >= 1) by {
        if e == 0 {
            assert(!CharClass::NotNewline.holds(s[0]));
        }
    }
    let l = s.take(e);
    assert(l[0] == s[0]);
    let t = TokenView { kind: SyntaxKind::Error, text: l };
    assert(line_tokens(l) =~= seq![t]);
    if e == s.len() {
        assert(l =~= s);
    }
    assert(lex_spec(s)[0] == t);
    lemma_first_token_rejected(lex_spec(s));
}

/// A text that starts with a blank is rejected: the blanks it starts with
/// are an unexpected `Indent`.
pub proof fn law_leading_blank(s: Seq<char>)
    requires
        s.len() > 0,
        is_blank(s[0]),
    ensures
        parse_spec(s) == Err::<Seq<Seq<FieldView>>, _>(
            ErrorView::UnexpectedToken(SyntaxKind::Indent, s.take(scan(s, 0, CharClass::Blank))),
        ),
{
    let e = line_len(s);
    lemma_scan(s, 0, CharClass::NotNewline, 0);
    assert(e >= 1) by {
        if e == 0 {
            assert(!CharClass::NotNewline.holds(s[0]));
        }
    }
    let l = s.take(e);
    assert(l[0] == s[0]);
    let w = scan(l, 0, CharClass::Blank);
    lemma_scan(l, 0, CharClass::Blank, 0);
    assert(w >= 1) by {
        if w == 0 {
            assert(!CharClass::Blank.holds(l[0]));
        }
    }
    assert forall|j: int| 0 <= j < w implies CharClass::Blank.holds(#[trigger] s[j]) by {
        assert(s[j] == l[j]);
    }
    if w < s.len() {
        if w < l.len() {
            assert(s[w] == l[w]);
        } else {
            assert(is_newline(s[w]));
        }
    }
    lemma_scan(s, 0, CharClass::Blank, w);
    let t = TokenView { kind: SyntaxKind::Indent, text: l.take(w) };
    assert(l.take(w) =~= s.take(w));
    assert(line_tokens(l)[0] == t);
    if e == s.len() {
        assert(l =~= s);
    }
    assert(lex_spec(s)[0] == t);
    lemma_first_token_rejected(lex_spec(s));
}

/// A text that is a key and nothing else ends too early.
pub proof fn law_key_without_colon(key: Seq<char>)
    requires
        is_key(key),
    ensures
        parse_spec(key) == Err::<Seq<Seq<FieldView>>, _>(ErrorView::UnexpectedEof),
{
    lemma_lex_line(key);
    lemma_key_line(key);
    let ts = lex_spec(key);
    let start = Assembly::start();
    assert(run(start, ts, 0) == Ok::<_, ErrorView>(start));
    assert(run(start, ts, 1) == start.step(ts[0]));
}

/// A text that ends in the first line of a field, before the end of that
/// line, ends too early.
pub proof fn law_unterminated_field(key: Seq<char>, blanks: Seq<char>, value: Seq<char>)
    requires
        is_key(key),
        all_blank(blanks),
        is_line_value(value),
    ensures
        parse_spec(key + seq![':'] + blanks + value) == Err::<Seq<Seq<FieldView>>, _>(
            ErrorView::UnexpectedEof,
        ),
{
    lemma_lex_field_line(key, blanks, value);
    lemma_run_field_head(Assembly::start(), key, blanks, value);
}

/// What a lookup finds once a field is added at the end.
proof fn lemma_lookup_push(fields: Seq<FieldView>, f: FieldView, name: Seq<char>, i: int)
    requires
        0 <= i <= fields.len(),
    ensures
        lookup_from(fields.push(f), name, i) == match lookup_from(fields, name, i) {
            Some(v) => Some(v),
            None => if f.name == name {
                Some(f.value)
            } else {
                None
            },
        },
    decreases fields.len() - i,
{
    let longer = fields.push(f);
    if i < fields.len() {
        assert(longer[i] == fields[i]);
        if fields[i].name != name {
            lemma_lookup_push(fields, f, name, i + 1);
        }
    } else {
        assert(longer[i] == f);
        assert(lookup_from(longer, name, i + 1) is None);
    }
}

/// Looking a name up gives the first of the values that carry the name.
pub proof fn law_lookup_is_first_value(fields: Seq<FieldView>, name: Seq<char>)
    ensures
        lookup(fields, name) == if values_named(fields, name).len() > 0 {
            Some(values_named(fields, name)[0])
        } else {
            None
        },
    decreases fields.len(),
{
    if fields.len() > 0 {
        let shorter = fields.drop_last();
        law_lookup_is_first_value(shorter, name);
        assert(fields =~= shorter.push(fields.last()));
        lemma_lookup_push(shorter, fields.last(), name, 0);
    }
}

/// Whether `a` and `b` are tokens of the same kinds, one by one, with the
/// same texts wherever the kind is `Key` or `Value`.
pub open spec fn same_keys_and_values(a: Seq<TokenView>, b: Seq<TokenView>) -> bool {
    &&& a.len() == b.len()
    &&& forall|i: int|
        0 <= i < a.len() ==> (#[trigger] a[i]).kind == b[i].kind && (a[i].kind == SyntaxKind::Key
            || a[i].kind == SyntaxKind::Value ==> a[i].text == b[i].text)
}

/// Where a transition is made, it is made on the kind of the token, and on
/// the text of a key or a value.
proof fn lemma_step_kept_text(state: Assembly, t: TokenView, u: TokenView)
    requires
        t.kind == u.kind,
        t.kind == SyntaxKind::Key || t.kind == SyntaxKind::Value ==> t.text == u.text,
        state.step(t) is Ok,
    ensures
        state.step(u) == state.step(t),
{
    if t.kind == SyntaxKind::Key || t.kind == SyntaxKind::Value {
        assert(u =~= t);
    }
}

/// Where a run gets through, it depends on the kinds of the tokens and on
/// the texts of keys and values.
proof fn lemma_run_kept_text(from: Assembly, a: Seq<TokenView>, b: Seq<TokenView>, n: nat)
    requires
        same_keys_and_values(a, b),
        n <= a.len(),
        run(from, a, n) is Ok,
    ensures
        run(from, b, n) == run(from, a, n),
    decreases n,
{
    if n > 0 {
        lemma_run_kept_text(from, a, b, (n - 1) as nat);
        lemma_step_kept_text(run(from, a, (n - 1) as nat)->Ok_0, a[n - 1], b[n - 1]);
    }
}

/// Only the texts of keys and values reach a document: what comments,
/// blanks, indents, colons and line terminators hold is dropped. Token
/// sequences that differ in those texts alone stand for the same document.
pub proof fn law_only_keys_and_values_kept(a: Seq<TokenView>, b: Seq<TokenView>)
    requires
        same_keys_and_values(a, b),
        assemble_spec(a) is Ok,
    ensures
        assemble_spec(b) == assemble_spec(a),
{
    lemma_run_kept_text(Assembly::start(), a, b, a.len());
}

/// Whether a field can be written on one line: its name is a key and its
/// value holds no line terminator and starts with no blank.
pub open spec fn is_plain_field(f: FieldView) -> bool {
    is_key(f.name) && is_line_value(f.value)
}

/// Whether every field of `p` can be written on one line.
pub open spec fn is_plain_paragraph(p: Seq<FieldView>) -> bool {
    forall|j: int| 0 <= j < p.len() ==> is_plain_field(#[trigger] p[j])
}

/// Whether `doc` has no empty paragraph and every field of it can be
/// written on one line.
pub open spec fn is_plain_document(doc: Seq<Seq<FieldView>>) -> bool {
    forall|i: int| 0 <= i < doc.len() ==> (#[trigger] doc[i]).len() > 0 && is_plain_paragraph(doc[i])
}

/// The state at the end of the last line of the paragraph `p`, after the
/// paragraphs `closed`: the last field of `p` is under construction.
pub open spec fn paragraph_state(closed: Seq<Seq<FieldView>>, p: Seq<FieldView>) -> Assembly {
    Assembly {
        closed,
        open: p.drop_last(),
        name: p.last().name,
        value: p.last().value.push('\n'),
        mode: Mode::LineStart,
    }
}

/// At the start of a line, the first line of a field ends the field before
/// it, if there is one, and leaves the assembler in the new field.
proof fn lemma_run_next_field_line(
    state: Assembly,
    key: Seq<char>,
    blanks: Seq<char>,
    value: Seq<char>,
)
    requires
        at_line_start(state),
    ensures
        run_all(state, field_line_tokens(key, blanks, value)) == Ok::<_, ErrorView>(
            in_field_state(
                if state.mode == Mode::Top {
                    state
                } else {
                    state.close_field()
                },
                key,
                value.push('\n'),
            ),
        ),
{
    let ts = field_line_tokens(key, blanks, value);
    if state.mode == Mode::Top {
        lemma_run_field_line(state, key, blanks, value);
    } else {
        let closed = state.close_field();
        assert(ts[0].kind == SyntaxKind::Key);
        assert(run(state, ts, 0) == Ok::<_, ErrorView>(state));
        assert(run(closed, ts, 0) == Ok::<_, ErrorView>(closed));
        assert(run(state, ts, 1) == run(closed, ts, 1));
        lemma_run_after_first(state, closed, ts, ts.len());
        lemma_run_field_line(closed, key, blanks, value);
    }
}

/// The text of a paragraph is made of complete lines; it is empty only if
/// the paragraph is.
proof fn lemma_paragraph_text_ends_line(p: Seq<FieldView>)
    ensures
        ends_line(paragraph_text(p)),
        p.len() > 0 ==> paragraph_text(p).len() > 0,
{
}

/// What the assembler makes of the text of a paragraph, between fields and
/// with no field in the open paragraph.
proof fn lemma_run_paragraph(state: Assembly, p: Seq<FieldView>)
    requires
        state.mode == Mode::Top,
        state.open.len() == 0,
        p.len() > 0,
        is_plain_paragraph(p),
    ensures
        run_all(state, lex_spec(paragraph_text(p))) == Ok::<_, ErrorView>(
            paragraph_state(state.closed, p),
        ),
    decreases p.len(),
{
    let q = p.drop_last();
    let f = p.last();
    let line = f.name + seq![':'] + seq![' '] + f.value + seq!['\n'];
    assert(is_plain_field(f));
    assert(paragraph_text(p) =~= paragraph_text(q) + line);
    lemma_lex_field_line(f.name, seq![' '], f.value);
    lemma_paragraph_text_ends_line(q);
    lemma_lex_concat(paragraph_text(q), line);
    lemma_run_concat(state, lex_spec(paragraph_text(q)), lex_spec(line));
    if q.len() == 0 {
        lemma_scan(paragraph_text(q), 0, CharClass::NotNewline, 0);
        assert(lex_spec(paragraph_text(q)) =~= Seq::empty());
        lemma_run_field_line(state, f.name, seq![' '], f.value);
        assert(in_field_state(state, f.name, f.value.push('\n')) =~= paragraph_state(
            state.closed,
            p,
        ));
    } else {
        assert forall|j: int| 0 <= j < q.len() implies is_plain_field(#[trigger] q[j]) by {
            assert(q[j] == p[j]);
        }
        lemma_run_paragraph(state, q);
        let before = paragraph_state(state.closed, q);
        lemma_run_next_field_line(before, f.name, seq![' '], f.value);
        assert(trim_newline(q.last().value.push('\n')) =~= q.last().value);
        assert(before.close_field().open =~= q);
        assert(in_field_state(before.close_field(), f.name, f.value.push('\n'))
            =~= paragraph_state(state.closed, p));
    }
}

/// The end of the input closes the paragraph under construction.
proof fn lemma_finish_paragraph(closed: Seq<Seq<FieldView>>, p: Seq<FieldView>)
    requires
        p.len() > 0,
    ensures
        paragraph_state(closed, p).finish() == Ok::<_, ErrorView>(closed.push(p)),
        at_line_start(paragraph_state(closed, p)),
{
    let state = paragraph_state(closed, p);
    assert(trim_newline(p.last().value.push('\n')) =~= p.last().value);
    assert(state.close_field().open =~= p);
}

/// What the assembler makes of the text of a document.
proof fn lemma_run_document(doc: Seq<Seq<FieldView>>)
    requires
        doc.len() > 0,
        is_plain_document(doc),
    ensures
        run_all(Assembly::start(), lex_spec(document_text(doc))) == Ok::<_, ErrorView>(
            paragraph_state(doc.drop_last(), doc.last()),
        ),
        ends_line(document_text(doc)),
    decreases doc.len(),
{
    let start = Assembly::start();
    let before = doc.drop_last();
    let p = doc.last();
    lemma_paragraph_text_ends_line(p);
    if doc.len() == 1 {
        assert(before =~= Seq::empty());
        lemma_run_paragraph(start, p);
    } else {
        let line = seq!['\n'];
        assert(document_text(doc) == document_text(before) + line + paragraph_text(p));
        assert forall|i: int| 0 <= i < before.len() implies (#[trigger] before[i]).len() > 0
            && is_plain_paragraph(before[i]) by {
            assert(before[i] == doc[i]);
        }
        lemma_run_document(before);
        lemma_parse_line_between(document_text(before), line, paragraph_text(p));
        let state = paragraph_state(before.drop_last(), before.last());
        lemma_finish_paragraph(before.drop_last(), before.last());
        assert(before.drop_last().push(before.last()) =~= before);
        lemma_lex_line_feeds(1);
        assert(line_feeds(1) =~= line);
        lemma_run_line_feeds(state, 1);
        let top = after_paragraphs(before, start);
        assert(top.closed =~= before);
        lemma_run_paragraph(top, p);
    }
}

/// Writing a document out and parsing the text gives the document back,
/// provided that the document has no empty paragraph and that each of its
/// fields can be written on one line.
pub proof fn law_round_trip(doc: Seq<Seq<FieldView>>)
    requires
        is_plain_document(doc),
    ensures
        parse_spec(document_text(doc)) == Ok::<_, ErrorView>(doc),
{
    if doc.len() == 0 {
        lemma_scan(document_text(doc), 0, CharClass::NotNewline, 0);
        assert(lex_spec(document_text(doc)) =~= Seq::empty());
        assert(parse_spec(document_text(doc)) matches Ok(got) && got =~= doc);
    } else {
        lemma_run_document(doc);
        lemma_finish_paragraph(doc.drop_last(), doc.last());
        assert(doc.drop_last().push(doc.last()) =~= doc);
    }
}

} // verus!
