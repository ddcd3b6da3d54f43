//! The document model and the assembler that builds it from tokens.
//!
//! A document is a sequence of paragraphs, a paragraph a sequence of fields,
//! a field a name and a value. The assembler is a state machine that reads
//! the tokens one at a time: [`Assembly`] is its state, [`Assembly::step`]
//! its transition, and [`Assembly::finish`] what it makes of the end of the
//! input.

use vstd::prelude::*;
use vstd::string::StringExecFns;
use crate::lex::{lex, lex_spec, token_views, SyntaxKind, Token, TokenView};
use crate::text::option_view;

verus! {

/// Why a token sequence is no document.
#[derive(Debug, PartialEq, Eq, Clone)]
pub enum Error {
    /// A token stands where the grammar has no place for it.
    UnexpectedToken(SyntaxKind, String),
    /// The input ends where a colon or the rest of a field's first line is
    /// still due.
    UnexpectedEof,
}

/// The mathematical value of an [`Error`].
pub enum ErrorView {
    UnexpectedToken(SyntaxKind, Seq<char>),
    UnexpectedEof,
}

impl View for Error {
    type V = ErrorView;

    open spec fn view(&self) -> ErrorView {
        match self {
            Error::UnexpectedToken(kind, text) => ErrorView::UnexpectedToken(*kind, text@),
            Error::UnexpectedEof => ErrorView::UnexpectedEof,
        }
    }
}

/// One `Name: value` entry.
#[derive(Debug, PartialEq, Eq, Clone)]
pub struct Field {
    pub name: String,
    pub value: String,
}

/// The mathematical value of a [`Field`].
#[verifier::ext_equal]
pub struct FieldView {
    pub name: Seq<char>,
    pub value: Seq<char>,
}

impl View for Field {
    type V = FieldView;

    open spec fn view(&self) -> FieldView {
        FieldView { name: self.name@, value: self.value@ }
    }
}

/// An ordered list of fields.
#[derive(Debug, PartialEq, Eq, Clone)]
pub struct Paragraph {
    pub fields: Vec<Field>,
}

impl View for Paragraph {
    type V = Seq<FieldView>;

    open spec fn view(&self) -> Seq<FieldView> {
        self.fields@.map_values(|f: Field| f@)
    }
}

/// An ordered list of paragraphs.
#[derive(Debug, PartialEq, Eq, Clone)]
pub struct Deb822(pub Vec<Paragraph>);

impl View for Deb822 {
    type V = Seq<Seq<FieldView>>;

    open spec fn view(&self) -> Seq<Seq<FieldView>> {
        self.0@.map_values(|p: Paragraph| p@)
    }
}

/// `s` without its last character, if that is a line feed.
pub open spec fn trim_newline(s: Seq<char>) -> Seq<char> {
    if s.len() > 0 && s.last() == '\n' {
        s.drop_last()
    } else {
        s
    }
}

/// The closed paragraphs once the open one, if it holds a field, is closed
/// too.
pub open spec fn flush(closed: Seq<Seq<FieldView>>, open: Seq<FieldView>) -> Seq<Seq<FieldView>> {
    if open.len() > 0 {
        closed.push(open)
    } else {
        closed
    }
}

/// The error for a token that stands in the wrong place.
pub open spec fn unexpected(t: TokenView) -> ErrorView {
    ErrorView::UnexpectedToken(t.kind, t.text)
}

/// Where the assembler stands.
#[derive(Clone, Copy, Debug, PartialEq, Eq, Structural)]
pub enum Mode {
    /// Between fields: a key, a blank line or a comment may follow.
    Top,
    /// Inside a comment between fields: everything up to the line's end is
    /// skipped.
    Comment,
    /// After a key: the colon is due.
    ExpectColon,
    /// After the colon: blanks, the value or the line's end may follow.
    AfterColon,
    /// Inside the value of a field's first line.
    FirstLine,
    /// At the start of a line that follows a line of a field: an indent
    /// continues the field, anything else ends it.
    LineStart,
    /// Inside a continuation line.
    Continuation,
}

/// The state of the assembler.
#[verifier::ext_equal]
pub struct Assembly {
    /// The paragraphs that are complete.
    pub closed: Seq<Seq<FieldView>>,
    /// The complete fields of the paragraph under construction.
    pub open: Seq<FieldView>,
    /// The name of the field under construction.
    pub name: Seq<char>,
    /// What the value of the field under construction has gathered: the
    /// text of each line, each followed by a line feed once the line ended.
    pub value: Seq<char>,
    pub mode: Mode,
}

impl Assembly {
    /// The state before the first token.
    pub open spec fn start() -> Assembly {
        Assembly {
            closed: Seq::empty(),
            open: Seq::empty(),
            name: Seq::empty(),
            value: Seq::empty(),
            mode: Mode::Top,
        }
    }

    /// The field under construction joins the open paragraph, its value
    /// losing the line feed of its last line.
    pub open spec fn close_field(self) -> Assembly {
        Assembly {
            closed: self.closed,
            open: self.open.push(FieldView { name: self.name, value: trim_newline(self.value) }),
            name: Seq::empty(),
            value: Seq::empty(),
            mode: Mode::Top,
        }
    }

    /// The same state in another mode.
    pub open spec fn in_mode(self, mode: Mode) -> Assembly {
        Assembly { mode, ..self }
    }

    /// The value under construction gains `text`.
    pub open spec fn gather(self, text: Seq<char>, mode: Mode) -> Assembly {
        Assembly { value: self.value + text, mode, ..self }
    }

    /// A line of the field under construction ends.
    pub open spec fn end_line(self) -> Assembly {
        Assembly { value: self.value.push('\n'), mode: Mode::LineStart, ..self }
    }

    /// The transition on `t` between fields.
    pub open spec fn at_top(self, t: TokenView) -> Result<Assembly, ErrorView> {
        match t.kind {
            SyntaxKind::Key => Ok(
                Assembly { name: t.text, value: Seq::empty(), mode: Mode::ExpectColon, ..self },
            ),
            SyntaxKind::Newline => Ok(
                Assembly {
                    closed: flush(self.closed, self.open),
                    open: Seq::empty(),
                    mode: Mode::Top,
                    ..self
                },
            ),
            SyntaxKind::Whitespace => Ok(self.in_mode(Mode::Top)),
            SyntaxKind::Comment => Ok(self.in_mode(Mode::Comment)),
            _ => Err(unexpected(t)),
        }
    }

    /// Whether `kind` ends the field under construction.
    pub open spec fn ends_field(self, kind: SyntaxKind) -> bool {
        ||| self.mode == Mode::LineStart && kind != SyntaxKind::Indent
        ||| self.mode == Mode::Continuation && kind == SyntaxKind::Key
    }

    /// The transition on `t`.
    pub open spec fn step(self, t: TokenView) -> Result<Assembly, ErrorView> {
        if self.ends_field(t.kind) {
            self.close_field().at_top(t)
        } else {
            match self.mode {
                Mode::Top => self.at_top(t),
                Mode::Comment => Ok(
                    if t.kind == SyntaxKind::Newline {
                        self.in_mode(Mode::Top)
                    } else {
                        self
                    },
                ),
                Mode::ExpectColon => if t.kind == SyntaxKind::Colon {
                    Ok(self.in_mode(Mode::AfterColon))
                } else {
                    Err(unexpected(t))
                },
                Mode::AfterColon => match t.kind {
                    SyntaxKind::Whitespace => Ok(self),
                    SyntaxKind::Value => Ok(self.gather(t.text, Mode::FirstLine)),
                    SyntaxKind::Newline => Ok(self.end_line()),
                    _ => Err(unexpected(t)),
                },
                Mode::FirstLine => match t.kind {
                    SyntaxKind::Value => Ok(self.gather(t.text, Mode::FirstLine)),
                    SyntaxKind::Newline => Ok(self.end_line()),
                    _ => Err(unexpected(t)),
                },
                Mode::LineStart => Ok(self.in_mode(Mode::Continuation)),
                Mode::Continuation => match t.kind {
                    SyntaxKind::Value => Ok(self.gather(t.text, Mode::Continuation)),
                    SyntaxKind::Comment => Ok(self),
                    SyntaxKind::Newline => Ok(self.end_line()),
                    _ => Err(unexpected(t)),
                },
            }
        }
    }

    /// What the end of the input makes of the state.
    pub open spec fn finish(self) -> Result<Seq<Seq<FieldView>>, ErrorView> {
        match self.mode {
            Mode::Top | Mode::Comment => Ok(flush(self.closed, self.open)),
            Mode::ExpectColon | Mode::AfterColon | Mode::FirstLine => Err(ErrorView::UnexpectedEof),
            Mode::LineStart | Mode::Continuation => Ok(
                self.closed.push(self.close_field().open),
            ),
        }
    }
}

/// The state after the first `n` tokens of `ts`, from the state `from`, or the
/// error of the first token that has no transition.
pub open spec fn run(from: Assembly, ts: Seq<TokenView>, n: nat) -> Result<Assembly, ErrorView>
    decreases n,
{
    if n == 0 {
        Ok(from)
    } else {
        match run(from, ts, (n - 1) as nat) {
            Ok(state) => state.step(ts[n - 1]),
            Err(e) => Err(e),
        }
    }
}

/// The state after all of `ts`, from the state `from`.
pub open spec fn run_all(from: Assembly, ts: Seq<TokenView>) -> Result<Assembly, ErrorView> {
    run(from, ts, ts.len())
}

/// The document that the assembler makes of `ts` from the state `from`.
pub open spec fn complete(from: Assembly, ts: Seq<TokenView>) -> Result<
    Seq<Seq<FieldView>>,
    ErrorView,
> {
    match run_all(from, ts) {
        Ok(state) => state.finish(),
        Err(e) => Err(e),
    }
}

/// The document that `ts` stands for, or why it stands for none.
pub open spec fn assemble_spec(ts: Seq<TokenView>) -> Result<Seq<Seq<FieldView>>, ErrorView> {
    complete(Assembly::start(), ts)
}

/// The document that the text `s` stands for, or why it stands for none.
pub open spec fn parse_spec(s: Seq<char>) -> Result<Seq<Seq<FieldView>>, ErrorView> {
    assemble_spec(lex_spec(s))
}

/// Once a token has no transition, no later token changes the error.
pub proof fn lemma_run_error(from: Assembly, ts: Seq<TokenView>, k: nat, n: nat)
    requires
        k <= n,
        run(from, ts, k) is Err,
    ensures
        run(from, ts, n) == run(from, ts, k),
    decreases n,
{
    if k < n {
        lemma_run_error(from, ts, k, (n - 1) as nat);
    }
}

/// `value` without its last character, if that is a line feed.
fn trim_trailing_newline(value: String) -> (r: String)
    ensures
        r@ == trim_newline(value@),
{
    let mut v = value;
    match v.pop() {
        Some(c) => {
            if c != '\n' {
                v.push(c);
                assert(v@ =~= value@);
            }
        },
        None => {},
    }
    v
}

/// Builds the document that `tokens` stand for.
pub fn assemble(tokens: &Vec<Token>) -> (r: Result<Deb822, Error>)
    ensures
        match r {
            Ok(doc) => assemble_spec(token_views(tokens@)) == Ok::<_, ErrorView>(doc@),
            Err(e) => assemble_spec(token_views(tokens@)) == Err::<Seq<Seq<FieldView>>, _>(e@),
        },
{
    let ghost ts = token_views(tokens@);
    let mut closed: Vec<Paragraph> = Vec::new();
    let mut open: Vec<Field> = Vec::new();
    let mut name = String::new();
    let mut value = String::new();
    let mut mode = Mode::Top;
    let mut i: usize = 0;
    assert(Deb822(closed)@ =~= Seq::empty());
    assert(Paragraph { fields: open }@ =~= Seq::empty());
    while i < tokens.len()
        invariant
            i <= tokens.len(),
            ts == token_views(tokens@),
            run(Assembly::start(), ts, i as nat) == Ok::<_, ErrorView>(
                Assembly {
                    closed: Deb822(closed)@,
                    open: Paragraph { fields: open }@,
                    name: name@,
                    value: value@,
                    mode,
                },
            ),
        decreases tokens.len() - i,
    {
        let t = &tokens[i];
        let kind = t.kind;
        let ghost tv = ts[i as int];
        let ghost before = Assembly {
            closed: Deb822(closed)@,
            open: Paragraph { fields: open }@,
            name: name@,
            value: value@,
            mode,
        };
        assert(tv == t@);
        assert(run(Assembly::start(), ts, (i + 1) as nat) == before.step(tv));
        if (mode == Mode::LineStart && kind != SyntaxKind::Indent) || (mode == Mode::Continuation
            && kind == SyntaxKind::Key) {
            let ghost fields = Paragraph { fields: open }@;
            let field = Field { name, value: trim_trailing_newline(value) };
            open.push(field);
            name = String::new();
            value = String::new();
            mode = Mode::Top;
            assert(Paragraph { fields: open }@ =~= fields.push(field@));
        }
        let ghost mid = Assembly {
            closed: Deb822(closed)@,
            open: Paragraph { fields: open }@,
            name: name@,
            value: value@,
            mode,
        };
        assert(before.step(tv) == if before.ends_field(kind) {
            mid.at_top(tv)
        } else {
            mid.step(tv)
        });
        let mut bad = false;
        match mode {
            Mode::Top => match kind {
                SyntaxKind::Key => {
                    name = t.text.clone();
                    value = String::new();
                    mode = Mode::ExpectColon;
                },
                SyntaxKind::Newline => {
                    if open.len() > 0 {
                        let ghost paragraphs = Deb822(closed)@;
                        let paragraph = Paragraph { fields: open };
                        closed.push(paragraph);
                        open = Vec::new();
                        assert(Deb822(closed)@ =~= paragraphs.push(paragraph@));
                    }
                    assert(Paragraph { fields: open }@ =~= Seq::empty());
                },
                SyntaxKind::Whitespace => {},
                SyntaxKind::Comment => {
                    mode = Mode::Comment;
                },
                _ => {
                    bad = true;
                },
            },
            Mode::Comment => {
                if kind == SyntaxKind::Newline {
                    mode = Mode::Top;
                }
            },
            Mode::ExpectColon => {
                if kind == SyntaxKind::Colon {
                    mode = Mode::AfterColon;
                } else {
                    bad = true;
                }
            },
            Mode::AfterColon | Mode::FirstLine => match kind {
                SyntaxKind::Whitespace => {
                    bad = mode == Mode::FirstLine;
                },
                SyntaxKind::Value => {
                    value.append(t.text.as_str());
                    mode = Mode::FirstLine;
                },
                SyntaxKind::Newline => {
                    value.push('\n');
                    mode = Mode::LineStart;
                },
                _ => {
                    bad = true;
                },
            },
            Mode::LineStart => {
                mode = Mode::Continuation;
            },
            Mode::Continuation => match kind {
                SyntaxKind::Value => {
                    value.append(t.text.as_str());
                },
                SyntaxKind::Comment => {},
                SyntaxKind::Newline => {
                    value.push('\n');
                    mode = Mode::LineStart;
                },
                _ => {
                    bad = true;
                },
            },
        }
        if bad {
            let e = Error::UnexpectedToken(kind, t.text.clone());
            proof {
                assert(before.step(tv) == Err::<Assembly, _>(e@));
                lemma_run_error(Assembly::start(), ts, (i + 1) as nat, ts.len());
            }
            return Err(e);
        }
        i += 1;
    }
    match mode {
        Mode::Top | Mode::Comment => {},
        Mode::ExpectColon | Mode::AfterColon | Mode::FirstLine => {
            return Err(Error::UnexpectedEof);
        },
        Mode::LineStart | Mode::Continuation => {
            let ghost fields = Paragraph { fields: open }@;
            let field = Field { name, value: trim_trailing_newline(value) };
            open.push(field);
            assert(Paragraph { fields: open }@ =~= fields.push(field@));
        },
    }
    if open.len() > 0 {
        let ghost paragraphs = Deb822(closed)@;
        let paragraph = Paragraph { fields: open };
        closed.push(paragraph);
        assert(Deb822(closed)@ =~= paragraphs.push(paragraph@));
    }
    Ok(Deb822(closed))
}

/// Whether every paragraph of `doc` holds a field.
pub open spec fn no_empty_paragraph(doc: Seq<Seq<FieldView>>) -> bool {
    forall|i: int| 0 <= i < doc.len() ==> (#[trigger] doc[i]).len() > 0
}

/// No transition closes an empty paragraph.
pub proof fn lemma_run_no_empty_paragraph(from: Assembly, ts: Seq<TokenView>, n: nat)
    requires
        no_empty_paragraph(from.closed),
    ensures
        run(from, ts, n) matches Ok(state) ==> no_empty_paragraph(state.closed),
    decreases n,
{
    if n > 0 {
        lemma_run_no_empty_paragraph(from, ts, (n - 1) as nat);
    }
}

/// A document that comes out of the assembler has no empty paragraph.
pub proof fn lemma_assemble_no_empty_paragraph(ts: Seq<TokenView>)
    ensures
        assemble_spec(ts) matches Ok(doc) ==> no_empty_paragraph(doc),
{
    lemma_run_no_empty_paragraph(Assembly::start(), ts, ts.len());
}

/// Parses `text` into a document: tokenizes it and assembles the tokens.
pub fn parse(text: &str) -> (r: Result<Deb822, Error>)
    ensures
        match r {
            Ok(doc) => parse_spec(text@) == Ok::<_, ErrorView>(doc@) && no_empty_paragraph(doc@),
            Err(e) => parse_spec(text@) == Err::<Seq<Seq<FieldView>>, _>(e@),
        },
{
    let tokens = lex(text);
    proof {
        lemma_assemble_no_empty_paragraph(token_views(tokens@));
    }
    assemble(&tokens)
}

/// The value of the first field of `fields`, from position `i` on, whose name
/// is `name`.
pub open spec fn lookup_from(fields: Seq<FieldView>, name: Seq<char>, i: int) -> Option<Seq<char>>
    decreases fields.len() - i,
{
    if i < 0 || i >= fields.len() {
        None
    } else if fields[i].name == name {
        Some(fields[i].value)
    } else {
        lookup_from(fields, name, i + 1)
    }
}

/// The value of the first field of `fields` whose name is `name`.
pub open spec fn lookup(fields: Seq<FieldView>, name: Seq<char>) -> Option<Seq<char>> {
    lookup_from(fields, name, 0)
}

/// The values of the fields of `fields` whose name is `name`, in the order
/// of the fields.
pub open spec fn values_named(fields: Seq<FieldView>, name: Seq<char>) -> Seq<Seq<char>>
    decreases fields.len(),
{
    if fields.len() == 0 {
        Seq::empty()
    } else if fields.last().name == name {
        values_named(fields.drop_last(), name).push(fields.last().value)
    } else {
        values_named(fields.drop_last(), name)
    }
}

/// The views of a sequence of string slices.
pub open spec fn str_views(v: Seq<&str>) -> Seq<Seq<char>> {
    v.map_values(|s: &str| s@)
}

/// The text of a field: `Name: value`.
pub open spec fn field_text(f: FieldView) -> Seq<char> {
    f.name + seq![':', ' '] + f.value
}

/// The text of a paragraph: each field's text, each followed by a line feed.
pub open spec fn paragraph_text(p: Seq<FieldView>) -> Seq<char>
    decreases p.len(),
{
    if p.len() == 0 {
        Seq::empty()
    } else {
        paragraph_text(p.drop_last()) + field_text(p.last()) + seq!['\n']
    }
}

/// The text of a document: the texts of its paragraphs, with an empty line
/// between one paragraph and the next.
pub open spec fn document_text(d: Seq<Seq<FieldView>>) -> Seq<char>
    decreases d.len(),
{
    if d.len() == 0 {
        Seq::empty()
    } else if d.len() == 1 {
        paragraph_text(d[0])
    } else {
        document_text(d.drop_last()) + seq!['\n'] + paragraph_text(d.last())
    }
}

/// The text of an error.
pub open spec fn error_text(e: ErrorView) -> Seq<char> {
    match e {
        ErrorView::UnexpectedToken(_, text) => "Unexpected token: "@ + text,
        ErrorView::UnexpectedEof => "Unexpected end-of-file"@,
    }
}

impl Error {
    /// The message of the error.
    pub fn to_string(&self) -> (r: String)
        ensures
            r@ == error_text(self@),
    {
        match self {
            Error::UnexpectedToken(_, text) => {
                let mut out = String::from_str("Unexpected token: ");
                out.append(text.as_str());
                out
            },
            Error::UnexpectedEof => String::from_str("Unexpected end-of-file"),
        }
    }
}

impl Field {
    /// Appends the field's text to `out`.
    fn write_to(&self, out: &mut String)
        ensures
            final(out)@ == old(out)@ + field_text(self@),
    {
        out.append(self.name.as_str());
        out.push(':');
        out.push(' ');
        out.append(self.value.as_str());
        assert(out@ =~= old(out)@ + field_text(self@));
    }

    /// The field as text: `Name: value`.
    pub fn to_string(&self) -> (r: String)
        ensures
            r@ == field_text(self@),
    {
        let mut out = String::new();
        self.write_to(&mut out);
        assert(out@ =~= field_text(self@));
        out
    }
}

impl Paragraph {
    /// The value of the first field called `name`, if there is one.
    pub fn get(&self, name: &str) -> (r: Option<&str>)
        ensures
            match r {
                Some(v) => lookup(self@, name@) == Some(v@),
                None => lookup(self@, name@) is None,
            },
    {
        let wanted = String::from_str(name);
        let mut i: usize = 0;
        while i < self.fields.len()
            invariant
                i <= self.fields.len(),
                wanted@ == name@,
                lookup(self@, name@) == lookup_from(self@, name@, i as int),
            decreases self.fields.len() - i,
        {
            let field = &self.fields[i];
            assert(self@[i as int] == field@);
            if field.name == wanted {
                return Some(field.value.as_str());
            }
            i += 1;
        }
        None
    }

    /// A copy of the value of the first field called `name`, if there is
    /// one.
    pub(crate) fn get_owned(&self, name: &str) -> (r: Option<String>)
        ensures
            option_view(r) == lookup(self@, name@),
    {
        match self.get(name) {
            Some(v) => Some(v.to_owned()),
            None => None,
        }
    }

    /// A copy of the paragraph.
    pub(crate) fn duplicate(&self) -> (r: Paragraph)
        ensures
            r@ == self@,
    {
        let mut fields: Vec<Field> = Vec::new();
        let mut i: usize = 0;
        while i < self.fields.len()
            invariant
                i <= self.fields.len(),
                fields.len() == i,
                forall|j: int| 0 <= j < i ==> (#[trigger] fields[j])@ == self.fields[j]@,
            decreases self.fields.len() - i,
        {
            let field = &self.fields[i];
            fields.push(Field { name: field.name.clone(), value: field.value.clone() });
            i += 1;
        }
        let copy = Paragraph { fields };
        assert(copy@ =~= self@);
        copy
    }

    /// The values of all the fields called `name`, in the order of the
    /// fields.
    pub fn get_all(&self, name: &str) -> (r: Vec<&str>)
        ensures
            str_views(r@) == values_named(self@, name@),
    {
        let wanted = String::from_str(name);
        let mut out: Vec<&str> = Vec::new();
        let mut i: usize = 0;
        assert(self@.take(0) =~= Seq::empty());
        assert(str_views(out@) =~= Seq::empty());
        while i < self.fields.len()
            invariant
                i <= self.fields.len(),
                wanted@ == name@,
                str_views(out@) == values_named(self@.take(i as int), name@),
            decreases self.fields.len() - i,
        {
            let field = &self.fields[i];
            let ghost found = str_views(out@);
            proof {
                let next = self@.take(i + 1);
                assert(next.drop_last() =~= self@.take(i as int));
                assert(next.last() == field@);
            }
            if field.name == wanted {
                out.push(field.value.as_str());
                assert(str_views(out@) =~= found.push(field.value@));
            }
            i += 1;
        }
        assert(self@.take(i as int) =~= self@);
        out
    }

    /// Whether the paragraph holds no field.
    pub fn is_empty(&self) -> (r: bool)
        ensures
            r == (self@.len() == 0),
    {
        self.fields.len() == 0
    }

    /// The number of fields.
    pub fn len(&self) -> (r: usize)
        ensures
            r == self@.len(),
    {
        self.fields.len()
    }

    /// The fields in order, each as its name and its value.
    pub fn iter(&self) -> (r: Vec<(&str, &str)>)
        ensures
            r.len() == self@.len(),
            forall|i: int|
                0 <= i < r.len() ==> (#[trigger] r[i]).0@ == self@[i].name && r[i].1@
                    == self@[i].value,
    {
        let mut out: Vec<(&str, &str)> = Vec::new();
        let mut i: usize = 0;
        while i < self.fields.len()
            invariant
                i <= self.fields.len(),
                out.len() == i,
                forall|j: int|
                    0 <= j < i ==> (#[trigger] out[j]).0@ == self@[j].name && out[j].1@
                        == self@[j].value,
            decreases self.fields.len() - i,
        {
            let field = &self.fields[i];
            out.push((field.name.as_str(), field.value.as_str()));
            i += 1;
        }
        out
    }

    /// The name of the field at `index` and its value for editing in place,
    /// or `None` when the paragraph has no such field. Whatever is written to
    /// the value, the name and the other fields stay as they are.
    pub fn iter_mut(&mut self, index: usize) -> (r: Option<(&str, &mut String)>)
        ensures
            match r {
                Some((name, value)) => {
                    &&& index < old(self)@.len()
                    &&& name@ == old(self)@[index as int].name
                    &&& value@ == old(self)@[index as int].value
                    &&& final(self)@ == old(self)@.update(
                        index as int,
                        FieldView { name: name@, value: final(value)@ },
                    )
                },
                None => index >= old(self)@.len() && final(self)@ == old(self)@,
            },
    {
        if index < self.fields.len() {
            let field = &mut self.fields[index];
            Some((field.name.as_str(), &mut field.value))
        } else {
            None
        }
    }

    /// Appends a field.
    pub fn insert(&mut self, name: &str, value: &str)
        ensures
            final(self)@ == old(self)@.push(FieldView { name: name@, value: value@ }),
    {
        let field = Field { name: String::from_str(name), value: String::from_str(value) };
        self.fields.push(field);
        assert(self@ =~= old(self)@.push(field@));
    }

    /// Appends the paragraph's text to `out`.
    fn write_to(&self, out: &mut String)
        ensures
            final(out)@ == old(out)@ + paragraph_text(self@),
    {
        let mut i: usize = 0;
        assert(self@.take(0) =~= Seq::empty());
        assert(out@ =~= old(out)@ + paragraph_text(self@.take(0)));
        while i < self.fields.len()
            invariant
                i <= self.fields.len(),
                out@ == old(out)@ + paragraph_text(self@.take(i as int)),
            decreases self.fields.len() - i,
        {
            let ghost so_far = out@;
            proof {
                let next = self@.take(i + 1);
                assert(next.drop_last() =~= self@.take(i as int));
                assert(next.last() == self.fields[i as int]@);
            }
            self.fields[i].write_to(out);
            out.push('\n');
            assert(out@ =~= old(out)@ + paragraph_text(self@.take(i + 1)));
            i += 1;
        }
        assert(self@.take(i as int) =~= self@);
    }

    /// The paragraph as text: one line for each field.
    pub fn to_string(&self) -> (r: String)
        ensures
            r@ == paragraph_text(self@),
    {
        let mut out = String::new();
        self.write_to(&mut out);
        assert(out@ =~= paragraph_text(self@));
        out
    }
}

impl Deb822 {
    /// The number of paragraphs.
    pub fn len(&self) -> (r: usize)
        ensures
            r == self@.len(),
    {
        self.0.len()
    }

    /// Whether the document holds no paragraph.
    pub fn is_empty(&self) -> (r: bool)
        ensures
            r == (self@.len() == 0),
    {
        self.0.len() == 0
    }

    /// The paragraphs in order.
    pub fn iter(&self) -> (r: Vec<&Paragraph>)
        ensures
            r.len() == self@.len(),
            forall|i: int| 0 <= i < r.len() ==> *(#[trigger] r[i]) == self.0[i],
    {
        let mut out: Vec<&Paragraph> = Vec::new();
        let mut i: usize = 0;
        while i < self.0.len()
            invariant
                i <= self.0.len(),
                out.len() == i,
                forall|j: int| 0 <= j < i ==> *(#[trigger] out[j]) == self.0[j],
            decreases self.0.len() - i,
        {
            out.push(&self.0[i]);
            i += 1;
        }
        out
    }

    /// The document as text.
    pub fn to_string(&self) -> (r: String)
        ensures
            r@ == document_text(self@),
    {
        let mut out = String::new();
        let mut i: usize = 0;
        assert(self@.take(0) =~= Seq::empty());
        while i < self.0.len()
            invariant
                i <= self.0.len(),
                out@ == document_text(self@.take(i as int)),
            decreases self.0.len() - i,
        {
            proof {
                let next = self@.take(i + 1);
                assert(next.drop_last() =~= self@.take(i as int));
                assert(next.last() == self.0[i as int]@);
                assert(next[0] == next.last() || i > 0);
            }
            if i > 0 {
                out.push('\n');
            }
            self.0[i].write_to(&mut out);
            assert(out@ =~= document_text(self@.take(i + 1)));
            i += 1;
        }
        assert(self@.take(i as int) =~= self@);
        out
    }
}

impl std::str::FromStr for Deb822 {
    type Err = Error;

    /// The same as [`parse`].
    fn from_str(s: &str) -> (r: Result<Self, Self::Err>)
        ensures
            match r {
                Ok(doc) => parse_spec(s@) == Ok::<_, ErrorView>(doc@) && no_empty_paragraph(doc@),
                Err(e) => parse_spec(s@) == Err::<Seq<Seq<FieldView>>, _>(e@),
            },
    {
        parse(s)
    }
}

} // verus!
