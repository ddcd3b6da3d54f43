//! Patch headers: the fields that say where a patch comes from and what
//! became of it.

use vstd::prelude::*;
use crate::lossy::{
    lookup, parse, parse_spec, str_views, values_named, Error, FieldView, Paragraph,
};
use crate::text::{
    after_first_line, chars_of, find, find_in, first_line, lemma_scan_window, matches_at,
    option_view, same_text, scan_while, starts_with, string_of, string_views, CharClass,
};

verus! {

/// Whether a patch went upstream.
#[derive(Debug, PartialEq, Eq)]
pub enum Forwarded {
    No,
    NotNeeded,
    /// Where it went.
    Yes(String),
}

/// The mathematical value of a [`Forwarded`].
pub enum ForwardedView {
    No,
    NotNeeded,
    Yes(Seq<char>),
}

impl View for Forwarded {
    type V = ForwardedView;

    open spec fn view(&self) -> ForwardedView {
        match self {
            Forwarded::No => ForwardedView::No,
            Forwarded::NotNeeded => ForwardedView::NotNeeded,
            Forwarded::Yes(s) => ForwardedView::Yes(s@),
        }
    }
}

/// What a `Forwarded` field says.
pub open spec fn forwarded_spec(s: Seq<char>) -> ForwardedView {
    if s == "no"@ {
        ForwardedView::No
    } else if s == "not-needed"@ {
        ForwardedView::NotNeeded
    } else {
        ForwardedView::Yes(s)
    }
}

impl Forwarded {
    /// Reads the value of a `Forwarded` field.
    pub fn parse(s: &str) -> (r: Forwarded)
        ensures
            r@ == forwarded_spec(s@),
    {
        if same_text(s, "no") {
            Forwarded::No
        } else if same_text(s, "not-needed") {
            Forwarded::NotNeeded
        } else {
            Forwarded::Yes(s.to_owned())
        }
    }
}

impl std::str::FromStr for Forwarded {
    type Err = &'static str;

    /// The same as [`Forwarded::parse`]; it never fails.
    fn from_str(s: &str) -> (r: Result<Self, Self::Err>)
        ensures
            r matches Ok(f) && f@ == forwarded_spec(s@),
    {
        Ok(Forwarded::parse(s))
    }
}

/// The kind of place a patch comes from.
#[derive(Debug, Clone, Copy, PartialEq, Eq, Structural)]
pub enum OriginCategory {
    /// an upstream patch that had to be modified to apply on the current version
    Backport,
    /// a patch created by Debian or another distribution vendor
    Vendor,
    /// a patch cherry-picked from the upstream VCS
    Upstream,
    Other,
}

/// A reference to where a patch comes from, or to where it was applied:
/// a commit, or anything else.
pub enum ReferenceView {
    Commit(Seq<char>),
    Other(Seq<char>),
}

/// Where a patch comes from.
#[derive(Debug, PartialEq, Eq)]
pub enum Origin {
    Commit(String),
    Other(String),
}

impl View for Origin {
    type V = ReferenceView;

    open spec fn view(&self) -> ReferenceView {
        match self {
            Origin::Commit(s) => ReferenceView::Commit(s@),
            Origin::Other(s) => ReferenceView::Other(s@),
        }
    }
}

/// Where a patch was applied upstream.
#[derive(Debug, PartialEq, Eq)]
pub enum AppliedUpstream {
    Commit(String),
    Other(String),
}

impl View for AppliedUpstream {
    type V = ReferenceView;

    open spec fn view(&self) -> ReferenceView {
        match self {
            AppliedUpstream::Commit(s) => ReferenceView::Commit(s@),
            AppliedUpstream::Other(s) => ReferenceView::Other(s@),
        }
    }
}

/// What a reference says: after `commit:` stands a commit, anything else is
/// taken as it is.
pub open spec fn reference_spec(s: Seq<char>) -> ReferenceView {
    if starts_with(s, "commit:"@) {
        ReferenceView::Commit(s.skip(7))
    } else {
        ReferenceView::Other(s)
    }
}

/// Where the commit of a reference starts in `chars[from..]`, if the
/// reference names one.
fn commit_start(chars: &Vec<char>, from: usize) -> (r: Option<usize>)
    requires
        from <= chars.len(),
    ensures
        match r {
            Some(at) => at == from + 7 && at <= chars.len() && starts_with(
                chars@.skip(from as int),
                "commit:"@,
            ),
            None => !starts_with(chars@.skip(from as int), "commit:"@),
        },
{
    let mark = chars_of("commit:");
    proof {
        reveal_strlit("commit:");
        if from + 7 <= chars.len() {
            assert(chars@.skip(from as int).subrange(0, 7) =~= chars@.subrange(
                from as int,
                from + 7,
            ));
        }
    }
    if matches_at(chars, &mark, from) {
        Some(from + 7)
    } else {
        None
    }
}

impl AppliedUpstream {
    /// Reads the value of an `Applied-Upstream` field.
    pub fn parse(s: &str) -> (r: AppliedUpstream)
        ensures
            r@ == reference_spec(s@),
    {
        let chars = chars_of(s);
        assert(chars@.skip(0) =~= s@);
        match commit_start(&chars, 0) {
            Some(at) => {
                let commit = string_of(&chars, at, chars.len());
                assert(commit@ =~= s@.skip(7));
                AppliedUpstream::Commit(commit)
            },
            None => AppliedUpstream::Other(s.to_owned()),
        }
    }
}

impl std::str::FromStr for AppliedUpstream {
    type Err = &'static str;

    /// The same as [`AppliedUpstream::parse`]; it never fails.
    fn from_str(s: &str) -> (r: Result<Self, Self::Err>)
        ensures
            r matches Ok(a) && a@ == reference_spec(s@),
    {
        Ok(AppliedUpstream::parse(s))
    }
}

/// The category that a word names.
pub open spec fn category_spec(word: Seq<char>) -> Option<OriginCategory> {
    if word == "backport"@ {
        Some(OriginCategory::Backport)
    } else if word == "vendor"@ {
        Some(OriginCategory::Vendor)
    } else if word == "upstream"@ {
        Some(OriginCategory::Upstream)
    } else if word == "other"@ {
        Some(OriginCategory::Other)
    } else {
        None
    }
}

/// The word before the first `, ` of `s`; all of `s` where it has none.
pub open spec fn head(s: Seq<char>) -> Seq<char> {
    match find(s, ", "@) {
        Some(i) => s.take(i),
        None => s,
    }
}

/// What follows the first `, ` of `s`; nothing where it has none.
pub open spec fn tail(s: Seq<char>) -> Seq<char> {
    match find(s, ", "@) {
        Some(i) => s.skip(i + 2),
        None => Seq::empty(),
    }
}

/// What an `Origin` field says. Where the text begins with the name of a
/// category, alone or followed by `, `, the reference is what follows;
/// otherwise there is no category and the whole text is the reference.
pub open spec fn origin_spec(s: Seq<char>) -> (Option<OriginCategory>, ReferenceView) {
    let category = category_spec(head(s));
    if category is Some {
        (category, reference_spec(tail(s)))
    } else {
        (None, reference_spec(s))
    }
}

/// The category that `chars[..to]` names.
fn category_of(chars: &Vec<char>, to: usize) -> (r: Option<OriginCategory>)
    requires
        to <= chars.len(),
    ensures
        r == category_spec(chars@.take(to as int)),
{
    let word = string_of(chars, 0, to);
    assert(word@ =~= chars@.take(to as int));
    if same_text(word.as_str(), "backport") {
        Some(OriginCategory::Backport)
    } else if same_text(word.as_str(), "vendor") {
        Some(OriginCategory::Vendor)
    } else if same_text(word.as_str(), "upstream") {
        Some(OriginCategory::Upstream)
    } else if same_text(word.as_str(), "other") {
        Some(OriginCategory::Other)
    } else {
        None
    }
}

/// Reads the value of an `Origin` field.
pub fn parse_origin(s: &str) -> (r: (Option<OriginCategory>, Origin))
    ensures
        r.0 == origin_spec(s@).0,
        r.1@ == origin_spec(s@).1,
{
    let chars = chars_of(s);
    let n = chars.len();
    let comma = chars_of(", ");
    proof {
        reveal_strlit(", ");
        assert(chars@.take(n as int) =~= s@);
        assert(chars@.skip(n as int) =~= Seq::<char>::empty());
    }
    let (word_end, rest) = match find_in(&chars, &comma) {
        Some(i) => (i, i + 2),
        None => (n, n),
    };
    let category = category_of(&chars, word_end);
    let start = if category.is_some() {
        rest
    } else {
        0
    };
    assert(chars@.skip(0) =~= s@);
    let ghost body = chars@.skip(start as int);
    let origin = match commit_start(&chars, start) {
        Some(at) => {
            let commit = string_of(&chars, at, n);
            assert(commit@ =~= body.skip(7));
            Origin::Commit(commit)
        },
        None => {
            let other = string_of(&chars, start, n);
            assert(other@ =~= body);
            Origin::Other(other)
        },
    };
    (category, origin)
}

/// A date of the `chrono` crate; nothing of it is visible here.
#[verifier::external_type_specification]
#[verifier::external_body]
pub struct ExNaiveDate(chrono::NaiveDate);

/// Whether `text` is a date in the format `format`, as
/// `chrono::NaiveDate::parse_from_str` decides it.
pub uninterp spec fn date_parses(text: Seq<char>, format: Seq<char>) -> bool;

/// Calls `chrono::NaiveDate::parse_from_str`. The contract claims only that
/// the two texts alone decide whether a date comes back.
#[verifier::external_body]
fn parse_date(text: &str, format: &str) -> (r: Option<chrono::NaiveDate>)
    ensures
        r is Some <==> date_parses(text@, format@),
{
    chrono::NaiveDate::parse_from_str(text, format).ok()
}

/// A bug reference: the tracker it lives in, if the field names one, and the
/// reference itself.
pub open spec fn bug_spec(f: FieldView) -> Option<(Option<Seq<char>>, Seq<char>)> {
    if starts_with(f.name, "Bug-"@) {
        Some((Some(f.name.skip(4)), f.value))
    } else if f.name == "Bug"@ {
        Some((None, f.value))
    } else {
        None
    }
}

/// The bug references among `fields`, in the order of the fields.
pub open spec fn bugs_spec(fields: Seq<FieldView>) -> Seq<(Option<Seq<char>>, Seq<char>)>
    decreases fields.len(),
{
    if fields.len() == 0 {
        Seq::empty()
    } else {
        match bug_spec(fields.last()) {
            Some(bug) => bugs_spec(fields.drop_last()).push(bug),
            None => bugs_spec(fields.drop_last()),
        }
    }
}

/// The mathematical value of a list of bug references.
pub open spec fn bug_views(bugs: Seq<(Option<String>, String)>) -> Seq<
    (Option<Seq<char>>, Seq<char>),
> {
    bugs.map_values(|b: (Option<String>, String)| (option_view(b.0), b.1@))
}

/// The first paragraph of a document; an empty one where it has none.
pub open spec fn first_paragraph(doc: Seq<Seq<FieldView>>) -> Seq<FieldView> {
    if doc.len() > 0 {
        doc[0]
    } else {
        Seq::empty()
    }
}

/// The value of the first field called `first`; where there is none, that
/// of the first field called `second`.
pub open spec fn lookup_either(fields: Seq<FieldView>, first: Seq<char>, second: Seq<char>) -> Option<
    Seq<char>,
> {
    match lookup(fields, first) {
        Some(v) => Some(v),
        None => lookup(fields, second),
    }
}

/// The header of a patch.
pub struct PatchHeader(Paragraph);

impl View for PatchHeader {
    type V = Seq<FieldView>;

    closed spec fn view(&self) -> Seq<FieldView> {
        self.0@
    }
}

impl PatchHeader {
    /// A header without fields.
    pub fn new() -> (r: Self)
        ensures
            r@ == Seq::<FieldView>::empty(),
    {
        let paragraph = Paragraph { fields: Vec::new() };
        assert(paragraph@ =~= Seq::empty());
        PatchHeader(paragraph)
    }

    /// Reads a header: the first paragraph of `text`. What follows that
    /// paragraph is checked like the rest and then left aside.
    pub fn parse(text: &str) -> (r: Result<Self, Error>)
        ensures
            match r {
                Ok(header) => parse_spec(text@) matches Ok(doc) && header@ == first_paragraph(doc),
                Err(e) => parse_spec(text@) == Err::<Seq<Seq<FieldView>>, _>(e@),
            },
    {
        match parse(text) {
            Ok(doc) => {
                let mut paragraphs = doc.0;
                if paragraphs.len() > 0 {
                    let first = paragraphs.remove(0);
                    Ok(PatchHeader(first))
                } else {
                    Ok(PatchHeader::new())
                }
            },
            Err(e) => Err(e),
        }
    }

    /// Where the patch comes from.
    pub fn origin(&self) -> (r: Option<(Option<OriginCategory>, Origin)>)
        ensures
            match lookup(self@, "Origin"@) {
                Some(v) => r matches Some(o) && o.0 == origin_spec(v).0 && o.1@ == origin_spec(v).1,
                None => r is None,
            },
    {
        match self.0.get("Origin") {
            Some(v) => Some(parse_origin(v)),
            None => None,
        }
    }

    /// Whether the patch went upstream.
    pub fn forwarded(&self) -> (r: Option<Forwarded>)
        ensures
            match lookup(self@, "Forwarded"@) {
                Some(v) => r matches Some(f) && f@ == forwarded_spec(v),
                None => r is None,
            },
    {
        match self.0.get("Forwarded") {
            Some(v) => Some(Forwarded::parse(v)),
            None => None,
        }
    }

    /// Who wrote the patch: the `Author` field or, without one, the `From`
    /// field.
    pub fn author(&self) -> (r: Option<String>)
        ensures
            option_view(r) == lookup_either(self@, "Author"@, "From"@),
    {
        match self.0.get_owned("Author") {
            Some(v) => Some(v),
            None => self.0.get_owned("From"),
        }
    }

    /// Who reviewed the patch: the values of all `Reviewed-By` fields.
    pub fn reviewed_by(&self) -> (r: Vec<String>)
        ensures
            string_views(r@) == values_named(self@, "Reviewed-By"@),
    {
        let found = self.0.get_all("Reviewed-By");
        let mut out: Vec<String> = Vec::new();
        let mut i: usize = 0;
        while i < found.len()
            invariant
                i <= found.len(),
                out.len() == i,
                forall|j: int| 0 <= j < i ==> (#[trigger] out[j])@ == found[j]@,
            decreases found.len() - i,
        {
            out.push(found[i].to_owned());
            i += 1;
        }
        assert(string_views(out@) =~= str_views(found@));
        out
    }

    /// When the patch was last changed, where the `Last-Update` field is a
    /// date written as year, month and day.
    pub fn last_update(&self) -> (r: Option<chrono::NaiveDate>)
        ensures
            r is Some <==> (lookup(self@, "Last-Update"@) matches Some(v) && date_parses(
                v,
                "%Y-%m-%d"@,
            )),
    {
        match self.0.get("Last-Update") {
            Some(v) => parse_date(v, "%Y-%m-%d"),
            None => None,
        }
    }

    /// Where the patch was applied upstream.
    pub fn applied_upstream(&self) -> (r: Option<AppliedUpstream>)
        ensures
            match lookup(self@, "Applied-Upstream"@) {
                Some(v) => r matches Some(a) && a@ == reference_spec(v),
                None => r is None,
            },
    {
        match self.0.get("Applied-Upstream") {
            Some(v) => Some(AppliedUpstream::parse(v)),
            None => None,
        }
    }

    /// The bugs that the patch is about: for each `Bug` field its value, for
    /// each `Bug-<tracker>` field the tracker and its value.
    pub fn bugs(&self) -> (r: Vec<(Option<String>, String)>)
        ensures
            bug_views(r@) == bugs_spec(self@),
    {
        let mark = chars_of("Bug-");
        let mut out: Vec<(Option<String>, String)> = Vec::new();
        let mut i: usize = 0;
        proof {
            reveal_strlit("Bug-");
            assert(self@.take(0) =~= Seq::empty());
            assert(bug_views(out@) =~= Seq::empty());
        }
        while i < self.0.fields.len()
            invariant
                i <= self.0.fields.len(),
                mark@ == "Bug-"@,
                mark@.len() == 4,
                bug_views(out@) == bugs_spec(self@.take(i as int)),
            decreases self.0.fields.len() - i,
        {
            let field = &self.0.fields[i];
            let ghost found = bug_views(out@);
            proof {
                let next = self@.take(i + 1);
                assert(next.drop_last() =~= self@.take(i as int));
                assert(next.last() == field@);
            }
            let name = chars_of(field.name.as_str());
            if matches_at(&name, &mark, 0) {
                let tracker = string_of(&name, 4, name.len());
                assert(tracker@ =~= field@.name.skip(4));
                let bug = (Some(tracker), field.value.clone());
                out.push(bug);
                assert(bug_views(out@) =~= found.push((option_view(bug.0), bug.1@)));
            } else if same_text(field.name.as_str(), "Bug") {
                let bug = (None, field.value.clone());
                out.push(bug);
                assert(bug_views(out@) =~= found.push((option_view(bug.0), bug.1@)));
            }
            i += 1;
        }
        assert(self@.take(i as int) =~= self@);
        out
    }

    /// The `Description` field or, without one, the `Subject` field.
    fn description_field(&self) -> (r: Option<String>)
        ensures
            option_view(r) == lookup_either(self@, "Description"@, "Subject"@),
    {
        match self.0.get_owned("Description") {
            Some(v) => Some(v),
            None => self.0.get_owned("Subject"),
        }
    }

    /// The first line of the description.
    pub fn description(&self) -> (r: Option<String>)
        ensures
            option_view(r) == match lookup_either(self@, "Description"@, "Subject"@) {
                Some(v) => Some(first_line(v)),
                None => None,
            },
    {
        match self.description_field() {
            Some(v) => {
                let chars = chars_of(v.as_str());
                let n = chars.len();
                let e = scan_while(&chars, 0, n, CharClass::Except('\n'));
                proof {
                    lemma_scan_window(chars@, 0, n as int, 0, CharClass::Except('\n'), e as int);
                    assert(chars@.subrange(0, n as int) =~= chars@);
                }
                let line = string_of(&chars, 0, e);
                assert(line@ =~= first_line(v@));
                Some(line)
            },
            None => None,
        }
    }

    /// The description without its first line.
    pub fn long_description(&self) -> (r: Option<String>)
        ensures
            option_view(r) == match lookup_either(self@, "Description"@, "Subject"@) {
                Some(v) => Some(after_first_line(v)),
                None => None,
            },
    {
        match self.description_field() {
            Some(v) => {
                let chars = chars_of(v.as_str());
                let n = chars.len();
                let e = scan_while(&chars, 0, n, CharClass::Except('\n'));
                proof {
                    lemma_scan_window(chars@, 0, n as int, 0, CharClass::Except('\n'), e as int);
                    assert(chars@.subrange(0, n as int) =~= chars@);
                }
                if e < n {
                    let rest = string_of(&chars, e + 1, n);
                    assert(rest@ =~= after_first_line(v@));
                    Some(rest)
                } else {
                    Some(String::new())
                }
            },
            None => None,
        }
    }
}

impl Default for PatchHeader {
    fn default() -> (r: Self)
        ensures
            r@ == Seq::<FieldView>::empty(),
    {
        Self::new()
    }
}

impl std::str::FromStr for PatchHeader {
    type Err = Error;

    /// The same as [`PatchHeader::parse`].
    fn from_str(s: &str) -> (r: Result<Self, Self::Err>)
        ensures
            match r {
                Ok(header) => parse_spec(s@) matches Ok(doc) && header@ == first_paragraph(doc),
                Err(e) => parse_spec(s@) == Err::<Seq<Seq<FieldView>>, _>(e@),
            },
    {
        PatchHeader::parse(s)
    }
}

} // verus!
