//! Control files: a paragraph for the source package, then one for each
//! binary package.

use vstd::prelude::*;
use crate::lossy::{lookup, parse, parse_spec, Deb822, Error, ErrorView, FieldView, Paragraph};
use crate::text::{
    chars_of, cut, lowercase, option_view, same_text, split, split_bounds, string_of,
    string_views, trim, trim_bounds,
};

verus! {

/// How much a package matters.
#[derive(Debug, Clone, Copy, PartialEq, Eq, Structural)]
pub enum Priority {
    Required,
    Important,
    Standard,
    Optional,
    Extra,
}

/// The priority that a word names.
pub open spec fn priority_spec(s: Seq<char>) -> Option<Priority> {
    if s == "required"@ {
        Some(Priority::Required)
    } else if s == "important"@ {
        Some(Priority::Important)
    } else if s == "standard"@ {
        Some(Priority::Standard)
    } else if s == "optional"@ {
        Some(Priority::Optional)
    } else if s == "extra"@ {
        Some(Priority::Extra)
    } else {
        None
    }
}

impl Priority {
    /// Reads the value of a `Priority` field.
    pub fn parse(s: &str) -> (r: Result<Priority, ()>)
        ensures
            match priority_spec(s@) {
                Some(p) => r == Ok::<_, ()>(p),
                None => r is Err,
            },
    {
        if same_text(s, "required") {
            Ok(Priority::Required)
        } else if same_text(s, "important") {
            Ok(Priority::Important)
        } else if same_text(s, "standard") {
            Ok(Priority::Standard)
        } else if same_text(s, "optional") {
            Ok(Priority::Optional)
        } else if same_text(s, "extra") {
            Ok(Priority::Extra)
        } else {
            Err(())
        }
    }
}

impl std::str::FromStr for Priority {
    type Err = ();

    /// The same as [`Priority::parse`].
    fn from_str(s: &str) -> (r: Result<Self, Self::Err>)
        ensures
            match priority_spec(s@) {
                Some(p) => r == Ok::<_, ()>(p),
                None => r is Err,
            },
    {
        Priority::parse(s)
    }
}

/// A URL of the `url` crate; nothing of it is visible here.
#[verifier::external_type_specification]
#[verifier::external_body]
pub struct ExUrl(url::Url);

/// Whether `text` is an absolute URL, as `url::Url::parse` decides it.
pub uninterp spec fn url_parses(text: Seq<char>) -> bool;

/// Calls `url::Url::parse`. The contract claims only that the text alone
/// decides whether a URL comes back.
#[verifier::external_body]
fn parse_url(text: &str) -> (r: Option<url::Url>)
    ensures
        r is Some <==> url_parses(text@),
{
    url::Url::parse(text).ok()
}

/// What a yes-or-no field says, given its value in lower case.
pub open spec fn yes_or_no_spec(lowered: Seq<char>) -> Option<bool> {
    if lowered == "yes"@ {
        Some(true)
    } else if lowered == "no"@ {
        Some(false)
    } else {
        None
    }
}

/// Reads `yes` or `no`; anything else says nothing.
pub fn yes_or_no(lowered: &str) -> (r: Option<bool>)
    ensures
        r == yes_or_no_spec(lowered@),
{
    if same_text(lowered, "yes") {
        Some(true)
    } else if same_text(lowered, "no") {
        Some(false)
    } else {
        None
    }
}

/// The names in a list that commas separate, each without the white space
/// around it.
pub open spec fn name_list_spec(s: Seq<char>) -> Seq<Seq<char>> {
    split(s, ',').map_values(|piece: Seq<char>| trim(piece))
}

/// Reads a list of names that commas separate.
pub fn name_list(s: &str) -> (r: Vec<String>)
    ensures
        string_views(r@) == name_list_spec(s@),
{
    let chars = chars_of(s);
    let bounds = split_bounds(&chars, ',');
    let mut out: Vec<String> = Vec::new();
    let mut i: usize = 0;
    assert(cut(chars@, bounds@).len() == bounds.len());
    while i < bounds.len()
        invariant
            i <= bounds.len(),
            out.len() == i,
            chars@ == s@,
            cut(chars@, bounds@) == split(chars@, ','),
            forall|k: int| 0 <= k < bounds.len() ==> (#[trigger] bounds[k]).0 <= bounds[k].1
                <= chars.len(),
            forall|j: int| 0 <= j < i ==> (#[trigger] out[j])@ == name_list_spec(s@)[j],
        decreases bounds.len() - i,
    {
        let (from, to) = bounds[i];
        assert(cut(chars@, bounds@)[i as int] == chars@.subrange(from as int, to as int));
        let (a, b) = trim_bounds(&chars, from, to);
        out.push(string_of(&chars, a, b));
        i += 1;
    }
    assert(string_views(out@) =~= name_list_spec(s@));
    out
}

/// The value of a field of a paragraph, for the getters below.
pub open spec fn optional_priority(value: Option<Seq<char>>) -> Option<Priority> {
    match value {
        Some(v) => priority_spec(v),
        None => None,
    }
}

/// The names that a field lists, if the paragraph has the field.
pub open spec fn optional_name_list(value: Option<Seq<char>>) -> Option<Seq<Seq<char>>> {
    match value {
        Some(v) => Some(name_list_spec(v)),
        None => None,
    }
}

/// What a yes-or-no field says, if the paragraph has the field.
pub open spec fn optional_yes_or_no(value: Option<Seq<char>>) -> Option<bool> {
    match value {
        Some(v) => yes_or_no_spec(lowercase(v)),
        None => None,
    }
}

/// The characters of an optional list of strings.
pub open spec fn option_views(list: Option<Vec<String>>) -> Option<Seq<Seq<char>>> {
    match list {
        Some(v) => Some(string_views(v@)),
        None => None,
    }
}

/// The priority that the paragraph names.
fn priority_of(paragraph: &Paragraph) -> (r: Option<Priority>)
    ensures
        r == optional_priority(lookup(paragraph@, "Priority"@)),
{
    match paragraph.get("Priority") {
        Some(v) => match Priority::parse(v) {
            Ok(p) => Some(p),
            Err(_) => None,
        },
        None => None,
    }
}

/// The home page that the paragraph names.
fn homepage_of(paragraph: &Paragraph) -> (r: Option<url::Url>)
    ensures
        r is Some <==> (lookup(paragraph@, "Homepage"@) matches Some(v) && url_parses(v)),
{
    match paragraph.get("Homepage") {
        Some(v) => parse_url(v),
        None => None,
    }
}

/// The paragraph of a source package.
pub struct Source(Paragraph);

impl View for Source {
    type V = Seq<FieldView>;

    closed spec fn view(&self) -> Seq<FieldView> {
        self.0@
    }
}

/// The paragraph of a binary package.
pub struct Binary(Paragraph);

impl View for Binary {
    type V = Seq<FieldView>;

    closed spec fn view(&self) -> Seq<FieldView> {
        self.0@
    }
}

impl Source {
    /// The name of the source package.
    pub fn name(&self) -> (r: Option<String>)
        ensures
            option_view(r) == lookup(self@, "Source"@),
    {
        self.0.get_owned("Source")
    }

    /// The default section of the packages built from this source package.
    pub fn section(&self) -> (r: Option<String>)
        ensures
            option_view(r) == lookup(self@, "Section"@),
    {
        self.0.get_owned("Section")
    }

    /// The default priority of the packages built from this source package, where
    /// the `Priority` field names one.
    pub fn priority(&self) -> (r: Option<Priority>)
        ensures
            r == optional_priority(lookup(self@, "Priority"@)),
    {
        priority_of(&self.0)
    }

    /// The maintainer of the package.
    pub fn maintainer(&self) -> (r: Option<String>)
        ensures
            option_view(r) == lookup(self@, "Maintainer"@),
    {
        self.0.get_owned("Maintainer")
    }

    /// The build dependencies of the package, as the field states them.
    pub fn build_depends(&self) -> (r: Option<String>)
        ensures
            option_view(r) == lookup(self@, "Build-Depends"@),
    {
        self.0.get_owned("Build-Depends")
    }

    /// The text of the `Build-Depends-Indep` field.
    pub fn build_depends_indep(&self) -> (r: Option<String>)
        ensures
            option_view(r) == lookup(self@, "Build-Depends-Indep"@),
    {
        self.0.get_owned("Build-Depends-Indep")
    }

    /// The text of the `Build-Depends-Arch` field.
    pub fn build_depends_arch(&self) -> (r: Option<String>)
        ensures
            option_view(r) == lookup(self@, "Build-Depends-Arch"@),
    {
        self.0.get_owned("Build-Depends-Arch")
    }

    /// The text of the `Build-Conflicts` field.
    pub fn build_conflicts(&self) -> (r: Option<String>)
        ensures
            option_view(r) == lookup(self@, "Build-Conflicts"@),
    {
        self.0.get_owned("Build-Conflicts")
    }

    /// The text of the `Build-Conflicts-Indep` field.
    pub fn build_conflicts_indep(&self) -> (r: Option<String>)
        ensures
            option_view(r) == lookup(self@, "Build-Conflicts-Indep"@),
    {
        self.0.get_owned("Build-Conflicts-Indep")
    }

    /// The text of the `Build-Conflicts-Arch` field.
    pub fn build_conflicts_arch(&self) -> (r: Option<String>)
        ensures
            option_view(r) == lookup(self@, "Build-Conflicts-Arch"@),
    {
        self.0.get_owned("Build-Conflicts-Arch")
    }

    /// The text of the `Standards-Version` field.
    pub fn standards_version(&self) -> (r: Option<String>)
        ensures
            option_view(r) == lookup(self@, "Standards-Version"@),
    {
        self.0.get_owned("Standards-Version")
    }

    /// The home page, where the `Homepage` field holds an absolute URL.
    pub fn homepage(&self) -> (r: Option<url::Url>)
        ensures
            r is Some <==> (lookup(self@, "Homepage"@) matches Some(v) && url_parses(v)),
    {
        homepage_of(&self.0)
    }

    /// The text of the `Vcs-Git` field.
    pub fn vcs_git(&self) -> (r: Option<String>)
        ensures
            option_view(r) == lookup(self@, "Vcs-Git"@),
    {
        self.0.get_owned("Vcs-Git")
    }

    /// The text of the `Vcs-Browser` field.
    pub fn vcs_browser(&self) -> (r: Option<String>)
        ensures
            option_view(r) == lookup(self@, "Vcs-Browser"@),
    {
        self.0.get_owned("Vcs-Browser")
    }

    /// The uploaders: the names that the `Uploaders` field lists.
    pub fn uploaders(&self) -> (r: Option<Vec<String>>)
        ensures
            option_views(r) == optional_name_list(lookup(self@, "Uploaders"@)),
    {
        match self.0.get("Uploaders") {
            Some(v) => Some(name_list(v)),
            None => None,
        }
    }

    /// The text of the `Architecture` field.
    pub fn architecture(&self) -> (r: Option<String>)
        ensures
            option_view(r) == lookup(self@, "Architecture"@),
    {
        self.0.get_owned("Architecture")
    }

    /// Whether building needs root: what the `Rules-Requires-Root` field
    /// says, in whatever case it is written, if that is `yes` or `no`.
    pub fn rules_requires_root(&self) -> (r: Option<bool>)
        ensures
            r == optional_yes_or_no(lookup(self@, "Rules-Requires-Root"@)),
    {
        match self.0.get("Rules-Requires-Root") {
            Some(v) => {
                let lowered = v.to_lowercase();
                yes_or_no(lowered.as_str())
            },
            None => None,
        }
    }
}

impl Binary {
    /// The name of the package.
    pub fn name(&self) -> (r: Option<String>)
        ensures
            option_view(r) == lookup(self@, "Package"@),
    {
        self.0.get_owned("Package")
    }

    /// The section of the package.
    pub fn section(&self) -> (r: Option<String>)
        ensures
            option_view(r) == lookup(self@, "Section"@),
    {
        self.0.get_owned("Section")
    }

    /// The priority of the package, where the `Priority` field names one.
    pub fn priority(&self) -> (r: Option<Priority>)
        ensures
            r == optional_priority(lookup(self@, "Priority"@)),
    {
        priority_of(&self.0)
    }

    /// The architecture of the package.
    pub fn architecture(&self) -> (r: Option<String>)
        ensures
            option_view(r) == lookup(self@, "Architecture"@),
    {
        self.0.get_owned("Architecture")
    }

    /// The dependencies of the package, as the field states them.
    pub fn depends(&self) -> (r: Option<String>)
        ensures
            option_view(r) == lookup(self@, "Depends"@),
    {
        self.0.get_owned("Depends")
    }

    /// The text of the `Recommends` field.
    pub fn recommended(&self) -> (r: Option<String>)
        ensures
            option_view(r) == lookup(self@, "Recommends"@),
    {
        self.0.get_owned("Recommends")
    }

    /// The text of the `Suggests` field.
    pub fn suggests(&self) -> (r: Option<String>)
        ensures
            option_view(r) == lookup(self@, "Suggests"@),
    {
        self.0.get_owned("Suggests")
    }

    /// The text of the `Enhances` field.
    pub fn enhances(&self) -> (r: Option<String>)
        ensures
            option_view(r) == lookup(self@, "Enhances"@),
    {
        self.0.get_owned("Enhances")
    }

    /// The text of the `Pre-Depends` field.
    pub fn pre_depends(&self) -> (r: Option<String>)
        ensures
            option_view(r) == lookup(self@, "Pre-Depends"@),
    {
        self.0.get_owned("Pre-Depends")
    }

    /// The text of the `Breaks` field.
    pub fn breaks(&self) -> (r: Option<String>)
        ensures
            option_view(r) == lookup(self@, "Breaks"@),
    {
        self.0.get_owned("Breaks")
    }

    /// The text of the `Conflicts` field.
    pub fn conflicts(&self) -> (r: Option<String>)
        ensures
            option_view(r) == lookup(self@, "Conflicts"@),
    {
        self.0.get_owned("Conflicts")
    }

    /// The text of the `Replaces` field.
    pub fn replaces(&self) -> (r: Option<String>)
        ensures
            option_view(r) == lookup(self@, "Replaces"@),
    {
        self.0.get_owned("Replaces")
    }

    /// The text of the `Provides` field.
    pub fn provides(&self) -> (r: Option<String>)
        ensures
            option_view(r) == lookup(self@, "Provides"@),
    {
        self.0.get_owned("Provides")
    }

    /// The text of the `Built-Using` field.
    pub fn built_using(&self) -> (r: Option<String>)
        ensures
            option_view(r) == lookup(self@, "Built-Using"@),
    {
        self.0.get_owned("Built-Using")
    }

    /// The text of the `Multi-Arch` field.
    pub fn multi_arch(&self) -> (r: Option<String>)
        ensures
            option_view(r) == lookup(self@, "Multi-Arch"@),
    {
        self.0.get_owned("Multi-Arch")
    }

    /// The text of the `Essential` field.
    pub fn essential(&self) -> (r: Option<String>)
        ensures
            option_view(r) == lookup(self@, "Essential"@),
    {
        self.0.get_owned("Essential")
    }

    /// The text of the `Description` field.
    pub fn description(&self) -> (r: Option<String>)
        ensures
            option_view(r) == lookup(self@, "Description"@),
    {
        self.0.get_owned("Description")
    }

    /// The home page, where the `Homepage` field holds an absolute URL.
    pub fn homepage(&self) -> (r: Option<url::Url>)
        ensures
            r is Some <==> (lookup(self@, "Homepage"@) matches Some(v) && url_parses(v)),
    {
        homepage_of(&self.0)
    }
}

/// A control file.
pub struct Control(Deb822);

impl View for Control {
    type V = Seq<Seq<FieldView>>;

    closed spec fn view(&self) -> Seq<Seq<FieldView>> {
        self.0@
    }
}

/// The first paragraph of `doc`, from position `i` on, that has a field
/// called `name`.
pub open spec fn first_with(doc: Seq<Seq<FieldView>>, name: Seq<char>, i: int) -> Option<
    Seq<FieldView>,
>
    decreases doc.len() - i,
{
    if i < 0 || i >= doc.len() {
        None
    } else if lookup(doc[i], name) is Some {
        Some(doc[i])
    } else {
        first_with(doc, name, i + 1)
    }
}

/// The paragraphs of `doc` that have a field called `name`, in their order.
pub open spec fn all_with(doc: Seq<Seq<FieldView>>, name: Seq<char>) -> Seq<Seq<FieldView>>
    decreases doc.len(),
{
    if doc.len() == 0 {
        Seq::empty()
    } else if lookup(doc.last(), name) is Some {
        all_with(doc.drop_last(), name).push(doc.last())
    } else {
        all_with(doc.drop_last(), name)
    }
}

/// The mathematical values of a list of binary paragraphs.
pub open spec fn binary_views(list: Seq<Binary>) -> Seq<Seq<FieldView>> {
    list.map_values(|b: Binary| b@)
}

impl Control {
    /// Reads a control file.
    pub fn parse(text: &str) -> (r: Result<Self, Error>)
        ensures
            match r {
                Ok(control) => parse_spec(text@) == Ok::<_, ErrorView>(control@),
                Err(e) => parse_spec(text@) == Err::<Seq<Seq<FieldView>>, _>(e@),
            },
    {
        match parse(text) {
            Ok(doc) => Ok(Control(doc)),
            Err(e) => Err(e),
        }
    }

    /// The source package: the first paragraph with a `Source` field.
    pub fn source(&self) -> (r: Option<Source>)
        ensures
            match first_with(self@, "Source"@, 0) {
                Some(p) => r matches Some(source) && source@ == p,
                None => r is None,
            },
    {
        let paragraphs = &self.0.0;
        let mut i: usize = 0;
        while i < paragraphs.len()
            invariant
                i <= paragraphs.len(),
                paragraphs == &self.0.0,
                first_with(self@, "Source"@, 0) == first_with(self@, "Source"@, i as int),
            decreases paragraphs.len() - i,
        {
            let paragraph = &paragraphs[i];
            assert(self@[i as int] == paragraph@);
            if paragraph.get("Source").is_some() {
                return Some(Source(paragraph.duplicate()));
            }
            i += 1;
        }
        None
    }

    /// The binary packages: the paragraphs with a `Package` field.
    pub fn binaries(&self) -> (r: Vec<Binary>)
        ensures
            binary_views(r@) == all_with(self@, "Package"@),
    {
        let paragraphs = &self.0.0;
        let mut out: Vec<Binary> = Vec::new();
        let mut i: usize = 0;
        assert(self@.take(0) =~= Seq::empty());
        assert(binary_views(out@) =~= Seq::empty());
        while i < paragraphs.len()
            invariant
                i <= paragraphs.len(),
                paragraphs == &self.0.0,
                binary_views(out@) == all_with(self@.take(i as int), "Package"@),
            decreases paragraphs.len() - i,
        {
            let paragraph = &paragraphs[i];
            let ghost found = binary_views(out@);
            proof {
                let next = self@.take(i + 1);
                assert(next.drop_last() =~= self@.take(i as int));
                assert(next.last() == paragraph@);
            }
            if paragraph.get("Package").is_some() {
                let binary = Binary(paragraph.duplicate());
                out.push(binary);
                assert(binary_views(out@) =~= found.push(binary@));
            }
            i += 1;
        }
        assert(self@.take(i as int) =~= self@);
        out
    }
}

impl std::str::FromStr for Control {
    type Err = Error;

    /// The same as [`Control::parse`].
    fn from_str(s: &str) -> (r: Result<Self, Self::Err>)
        ensures
            match r {
                Ok(control) => parse_spec(s@) == Ok::<_, ErrorView>(control@),
                Err(e) => parse_spec(s@) == Err::<Seq<Seq<FieldView>>, _>(e@),
            },
    {
        Control::parse(s)
    }
}

} // verus!
