//! The value of a `Vcs-*` field: a repository URL, optionally followed by
//! ` -b ` and a branch, and by a subpath in square brackets.

use vstd::prelude::*;
use vstd::string::{StrSliceExecFns, StringExecFns};
use crate::text::{chars_of, find, find_in, option_view, string_of, trim, trim_bounds};

verus! {

/// The pattern of a subpath: a space, then a bracketed run of characters
/// that are neither `]` nor a space.
pub const SUBPATH_PATTERN: &'static str = r" \[([^] ]+)\]";

/// Where a repository lives.
#[derive(Debug, Clone, PartialEq, Eq)]
pub struct VcsInfo {
    pub repo_url: String,
    pub branch: Option<String>,
    pub subpath: Option<String>,
}

/// The mathematical value of a [`VcsInfo`].
pub struct VcsInfoView {
    pub repo_url: Seq<char>,
    pub branch: Option<Seq<char>>,
    pub subpath: Option<Seq<char>>,
}

impl View for VcsInfo {
    type V = VcsInfoView;

    open spec fn view(&self) -> VcsInfoView {
        VcsInfoView {
            repo_url: self.repo_url@,
            branch: option_view(self.branch),
            subpath: option_view(self.subpath),
        }
    }
}

/// The first match of the regular expression `pattern` in `haystack`, as
/// the text before the match, the match and the text after it; `None` where
/// nothing matches or `pattern` is no regular expression.
pub uninterp spec fn regex_first_match(pattern: Seq<char>, haystack: Seq<char>) -> Option<
    (Seq<char>, Seq<char>, Seq<char>),
>;

/// The characters of a match.
pub open spec fn match_view(found: Option<(&str, &str, &str)>) -> Option<
    (Seq<char>, Seq<char>, Seq<char>),
> {
    match found {
        Some((before, matched, after)) => Some((before@, matched@, after@)),
        None => None,
    }
}

/// Compiles `pattern` with `regex::Regex::new` and searches `haystack` with
/// `Regex::find`. The contract claims only that the outcome depends on the
/// two texts alone: the haystack cut at the bounds of the leftmost match,
/// or `None` where the search finds nothing or the pattern does not compile.
#[verifier::external_body]
fn regex_find<'h>(pattern: &str, haystack: &'h str) -> (r: Option<(&'h str, &'h str, &'h str)>)
    ensures
        match_view(r) == regex_first_match(pattern@, haystack@),
{
    match regex::Regex::new(pattern) {
        Ok(re) => match re.find(haystack) {
            Some(m) => Some((&haystack[..m.start()], m.as_str(), &haystack[m.end()..])),
            None => None,
        },
        Err(_) => None,
    }
}

/// What stands between the brackets of a subpath match: the match without
/// its first two characters and its last one.
pub open spec fn bracketed(matched: Seq<char>) -> Seq<char> {
    if matched.len() >= 3 {
        matched.subrange(2, matched.len() - 1)
    } else {
        Seq::empty()
    }
}

/// The parts of `text`, given what the search for a subpath found in it.
/// The subpath leaves the text; what remains is the URL, or the URL and the
/// branch where ` -b ` stands between them.
pub open spec fn vcs_info_spec(
    text: Seq<char>,
    found: Option<(Seq<char>, Seq<char>, Seq<char>)>,
) -> VcsInfoView {
    let subpath = match found {
        Some((_, matched, _)) => Some(bracketed(matched)),
        None => None,
    };
    let rest = match found {
        Some((before, _, after)) => before + after,
        None => text,
    };
    match find(rest, " -b "@) {
        Some(i) => VcsInfoView { repo_url: rest.take(i), branch: Some(rest.skip(i + 4)), subpath },
        None => VcsInfoView { repo_url: rest, branch: None, subpath },
    }
}

/// The text of a [`VcsInfo`].
pub open spec fn vcs_info_text(info: VcsInfoView) -> Seq<char> {
    info.repo_url + (match info.branch {
        Some(branch) => " -b "@ + branch,
        None => Seq::empty(),
    }) + (match info.subpath {
        Some(subpath) => " ["@ + subpath + "]"@,
        None => Seq::empty(),
    })
}

impl VcsInfo {
    /// Splits `text`, given what the search for a subpath found in it.
    pub fn from_match(text: &str, found: Option<(&str, &str, &str)>) -> (r: VcsInfo)
        ensures
            r@ == vcs_info_spec(text@, match_view(found)),
    {
        let mut subpath: Option<String> = None;
        let mut rest = String::new();
        match found {
            Some((before, matched, after)) => {
                let m = chars_of(matched);
                if m.len() >= 3 {
                    subpath = Some(string_of(&m, 2, m.len() - 1));
                } else {
                    subpath = Some(String::new());
                }
                rest.append(before);
                rest.append(after);
                assert(rest@ =~= before@ + after@);
            },
            None => {
                rest.append(text);
                assert(rest@ =~= text@);
            },
        }
        let chars = chars_of(rest.as_str());
        let mark = chars_of(" -b ");
        proof {
            reveal_strlit(" -b ");
        }
        match find_in(&chars, &mark) {
            Some(i) => {
                let repo_url = string_of(&chars, 0, i);
                let branch = string_of(&chars, i + 4, chars.len());
                assert(repo_url@ =~= rest@.take(i as int));
                assert(branch@ =~= rest@.skip(i + 4));
                VcsInfo { repo_url, branch: Some(branch), subpath }
            },
            None => VcsInfo { repo_url: rest, branch: None, subpath },
        }
    }

    /// Splits the value of a `Vcs-*` field into its parts. White space
    /// around the value does not count.
    pub fn parse(s: &str) -> (r: VcsInfo)
        ensures
            r@ == vcs_info_spec(trim(s@), regex_first_match(SUBPATH_PATTERN@, trim(s@))),
    {
        let chars = chars_of(s);
        let (from, to) = trim_bounds(&chars, 0, chars.len());
        assert(chars@.subrange(0, chars.len() as int) =~= s@);
        let text = s.substring_char(from, to);
        let found = regex_find(SUBPATH_PATTERN, text);
        VcsInfo::from_match(text, found)
    }

    /// The value of a `Vcs-*` field that names these parts.
    pub fn to_string(&self) -> (r: String)
        ensures
            r@ == vcs_info_text(self@),
    {
        let mut out = self.repo_url.clone();
        match &self.branch {
            Some(branch) => {
                out.append(" -b ");
                out.append(branch.as_str());
            },
            None => {},
        }
        let ghost middle = out@;
        match &self.subpath {
            Some(subpath) => {
                out.append(" [");
                out.append(subpath.as_str());
                out.append("]");
            },
            None => {},
        }
        assert(out@ =~= vcs_info_text(self@));
        out
    }
}

impl std::str::FromStr for VcsInfo {
    type Err = &'static str;

    /// The same as [`VcsInfo::parse`]; it never fails.
    fn from_str(s: &str) -> (r: Result<Self, Self::Err>)
        ensures
            r matches Ok(info) && info@ == vcs_info_spec(
                trim(s@),
                regex_first_match(SUBPATH_PATTERN@, trim(s@)),
            ),
    {
        Ok(VcsInfo::parse(s))
    }
}

} // verus!
