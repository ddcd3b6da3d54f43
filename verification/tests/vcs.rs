use deb822_lossy::vcs::VcsInfo;
use std::str::FromStr;

#[test]
fn test_vcs_info() {
    let vcs_info = VcsInfo::from_str("https://github.com/jelmer/example").unwrap();
    assert_eq!(vcs_info.repo_url, "https://github.com/jelmer/example");
    assert_eq!(vcs_info.branch, None);
    assert_eq!(vcs_info.subpath, None);
}

#[test]
fn test_vcs_info_with_branch() {
    let vcs_info = VcsInfo::from_str("https://github.com/jelmer/example -b branch").unwrap();
    assert_eq!(vcs_info.repo_url, "https://github.com/jelmer/example");
    assert_eq!(vcs_info.branch, Some("branch".to_string()));
    assert_eq!(vcs_info.subpath, None);
}

#[test]
fn test_vcs_info_with_subpath() {
    let vcs_info = VcsInfo::from_str("https://github.com/jelmer/example [subpath]").unwrap();
    assert_eq!(vcs_info.repo_url, "https://github.com/jelmer/example");
    assert_eq!(vcs_info.branch, None);
    assert_eq!(vcs_info.subpath, Some("subpath".to_string()));
}

#[test]
fn test_vcs_info_with_branch_and_subpath() {
    let vcs_info =
        VcsInfo::from_str("https://github.com/jelmer/example -b branch [subpath]").unwrap();
    assert_eq!(vcs_info.repo_url, "https://github.com/jelmer/example");
    assert_eq!(vcs_info.branch, Some("branch".to_string()));
    assert_eq!(vcs_info.subpath, Some("subpath".to_string()));
}

#[test]
fn vcs_info_trims_and_takes_the_first_subpath() {
    let info = VcsInfo::parse("  https://example.org/repo.git [one] -b main [two]\n");
    assert_eq!(info.repo_url, "https://example.org/repo.git");
    assert_eq!(info.branch, Some("main [two]".to_string()));
    assert_eq!(info.subpath, Some("one".to_string()));
}

#[test]
fn vcs_info_from_match_cuts_the_brackets() {
    let info = VcsInfo::from_match("ignored", Some(("url -b", " [a/b]", " x")));
    assert_eq!(info.repo_url, "url");
    assert_eq!(info.branch, Some("x".to_string()));
    assert_eq!(info.subpath, Some("a/b".to_string()));
    let short = VcsInfo::from_match("whole", Some(("a", "[]", "b")));
    assert_eq!(short.repo_url, "ab");
    assert_eq!(short.subpath, Some(String::new()));
    let none = VcsInfo::from_match("whole -b  -b ", None);
    assert_eq!(none.repo_url, "whole");
    assert_eq!(none.branch, Some(" -b ".to_string()));
    assert_eq!(none.subpath, None);
}

#[test]
fn vcs_info_to_string() {
    let info = VcsInfo {
        repo_url: "https://example.org/repo.git".to_string(),
        branch: Some("main".to_string()),
        subpath: Some("sub/dir".to_string()),
    };
    assert_eq!(info.to_string(), "https://example.org/repo.git -b main [sub/dir]");
    assert_eq!(VcsInfo::parse(&info.to_string()), info);
    let bare = VcsInfo { repo_url: "u".to_string(), branch: None, subpath: None };
    assert_eq!(bare.to_string(), "u");
}
