use deb822_lossy::dep3::{parse_origin, AppliedUpstream, Forwarded, Origin, OriginCategory, PatchHeader};
use std::str::FromStr;

#[test]
#[allow(deprecated)]
fn test_upstream() {
    let text = r#"From: Ulrich Drepper <drepper@redhat.com>
Subject: Fix regex problems with some multi-bytes characters
 
 * posix/bug-regex17.c: Add testcases.
 * posix/regcomp.c (re_compile_fastmap_iter): Rewrite COMPLEX_BRACKET
   handling.
 
Origin: upstream, http://sourceware.org/git/?p=glibc.git;a=commitdiff;h=bdb56bac
Bug: http://sourceware.org/bugzilla/show_bug.cgi?id=9697
Bug-Debian: http://bugs.debian.org/510219
"#;

    let header = PatchHeader::from_str(text).unwrap();

    assert_eq!(header.origin(), Some((Some(OriginCategory::Upstream), Origin::Other("http://sourceware.org/git/?p=glibc.git;a=commitdiff;h=bdb56bac".to_string()))));
    assert_eq!(header.forwarded(), None);
    assert_eq!(header.author(), Some("Ulrich Drepper <drepper@redhat.com>".to_string()));
    assert_eq!(header.reviewed_by(), Vec::<&str>::new());
    assert_eq!(header.last_update(), None);
    assert_eq!(header.applied_upstream(), None);
    assert_eq!(header.bugs().into_iter().collect::<Vec<_>>(), vec![
        (None, "http://sourceware.org/bugzilla/show_bug.cgi?id=9697".to_string()),
        (Some("Debian".to_string()), "http://bugs.debian.org/510219".to_string()),
    ]);
    assert_eq!(header.description(), Some("Fix regex problems with some multi-bytes characters".to_string()));
}

#[test]
#[allow(deprecated)]
fn test_forwarded() {
    let text = r#"Description: Use FHS compliant paths by default
 Upstream is not interested in switching to those paths.
 .
 But we will continue using them in Debian nevertheless to comply with
 our policy.
Forwarded: http://lists.example.com/oct-2006/1234.html
Author: John Doe <johndoe-guest@users.alioth.debian.org>
Last-Update: 2006-12-21
"#;
    let header = PatchHeader::from_str(text).unwrap();

    assert_eq!(header.origin(), None);
    assert_eq!(header.forwarded(), Some(Forwarded::Yes("http://lists.example.com/oct-2006/1234.html".to_string())));
    assert_eq!(header.author(), Some("John Doe <johndoe-guest@users.alioth.debian.org>".to_string()));
    assert_eq!(header.reviewed_by(), Vec::<&str>::new());
    assert_eq!(header.last_update(), Some(chrono::NaiveDate::from_ymd(2006, 12, 21)));
    assert_eq!(header.applied_upstream(), None);
    assert_eq!(header.bugs().into_iter().collect::<Vec<_>>(), vec![]);
    assert_eq!(header.description(), Some("Use FHS compliant paths by default".to_string()));
}

#[test]
fn test_not_forwarded() {
    let text = r#"Description: Workaround for broken symbol resolving on mips/mipsel
 The correct fix will be done in etch and it will require toolchain
 fixes.
Forwarded: not-needed
Origin: vendor, http://bugs.debian.org/cgi-bin/bugreport.cgi?msg=80;bug=265678
Bug-Debian: http://bugs.debian.org/265678
Author: Thiemo Seufer <ths@debian.org>
"#;

    let header = PatchHeader::from_str(text).unwrap();

    assert_eq!(header.origin(), Some((Some(OriginCategory::Vendor), Origin::Other("http://bugs.debian.org/cgi-bin/bugreport.cgi?msg=80;bug=265678".to_string()))));
    assert_eq!(header.forwarded(), Some(Forwarded::NotNeeded));
    assert_eq!(header.author(), Some("Thiemo Seufer <ths@debian.org>".to_string()));
    assert_eq!(header.reviewed_by(), Vec::<&str>::new());
    assert_eq!(header.last_update(), None);
    assert_eq!(header.applied_upstream(), None);
    assert_eq!(header.bugs().into_iter().collect::<Vec<_>>(), vec![
        (Some("Debian".to_string()), "http://bugs.debian.org/265678".to_string()),
    ]);

    assert_eq!(header.description(), Some("Workaround for broken symbol resolving on mips/mipsel".to_string()));
}

#[test]
#[allow(deprecated)]
fn test_applied_upstream() {
    let text = r#"Description: Fix widget frobnication speeds
 Frobnicating widgets too quickly tended to cause explosions.
Forwarded: http://lists.example.com/2010/03/1234.html
Author: John Doe <johndoe-guest@users.alioth.debian.org>
Applied-Upstream: 1.2, http://bzr.example.com/frobnicator/trunk/revision/123
Last-Update: 2010-03-29
"#;
    let header = PatchHeader::from_str(text).unwrap();

    assert_eq!(header.origin(), None);
    assert_eq!(header.forwarded(), Some(Forwarded::Yes("http://lists.example.com/2010/03/1234.html".to_string())));
    assert_eq!(header.author(), Some("John Doe <johndoe-guest@users.alioth.debian.org>".to_string()));
    assert_eq!(header.reviewed_by(), Vec::<&str>::new());
    assert_eq!(header.last_update(), Some(chrono::NaiveDate::from_ymd(2010, 3, 29)));
    assert_eq!(header.applied_upstream(), Some(AppliedUpstream::Other("1.2, http://bzr.example.com/frobnicator/trunk/revision/123".to_string())));
    assert_eq!(header.bugs().into_iter().collect::<Vec<_>>(), vec![]);
    assert_eq!(header.description(), Some("Fix widget frobnication speeds".to_string()));
}

#[test]
fn origin_with_and_without_category() {
    assert_eq!(
        parse_origin("backport, commit:deadbeef"),
        (Some(OriginCategory::Backport), Origin::Commit("deadbeef".to_string()))
    );
    assert_eq!(
        parse_origin("other, a, b"),
        (Some(OriginCategory::Other), Origin::Other("a, b".to_string()))
    );
    assert_eq!(parse_origin("vendor"), (Some(OriginCategory::Vendor), Origin::Other(String::new())));
    assert_eq!(parse_origin("commit:abc"), (None, Origin::Commit("abc".to_string())));
    assert_eq!(
        parse_origin("Vendor, http://example.org"),
        (None, Origin::Other("Vendor, http://example.org".to_string()))
    );
    assert_eq!(parse_origin("upstream,x"), (None, Origin::Other("upstream,x".to_string())));
    assert_eq!(parse_origin(""), (None, Origin::Other(String::new())));
}

#[test]
fn forwarded_values() {
    assert_eq!(Forwarded::parse("no"), Forwarded::No);
    assert_eq!(Forwarded::parse("not-needed"), Forwarded::NotNeeded);
    assert_eq!(Forwarded::parse("No"), Forwarded::Yes("No".to_string()));
    assert_eq!(Forwarded::from_str(""), Ok(Forwarded::Yes(String::new())));
}

#[test]
fn applied_upstream_values() {
    assert_eq!(AppliedUpstream::parse("commit:1234"), AppliedUpstream::Commit("1234".to_string()));
    assert_eq!(AppliedUpstream::parse("commit:"), AppliedUpstream::Commit(String::new()));
    assert_eq!(AppliedUpstream::parse("commit"), AppliedUpstream::Other("commit".to_string()));
    assert_eq!(
        AppliedUpstream::from_str(" commit:1"),
        Ok(AppliedUpstream::Other(" commit:1".to_string()))
    );
}

#[test]
fn header_takes_the_first_paragraph() {
    let header = PatchHeader::from_str("Author: A\nReviewed-By: R1\nReviewed-By: R2\n\nAuthor: B\n").unwrap();
    assert_eq!(header.author(), Some("A".to_string()));
    assert_eq!(header.reviewed_by(), vec!["R1".to_string(), "R2".to_string()]);
    let empty = PatchHeader::from_str("# nothing here\n").unwrap();
    assert_eq!(empty.author(), None);
    assert_eq!(empty.description(), None);
    assert!(PatchHeader::from_str(" stray\n").is_err());
    assert_eq!(PatchHeader::new().bugs(), vec![]);
    assert_eq!(PatchHeader::default().origin(), None);
}

#[test]
fn header_descriptions() {
    let header = PatchHeader::parse("Subject: short\n long one\n long two\nFrom: me\n").unwrap();
    assert_eq!(header.description(), Some("short".to_string()));
    assert_eq!(header.long_description(), Some("long one\nlong two".to_string()));
    assert_eq!(header.author(), Some("me".to_string()));
    let both = PatchHeader::parse("Subject: s\nDescription: d\nAuthor: a\nFrom: f\n").unwrap();
    assert_eq!(both.description(), Some("d".to_string()));
    assert_eq!(both.long_description(), Some(String::new()));
    assert_eq!(both.author(), Some("a".to_string()));
}

#[test]
fn header_last_update_needs_a_date() {
    let header = PatchHeader::parse("Last-Update: yesterday\n").unwrap();
    assert_eq!(header.last_update(), None);
    let header = PatchHeader::parse("Last-Update: 2024-02-29\n").unwrap();
    assert_eq!(header.last_update(), chrono::NaiveDate::from_ymd_opt(2024, 2, 29));
    let header = PatchHeader::parse("Last-Update: 2023-02-29\n").unwrap();
    assert_eq!(header.last_update(), None);
}

#[test]
fn header_bug_fields() {
    let header = PatchHeader::parse("Bug-: x\nBugs: y\nBug: z\nBug-Ubuntu: u\nbug: w\n").unwrap();
    assert_eq!(
        header.bugs(),
        vec![
            (Some(String::new()), "x".to_string()),
            (None, "z".to_string()),
            (Some("Ubuntu".to_string()), "u".to_string()),
        ]
    );
}
