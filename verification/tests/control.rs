use deb822_lossy::control::{name_list, yes_or_no, Control, Priority};
use std::str::FromStr;

fn relation(entry: &str) -> (&str, Option<(&str, &str)>) {
    match entry.split_once(" (") {
        Some((name, rest)) => {
            let inner = rest.strip_suffix(')').unwrap();
            (name, inner.split_once(' '))
        }
        None => (entry, None),
    }
}

#[test]
fn control_test_parse() {
    let control: Control = r#"Source: foo
Section: libs
Priority: optional
Build-Depends: bar (>= 1.0.0), baz (>= 1.0.0)

"#
    .parse()
    .unwrap();
    let source = control.source().unwrap();

    assert_eq!(source.name(), Some("foo".to_owned()));
    assert_eq!(source.section(), Some("libs".to_owned()));
    assert_eq!(source.priority(), Some(Priority::Optional));
    let bd = source.build_depends().unwrap();
    let entries = bd.split(", ").collect::<Vec<_>>();
    assert_eq!(entries.len(), 2);
    let rel = relation(entries[0]);
    assert_eq!(rel.0, "bar");
    assert_eq!(rel.1, Some((">=", "1.0.0")));
    let rel = relation(entries[1]);
    assert_eq!(rel.0, "baz");
    assert_eq!(rel.1, Some((">=", "1.0.0")));
}

const CONTROL: &str = "Source: hello\n\
Maintainer: Jane Doe <jane@example.org>\n\
Uploaders: A <a@example.org> ,B <b@example.org>,\n  C <c@example.org>\n\
Priority: standard\n\
Build-Depends-Indep: texinfo\n\
Standards-Version: 4.6.2\n\
Homepage: https://example.org/hello\n\
Vcs-Git: https://example.org/hello.git\n\
Rules-Requires-Root: No\n\
\n\
Package: hello\n\
Architecture: any\n\
Depends: libc6 (>= 2.34)\n\
Recommends: hello-doc\n\
Priority: urgent\n\
Homepage: not a url\n\
Description: greeter\n more words\n\
\n\
# not a package\n\
Comment-Only: yes\n\
\n\
Package: hello-doc\n\
Architecture: all\n\
Multi-Arch: foreign\n";

#[test]
fn control_source_fields() {
    let control = Control::parse(CONTROL).unwrap();
    let source = control.source().unwrap();
    assert_eq!(source.name(), Some("hello".to_string()));
    assert_eq!(source.maintainer(), Some("Jane Doe <jane@example.org>".to_string()));
    assert_eq!(
        source.uploaders(),
        Some(vec![
            "A <a@example.org>".to_string(),
            "B <b@example.org>".to_string(),
            "C <c@example.org>".to_string(),
        ])
    );
    assert_eq!(source.priority(), Some(Priority::Standard));
    assert_eq!(source.build_depends(), None);
    assert_eq!(source.build_depends_indep(), Some("texinfo".to_string()));
    assert_eq!(source.build_depends_arch(), None);
    assert_eq!(source.build_conflicts(), None);
    assert_eq!(source.build_conflicts_indep(), None);
    assert_eq!(source.build_conflicts_arch(), None);
    assert_eq!(source.standards_version(), Some("4.6.2".to_string()));
    assert_eq!(source.homepage().map(|u| u.to_string()), Some("https://example.org/hello".to_string()));
    assert_eq!(source.vcs_git(), Some("https://example.org/hello.git".to_string()));
    assert_eq!(source.vcs_browser(), None);
    assert_eq!(source.architecture(), None);
    assert_eq!(source.section(), None);
    assert_eq!(source.rules_requires_root(), Some(false));
}

#[test]
fn control_binary_fields() {
    let control = Control::from_str(CONTROL).unwrap();
    let binaries = control.binaries();
    assert_eq!(binaries.len(), 2);
    let hello = &binaries[0];
    assert_eq!(hello.name(), Some("hello".to_string()));
    assert_eq!(hello.architecture(), Some("any".to_string()));
    assert_eq!(hello.depends(), Some("libc6 (>= 2.34)".to_string()));
    assert_eq!(hello.recommended(), Some("hello-doc".to_string()));
    assert_eq!(hello.priority(), None);
    assert!(hello.homepage().is_none());
    assert_eq!(hello.description(), Some("greeter\nmore words".to_string()));
    assert_eq!(hello.section(), None);
    assert_eq!(hello.suggests(), None);
    assert_eq!(hello.enhances(), None);
    assert_eq!(hello.pre_depends(), None);
    assert_eq!(hello.breaks(), None);
    assert_eq!(hello.conflicts(), None);
    assert_eq!(hello.replaces(), None);
    assert_eq!(hello.provides(), None);
    assert_eq!(hello.built_using(), None);
    assert_eq!(hello.essential(), None);
    let doc = &binaries[1];
    assert_eq!(doc.name(), Some("hello-doc".to_string()));
    assert_eq!(doc.multi_arch(), Some("foreign".to_string()));
}

#[test]
fn control_without_source() {
    let control = Control::parse("Package: lonely\n").unwrap();
    assert!(control.source().is_none());
    assert_eq!(control.binaries().len(), 1);
    assert!(Control::parse("Package lonely\n").is_err());
}

#[test]
fn priority_values() {
    assert_eq!(Priority::parse("required"), Ok(Priority::Required));
    assert_eq!(Priority::parse("important"), Ok(Priority::Important));
    assert_eq!(Priority::parse("standard"), Ok(Priority::Standard));
    assert_eq!(Priority::parse("optional"), Ok(Priority::Optional));
    assert_eq!(Priority::parse("extra"), Ok(Priority::Extra));
    assert_eq!(Priority::parse("Extra"), Err(()));
    assert_eq!(Priority::from_str(""), Err(()));
}

#[test]
fn rules_requires_root_values() {
    let read = |value: &str| {
        let text = format!("Source: s\nRules-Requires-Root: {}\n", value);
        Control::parse(&text).unwrap().source().unwrap().rules_requires_root()
    };
    assert_eq!(read("yes"), Some(true));
    assert_eq!(read("YES"), Some(true));
    assert_eq!(read("no"), Some(false));
    assert_eq!(read("binary-targets"), None);
    assert_eq!(Control::parse("Source: s\n").unwrap().source().unwrap().rules_requires_root(), None);
    assert_eq!(yes_or_no("yes"), Some(true));
    assert_eq!(yes_or_no("no"), Some(false));
    assert_eq!(yes_or_no("YES"), None);
}

#[test]
fn name_list_pieces() {
    assert_eq!(name_list(""), vec![String::new()]);
    assert_eq!(name_list(" a , b\u{a0},,c "), vec!["a", "b", "", "c"]);
    assert_eq!(name_list(","), vec!["", ""]);
}
