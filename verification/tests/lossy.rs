use deb822_lossy::lex::{lex, SyntaxKind, Token};
use deb822_lossy::lossy::{assemble, parse, Deb822, Error, Field, Paragraph};

fn field(name: &str, value: &str) -> Field {
    Field { name: name.to_string(), value: value.to_string() }
}

fn token(kind: SyntaxKind, text: &str) -> Token {
    Token { kind, text: text.to_string() }
}

#[test]
fn lossy_test_parse() {
    let input = r#"Package: hello
Version: 2.10
Description: A program that says hello
 Some more text

Package: world
Version: 1.0
Description: A program that says world
 And some more text
Another-Field: value

# A comment

"#;

    let deb822: Deb822 = input.parse().unwrap();
    assert_eq!(deb822, Deb822 {
        0: vec![
            Paragraph {
                fields: vec![
                    Field {
                        name: "Package".to_string(),
                        value: "hello".to_string(),
                    },
                    Field {
                        name: "Version".to_string(),
                        value: "2.10".to_string(),
                    },
                    Field {
                        name: "Description".to_string(),
                        value: "A program that says hello\nSome more text".to_string(),
                    },
                ],
            },
            Paragraph {
                fields: vec![
                    Field {
                        name: "Package".to_string(),
                        value: "world".to_string(),
                    },
                    Field {
                        name: "Version".to_string(),
                        value: "1.0".to_string(),
                    },
                    Field {
                        name: "Description".to_string(),
                        value: "A program that says world\nAnd some more text".to_string(),
                    },
                    Field {
                        name: "Another-Field".to_string(),
                        value: "value".to_string(),
                    },
                ],
            },
        ],
    });
}

#[test]
fn lex_field_line() {
    assert_eq!(
        lex("Package: hello\n"),
        vec![
            token(SyntaxKind::Key, "Package"),
            token(SyntaxKind::Colon, ":"),
            token(SyntaxKind::Whitespace, " "),
            token(SyntaxKind::Value, "hello"),
            token(SyntaxKind::Newline, "\n"),
        ]
    );
}

#[test]
fn single_field_round_trip() {
    let doc = parse("Key: value\n").unwrap();
    assert_eq!(doc, Deb822(vec![Paragraph { fields: vec![field("Key", "value")] }]));
    assert_eq!(doc.to_string(), "Key: value\n");
}

#[test]
fn colon_without_key_is_rejected() {
    assert_eq!(
        parse(": nothing\n"),
        Err(Error::UnexpectedToken(SyntaxKind::Error, ": nothing".to_string()))
    );
    assert_eq!(
        assemble(&vec![token(SyntaxKind::Colon, ":")]),
        Err(Error::UnexpectedToken(SyntaxKind::Colon, ":".to_string()))
    );
}

fn doc(paragraphs: &[&[(&str, &str)]]) -> Deb822 {
    Deb822(
        paragraphs
            .iter()
            .map(|p| Paragraph { fields: p.iter().map(|(n, v)| field(n, v)).collect() })
            .collect(),
    )
}

#[test]
fn single_field_with_other_blanks() {
    assert_eq!(parse("Key:value\n"), Ok(doc(&[&[("Key", "value")]])));
    assert_eq!(parse("Key: \t value\n"), Ok(doc(&[&[("Key", "value")]])));
    assert_eq!(parse("Key:\n"), Ok(doc(&[&[("Key", "")]])));
    assert_eq!(parse("Key: \n"), Ok(doc(&[&[("Key", "")]])));
}

#[test]
fn blank_lines_separate_paragraphs() {
    let one = parse("A: 1\n\nB: 2\n").unwrap();
    let three = parse("A: 1\n\n\n\nB: 2\n").unwrap();
    let wanted = doc(&[&[("A", "1")], &[("B", "2")]]);
    assert_eq!(one, wanted);
    assert_eq!(three, wanted);
    assert_eq!(three.len(), 2);
    assert!(three.iter().iter().all(|p| !p.is_empty()));
}

#[test]
fn blank_lines_alone_are_no_paragraph() {
    assert_eq!(parse(""), Ok(Deb822(vec![])));
    assert_eq!(parse("\n\n\n"), Ok(Deb822(vec![])));
    assert_eq!(parse("\n\nA: 1\n\n\n"), Ok(doc(&[&[("A", "1")]])));
    assert!(parse("\n").unwrap().is_empty());
}

#[test]
fn continuation_line_joins_the_value() {
    assert_eq!(
        parse("Description: A\n Some more text\n"),
        Ok(doc(&[&[("Description", "A\nSome more text")]]))
    );
    assert_eq!(
        parse("D: A\n\t  b\n c: d\n .\nE: f\n"),
        Ok(doc(&[&[("D", "A\nb\nc: d\n."), ("E", "f")]]))
    );
}

#[test]
fn continuation_at_the_end_of_input() {
    assert_eq!(parse("D: A\n b"), Ok(doc(&[&[("D", "A\nb")]])));
    assert_eq!(parse("D: A\n "), Ok(doc(&[&[("D", "A")]])));
    assert_eq!(parse("D: A\n \n"), Ok(doc(&[&[("D", "A\n")]])));
    assert_eq!(parse("D: A\n \n \n"), Ok(doc(&[&[("D", "A\n\n")]])));
    assert_eq!(parse("D:\n b\n"), Ok(doc(&[&[("D", "\nb")]])));
}

#[test]
fn comment_lines_are_dropped() {
    let plain = parse("A: 1\nB: 2\n\nC: 3\n").unwrap();
    assert_eq!(parse("# top\nA: 1\n# between: fields\nB: 2\n\n#\nC: 3\n# end"), Ok(plain.clone()));
    assert_eq!(parse("A: 1\nB: 2\n# before the break\n\nC: 3\n"), Ok(plain));
}

#[test]
fn indented_comment_leaves_an_empty_line() {
    assert_eq!(parse("A: 1\n # hidden\n 2\n"), parse("A: 1\n \n 2\n"));
    assert_eq!(parse("A: 1\n # hidden\n 2\n"), Ok(doc(&[&[("A", "1\n\n2")]])));
}

#[test]
fn comment_line_ends_a_field() {
    assert_eq!(
        parse("A: 1\n# c\n 2\n"),
        Err(Error::UnexpectedToken(SyntaxKind::Indent, " ".to_string()))
    );
}

#[test]
fn duplicate_names_are_kept() {
    let parsed = parse("Bug: one\nBug-Debian: two\nBug: three\n").unwrap();
    let paragraph = &parsed.0[0];
    assert_eq!(paragraph.len(), 3);
    assert_eq!(paragraph.get("Bug"), Some("one"));
    assert_eq!(paragraph.get("Bug-Debian"), Some("two"));
    assert_eq!(paragraph.get("bug"), None);
    assert_eq!(paragraph.get_all("Bug"), vec!["one", "three"]);
    assert_eq!(paragraph.get_all("Bug-Debian"), vec!["two"]);
    assert_eq!(paragraph.get_all("Bug-"), Vec::<&str>::new());
    assert_eq!(paragraph.get("Bug"), paragraph.get_all("Bug").first().copied());
}

#[test]
fn malformed_input_is_rejected() {
    assert_eq!(
        parse(":value\nKey: v\n"),
        Err(Error::UnexpectedToken(SyntaxKind::Error, ":value".to_string()))
    );
    assert_eq!(
        parse("  indented\n"),
        Err(Error::UnexpectedToken(SyntaxKind::Indent, "  ".to_string()))
    );
    assert_eq!(
        parse("A: 1\n\n more\n"),
        Err(Error::UnexpectedToken(SyntaxKind::Indent, " ".to_string()))
    );
    assert_eq!(
        parse("Key\nOther: v\n"),
        Err(Error::UnexpectedToken(SyntaxKind::Newline, "\n".to_string()))
    );
}

#[test]
fn truncated_input_is_rejected() {
    assert_eq!(parse("Key"), Err(Error::UnexpectedEof));
    assert_eq!(parse("A: 1\nKey"), Err(Error::UnexpectedEof));
    assert_eq!(parse("Key:"), Err(Error::UnexpectedEof));
    assert_eq!(parse("Key: value"), Err(Error::UnexpectedEof));
}

#[test]
fn end_to_end_example() {
    let input = "Package: hello\nVersion: 2.10\nDescription: A program that says hello\n Some more text\n\nPackage: world\nVersion: 1.0\n";
    let parsed = parse(input).unwrap();
    assert_eq!(parsed.len(), 2);
    assert_eq!(
        parsed.0[0].iter(),
        vec![
            ("Package", "hello"),
            ("Version", "2.10"),
            ("Description", "A program that says hello\nSome more text"),
        ]
    );
    assert_eq!(parsed.0[1].iter(), vec![("Package", "world"), ("Version", "1.0")]);
}

#[test]
fn carriage_returns_end_lines() {
    assert_eq!(
        parse("A: 1\r\n 2\r\nB: 3\r\n\r\nC: 4\r"),
        Ok(doc(&[&[("A", "1\n2"), ("B", "3")], &[("C", "4")]]))
    );
}

#[test]
fn assemble_gathers_every_value_token() {
    let tokens = vec![
        token(SyntaxKind::Whitespace, " "),
        token(SyntaxKind::Key, "K"),
        token(SyntaxKind::Colon, ":"),
        token(SyntaxKind::Whitespace, " "),
        token(SyntaxKind::Whitespace, "\t"),
        token(SyntaxKind::Value, "a"),
        token(SyntaxKind::Value, "b"),
        token(SyntaxKind::Newline, "\r\n"),
        token(SyntaxKind::Indent, " "),
        token(SyntaxKind::Comment, "#x"),
        token(SyntaxKind::Value, "c"),
        token(SyntaxKind::Value, "d\n"),
        token(SyntaxKind::Key, "L"),
        token(SyntaxKind::Colon, ":"),
        token(SyntaxKind::Newline, "\n"),
    ];
    assert_eq!(assemble(&tokens), Ok(doc(&[&[("K", "ab\ncd"), ("L", "")]])));
}

#[test]
fn assemble_skips_a_comment_up_to_the_end_of_its_line() {
    let tokens = vec![
        token(SyntaxKind::Comment, "#"),
        token(SyntaxKind::Colon, ":"),
        token(SyntaxKind::Error, "?"),
        token(SyntaxKind::Indent, " "),
        token(SyntaxKind::Newline, "\n"),
        token(SyntaxKind::Key, "K"),
        token(SyntaxKind::Colon, ":"),
        token(SyntaxKind::Newline, "\n"),
        token(SyntaxKind::Comment, "#"),
        token(SyntaxKind::Key, "ignored"),
    ];
    assert_eq!(assemble(&tokens), Ok(doc(&[&[("K", "")]])));
}

#[test]
fn assemble_rejects_tokens_out_of_place() {
    let key = || token(SyntaxKind::Key, "K");
    let colon = || token(SyntaxKind::Colon, ":");
    let newline = || token(SyntaxKind::Newline, "\n");
    let indent = || token(SyntaxKind::Indent, " ");
    let unexpected = |kind: SyntaxKind, text: &str| Err(Error::UnexpectedToken(kind, text.to_string()));
    assert_eq!(assemble(&vec![token(SyntaxKind::Value, "v")]), unexpected(SyntaxKind::Value, "v"));
    assert_eq!(assemble(&vec![token(SyntaxKind::Error, "e")]), unexpected(SyntaxKind::Error, "e"));
    assert_eq!(assemble(&vec![key(), key()]), unexpected(SyntaxKind::Key, "K"));
    assert_eq!(
        assemble(&vec![key(), token(SyntaxKind::Whitespace, " "), colon()]),
        unexpected(SyntaxKind::Whitespace, " ")
    );
    assert_eq!(assemble(&vec![key(), colon(), colon()]), unexpected(SyntaxKind::Colon, ":"));
    assert_eq!(
        assemble(&vec![key(), colon(), token(SyntaxKind::Comment, "#c")]),
        unexpected(SyntaxKind::Comment, "#c")
    );
    assert_eq!(
        assemble(&vec![key(), colon(), token(SyntaxKind::Value, "v"), token(SyntaxKind::Whitespace, " ")]),
        unexpected(SyntaxKind::Whitespace, " ")
    );
    assert_eq!(
        assemble(&vec![key(), colon(), newline(), indent(), indent()]),
        unexpected(SyntaxKind::Indent, " ")
    );
    assert_eq!(
        assemble(&vec![key(), colon(), newline(), indent(), token(SyntaxKind::Whitespace, "\t")]),
        unexpected(SyntaxKind::Whitespace, "\t")
    );
    assert_eq!(
        assemble(&vec![key(), colon(), newline(), token(SyntaxKind::Value, "v")]),
        unexpected(SyntaxKind::Value, "v")
    );
    assert_eq!(assemble(&vec![key()]), Err(Error::UnexpectedEof));
    assert_eq!(assemble(&vec![key(), colon(), token(SyntaxKind::Value, "v")]), Err(Error::UnexpectedEof));
}

#[test]
fn error_messages() {
    assert_eq!(
        Error::UnexpectedToken(SyntaxKind::Indent, "  ".to_string()).to_string(),
        "Unexpected token:   "
    );
    assert_eq!(Error::UnexpectedEof.to_string(), "Unexpected end-of-file");
}

#[test]
fn documents_as_text() {
    assert_eq!(field("Name", "a value").to_string(), "Name: a value");
    assert_eq!(Deb822(vec![]).to_string(), "");
    let two = doc(&[&[("A", "1"), ("B", "2\n3")], &[("C", "")]]);
    assert_eq!(two.0[0].to_string(), "A: 1\nB: 2\n3\n");
    assert_eq!(two.to_string(), "A: 1\nB: 2\n3\n\nC: \n");
    assert_eq!(Paragraph { fields: vec![] }.to_string(), "");
    let plain = doc(&[&[("A", "1"), ("B", "2")], &[("C", "3")]]);
    assert_eq!(parse(&plain.to_string()), Ok(plain));
}

#[test]
fn paragraphs_can_be_edited() {
    let mut paragraph = Paragraph { fields: vec![] };
    assert!(paragraph.is_empty());
    assert_eq!(paragraph.len(), 0);
    paragraph.insert("A", "1");
    paragraph.insert("B", "2");
    paragraph.insert("A", "3");
    assert!(!paragraph.is_empty());
    assert_eq!(paragraph.len(), 3);
    assert_eq!(paragraph.iter(), vec![("A", "1"), ("B", "2"), ("A", "3")]);
    {
        let (name, value) = paragraph.iter_mut(1).unwrap();
        assert_eq!(name, "B");
        assert_eq!(value, "2");
        value.push_str("0");
    }
    assert!(paragraph.iter_mut(3).is_none());
    let mut index = 0;
    while let Some((_, value)) = paragraph.iter_mut(index) {
        value.insert(0, '-');
        index += 1;
    }
    assert_eq!(paragraph.iter(), vec![("A", "-1"), ("B", "-20"), ("A", "-3")]);
    assert_eq!(paragraph.get("A"), Some("-1"));
}

#[test]
fn document_iteration() {
    let parsed = parse("A: 1\n\nB: 2\n").unwrap();
    assert!(!parsed.is_empty());
    let names: Vec<&str> = parsed.iter().iter().map(|p| p.fields[0].name.as_str()).collect();
    assert_eq!(names, vec!["A", "B"]);
    assert_eq!(parsed.iter(), parsed.iter());
}
