use deb822_lossy::lex::{lex, SyntaxKind, Token};

fn kinds_and_texts(input: &str) -> Vec<(SyntaxKind, String)> {
    lex(input).into_iter().map(|t| (t.kind, t.text)).collect()
}

fn expect(input: &str, tokens: &[(SyntaxKind, &str)]) {
    let wanted: Vec<(SyntaxKind, String)> =
        tokens.iter().map(|(k, t)| (*k, t.to_string())).collect();
    assert_eq!(kinds_and_texts(input), wanted);
}

#[test]
fn lex_empty_input() {
    assert_eq!(lex(""), Vec::<Token>::new());
}

#[test]
fn lex_key_value_without_blank() {
    expect(
        "A:b",
        &[(SyntaxKind::Key, "A"), (SyntaxKind::Colon, ":"), (SyntaxKind::Value, "b")],
    );
}

#[test]
fn lex_value_keeps_later_colons_and_blanks() {
    expect(
        "Key: \t a: b \n",
        &[
            (SyntaxKind::Key, "Key"),
            (SyntaxKind::Colon, ":"),
            (SyntaxKind::Whitespace, " \t "),
            (SyntaxKind::Value, "a: b "),
            (SyntaxKind::Newline, "\n"),
        ],
    );
}

#[test]
fn lex_field_without_value() {
    expect(
        "Key: \n",
        &[
            (SyntaxKind::Key, "Key"),
            (SyntaxKind::Colon, ":"),
            (SyntaxKind::Whitespace, " "),
            (SyntaxKind::Newline, "\n"),
        ],
    );
    expect("Key:", &[(SyntaxKind::Key, "Key"), (SyntaxKind::Colon, ":")]);
}

#[test]
fn lex_line_without_colon_is_a_key() {
    expect("Key word\n", &[(SyntaxKind::Key, "Key word"), (SyntaxKind::Newline, "\n")]);
}

#[test]
fn lex_continuation_line() {
    expect(
        " \tmore text\n",
        &[
            (SyntaxKind::Indent, " \t"),
            (SyntaxKind::Value, "more text"),
            (SyntaxKind::Newline, "\n"),
        ],
    );
    expect(" \n", &[(SyntaxKind::Indent, " "), (SyntaxKind::Newline, "\n")]);
    expect("  ", &[(SyntaxKind::Indent, "  ")]);
}

#[test]
fn lex_comments() {
    expect("# a: b\n", &[(SyntaxKind::Comment, "# a: b"), (SyntaxKind::Newline, "\n")]);
    expect("#", &[(SyntaxKind::Comment, "#")]);
    expect(
        "  # inner\n",
        &[
            (SyntaxKind::Indent, "  "),
            (SyntaxKind::Comment, "# inner"),
            (SyntaxKind::Newline, "\n"),
        ],
    );
    expect(
        "A: #b\n",
        &[
            (SyntaxKind::Key, "A"),
            (SyntaxKind::Colon, ":"),
            (SyntaxKind::Whitespace, " "),
            (SyntaxKind::Value, "#b"),
            (SyntaxKind::Newline, "\n"),
        ],
    );
}

#[test]
fn lex_line_that_starts_with_a_colon() {
    expect(": a: b\nC: d", &[
        (SyntaxKind::Error, ": a: b"),
        (SyntaxKind::Newline, "\n"),
        (SyntaxKind::Key, "C"),
        (SyntaxKind::Colon, ":"),
        (SyntaxKind::Whitespace, " "),
        (SyntaxKind::Value, "d"),
    ]);
}

#[test]
fn lex_line_terminators() {
    expect(
        "\n\r\n\r\r\n\n\r",
        &[
            (SyntaxKind::Newline, "\n"),
            (SyntaxKind::Newline, "\r\n"),
            (SyntaxKind::Newline, "\r"),
            (SyntaxKind::Newline, "\r\n"),
            (SyntaxKind::Newline, "\n"),
            (SyntaxKind::Newline, "\r"),
        ],
    );
    expect(
        "A: b\r\n c\r",
        &[
            (SyntaxKind::Key, "A"),
            (SyntaxKind::Colon, ":"),
            (SyntaxKind::Whitespace, " "),
            (SyntaxKind::Value, "b"),
            (SyntaxKind::Newline, "\r\n"),
            (SyntaxKind::Indent, " "),
            (SyntaxKind::Value, "c"),
            (SyntaxKind::Newline, "\r"),
        ],
    );
}

#[test]
fn lex_loses_nothing() {
    let inputs = [
        "",
        "Package: hello\nVersion: 2.10\n",
        ": x\n\n\n  y\r\n#z\r: \u{e9}\u{1f600}: \t\u{3000}w",
        "\u{a0}K\u{e9}y:\u{a0}v\n \u{2003}c",
    ];
    for input in inputs {
        let tokens = lex(input);
        assert!(tokens.iter().all(|t| !t.text.is_empty()));
        let joined: String = tokens.iter().map(|t| t.text.as_str()).collect();
        assert_eq!(joined, input);
    }
}

#[test]
fn lex_counts_characters_not_bytes() {
    expect(
        "N\u{e4}me: \u{1f600}\u{fe0f}\n",
        &[
            (SyntaxKind::Key, "N\u{e4}me"),
            (SyntaxKind::Colon, ":"),
            (SyntaxKind::Whitespace, " "),
            (SyntaxKind::Value, "\u{1f600}\u{fe0f}"),
            (SyntaxKind::Newline, "\n"),
        ],
    );
}
