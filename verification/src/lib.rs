//! A lossy parser for deb822 text, the format of Debian control files, and
//! readers for the fields of control files and patch headers.
//!
//! Text is cut into tokens by [`lex::lex`] and the tokens are assembled into
//! a document by [`lossy::assemble`]; [`lossy::parse`] does both. A document
//! keeps the names and values of the fields and the order of fields and
//! paragraphs. Comments, indentation and the spelling of line ends are
//! dropped, so writing a document out does not give the input back in
//! general: the parser is lossy.
//!
//! What each function returns is stated over mathematical values: text is
//! a `Seq<char>`, a document a `Seq<Seq<FieldView>>`. The grammar is the
//! pair of [`lex::lex_spec`] and [`lossy::assemble_spec`]; [`laws`] proves
//! what follows from it.
//!
//! * [`text`]: characters, runs, search and trimming.
//! * [`lex`]: tokens and the tokenizer.
//! * [`lex_lemmas`]: the tokens of texts of known shape.
//! * [`lossy`]: fields, paragraphs, documents; the assembler; writing.
//! * [`laws`]: laws of parsing and writing.
//! * [`control`]: source and binary paragraphs of a control file.
//! * [`dep3`]: patch headers.
//! * [`vcs`]: the value of a `Vcs-*` field.

pub mod control;
pub mod dep3;
pub mod laws;
pub mod lex;
pub mod lex_lemmas;
pub mod lossy;
pub mod text;
pub mod vcs;
