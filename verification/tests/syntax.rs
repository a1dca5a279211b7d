//! Declarations read from text.

use bevy_event_set::{
    event_set, parse_declaration, parse_tokens, tokenize, EventSetDeclaration, GenerationError,
    Token,
};

fn ident(word: &str) -> Token {
    Token::Ident(word.to_string())
}

fn declaration(name: &str, members: &[&str]) -> EventSetDeclaration {
    EventSetDeclaration {
        name: name.to_string(),
        members: members.iter().map(|member| member.to_string()).collect(),
    }
}

#[test]
fn tokenize_splits_identifiers_and_punctuation() {
    assert_eq!(
        tokenize("S { A, B }"),
        Some(vec![
            ident("S"),
            Token::Open,
            ident("A"),
            Token::Comma,
            ident("B"),
            Token::Close
        ])
    );
}

#[test]
fn tokenize_needs_no_spaces() {
    assert_eq!(
        tokenize("S{A,B,}"),
        Some(vec![
            ident("S"),
            Token::Open,
            ident("A"),
            Token::Comma,
            ident("B"),
            Token::Comma,
            Token::Close
        ])
    );
}

#[test]
fn tokenize_skips_spaces_tabs_and_line_ends() {
    assert_eq!(tokenize(" \t\r\n"), Some(vec![]));
    assert_eq!(tokenize(""), Some(vec![]));
    assert_eq!(tokenize("\tA\r\n,\n"), Some(vec![ident("A"), Token::Comma]));
}

#[test]
fn identifiers_extend_as_far_as_they_can() {
    assert_eq!(tokenize("Event_2b"), Some(vec![ident("Event_2b")]));
    assert_eq!(tokenize("_private x9"), Some(vec![ident("_private"), ident("x9")]));
    assert_eq!(tokenize("a{b"), Some(vec![ident("a"), Token::Open, ident("b")]));
}

#[test]
fn tokenize_rejects_what_is_no_lexeme() {
    assert_eq!(tokenize("S { A; B }"), None);
    assert_eq!(tokenize("9lives"), None);
    assert_eq!(tokenize("S { A(usize) }"), None);
    assert_eq!(tokenize("S { A } !"), None);
    assert_eq!(tokenize("S { \u{e9}v\u{e9}nement }"), None);
    assert_eq!(tokenize("S { A }\u{a0}"), None);
}

#[test]
fn parse_tokens_reads_name_and_members() {
    let tokens = vec![
        ident("S"),
        Token::Open,
        ident("A"),
        Token::Comma,
        ident("B"),
        Token::Close,
    ];
    assert_eq!(parse_tokens(&tokens), Some(declaration("S", &["A", "B"])));
}

#[test]
fn parse_tokens_rejects_other_shapes() {
    assert_eq!(parse_tokens(&vec![]), None);
    assert_eq!(parse_tokens(&vec![ident("S"), Token::Open]), None);
    assert_eq!(parse_tokens(&vec![Token::Open, Token::Close, Token::Close]), None);
    assert_eq!(parse_tokens(&vec![ident("S"), ident("A"), Token::Close]), None);
    assert_eq!(parse_tokens(&vec![ident("S"), Token::Open, ident("A")]), None);
    assert_eq!(
        parse_tokens(&vec![ident("S"), Token::Open, Token::Comma, ident("A"), Token::Close]),
        None
    );
    assert_eq!(
        parse_tokens(&vec![ident("S"), Token::Open, ident("A"), Token::Open, Token::Close]),
        None
    );
}

#[test]
fn declaration_without_trailing_comma() {
    assert_eq!(parse_declaration("S { A, B, C }"), Some(declaration("S", &["A", "B", "C"])));
}

#[test]
fn declaration_with_trailing_comma() {
    assert_eq!(parse_declaration("S { A, B, C, }"), Some(declaration("S", &["A", "B", "C"])));
    assert_eq!(parse_declaration("S{A,}"), Some(declaration("S", &["A"])));
}

#[test]
fn declaration_without_members_is_read() {
    assert_eq!(parse_declaration("S {}"), Some(declaration("S", &[])));
    assert_eq!(parse_declaration("S{ }"), Some(declaration("S", &[])));
}

#[test]
fn declaration_keeps_repeated_members() {
    assert_eq!(parse_declaration("S { A, A }"), Some(declaration("S", &["A", "A"])));
}

#[test]
fn declaration_over_several_lines() {
    let text = "MyEvents {\n\tTestEvent1,\n\tTestEvent2\n}\n";
    assert_eq!(
        parse_declaration(text),
        Some(declaration("MyEvents", &["TestEvent1", "TestEvent2"]))
    );
}

#[test]
fn text_that_is_no_declaration() {
    for text in [
        "",
        "S",
        "S {",
        "S }",
        "{ A }",
        "S { , }",
        "S { ,A }",
        "S { A,, }",
        "S { A,,B }",
        "S { A B }",
        "S { A } B",
        "S T { A }",
        "S { A } }",
        "S { { A } }",
        "S ( A )",
        "S { A, B",
        "S { A: B }",
        "S { 1 }",
    ] {
        assert_eq!(parse_declaration(text), None, "{:?}", text);
    }
}

#[test]
fn event_set_generates_from_text() {
    let set = event_set("S { A, B, C }").unwrap();
    assert_eq!(set.name, "S");
    assert_eq!(set.fields, vec!["A".to_string(), "B".to_string(), "C".to_string()]);
    assert_eq!(set.registers, set.fields);
    assert_eq!(set.senders.len(), 3);
    assert_eq!(set.senders[2].event, "C");
    assert_eq!(set.senders[2].field, 2);
}

#[test]
fn empty_set_is_rejected_before_anything_is_generated() {
    assert_eq!(event_set("S{}"), Err(GenerationError::EmptySet { set: "S".to_string() }));
    assert_eq!(event_set("S { }"), Err(GenerationError::EmptySet { set: "S".to_string() }));
    assert_eq!(
        event_set("Other {\n}"),
        Err(GenerationError::EmptySet { set: "Other".to_string() })
    );
}

#[test]
fn set_with_a_member_twice_is_rejected() {
    assert_eq!(
        event_set("S{A, A}"),
        Err(GenerationError::DuplicateMember {
            set: "S".to_string(),
            member: "A".to_string(),
            index: 1,
        })
    );
    assert_eq!(
        event_set("S { A, B, A, }"),
        Err(GenerationError::DuplicateMember {
            set: "S".to_string(),
            member: "A".to_string(),
            index: 2,
        })
    );
}

#[test]
fn malformed_text_is_a_syntax_error() {
    assert_eq!(event_set("S { , }"), Err(GenerationError::Syntax));
    assert_eq!(event_set("S { A(usize) }"), Err(GenerationError::Syntax));
    assert_eq!(event_set(""), Err(GenerationError::Syntax));
}
