use brainsick::syntax::lex::{decode_source, lex_str, Token};
use brainsick::syntax::SyntaxKind;

fn tokens(src: &str) -> Vec<(Token, String)> {
    let mut lexer = lex_str(src);
    let mut out = Vec::new();
    while let Some((tok, text)) = lexer.next() {
        out.push((tok, text.to_string()));
    }
    out
}

fn kinds(src: &str) -> Vec<Token> {
    tokens(src).into_iter().map(|(t, _)| t).collect()
}

#[test]
fn lexes_a_sub_header() {
    assert_eq!(
        tokens("Sub Main()\n"),
        vec![
            (Token::SubKw, "Sub".to_string()),
            (Token::Space, " ".to_string()),
            (Token::Ident, "Main".to_string()),
            (Token::LParen, "(".to_string()),
            (Token::RParen, ")".to_string()),
            (Token::Eol, "\n".to_string()),
            (Token::Eof, "".to_string()),
        ]
    );
}

#[test]
fn keywords_ignore_case_and_lose_to_longer_identifiers() {
    assert_eq!(kinds("call CALL End eNd sub"), vec![
        Token::CallKw, Token::Space, Token::CallKw, Token::Space, Token::EndKw, Token::Space,
        Token::EndKw, Token::Space, Token::SubKw, Token::Eof,
    ]);
    assert_eq!(kinds("Subject Caller Ending"), vec![
        Token::Ident, Token::Space, Token::Ident, Token::Space, Token::Ident, Token::Eof,
    ]);
    assert_eq!(kinds("Cal"), vec![Token::Ident, Token::Eof]);
}

#[test]
fn long_s_folds_to_s_in_sub() {
    assert_eq!(tokens("\u{17f}ub"), vec![
        (Token::SubKw, "\u{17f}ub".to_string()),
        (Token::Eof, "".to_string()),
    ]);
    // a prefix of the keyword that goes no further is one unknown token
    assert_eq!(tokens("\u{17f}ux"), vec![
        (Token::Unknown, "\u{17f}u".to_string()),
        (Token::Ident, "x".to_string()),
        (Token::Eof, "".to_string()),
    ]);
}

#[test]
fn string_literals_and_their_failures() {
    assert_eq!(tokens("\"hi there\""), vec![
        (Token::StringLit, "\"hi there\"".to_string()),
        (Token::Eof, "".to_string()),
    ]);
    assert_eq!(tokens("\"a\"\"b\""), vec![
        (Token::StringLit, "\"a\"".to_string()),
        (Token::StringLit, "\"b\"".to_string()),
        (Token::Eof, "".to_string()),
    ]);
    // unterminated: everything up to the line end is one unknown token
    assert_eq!(tokens("\"abc\nx"), vec![
        (Token::Unknown, "\"abc".to_string()),
        (Token::Eol, "\n".to_string()),
        (Token::Ident, "x".to_string()),
        (Token::Eof, "".to_string()),
    ]);
}

#[test]
fn line_ends_and_stray_characters() {
    assert_eq!(tokens("\r\n\n\r\nx"), vec![
        (Token::Eol, "\r\n\n\r\n".to_string()),
        (Token::Ident, "x".to_string()),
        (Token::Eof, "".to_string()),
    ]);
    assert_eq!(tokens("\r\r\n"), vec![
        (Token::Unknown, "\r".to_string()),
        (Token::Eol, "\r\n".to_string()),
        (Token::Eof, "".to_string()),
    ]);
    assert_eq!(tokens("a1,é"), vec![
        (Token::Ident, "a".to_string()),
        (Token::Unknown, "1".to_string()),
        (Token::Comma, ",".to_string()),
        (Token::Unknown, "é".to_string()),
        (Token::Eof, "".to_string()),
    ]);
    assert_eq!(kinds("   "), vec![Token::Space, Token::Eof]);
}

#[test]
fn empty_source_gives_only_eof_then_nothing() {
    let mut lexer = lex_str("");
    assert_eq!(lexer.next().map(|(t, s)| (t, s.to_string())), Some((Token::Eof, "".to_string())));
    assert!(lexer.next().is_none());
    assert!(lexer.next().is_none());
}

#[test]
fn lexing_is_lossless() {
    let src = "Sub Main()\r\n  MsgBox \"Hello, world!\"\n  Call Foo(\"x\")\n\u{17f}!?\"open\nEnd Sub";
    let joined: String = tokens(src).into_iter().map(|(_, s)| s).collect();
    assert_eq!(joined, src);
}

#[test]
fn tokens_map_to_syntax_kinds() {
    assert_eq!(Token::Space.to_syntax_kind(), SyntaxKind::Space);
    assert_eq!(Token::Eol.to_syntax_kind(), SyntaxKind::Eol);
    assert_eq!(Token::CallKw.to_syntax_kind(), SyntaxKind::CallKw);
    assert_eq!(Token::EndKw.to_syntax_kind(), SyntaxKind::EndKw);
    assert_eq!(Token::SubKw.to_syntax_kind(), SyntaxKind::SubKw);
    assert_eq!(Token::LParen.to_syntax_kind(), SyntaxKind::LParen);
    assert_eq!(Token::RParen.to_syntax_kind(), SyntaxKind::RParen);
    assert_eq!(Token::Comma.to_syntax_kind(), SyntaxKind::Comma);
    assert_eq!(Token::Ident.to_syntax_kind(), SyntaxKind::Ident);
    assert_eq!(Token::StringLit.to_syntax_kind(), SyntaxKind::StringLit);
    assert_eq!(Token::Unknown.to_syntax_kind(), SyntaxKind::Error);
    assert_eq!(Token::Eof.to_syntax_kind(), SyntaxKind::Eof);
}

#[test]
fn decodes_utf8_sources() {
    assert_eq!(decode_source("Sub é".as_bytes().to_vec()), "Sub é");
}

#[test]
fn decodes_other_sources_as_windows_1252() {
    // 0x80 is the euro sign, 0xE9 is é, 0x81 has no character and keeps its value
    assert_eq!(decode_source(vec![0x41, 0x80, 0xE9, 0x81]), "A\u{20ac}\u{e9}\u{81}");
    assert_eq!(decode_source(vec![0x93, 0x94]), "\u{201c}\u{201d}");
}
