use brainsick::syntax::{SyntaxKind, KIND_COUNT};

#[test]
fn raw_codes_round_trip() {
    for raw in 0..KIND_COUNT {
        assert_eq!(SyntaxKind::from_raw(raw).into_raw(), raw);
    }
    assert_eq!(SyntaxKind::Eof.into_raw(), 0);
    assert_eq!(SyntaxKind::Stmt.into_raw(), KIND_COUNT - 1);
    assert_eq!(SyntaxKind::from_raw(SyntaxKind::BasFile.into_raw()), SyntaxKind::BasFile);
}

#[test]
fn punctuation_has_static_text() {
    assert_eq!(SyntaxKind::LParen.static_text(), Some("("));
    assert_eq!(SyntaxKind::RParen.static_text(), Some(")"));
    assert_eq!(SyntaxKind::Comma.static_text(), Some(","));
    assert_eq!(SyntaxKind::Ident.static_text(), None);
    assert_eq!(SyntaxKind::SubBlock.static_text(), None);
}
