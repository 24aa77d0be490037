use brainsick::hir::{is_lowerable, lower};
use brainsick::syntax::ast::BasFile;
use brainsick::syntax::lex::lex_str;
use brainsick::syntax::parse::{parse, will_parse};
use brainsick::syntax::tree::{SyntaxElement, SyntaxNode};
use brainsick::syntax::SyntaxKind;

fn render(node: &SyntaxNode) -> String {
    let parts: Vec<String> = node
        .children
        .iter()
        .map(|c| match c {
            SyntaxElement::Node(n) => render(n),
            SyntaxElement::Token(t) => format!("{:?}{:?}", t.kind, t.text),
        })
        .collect();
    format!("{:?}[{}]", node.kind, parts.join(" "))
}

fn text(node: &SyntaxNode) -> String {
    node.children
        .iter()
        .map(|c| match c {
            SyntaxElement::Node(n) => text(n),
            SyntaxElement::Token(t) => t.text.clone(),
        })
        .collect()
}

fn parse_src(src: &str) -> BasFile {
    assert!(will_parse(lex_str(src)));
    parse(lex_str(src))
}

const HELLO: &str = "Sub Main()\nMsgBox \"Hello, world!\"\nEnd Sub\n";

#[test]
fn parses_hello_world() {
    let file = parse_src(HELLO);
    assert_eq!(file.syntax().kind, SyntaxKind::BasFile);
    assert_eq!(
        render(file.syntax()),
        "BasFile[SubBlock[SubStmt[SubKw\"Sub\" Space\" \" Name[Ident\"Main\"] \
         ParamList[LParen\"(\" RParen\")\"] Eol\"\\n\"] \
         StmtList[ImplicitCallStmt[NameRef[Ident\"MsgBox\"] Space\" \" \
         ArgList[Arg[LiteralExpr[StringLit\"\\\"Hello, world!\\\"\"]]] Eol\"\\n\"]] \
         EndSubStmt[EndKw\"End\" Space\" \" SubKw\"Sub\" Eol\"\\n\"]]]"
    );
    assert!(is_lowerable(&file));
    let _lowered = lower(&file);
}

#[test]
fn parses_explicit_calls_and_blank_lines() {
    let src = "\n  Sub Main()\n\n  Call MsgBox(\"x\")\nEnd Sub";
    let file = parse_src(src);
    assert_eq!(
        render(file.syntax()),
        "BasFile[Eol\"\\n\" Space\"  \" SubBlock[SubStmt[SubKw\"Sub\" Space\" \" Name[Ident\"Main\"] \
         ParamList[LParen\"(\" RParen\")\"] Eol\"\\n\\n\"] \
         StmtList[Space\"  \" ExplicitCallStmt[CallKw\"Call\" Space\" \" NameRef[Ident\"MsgBox\"] \
         LParen\"(\" ArgList[Arg[LiteralExpr[StringLit\"\\\"x\\\"\"]]] RParen\")\" Eol\"\\n\"]] \
         EndSubStmt[EndKw\"End\" Space\" \" SubKw\"Sub\" Eof\"\"]]]"
    );
    assert_eq!(text(file.syntax()), src);
    // the file ends right after `End Sub`: the end of the input closes it
    assert!(is_lowerable(&file));
    let _ = lower(&file);
    let with_eol = parse_src("Sub Main()\nCall MsgBox(\"x\")\nEnd Sub\n");
    assert!(is_lowerable(&with_eol));
}

#[test]
fn unexpected_tokens_become_error_nodes() {
    let src = "x\nSub Main(\n)\nEnd Sub\n";
    let file = parse_src(src);
    assert_eq!(
        render(file.syntax()),
        "BasFile[Error[Ident\"x\"] Eol\"\\n\" SubBlock[SubStmt[SubKw\"Sub\" Space\" \" \
         Name[Ident\"Main\"] ParamList[LParen\"(\" Error[Eol\"\\n\"]] Error[RParen\")\"]] \
         StmtList[Eol\"\\n\"] EndSubStmt[EndKw\"End\" Space\" \" SubKw\"Sub\" Eol\"\\n\"]]]"
    );
    assert_eq!(text(file.syntax()), src);
    assert!(is_lowerable(&file));
}

#[test]
fn tree_text_is_the_source() {
    for src in [HELLO, "", "   \n\n", "?!", "Sub A()\nEnd Sub\nSub B()\nCall C(\"d\")\nEnd Sub\n"] {
        let file = parse_src(src);
        assert_eq!(text(file.syntax()), src);
    }
}

#[test]
fn a_sub_without_end_sub_ends_with_the_input() {
    let src = "Sub Main()\nMsgBox \"hi\"\n";
    let file = parse_src(src);
    assert_eq!(
        render(file.syntax()),
        "BasFile[SubBlock[SubStmt[SubKw\"Sub\" Space\" \" Name[Ident\"Main\"] \
         ParamList[LParen\"(\" RParen\")\"] Eol\"\\n\"] \
         StmtList[ImplicitCallStmt[NameRef[Ident\"MsgBox\"] Space\" \" \
         ArgList[Arg[LiteralExpr[StringLit\"\\\"hi\\\"\"]]] Eol\"\\n\"]] \
         EndSubStmt[Error[Eof\"\"] Error[Eof\"\"] Error[Eof\"\"] Eof\"\"]]]"
    );
    assert_eq!(text(file.syntax()), src);
    // without `End Sub` there is nothing for lowering to read
    assert!(!is_lowerable(&file));
    let file = parse_src("Sub");
    assert_eq!(text(file.syntax()), "Sub");
}

#[test]
fn a_file_may_end_right_after_end_sub() {
    let file = parse_src("Sub Main()\nMsgBox \"Hi\"\nEnd Sub");
    assert!(is_lowerable(&file));
    let _ = lower(&file);
}

#[test]
fn a_call_without_a_string_argument_is_refused() {
    // the parser would stop on a failed assertion
    assert!(!will_parse(lex_str("Sub Main()\nMsgBox x\nEnd Sub\n")));
    assert!(!will_parse(lex_str("Sub Main()\nCall MsgBox()\nEnd Sub\n")));
}

#[test]
fn a_header_without_a_name_cannot_be_lowered() {
    let file = parse_src("Sub 1()\nEnd Sub\n");
    assert!(!is_lowerable(&file));
}

#[test]
fn files_without_subs_lower() {
    let file = parse_src("  \n");
    assert!(is_lowerable(&file));
    let _ = lower(&file);
}
