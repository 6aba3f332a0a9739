use wat_service::checker::const_expr::{check, const_instr};
use wat_service::checker::DiagnosticSeverity;
use wat_service::syntax::{SyntaxElement, SyntaxKind, SyntaxNode, SyntaxToken, TextRange};

fn range(start: u32, end: u32) -> TextRange {
    TextRange { start, end }
}

fn instr(kind: SyntaxKind, start: u32, end: u32, name: &str, nested: Vec<SyntaxElement>) -> SyntaxElement {
    let mut children = vec![SyntaxElement::Token(SyntaxToken {
        kind: SyntaxKind::INSTR_NAME,
        range: range(start + 1, start + 1 + name.len() as u32),
        text: name.to_string(),
    })];
    children.extend(nested);
    SyntaxElement::Node(SyntaxNode { kind, range: range(start, end), children })
}

fn plain(start: u32, end: u32, name: &str, nested: Vec<SyntaxElement>) -> SyntaxElement {
    instr(SyntaxKind::PLAIN_INSTR, start, end, name, nested)
}

fn consts() -> Vec<String> {
    ["i32.const", "i64.const", "i32.add", "global.get", "ref.null"].iter().map(|s| s.to_string()).collect()
}

fn global(children: Vec<SyntaxElement>) -> SyntaxNode {
    let mut all = vec![SyntaxElement::Token(SyntaxToken {
        kind: SyntaxKind::KEYWORD,
        range: range(1, 7),
        text: "global".to_string(),
    })];
    all.extend(children);
    SyntaxNode { kind: SyntaxKind::MODULE_FIELD_GLOBAL, range: range(0, 200), children: all }
}

#[test]
fn constant_expressions_pass() {
    let g = global(vec![plain(20, 50, "i32.add", vec![plain(30, 40, "i32.const", vec![]), plain(41, 49, "global.get", vec![])])]);
    assert!(check(&g, &consts()).is_none());
    assert!(check(&global(vec![]), &consts()).is_none());
}

#[test]
fn a_non_constant_instruction_anywhere_is_reported() {
    let g = global(vec![
        plain(20, 30, "i32.const", vec![]),
        plain(31, 60, "i32.add", vec![plain(35, 45, "local.get", vec![])]),
        plain(61, 70, "i64.const", vec![]),
    ]);
    let d = check(&g, &consts()).unwrap();
    assert_eq!(d.range, range(20, 70));
    assert_eq!(d.message, "expression must be constant");
    assert_eq!(d.code, "const-expr");
    assert_eq!(d.severity, DiagnosticSeverity::Error);

    let g = global(vec![instr(SyntaxKind::BLOCK_BLOCK, 20, 40, "block", vec![])]);
    assert_eq!(check(&g, &consts()).unwrap().range, range(20, 40));
}

#[test]
fn nested_instructions_are_checked() {
    let ok = plain(0, 30, "i32.add", vec![plain(5, 10, "i32.const", vec![])]);
    let bad = plain(0, 30, "i32.add", vec![plain(5, 10, "i32.mul", vec![])]);
    match (ok, bad) {
        (SyntaxElement::Node(ok), SyntaxElement::Node(bad)) => {
            assert!(const_instr(&ok, &consts()));
            assert!(!const_instr(&bad, &consts()));
        },
        _ => unreachable!(),
    }
}
