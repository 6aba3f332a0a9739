use wat_service::binder::SymbolTable;
use wat_service::checker::walk::{check_document, modules_lanes_checked, CheckContext};
use wat_service::config::{LintLevel, Lints};
use wat_service::document::{Document, SyntaxError};
use wat_service::syntax::{SyntaxElement, SyntaxKind, SyntaxNode, SyntaxToken, TextRange};

fn range(start: u32, end: u32) -> TextRange {
    TextRange { start, end }
}

fn tok(kind: SyntaxKind, start: u32, end: u32, text: &str) -> SyntaxElement {
    SyntaxElement::Token(SyntaxToken { kind, range: range(start, end), text: text.to_string() })
}

fn node(kind: SyntaxKind, start: u32, end: u32, children: Vec<SyntaxElement>) -> SyntaxElement {
    SyntaxElement::Node(SyntaxNode { kind, range: range(start, end), children })
}

fn instr(start: u32, end: u32, name: &str, immediates: Vec<SyntaxElement>) -> SyntaxElement {
    let mut children = vec![tok(SyntaxKind::INSTR_NAME, start + 1, start + 1 + name.len() as u32, name)];
    children.extend(immediates);
    node(SyntaxKind::PLAIN_INSTR, start, end, children)
}

/// `(module (global i32 (local.get 0)) (func (i8x16.extract_lane_s 16)))`,
/// with one syntax error.
fn document(lane_instr: &str) -> Document {
    let global = node(
        SyntaxKind::MODULE_FIELD_GLOBAL,
        8,
        40,
        vec![instr(20, 39, "local.get", vec![node(SyntaxKind::IMMEDIATE, 31, 32, vec![tok(SyntaxKind::INT, 31, 32, "0")])])],
    );
    let func = node(
        SyntaxKind::MODULE_FIELD_FUNC,
        41,
        90,
        vec![instr(47, 88, lane_instr, vec![node(SyntaxKind::IMMEDIATE, 84, 86, vec![tok(SyntaxKind::INT, 84, 86, "16")])])],
    );
    let module = node(SyntaxKind::MODULE, 0, 91, vec![tok(SyntaxKind::L_PAREN, 0, 1, "("), global, func]);
    Document {
        uri: "untitled:t".into(),
        text: String::new(),
        root: SyntaxNode { kind: SyntaxKind::ROOT, range: range(0, 91), children: vec![module] },
        syntax_errors: vec![SyntaxError { range: range(90, 91), message: "expected `)`".into(), name: None }],
    }
}

#[test]
fn checkers_run_on_their_nodes_in_document_order() {
    let table = SymbolTable::from_parts(vec![], vec![], vec![]).unwrap();
    let idents = vec![];
    let imports = vec![];
    let consts = vec!["i32.const".to_string(), "global.get".to_string()];
    let i32_memories = vec![];
    let i64_types = vec![];
    let ctx = CheckContext {
        lints: Lints::default(),
        omitted_idx_in_instr: LintLevel::Allow,
        table: &table,
        idents: &idents,
        imports: &imports,
        const_instrs: &consts,
        i32_memories: &i32_memories,
        i64_types: &i64_types,
    };
    let doc = document("i8x16.extract_lane_s");
    assert!(modules_lanes_checked(&doc.root));
    let mut diags = vec![];
    check_document(&mut diags, &ctx, &doc);
    let got: Vec<(String, TextRange)> = diags.iter().map(|d| (d.code.clone(), d.range)).collect();
    assert_eq!(
        got,
        vec![
            ("syntax".to_string(), range(90, 91)),
            ("const-expr".to_string(), range(20, 39)),
            ("lane".to_string(), range(84, 86)),
        ]
    );
}

#[test]
fn zero_width_lane_accesses_are_found_before_checking() {
    assert!(!modules_lanes_checked(&document("v128.load0_lane").root));
    assert!(modules_lanes_checked(&document("v128.load8_lane").root));
}
