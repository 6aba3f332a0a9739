use wat_service::binder::{Symbol, SymbolKey, SymbolKind, SymbolTable};
use wat_service::checker::unused::{check, node_has_export, prefixed_with_underscore};
use wat_service::checker::{Diagnostic, DiagnosticSeverity, DiagnosticTag};
use wat_service::config::LintLevel;
use wat_service::idx::{Idx, InternIdent};
use wat_service::syntax::{SyntaxElement, SyntaxKind, SyntaxNode, SyntaxNodePtr, TextRange};

fn range(start: u32, end: u32) -> TextRange {
    TextRange { start, end }
}

fn key(kind: SyntaxKind, start: u32, end: u32) -> SymbolKey {
    SymbolKey(SyntaxNodePtr { kind, range: range(start, end) })
}

fn node(kind: SyntaxKind, start: u32, end: u32, children: Vec<SyntaxElement>) -> SyntaxElement {
    SyntaxElement::Node(SyntaxNode { kind, range: range(start, end), children })
}

fn module_key() -> SymbolKey {
    key(SyntaxKind::MODULE, 0, 500)
}

fn sym(k: SymbolKey, region: SymbolKey, kind: SymbolKind, num: Option<u32>, name: Option<u32>) -> Symbol {
    Symbol { key: k, region, kind, idx: Idx { num, name: name.map(InternIdent) } }
}

/// `(module (func $f) (func $g (param $p i32)) (func $e (export "e")) (func $_h)
/// (type $t (func (param $tp i32))) (import "m" "i" (func $i (param $ip i32)))
/// (func (local $l i32) (call $f)))`, in a shape the checker reads.
fn root() -> SyntaxNode {
    SyntaxNode {
        kind: SyntaxKind::ROOT,
        range: range(0, 500),
        children: vec![node(
            SyntaxKind::MODULE,
            0,
            500,
            vec![
                node(SyntaxKind::MODULE_FIELD_FUNC, 10, 20, vec![]),
                node(SyntaxKind::MODULE_FIELD_FUNC, 30, 40, vec![node(SyntaxKind::PARAM, 32, 36, vec![])]),
                node(SyntaxKind::MODULE_FIELD_FUNC, 50, 70, vec![node(SyntaxKind::EXPORT, 55, 65, vec![])]),
                node(SyntaxKind::MODULE_FIELD_FUNC, 80, 90, vec![]),
                node(SyntaxKind::TYPE_DEF, 100, 130, vec![node(SyntaxKind::PARAM, 110, 115, vec![])]),
                node(SyntaxKind::MODULE_FIELD_IMPORT, 140, 180, vec![node(SyntaxKind::PARAM, 160, 165, vec![])]),
                node(
                    SyntaxKind::MODULE_FIELD_FUNC,
                    200,
                    240,
                    vec![node(SyntaxKind::LOCAL, 205, 215, vec![]), node(SyntaxKind::IMMEDIATE, 225, 227, vec![])],
                ),
            ],
        )],
    }
}

fn idents() -> Vec<String> {
    ["$f", "$g", "$p", "$e", "$_h", "$t", "$tp", "$i", "$ip", "$l"].iter().map(|s| s.to_string()).collect()
}

fn table() -> SymbolTable {
    let m = module_key();
    let g = key(SyntaxKind::MODULE_FIELD_FUNC, 30, 40);
    let t = key(SyntaxKind::TYPE_DEF, 100, 130);
    let imported = key(SyntaxKind::MODULE_FIELD_IMPORT, 140, 180);
    let anon = key(SyntaxKind::MODULE_FIELD_FUNC, 200, 240);
    let symbols = vec![
        sym(m, m, SymbolKind::Module, Some(0), None),
        sym(key(SyntaxKind::MODULE_FIELD_FUNC, 10, 20), m, SymbolKind::Func, Some(0), Some(0)),
        sym(g, m, SymbolKind::Func, Some(1), Some(1)),
        sym(key(SyntaxKind::PARAM, 32, 36), g, SymbolKind::Param, Some(0), Some(2)),
        sym(key(SyntaxKind::MODULE_FIELD_FUNC, 50, 70), m, SymbolKind::Func, Some(2), Some(3)),
        sym(key(SyntaxKind::MODULE_FIELD_FUNC, 80, 90), m, SymbolKind::Func, Some(3), Some(4)),
        sym(t, m, SymbolKind::Type, Some(0), Some(5)),
        sym(key(SyntaxKind::PARAM, 110, 115), t, SymbolKind::Param, Some(0), Some(6)),
        sym(key(SyntaxKind::PARAM, 160, 165), imported, SymbolKind::Param, Some(0), Some(8)),
        sym(anon, m, SymbolKind::Func, Some(4), None),
        sym(key(SyntaxKind::LOCAL, 205, 215), anon, SymbolKind::Local, Some(0), Some(9)),
        sym(key(SyntaxKind::IMMEDIATE, 225, 227), anon, SymbolKind::Call, None, Some(0)),
    ];
    let mut resolved = vec![None; symbols.len()];
    resolved[11] = Some(1);
    SymbolTable::from_parts(symbols, resolved, vec![]).unwrap()
}

/// Each symbol's point of interest: here, one character past its start.
fn def_poi(t: &SymbolTable) -> Vec<TextRange> {
    t.symbols.iter().iter().map(|s| range(s.key.0.range.start + 1, s.key.0.range.start + 2)).collect()
}

fn run(level: LintLevel) -> Vec<Diagnostic> {
    let t = table();
    let poi = def_poi(&t);
    let imports = vec![key(SyntaxKind::MODULE_FIELD_IMPORT, 140, 180)];
    let mut diags = vec![];
    check(&mut diags, level, &t, &imports, &idents(), &root(), &poi);
    diags
}

#[test]
fn unused_definitions_and_params_are_reported() {
    let diags = run(LintLevel::Warn);
    let got: Vec<(TextRange, String)> = diags.iter().map(|d| (d.range, d.message.clone())).collect();
    assert_eq!(
        got,
        vec![
            (range(31, 32), "func `$g` is never used".to_string()),
            (range(33, 34), "param `$p` is never used".to_string()),
            (range(101, 102), "type `$t` is never used".to_string()),
            (range(201, 202), "func `4` is never used".to_string()),
            (range(206, 207), "local `$l` is never used".to_string()),
        ]
    );
    for d in &diags {
        assert_eq!(d.code, "unused");
        assert_eq!(d.severity, DiagnosticSeverity::Warning);
        assert_eq!(d.tags, Some(vec![DiagnosticTag::Unnecessary]));
        assert!(d.related_information.is_none());
    }
}

#[test]
fn lint_level_sets_severity() {
    assert!(run(LintLevel::Allow).is_empty());
    assert!(run(LintLevel::Hint).iter().all(|d| d.severity == DiagnosticSeverity::Hint));
    assert!(run(LintLevel::Deny).iter().all(|d| d.severity == DiagnosticSeverity::Error));
    assert_eq!(run(LintLevel::Deny).len(), 5);
}

#[test]
fn exports_and_underscores() {
    let r = root();
    assert!(node_has_export(&r, key(SyntaxKind::MODULE_FIELD_FUNC, 50, 70)));
    assert!(!node_has_export(&r, key(SyntaxKind::MODULE_FIELD_FUNC, 30, 40)));
    assert!(!node_has_export(&r, key(SyntaxKind::MODULE_FIELD_FUNC, 300, 340)));
    let ids = idents();
    assert!(prefixed_with_underscore(Idx { num: Some(3), name: Some(InternIdent(4)) }, &ids));
    assert!(!prefixed_with_underscore(Idx { num: Some(1), name: Some(InternIdent(1)) }, &ids));
    assert!(!prefixed_with_underscore(Idx { num: Some(1), name: None }, &ids));
    assert!(!prefixed_with_underscore(Idx { num: None, name: Some(InternIdent(99)) }, &ids));
}

#[test]
fn used_symbols_have_references_and_unused_have_none() {
    let t = table();
    let f = *t.symbols.get(key(SyntaxKind::MODULE_FIELD_FUNC, 10, 20)).unwrap();
    assert_eq!(t.find_references_on_def(&f, false).len(), 1);
    let g = *t.symbols.get(key(SyntaxKind::MODULE_FIELD_FUNC, 30, 40)).unwrap();
    assert!(t.find_references_on_def(&g, false).is_empty());
}
