use wat_service::binder::{Symbol, SymbolKey, SymbolKind, SymbolTable};
use wat_service::checker::{dup_names, shadow, Diagnostic, DiagnosticSeverity};
use wat_service::config::LintLevel;
use wat_service::idx::{Idx, InternIdent};
use wat_service::syntax::{SyntaxElement, SyntaxKind, SyntaxNode, SyntaxNodePtr, SyntaxToken, TextRange};

fn range(start: u32, end: u32) -> TextRange {
    TextRange { start, end }
}

fn key(kind: SyntaxKind, start: u32, end: u32) -> SymbolKey {
    SymbolKey(SyntaxNodePtr { kind, range: range(start, end) })
}

fn module_key() -> SymbolKey {
    key(SyntaxKind::MODULE, 0, 500)
}

fn sym(k: SymbolKey, region: SymbolKey, kind: SymbolKind, num: Option<u32>, name: Option<u32>) -> Symbol {
    Symbol { key: k, region, kind, idx: Idx { num, name: name.map(InternIdent) } }
}

fn tok(kind: SyntaxKind, start: u32, end: u32, text: &str) -> SyntaxElement {
    SyntaxElement::Token(SyntaxToken { kind, range: range(start, end), text: text.to_string() })
}

fn node(kind: SyntaxKind, start: u32, end: u32, children: Vec<SyntaxElement>) -> SyntaxElement {
    SyntaxElement::Node(SyntaxNode { kind, range: range(start, end), children })
}

fn idents() -> Vec<String> {
    ["$b", "$c", "$x", "$f"].iter().map(|s| s.to_string()).collect()
}

/// Points of interest: the first character of each symbol.
fn poi(t: &SymbolTable) -> Vec<TextRange> {
    t.symbols.iter().iter().map(|s| range(s.key.0.range.start, s.key.0.range.start + 1)).collect()
}

fn messages(diags: &[Diagnostic]) -> Vec<(TextRange, String)> {
    diags.iter().map(|d| (d.range, d.message.clone())).collect()
}

fn related(d: &Diagnostic) -> Vec<(TextRange, String)> {
    d.related_information.as_ref().unwrap().iter().map(|r| (r.range, r.message.clone())).collect()
}

/// `(func (block $b (block $b (block $b))) (block $c) (block $c) (loop))`
fn block_table() -> SymbolTable {
    let m = module_key();
    let f = key(SyntaxKind::MODULE_FIELD_FUNC, 10, 200);
    let symbols = vec![
        sym(m, m, SymbolKind::Module, Some(0), None),
        sym(f, m, SymbolKind::Func, Some(0), None),
        sym(key(SyntaxKind::BLOCK_BLOCK, 20, 100), f, SymbolKind::BlockDef, None, Some(0)),
        sym(key(SyntaxKind::BLOCK_BLOCK, 30, 90), f, SymbolKind::BlockDef, None, Some(0)),
        sym(key(SyntaxKind::BLOCK_BLOCK, 40, 80), f, SymbolKind::BlockDef, None, Some(0)),
        sym(key(SyntaxKind::BLOCK_BLOCK, 110, 120), f, SymbolKind::BlockDef, None, Some(1)),
        sym(key(SyntaxKind::BLOCK_BLOCK, 130, 140), f, SymbolKind::BlockDef, None, Some(1)),
        sym(key(SyntaxKind::BLOCK_LOOP, 150, 160), f, SymbolKind::BlockDef, None, None),
    ];
    let n = symbols.len();
    SymbolTable::from_parts(symbols, vec![None; n], vec![]).unwrap()
}

fn run_shadow(level: LintLevel) -> Vec<Diagnostic> {
    let t = block_table();
    let mut diags = vec![];
    shadow::check(&mut diags, level, &t, &idents(), &poi(&t));
    diags
}

#[test]
fn nested_labels_with_the_same_name_shadow() {
    let diags = run_shadow(LintLevel::Warn);
    assert_eq!(
        messages(&diags),
        vec![(range(20, 21), "`$b` is shadowed".to_string()), (range(30, 31), "`$b` is shadowed".to_string())]
    );
    assert_eq!(
        related(&diags[0]),
        vec![
            (range(30, 31), "`$b` shadowing occurs here".to_string()),
            (range(40, 41), "`$b` shadowing occurs here".to_string()),
        ]
    );
    assert_eq!(related(&diags[1]), vec![(range(40, 41), "`$b` shadowing occurs here".to_string())]);
    assert_eq!(diags[0].code, "shadow");
    assert_eq!(diags[0].severity, DiagnosticSeverity::Warning);
    assert!(run_shadow(LintLevel::Allow).is_empty());
    assert!(run_shadow(LintLevel::Deny).iter().all(|d| d.severity == DiagnosticSeverity::Error));
}

/// `(module (func $f (param $x) (local $x)) (func $f) (global $f)
/// (func (export "a")) (func (export "a")) (export "b" (func $f)))`
fn dup_setup() -> (SymbolTable, SyntaxNode) {
    let m = module_key();
    let f1 = key(SyntaxKind::MODULE_FIELD_FUNC, 10, 40);
    let symbols = vec![
        sym(m, m, SymbolKind::Module, Some(0), None),
        sym(f1, m, SymbolKind::Func, Some(0), Some(3)),
        sym(key(SyntaxKind::PARAM, 20, 25), f1, SymbolKind::Param, Some(0), Some(2)),
        sym(key(SyntaxKind::LOCAL, 26, 31), f1, SymbolKind::Local, Some(1), Some(2)),
        sym(key(SyntaxKind::MODULE_FIELD_FUNC, 50, 60), m, SymbolKind::Func, Some(1), Some(3)),
        sym(key(SyntaxKind::MODULE_FIELD_GLOBAL, 70, 80), m, SymbolKind::GlobalDef, Some(0), Some(3)),
        sym(key(SyntaxKind::MODULE_FIELD_FUNC, 90, 110), m, SymbolKind::Func, Some(2), None),
        sym(key(SyntaxKind::MODULE_FIELD_FUNC, 120, 140), m, SymbolKind::Func, Some(3), None),
        sym(key(SyntaxKind::INDEX, 165, 167), m, SymbolKind::Call, None, Some(3)),
    ];
    let mut resolved = vec![None; symbols.len()];
    resolved[8] = Some(1);
    let table = SymbolTable::from_parts(symbols, resolved, vec![]).unwrap();
    let export = |start: u32, name: &str| {
        node(
            SyntaxKind::EXPORT,
            start,
            start + 10,
            vec![node(SyntaxKind::NAME, start + 8, start + 11, vec![tok(SyntaxKind::STRING, start + 8, start + 11, name)])],
        )
    };
    let module = node(
        SyntaxKind::MODULE,
        0,
        500,
        vec![
            node(SyntaxKind::MODULE_FIELD_FUNC, 10, 40, vec![]),
            node(SyntaxKind::MODULE_FIELD_FUNC, 50, 60, vec![]),
            node(SyntaxKind::MODULE_FIELD_GLOBAL, 70, 80, vec![]),
            node(SyntaxKind::MODULE_FIELD_FUNC, 90, 110, vec![export(91, "\"a\"")]),
            node(SyntaxKind::MODULE_FIELD_FUNC, 120, 140, vec![export(121, "\"a\"")]),
            node(
                SyntaxKind::MODULE_FIELD_EXPORT,
                150,
                170,
                vec![
                    node(SyntaxKind::NAME, 158, 161, vec![tok(SyntaxKind::STRING, 158, 161, "\"b\"")]),
                    node(
                        SyntaxKind::EXTERN_IDX_FUNC,
                        162,
                        169,
                        vec![node(SyntaxKind::INDEX, 165, 167, vec![tok(SyntaxKind::IDENT, 165, 167, "$f")])],
                    ),
                ],
            ),
        ],
    );
    let root = SyntaxNode { kind: SyntaxKind::ROOT, range: range(0, 500), children: vec![module] };
    (table, root)
}

#[test]
fn duplicated_names_in_one_scope_and_space() {
    let (t, root) = dup_setup();
    let mut diags = vec![];
    dup_names::check(&mut diags, &t, &idents(), &root, &poi(&t));
    assert_eq!(
        messages(&diags),
        vec![
            (range(10, 11), "duplicated func name `$f` in this scope".to_string()),
            (range(20, 21), "duplicated param or local name `$x` in this scope".to_string()),
            (range(26, 27), "duplicated param or local name `$x` in this scope".to_string()),
            (range(50, 51), "duplicated func name `$f` in this scope".to_string()),
            (range(99, 102), "duplicated export `a` in this module".to_string()),
            (range(129, 132), "duplicated export `a` in this module".to_string()),
        ]
    );
    assert_eq!(related(&diags[0]), vec![(range(50, 51), "already defined here as `$f`".to_string())]);
    assert_eq!(related(&diags[1]), vec![(range(26, 27), "already defined here as `$x`".to_string())]);
    assert_eq!(related(&diags[4]), vec![(range(129, 132), "already exported here as `a`".to_string())]);
    assert_eq!(related(&diags[5]), vec![(range(99, 102), "already exported here as `a`".to_string())]);
    assert!(diags.iter().all(|d| d.code == "duplicated-names" && d.severity == DiagnosticSeverity::Error));
}

#[test]
fn distinct_names_are_silent() {
    let t = block_table();
    let mut diags = vec![];
    dup_names::check_symbols(&mut diags, &t, &idents(), &poi(&t));
    assert!(diags.is_empty());
}
