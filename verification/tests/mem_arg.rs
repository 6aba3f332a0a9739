use wat_service::binder::{key_list_from_vec, ModuleDefSymbols, Symbol, SymbolKey, SymbolKind, SymbolTable};
use wat_service::checker::mem_arg::{check, power_of_two};
use wat_service::checker::{Diagnostic, DiagnosticSeverity};
use wat_service::idx::{Idx, InternIdent};
use wat_service::syntax::{SyntaxElement, SyntaxKind, SyntaxNode, SyntaxNodePtr, SyntaxToken, TextRange};

fn range(start: u32, end: u32) -> TextRange {
    TextRange { start, end }
}

fn key(kind: SyntaxKind, start: u32, end: u32) -> SymbolKey {
    SymbolKey(SyntaxNodePtr { kind, range: range(start, end) })
}

fn module_key() -> SymbolKey {
    key(SyntaxKind::MODULE, 0, 500)
}

fn memory_m() -> SymbolKey {
    key(SyntaxKind::MODULE_FIELD_MEMORY, 10, 20)
}

fn memory_big() -> SymbolKey {
    key(SyntaxKind::MODULE_FIELD_MEMORY, 30, 40)
}

fn sym(k: SymbolKey, kind: SymbolKind, num: Option<u32>, name: Option<u32>) -> Symbol {
    Symbol { key: k, region: module_key(), kind, idx: Idx { num, name: name.map(InternIdent) } }
}

/// A module with the memories `$m` (`i32` addresses) and `$big` (`i64`
/// addresses), and a reference to `$big` at 150..154.
fn table(memories: Vec<SymbolKey>) -> SymbolTable {
    let module = sym(module_key(), SymbolKind::Module, Some(0), None);
    let m = sym(memory_m(), SymbolKind::MemoryDef, Some(0), Some(0));
    let big = sym(memory_big(), SymbolKind::MemoryDef, Some(1), Some(1));
    let big_ref = sym(key(SyntaxKind::IMMEDIATE, 150, 154), SymbolKind::MemoryRef, None, Some(1));
    let defs = ModuleDefSymbols {
        funcs: vec![],
        types: vec![],
        globals: vec![],
        memories: key_list_from_vec(memories),
        tables: key_list_from_vec(vec![]),
        tags: vec![],
        datas: vec![],
        elems: vec![],
    };
    SymbolTable::from_parts(
        vec![module, m, big, big_ref],
        vec![None, None, None, Some(2)],
        vec![(module_key(), defs)],
    )
    .unwrap()
}

fn idents() -> Vec<String> {
    vec!["$m".to_string(), "$big".to_string()]
}

fn tok(kind: SyntaxKind, start: u32, end: u32, text: &str) -> SyntaxElement {
    SyntaxElement::Token(SyntaxToken { kind, range: range(start, end), text: text.to_string() })
}

/// An immediate `keyword=value` at `start`.
fn mem_arg(start: u32, keyword: &str, value: &str) -> SyntaxElement {
    let kw_end = start + keyword.len() as u32;
    let end = kw_end + 1 + value.len() as u32;
    let arg = SyntaxNode {
        kind: SyntaxKind::MEM_ARG,
        range: range(start, end),
        children: vec![
            tok(SyntaxKind::MEM_ARG_KEYWORD, start, kw_end, keyword),
            tok(SyntaxKind::UNSIGNED_INT, kw_end + 1, end, value),
        ],
    };
    SyntaxElement::Node(SyntaxNode {
        kind: SyntaxKind::IMMEDIATE,
        range: range(start, end),
        children: vec![SyntaxElement::Node(arg)],
    })
}

fn big_index() -> SyntaxElement {
    SyntaxElement::Node(SyntaxNode {
        kind: SyntaxKind::IMMEDIATE,
        range: range(150, 154),
        children: vec![tok(SyntaxKind::IDENT, 150, 154, "$big")],
    })
}

fn run_in(table: &SymbolTable, module: SymbolKey, name: &str, immediates: Vec<SyntaxElement>) -> Vec<Diagnostic> {
    let name_token = SyntaxToken { kind: SyntaxKind::INSTR_NAME, range: range(101, 101 + name.len() as u32), text: name.to_string() };
    let mut children = vec![tok(SyntaxKind::INSTR_NAME, 101, 101 + name.len() as u32, name)];
    children.extend(immediates);
    let node = SyntaxNode { kind: SyntaxKind::PLAIN_INSTR, range: range(100, 300), children };
    let mut diags = vec![];
    check(&mut diags, table, &idents(), module, &vec![memory_m()], &node, &name_token);
    diags
}

fn run(name: &str, immediates: Vec<SyntaxElement>) -> Vec<Diagnostic> {
    run_in(&table(vec![memory_m(), memory_big()]), module_key(), name, immediates)
}

fn messages(diags: &[Diagnostic]) -> Vec<(TextRange, String)> {
    diags.iter().map(|d| (d.range, d.message.clone())).collect()
}

#[test]
fn alignment_must_fit_the_access() {
    let diags = run("i32.load", vec![mem_arg(200, "align", "8")]);
    assert_eq!(messages(&diags), vec![(range(200, 207), "alignment must be between 1 and 4 inclusively".to_string())]);
    assert_eq!(diags[0].code, "mem-arg");
    assert_eq!(diags[0].severity, DiagnosticSeverity::Error);
    assert!(diags[0].related_information.is_none());

    assert!(run("i32.load", vec![mem_arg(200, "align", "4")]).is_empty());
    assert!(run("i64.load", vec![mem_arg(200, "align", "8")]).is_empty());
    assert!(run("v128.load", vec![mem_arg(200, "align", "16")]).is_empty());
    let diags = run("v128.load", vec![mem_arg(200, "align", "32")]);
    assert_eq!(messages(&diags), vec![(range(200, 208), "alignment must be between 1 and 16 inclusively".to_string())]);
    let diags = run("i64.store16", vec![mem_arg(200, "align", "4")]);
    assert_eq!(messages(&diags), vec![(range(200, 207), "alignment must be between 1 and 2 inclusively".to_string())]);
    let diags = run("v128.load8x8_s", vec![mem_arg(200, "align", "16")]);
    assert_eq!(messages(&diags), vec![(range(200, 208), "alignment must be between 1 and 8 inclusively".to_string())]);
    assert!(run("v128.load32_zero", vec![mem_arg(200, "align", "4")]).is_empty());
    let diags = run("i32.atomic.load8_u", vec![mem_arg(200, "align", "2")]);
    assert!(diags.is_empty());
}

#[test]
fn alignment_must_be_a_power_of_two() {
    let diags = run("i32.load8_u", vec![mem_arg(200, "align", "3")]);
    assert_eq!(messages(&diags), vec![(range(200, 207), "alignment must be power-of-two".to_string())]);
    let diags = run("i64.load", vec![mem_arg(200, "align", "0")]);
    assert_eq!(messages(&diags), vec![(range(200, 207), "alignment must be power-of-two".to_string())]);
    assert!(run("i64.load", vec![mem_arg(200, "align", "99999999999")]).is_empty());
}

#[test]
fn one_alignment_and_one_offset() {
    let diags = run("i64.load", vec![mem_arg(200, "align", "8"), mem_arg(210, "align", "8")]);
    assert_eq!(messages(&diags), vec![(range(210, 217), "multiple alignments are not allowed".to_string())]);
    let diags = run("i32.store", vec![mem_arg(200, "offset", "1"), mem_arg(210, "offset", "2")]);
    assert_eq!(messages(&diags), vec![(range(210, 218), "multiple offsets are not allowed".to_string())]);
    let diags = run("i32.load", vec![mem_arg(200, "align", "16"), mem_arg(210, "align", "3")]);
    assert_eq!(
        messages(&diags),
        vec![
            (range(200, 208), "alignment must be between 1 and 4 inclusively".to_string()),
            (range(210, 217), "multiple alignments are not allowed".to_string()),
            (range(210, 217), "alignment must be power-of-two".to_string()),
        ]
    );
    assert!(run("i32.load", vec![mem_arg(200, "offset", "8"), mem_arg(210, "align", "4")]).is_empty());
}

#[test]
fn offsets_of_i32_memories_fit_in_u32() {
    let diags = run("i32.load", vec![mem_arg(200, "offset", "4294967296")]);
    assert_eq!(messages(&diags), vec![(range(200, 217), "offset is out of range".to_string())]);
    let related = diags[0].related_information.as_ref().unwrap();
    assert_eq!(related.len(), 1);
    assert_eq!(related[0].range, range(10, 20));
    assert_eq!(related[0].message, "memory `$m` defined here uses `i32` address type");

    assert!(run("i32.load", vec![mem_arg(200, "offset", "4294967295")]).is_empty());
    assert!(run("i32.load", vec![big_index(), mem_arg(200, "offset", "4294967296")]).is_empty());
    let first_big = table(vec![memory_big(), memory_m()]);
    assert!(run_in(&first_big, module_key(), "i32.load", vec![mem_arg(200, "offset", "4294967296")]).is_empty());
}

#[test]
fn other_instructions_are_left_alone() {
    assert!(run("i32.add", vec![mem_arg(200, "align", "8")]).is_empty());
    assert!(run("i32.loadx", vec![mem_arg(200, "align", "8")]).is_empty());
    assert!(run("memory.size", vec![mem_arg(200, "align", "8")]).is_empty());
    let no_module = key(SyntaxKind::MODULE, 600, 700);
    let t = table(vec![memory_m()]);
    assert!(run_in(&t, no_module, "i32.load", vec![mem_arg(200, "align", "8")]).is_empty());
    let diags = run_in(&t, no_module, "i32.load", vec![big_index(), mem_arg(200, "align", "8")]);
    assert_eq!(messages(&diags), vec![(range(200, 207), "alignment must be between 1 and 4 inclusively".to_string())]);
}

#[test]
fn powers_of_two() {
    assert!(power_of_two(1));
    assert!(power_of_two(64));
    assert!(power_of_two(1 << 63));
    assert!(!power_of_two(0));
    assert!(!power_of_two(6));
    assert!(!power_of_two(u64::MAX));
}
