use wat_service::binder::{
    key_list_from_vec, IdxKind, ModuleDefSymbols, Symbol, SymbolKey, SymbolKind, SymbolTable, Symbols,
};
use wat_service::exports::get_exports;
use wat_service::idx::{Idx, InternIdent};
use wat_service::syntax::{SyntaxElement, SyntaxKind, SyntaxNode, SyntaxNodePtr, SyntaxToken, TextRange};

fn key(kind: SyntaxKind, start: u32, end: u32) -> SymbolKey {
    SymbolKey(SyntaxNodePtr { kind, range: TextRange { start, end } })
}

fn module_key() -> SymbolKey {
    key(SyntaxKind::MODULE, 0, 200)
}

fn sym(k: SymbolKey, kind: SymbolKind, num: Option<u32>, name: Option<u32>) -> Symbol {
    Symbol { key: k, region: module_key(), kind, idx: Idx { num, name: name.map(InternIdent) } }
}

#[test]
fn symbols_are_found_by_key() {
    let mut symbols = Symbols::new();
    assert_eq!(symbols.len(), 0);
    let a = sym(key(SyntaxKind::MODULE_FIELD_FUNC, 10, 20), SymbolKind::Func, Some(0), None);
    let b = sym(key(SyntaxKind::MODULE_FIELD_FUNC, 30, 40), SymbolKind::Func, Some(1), None);
    symbols.insert(a);
    symbols.extend(vec![b]);
    assert_eq!(symbols.len(), 2);
    assert_eq!(symbols.get_index_of(b.key), Some(1));
    assert_eq!(symbols.get(a.key).map(|s| s.idx.num), Some(Some(0)));
    assert!(symbols.get(key(SyntaxKind::MODULE_FIELD_FUNC, 50, 60)).is_none());
    assert_eq!(symbols.get_index(1).map(|s| s.key), Some(b.key));
    assert_eq!(symbols.iter().len(), 2);
}

fn sample_table() -> SymbolTable {
    let module = sym(module_key(), SymbolKind::Module, Some(0), None);
    let f = sym(key(SyntaxKind::MODULE_FIELD_FUNC, 10, 20), SymbolKind::Func, Some(0), Some(0));
    let g = sym(key(SyntaxKind::MODULE_FIELD_FUNC, 30, 40), SymbolKind::Func, Some(1), Some(1));
    let call_f = sym(key(SyntaxKind::IMMEDIATE, 50, 52), SymbolKind::Call, None, Some(0));
    let call_g = sym(key(SyntaxKind::IMMEDIATE, 60, 61), SymbolKind::Call, Some(1), None);
    let call_f2 = sym(key(SyntaxKind::IMMEDIATE, 70, 72), SymbolKind::Call, None, Some(0));
    let defs = ModuleDefSymbols {
        funcs: vec![f.key, g.key],
        types: vec![],
        globals: vec![],
        memories: key_list_from_vec(vec![]),
        tables: key_list_from_vec(vec![]),
        tags: vec![],
        datas: vec![],
        elems: vec![],
    };
    SymbolTable::from_parts(
        vec![module, f, g, call_f, call_g, call_f2],
        vec![None, None, None, Some(1), Some(2), Some(1)],
        vec![(module_key(), defs)],
    )
    .unwrap()
}

#[test]
fn references_resolve_to_definitions() {
    let table = sample_table();
    let f_key = key(SyntaxKind::MODULE_FIELD_FUNC, 10, 20);
    assert_eq!(table.find_def(key(SyntaxKind::IMMEDIATE, 50, 52)).map(|s| s.key), Some(f_key));
    assert!(table.find_def(f_key).is_none());
    let f = *table.symbols.get(f_key).unwrap();
    let refs: Vec<SymbolKey> = table.find_references_on_def(&f, true).iter().map(|s| s.key).collect();
    assert_eq!(refs, vec![f_key, key(SyntaxKind::IMMEDIATE, 50, 52), key(SyntaxKind::IMMEDIATE, 70, 72)]);
    let refs: Vec<SymbolKey> = table.find_references_on_def(&f, false).iter().map(|s| s.key).collect();
    assert_eq!(refs, vec![key(SyntaxKind::IMMEDIATE, 50, 52), key(SyntaxKind::IMMEDIATE, 70, 72)]);
    let call = *table.symbols.get(key(SyntaxKind::IMMEDIATE, 70, 72)).unwrap();
    assert_eq!(table.find_references_on_ref(&call, false).len(), 2);
    assert_eq!(table.iter_resolved(), vec![(3, 1), (4, 2), (5, 1)]);
    assert_eq!(table.iter_may_resolved().len(), 6);
    assert_eq!(table.find_module(0).map(|s| s.key), Some(module_key()));
    assert!(table.find_module(1).is_none());
}

#[test]
fn definitions_by_index_or_name() {
    let table = sample_table();
    let by_num = table.find_def_by_idx(Idx { num: Some(1), name: None }, SymbolKind::Func, module_key());
    assert_eq!(by_num.map(|s| s.key), Some(key(SyntaxKind::MODULE_FIELD_FUNC, 30, 40)));
    let by_name = table.find_def_by_idx(Idx { num: None, name: Some(InternIdent(0)) }, SymbolKind::Func, module_key());
    assert_eq!(by_name.map(|s| s.key), Some(key(SyntaxKind::MODULE_FIELD_FUNC, 10, 20)));
    assert!(table.find_def_by_idx(Idx { num: Some(5), name: None }, SymbolKind::Func, module_key()).is_none());
    assert!(table.find_def_by_idx(Idx { num: Some(0), name: None }, SymbolKind::Type, module_key()).is_none());
    assert_eq!(table.get_declared(module_key(), SymbolKind::Func).len(), 2);
    assert!(table.get_declared(key(SyntaxKind::MODULE, 1, 2), SymbolKind::Func).is_empty());
}

#[test]
fn tables_with_duplicate_keys_are_refused() {
    let a = sym(key(SyntaxKind::MODULE_FIELD_FUNC, 10, 20), SymbolKind::Func, Some(0), None);
    assert!(SymbolTable::from_parts(vec![a, a], vec![None, None], vec![]).is_none());
    assert!(SymbolTable::from_parts(vec![a], vec![Some(0)], vec![]).is_none());
    assert!(SymbolTable::from_parts(vec![a], vec![], vec![]).is_none());
}

#[test]
fn kinds_read_as_words() {
    assert_eq!(SymbolKind::LocalRef.text(), "param or local");
    assert_eq!(SymbolKind::DataDef.text(), "data segment");
    assert_eq!(IdxKind::from(SymbolKind::Call), IdxKind::from(SymbolKind::Func));
    assert_eq!(IdxKind::from(SymbolKind::Call).text(), "func");
}

fn tok(kind: SyntaxKind, start: u32, end: u32, text: &str) -> SyntaxElement {
    SyntaxElement::Token(SyntaxToken { kind, range: TextRange { start, end }, text: text.to_string() })
}

fn node(kind: SyntaxKind, start: u32, end: u32, children: Vec<SyntaxElement>) -> SyntaxElement {
    SyntaxElement::Node(SyntaxNode { kind, range: TextRange { start, end }, children })
}

#[test]
fn exports_of_a_module() {
    let inline = node(
        SyntaxKind::MODULE_FIELD_FUNC,
        10,
        20,
        vec![node(SyntaxKind::EXPORT, 11, 19, vec![node(SyntaxKind::NAME, 15, 18, vec![tok(SyntaxKind::STRING, 15, 18, "\"f\"")])])],
    );
    let field = node(
        SyntaxKind::MODULE_FIELD_EXPORT,
        30,
        60,
        vec![
            node(SyntaxKind::NAME, 38, 41, vec![tok(SyntaxKind::STRING, 38, 41, "\"g\"")]),
            node(SyntaxKind::EXTERN_IDX_FUNC, 42, 55, vec![node(SyntaxKind::INDEX, 48, 50, vec![tok(SyntaxKind::IDENT, 48, 50, "$f")])]),
        ],
    );
    let module = node(SyntaxKind::MODULE, 0, 200, vec![inline, field]);
    let root = SyntaxNode { kind: SyntaxKind::ROOT, range: TextRange { start: 0, end: 200 }, children: vec![module] };

    let module_symbol = sym(module_key(), SymbolKind::Module, Some(0), None);
    let f = sym(key(SyntaxKind::MODULE_FIELD_FUNC, 10, 20), SymbolKind::Func, Some(0), Some(0));
    let index = sym(key(SyntaxKind::INDEX, 48, 50), SymbolKind::Call, None, Some(0));
    let table = SymbolTable::from_parts(vec![module_symbol, f, index], vec![None, None, Some(1)], vec![]).unwrap();

    let exports = get_exports(&table, &root);
    assert_eq!(exports.len(), 1);
    assert_eq!(exports[0].0, SyntaxNodePtr { kind: SyntaxKind::MODULE, range: TextRange { start: 0, end: 200 } });
    let list: Vec<(SymbolKey, String, TextRange)> =
        exports[0].1.iter().map(|e| (e.def_key, e.name.clone(), e.range)).collect();
    assert_eq!(
        list,
        vec![
            (f.key, "\"f\"".to_string(), TextRange { start: 15, end: 18 }),
            (f.key, "\"g\"".to_string(), TextRange { start: 38, end: 41 }),
        ]
    );
}
