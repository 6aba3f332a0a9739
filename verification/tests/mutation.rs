use wat_service::binder::{key_list_from_vec, ModuleDefSymbols, Symbol, SymbolKey, SymbolKind, SymbolTable};
use wat_service::checker::mutation::{check_mutated_immutable, check_needless_mut, MutationAction, Mutability};
use wat_service::checker::{DiagnosticSeverity, DiagnosticTag};
use wat_service::config::LintLevel;
use wat_service::idx::{Idx, InternIdent};
use wat_service::syntax::{SyntaxKind, SyntaxNodePtr, TextRange};

fn range(start: u32, end: u32) -> TextRange {
    TextRange { start, end }
}

fn key(kind: SyntaxKind, start: u32, end: u32) -> SymbolKey {
    SymbolKey(SyntaxNodePtr { kind, range: range(start, end) })
}

fn module_key() -> SymbolKey {
    key(SyntaxKind::MODULE, 0, 200)
}

fn sym(k: SymbolKey, kind: SymbolKind, name: u32) -> Symbol {
    Symbol { key: k, region: module_key(), kind, idx: Idx { num: None, name: Some(InternIdent(name)) } }
}

fn table() -> SymbolTable {
    let module = Symbol {
        key: module_key(),
        region: module_key(),
        kind: SymbolKind::Module,
        idx: Idx { num: Some(0), name: None },
    };
    let g = sym(key(SyntaxKind::MODULE_FIELD_GLOBAL, 10, 30), SymbolKind::GlobalDef, 0);
    let h = sym(key(SyntaxKind::MODULE_FIELD_GLOBAL, 31, 50), SymbolKind::GlobalDef, 1);
    let set_g = sym(key(SyntaxKind::IMMEDIATE, 60, 62), SymbolKind::GlobalRef, 0);
    let get_h = sym(key(SyntaxKind::IMMEDIATE, 70, 72), SymbolKind::GlobalRef, 1);
    let defs = ModuleDefSymbols {
        funcs: vec![],
        types: vec![],
        globals: vec![g.key, h.key],
        memories: key_list_from_vec(vec![]),
        tables: key_list_from_vec(vec![]),
        tags: vec![],
        datas: vec![],
        elems: vec![],
    };
    SymbolTable::from_parts(vec![module, g, h, set_g, get_h], vec![None, None, None, Some(1), Some(2)], vec![(module_key(), defs)])
        .unwrap()
}

fn idents() -> Vec<String> {
    vec!["$g".to_string(), "$h".to_string()]
}

#[test]
fn setting_an_immutable_global_is_reported() {
    let t = table();
    let g = key(SyntaxKind::MODULE_FIELD_GLOBAL, 10, 30);
    let h = key(SyntaxKind::MODULE_FIELD_GLOBAL, 31, 50);
    let ms = vec![
        Mutability { key: g, mut_keyword: None, cross_module: false },
        Mutability { key: h, mut_keyword: Some(range(36, 39)), cross_module: false },
    ];
    let actions = vec![
        MutationAction { key: key(SyntaxKind::IMMEDIATE, 60, 62), set: true, target: Some(g) },
        MutationAction { key: key(SyntaxKind::IMMEDIATE, 70, 72), set: false, target: Some(h) },
    ];
    let mut diags = vec![];
    check_mutated_immutable(&mut diags, &t, &idents(), &ms, &actions);
    assert_eq!(diags.len(), 1);
    assert_eq!(diags[0].range, range(60, 62));
    assert_eq!(diags[0].code, "mutated-immutable");
    assert_eq!(diags[0].message, "mutating the immutable global `$g` is not allowed");
    let related = diags[0].related_information.as_ref().unwrap();
    assert_eq!((related[0].range, related[0].message.as_str()), (range(10, 30), "immutable global defined here"));

    let mut diags = vec![];
    check_needless_mut(&mut diags, &t, &idents(), LintLevel::Warn, &ms, &actions);
    assert_eq!(diags.len(), 1);
    assert_eq!(diags[0].range, range(36, 39));
    assert_eq!(diags[0].severity, DiagnosticSeverity::Warning);
    assert_eq!(diags[0].code, "needless-mut");
    assert_eq!(diags[0].message, "global `$h` is unnecessarily mutable");
    assert_eq!(diags[0].tags, Some(vec![DiagnosticTag::Unnecessary]));

    let mut diags = vec![];
    check_needless_mut(&mut diags, &t, &idents(), LintLevel::Allow, &ms, &actions);
    assert!(diags.is_empty());
}

#[test]
fn set_or_shared_mutable_globals_are_not_needless() {
    let t = table();
    let h = key(SyntaxKind::MODULE_FIELD_GLOBAL, 31, 50);
    let actions = vec![MutationAction { key: key(SyntaxKind::IMMEDIATE, 70, 72), set: true, target: Some(h) }];
    let ms = vec![Mutability { key: h, mut_keyword: Some(range(36, 39)), cross_module: false }];
    let mut diags = vec![];
    check_needless_mut(&mut diags, &t, &idents(), LintLevel::Deny, &ms, &actions);
    assert!(diags.is_empty());
    let shared = vec![Mutability { key: h, mut_keyword: Some(range(36, 39)), cross_module: true }];
    check_needless_mut(&mut diags, &t, &idents(), LintLevel::Deny, &shared, &vec![]);
    assert!(diags.is_empty());
    check_mutated_immutable(&mut diags, &t, &idents(), &ms, &actions);
    assert!(diags.is_empty());
}

use wat_service::checker::subtyping::{check_subtyping, DefTypeFacts};
use wat_service::syntax::{SyntaxElement, SyntaxNode, SyntaxToken};

fn type_def(start: u32, end: u32, index_at: u32) -> SyntaxElement {
    SyntaxElement::Node(SyntaxNode {
        kind: SyntaxKind::TYPE_DEF,
        range: range(start, end),
        children: vec![SyntaxElement::Node(SyntaxNode {
            kind: SyntaxKind::SUB_TYPE,
            range: range(start + 2, end - 2),
            children: vec![SyntaxElement::Node(SyntaxNode {
                kind: SyntaxKind::INDEX,
                range: range(index_at, index_at + 2),
                children: vec![SyntaxElement::Token(SyntaxToken {
                    kind: SyntaxKind::IDENT,
                    range: range(index_at, index_at + 2),
                    text: "$a".to_string(),
                })],
            })],
        })],
    })
}

#[test]
fn super_types_must_come_first_be_open_and_match() {
    let module = Symbol {
        key: module_key(),
        region: module_key(),
        kind: SymbolKind::Module,
        idx: Idx { num: Some(0), name: None },
    };
    let a_key = key(SyntaxKind::TYPE_DEF, 10, 30);
    let b_key = key(SyntaxKind::TYPE_DEF, 40, 60);
    let a = Symbol { key: a_key, region: module_key(), kind: SymbolKind::Type, idx: Idx { num: Some(0), name: Some(InternIdent(0)) } };
    let b = Symbol { key: b_key, region: module_key(), kind: SymbolKind::Type, idx: Idx { num: Some(1), name: Some(InternIdent(1)) } };
    let defs = ModuleDefSymbols {
        funcs: vec![],
        types: vec![a_key, b_key],
        globals: vec![],
        memories: key_list_from_vec(vec![]),
        tables: key_list_from_vec(vec![]),
        tags: vec![],
        datas: vec![],
        elems: vec![],
    };
    let t = SymbolTable::from_parts(vec![module, a, b], vec![None, None, None], vec![(module_key(), defs)]).unwrap();
    let root = SyntaxNode {
        kind: SyntaxKind::MODULE,
        range: range(0, 200),
        children: vec![type_def(10, 30, 20), type_def(40, 60, 50)],
    };
    let names = vec!["$a".to_string(), "$b".to_string()];
    let facts = |a_final: bool, b_matches: bool| {
        vec![
            DefTypeFacts { key: a_key, idx: a.idx, inherits: None, is_final: a_final, matches_super: true },
            DefTypeFacts { key: b_key, idx: b.idx, inherits: Some(a_key), is_final: false, matches_super: b_matches },
        ]
    };
    let mut diags = vec![];
    check_subtyping(&mut diags, &t, &root, &names, &facts(false, false));
    assert_eq!(diags.len(), 1);
    assert_eq!(diags[0].range, range(50, 52));
    assert_eq!(diags[0].code, "subtyping");
    assert_eq!(diags[0].message, "type of `$b` doesn't match its super type `$a`");
    let mut diags = vec![];
    check_subtyping(&mut diags, &t, &root, &names, &facts(true, true));
    assert_eq!(diags[0].message, "type `$a` is final");
    let mut diags = vec![];
    check_subtyping(&mut diags, &t, &root, &names, &facts(false, true));
    assert!(diags.is_empty());
    let backwards = vec![
        DefTypeFacts { key: a_key, idx: a.idx, inherits: Some(b_key), is_final: false, matches_super: true },
        DefTypeFacts { key: b_key, idx: b.idx, inherits: None, is_final: false, matches_super: true },
    ];
    let mut diags = vec![];
    check_subtyping(&mut diags, &t, &root, &names, &backwards);
    assert_eq!(diags[0].range, range(20, 22));
    assert_eq!(diags[0].message, "typeidx of super type `$b` must be smaller than type `$a`");
}
