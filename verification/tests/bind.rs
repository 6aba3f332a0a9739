use wat_service::bind::create_symbol_table;
use wat_service::binder::SymbolKind;
use wat_service::syntax::{SyntaxElement, SyntaxKind, SyntaxNode, SyntaxToken, TextRange};

fn tok(kind: SyntaxKind, start: u32, text: &str) -> SyntaxElement {
    SyntaxElement::Token(SyntaxToken { kind, range: TextRange { start, end: start + text.len() as u32 }, text: text.to_string() })
}

fn node(kind: SyntaxKind, start: u32, end: u32, children: Vec<SyntaxElement>) -> SyntaxElement {
    SyntaxElement::Node(SyntaxNode { kind, range: TextRange { start, end }, children })
}

fn instr(start: u32, end: u32, name: &str, imm: Option<(SyntaxKind, &str)>) -> SyntaxElement {
    let mut children = vec![tok(SyntaxKind::INSTR_NAME, start, name)];
    if let Some((kind, text)) = imm {
        let s = start + name.len() as u32 + 1;
        children.push(node(SyntaxKind::IMMEDIATE, s, s + text.len() as u32, vec![tok(kind, s, text)]));
    }
    node(SyntaxKind::PLAIN_INSTR, start, end, children)
}

/// `(module (func $f (param $p i32) (local $l i32) local.get $p call $f block $b br $b end local.get 1))`
fn document() -> SyntaxNode {
    let param = node(SyntaxKind::PARAM, 20, 34, vec![tok(SyntaxKind::IDENT, 27, "$p"), node(SyntaxKind::NUM_TYPE, 30, 33, vec![])]);
    let type_use = node(SyntaxKind::TYPE_USE, 20, 34, vec![param]);
    let local = node(SyntaxKind::LOCAL, 35, 49, vec![tok(SyntaxKind::IDENT, 42, "$l"), node(SyntaxKind::NUM_TYPE, 45, 48, vec![])]);
    let block = node(
        SyntaxKind::BLOCK_BLOCK,
        80,
        100,
        vec![tok(SyntaxKind::KEYWORD, 80, "block"), tok(SyntaxKind::IDENT, 86, "$b"), instr(89, 94, "br", Some((SyntaxKind::IDENT, "$b")))],
    );
    let func = node(
        SyntaxKind::MODULE_FIELD_FUNC,
        8,
        120,
        vec![
            tok(SyntaxKind::KEYWORD, 9, "func"),
            tok(SyntaxKind::IDENT, 14, "$f"),
            type_use,
            local,
            instr(50, 62, "local.get", Some((SyntaxKind::IDENT, "$p"))),
            instr(63, 70, "call", Some((SyntaxKind::IDENT, "$f"))),
            block,
            instr(101, 112, "local.get", Some((SyntaxKind::INT, "1"))),
        ],
    );
    let module = node(SyntaxKind::MODULE, 0, 121, vec![tok(SyntaxKind::L_PAREN, 0, "("), tok(SyntaxKind::KEYWORD, 1, "module"), func]);
    SyntaxNode { kind: SyntaxKind::ROOT, range: TextRange { start: 0, end: 121 }, children: vec![module] }
}

#[test]
fn symbols_of_a_function_are_found_and_resolved() {
    let root = document();
    let mut idents = vec![];
    let table = create_symbol_table(&root, &mut idents).unwrap();
    let kinds: Vec<SymbolKind> = table.symbols.iter().iter().map(|s| s.kind).collect();
    assert_eq!(
        kinds,
        vec![
            SymbolKind::Module,
            SymbolKind::Func,
            SymbolKind::Param,
            SymbolKind::Local,
            SymbolKind::LocalRef,
            SymbolKind::Call,
            SymbolKind::BlockDef,
            SymbolKind::BlockRef,
            SymbolKind::LocalRef,
        ]
    );
    assert_eq!(table.resolved, vec![None, None, None, None, Some(2), Some(1), None, Some(6), Some(3)]);
    assert_eq!(idents, vec!["$f".to_string(), "$p".to_string(), "$l".to_string(), "$b".to_string()]);
    let func = table.symbols.iter()[1];
    assert_eq!(func.idx.num, Some(0));
    assert_eq!(func.idx.render(&idents), "$f");
    let param = table.symbols.iter()[2];
    assert_eq!(param.region, func.key);
    assert_eq!(table.modules.len(), 1);
    assert_eq!(table.modules[0].1.funcs, vec![func.key]);
    let def = table.find_def(table.symbols.iter()[7].key).unwrap();
    assert_eq!(def.kind, SymbolKind::BlockDef);
}

fn imm(start: u32, kind: SyntaxKind, text: &str) -> SyntaxElement {
    node(SyntaxKind::IMMEDIATE, start, start + text.len() as u32, vec![tok(kind, start, text)])
}

#[test]
fn fields_imports_and_parameters_of_type_uses() {
    let param_a = node(SyntaxKind::PARAM, 20, 33, vec![tok(SyntaxKind::IDENT, 27, "$a"), node(SyntaxKind::NUM_TYPE, 30, 33, vec![])]);
    let param_b = node(SyntaxKind::PARAM, 34, 45, vec![node(SyntaxKind::NUM_TYPE, 41, 44, vec![])]);
    let func_type = node(SyntaxKind::FUNC_TYPE, 15, 46, vec![param_a, param_b]);
    let sub_t = node(SyntaxKind::SUB_TYPE, 15, 46, vec![func_type]);
    let type_t = node(SyntaxKind::TYPE_DEF, 5, 47, vec![tok(SyntaxKind::IDENT, 11, "$t"), sub_t]);
    let field_x = node(SyntaxKind::FIELD, 68, 80, vec![tok(SyntaxKind::IDENT, 75, "$x"), node(SyntaxKind::FIELD_TYPE, 78, 79, vec![])]);
    let struct_s = node(SyntaxKind::STRUCT_TYPE, 60, 81, vec![field_x]);
    let sub_s = node(SyntaxKind::SUB_TYPE, 60, 81, vec![struct_s]);
    let type_s = node(SyntaxKind::TYPE_DEF, 50, 82, vec![tok(SyntaxKind::IDENT, 56, "$s"), sub_s]);
    let import = node(
        SyntaxKind::MODULE_FIELD_IMPORT,
        85,
        120,
        vec![
            node(SyntaxKind::MODULE_NAME, 93, 96, vec![]),
            node(SyntaxKind::NAME, 97, 100, vec![]),
            node(SyntaxKind::EXTERN_TYPE_GLOBAL, 101, 119, vec![tok(SyntaxKind::IDENT, 109, "$g")]),
        ],
    );
    let type_use = node(SyntaxKind::TYPE_USE, 130, 140, vec![node(SyntaxKind::INDEX, 136, 138, vec![tok(SyntaxKind::IDENT, 136, "$t")])]);
    let get_local = node(SyntaxKind::PLAIN_INSTR, 141, 152, vec![tok(SyntaxKind::INSTR_NAME, 141, "local.get"), imm(151, SyntaxKind::INT, "1")]);
    let get_field = node(
        SyntaxKind::PLAIN_INSTR,
        153,
        170,
        vec![tok(SyntaxKind::INSTR_NAME, 153, "struct.get"), imm(164, SyntaxKind::IDENT, "$s"), imm(167, SyntaxKind::IDENT, "$x")],
    );
    let get_global = node(SyntaxKind::PLAIN_INSTR, 171, 184, vec![tok(SyntaxKind::INSTR_NAME, 171, "global.get"), imm(182, SyntaxKind::IDENT, "$g")]);
    let func = node(SyntaxKind::MODULE_FIELD_FUNC, 125, 190, vec![tok(SyntaxKind::KEYWORD, 126, "func"), type_use, get_local, get_field, get_global]);
    let module = node(SyntaxKind::MODULE, 0, 200, vec![type_t, type_s, import, func]);
    let root = SyntaxNode { kind: SyntaxKind::ROOT, range: TextRange { start: 0, end: 200 }, children: vec![module] };

    let mut idents = vec![];
    let table = create_symbol_table(&root, &mut idents).unwrap();
    let symbols = table.symbols.iter();
    let kinds: Vec<SymbolKind> = symbols.iter().map(|s| s.kind).collect();
    assert_eq!(
        kinds,
        vec![
            SymbolKind::Module,
            SymbolKind::Type,
            SymbolKind::Param,
            SymbolKind::Param,
            SymbolKind::Type,
            SymbolKind::FieldDef,
            SymbolKind::GlobalDef,
            SymbolKind::Func,
            SymbolKind::TypeUse,
            SymbolKind::LocalRef,
            SymbolKind::TypeUse,
            SymbolKind::FieldRef,
            SymbolKind::GlobalRef,
        ]
    );
    assert_eq!(
        table.resolved,
        vec![None, None, None, None, None, None, None, None, Some(1), Some(3), Some(4), Some(5), Some(6)]
    );
    // a named parameter of a type definition carries no identifier in its index
    assert_eq!(symbols[2].idx.name, None);
    assert_eq!(symbols[2].region, symbols[1].key);
    // the field reference now belongs to the struct type it names
    assert_eq!(symbols[11].region, symbols[4].key);
    assert_eq!(table.modules[0].1.types, vec![symbols[1].key, symbols[4].key]);
    assert_eq!(table.modules[0].1.globals, vec![symbols[6].key]);
}
