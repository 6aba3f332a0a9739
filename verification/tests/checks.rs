use wat_service::binder::{Symbol, SymbolKey, SymbolKind, SymbolTable};
use wat_service::cfa::{analyze, Instr, PlainInstr};
use wat_service::checker::structure::check_multi_memories;
use wat_service::checker::{
    global_expr, import_occur, import_with_def, omitted_idx, plain_instr, unknown_instr, useless_catch,
    Diagnostic, DiagnosticSeverity, DiagnosticTag,
};
use wat_service::config::LintLevel;
use wat_service::data_set::instr_meta::get_instr_op_code;
use wat_service::idx::{Idx, InternIdent};
use wat_service::syntax::{SyntaxElement, SyntaxKind, SyntaxNode, SyntaxNodePtr, SyntaxToken, TextRange};

fn range(start: u32, end: u32) -> TextRange {
    TextRange { start, end }
}

fn tok(kind: SyntaxKind, start: u32, end: u32, text: &str) -> SyntaxElement {
    SyntaxElement::Token(SyntaxToken { kind, range: range(start, end), text: text.to_string() })
}

fn node(kind: SyntaxKind, start: u32, end: u32, children: Vec<SyntaxElement>) -> SyntaxNode {
    SyntaxNode { kind, range: range(start, end), children }
}

fn imm(start: u32, end: u32, kind: SyntaxKind, text: &str) -> SyntaxElement {
    SyntaxElement::Node(node(SyntaxKind::IMMEDIATE, start, end, vec![tok(kind, start, end, text)]))
}

fn instr(name: &str, immediates: Vec<SyntaxElement>) -> (SyntaxNode, SyntaxToken) {
    let name_token = SyntaxToken { kind: SyntaxKind::INSTR_NAME, range: range(1, 1 + name.len() as u32), text: name.to_string() };
    let mut children = vec![SyntaxElement::Token(SyntaxToken {
        kind: name_token.kind,
        range: name_token.range,
        text: name_token.text.clone(),
    })];
    children.extend(immediates);
    (node(SyntaxKind::PLAIN_INSTR, 0, 100, children), name_token)
}

fn messages(diags: &[Diagnostic]) -> Vec<(TextRange, String)> {
    diags.iter().map(|d| (d.range, d.message.clone())).collect()
}

fn plain_check(name: &str, immediates: Vec<SyntaxElement>) -> Vec<Diagnostic> {
    let (n, t) = instr(name, immediates);
    let mut diags = vec![];
    plain_instr::check(&mut diags, &n, &t);
    diags
}

#[test]
fn op_codes_are_looked_up() {
    assert_eq!(get_instr_op_code("unreachable"), Some(0x00));
    assert_eq!(get_instr_op_code("i32.add"), Some(0x6A));
    assert_eq!(get_instr_op_code("i32x4.relaxed_dot_i8x16_i7x16_add_s"), Some(0xFD9302));
    assert_eq!(get_instr_op_code("i32.plus"), None);
}

#[test]
fn missing_and_unexpected_immediates() {
    let diags = plain_check("local.get", vec![]);
    assert_eq!(messages(&diags), vec![(range(1, 10), "missing identifier or unsigned integer".to_string())]);
    assert_eq!(diags[0].code, "plain-instr");
    assert_eq!(diags[0].severity, DiagnosticSeverity::Error);

    let diags = plain_check("local.get", vec![imm(11, 13, SyntaxKind::IDENT, "$x"), imm(14, 15, SyntaxKind::INT, "1")]);
    assert_eq!(messages(&diags), vec![(range(14, 15), "unexpected immediate".to_string())]);

    let diags = plain_check("i32.const", vec![imm(11, 14, SyntaxKind::FLOAT, "1.5")]);
    assert_eq!(messages(&diags), vec![(range(11, 14), "expected integer".to_string())]);

    assert!(plain_check("f32.const", vec![imm(11, 12, SyntaxKind::INT, "1")]).is_empty());
    assert!(plain_check("i32.load", vec![]).is_empty());
    assert!(plain_check("memory.copy", vec![]).is_empty());
    let diags = plain_check("memory.copy", vec![imm(13, 14, SyntaxKind::INT, "0")]);
    assert_eq!(messages(&diags), vec![(range(1, 12), "missing identifier or unsigned integer".to_string())]);
}

#[test]
fn unknown_instruction_names() {
    let diags = plain_check("i32.plus", vec![imm(10, 11, SyntaxKind::INT, "1")]);
    assert_eq!(messages(&diags), vec![(range(1, 9), "unknown instruction `i32.plus`".to_string())]);

    let (_, name) = instr("i32.plus", vec![]);
    let d = unknown_instr::check(&name).unwrap();
    assert_eq!(d.code, "unknown-instr");
    assert_eq!(d.message, "unknown instruction `i32.plus`");
    let (_, name) = instr("nop", vec![]);
    assert!(unknown_instr::check(&name).is_none());
}

#[test]
fn lane_counts_of_vector_constants() {
    let diags = plain_check("i8x16.shuffle", vec![imm(15, 16, SyntaxKind::INT, "0"), imm(17, 18, SyntaxKind::INT, "1")]);
    assert_eq!(messages(&diags), vec![(range(0, 100), "expected 16 lane indices in `i8x16.shuffle`, found 2".to_string())]);

    let diags = plain_check(
        "v128.const",
        vec![imm(12, 17, SyntaxKind::SHAPE_DESCRIPTOR, "i32x4"), imm(18, 19, SyntaxKind::INT, "1"), imm(20, 23, SyntaxKind::FLOAT, "2.0")],
    );
    assert_eq!(
        messages(&diags),
        vec![
            (range(0, 100), "expected 4 integers in `v128.const`".to_string()),
            (range(20, 23), "expected integer".to_string()),
        ]
    );

    let diags = plain_check(
        "v128.const",
        vec![imm(12, 17, SyntaxKind::SHAPE_DESCRIPTOR, "f64x2"), imm(18, 19, SyntaxKind::INT, "1"), imm(20, 23, SyntaxKind::FLOAT, "2.0")],
    );
    assert!(diags.is_empty());
}

#[test]
fn select_and_branch_tables() {
    let diags = plain_check("select", vec![imm(8, 9, SyntaxKind::INT, "1")]);
    assert_eq!(messages(&diags), vec![(range(8, 9), "expected result type".to_string())]);

    let result = node(SyntaxKind::RESULT, 9, 21, vec![SyntaxElement::Node(node(SyntaxKind::OPERAND, 17, 20, vec![]))]);
    let type_use = node(SyntaxKind::TYPE_USE, 9, 21, vec![SyntaxElement::Node(result)]);
    let select_imm = SyntaxElement::Node(node(SyntaxKind::IMMEDIATE, 8, 22, vec![SyntaxElement::Node(type_use)]));
    assert!(plain_check("select", vec![select_imm]).is_empty());

    let diags = plain_check(
        "br_table",
        vec![imm(10, 11, SyntaxKind::INT, "0"), imm(12, 14, SyntaxKind::IDENT, "$l"), imm(15, 18, SyntaxKind::FLOAT, "1.0")],
    );
    assert_eq!(messages(&diags), vec![(range(15, 18), "expected identifier or unsigned integer".to_string())]);

    let diags = plain_check("resume", vec![imm(8, 9, SyntaxKind::INT, "0"), imm(10, 11, SyntaxKind::INT, "1")]);
    assert_eq!(messages(&diags), vec![(range(10, 11), "expected `on` handler clause".to_string())]);
}

#[test]
fn omitted_memory_and_table_indices() {
    let (n, _) = instr("i32.load", vec![]);
    let d = omitted_idx::check(LintLevel::Warn, &n).unwrap();
    assert_eq!(d.range, range(1, 9));
    assert_eq!(d.message, "explicit memory idx for `i32.load` is required");
    assert_eq!(d.severity, DiagnosticSeverity::Warning);
    assert_eq!(d.code, "omitted-idx-in-instr");

    let mem_arg = SyntaxElement::Node(node(SyntaxKind::IMMEDIATE, 10, 18, vec![SyntaxElement::Node(node(SyntaxKind::MEM_ARG, 10, 18, vec![]))]));
    let (n, _) = instr("i32.load", vec![mem_arg]);
    assert!(omitted_idx::check(LintLevel::Deny, &n).is_some());
    let (n, _) = instr("i32.load", vec![imm(10, 11, SyntaxKind::INT, "0")]);
    assert!(omitted_idx::check(LintLevel::Deny, &n).is_none());

    let (n, _) = instr("table.copy", vec![imm(12, 13, SyntaxKind::INT, "0")]);
    let d = omitted_idx::check(LintLevel::Hint, &n).unwrap();
    assert_eq!(d.message, "explicit table idx for `table.copy` is required");
    assert_eq!(d.severity, DiagnosticSeverity::Hint);
    assert!(omitted_idx::check(LintLevel::Allow, &n).is_none());
    let (n, _) = instr("nop", vec![]);
    assert!(omitted_idx::check(LintLevel::Deny, &n).is_none());
}

fn key(kind: SyntaxKind, start: u32, end: u32) -> SymbolKey {
    SymbolKey(SyntaxNodePtr { kind, range: range(start, end) })
}

fn catch_clause(start: u32, end: u32, index: Option<(u32, u32)>) -> SyntaxElement {
    let children = match index {
        Some((s, e)) => vec![SyntaxElement::Node(node(SyntaxKind::INDEX, s, e, vec![tok(SyntaxKind::IDENT, s, e, "$e")]))],
        None => vec![],
    };
    SyntaxElement::Node(node(SyntaxKind::CATCH, start, end, children))
}

#[test]
fn catch_clauses_that_are_never_taken() {
    let module = key(SyntaxKind::MODULE, 0, 200);
    let symbols = vec![
        Symbol { key: module, region: module, kind: SymbolKind::Module, idx: Idx { num: Some(0), name: None } },
        Symbol { key: key(SyntaxKind::MODULE_FIELD_TAG, 1, 10), region: module, kind: SymbolKind::TagDef, idx: Idx { num: Some(0), name: Some(InternIdent(0)) } },
        Symbol { key: key(SyntaxKind::INDEX, 30, 32), region: module, kind: SymbolKind::TagRef, idx: Idx { num: None, name: Some(InternIdent(0)) } },
        Symbol { key: key(SyntaxKind::INDEX, 50, 52), region: module, kind: SymbolKind::TagRef, idx: Idx { num: None, name: Some(InternIdent(0)) } },
    ];
    let table = SymbolTable::from_parts(symbols, vec![None, None, Some(1), Some(1)], vec![]).unwrap();
    let try_table = node(
        SyntaxKind::BLOCK_TRY_TABLE,
        11,
        100,
        vec![
            tok(SyntaxKind::KEYWORD, 12, 21, "try_table"),
            catch_clause(22, 40, Some((30, 32))),
            catch_clause(42, 60, Some((50, 52))),
            SyntaxElement::Node(node(SyntaxKind::CATCH_ALL, 61, 72, vec![])),
            SyntaxElement::Node(node(SyntaxKind::CATCH_ALL, 73, 84, vec![])),
        ],
    );
    let mut diags = vec![];
    useless_catch::check(&mut diags, LintLevel::Warn, &table, &try_table);
    assert_eq!(
        messages(&diags),
        vec![
            (range(42, 60), "this catch clause will never be matched".to_string()),
            (range(73, 84), "this catch clause will never be matched".to_string()),
        ]
    );
    let related = diags[0].related_information.as_ref().unwrap();
    assert_eq!(related[0].range, range(22, 40));
    assert_eq!(related[0].message, "catch clause already matched here");
    assert_eq!(diags[1].related_information.as_ref().unwrap()[0].range, range(61, 72));
    assert_eq!(diags[0].tags, Some(vec![DiagnosticTag::Unnecessary]));
    assert_eq!(diags[0].code, "useless-catch");

    let mut diags = vec![];
    useless_catch::check(&mut diags, LintLevel::Allow, &table, &try_table);
    assert!(diags.is_empty());
}

#[test]
fn imports_come_first_and_define_nothing() {
    let func = node(SyntaxKind::MODULE_FIELD_FUNC, 1, 10, vec![]);
    let imported = node(SyntaxKind::MODULE_FIELD_GLOBAL, 11, 40, vec![]);
    let import = node(SyntaxKind::MODULE_FIELD_IMPORT, 41, 60, vec![]);
    let module = node(
        SyntaxKind::MODULE,
        0,
        61,
        vec![SyntaxElement::Node(imported), SyntaxElement::Node(func), SyntaxElement::Node(import)],
    );
    let imports = vec![key(SyntaxKind::MODULE_FIELD_GLOBAL, 11, 40)];
    let mut diags = vec![];
    import_occur::check(&mut diags, &imports, &module);
    assert_eq!(messages(&diags), vec![(range(41, 60), "import must occur before all non-import definitions".to_string())]);
    assert_eq!(diags[0].code, "import-occurrence");

    let imports = vec![key(SyntaxKind::MODULE_FIELD_GLOBAL, 11, 40), key(SyntaxKind::MODULE_FIELD_FUNC, 1, 10)];
    let mut diags = vec![];
    import_occur::check(&mut diags, &imports, &module);
    assert!(diags.is_empty());

    let global = node(
        SyntaxKind::MODULE_FIELD_GLOBAL,
        11,
        40,
        vec![
            SyntaxElement::Node(node(SyntaxKind::IMPORT, 12, 20, vec![])),
            SyntaxElement::Node(node(SyntaxKind::GLOBAL_TYPE, 21, 24, vec![])),
            SyntaxElement::Node(node(SyntaxKind::PLAIN_INSTR, 25, 30, vec![])),
            SyntaxElement::Node(node(SyntaxKind::PLAIN_INSTR, 31, 38, vec![])),
        ],
    );
    let d = import_with_def::check(&imports, &global).unwrap();
    assert_eq!(d.range, range(25, 38));
    assert_eq!(d.message, "imported item can't contain definition");
    assert_eq!(d.code, "import-with-def");
    assert_eq!(d.related_information.unwrap()[0].range, range(12, 20));
    assert!(import_with_def::check(&vec![], &global).is_none());
}

fn named_instr(start: u32, end: u32, name: &str) -> SyntaxElement {
    SyntaxElement::Node(node(SyntaxKind::PLAIN_INSTR, start, end, vec![tok(SyntaxKind::INSTR_NAME, start + 1, start + 1 + name.len() as u32, name)]))
}

#[test]
fn global_initializers_must_be_constant() {
    let global = node(
        SyntaxKind::MODULE_FIELD_GLOBAL,
        0,
        100,
        vec![
            named_instr(10, 25, "i32.const"),
            named_instr(26, 40, "i32.add"),
            SyntaxElement::Node(node(SyntaxKind::BLOCK_BLOCK, 41, 60, vec![])),
            named_instr(61, 80, "global.get"),
        ],
    );
    let mut diags = vec![];
    global_expr::check(&mut diags, &global);
    assert_eq!(
        messages(&diags),
        vec![
            (range(26, 40), "expression must be constant in global".to_string()),
            (range(41, 60), "expression must be constant in global".to_string()),
        ]
    );
    assert_eq!(diags[0].code, "global-expr");
}

#[test]
fn only_one_memory() {
    let memory = |s, e| SyntaxElement::Node(node(SyntaxKind::MODULE_FIELD_MEMORY, s, e, vec![]));
    let module = node(SyntaxKind::MODULE, 0, 40, vec![memory(1, 10), memory(11, 20), memory(21, 30)]);
    let mut diags = vec![];
    check_multi_memories(&mut diags, LintLevel::Deny, &module);
    assert_eq!(
        messages(&diags),
        vec![(range(11, 20), "only one memory is allowed".to_string()), (range(21, 30), "only one memory is allowed".to_string())]
    );
    assert_eq!(diags[0].code, "multiple-memories");
}

fn cfa_plain(name: &str, start: u32, end: u32) -> Instr {
    Instr::Plain(PlainInstr {
        ptr: SyntaxNodePtr { kind: SyntaxKind::PLAIN_INSTR, range: range(start, end) },
        name: Some(name.to_string()),
        immediates: vec![],
        instrs: vec![],
    })
}

#[test]
fn unreachable_code_is_merged() {
    let func = node(
        SyntaxKind::MODULE_FIELD_FUNC,
        0,
        30,
        vec![named_instr(1, 12, "unreachable"), named_instr(13, 16, "nop"), named_instr(17, 21, "drop")],
    );
    let root = node(SyntaxKind::ROOT, 0, 30, vec![SyntaxElement::Node(func)]);
    let cfg = analyze(&vec![cfa_plain("unreachable", 1, 12), cfa_plain("nop", 13, 16), cfa_plain("drop", 17, 21)]);
    assert_eq!(wat_service::checker::unreachable::unreachable_code(&root, &cfg), vec![range(13, 21)]);
    let mut diags = vec![];
    wat_service::checker::unreachable::check(&mut diags, LintLevel::Hint, &root, &cfg);
    assert_eq!(messages(&diags), vec![(range(13, 21), "unreachable code".to_string())]);
    assert_eq!(diags[0].severity, DiagnosticSeverity::Hint);
    assert_eq!(diags[0].tags, Some(vec![DiagnosticTag::Unnecessary]));
    let mut diags = vec![];
    wat_service::checker::unreachable::check(&mut diags, LintLevel::Allow, &root, &cfg);
    assert!(diags.is_empty());
}
