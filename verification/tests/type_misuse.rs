use wat_service::binder::{key_list_from_vec, ModuleDefSymbols, Symbol, SymbolKey, SymbolKind, SymbolTable};
use wat_service::checker::type_misuse::{
    check, check_on_clause, CompositeKind, LabelAnswer, MisuseAnswers, OnClauseAnswers,
};
use wat_service::checker::def_type::{
    check_block_type, check_br_table_branches, check_catch_type, check_cont_type, check_elem_type,
    check_new_non_defaultable, check_packing, check_start, check_tag_type, DefaultAnswer,
};
use wat_service::checker::Diagnostic;
use wat_service::idx::{Idx, InternIdent};
use wat_service::syntax::{SyntaxElement, SyntaxKind, SyntaxNode, SyntaxNodePtr, SyntaxToken, TextRange};

fn range(start: u32, end: u32) -> TextRange {
    TextRange { start, end }
}

fn key(kind: SyntaxKind, start: u32, end: u32) -> SymbolKey {
    SymbolKey(SyntaxNodePtr { kind, range: range(start, end) })
}

fn module_key() -> SymbolKey {
    key(SyntaxKind::MODULE, 0, 200)
}

fn sym(k: SymbolKey, kind: SymbolKind, num: Option<u32>, name: Option<u32>) -> Symbol {
    Symbol { key: k, region: module_key(), kind, idx: Idx { num, name: name.map(InternIdent) } }
}

fn tok(kind: SyntaxKind, start: u32, text: &str) -> SyntaxElement {
    SyntaxElement::Token(SyntaxToken { kind, range: range(start, start + text.len() as u32), text: text.to_string() })
}

fn node(kind: SyntaxKind, start: u32, end: u32, children: Vec<SyntaxElement>) -> SyntaxNode {
    SyntaxNode { kind, range: range(start, end), children }
}

fn empty_defs() -> ModuleDefSymbols {
    ModuleDefSymbols {
        funcs: vec![],
        types: vec![],
        globals: vec![],
        memories: key_list_from_vec(vec![]),
        tables: key_list_from_vec(vec![]),
        tags: vec![],
        datas: vec![],
        elems: vec![],
    }
}

fn idents() -> Vec<String> {
    vec!["$a".to_string(), "$e".to_string(), "$l".to_string()]
}

fn related(d: &Diagnostic) -> Vec<(TextRange, String)> {
    d.related_information.as_ref().map(|r| r.iter().map(|x| (x.range, x.message.clone())).collect()).unwrap_or_default()
}

fn no_answers() -> MisuseAnswers {
    MisuseAnswers { storage_matches: None, elem_matches: None, table_matches: None }
}

fn typed_table() -> SymbolTable {
    let module = sym(module_key(), SymbolKind::Module, Some(0), None);
    let ty = sym(key(SyntaxKind::TYPE_DEF, 10, 30), SymbolKind::Type, Some(0), Some(0));
    let use_ty = sym(key(SyntaxKind::IMMEDIATE, 50, 52), SymbolKind::TypeUse, None, Some(0));
    SymbolTable::from_parts(vec![module, ty, use_ty], vec![None, None, Some(1)], vec![(module_key(), empty_defs())])
        .unwrap()
}

fn struct_get() -> SyntaxNode {
    node(
        SyntaxKind::PLAIN_INSTR,
        40,
        60,
        vec![
            tok(SyntaxKind::INSTR_NAME, 40, "struct.get"),
            SyntaxElement::Node(node(SyntaxKind::IMMEDIATE, 50, 52, vec![tok(SyntaxKind::IDENT, 50, "$a")])),
            SyntaxElement::Node(node(SyntaxKind::IMMEDIATE, 53, 54, vec![tok(SyntaxKind::INT, 53, "0")])),
        ],
    )
}

#[test]
fn struct_instruction_on_an_array_type_is_misuse() {
    let table = typed_table();
    let kinds = vec![(key(SyntaxKind::TYPE_DEF, 10, 30), CompositeKind::Array)];
    let mut diags = vec![];
    check(&mut diags, &table, &kinds, &idents(), &struct_get(), "struct.get", &no_answers());
    assert_eq!(diags.len(), 1);
    assert_eq!(diags[0].range, range(50, 52));
    assert_eq!(diags[0].code, "type-misuse");
    assert_eq!(diags[0].message, "expected type is struct, but type of `$a` is array");
    assert_eq!(related(&diags[0]), vec![(range(10, 30), "array type defined here".to_string())]);
}

#[test]
fn struct_instruction_on_a_struct_type_is_fine() {
    let table = typed_table();
    let kinds = vec![(key(SyntaxKind::TYPE_DEF, 10, 30), CompositeKind::Struct)];
    let mut diags = vec![];
    check(&mut diags, &table, &kinds, &idents(), &struct_get(), "struct.get", &no_answers());
    assert!(diags.is_empty());
}

#[test]
fn call_ref_needs_a_func_type() {
    let table = typed_table();
    let kinds = vec![(key(SyntaxKind::TYPE_DEF, 10, 30), CompositeKind::Cont)];
    let mut diags = vec![];
    let instr = node(
        SyntaxKind::PLAIN_INSTR,
        40,
        60,
        vec![
            tok(SyntaxKind::INSTR_NAME, 40, "call_ref"),
            SyntaxElement::Node(node(SyntaxKind::IMMEDIATE, 50, 52, vec![tok(SyntaxKind::IDENT, 50, "$a")])),
        ],
    );
    check(&mut diags, &table, &kinds, &idents(), &instr, "call_ref", &no_answers());
    assert_eq!(diags.len(), 1);
    assert_eq!(diags[0].message, "expected type is func, but type of `$a` is cont");
    assert_eq!(CompositeKind::Cont.text(), "cont");
}

fn clause_table() -> SymbolTable {
    let module = sym(module_key(), SymbolKind::Module, Some(0), None);
    let tag = sym(key(SyntaxKind::MODULE_FIELD_TAG, 40, 50), SymbolKind::TagDef, Some(0), Some(1));
    let block = sym(key(SyntaxKind::BLOCK_BLOCK, 90, 150), SymbolKind::BlockDef, None, Some(2));
    let tag_ref = sym(key(SyntaxKind::INDEX, 105, 107), SymbolKind::TagRef, None, Some(1));
    let label_ref = sym(key(SyntaxKind::INDEX, 108, 110), SymbolKind::BlockRef, None, Some(2));
    SymbolTable::from_parts(
        vec![module, tag, block, tag_ref, label_ref],
        vec![None, None, None, Some(1), Some(2)],
        vec![(module_key(), empty_defs())],
    )
    .unwrap()
}

fn root() -> SyntaxNode {
    node(
        SyntaxKind::MODULE,
        0,
        200,
        vec![SyntaxElement::Node(node(
            SyntaxKind::BLOCK_BLOCK,
            90,
            150,
            vec![
                tok(SyntaxKind::KEYWORD, 91, "block"),
                SyntaxElement::Node(node(SyntaxKind::TYPE_USE, 96, 99, vec![])),
            ],
        ))],
    )
}

fn immediate(with_label: bool) -> SyntaxNode {
    let mut clause = vec![tok(SyntaxKind::KEYWORD, 101, "on")];
    clause.push(SyntaxElement::Node(node(SyntaxKind::INDEX, 105, 107, vec![tok(SyntaxKind::IDENT, 105, "$e")])));
    if with_label {
        clause.push(SyntaxElement::Node(node(SyntaxKind::INDEX, 108, 110, vec![tok(SyntaxKind::IDENT, 108, "$l")])));
    } else {
        clause.push(tok(SyntaxKind::MODIFIER_KEYWORD, 108, "switch"));
    }
    node(SyntaxKind::IMMEDIATE, 100, 130, vec![SyntaxElement::Node(node(SyntaxKind::ON_CLAUSE, 100, 130, clause))])
}

#[test]
fn label_without_continuation_result_is_reported() {
    let answers = OnClauseAnswers { tag_params_empty: true, label: LabelAnswer::NotCont };
    let d = check_on_clause(&clause_table(), &root(), &idents(), &immediate(true), &answers).unwrap();
    assert_eq!(d.range, range(108, 110));
    assert_eq!(d.code, "type-misuse");
    assert_eq!(d.message, "last result type of label `$l` must be continuation reference type");
    assert_eq!(related(&d), vec![(range(96, 99), "type of label `$l` declared here".to_string())]);
}

#[test]
fn tag_params_must_match_label_results() {
    let label = LabelAnswer::Cont {
        def_range: range(20, 30),
        idx_text: "$ct".to_string(),
        params_match: false,
        results_match: Some(true),
    };
    let answers = OnClauseAnswers { tag_params_empty: false, label };
    let d = check_on_clause(&clause_table(), &root(), &idents(), &immediate(true), &answers).unwrap();
    assert_eq!(d.message, "param types of tag `$e` must match result types of label `$l`");
    assert_eq!(
        related(&d),
        vec![
            (range(40, 50), "tag `$e` defined here".to_string()),
            (range(96, 99), "type of label `$l` defined here".to_string()),
        ]
    );
}

#[test]
fn tag_results_must_match_continuation_results() {
    let label = LabelAnswer::Cont {
        def_range: range(20, 30),
        idx_text: "$ct".to_string(),
        params_match: true,
        results_match: Some(false),
    };
    let answers = OnClauseAnswers { tag_params_empty: false, label };
    let d = check_on_clause(&clause_table(), &root(), &idents(), &immediate(true), &answers).unwrap();
    assert_eq!(d.range, range(108, 110));
    assert_eq!(d.message, "result types of tag `$e` must match result types of cont type `$ct`");
    assert_eq!(
        related(&d),
        vec![
            (range(40, 50), "tag `$e` defined here".to_string()),
            (range(20, 30), "cont type `$ct` defined here".to_string()),
        ]
    );
}

#[test]
fn matching_clause_and_unknown_types_are_quiet() {
    let fine = LabelAnswer::Cont {
        def_range: range(20, 30),
        idx_text: "$ct".to_string(),
        params_match: true,
        results_match: Some(true),
    };
    let answers = OnClauseAnswers { tag_params_empty: false, label: fine };
    assert!(check_on_clause(&clause_table(), &root(), &idents(), &immediate(true), &answers).is_none());
    let answers = OnClauseAnswers { tag_params_empty: false, label: LabelAnswer::Unknown };
    assert!(check_on_clause(&clause_table(), &root(), &idents(), &immediate(true), &answers).is_none());
    let no_clause = node(SyntaxKind::IMMEDIATE, 100, 130, vec![]);
    assert!(check_on_clause(&clause_table(), &root(), &idents(), &no_clause, &answers).is_none());
}

#[test]
fn switch_tag_must_take_no_params() {
    let answers = OnClauseAnswers { tag_params_empty: false, label: LabelAnswer::Unknown };
    let d = check_on_clause(&clause_table(), &root(), &idents(), &immediate(false), &answers).unwrap();
    assert_eq!(d.range, range(105, 107));
    assert_eq!(d.message, "param types of tag `$e` must be empty");
    assert_eq!(related(&d), vec![(range(40, 50), "tag `$e` defined here".to_string())]);
    let answers = OnClauseAnswers { tag_params_empty: true, label: LabelAnswer::Unknown };
    assert!(check_on_clause(&clause_table(), &root(), &idents(), &immediate(false), &answers).is_none());
}

fn uses_type_at(start: u32) -> SyntaxElement {
    SyntaxElement::Node(node(
        SyntaxKind::TYPE_USE,
        start - 2,
        start + 4,
        vec![SyntaxElement::Node(node(SyntaxKind::INDEX, start, start + 2, vec![tok(SyntaxKind::IDENT, start, "$a")]))],
    ))
}

fn index_table() -> SymbolTable {
    let module = sym(module_key(), SymbolKind::Module, Some(0), None);
    let ty = sym(key(SyntaxKind::TYPE_DEF, 10, 30), SymbolKind::Type, Some(0), Some(0));
    let use_ty = sym(key(SyntaxKind::INDEX, 50, 52), SymbolKind::TypeUse, None, Some(0));
    SymbolTable::from_parts(vec![module, ty, use_ty], vec![None, None, Some(1)], vec![(module_key(), empty_defs())])
        .unwrap()
}

#[test]
fn block_and_tag_types_must_be_function_types() {
    let table = index_table();
    let kinds = vec![(key(SyntaxKind::TYPE_DEF, 10, 30), CompositeKind::Struct)];
    let block = node(SyntaxKind::BLOCK_BLOCK, 40, 60, vec![tok(SyntaxKind::KEYWORD, 41, "block"), uses_type_at(50)]);
    let d = check_block_type(&table, &kinds, &block).unwrap();
    assert_eq!(d.range, range(50, 52));
    assert_eq!(d.code, "block-type");
    assert_eq!(d.message, "block type must be function type");
    let funcs = vec![(key(SyntaxKind::TYPE_DEF, 10, 30), CompositeKind::Func)];
    assert!(check_block_type(&table, &funcs, &block).is_none());

    let tag = node(SyntaxKind::MODULE_FIELD_TAG, 40, 60, vec![tok(SyntaxKind::KEYWORD, 41, "tag"), uses_type_at(50)]);
    let mut diags = vec![];
    check_tag_type(&mut diags, &table, &kinds, &tag, false);
    let got: Vec<(TextRange, String)> = diags.iter().map(|d| (d.range, d.message.clone())).collect();
    assert_eq!(
        got,
        vec![
            (range(50, 52), "tag type must be function type".to_string()),
            (range(48, 54), "tag type's result type must be empty".to_string()),
        ]
    );
    let mut diags = vec![];
    check_tag_type(&mut diags, &table, &funcs, &tag, true);
    assert!(diags.is_empty());
}

#[test]
fn continuation_type_must_name_a_function_type() {
    let table = index_table();
    let kinds = vec![(key(SyntaxKind::TYPE_DEF, 10, 30), CompositeKind::Array)];
    let cont = node(
        SyntaxKind::CONT_TYPE,
        44,
        60,
        vec![
            tok(SyntaxKind::KEYWORD, 45, "cont"),
            SyntaxElement::Node(node(SyntaxKind::INDEX, 50, 52, vec![tok(SyntaxKind::IDENT, 50, "$a")])),
        ],
    );
    let d = check_cont_type(&table, &kinds, &idents(), &cont).unwrap();
    assert_eq!(d.code, "cont-type");
    assert_eq!(d.message, "type `$a` must be a function type");
    assert_eq!(related(&d), vec![(range(10, 30), "type `$a` defined here".to_string())]);
    assert!(check_cont_type(&table, &vec![], &idents(), &cont).is_none());
}

#[test]
fn start_function_takes_and_gives_nothing() {
    let module = sym(module_key(), SymbolKind::Module, Some(0), None);
    let func = sym(key(SyntaxKind::MODULE_FIELD_FUNC, 10, 30), SymbolKind::Func, Some(0), Some(0));
    let call = sym(key(SyntaxKind::INDEX, 50, 52), SymbolKind::Call, None, Some(0));
    let table =
        SymbolTable::from_parts(vec![module, func, call], vec![None, None, Some(1)], vec![(module_key(), empty_defs())])
            .unwrap();
    let start = node(
        SyntaxKind::MODULE_FIELD_START,
        40,
        60,
        vec![
            tok(SyntaxKind::KEYWORD, 41, "start"),
            SyntaxElement::Node(node(SyntaxKind::INDEX, 50, 52, vec![tok(SyntaxKind::IDENT, 50, "$a")])),
        ],
    );
    let d = check_start(&table, &start, false).unwrap();
    assert_eq!(d.range, range(50, 52));
    assert_eq!(d.code, "start");
    assert_eq!(d.message, "start function must be type of [] -> []");
    assert!(check_start(&table, &start, true).is_none());
}

#[test]
fn element_ref_type_must_match_the_table() {
    let module = sym(module_key(), SymbolKind::Module, Some(0), None);
    let t = sym(key(SyntaxKind::MODULE_FIELD_TABLE, 10, 30), SymbolKind::TableDef, Some(0), Some(0));
    let use_t = sym(key(SyntaxKind::INDEX, 50, 52), SymbolKind::TableRef, None, Some(0));
    let table =
        SymbolTable::from_parts(vec![module, t, use_t], vec![None, None, Some(1)], vec![(module_key(), empty_defs())])
            .unwrap();
    let elem = node(
        SyntaxKind::MODULE_FIELD_ELEM,
        40,
        90,
        vec![
            SyntaxElement::Node(node(
                SyntaxKind::TABLE_USE,
                45,
                53,
                vec![SyntaxElement::Node(node(SyntaxKind::INDEX, 50, 52, vec![tok(SyntaxKind::IDENT, 50, "$a")]))],
            )),
            SyntaxElement::Node(node(
                SyntaxKind::ELEM_LIST,
                60,
                80,
                vec![SyntaxElement::Node(node(SyntaxKind::REF_TYPE, 60, 67, vec![tok(SyntaxKind::KEYWORD, 60, "externref")]))],
            )),
        ],
    );
    let types = Some(("funcref".to_string(), "externref".to_string(), false));
    let d = check_elem_type(&table, &idents(), &elem, &types).unwrap();
    assert_eq!(d.range, range(60, 67));
    assert_eq!(d.code, "elem-type");
    assert_eq!(d.message, "ref type `externref` doesn't match ref type `funcref` of table `$a`");
    let fine = Some(("funcref".to_string(), "funcref".to_string(), true));
    assert!(check_elem_type(&table, &idents(), &elem, &fine).is_none());
    assert!(check_elem_type(&table, &idents(), &elem, &None).is_none());
}

#[test]
fn br_table_branches_must_agree() {
    let instr = node(
        SyntaxKind::PLAIN_INSTR,
        0,
        30,
        vec![
            tok(SyntaxKind::INSTR_NAME, 0, "br_table"),
            SyntaxElement::Node(node(SyntaxKind::IMMEDIATE, 9, 11, vec![tok(SyntaxKind::IDENT, 9, "$a")])),
            SyntaxElement::Node(node(SyntaxKind::IMMEDIATE, 12, 14, vec![tok(SyntaxKind::IDENT, 12, "$b")])),
            SyntaxElement::Node(node(SyntaxKind::IMMEDIATE, 15, 17, vec![tok(SyntaxKind::IDENT, 15, "$c")])),
        ],
    );
    let i32s = Some((vec!["i32".to_string()], "[i32]".to_string()));
    let i64s = Some((vec!["i64".to_string()], "[i64]".to_string()));
    let branches = vec![i32s.clone(), i64s, i32s];
    let mut diags = vec![];
    check_br_table_branches(&mut diags, &instr, "br_table", &branches);
    assert_eq!(diags.len(), 1);
    assert_eq!(diags[0].range, range(12, 14));
    assert_eq!(diags[0].code, "br-table-branches");
    assert_eq!(diags[0].message, "type mismatch in `br_table`: expected [i32], found [i64]");
    let mut diags = vec![];
    check_br_table_branches(&mut diags, &instr, "br_if", &branches);
    assert!(diags.is_empty());
}

#[test]
fn new_default_needs_defaultable_fields() {
    let module = sym(module_key(), SymbolKind::Module, Some(0), None);
    let ty_key = key(SyntaxKind::TYPE_DEF, 10, 40);
    let ty = sym(ty_key, SymbolKind::Type, Some(0), Some(0));
    let field = Symbol {
        key: key(SyntaxKind::FIELD, 20, 30),
        region: ty_key,
        kind: SymbolKind::FieldDef,
        idx: Idx { num: Some(1), name: Some(InternIdent(1)) },
    };
    let use_ty = sym(key(SyntaxKind::IMMEDIATE, 70, 72), SymbolKind::TypeUse, None, Some(0));
    let table = SymbolTable::from_parts(
        vec![module, ty, field, use_ty],
        vec![None, None, None, Some(1)],
        vec![(module_key(), empty_defs())],
    )
    .unwrap();
    let instr = node(
        SyntaxKind::PLAIN_INSTR,
        50,
        80,
        vec![
            tok(SyntaxKind::INSTR_NAME, 50, "struct.new_default"),
            SyntaxElement::Node(node(SyntaxKind::IMMEDIATE, 70, 72, vec![tok(SyntaxKind::IDENT, 70, "$a")])),
        ],
    );
    let answer = DefaultAnswer::Struct(vec![Idx { num: Some(1), name: Some(InternIdent(1)) }]);
    let d = check_new_non_defaultable(&table, &idents(), &instr, "struct.new_default", &answer).unwrap();
    assert_eq!(d.range, range(70, 72));
    assert_eq!(d.code, "new-non-defaultable");
    assert_eq!(d.message, "struct type `$a` is not defaultable");
    assert_eq!(related(&d), vec![(range(20, 30), "field type `$e` is not defaultable".to_string())]);
    assert!(check_new_non_defaultable(&table, &idents(), &instr, "struct.new", &answer).is_none());
    assert!(check_new_non_defaultable(&table, &idents(), &instr, "struct.new_default", &DefaultAnswer::Struct(vec![]))
        .is_none());
    let d = check_new_non_defaultable(&table, &idents(), &instr, "array.new_default", &DefaultAnswer::Array(true)).unwrap();
    assert_eq!(d.message, "array type `$a` is not defaultable");
    assert!(d.related_information.is_none());
}

#[test]
fn catch_clause_must_fit_its_label() {
    let module = sym(module_key(), SymbolKind::Module, Some(0), None);
    let tag = sym(key(SyntaxKind::MODULE_FIELD_TAG, 10, 20), SymbolKind::TagDef, Some(0), Some(1));
    let block = sym(key(SyntaxKind::BLOCK_TRY_TABLE, 30, 90), SymbolKind::BlockDef, None, Some(2));
    let tag_ref = sym(key(SyntaxKind::INDEX, 50, 52), SymbolKind::TagRef, None, Some(1));
    let label_ref = sym(key(SyntaxKind::INDEX, 53, 55), SymbolKind::BlockRef, None, Some(2));
    let all_ref = sym(key(SyntaxKind::INDEX, 70, 72), SymbolKind::BlockRef, None, Some(2));
    let table = SymbolTable::from_parts(
        vec![module, tag, block, tag_ref, label_ref, all_ref],
        vec![None, None, None, Some(1), Some(2), Some(2)],
        vec![(module_key(), empty_defs())],
    )
    .unwrap();
    let catch = node(
        SyntaxKind::CATCH,
        40,
        60,
        vec![
            tok(SyntaxKind::KEYWORD, 41, "catch_ref"),
            SyntaxElement::Node(node(SyntaxKind::INDEX, 50, 52, vec![tok(SyntaxKind::IDENT, 50, "$e")])),
            SyntaxElement::Node(node(SyntaxKind::INDEX, 53, 55, vec![tok(SyntaxKind::IDENT, 53, "$l")])),
        ],
    );
    let params = vec!["i32".to_string(), "i64".to_string()];
    let d = check_catch_type(&table, &idents(), &catch, &params, "(ref exn)", false).unwrap();
    assert_eq!(d.range, range(53, 55));
    assert_eq!(d.code, "catch-type");
    assert_eq!(d.message, "result type [i32, i64, (ref exn)] should match result type of block `$l`");
    assert!(check_catch_type(&table, &idents(), &catch, &params, "(ref exn)", true).is_none());
    let catch_all = node(
        SyntaxKind::CATCH_ALL,
        62,
        75,
        vec![
            tok(SyntaxKind::KEYWORD, 63, "catch_all"),
            SyntaxElement::Node(node(SyntaxKind::INDEX, 70, 72, vec![tok(SyntaxKind::IDENT, 70, "$l")])),
        ],
    );
    let d = check_catch_type(&table, &idents(), &catch_all, &vec![], "(ref exn)", false).unwrap();
    assert_eq!(d.message, "result type [] should match result type of block `$l`");
}

#[test]
fn gets_must_fit_the_packing() {
    let module = sym(module_key(), SymbolKind::Module, Some(0), None);
    let ty = sym(key(SyntaxKind::TYPE_DEF, 10, 30), SymbolKind::Type, Some(0), Some(0));
    let use_ty = sym(key(SyntaxKind::IMMEDIATE, 50, 52), SymbolKind::TypeUse, None, Some(0));
    let field_ref = sym(key(SyntaxKind::IMMEDIATE, 53, 55), SymbolKind::FieldRef, None, Some(1));
    let table = SymbolTable::from_parts(
        vec![module, ty, use_ty, field_ref],
        vec![None, None, Some(1), None],
        vec![(module_key(), empty_defs())],
    )
    .unwrap();
    let get = |name: &str| {
        node(
            SyntaxKind::PLAIN_INSTR,
            39,
            60,
            vec![
                tok(SyntaxKind::INSTR_NAME, 39, name),
                SyntaxElement::Node(node(SyntaxKind::IMMEDIATE, 50, 52, vec![tok(SyntaxKind::IDENT, 50, "$a")])),
                SyntaxElement::Node(node(SyntaxKind::IMMEDIATE, 53, 55, vec![tok(SyntaxKind::IDENT, 53, "$e")])),
            ],
        )
    };
    let d = check_packing(&table, &idents(), &get("struct.get"), "struct.get", Some(true)).unwrap();
    assert_eq!(d.range, range(53, 55));
    assert_eq!(d.code, "packing");
    assert_eq!(d.message, "field `$e` is packed");
    assert_eq!(related(&d), vec![(range(39, 49), "use `struct.get_s` or `struct.get_u` instead".to_string())]);
    assert!(check_packing(&table, &idents(), &get("struct.get"), "struct.get", Some(false)).is_none());
    let d = check_packing(&table, &idents(), &get("struct.get_s"), "struct.get_s", Some(false)).unwrap();
    assert_eq!(d.message, "field `$e` is unpacked");
    let d = check_packing(&table, &idents(), &get("array.get_u"), "array.get_u", Some(false)).unwrap();
    assert_eq!(d.range, range(50, 52));
    assert_eq!(d.message, "array `$a` is unpacked");
    assert_eq!(related(&d), vec![(range(39, 50), "use `array.get` instead".to_string())]);
    assert!(check_packing(&table, &idents(), &get("array.get"), "array.get", None).is_none());
}
