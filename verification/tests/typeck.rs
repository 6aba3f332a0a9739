use wat_service::checker::typeck::{
    check_elem_list, check_func, check_global, check_offset, check_table, type_stack_check, type_stack_check_to_bottom,
    typeck_instr, CheckAnswer, InstrTypes, ReportRange, TypeStack,
};
use wat_service::binder::SymbolKey;
use wat_service::syntax::SyntaxNodePtr;
use wat_service::checker::DiagnosticSeverity;
use wat_service::syntax::{SyntaxElement, SyntaxKind, SyntaxNode, SyntaxToken, TextRange};

fn range(start: u32, end: u32) -> TextRange {
    TextRange { start, end }
}

fn names(v: &[&str]) -> Vec<String> {
    v.iter().map(|s| s.to_string()).collect()
}

#[test]
fn matching_operands_are_taken_off() {
    let mut stack = vec!["i32", "i64", "f32"];
    let mut producers = vec![Some(range(0, 1)), Some(range(2, 3)), None];
    let r = type_stack_check(
        &mut stack,
        &mut producers,
        false,
        &names(&["i64", "f32"]),
        &names(&["i32", "i64", "f32"]),
        &vec![true, true],
        "[i64, f32]",
        "[... i64, f32]",
        range(10, 20),
    );
    assert!(r.is_none());
    assert_eq!(stack, vec!["i32"]);
    assert_eq!(producers, vec![Some(range(0, 1))]);
}

#[test]
fn mismatches_are_reported_top_down() {
    let mut stack = vec!["i32", "i64", "f32"];
    let mut producers = vec![Some(range(0, 1)), Some(range(2, 3)), Some(range(4, 5))];
    let d = type_stack_check(
        &mut stack,
        &mut producers,
        false,
        &names(&["i32", "i32", "i32"]),
        &names(&["i32", "i64", "f32"]),
        &vec![false, false, true],
        "[i32, i32, i32]",
        "[i32, i64, f32]",
        range(10, 20),
    )
    .unwrap();
    assert!(stack.is_empty());
    assert!(producers.is_empty());
    assert_eq!(d.range, range(10, 20));
    assert_eq!(d.code, "type-check");
    assert_eq!(d.severity, DiagnosticSeverity::Error);
    assert_eq!(d.message, "expected types [i32, i32, i32], found [i32, i64, f32]");
    let related: Vec<(TextRange, String)> =
        d.related_information.unwrap().iter().map(|r| (r.range, r.message.clone())).collect();
    assert_eq!(
        related,
        vec![
            (range(4, 5), "expected type `i32`, found `f32`".to_string()),
            (range(2, 3), "expected type `i32`, found `i64`".to_string()),
        ]
    );
}

#[test]
fn too_few_operands_fail_unless_the_stack_never_ends() {
    let mut stack = vec!["i32"];
    let mut producers = vec![None];
    let d = type_stack_check(
        &mut stack,
        &mut producers,
        false,
        &names(&["i32", "i32"]),
        &names(&["i32"]),
        &vec![true],
        "[i32, i32]",
        "[i32]",
        range(1, 2),
    );
    assert!(d.unwrap().related_information.is_none());
    assert!(stack.is_empty());

    let mut stack = vec!["i32"];
    let mut producers = vec![None];
    let d = type_stack_check(
        &mut stack,
        &mut producers,
        true,
        &names(&["i32", "i32"]),
        &names(&["i32"]),
        &vec![true],
        "[i32, i32]",
        "[i32]",
        range(1, 2),
    );
    assert!(d.is_none());
}

#[test]
fn the_whole_stack_must_fit_at_the_end() {
    let stack = vec!["i32", "i32"];
    let producers = vec![None, Some(range(3, 4))];
    let d = type_stack_check_to_bottom(
        &stack,
        &producers,
        false,
        &names(&["i32"]),
        &names(&["i32", "i32"]),
        &vec![true],
        "[i32]",
        "[i32, i32]",
        range(7, 8),
        true,
        true,
    )
    .unwrap();
    assert_eq!(d.message, "expected types [i32], found [i32, i32] at the end");
    assert!(d.related_information.is_none());
    assert!(d.data.is_none());
    assert_eq!(stack.len(), 2);

    let d = type_stack_check_to_bottom(
        &stack,
        &producers,
        false,
        &names(&["i32", "i32"]),
        &names(&["i32", "i32"]),
        &vec![true, true],
        "[i32, i32]",
        "[i32, i32]",
        range(7, 8),
        false,
        true,
    );
    assert!(d.is_none());

    let d = type_stack_check_to_bottom(
        &stack,
        &producers,
        false,
        &names(&["i32", "f32"]),
        &names(&["i32", "i32"]),
        &vec![false, true],
        "[i32, f32]",
        "[i32, i32]",
        range(7, 8),
        false,
        true,
    )
    .unwrap();
    assert_eq!(d.message, "expected types [i32, f32], found [i32, i32]");
    assert_eq!(d.related_information.unwrap()[0].message, "expected type `f32`, found `i32`");
}

#[test]
fn report_ranges_pick_the_right_part() {
    let block = SyntaxNode {
        kind: SyntaxKind::BLOCK_BLOCK,
        range: range(0, 40),
        children: vec![
            SyntaxElement::Token(SyntaxToken { kind: SyntaxKind::KEYWORD, range: range(1, 6), text: "block".into() }),
            SyntaxElement::Node(SyntaxNode { kind: SyntaxKind::TYPE_USE, range: range(7, 20), children: vec![] }),
            SyntaxElement::Token(SyntaxToken { kind: SyntaxKind::R_PAREN, range: range(39, 40), text: ")".into() }),
        ],
    };
    assert_eq!(ReportRange::Instr.pick(&block), range(7, 20));
    assert_eq!(ReportRange::Keyword.pick(&block), range(1, 6));
    assert_eq!(ReportRange::Last.pick(&block), range(39, 40));
    let plain = SyntaxNode { kind: SyntaxKind::PLAIN_INSTR, range: range(50, 60), children: vec![] };
    assert_eq!(ReportRange::Instr.pick(&plain), range(50, 60));
    assert_eq!(ReportRange::Keyword.pick(&plain), range(50, 60));
    assert_eq!(ReportRange::Last.pick(&plain), range(50, 60));
}

fn tok(kind: SyntaxKind, start: u32, text: &str) -> SyntaxElement {
    SyntaxElement::Token(SyntaxToken { kind, range: range(start, start + text.len() as u32), text: text.to_string() })
}

fn node(kind: SyntaxKind, start: u32, end: u32, children: Vec<SyntaxElement>) -> SyntaxElement {
    SyntaxElement::Node(SyntaxNode { kind, range: range(start, end), children })
}

fn plain(start: u32, end: u32, name: &str) -> SyntaxElement {
    node(SyntaxKind::PLAIN_INSTR, start, end, vec![tok(SyntaxKind::INSTR_NAME, start, name)])
}

fn answer(matched: &[bool], expected: &str, found: &str) -> CheckAnswer {
    CheckAnswer {
        matched: matched.to_vec(),
        expected_text: expected.to_string(),
        found_text: found.to_string(),
        all_known: true,
    }
}

fn instr_types(params: &[&str], results: &[&str], polymorphic: bool, checks: Vec<CheckAnswer>) -> InstrTypes {
    InstrTypes { params: names(params), results: names(results), polymorphic, checks }
}

fn as_node(e: SyntaxElement) -> SyntaxNode {
    match e {
        SyntaxElement::Node(n) => n,
        SyntaxElement::Token(_) => panic!("not a node"),
    }
}

#[test]
fn extra_operand_at_the_end_of_a_function_is_reported() {
    let func = as_node(node(
        SyntaxKind::MODULE_FIELD_FUNC,
        0,
        40,
        vec![tok(SyntaxKind::KEYWORD, 1, "func"), plain(10, 20, "i32.const"), plain(21, 30, "i64.const")],
    ));
    let answers = vec![
        instr_types(&[], &["i32"], false, vec![answer(&[], "[]", "[]")]),
        instr_types(&[], &["i64"], false, vec![answer(&[], "[]", "[]")]),
    ];
    let mut diags = vec![];
    check_func(&mut diags, &func, &vec![], &names(&["i32"]), &answers, &answer(&[false], "[i32]", "[i32, i64]"));
    assert_eq!(diags.len(), 1);
    assert_eq!(diags[0].range, range(21, 30));
    assert_eq!(diags[0].code, "type-check");
    assert_eq!(diags[0].message, "expected types [i32], found [i32, i64] at the end");
    let related: Vec<(TextRange, String)> =
        diags[0].related_information.as_ref().unwrap().iter().map(|r| (r.range, r.message.clone())).collect();
    assert_eq!(related, vec![(range(21, 30), "expected type `i32`, found `i64`".to_string())]);
}

#[test]
fn if_without_else_must_give_its_results_from_its_params() {
    let block_if = node(
        SyntaxKind::BLOCK_IF,
        10,
        60,
        vec![
            tok(SyntaxKind::KEYWORD, 11, "if"),
            plain(14, 24, "i32.const"),
            node(SyntaxKind::BLOCK_IF_THEN, 25, 50, vec![tok(SyntaxKind::KEYWORD, 26, "then"), plain(31, 41, "i32.const")]),
        ],
    );
    let func = as_node(node(SyntaxKind::MODULE_FIELD_FUNC, 0, 70, vec![tok(SyntaxKind::KEYWORD, 1, "func"), block_if]));
    let answers = vec![
        instr_types(&[], &["i32"], false, vec![answer(&[], "[]", "[]")]),
        instr_types(
            &[],
            &["i32"],
            false,
            vec![
                answer(&[true], "[i32]", "[i32]"),
                answer(&[], "[]", "[]"),
                answer(&[true], "[i32]", "[i32]"),
                answer(&[], "[i32]", "[]"),
            ],
        ),
        instr_types(&[], &["i32"], false, vec![answer(&[], "[]", "[]")]),
    ];
    let mut diags = vec![];
    check_func(&mut diags, &func, &vec![], &names(&["i32"]), &answers, &answer(&[true], "[i32]", "[i32]"));
    assert_eq!(diags.len(), 1);
    assert_eq!(diags[0].range, range(10, 60));
    assert_eq!(diags[0].message, "missing `else` branch with expected types [i32]");
    assert!(diags[0].related_information.is_none());
}

#[test]
fn if_condition_mismatch_names_the_condition() {
    let block_if = node(
        SyntaxKind::BLOCK_IF,
        10,
        60,
        vec![
            tok(SyntaxKind::KEYWORD, 11, "if"),
            plain(14, 24, "i64.const"),
            node(SyntaxKind::BLOCK_IF_THEN, 25, 50, vec![tok(SyntaxKind::KEYWORD, 26, "then")]),
            node(SyntaxKind::BLOCK_IF_ELSE, 51, 58, vec![tok(SyntaxKind::KEYWORD, 52, "else")]),
        ],
    );
    let func = as_node(node(SyntaxKind::MODULE_FIELD_FUNC, 0, 70, vec![block_if]));
    let answers = vec![
        instr_types(&[], &["i64"], false, vec![answer(&[], "[]", "[]")]),
        instr_types(
            &[],
            &[],
            false,
            vec![answer(&[false], "[i32]", "[i64]"), answer(&[], "[]", "[]"), answer(&[], "[]", "[]"), answer(&[], "[]", "[]")],
        ),
    ];
    let mut diags = vec![];
    check_func(&mut diags, &func, &vec![], &names(&[]), &answers, &answer(&[], "[]", "[]"));
    assert_eq!(diags.len(), 1);
    assert_eq!(diags[0].range, range(11, 13));
    assert_eq!(diags[0].message, "expected types [i32], found [i64] for the condition of `if` block");
}

#[test]
fn unreachable_code_misses_no_operands() {
    let func = as_node(node(SyntaxKind::MODULE_FIELD_FUNC, 0, 40, vec![plain(10, 21, "unreachable")]));
    let answers = vec![instr_types(&[], &[], true, vec![answer(&[], "[]", "[]")])];
    let mut diags = vec![];
    check_func(&mut diags, &func, &vec![], &names(&["i32"]), &answers, &answer(&[], "[i32]", "[]"));
    assert!(diags.is_empty());
}

#[test]
fn one_instruction_takes_params_and_pushes_results() {
    let instr = as_node(plain(10, 17, "i32.add"));
    let answers = vec![instr_types(&["i32", "i32"], &["i32"], false, vec![answer(&[true, false], "[i32, i32]", "[i32, f32]")])];
    let mut st = TypeStack {
        stack: names(&["i32", "f32"]),
        producers: vec![Some(range(0, 3)), Some(range(4, 8))],
        has_never: false,
    };
    let mut diags = vec![];
    let next = typeck_instr(&instr, &answers, &mut st, 0, &mut diags);
    assert_eq!(next, 1);
    assert_eq!(st.stack, names(&["i32"]));
    assert_eq!(st.producers, vec![Some(range(10, 17))]);
    assert_eq!(diags.len(), 1);
    assert_eq!(diags[0].message, "expected types [i32, i32], found [i32, f32]");
    assert_eq!(diags[0].related_information.as_ref().unwrap()[0].range, range(0, 3));
}

#[test]
fn imported_global_and_offsets() {
    let global = as_node(node(SyntaxKind::MODULE_FIELD_GLOBAL, 0, 30, vec![tok(SyntaxKind::KEYWORD, 1, "global")]));
    let key = SymbolKey(SyntaxNodePtr { kind: SyntaxKind::MODULE_FIELD_GLOBAL, range: range(0, 30) });
    let mut diags = vec![];
    check_global(&mut diags, &global, &vec![key], &"i32".to_string(), &vec![], &answer(&[true], "[i32]", "[i32]"));
    assert!(diags.is_empty());
    check_global(&mut diags, &global, &vec![], &"i32".to_string(), &vec![], &answer(&[], "[i32]", "[]"));
    assert_eq!(diags.len(), 1);
    assert_eq!(diags[0].message, "expected types [i32], found [] at the end");
    assert_eq!(diags[0].range, range(1, 7));
    let offset = as_node(node(SyntaxKind::OFFSET, 40, 50, vec![]));
    let mut diags = vec![];
    check_offset(&mut diags, &offset, &vec![], &answer(&[], "[i32]", "[]"));
    assert_eq!(diags.len(), 1);
    assert_eq!(diags[0].range, range(40, 50));
}

#[test]
fn tables_and_element_lists() {
    let table = as_node(node(SyntaxKind::MODULE_FIELD_TABLE, 0, 30, vec![tok(SyntaxKind::KEYWORD, 1, "table")]));
    let mut diags = vec![];
    check_table(&mut diags, &table, &vec![], &Some("funcref".to_string()), true, &vec![], &answer(&[], "[funcref]", "[]"));
    assert!(diags.is_empty());
    check_table(&mut diags, &table, &vec![], &None, false, &vec![], &answer(&[], "[funcref]", "[]"));
    assert!(diags.is_empty());
    check_table(&mut diags, &table, &vec![], &Some("(ref func)".to_string()), false, &vec![], &answer(&[], "[(ref func)]", "[]"));
    assert_eq!(diags.len(), 1);
    let list = as_node(node(
        SyntaxKind::ELEM_LIST,
        0,
        60,
        vec![
            node(SyntaxKind::ELEM_EXPR, 10, 20, vec![plain(11, 19, "ref.null")]),
            node(SyntaxKind::ELEM_EXPR, 21, 30, vec![plain(22, 29, "i32.const")]),
        ],
    ));
    let answers = vec![
        instr_types(&[], &["funcref"], false, vec![answer(&[], "[]", "[]")]),
        instr_types(&[], &["i32"], false, vec![answer(&[], "[]", "[]")]),
    ];
    let ends = vec![answer(&[true], "[funcref]", "[funcref]"), answer(&[false], "[funcref]", "[i32]")];
    let mut diags = vec![];
    check_elem_list(&mut diags, &list, &Some("funcref".to_string()), &answers, &ends);
    assert_eq!(diags.len(), 1);
    assert_eq!(diags[0].range, range(22, 29));
    assert_eq!(diags[0].message, "expected types [funcref], found [i32] at the end");
}

#[test]
fn leftover_types_are_carried_when_nothing_is_expected() {
    let stack = vec!["i32", "f64"];
    let producers = vec![None, None];
    let d = type_stack_check_to_bottom(
        &stack,
        &producers,
        false,
        &names(&[]),
        &names(&["i32", "f64"]),
        &vec![],
        "[]",
        "[i32, f64]",
        range(7, 8),
        true,
        true,
    )
    .unwrap();
    assert_eq!(d.data, Some(names(&["i32", "f64"])));
    let d = type_stack_check_to_bottom(
        &stack,
        &producers,
        false,
        &names(&[]),
        &names(&["i32", "any"]),
        &vec![],
        "[]",
        "[i32, any]",
        range(7, 8),
        true,
        false,
    )
    .unwrap();
    assert!(d.data.is_none());
    let func = as_node(node(SyntaxKind::MODULE_FIELD_FUNC, 0, 40, vec![plain(10, 20, "i32.const")]));
    let answers = vec![instr_types(&[], &["i32"], false, vec![answer(&[], "[]", "[]")])];
    let mut diags = vec![];
    check_func(&mut diags, &func, &vec![], &names(&[]), &answers, &answer(&[], "[]", "[i32]"));
    assert_eq!(diags.len(), 1);
    assert_eq!(diags[0].message, "expected types [], found [i32] at the end");
    assert_eq!(diags[0].data, Some(names(&["i32"])));
}
