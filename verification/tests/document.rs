use wat_service::document::{
    apply_changes, convert_range, find_deepest_parseable_node, is_safe_for_incremental,
    merge_syntax_errors, plan_incremental, slice, splice, ContentChange, LspRange, Position,
    Document, SyntaxError,
};
use wat_service::checker::syntax;
use wat_service::syntax::{SyntaxElement, SyntaxKind, SyntaxNode, TextRange};

fn range(sl: u32, sc: u32, el: u32, ec: u32) -> LspRange {
    LspRange {
        start: Position { line: sl, character: sc },
        end: Position { line: el, character: ec },
    }
}

fn node(kind: SyntaxKind, start: u32, end: u32, children: Vec<SyntaxElement>) -> SyntaxNode {
    SyntaxNode { kind, range: TextRange { start, end }, children }
}

#[test]
fn safe_bytes_for_incremental() {
    for b in [b'a', b'Z', b'0', b' ', b'\t', b'\n', b'\r', 0x0c, b'$', b'-', b'.', b'_', b'=', b'@'] {
        assert!(is_safe_for_incremental(b), "{b}");
    }
    for b in [b'"', b',', b';', b'(', b')', b'[', b']', b'{', b'}', 0x00, 0x7f, 0x0b] {
        assert!(!is_safe_for_incremental(b), "{b}");
    }
    assert!(is_safe_for_incremental(0x80));
    assert!(is_safe_for_incremental(0xe6));
}

#[test]
fn editor_positions_become_byte_offsets() {
    assert_eq!(convert_range("ab\ncd", range(1, 1, 1, 2)), Some(TextRange { start: 4, end: 5 }));
    // '测' takes three bytes and one UTF-16 unit
    assert_eq!(convert_range("测x", range(0, 1, 0, 2)), Some(TextRange { start: 3, end: 4 }));
    assert_eq!(convert_range("ab\ncd", range(5, 0, 5, 0)), None);
    assert_eq!(convert_range("ab\ncd", range(1, 1, 0, 1)), None);
}

#[test]
fn changes_apply_in_order() {
    let text = "(module)".to_string();
    let changes = vec![ContentChange::Partial { range: range(0, 7, 0, 7), text: " $m".into() }];
    assert_eq!(apply_changes(&text, &changes), Some("(module $m)".to_string()));

    let changes = vec![
        ContentChange::WholeDocument { text: "(module\n)".into() },
        ContentChange::Partial { range: range(1, 0, 1, 0), text: "  (func)\n".into() },
        ContentChange::Partial { range: range(9, 0, 9, 0), text: "ignored".into() },
    ];
    assert_eq!(apply_changes(&text, &changes), Some("(module\n  (func)\n)".to_string()));
    assert_eq!(apply_changes(&text, &vec![]), Some(text.clone()));
}

#[test]
fn change_inside_a_character_is_refused() {
    // column 1 falls between the two UTF-16 units of the emoji, which lands
    // in the middle of its bytes
    let text = "😀x".to_string();
    let changes = vec![ContentChange::Partial { range: range(0, 1, 0, 1), text: "y".into() }];
    assert_eq!(apply_changes(&text, &changes), None);
}

#[test]
fn splice_and_slice_bytes() {
    assert_eq!(splice("hello world", 6, 11, "there"), "hello there");
    assert_eq!(slice("a测b", 1, 4), Some("测".to_string()));
    assert_eq!(slice("a测b", 1, 2), None);
    assert_eq!(slice("abc", 2, 1), None);
}

#[test]
fn deepest_parseable_node_skips_other_kinds() {
    let operand = node(SyntaxKind::OPERAND, 12, 18, vec![]);
    let instr = node(SyntaxKind::PLAIN_INSTR, 11, 19, vec![SyntaxElement::Node(operand)]);
    let func = node(SyntaxKind::MODULE_FIELD_FUNC, 10, 20, vec![SyntaxElement::Node(instr)]);
    let module = node(SyntaxKind::MODULE, 0, 21, vec![SyntaxElement::Node(func)]);
    let root = node(SyntaxKind::ROOT, 0, 21, vec![SyntaxElement::Node(module)]);
    let found = find_deepest_parseable_node(&root, TextRange { start: 13, end: 14 });
    assert_eq!(found.kind, SyntaxKind::PLAIN_INSTR);
    assert_eq!(found.range, TextRange { start: 11, end: 19 });
    let found = find_deepest_parseable_node(&root, TextRange { start: 2, end: 3 });
    assert_eq!(found.kind, SyntaxKind::MODULE);
    let found = find_deepest_parseable_node(&root, TextRange { start: 0, end: 30 });
    assert_eq!(found.kind, SyntaxKind::ROOT);
}

#[test]
fn merged_errors_drop_move_and_append() {
    let old = vec![
        SyntaxError { range: TextRange { start: 12, end: 13 }, message: "inside".into(), name: None },
        SyntaxError { range: TextRange { start: 5, end: 6 }, message: "before".into(), name: None },
        SyntaxError { range: TextRange { start: 15, end: 25 }, message: "across".into(), name: None },
    ];
    let fresh = vec![SyntaxError { range: TextRange { start: 0, end: 1 }, message: "fresh".into(), name: None }];
    let merged = merge_syntax_errors(&old, TextRange { start: 10, end: 19 }, 0, 2, fresh).unwrap();
    let got: Vec<(TextRange, String)> = merged.iter().map(|e| (e.range, e.message.clone())).collect();
    assert_eq!(
        got,
        vec![
            (TextRange { start: 5, end: 6 }, "before".to_string()),
            (TextRange { start: 17, end: 27 }, "across".to_string()),
            (TextRange { start: 10, end: 11 }, "fresh".to_string()),
        ]
    );
}

#[test]
fn merged_errors_refuse_ranges_beyond_u32() {
    let old = vec![SyntaxError {
        range: TextRange { start: 4_294_967_290, end: 4_294_967_295 },
        message: "far".into(),
        name: None,
    }];
    assert!(merge_syntax_errors(&old, TextRange { start: 0, end: 10 }, 0, 10, vec![]).is_none());
    let fresh = vec![SyntaxError { range: TextRange { start: 0, end: 4_294_967_295 }, message: "x".into(), name: None }];
    assert!(merge_syntax_errors(&vec![], TextRange { start: 1, end: 2 }, 0, 0, fresh).is_none());
}

#[test]
fn replacement_inside_a_word_is_planned() {
    let text = "(module $abc)".to_string();
    let root = node(
        SyntaxKind::ROOT,
        0,
        13,
        vec![SyntaxElement::Node(node(SyntaxKind::MODULE, 0, 13, vec![]))],
    );
    let changes = vec![ContentChange::Partial { range: range(0, 9, 0, 11), text: "xyz".into() }];
    let plan = plan_incremental(&text, &root, &changes).unwrap();
    assert_eq!(plan.range, TextRange { start: 9, end: 11 });
    assert_eq!(plan.node_kind, SyntaxKind::MODULE);
    assert_eq!(plan.text, "(module $xyzc)");
    assert_eq!(plan.source, "xyz");
    assert_eq!(plan.inserted, 3);
}

#[test]
fn syntax_errors_become_diagnostics() {
    let document = Document {
        uri: "file:///a.wat".into(),
        text: "(module (func".into(),
        root: SyntaxNode { kind: SyntaxKind::ROOT, range: TextRange { start: 0, end: 13 }, children: vec![] },
        syntax_errors: vec![
            SyntaxError {
                range: TextRange { start: 13, end: 13 },
                message: "expected right paren".into(),
                name: Some("right paren".into()),
            },
            SyntaxError { range: TextRange { start: 0, end: 1 }, message: "unexpected token".into(), name: None },
        ],
    };
    let mut diags = vec![];
    syntax::check(&mut diags, &document);
    assert_eq!(diags.len(), 2);
    assert_eq!(diags[0].code, "syntax/right-paren");
    assert_eq!(diags[0].message, "syntax error: expected right paren");
    assert_eq!(diags[0].range, TextRange { start: 13, end: 13 });
    assert_eq!(diags[1].code, "syntax");
    assert_eq!(diags[1].message, "syntax error: unexpected token");
}

#[test]
fn columns_that_would_overflow_are_refused() {
    assert_eq!(convert_range("a\nb", range(1, u32::MAX, 1, u32::MAX)), None);
    assert_eq!(convert_range("a\nb", range(1, 0, 1, u32::MAX)), None);
    let text = "a\nb".to_string();
    let changes = vec![ContentChange::Partial { range: range(1, u32::MAX, 1, u32::MAX), text: "x".into() }];
    assert_eq!(apply_changes(&text, &changes), None);
    // a line that does not exist is skipped, as before
    let changes = vec![ContentChange::Partial { range: range(7, 0, 7, 0), text: "x".into() }];
    assert_eq!(apply_changes(&text, &changes), Some(text.clone()));
}

fn edit(text: &str, sl: u32, sc: u32, el: u32, ec: u32, insert: &str) -> Option<String> {
    apply_changes(&text.to_string(), &vec![ContentChange::Partial { range: range(sl, sc, el, ec), text: insert.into() }])
}

#[test]
fn single_cursor_in_module_field_text() {
    let text = apply_changes(&String::new(), &vec![ContentChange::WholeDocument { text: "(module\n  (type ) (start)\n)".into() }])
        .unwrap();
    assert_eq!(
        edit(&text, 1, 8, 1, 8, "(func (param $x) (param i32))"),
        Some("(module\n  (type (func (param $x) (param i32))) (start)\n)".to_string())
    );
}

#[test]
fn single_cursor_to_invalid_module_field_text() {
    assert_eq!(
        edit("(module\n  (start 0) (type (func))\n)", 1, 7, 1, 8, ""),
        Some("(module\n  (star 0) (type (func))\n)".to_string())
    );
}

#[test]
fn single_cursor_out_of_module_field_text() {
    assert_eq!(
        edit("(module\n  (func (result\n    f32\n    i32))\n)", 3, 9, 3, 9, "(type (func))"),
        Some("(module\n  (func (result\n    f32\n    i32))(type (func))\n)".to_string())
    );
}

#[test]
fn multi_cursor_asc_insert_and_replace_text() {
    let text = "(module\n  (func (param i32 i32))\n  (start 1)\n    (func (param i64 i64))\n)".to_string();
    let changes = vec![
        ContentChange::Partial { range: range(1, 18, 1, 18), text: "\n   ".into() },
        ContentChange::Partial { range: range(4, 20, 4, 20), text: "\n     ".into() },
    ];
    assert_eq!(
        apply_changes(&text, &changes),
        Some("(module\n  (func (param i32\n    i32))\n  (start 1)\n    (func (param i64\n      i64))\n)".to_string())
    );
}

#[test]
fn insert_semicolon_text() {
    assert_eq!(
        edit("\n(module\n  (func (param i32) (local i32)))\n", 2, 9, 2, 9, ";"),
        Some("\n(module\n  (func (;param i32) (local i32)))\n".to_string())
    );
}

#[test]
fn insert_before_module_text() {
    assert_eq!(
        edit("\n(@metadata.code.call_target )\n(module\n  (func (param i32) (local i32)))\n", 1, 27, 1, 27, "s"),
        Some("\n(@metadata.code.call_targets )\n(module\n  (func (param i32) (local i32)))\n".to_string())
    );
}

#[test]
fn non_ascii_text() {
    assert_eq!(
        edit("\n(module\n  ;; 测\n  (func $func)\n  (func\n    call $func))\n", 2, 6, 2, 6, "试"),
        Some("\n(module\n  ;; 测试\n  (func $func)\n  (func\n    call $func))\n".to_string())
    );
}

#[test]
fn new_errors_from_incremental_text() {
    assert_eq!(
        edit("\n(module\n  (func (call )))\n", 2, 14, 2, 14, "$"),
        Some("\n(module\n  (func (call $)))\n".to_string())
    );
}
