use wat_service::binder::{Symbol, SymbolKey, SymbolKind, SymbolTable};
use wat_service::cfa::{analyze, BlockInstr, BlockKind, Immediate, Instr, PlainInstr};
use wat_service::checker::asymmetric_ident;
use wat_service::checker::deprecated;
use wat_service::checker::lane;
use wat_service::checker::limits::{check_mem_type, check_table_type, AddrType};
use wat_service::checker::operand_amount::{operand_amount_message, pluralize};
use wat_service::checker::structure::{
    check_implicit_module, check_multi_modules, check_multi_starts, check_needless_try_table,
};
use wat_service::checker::{lint_severity, undef, uninit, unread, Diagnostic, DiagnosticSeverity, DiagnosticTag};
use wat_service::config::LintLevel;
use wat_service::idx::{Idx, InternIdent};
use wat_service::syntax::{SyntaxElement, SyntaxKind, SyntaxNode, SyntaxNodePtr, SyntaxToken, TextRange};

fn ptr(kind: SyntaxKind, start: u32, end: u32) -> SyntaxNodePtr {
    SyntaxNodePtr { kind, range: TextRange { start, end } }
}

fn key(kind: SyntaxKind, start: u32, end: u32) -> SymbolKey {
    SymbolKey(ptr(kind, start, end))
}

fn named(n: u32) -> Idx {
    Idx { num: None, name: Some(InternIdent(n)) }
}

fn module_key() -> SymbolKey {
    key(SyntaxKind::MODULE, 0, 200)
}

fn local_def() -> Symbol {
    Symbol { key: key(SyntaxKind::LOCAL, 10, 20), region: key(SyntaxKind::MODULE_FIELD_FUNC, 1, 190), kind: SymbolKind::Local, idx: Idx { num: Some(0), name: Some(InternIdent(0)) } }
}

fn local_ref(start: u32) -> Symbol {
    Symbol { key: key(SyntaxKind::IMMEDIATE, start, start + 2), region: key(SyntaxKind::MODULE_FIELD_FUNC, 1, 190), kind: SymbolKind::LocalRef, idx: named(0) }
}

fn local_instr(name: &str, start: u32) -> Instr {
    Instr::Plain(PlainInstr {
        ptr: ptr(SyntaxKind::PLAIN_INSTR, start - 10, start + 3),
        name: Some(name.to_string()),
        immediates: vec![Immediate { ptr: ptr(SyntaxKind::IMMEDIATE, start, start + 2), idx: Some(named(0)), on_label: None }],
        instrs: vec![],
    })
}

/// A table with the module, one local and references to it at the given offsets.
fn table_with_refs(refs: &[u32]) -> SymbolTable {
    let module = Symbol { key: module_key(), region: module_key(), kind: SymbolKind::Module, idx: Idx { num: Some(0), name: None } };
    let mut symbols = vec![module, local_def()];
    let mut resolved = vec![None, None];
    for r in refs {
        symbols.push(local_ref(*r));
        resolved.push(Some(1));
    }
    SymbolTable::from_parts(symbols, resolved, vec![]).unwrap()
}

fn idents() -> Vec<String> {
    vec!["$x".to_string()]
}

fn messages(diags: &[Diagnostic]) -> Vec<(TextRange, String)> {
    diags.iter().map(|d| (d.range, d.message.clone())).collect()
}

#[test]
fn read_before_write_is_uninit() {
    let table = table_with_refs(&[50, 80]);
    let cfg = analyze(&vec![local_instr("local.get", 50), local_instr("local.set", 80)]);
    let mut diags = vec![];
    uninit::check(&mut diags, &table, &cfg, &local_def(), Some(false), &idents());
    assert_eq!(messages(&diags), vec![(TextRange { start: 50, end: 52 }, "local `$x` is read before being initialized".to_string())]);
    assert_eq!(diags[0].code, "uninit");
    assert_eq!(diags[0].severity, DiagnosticSeverity::Error);

    let mut diags = vec![];
    uninit::check(&mut diags, &table, &cfg, &local_def(), Some(true), &idents());
    assert!(diags.is_empty());
    uninit::check(&mut diags, &table, &cfg, &local_def(), None, &idents());
    assert!(diags.is_empty());
}

#[test]
fn write_in_earlier_block_initializes() {
    let table = table_with_refs(&[50, 80]);
    let body = vec![
        Instr::Block(BlockInstr {
            ptr: ptr(SyntaxKind::BLOCK_BLOCK, 30, 70),
            kind: BlockKind::Block,
            ident: None,
            catch_labels: vec![],
            instrs: vec![local_instr("local.set", 50)],
            then_block: None,
            else_block: None,
        }),
        local_instr("local.get", 80),
    ];
    let cfg = analyze(&body);
    let mut diags = vec![];
    uninit::check(&mut diags, &table, &cfg, &local_def(), Some(false), &idents());
    assert!(diags.is_empty());
}

#[test]
fn write_only_in_one_branch_does_not_initialize() {
    let table = table_with_refs(&[50, 80]);
    let body = vec![
        Instr::Block(BlockInstr {
            ptr: ptr(SyntaxKind::BLOCK_IF, 30, 70),
            kind: BlockKind::If,
            ident: None,
            catch_labels: vec![],
            instrs: vec![],
            then_block: Some(vec![local_instr("local.set", 50)]),
            else_block: None,
        }),
        local_instr("local.get", 80),
    ];
    let cfg = analyze(&body);
    let mut diags = vec![];
    uninit::check(&mut diags, &table, &cfg, &local_def(), Some(false), &idents());
    assert_eq!(messages(&diags), vec![(TextRange { start: 80, end: 82 }, "local `$x` is read before being initialized".to_string())]);
}

#[test]
fn overwritten_and_last_writes_are_unread() {
    let table = table_with_refs(&[50, 80, 110]);
    let cfg = analyze(&vec![local_instr("local.set", 50), local_instr("local.tee", 80), local_instr("local.get", 110)]);
    let mut diags = vec![];
    unread::check(&mut diags, LintLevel::Warn, &table, &cfg, &local_def(), &idents());
    assert_eq!(messages(&diags), vec![(TextRange { start: 50, end: 52 }, "local `$x` is set but never read".to_string())]);
    assert_eq!(diags[0].severity, DiagnosticSeverity::Warning);
    assert_eq!(diags[0].code, "unread");

    let cfg = analyze(&vec![local_instr("local.set", 50), local_instr("local.set", 80)]);
    let mut diags = vec![];
    unread::check(&mut diags, LintLevel::Deny, &table, &cfg, &local_def(), &idents());
    assert_eq!(
        messages(&diags),
        vec![
            (TextRange { start: 50, end: 52 }, "local `$x` is set but never read".to_string()),
            (TextRange { start: 80, end: 82 }, "local `$x` is set but never read".to_string()),
        ]
    );
    assert_eq!(diags[1].severity, DiagnosticSeverity::Error);

    let mut diags = vec![];
    unread::check(&mut diags, LintLevel::Allow, &table, &cfg, &local_def(), &idents());
    assert!(diags.is_empty());
}

#[test]
fn value_read_after_a_block_is_used() {
    let table = table_with_refs(&[50, 80]);
    let body = vec![
        Instr::Block(BlockInstr {
            ptr: ptr(SyntaxKind::BLOCK_BLOCK, 30, 70),
            kind: BlockKind::Block,
            ident: None,
            catch_labels: vec![],
            instrs: vec![local_instr("local.set", 50)],
            then_block: None,
            else_block: None,
        }),
        local_instr("local.get", 80),
    ];
    let cfg = analyze(&body);
    let mut diags = vec![];
    unread::check(&mut diags, LintLevel::Hint, &table, &cfg, &local_def(), &idents());
    assert!(diags.is_empty());
}

#[test]
fn unresolved_reference_is_undef() {
    let module = Symbol { key: module_key(), region: module_key(), kind: SymbolKind::Module, idx: Idx { num: Some(0), name: None } };
    let call = Symbol { key: key(SyntaxKind::IMMEDIATE, 40, 42), region: module_key(), kind: SymbolKind::Call, idx: Idx { num: None, name: Some(InternIdent(0)) } };
    let global = Symbol { key: key(SyntaxKind::IMMEDIATE, 50, 51), region: module_key(), kind: SymbolKind::GlobalRef, idx: Idx { num: Some(3), name: None } };
    let def = Symbol { key: key(SyntaxKind::MODULE_FIELD_FUNC, 60, 70), region: module_key(), kind: SymbolKind::Func, idx: Idx { num: Some(0), name: None } };
    let table = SymbolTable::from_parts(vec![module, call, global, def], vec![None, None, None, None], vec![]).unwrap();
    let mut diags = vec![];
    undef::check(&mut diags, &table, &vec!["$g".to_string()]);
    assert_eq!(
        messages(&diags),
        vec![
            (TextRange { start: 40, end: 42 }, "cannot find func `$g` in this scope".to_string()),
            (TextRange { start: 50, end: 51 }, "cannot find global `3` in this scope".to_string()),
        ]
    );
    assert_eq!(diags[0].code, "undef");
}

fn tok(kind: SyntaxKind, start: u32, end: u32, text: &str) -> SyntaxElement {
    SyntaxElement::Token(SyntaxToken { kind, range: TextRange { start, end }, text: text.to_string() })
}

fn node(kind: SyntaxKind, start: u32, end: u32, children: Vec<SyntaxElement>) -> SyntaxNode {
    SyntaxNode { kind, range: TextRange { start, end }, children }
}

#[test]
fn use_of_deprecated_function_is_reported() {
    let func = node(SyntaxKind::MODULE_FIELD_FUNC, 40, 50, vec![]);
    let module = node(
        SyntaxKind::MODULE,
        0,
        60,
        vec![
            tok(SyntaxKind::L_PAREN, 0, 1, "("),
            tok(SyntaxKind::KEYWORD, 1, 7, "module"),
            tok(SyntaxKind::WHITESPACE, 7, 8, " "),
            tok(SyntaxKind::ANNOT_START, 8, 20, "(@deprecated"),
            tok(SyntaxKind::WHITESPACE, 20, 21, " "),
            tok(SyntaxKind::ANNOT_ELEM, 21, 28, "\"use g\""),
            tok(SyntaxKind::ANNOT_END, 28, 29, ")"),
            tok(SyntaxKind::WHITESPACE, 29, 40, " "),
            SyntaxElement::Node(func),
            tok(SyntaxKind::R_PAREN, 59, 60, ")"),
        ],
    );
    let root = node(SyntaxKind::ROOT, 0, 60, vec![SyntaxElement::Node(module)]);
    let deprecations = wat_service::deprecation::get_deprecation(&root);
    assert_eq!(deprecations.len(), 1);
    assert_eq!(deprecations[0].0, key(SyntaxKind::MODULE_FIELD_FUNC, 40, 50));
    assert_eq!(deprecations[0].1, Some("use g".to_string()));

    let module_symbol = Symbol { key: module_key(), region: module_key(), kind: SymbolKind::Module, idx: Idx { num: Some(0), name: None } };
    let def = Symbol { key: key(SyntaxKind::MODULE_FIELD_FUNC, 40, 50), region: module_key(), kind: SymbolKind::Func, idx: Idx { num: Some(0), name: Some(InternIdent(0)) } };
    let call = Symbol { key: key(SyntaxKind::IMMEDIATE, 100, 102), region: module_key(), kind: SymbolKind::Call, idx: named(0) };
    let table = SymbolTable::from_parts(vec![module_symbol, def, call], vec![None, None, Some(1)], vec![]).unwrap();
    let mut diags = vec![];
    deprecated::check(&mut diags, LintLevel::Warn, &table, &root, &vec!["$f".to_string()]);
    assert_eq!(messages(&diags), vec![(TextRange { start: 100, end: 102 }, "func `$f` is deprecated: use g".to_string())]);
    assert_eq!(diags[0].tags, Some(vec![DiagnosticTag::Deprecated]));
    assert_eq!(diags[0].severity, DiagnosticSeverity::Warning);
}

#[test]
fn deprecation_without_reason() {
    let func = node(SyntaxKind::MODULE_FIELD_GLOBAL, 30, 50, vec![]);
    let module = node(
        SyntaxKind::MODULE,
        0,
        60,
        vec![
            tok(SyntaxKind::ANNOT_START, 8, 22, "(@\"deprecated\""),
            tok(SyntaxKind::ANNOT_END, 22, 23, ")"),
            tok(SyntaxKind::LINE_COMMENT, 23, 29, ";; old"),
            SyntaxElement::Node(func),
        ],
    );
    let root = node(SyntaxKind::ROOT, 0, 60, vec![SyntaxElement::Node(module)]);
    let deprecations = wat_service::deprecation::get_deprecation(&root);
    assert_eq!(deprecations.len(), 1);
    assert_eq!(deprecations[0].1, None);
}

#[test]
fn structure_checks() {
    let module_a = node(SyntaxKind::MODULE, 0, 10, vec![tok(SyntaxKind::L_PAREN, 0, 1, "(")]);
    let module_b = node(SyntaxKind::MODULE, 11, 20, vec![tok(SyntaxKind::L_PAREN, 11, 12, "(")]);
    let root = node(SyntaxKind::ROOT, 0, 20, vec![SyntaxElement::Node(module_a), SyntaxElement::Node(module_b)]);
    let mut diags = vec![];
    check_multi_modules(&mut diags, LintLevel::Deny, &root);
    assert_eq!(messages(&diags), vec![(TextRange { start: 11, end: 20 }, "only one module is allowed".to_string())]);
    assert_eq!(diags[0].code, "multiple-modules");

    let implicit = node(SyntaxKind::MODULE, 0, 10, vec![]);
    let d = check_implicit_module(LintLevel::Warn, &implicit).unwrap();
    assert_eq!(d.message, "top-level module fields should be wrapped in a module");
    assert_eq!(d.severity, DiagnosticSeverity::Warning);
    assert!(check_implicit_module(LintLevel::Allow, &implicit).is_none());

    let start = |s, e| SyntaxElement::Node(node(SyntaxKind::MODULE_FIELD_START, s, e, vec![]));
    let module = node(SyntaxKind::MODULE, 0, 40, vec![start(1, 10), start(11, 20), start(21, 30)]);
    let mut diags = vec![];
    check_multi_starts(&mut diags, &module);
    assert_eq!(
        messages(&diags),
        vec![
            (TextRange { start: 11, end: 20 }, "only one start section is allowed".to_string()),
            (TextRange { start: 21, end: 30 }, "only one start section is allowed".to_string()),
        ]
    );

    let try_table = node(SyntaxKind::BLOCK_TRY_TABLE, 0, 30, vec![tok(SyntaxKind::KEYWORD, 1, 10, "try_table")]);
    let d = check_needless_try_table(LintLevel::Warn, &try_table).unwrap();
    assert_eq!(d.range, TextRange { start: 1, end: 10 });
    assert_eq!(d.tags, Some(vec![DiagnosticTag::Unnecessary]));
    let with_catch = node(
        SyntaxKind::BLOCK_TRY_TABLE,
        0,
        30,
        vec![tok(SyntaxKind::KEYWORD, 1, 10, "try_table"), SyntaxElement::Node(node(SyntaxKind::CATCH_ALL, 11, 20, vec![]))],
    );
    assert!(check_needless_try_table(LintLevel::Warn, &with_catch).is_none());
}

fn immediate(start: u32, text: &str) -> SyntaxElement {
    SyntaxElement::Node(node(SyntaxKind::IMMEDIATE, start, start + 2, vec![tok(SyntaxKind::INT, start, start + 2, text)]))
}

#[test]
fn lane_indices_are_bounded() {
    let instr = node(SyntaxKind::PLAIN_INSTR, 0, 40, vec![immediate(20, "16")]);
    let mut diags = vec![];
    lane::check(&mut diags, &instr, "i8x16.extract_lane_s");
    assert_eq!(messages(&diags), vec![(TextRange { start: 20, end: 22 }, "lane index must be less than 16".to_string())]);

    let mut diags = vec![];
    lane::check(&mut diags, &instr, "i16x8.replace_lane");
    assert_eq!(diags[0].message, "lane index must be less than 8");

    let load = node(SyntaxKind::PLAIN_INSTR, 0, 40, vec![immediate(10, "0"), immediate(20, "1"), immediate(30, "16")]);
    let mut diags = vec![];
    lane::check(&mut diags, &load, "v128.load8_lane");
    assert_eq!(messages(&diags), vec![(TextRange { start: 30, end: 32 }, "lane index must be less than 16".to_string())]);

    let shuffle = node(SyntaxKind::PLAIN_INSTR, 0, 40, vec![immediate(10, "31"), immediate(20, "32"), immediate(30, "x")]);
    let mut diags = vec![];
    lane::check(&mut diags, &shuffle, "i8x16.shuffle");
    assert_eq!(
        messages(&diags),
        vec![
            (TextRange { start: 20, end: 22 }, "lane index must be less than 32".to_string()),
            (TextRange { start: 30, end: 32 }, "invalid lane index".to_string()),
        ]
    );

    let mut diags = vec![];
    lane::check(&mut diags, &instr, "i32.add");
    assert!(diags.is_empty());
    let big = node(SyntaxKind::IMMEDIATE, 5, 7, vec![tok(SyntaxKind::INT, 5, 7, "99999999999")]);
    assert_eq!(lane::check_immediate(&big, 4).unwrap().message, "lane index must be less than 4");
}

fn limits(start: u32, values: &[&str]) -> SyntaxElement {
    let mut children = vec![];
    let mut at = start;
    for v in values {
        children.push(tok(SyntaxKind::UNSIGNED_INT, at, at + 5, v));
        at += 6;
    }
    SyntaxElement::Node(node(SyntaxKind::LIMITS, start, at, children))
}

#[test]
fn memory_limits_are_checked() {
    let page = SyntaxElement::Node(node(SyntaxKind::MEM_PAGE_SIZE, 50, 70, vec![tok(SyntaxKind::UNSIGNED_INT, 60, 65, "65536")]));
    let mem = node(SyntaxKind::MEM_TYPE, 0, 80, vec![limits(10, &["70000", "1"]), page]);
    let mut diags = vec![];
    check_mem_type(&mut diags, &mem, AddrType::I32);
    assert_eq!(
        messages(&diags),
        vec![
            (TextRange { start: 10, end: 15 }, "memory size can't be greater than 65536".to_string()),
            (TextRange { start: 16, end: 21 }, "maximum size must be greater than minimum size".to_string()),
        ]
    );
    assert_eq!(diags[0].code, "mem-type");

    let page = SyntaxElement::Node(node(SyntaxKind::MEM_PAGE_SIZE, 50, 70, vec![tok(SyntaxKind::UNSIGNED_INT, 60, 65, "3")]));
    let shared = tok(SyntaxKind::KEYWORD, 30, 36, "shared");
    let mem = node(SyntaxKind::MEM_TYPE, 0, 80, vec![limits(10, &["1"]), shared, page]);
    let mut diags = vec![];
    check_mem_type(&mut diags, &mem, AddrType::I64);
    assert_eq!(
        messages(&diags),
        vec![
            (TextRange { start: 60, end: 65 }, "memory page size must be 1 or 65536".to_string()),
            (TextRange { start: 30, end: 36 }, "shared memory must have a maximum size".to_string()),
        ]
    );

    let mem = node(SyntaxKind::MEM_TYPE, 0, 80, vec![limits(10, &["99999999999999999999"])]);
    let mut diags = vec![];
    check_mem_type(&mut diags, &mem, AddrType::I64);
    assert_eq!(diags[0].message, "memory size can't be greater than 18446744073709551615");
}

#[test]
fn table_limits_are_checked() {
    let table = node(SyntaxKind::TABLE_TYPE, 0, 80, vec![limits(10, &["0x1_0000_0000", "2"])]);
    let mut diags = vec![];
    check_table_type(&mut diags, &table, AddrType::I32);
    assert_eq!(
        messages(&diags),
        vec![
            (TextRange { start: 10, end: 15 }, "table limit can't be greater than 4294967295".to_string()),
            (TextRange { start: 16, end: 21 }, "maximum size must be greater than minimum size".to_string()),
        ]
    );
    let mut diags = vec![];
    check_table_type(&mut diags, &table, AddrType::I64);
    assert_eq!(
        messages(&diags),
        vec![(TextRange { start: 16, end: 21 }, "maximum size must be greater than minimum size".to_string())]
    );
    let invalid = node(SyntaxKind::TABLE_TYPE, 0, 80, vec![limits(10, &["abc", "1"])]);
    let mut diags = vec![];
    check_table_type(&mut diags, &invalid, AddrType::I32);
    assert!(diags.is_empty());
}

#[test]
fn operand_counts_read_naturally() {
    assert_eq!(pluralize(1), "1 operand");
    assert_eq!(pluralize(0), "0 operands");
    assert_eq!(pluralize(12), "12 operands");
    assert_eq!(operand_amount_message(2, 1), Some("expected 2 operands, found 1".to_string()));
    assert_eq!(operand_amount_message(1, 3), Some("expected 1 operand, found 3".to_string()));
    assert_eq!(operand_amount_message(2, 2), None);
}

#[test]
fn lint_levels_map_to_severities() {
    assert_eq!(lint_severity(LintLevel::Allow), None);
    assert_eq!(lint_severity(LintLevel::Hint), Some(DiagnosticSeverity::Hint));
    assert_eq!(lint_severity(LintLevel::Warn), Some(DiagnosticSeverity::Warning));
    assert_eq!(lint_severity(LintLevel::Deny), Some(DiagnosticSeverity::Error));
    let d = Diagnostic::default();
    assert_eq!(d.severity, DiagnosticSeverity::Error);
    assert!(d.message.is_empty() && d.code.is_empty() && d.tags.is_none());
}

#[test]
fn labels_after_end_must_match() {
    let end = |start: u32, label: &str| {
        let mut children = vec![tok(SyntaxKind::KEYWORD, start, start + 3, "end")];
        if !label.is_empty() {
            children.push(tok(SyntaxKind::IDENT, start + 4, start + 4 + label.len() as u32, label));
        }
        SyntaxElement::Node(node(SyntaxKind::END_DELIM, start, start + 10, children))
    };
    let labeled = |label: &str, closing: &str| {
        node(
            SyntaxKind::BLOCK_BLOCK,
            0,
            40,
            vec![tok(SyntaxKind::KEYWORD, 0, 5, "block"), tok(SyntaxKind::IDENT, 6, 6 + label.len() as u32, label), end(20, closing)],
        )
    };
    assert!(asymmetric_ident::check(&labeled("$a", "$a")).is_none());
    assert!(asymmetric_ident::check(&labeled("$a", "")).is_none());

    let d = asymmetric_ident::check(&labeled("$a", "$b")).unwrap();
    assert_eq!(d.range, TextRange { start: 24, end: 26 });
    assert_eq!(d.code, "asymmetric-ident");
    assert_eq!(d.severity, DiagnosticSeverity::Error);
    assert_eq!(d.message, "mismatched ident whose enclosing `block` is labeled as `$a`");
    let related = d.related_information.unwrap();
    assert_eq!(related[0].range, TextRange { start: 6, end: 8 });
    assert_eq!(related[0].message, "block `$a` defined here");

    let unlabeled = node(SyntaxKind::BLOCK_LOOP, 0, 40, vec![tok(SyntaxKind::KEYWORD, 0, 4, "loop"), end(20, "$l")]);
    let d = asymmetric_ident::check(&unlabeled).unwrap();
    assert_eq!(d.message, "unexpected ident whose enclosing `loop` is not labeled");
    let related = d.related_information.unwrap();
    assert_eq!(related[0].range, TextRange { start: 0, end: 4 });
    assert_eq!(related[0].message, "loop defined here");
}
