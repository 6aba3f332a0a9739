use wat_service::cfa::{analyze, BlockInstr, BlockKind, FlowNodeKind, Immediate, Instr, PlainInstr};
use wat_service::syntax::{SyntaxKind, SyntaxNode, SyntaxNodePtr, TextRange};

fn ptr(kind: SyntaxKind, start: u32, end: u32) -> SyntaxNodePtr {
    SyntaxNodePtr { kind, range: TextRange { start, end } }
}

fn plain(name: &str, start: u32, end: u32) -> Instr {
    Instr::Plain(PlainInstr {
        ptr: ptr(SyntaxKind::PLAIN_INSTR, start, end),
        name: Some(name.to_string()),
        immediates: vec![],
        instrs: vec![],
    })
}

#[test]
fn empty_body_links_entry_to_exit() {
    let cfg = analyze(&vec![]);
    assert_eq!(cfg.nodes().len(), 2);
    assert!(matches!(cfg.nodes()[0].kind, FlowNodeKind::Entry));
    assert!(matches!(cfg.nodes()[1].kind, FlowNodeKind::Exit));
    assert_eq!(cfg.generate_dot(), "digraph {\n  0 [label=\"Entry\"]\n  1 [label=\"Exit\"]\n\n  0 -> 1\n}");
}

#[test]
fn block_gets_entry_and_exit_nodes() {
    let body = vec![
        Instr::Block(BlockInstr {
            ptr: ptr(SyntaxKind::BLOCK_BLOCK, 0, 30),
            kind: BlockKind::Block,
            ident: None,
            catch_labels: vec![],
            instrs: vec![plain("nop", 5, 20)],
            then_block: None,
            else_block: None,
        }),
        plain("drop", 31, 45),
    ];
    let cfg = analyze(&body);
    assert_eq!(
        cfg.generate_dot(),
        "digraph {\n  0 [label=\"Entry\"]\n  1 [label=\"Exit\"]\n  2 [label=\"BlockEntry:BLOCK_BLOCK@0..30\"]\n  3 [label=\"BlockExit\"]\n  4 [label=\"BasicBlock@5..20\"]\n  5 [label=\"BasicBlock@31..45\"]\n\n  0 -> 2\n  2 -> 4\n  3 -> 5\n  4 -> 3\n  5 -> 1\n}"
    );
    let with_ids = cfg.nodes_with_ids();
    assert_eq!(with_ids.len(), 6);
    assert_eq!(with_ids[4].1 .0, 4);
    match &cfg.nodes()[5].kind {
        FlowNodeKind::BasicBlock(bb) => {
            assert_eq!(bb.text_range(), Some(TextRange { start: 31, end: 45 }));
            let inside = SyntaxNode { kind: SyntaxKind::PLAIN_INSTR, range: TextRange { start: 31, end: 45 }, children: vec![] };
            let before = SyntaxNode { kind: SyntaxKind::PLAIN_INSTR, range: TextRange { start: 5, end: 20 }, children: vec![] };
            assert!(bb.contains_instr(&inside));
            assert!(!bb.contains_instr(&before));
        }
        _ => panic!("expected a basic block"),
    }
}

#[test]
fn code_after_unreachable_is_marked() {
    let body = vec![plain("unreachable", 0, 11), plain("nop", 12, 15)];
    let cfg = analyze(&body);
    assert_eq!(
        cfg.generate_dot(),
        "digraph {\n  0 [label=\"Entry\"]\n  1 [label=\"Exit\"] [class=\"unreachable\"]\n  2 [label=\"BasicBlock@0..11\"]\n  3 [label=\"BasicBlock@12..15\"] [class=\"unreachable\"]\n\n  0 -> 2\n  3 -> 1 [class=\"unreachable\"]\n}"
    );
    assert!(cfg.nodes()[3].unreachable);
    assert!(!cfg.nodes()[2].unreachable);
}

#[test]
fn branch_to_loop_goes_back_to_its_entry() {
    let br = Instr::Plain(PlainInstr {
        ptr: ptr(SyntaxKind::PLAIN_INSTR, 10, 14),
        name: Some("br".to_string()),
        immediates: vec![Immediate {
            ptr: ptr(SyntaxKind::IMMEDIATE, 13, 14),
            idx: Some(wat_service::idx::Idx { num: Some(0), name: None }),
            on_label: None,
        }],
        instrs: vec![],
    });
    let body = vec![Instr::Block(BlockInstr {
        ptr: ptr(SyntaxKind::BLOCK_LOOP, 0, 20),
        kind: BlockKind::Loop,
        ident: None,
        catch_labels: vec![],
        instrs: vec![br],
        then_block: None,
        else_block: None,
    })];
    let cfg = analyze(&body);
    // entry 0, exit 1, loop entry 2, loop exit 3, body block 4 jumping back to 2
    assert_eq!(
        cfg.generate_dot(),
        "digraph {\n  0 [label=\"Entry\"]\n  1 [label=\"Exit\"] [class=\"unreachable\"]\n  2 [label=\"BlockEntry:BLOCK_LOOP@0..20\"]\n  3 [label=\"BlockExit\"] [class=\"unreachable\"]\n  4 [label=\"BasicBlock@10..14\"]\n\n  0 -> 2\n  2 -> 4\n  3 -> 1 [class=\"unreachable\"]\n  4 -> 2\n}"
    );
}
