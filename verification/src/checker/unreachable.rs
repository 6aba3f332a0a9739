//! Code that control never reaches, as ranges merged across adjacent
//! instructions.

use super::{diag_views, lint_severity, lint_severity_spec, Diagnostic, DiagnosticSeverity, DiagnosticTag, DiagnosticView};
use crate::cfa::{BasicBlockInstr, ControlFlowGraph, FlowNode, FlowNodeKind};
use crate::config::LintLevel;
use crate::syntax::{
    child_token_of, last_node_before, locate, locate_node, prev_node, SyntaxElement, SyntaxKind, SyntaxNode,
    SyntaxNodePtr, TextRange,
};
use vstd::prelude::*;

verus! {

/// Whether `outer` covers `inner`.
pub open spec fn covers(outer: TextRange, inner: TextRange) -> bool {
    outer.start <= inner.start && inner.end <= outer.end
}

/// The smallest range covering two ranges.
pub open spec fn cover(a: TextRange, b: TextRange) -> TextRange {
    TextRange {
        start: if a.start <= b.start { a.start } else { b.start },
        end: if a.end >= b.end { a.end } else { b.end },
    }
}

/// Kinds of the instruction nodes.
pub open spec fn is_instr_kind(kind: SyntaxKind) -> bool {
    kind == SyntaxKind::PLAIN_INSTR || kind == SyntaxKind::BLOCK_BLOCK || kind == SyntaxKind::BLOCK_LOOP || kind
        == SyntaxKind::BLOCK_IF || kind == SyntaxKind::BLOCK_TRY_TABLE
}

/// The first instruction among the first `n` children.
pub open spec fn first_instr(children: Seq<SyntaxElement>, n: int) -> Option<SyntaxNode>
    decreases n,
{
    if n <= 0 {
        None
    } else {
        match first_instr(children, n - 1) {
            Some(c) => Some(c),
            None => match children[n - 1] {
                SyntaxElement::Node(c) => if is_instr_kind(c.kind) {
                    Some(c)
                } else {
                    None
                },
                _ => None,
            },
        }
    }
}

/// The node a pointer names in the tree under `root`, with its previous
/// sibling node.
pub open spec fn located(root: SyntaxNode, ptr: SyntaxNodePtr) -> Option<(SyntaxNode, Option<SyntaxNode>)> {
    match locate(root, ptr) {
        Some((parent, i)) => match parent.children@[i] {
            SyntaxElement::Node(c) => Some((c, last_node_before(parent.children@, i))),
            _ => None,
        },
        None => None,
    }
}

/// Adds an unreachable instruction to the ranges: it extends the last range
/// when its previous sibling lies in it; it replaces the last range when it
/// covers it and all its child instructions (the first one) lie in it, and
/// else adds just its name; a range already covering it stays; otherwise it
/// starts a range. With no range yet, an instruction with child
/// instructions adds its name, any other itself.
pub open spec fn merge_instr(ranges: Seq<TextRange>, node: SyntaxNode, prev: Option<SyntaxNode>) -> Seq<TextRange> {
    let cur = node.range;
    let first = first_instr(node.children@, node.children@.len() as int);
    let name = child_token_of(node, SyntaxKind::INSTR_NAME);
    if ranges.len() > 0 {
        let last = ranges.last();
        if prev matches Some(p) && covers(last, p.range) {
            ranges.update(ranges.len() - 1, cover(last, cur))
        } else if covers(cur, last) {
            if first matches Some(f) && !covers(last, f.range) {
                match name {
                    Some(t) => ranges.push(t.range),
                    None => ranges,
                }
            } else {
                ranges.update(ranges.len() - 1, cur)
            }
        } else if !covers(last, cur) {
            ranges.push(cur)
        } else {
            ranges
        }
    } else {
        match (first, name) {
            (Some(_), Some(t)) => ranges.push(t.range),
            _ => ranges.push(cur),
        }
    }
}

/// Adds an unreachable block: it extends the last range when its previous
/// sibling lies in it, and starts a range otherwise.
pub open spec fn merge_entry(ranges: Seq<TextRange>, node: SyntaxNode, prev: Option<SyntaxNode>) -> Seq<TextRange> {
    if prev matches Some(p) && ranges.len() > 0 && covers(ranges.last(), p.range) {
        ranges.update(ranges.len() - 1, cover(ranges.last(), node.range))
    } else {
        ranges.push(node.range)
    }
}

/// The ranges after the first `n` instructions of a basic block.
pub open spec fn merge_block(ranges: Seq<TextRange>, root: SyntaxNode, instrs: Seq<BasicBlockInstr>, n: int) -> Seq<
    TextRange,
>
    decreases n,
{
    if n <= 0 {
        ranges
    } else {
        let before = merge_block(ranges, root, instrs, n - 1);
        match located(root, instrs[n - 1].ptr) {
            Some((node, prev)) => merge_instr(before, node, prev),
            None => before,
        }
    }
}

/// The ranges after one node of the graph: only unreachable basic blocks
/// and block entries add to them.
pub open spec fn merge_node(ranges: Seq<TextRange>, root: SyntaxNode, n: FlowNode) -> Seq<TextRange> {
    if !n.unreachable {
        ranges
    } else {
        match n.kind {
            FlowNodeKind::BasicBlock(bb) => merge_block(ranges, root, bb.0@, bb.0@.len() as int),
            FlowNodeKind::BlockEntry(ptr) => match located(root, ptr) {
                Some((node, prev)) => merge_entry(ranges, node, prev),
                None => ranges,
            },
            _ => ranges,
        }
    }
}

/// The unreachable ranges of the first `n` nodes of a graph, in node order.
pub open spec fn unreachable_ranges(root: SyntaxNode, nodes: Seq<FlowNode>, n: int) -> Seq<TextRange>
    decreases n,
{
    if n <= 0 {
        seq![]
    } else {
        merge_node(unreachable_ranges(root, nodes, n - 1), root, nodes[n - 1])
    }
}

/// Whether every pointer of the unreachable nodes names a node under `root`.
pub open spec fn pointers_resolve(root: SyntaxNode, nodes: Seq<FlowNode>) -> bool {
    forall|i: int|
        0 <= i < nodes.len() && #[trigger] nodes[i].unreachable ==> match nodes[i].kind {
            FlowNodeKind::BasicBlock(bb) => forall|k: int|
                0 <= k < bb.0@.len() ==> located(root, #[trigger] bb.0@[k].ptr) is Some,
            FlowNodeKind::BlockEntry(ptr) => located(root, ptr) is Some,
            _ => true,
        }
}

/// The report on one unreachable range.
pub open spec fn unreachable_diag(range: TextRange, severity: DiagnosticSeverity) -> DiagnosticView {
    DiagnosticView {
        range,
        severity,
        code: "unreachable"@,
        message: "unreachable code"@,
        tags: Some(seq![DiagnosticTag::Unnecessary]),
        data: None,
        related_information: None,
    }
}

/// The reports on the unreachable code of a function whose graph has these
/// nodes.
pub open spec fn unreachable_diags(level: LintLevel, root: SyntaxNode, nodes: Seq<FlowNode>) -> Seq<DiagnosticView> {
    match lint_severity_spec(level) {
        Some(severity) => unreachable_ranges(root, nodes, nodes.len() as int).map_values(
            |r: TextRange| unreachable_diag(r, severity),
        ),
        None => seq![],
    }
}

fn range_covers(outer: TextRange, inner: TextRange) -> (r: bool)
    ensures
        r == covers(outer, inner),
{
    outer.start <= inner.start && inner.end <= outer.end
}

pub(crate) fn find_first_instr(node: &SyntaxNode) -> (r: Option<&SyntaxNode>)
    ensures
        match first_instr(node.children@, node.children@.len() as int) {
            Some(c) => r matches Some(x) && *x == c,
            None => r is None,
        },
{
    let mut i: usize = 0;
    while i < node.children.len()
        invariant
            i <= node.children@.len(),
            first_instr(node.children@, i as int) is None,
        decreases node.children@.len() - i,
    {
        match &node.children[i] {
            SyntaxElement::Node(c) => {
                if c.kind == SyntaxKind::PLAIN_INSTR || c.kind == SyntaxKind::BLOCK_BLOCK || c.kind
                    == SyntaxKind::BLOCK_LOOP || c.kind == SyntaxKind::BLOCK_IF || c.kind
                    == SyntaxKind::BLOCK_TRY_TABLE {
                    proof {
                        lemma_first_instr_stable(node.children@, i + 1, node.children@.len() as int);
                    }
                    return Some(c);
                }
            },
            SyntaxElement::Token(_) => {},
        }
        i = i + 1;
    }
    None
}

proof fn lemma_first_instr_stable(children: Seq<SyntaxElement>, a: int, n: int)
    requires
        0 <= a <= n,
        first_instr(children, a) is Some,
    ensures
        first_instr(children, n) == first_instr(children, a),
    decreases n - a,
{
    if n > a {
        lemma_first_instr_stable(children, a, n - 1);
    }
}

fn find_located<'a>(root: &'a SyntaxNode, ptr: SyntaxNodePtr) -> (r: Option<(&'a SyntaxNode, Option<&'a SyntaxNode>)>)
    ensures
        match located(*root, ptr) {
            Some((n, p)) => r matches Some((m, q)) && *m == n && match p {
                Some(pp) => q matches Some(qq) && *qq == pp,
                None => q is None,
            },
            None => r is None,
        },
{
    match locate_node(root, ptr) {
        Some((parent, i)) => match &parent.children[i] {
            SyntaxElement::Node(c) => Some((c, prev_node(parent, i))),
            SyntaxElement::Token(_) => None,
        },
        None => None,
    }
}

fn set_last(ranges: &mut Vec<TextRange>, r: TextRange)
    requires
        old(ranges)@.len() > 0,
    ensures
        final(ranges)@ == old(ranges)@.update(old(ranges)@.len() - 1, r),
{
    let n = ranges.len();
    ranges.set(n - 1, r);
}

fn add_instr(ranges: &mut Vec<TextRange>, node: &SyntaxNode, prev: Option<&SyntaxNode>)
    ensures
        final(ranges)@ == merge_instr(
            old(ranges)@,
            *node,
            match prev {
                Some(p) => Some(*p),
                None => None,
            },
        ),
{
    let cur = node.range;
    let first = find_first_instr(node);
    let name = node.token_of_kind(SyntaxKind::INSTR_NAME);
    let n = ranges.len();
    if n > 0 {
        let last = ranges[n - 1];
        let prev_in_last = match prev {
            Some(p) => range_covers(last, p.range),
            None => false,
        };
        if prev_in_last {
            set_last(ranges, last.cover(&cur));
        } else if range_covers(cur, last) {
            let split = match first {
                Some(f) => !range_covers(last, f.range),
                None => false,
            };
            if split {
                match name {
                    Some(t) => ranges.push(t.range),
                    None => {},
                }
            } else {
                set_last(ranges, cur);
            }
        } else if !range_covers(last, cur) {
            ranges.push(cur);
        }
    } else {
        match (first, name) {
            (Some(_), Some(t)) => ranges.push(t.range),
            _ => ranges.push(cur),
        }
    }
}

fn add_entry(ranges: &mut Vec<TextRange>, node: &SyntaxNode, prev: Option<&SyntaxNode>)
    ensures
        final(ranges)@ == merge_entry(
            old(ranges)@,
            *node,
            match prev {
                Some(p) => Some(*p),
                None => None,
            },
        ),
{
    let n = ranges.len();
    let merge = match prev {
        Some(p) => n > 0 && range_covers(ranges[n - 1], p.range),
        None => false,
    };
    if merge {
        let last = ranges[n - 1];
        set_last(ranges, last.cover(&node.range));
    } else {
        ranges.push(node.range);
    }
}

fn add_block(ranges: &mut Vec<TextRange>, root: &SyntaxNode, instrs: &Vec<BasicBlockInstr>)
    requires
        forall|k: int| 0 <= k < instrs@.len() ==> located(*root, #[trigger] instrs@[k].ptr) is Some,
    ensures
        final(ranges)@ == merge_block(old(ranges)@, *root, instrs@, instrs@.len() as int),
{
    let mut i: usize = 0;
    while i < instrs.len()
        invariant
            i <= instrs@.len(),
            forall|k: int| 0 <= k < instrs@.len() ==> located(*root, #[trigger] instrs@[k].ptr) is Some,
            ranges@ == merge_block(old(ranges)@, *root, instrs@, i as int),
        decreases instrs@.len() - i,
    {
        assert(located(*root, instrs@[i as int].ptr) is Some);
        match find_located(root, instrs[i].ptr) {
            Some((node, prev)) => {
                add_instr(ranges, node, prev);
            },
            None => {},
        }
        i = i + 1;
    }
}

/// The unreachable ranges of a function's graph: see `unreachable_ranges`.
pub fn unreachable_code(root: &SyntaxNode, cfg: &ControlFlowGraph) -> (r: Vec<TextRange>)
    requires
        pointers_resolve(*root, cfg@),
    ensures
        r@ == unreachable_ranges(*root, cfg@, cfg@.len() as int),
{
    let nodes = cfg.nodes();
    let mut ranges: Vec<TextRange> = Vec::new();
    let mut i: usize = 0;
    while i < nodes.len()
        invariant
            nodes@ == cfg@,
            i <= nodes@.len(),
            pointers_resolve(*root, cfg@),
            ranges@ == unreachable_ranges(*root, cfg@, i as int),
        decreases nodes@.len() - i,
    {
        let node = &nodes[i];
        if node.unreachable {
            match &node.kind {
                FlowNodeKind::BasicBlock(bb) => {
                    assert(nodes@[i as int].unreachable);
                    add_block(&mut ranges, root, &bb.0);
                },
                FlowNodeKind::BlockEntry(ptr) => {
                    assert(nodes@[i as int].unreachable);
                    match find_located(root, *ptr) {
                        Some((n, prev)) => {
                            add_entry(&mut ranges, n, prev);
                        },
                        None => {},
                    }
                },
                _ => {},
            }
        }
        i = i + 1;
    }
    ranges
}

/// Reports the unreachable code of a function whose body is under `root`
/// and whose graph is `cfg`: see `unreachable_diags`.
pub fn check(diagnostics: &mut Vec<Diagnostic>, lint_level: LintLevel, root: &SyntaxNode, cfg: &ControlFlowGraph)
    requires
        pointers_resolve(*root, cfg@),
    ensures
        diag_views(final(diagnostics)@) == diag_views(old(diagnostics)@) + unreachable_diags(lint_level, *root, cfg@),
{
    let severity = match lint_severity(lint_level) {
        Some(s) => s,
        None => {
            assert(diag_views(old(diagnostics)@) + seq![] =~= diag_views(old(diagnostics)@));
            return ;
        },
    };
    let ranges = unreachable_code(root, cfg);
    let ghost all = ranges@.map_values(|r: TextRange| unreachable_diag(r, severity));
    let mut i: usize = 0;
    assert(diag_views(old(diagnostics)@) + seq![] =~= diag_views(old(diagnostics)@));
    while i < ranges.len()
        invariant
            i <= ranges@.len(),
            all == ranges@.map_values(|r: TextRange| unreachable_diag(r, severity)),
            diag_views(diagnostics@) == diag_views(old(diagnostics)@) + all.subrange(0, i as int),
        decreases ranges@.len() - i,
    {
        let ghost before = diag_views(diagnostics@);
        let mut tags = Vec::new();
        tags.push(DiagnosticTag::Unnecessary);
        let d = Diagnostic {
            range: ranges[i],
            severity,
            code: String::from_str("unreachable"),
            message: String::from_str("unreachable code"),
            tags: Some(tags),
            data: None,
            related_information: None,
        };
        assert(tags@ =~= seq![DiagnosticTag::Unnecessary]);
        diagnostics.push(d);
        assert(diag_views(diagnostics@) =~= before.push(d@));
        assert(all.subrange(0, i + 1) =~= all.subrange(0, i as int).push(all[i as int]));
        i = i + 1;
    }
    assert(all.subrange(0, all.len() as int) =~= all);
}

/// A graph none of whose nodes is unreachable gives no range.
pub proof fn law_reachable_graph_is_silent(root: SyntaxNode, nodes: Seq<FlowNode>)
    requires
        forall|i: int| 0 <= i < nodes.len() ==> !(#[trigger] nodes[i].unreachable),
    ensures
        unreachable_ranges(root, nodes, nodes.len() as int) == Seq::<TextRange>::empty(),
{
    lemma_reachable_prefix(root, nodes, nodes.len() as int);
}

proof fn lemma_reachable_prefix(root: SyntaxNode, nodes: Seq<FlowNode>, n: int)
    requires
        n <= nodes.len(),
        forall|i: int| 0 <= i < nodes.len() ==> !(#[trigger] nodes[i].unreachable),
    ensures
        unreachable_ranges(root, nodes, n) == Seq::<TextRange>::empty(),
    decreases n,
{
    if n > 0 {
        lemma_reachable_prefix(root, nodes, n - 1);
        assert(!nodes[n - 1].unreachable);
    }
}

} // verus!
