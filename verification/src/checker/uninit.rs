//! Reads of non-defaultable locals before any write on every path.

use super::locals::{
    classify_local_access, first_immediate_key, instr_targets_local, is_read, is_write, writes_before,
    LocalAccess,
};
use super::{diag_views, plain_diag, Diagnostic, DiagnosticSeverity, DiagnosticView};
use crate::binder::{symbol_of_key, Symbol, SymbolKey, SymbolTable};
use crate::idx::{ident_texts, render_idx};
use crate::cfa::{
    flow_ids_as_slice, graph_wf, ins, outs, BasicBlock, BasicBlockInstr, ControlFlowGraph, FlowNode,
    FlowNodeId, FlowNodeKind,
};
use crate::syntax::SyntaxKind;
use vstd::prelude::*;

verus! {

broadcast use vstd::seq_lib::group_to_multiset_ensures;

/// What is known of a local around one flow node.
#[derive(Clone, Copy, Debug, PartialEq, Eq, Structural)]
pub struct BlockMark {
    /// Every path into this node has written the local.
    pub in_kill: bool,
    /// The local is written when control leaves this node.
    pub out_kill: bool,
}

impl Default for BlockMark {
    fn default() -> (r: BlockMark)
        ensures
            !r.in_kill,
            !r.out_kill,
    {
        BlockMark { in_kill: false, out_kill: false }
    }
}

impl BlockMark {
    /// The mark of a basic block: the local is written on leaving it when one
    /// of its instructions writes it.
    pub fn new(bb: &BasicBlock, symbol_table: &SymbolTable, def_key: SymbolKey) -> (r: BlockMark)
        requires
            symbol_table.wf(),
        ensures
            !r.in_kill,
            r.out_kill == writes_before(*symbol_table, bb.0@, def_key, bb.0@.len() as int),
    {
        let mut out_kill = false;
        let mut i: usize = 0;
        while i < bb.0.len()
            invariant
                symbol_table.wf(),
                i <= bb.0@.len(),
                out_kill == writes_before(*symbol_table, bb.0@, def_key, i as int),
            decreases bb.0@.len() - i,
        {
            let instr = &bb.0[i];
            if classify_local_access(&instr.name) == LocalAccess::Write && instr_targets_local(
                symbol_table,
                instr,
                def_key,
            ) {
                out_kill = true;
            }
            proof {
                if writes_before(*symbol_table, bb.0@, def_key, i + 1) && !writes_before(
                    *symbol_table,
                    bb.0@,
                    def_key,
                    i as int,
                ) {
                    let j = choose|j: int| 0 <= j < i + 1 && is_write(*symbol_table, #[trigger] bb.0@[j], def_key);
                    assert(j == i as int);
                }
            }
            i = i + 1;
        }
        BlockMark { in_kill: false, out_kill }
    }
}

/// Keys of the reads among the first `n` instructions that happen while the
/// local may still be uninitialized: not written on entry (`in_kill`) nor by
/// an earlier instruction of the block.
pub open spec fn uninit_reads(
    t: SymbolTable,
    bb: Seq<BasicBlockInstr>,
    def: SymbolKey,
    in_kill: bool,
    n: int,
) -> Seq<SymbolKey>
    decreases n,
{
    if n <= 0 {
        Seq::empty()
    } else {
        let rest = uninit_reads(t, bb, def, in_kill, n - 1);
        if is_read(t, bb[n - 1], def) && !in_kill && !writes_before(t, bb, def, n - 1) {
            rest.push(first_immediate_key(bb[n - 1]))
        } else {
            rest
        }
    }
}

/// Reports the reads of the local in a basic block that may happen before it
/// is written, and records in the mark whether the block writes it.
pub fn detect_uninit(
    bb: &BasicBlock,
    def_key: SymbolKey,
    mark: &mut BlockMark,
    symbol_table: &SymbolTable,
) -> (r: Vec<SymbolKey>)
    requires
        symbol_table.wf(),
    ensures
        r@ == uninit_reads(*symbol_table, bb.0@, def_key, old(mark).in_kill, bb.0@.len() as int),
        final(mark).in_kill == (old(mark).in_kill || writes_before(
            *symbol_table,
            bb.0@,
            def_key,
            bb.0@.len() as int,
        )),
        final(mark).out_kill == old(mark).out_kill,
{
    let ghost in_kill0 = mark.in_kill;
    let mut r: Vec<SymbolKey> = Vec::new();
    let mut i: usize = 0;
    while i < bb.0.len()
        invariant
            symbol_table.wf(),
            i <= bb.0@.len(),
            r@ == uninit_reads(*symbol_table, bb.0@, def_key, in_kill0, i as int),
            mark.in_kill == (in_kill0 || writes_before(*symbol_table, bb.0@, def_key, i as int)),
            mark.out_kill == old(mark).out_kill,
            in_kill0 == old(mark).in_kill,
        decreases bb.0@.len() - i,
    {
        let instr = &bb.0[i];
        match classify_local_access(&instr.name) {
            LocalAccess::Read => {
                if instr_targets_local(symbol_table, instr, def_key) && !mark.in_kill {
                    r.push(SymbolKey(instr.immediates[0]));
                }
            },
            LocalAccess::Write => {
                if instr_targets_local(symbol_table, instr, def_key) {
                    mark.in_kill = true;
                }
            },
            LocalAccess::Other => {},
        }
        proof {
            if writes_before(*symbol_table, bb.0@, def_key, i + 1) && !writes_before(
                *symbol_table,
                bb.0@,
                def_key,
                i as int,
            ) {
                let j = choose|j: int| 0 <= j < i + 1 && is_write(*symbol_table, #[trigger] bb.0@[j], def_key);
                assert(j == i as int);
            }
        }
        i = i + 1;
    }
    r
}

/// The mark of node `id`, if the id is in range and the node carries one.
pub open spec fn mark_of(marks: Seq<Option<BlockMark>>, id: FlowNodeId) -> Option<BlockMark> {
    if (id.0 as int) < marks.len() {
        marks[id.0 as int]
    } else {
        None
    }
}

/// Whether the edge from `src` into `cur` counts when judging `cur`: a jump
/// from inside a loop back to its start does not, so that the first
/// iteration is what is judged.
pub open spec fn counts_incoming(nodes: Seq<FlowNode>, cur: FlowNode, src: FlowNodeId) -> bool {
    match cur.kind {
        FlowNodeKind::BlockEntry(entry) => {
            if (src.0 as int) < nodes.len() {
                match nodes[src.0 as int].kind {
                    FlowNodeKind::BasicBlock(bb) => entry.kind != SyntaxKind::BLOCK_LOOP || (bb.0@.len()
                        > 0 && !(entry.range.start <= bb.0@.last().ptr.range.end
                        && bb.0@.last().ptr.range.end < entry.range.end)),
                    _ => true,
                }
            } else {
                true
            }
        },
        _ => true,
    }
}

/// Whether a predecessor counts and carries a mark.
pub open spec fn counted_marked(
    nodes: Seq<FlowNode>,
    marks: Seq<Option<BlockMark>>,
    i: int,
    src: FlowNodeId,
) -> bool {
    counts_incoming(nodes, nodes[i], src) && mark_of(marks, src) is Some
}

/// Whether the local is written on entry to node `i`: some counted
/// predecessor carries a mark, and every one that does writes the local.
pub open spec fn entry_written(nodes: Seq<FlowNode>, marks: Seq<Option<BlockMark>>, i: int) -> bool {
    &&& exists|k: int|
        0 <= k < ins(nodes, i).len() && counted_marked(nodes, marks, i, #[trigger] ins(nodes, i)[k])
    &&& forall|k: int|
        0 <= k < ins(nodes, i).len() && counted_marked(nodes, marks, i, #[trigger] ins(nodes, i)[k])
            ==> mark_of(marks, ins(nodes, i)[k]).unwrap().out_kill
}

/// Marks `f` carry marks where `m` does and write the local wherever `m` does.
pub open spec fn le_marks(m: Seq<Option<BlockMark>>, f: Seq<Option<BlockMark>>) -> bool {
    &&& m.len() == f.len()
    &&& forall|i: int| 0 <= i < m.len() ==> (#[trigger] m[i] is Some) == (f[i] is Some)
    &&& forall|i: int|
        0 <= i < m.len() && (#[trigger] m[i] matches Some(mm) && mm.out_kill) ==> f[i].unwrap().out_kill
}

/// Marks closed under the propagation rules, starting from `base`: the same
/// nodes carry marks, a node writes the local when it did in `base` or on
/// entry, and entry is written when the counted predecessors say so.
pub open spec fn closed_marks(
    nodes: Seq<FlowNode>,
    base: Seq<Option<BlockMark>>,
    f: Seq<Option<BlockMark>>,
) -> bool {
    &&& f.len() == base.len()
    &&& forall|i: int| 0 <= i < f.len() ==> (#[trigger] f[i] is Some) == (base[i] is Some)
    &&& forall|i: int|
        0 <= i < f.len() && (#[trigger] f[i] matches Some(fm)) ==> {
            &&& (base[i].unwrap().out_kill ==> f[i].unwrap().out_kill)
            &&& (f[i].unwrap().in_kill ==> f[i].unwrap().out_kill)
            &&& (entry_written(nodes, f, i) ==> f[i].unwrap().in_kill)
        }
}

/// Every node written on entry in `m` is written on entry in `f`.
pub open spec fn killed_within(m: Seq<Option<BlockMark>>, f: Seq<Option<BlockMark>>) -> bool {
    forall|i: int|
        0 <= i < m.len() && (#[trigger] m[i] matches Some(mm) && mm.in_kill) ==> f[i].unwrap().in_kill
}

/// The result of propagating `base`: the same nodes carry marks, a node
/// writes the local when it did in `base` or on entry, entry is written
/// exactly when the counted predecessors say so, and no node is written on
/// entry unless it is in every marking closed under these rules.
pub open spec fn is_least_marks(
    nodes: Seq<FlowNode>,
    base: Seq<Option<BlockMark>>,
    m: Seq<Option<BlockMark>>,
) -> bool {
    &&& m.len() == base.len()
    &&& forall|i: int| 0 <= i < m.len() ==> (#[trigger] m[i] is Some) == (base[i] is Some)
    &&& forall|i: int|
        0 <= i < m.len() && (#[trigger] m[i] matches Some(mm)) ==> {
            &&& m[i].unwrap().out_kill == (base[i].unwrap().out_kill || m[i].unwrap().in_kill)
            &&& (m[i].unwrap().in_kill <==> entry_written(nodes, m, i))
        }
    &&& forall|f: Seq<Option<BlockMark>>| #[trigger] closed_marks(nodes, base, f) ==> killed_within(m, f)
}

/// Number of marked nodes among the first `n` not yet written on entry.
pub open spec fn unkilled(m: Seq<Option<BlockMark>>, n: int) -> nat
    decreases n,
{
    if n <= 0 {
        0
    } else {
        unkilled(m, n - 1) + if m[n - 1] matches Some(mm) && !mm.in_kill {
            1nat
        } else {
            0nat
        }
    }
}

proof fn lemma_unkilled_update(m: Seq<Option<BlockMark>>, t: Seq<Option<BlockMark>>, k: int, n: int)
    requires
        m.len() == t.len(),
        0 <= k < m.len(),
        0 <= n <= m.len(),
        forall|j: int| 0 <= j < m.len() && j != k ==> t[j] == m[j],
        m[k] matches Some(mm) && !mm.in_kill,
        t[k] matches Some(tm) && tm.in_kill,
    ensures
        n > k ==> unkilled(t, n) + 1 == unkilled(m, n),
        n <= k ==> unkilled(t, n) == unkilled(m, n),
    decreases n,
{
    if n > 0 {
        lemma_unkilled_update(m, t, k, n - 1);
    }
}

/// Entry stays written when marks only gain writes.
proof fn lemma_entry_written_mono(
    nodes: Seq<FlowNode>,
    m: Seq<Option<BlockMark>>,
    f: Seq<Option<BlockMark>>,
    i: int,
)
    requires
        le_marks(m, f),
        entry_written(nodes, m, i),
    ensures
        entry_written(nodes, f, i),
{
    let k = choose|k: int|
        0 <= k < ins(nodes, i).len() && counted_marked(nodes, m, i, #[trigger] ins(nodes, i)[k]);
    let p = ins(nodes, i)[k];
    if (p.0 as int) < m.len() {
        assert(m[p.0 as int] is Some);
    }
    assert(counted_marked(nodes, f, i, ins(nodes, i)[k]));
    assert forall|k2: int|
        0 <= k2 < ins(nodes, i).len() && counted_marked(nodes, f, i, #[trigger] ins(nodes, i)[k2]) implies mark_of(
        f,
        ins(nodes, i)[k2],
    ).unwrap().out_kill by {
        let q = ins(nodes, i)[k2];
        if (q.0 as int) < f.len() {
            assert(f[q.0 as int] is Some);
            assert(m[q.0 as int] is Some);
            assert(counted_marked(nodes, m, i, ins(nodes, i)[k2]));
        }
    }
}

/// Entry is judged the same when the marks of the predecessors are unchanged.
proof fn lemma_entry_written_frame(
    nodes: Seq<FlowNode>,
    m: Seq<Option<BlockMark>>,
    t: Seq<Option<BlockMark>>,
    i: int,
)
    requires
        forall|k: int|
            0 <= k < ins(nodes, i).len() ==> {
                let p = #[trigger] ins(nodes, i)[k];
                &&& (mark_of(t, p) is Some) == (mark_of(m, p) is Some)
                &&& mark_of(m, p) is Some ==> mark_of(t, p).unwrap().out_kill == mark_of(
                    m,
                    p,
                ).unwrap().out_kill
            },
    ensures
        entry_written(nodes, t, i) == entry_written(nodes, m, i),
{
    if entry_written(nodes, m, i) {
        let k = choose|k: int|
            0 <= k < ins(nodes, i).len() && counted_marked(nodes, m, i, #[trigger] ins(nodes, i)[k]);
        assert(counted_marked(nodes, t, i, ins(nodes, i)[k]));
    }
    if entry_written(nodes, t, i) {
        let k = choose|k: int|
            0 <= k < ins(nodes, i).len() && counted_marked(nodes, t, i, #[trigger] ins(nodes, i)[k]);
        assert(counted_marked(nodes, m, i, ins(nodes, i)[k]));
    }
}

/// Whether the edge from `src` into `cur` counts when judging `cur`.
fn edge_counts(cfg: &ControlFlowGraph, cur: &FlowNode, src: FlowNodeId) -> (r: bool)
    ensures
        r == counts_incoming(cfg@, *cur, src),
{
    match &cur.kind {
        FlowNodeKind::BlockEntry(entry) => match cfg.get_node(src) {
            Some(node) => match &node.kind {
                FlowNodeKind::BasicBlock(bb) => {
                    if entry.kind != SyntaxKind::BLOCK_LOOP {
                        true
                    } else if bb.0.len() == 0 {
                        false
                    } else {
                        !entry.range.contains(bb.0[bb.0.len() - 1].ptr.range.end)
                    }
                },
                _ => true,
            },
            None => true,
        },
        _ => true,
    }
}

/// Whether the local is written on entry to node `i`, judged from the marks
/// of its counted predecessors.
fn incoming_written(
    cfg: &ControlFlowGraph,
    i: FlowNodeId,
    cur: &FlowNode,
    marks: &Vec<Option<BlockMark>>,
) -> (r: bool)
    requires
        (i.0 as int) < cfg@.len(),
        *cur == cfg@[i.0 as int],
    ensures
        r == entry_written(cfg@, marks@, i.0 as int),
{
    let ghost n = i.0 as int;
    let incomings = flow_ids_as_slice(&cur.incomings);
    let mut seen = false;
    let mut all = true;
    let mut k: usize = 0;
    while k < incomings.len()
        invariant
            n == i.0 as int,
            0 <= n < cfg@.len(),
            *cur == cfg@[n],
            incomings@ == ins(cfg@, n),
            k <= incomings@.len(),
            seen == exists|j: int|
                0 <= j < k && counted_marked(cfg@, marks@, n, #[trigger] ins(cfg@, n)[j]),
            all == forall|j: int|
                0 <= j < k && counted_marked(cfg@, marks@, n, #[trigger] ins(cfg@, n)[j])
                    ==> mark_of(marks@, ins(cfg@, n)[j]).unwrap().out_kill,
        decreases incomings@.len() - k,
    {
        let src = incomings[k];
        if edge_counts(cfg, cur, src) && (src.0 as usize) < marks.len() {
            match marks[src.0 as usize] {
                Some(m) => {
                    seen = true;
                    all = all && m.out_kill;
                },
                None => {},
            }
        }
        proof {
            assert(ins(cfg@, n)[k as int] == src);
            if seen && !(exists|j: int|
                0 <= j < k && counted_marked(cfg@, marks@, n, #[trigger] ins(cfg@, n)[j])) {
                assert(counted_marked(cfg@, marks@, n, ins(cfg@, n)[k as int]));
            }
        }
        k = k + 1;
    }
    seen && all
}

/// The successors of every marked node that writes the local.
fn initial_worklist(cfg: &ControlFlowGraph, marks: &Vec<Option<BlockMark>>) -> (w: Vec<FlowNodeId>)
    requires
        graph_wf(cfg@),
        marks@.len() == cfg@.len(),
    ensures
        forall|p: int, k: int|
            0 <= p < marks@.len() && (marks@[p] matches Some(m) && m.out_kill) && 0 <= k < outs(
                cfg@,
                p,
            ).len() ==> w@.contains(#[trigger] outs(cfg@, p)[k]),
{
    let nodes = cfg.nodes();
    let mut w: Vec<FlowNodeId> = Vec::new();
    let mut p: usize = 0;
    while p < marks.len()
        invariant
            nodes@ == cfg@,
            marks@.len() == cfg@.len(),
            p <= marks@.len(),
            forall|q: int, k: int|
                0 <= q < p && (marks@[q] matches Some(m) && m.out_kill) && 0 <= k < outs(
                    cfg@,
                    q,
                ).len() ==> w@.contains(#[trigger] outs(cfg@, q)[k]),
        decreases marks@.len() - p,
    {
        let written = match marks[p] {
            Some(m) => m.out_kill,
            None => false,
        };
        if written {
            let outgoings = flow_ids_as_slice(&nodes[p].outgoings);
            let ghost w0 = w@;
            let mut k: usize = 0;
            while k < outgoings.len()
                invariant
                    outgoings@ == outs(cfg@, p as int),
                    k <= outgoings@.len(),
                    w@.len() >= w0.len(),
                    forall|j: int| 0 <= j < w0.len() ==> w@[j] == w0[j],
                    forall|j: int| 0 <= j < k ==> w@.contains(#[trigger] outs(cfg@, p as int)[j]),
                decreases outgoings@.len() - k,
            {
                let ghost before = w@;
                w.push(outgoings[k]);
                proof {
                    assert(w@[w@.len() - 1] == outs(cfg@, p as int)[k as int]);
                    assert forall|j: int| 0 <= j < k + 1 implies w@.contains(
                        #[trigger] outs(cfg@, p as int)[j],
                    ) by {
                        if j < k {
                            assert(before.contains(outs(cfg@, p as int)[j]));
                            let t = choose|t: int| 0 <= t < before.len() && before[t] == outs(cfg@, p as int)[j];
                            assert(w@[t] == outs(cfg@, p as int)[j]);
                        } else {
                            assert(w@[w@.len() - 1] == outs(cfg@, p as int)[j]);
                        }
                    }
                }
                k = k + 1;
            }
            proof {
                assert forall|q: int, k2: int|
                    0 <= q < p + 1 && (marks@[q] matches Some(m) && m.out_kill) && 0 <= k2 < outs(
                        cfg@,
                        q,
                    ).len() implies w@.contains(#[trigger] outs(cfg@, q)[k2]) by {
                    if q < p {
                        assert(w0.contains(outs(cfg@, q)[k2]));
                        let t = choose|t: int| 0 <= t < w0.len() && w0[t] == outs(cfg@, q)[k2];
                        assert(w@[t] == outs(cfg@, q)[k2]);
                    }
                }
            }
        }
        p = p + 1;
    }
    w
}

/// Appends ids in order.
pub(crate) fn push_ids(w: &mut Vec<FlowNodeId>, ids: &[FlowNodeId])
    ensures
        final(w)@ == old(w)@ + ids@,
{
    let mut k: usize = 0;
    while k < ids.len()
        invariant
            k <= ids@.len(),
            w@ == old(w)@ + ids@.subrange(0, k as int),
        decreases ids@.len() - k,
    {
        w.push(ids[k]);
        proof {
            assert(ids@.subrange(0, k + 1) == ids@.subrange(0, k as int).push(ids@[k as int]));
        }
        k = k + 1;
    }
    assert(ids@.subrange(0, ids@.len() as int) == ids@);
}

/// Spreads writes of the local forward through the graph.
///
/// A node is written on entry when its counted predecessors say so (see
/// `entry_written`); it then writes the local on leaving too. The result is
/// the least marking closed under these rules that starts from `marks`.
fn propagate(cfg: &ControlFlowGraph, marks: &mut Vec<Option<BlockMark>>)
    requires
        graph_wf(cfg@),
        old(marks)@.len() == cfg@.len(),
        forall|i: int|
            0 <= i < old(marks)@.len() && (#[trigger] old(marks)@[i]) is Some ==> !old(marks)@[i].unwrap().in_kill,
    ensures
        is_least_marks(cfg@, old(marks)@, final(marks)@),
{
    let ghost base = marks@;
    let ghost len = base.len();
    let mut worklist = initial_worklist(cfg, marks);
    proof {
        assert forall|i: int|
            0 <= i < len && (marks@[i] matches Some(m) && !m.in_kill) && entry_written(
                cfg@,
                marks@,
                i,
            ) implies worklist@.contains(FlowNodeId(i as u32)) by {
            let k = choose|k: int|
                0 <= k < ins(cfg@, i).len() && counted_marked(
                    cfg@,
                    marks@,
                    i,
                    #[trigger] ins(cfg@, i)[k],
                );
            let p = ins(cfg@, i)[k];
            assert(ins(cfg@, i).contains(p));
            assert(FlowNodeId(p.0 as int as u32) == p);
            assert(outs(cfg@, p.0 as int).to_multiset().count(FlowNodeId(i as u32)) == ins(
                cfg@,
                i,
            ).to_multiset().count(FlowNodeId(p.0 as int as u32)));
            assert(outs(cfg@, p.0 as int).contains(FlowNodeId(i as u32)));
            let k2 = choose|k2: int|
                0 <= k2 < outs(cfg@, p.0 as int).len() && outs(cfg@, p.0 as int)[k2] == FlowNodeId(
                    i as u32,
                );
            assert(worklist@.contains(outs(cfg@, p.0 as int)[k2]));
        }
    }
    while worklist.len() > 0
        invariant
            graph_wf(cfg@),
            base.len() == cfg@.len(),
            len == base.len(),
            marks@.len() == len,
            forall|i: int| 0 <= i < len ==> (#[trigger] marks@[i] is Some) == (base[i] is Some),
            forall|i: int|
                0 <= i < len && (#[trigger] marks@[i] matches Some(m)) ==> marks@[i].unwrap().out_kill == (
                base[i].unwrap().out_kill || marks@[i].unwrap().in_kill),
            forall|i: int|
                0 <= i < len && (#[trigger] marks@[i] matches Some(m) && m.in_kill) ==> entry_written(
                    cfg@,
                    marks@,
                    i,
                ),
            forall|i: int|
                0 <= i < len && (#[trigger] marks@[i] matches Some(m) && !m.in_kill) && entry_written(
                    cfg@,
                    marks@,
                    i,
                ) ==> worklist@.contains(FlowNodeId(i as u32)),
            forall|f: Seq<Option<BlockMark>>| #[trigger]
                closed_marks(cfg@, base, f) ==> killed_within(marks@, f),
        decreases unkilled(marks@, marks@.len() as int), worklist@.len(),
    {
        let ghost w_before = worklist@;
        let ghost m0 = marks@;
        let id = worklist.pop().unwrap();
        let ghost w_rest = worklist@;
        proof {
            assert(w_before == w_rest.push(id));
            assert forall|x: FlowNodeId| w_before.contains(x) && x != id implies w_rest.contains(x) by {
                let t = choose|t: int| 0 <= t < w_before.len() && w_before[t] == x;
                assert(t < w_rest.len());
                assert(w_rest[t] == x);
            }
        }
        let mut changed = false;
        match cfg.get_node(id) {
            Some(current) => {
                if incoming_written(cfg, id, current, marks) {
                    let idx = id.0 as usize;
                    match marks[idx] {
                        Some(mark) => {
                            if !mark.in_kill {
                                marks.set(idx, Some(BlockMark { in_kill: true, out_kill: true }));
                                if !mark.out_kill {
                                    let outgoings = flow_ids_as_slice(&current.outgoings);
                                    push_ids(&mut worklist, outgoings);
                                }
                                changed = true;
                                proof {
                                    lemma_propagate_step(cfg@, base, m0, marks@, idx as int, w_rest, worklist@, mark.out_kill);
                                }
                            }
                        },
                        None => {},
                    }
                }
            },
            None => {},
        }
        proof {
            if !changed {
                assert(marks@ == m0);
                assert forall|i: int|
                    0 <= i < len && (#[trigger] marks@[i] matches Some(m) && !m.in_kill) && entry_written(
                        cfg@,
                        marks@,
                        i,
                    ) implies worklist@.contains(FlowNodeId(i as u32)) by {
                    assert(w_before.contains(FlowNodeId(i as u32)));
                    if FlowNodeId(i as u32) == id {
                        assert(id.0 as int == i);
                    }
                }
            }
        }
    }
    proof {
        assert forall|i: int|
            0 <= i < marks@.len() && (#[trigger] marks@[i] matches Some(mm)) implies (marks@[i].unwrap().in_kill
                <==> entry_written(cfg@, marks@, i)) by {
            if !marks@[i].unwrap().in_kill && entry_written(cfg@, marks@, i) {
                assert(worklist@.contains(FlowNodeId(i as u32)));
            }
        }
    }
}

/// One step of `propagate`: node `idx`, written on entry by its
/// predecessors, becomes written on entry and on leaving.
proof fn lemma_propagate_step(
    nodes: Seq<FlowNode>,
    base: Seq<Option<BlockMark>>,
    m0: Seq<Option<BlockMark>>,
    m1: Seq<Option<BlockMark>>,
    idx: int,
    w_rest: Seq<FlowNodeId>,
    w_new: Seq<FlowNodeId>,
    was_out: bool,
)
    requires
        graph_wf(nodes),
        base.len() == nodes.len(),
        m0.len() == base.len(),
        0 <= idx < m0.len(),
        forall|i: int| 0 <= i < m0.len() ==> (#[trigger] m0[i] is Some) == (base[i] is Some),
        forall|i: int|
            0 <= i < m0.len() && (#[trigger] m0[i] matches Some(m)) ==> m0[i].unwrap().out_kill == (
            base[i].unwrap().out_kill || m0[i].unwrap().in_kill),
        forall|i: int|
            0 <= i < m0.len() && (#[trigger] m0[i] matches Some(m) && m.in_kill) ==> entry_written(
                nodes,
                m0,
                i,
            ),
        forall|i: int|
            0 <= i < m0.len() && (#[trigger] m0[i] matches Some(m) && !m.in_kill) && entry_written(
                nodes,
                m0,
                i,
            ) ==> w_rest.push(FlowNodeId(idx as u32)).contains(FlowNodeId(i as u32)),
        forall|f: Seq<Option<BlockMark>>| #[trigger]
            closed_marks(nodes, base, f) ==> killed_within(m0, f),
        entry_written(nodes, m0, idx),
        m0[idx] matches Some(m) && !m.in_kill && m.out_kill == was_out,
        m1 == m0.update(idx, Some(BlockMark { in_kill: true, out_kill: true })),
        was_out ==> w_new == w_rest,
        !was_out ==> w_new == w_rest + outs(nodes, idx),
    ensures
        forall|i: int| 0 <= i < m1.len() ==> (#[trigger] m1[i] is Some) == (base[i] is Some),
        forall|i: int|
            0 <= i < m1.len() && (#[trigger] m1[i] matches Some(m)) ==> m1[i].unwrap().out_kill == (
            base[i].unwrap().out_kill || m1[i].unwrap().in_kill),
        forall|i: int|
            0 <= i < m1.len() && (#[trigger] m1[i] matches Some(m) && m.in_kill) ==> entry_written(
                nodes,
                m1,
                i,
            ),
        forall|i: int|
            0 <= i < m1.len() && (#[trigger] m1[i] matches Some(m) && !m.in_kill) && entry_written(
                nodes,
                m1,
                i,
            ) ==> w_new.contains(FlowNodeId(i as u32)),
        forall|f: Seq<Option<BlockMark>>| #[trigger]
            closed_marks(nodes, base, f) ==> killed_within(m1, f),
        unkilled(m1, m1.len() as int) < unkilled(m0, m0.len() as int),
{
    let id = FlowNodeId(idx as u32);
    assert(le_marks(m0, m1));
    assert forall|i: int|
        0 <= i < m1.len() && (#[trigger] m1[i] matches Some(m) && m.in_kill) implies entry_written(
        nodes,
        m1,
        i,
    ) by {
        lemma_entry_written_mono(nodes, m0, m1, i);
    }
    assert forall|i: int|
        0 <= i < m1.len() && (#[trigger] m1[i] matches Some(m) && !m.in_kill) && entry_written(
            nodes,
            m1,
            i,
        ) implies w_new.contains(FlowNodeId(i as u32)) by {
        assert(i != idx);
        assert(m0[i] == m1[i]);
        if entry_written(nodes, m0, i) {
            let w_before = w_rest.push(id);
            assert(w_before.contains(FlowNodeId(i as u32)));
            let t = choose|t: int| 0 <= t < w_before.len() && w_before[t] == FlowNodeId(i as u32);
            assert(t < w_rest.len());
            assert(w_new[t] == w_rest[t]);
            assert(w_new.contains(FlowNodeId(i as u32)));
        } else {
            if was_out || !(exists|k: int| 0 <= k < ins(nodes, i).len() && #[trigger] ins(nodes, i)[k] == id) {
                assert forall|k: int| 0 <= k < ins(nodes, i).len() implies {
                    let p = #[trigger] ins(nodes, i)[k];
                    &&& (mark_of(m1, p) is Some) == (mark_of(m0, p) is Some)
                    &&& mark_of(m0, p) is Some ==> mark_of(m1, p).unwrap().out_kill == mark_of(
                        m0,
                        p,
                    ).unwrap().out_kill
                } by {
                    let p = ins(nodes, i)[k];
                    if (p.0 as int) == idx {
                        assert(p == id);
                    }
                }
                lemma_entry_written_frame(nodes, m0, m1, i);
            }
            let k = choose|k: int| 0 <= k < ins(nodes, i).len() && #[trigger] ins(nodes, i)[k] == id;
            assert(ins(nodes, i).contains(id));
            assert(outs(nodes, idx).to_multiset().count(FlowNodeId(i as u32)) == ins(
                nodes,
                i,
            ).to_multiset().count(FlowNodeId(idx as u32)));
            assert(outs(nodes, idx).contains(FlowNodeId(i as u32)));
            let k2 = choose|k2: int|
                0 <= k2 < outs(nodes, idx).len() && outs(nodes, idx)[k2] == FlowNodeId(i as u32);
            assert(w_new[w_rest.len() + k2] == FlowNodeId(i as u32));
        }
    }
    assert forall|f: Seq<Option<BlockMark>>| #[trigger]
        closed_marks(nodes, base, f) implies killed_within(m1, f) by {
        assert(killed_within(m0, f));
        assert forall|i: int| 0 <= i < m0.len() && (#[trigger] m0[i] matches Some(mm) && mm.out_kill) implies f[i].unwrap().out_kill by {
            assert(f[i] is Some);
        }
        assert(le_marks(m0, f));
        lemma_entry_written_mono(nodes, m0, f, idx);
        assert(f[idx] is Some);
    }
    lemma_unkilled_update(m0, m1, idx, m0.len() as int);
}

/// A marking meets the rules of `propagate` for at most one result.
proof fn lemma_least_marks_unique(
    nodes: Seq<FlowNode>,
    base: Seq<Option<BlockMark>>,
    m1: Seq<Option<BlockMark>>,
    m2: Seq<Option<BlockMark>>,
)
    requires
        is_least_marks(nodes, base, m1),
        is_least_marks(nodes, base, m2),
    ensures
        m1 == m2,
{
    assert(closed_marks(nodes, base, m1));
    assert(closed_marks(nodes, base, m2));
    assert(killed_within(m1, m2));
    assert(killed_within(m2, m1));
    assert forall|i: int| 0 <= i < m1.len() implies m1[i] == m2[i] by {
        if m1[i] is Some {
            assert(m2[i] is Some);
        }
    }
    assert(m1 =~= m2);
}

/// The marking that propagating `base` gives.
pub open spec fn least_marks(nodes: Seq<FlowNode>, base: Seq<Option<BlockMark>>) -> Seq<
    Option<BlockMark>,
> {
    choose|m: Seq<Option<BlockMark>>| is_least_marks(nodes, base, m)
}

/// Propagates, with the result named.
fn propagate_marks(cfg: &ControlFlowGraph, marks: &mut Vec<Option<BlockMark>>)
    requires
        graph_wf(cfg@),
        old(marks)@.len() == cfg@.len(),
        forall|i: int|
            0 <= i < old(marks)@.len() && (#[trigger] old(marks)@[i]) is Some ==> !old(
                marks,
            )@[i].unwrap().in_kill,
    ensures
        final(marks)@ == least_marks(cfg@, old(marks)@),
        is_least_marks(cfg@, old(marks)@, final(marks)@),
{
    let ghost base = marks@;
    propagate(cfg, marks);
    proof {
        lemma_least_marks_unique(cfg@, base, marks@, least_marks(cfg@, base));
    }
}

/// The mark a node starts with: none for unreachable nodes and for the
/// entry and exit of the function; a basic block writes the local on leaving
/// when one of its instructions writes it.
pub open spec fn initial_mark(n: FlowNode, t: SymbolTable, def: SymbolKey) -> Option<BlockMark> {
    if n.unreachable {
        None
    } else {
        match n.kind {
            FlowNodeKind::BasicBlock(bb) => Some(
                BlockMark {
                    in_kill: false,
                    out_kill: writes_before(t, bb.0@, def, bb.0@.len() as int),
                },
            ),
            FlowNodeKind::BlockEntry(_) => Some(BlockMark { in_kill: false, out_kill: false }),
            FlowNodeKind::BlockExit => Some(BlockMark { in_kill: false, out_kill: false }),
            _ => None,
        }
    }
}

/// The marks all nodes start with.
pub open spec fn initial_marks(nodes: Seq<FlowNode>, t: SymbolTable, def: SymbolKey) -> Seq<
    Option<BlockMark>,
> {
    Seq::new(nodes.len(), |i: int| initial_mark(nodes[i], t, def))
}

/// The marks all nodes start with.
fn build_marks(cfg: &ControlFlowGraph, symbol_table: &SymbolTable, def_key: SymbolKey) -> (r: Vec<
    Option<BlockMark>,
>)
    requires
        symbol_table.wf(),
    ensures
        r@ == initial_marks(cfg@, *symbol_table, def_key),
{
    let nodes = cfg.nodes();
    let mut r: Vec<Option<BlockMark>> = Vec::new();
    let mut i: usize = 0;
    while i < nodes.len()
        invariant
            symbol_table.wf(),
            nodes@ == cfg@,
            i <= nodes@.len(),
            r@ == initial_marks(cfg@, *symbol_table, def_key).subrange(0, i as int),
        decreases nodes@.len() - i,
    {
        let node = &nodes[i];
        let mark = if node.unreachable {
            None
        } else {
            match &node.kind {
                FlowNodeKind::BasicBlock(bb) => Some(BlockMark::new(bb, symbol_table, def_key)),
                FlowNodeKind::BlockEntry(_) => Some(BlockMark::default()),
                FlowNodeKind::BlockExit => Some(BlockMark::default()),
                _ => None,
            }
        };
        r.push(mark);
        proof {
            assert(initial_marks(cfg@, *symbol_table, def_key).subrange(0, i + 1) =~= initial_marks(
                cfg@,
                *symbol_table,
                def_key,
            ).subrange(0, i as int).push(mark));
        }
        i = i + 1;
    }
    r
}

/// The message for a read of the local named `name` before any write.
pub open spec fn uninit_message(name: Seq<char>) -> Seq<char> {
    "local `"@ + name + "` is read before being initialized"@
}

/// The diagnostics for reads at the keys, one per key that has a symbol.
pub open spec fn uninit_key_diags(keys: Seq<SymbolKey>, t: SymbolTable, idents: Seq<Seq<char>>) -> Seq<
    DiagnosticView,
>
    decreases keys.len(),
{
    if keys.len() == 0 {
        Seq::empty()
    } else {
        let rest = uninit_key_diags(keys.drop_last(), t, idents);
        match symbol_of_key(t.symbols@, keys.last()) {
            Some(sym) => rest.push(
                plain_diag(
                    sym.key.0.range,
                    DiagnosticSeverity::Error,
                    "uninit"@,
                    uninit_message(render_idx(sym.idx, idents)),
                ),
            ),
            None => rest,
        }
    }
}

/// The diagnostics of one node, given its final mark.
pub open spec fn uninit_node_diags(
    n: FlowNode,
    mark: Option<BlockMark>,
    t: SymbolTable,
    def: SymbolKey,
    idents: Seq<Seq<char>>,
) -> Seq<DiagnosticView> {
    match n.kind {
        FlowNodeKind::BasicBlock(bb) => match mark {
            Some(m) => if n.unreachable {
                Seq::empty()
            } else {
                uninit_key_diags(uninit_reads(t, bb.0@, def, m.in_kill, bb.0@.len() as int), t, idents)
            },
            None => Seq::empty(),
        },
        _ => Seq::empty(),
    }
}

/// The diagnostics of the first `n` nodes, in node order.
pub open spec fn uninit_graph_diags(
    nodes: Seq<FlowNode>,
    marks: Seq<Option<BlockMark>>,
    t: SymbolTable,
    def: SymbolKey,
    idents: Seq<Seq<char>>,
    n: int,
) -> Seq<DiagnosticView>
    decreases n,
{
    if n <= 0 {
        Seq::empty()
    } else {
        uninit_graph_diags(nodes, marks, t, def, idents, n - 1) + uninit_node_diags(
            nodes[n - 1],
            marks[n - 1],
            t,
            def,
            idents,
        )
    }
}

/// What `check` reports for a local: nothing unless its type is known and has
/// no default value; else each read that may happen before any write.
pub open spec fn uninit_diags(
    nodes: Seq<FlowNode>,
    t: SymbolTable,
    local: Symbol,
    local_defaultable: Option<bool>,
    idents: Seq<Seq<char>>,
) -> Seq<DiagnosticView> {
    if local_defaultable == Some(false) {
        let marks = least_marks(nodes, initial_marks(nodes, t, local.key));
        uninit_graph_diags(nodes, marks, t, local.key, idents, nodes.len() as int)
    } else {
        Seq::empty()
    }
}

/// Appends a diagnostic for each key that has a symbol.
fn push_key_diags(
    diagnostics: &mut Vec<Diagnostic>,
    keys: &Vec<SymbolKey>,
    symbol_table: &SymbolTable,
    idents: &Vec<String>,
)
    requires
        symbol_table.wf(),
    ensures
        diag_views(final(diagnostics)@) == diag_views(old(diagnostics)@) + uninit_key_diags(
            keys@,
            *symbol_table,
            ident_texts(idents@),
        ),
{
    let mut j: usize = 0;
    while j < keys.len()
        invariant
            symbol_table.wf(),
            j <= keys@.len(),
            diag_views(diagnostics@) == diag_views(old(diagnostics)@) + uninit_key_diags(
                keys@.subrange(0, j as int),
                *symbol_table,
                ident_texts(idents@),
            ),
        decreases keys@.len() - j,
    {
        let key = keys[j];
        let ghost before = diagnostics@;
        assert(keys@.subrange(0, j + 1).drop_last() == keys@.subrange(0, j as int));
        assert(keys@.subrange(0, j + 1).last() == key);
        match symbol_table.symbols.get(key) {
            Some(sym) => {
                let mut message = String::from_str("local `");
                let name = sym.idx.render(idents);
                message.append(name.as_str());
                message.append("` is read before being initialized");
                let d = Diagnostic {
                    range: sym.key.0.range,
                    severity: DiagnosticSeverity::Error,
                    code: String::from_str("uninit"),
                    message,
                    tags: None,
                    data: None,
                    related_information: None,
                };
                diagnostics.push(d);
                proof {
                    assert(symbol_of_key(symbol_table.symbols@, key) == Some(*sym));
                    assert(diag_views(diagnostics@) =~= diag_views(before).push(d@));
                }
            },
            None => {},
        }
        j = j + 1;
    }
    assert(keys@.subrange(0, keys@.len() as int) == keys@);
}

/// Reports reads of a local whose type has no default value that may happen
/// before the local is written, on the first iteration of any loop.
///
/// `cfg` is the control flow graph of the function that declares the local
/// and `local_defaultable` whether the local's type has a default value
/// (`None` when the type is unknown); `idents` holds identifier texts.
pub fn check(
    diagnostics: &mut Vec<Diagnostic>,
    symbol_table: &SymbolTable,
    cfg: &ControlFlowGraph,
    local: &Symbol,
    local_defaultable: Option<bool>,
    idents: &Vec<String>,
)
    requires
        symbol_table.wf(),
        graph_wf(cfg@),
    ensures
        diag_views(final(diagnostics)@) == diag_views(old(diagnostics)@) + uninit_diags(
            cfg@,
            *symbol_table,
            *local,
            local_defaultable,
            ident_texts(idents@),
        ),
{
    match local_defaultable {
        Some(false) => {},
        _ => {
            assert(diag_views(old(diagnostics)@) + Seq::<DiagnosticView>::empty() == diag_views(
                old(diagnostics)@,
            ));
            return ;
        },
    }
    let mut marks = build_marks(cfg, symbol_table, local.key);
    propagate_marks(cfg, &mut marks);
    let ghost fin = marks@;
    let nodes = cfg.nodes();
    let mut i: usize = 0;
    while i < nodes.len()
        invariant
            symbol_table.wf(),
            nodes@ == cfg@,
            marks@ == fin,
            fin.len() == cfg@.len(),
            fin == least_marks(cfg@, initial_marks(cfg@, *symbol_table, local.key)),
            local_defaultable == Some(false),
            i <= nodes@.len(),
            diag_views(diagnostics@) == diag_views(old(diagnostics)@) + uninit_graph_diags(
                cfg@,
                fin,
                *symbol_table,
                local.key,
                ident_texts(idents@),
                i as int,
            ),
        decreases nodes@.len() - i,
    {
        let node = &nodes[i];
        let ghost before = diagnostics@;
        match &node.kind {
            FlowNodeKind::BasicBlock(bb) => {
                if !node.unreachable {
                    match marks[i] {
                        Some(m) => {
                            let mut mark = m;
                            let keys = detect_uninit(bb, local.key, &mut mark, symbol_table);
                            push_key_diags(diagnostics, &keys, symbol_table, idents);
                        },
                        None => {},
                    }
                }
            },
            _ => {},
        }
        proof {
            assert(diag_views(diagnostics@) == diag_views(before) + uninit_node_diags(
                cfg@[i as int],
                fin[i as int],
                *symbol_table,
                local.key,
                ident_texts(idents@),
            ));
        }
        i = i + 1;
    }
}

} // verus!

