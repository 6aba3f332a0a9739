//! Control flow graphs of function bodies.

use crate::idx::{Idx, InternIdent};
use crate::syntax::{syntax_kind_name, SyntaxNode, SyntaxNodePtr, TextRange};
use crate::text::{decimal, push_decimal, string_is};
use smallvec::SmallVec;
use vstd::prelude::*;

verus! {

broadcast use vstd::seq_lib::group_to_multiset_ensures;

/// Identity of a node in a control flow graph: its position.
#[derive(Clone, Copy, Debug, PartialEq, Eq, Hash, Structural)]
pub struct FlowNodeId(pub u32);

/// Node ids held in a small inline buffer.
#[verifier::external_body]
pub struct FlowIds {
    ids: SmallVec<[FlowNodeId; 4]>,
}

/// The ids a flow id list holds, in order.
pub uninterp spec fn flow_ids_items(l: FlowIds) -> Seq<FlowNodeId>;

/// Creates an empty `smallvec::SmallVec` with `SmallVec::with_capacity`.
#[verifier::external_body]
fn flow_ids_new() -> (l: FlowIds)
    ensures
        flow_ids_items(l) == Seq::<FlowNodeId>::empty(),
{
    FlowIds { ids: SmallVec::with_capacity(4) }
}

/// Appends an id with `SmallVec::push`.
#[verifier::external_body]
fn flow_ids_push(l: &mut FlowIds, id: FlowNodeId)
    ensures
        flow_ids_items(*final(l)) == flow_ids_items(*old(l)).push(id),
{
    l.ids.push(id);
}

/// Borrows the ids with `SmallVec::as_slice`.
#[verifier::external_body]
pub fn flow_ids_as_slice(l: &FlowIds) -> (r: &[FlowNodeId])
    ensures
        r@ == flow_ids_items(*l),
{
    l.ids.as_slice()
}

/// An instruction of a basic block.
pub struct BasicBlockInstr {
    pub ptr: SyntaxNodePtr,
    /// Text of the instruction name.
    pub name: String,
    pub immediates: Vec<SyntaxNodePtr>,
}

/// Straight-line instructions, in execution order.
pub struct BasicBlock(pub Vec<BasicBlockInstr>);

/// What a flow node stands for.
pub enum FlowNodeKind {
    Entry,
    Exit,
    BasicBlock(BasicBlock),
    BlockEntry(SyntaxNodePtr),
    BlockExit,
}

/// A node of a control flow graph with its edges in both directions.
pub struct FlowNode {
    pub kind: FlowNodeKind,
    pub unreachable: bool,
    pub incomings: FlowIds,
    pub outgoings: FlowIds,
}

/// Predecessors of node `i`.
pub open spec fn ins(nodes: Seq<FlowNode>, i: int) -> Seq<FlowNodeId> {
    flow_ids_items(nodes[i].incomings)
}

/// Successors of node `i`.
pub open spec fn outs(nodes: Seq<FlowNode>, i: int) -> Seq<FlowNodeId> {
    flow_ids_items(nodes[i].outgoings)
}

/// A graph is well formed when every edge joins two distinct existing nodes
/// and each edge is recorded as many times among the successors of its source
/// as among the predecessors of its target.
pub open spec fn graph_wf(nodes: Seq<FlowNode>) -> bool {
    &&& nodes.len() < u32::MAX
    &&& forall|i: int, k: int|
        0 <= i < nodes.len() && 0 <= k < outs(nodes, i).len() ==> {
            let t = #[trigger] outs(nodes, i)[k];
            (t.0 as int) < nodes.len() && t.0 as int != i
        }
    &&& forall|i: int, k: int|
        0 <= i < nodes.len() && 0 <= k < ins(nodes, i).len() ==> {
            let t = #[trigger] ins(nodes, i)[k];
            (t.0 as int) < nodes.len() && t.0 as int != i
        }
    &&& forall|i: int, j: int|
        0 <= i < nodes.len() && 0 <= j < nodes.len() ==> #[trigger] outs(nodes, i).to_multiset().count(
            FlowNodeId(j as u32),
        ) == #[trigger] ins(nodes, j).to_multiset().count(FlowNodeId(i as u32))
}

/// Well-formedness depends on the edges alone.
proof fn lemma_wf_same_edges(a: Seq<FlowNode>, b: Seq<FlowNode>)
    requires
        graph_wf(a),
        a.len() == b.len(),
        forall|i: int| 0 <= i < a.len() ==> #[trigger] outs(b, i) == outs(a, i),
        forall|i: int| 0 <= i < a.len() ==> #[trigger] ins(b, i) == ins(a, i),
    ensures
        graph_wf(b),
{
    assert forall|i: int, k: int|
        0 <= i < b.len() && 0 <= k < outs(b, i).len() implies {
            let t = #[trigger] outs(b, i)[k];
            (t.0 as int) < b.len() && t.0 as int != i
        } by {
        assert(outs(b, i) == outs(a, i));
        assert(outs(a, i)[k] == outs(b, i)[k]);
    }
    assert forall|i: int, k: int|
        0 <= i < b.len() && 0 <= k < ins(b, i).len() implies {
            let t = #[trigger] ins(b, i)[k];
            (t.0 as int) < b.len() && t.0 as int != i
        } by {
        assert(ins(b, i) == ins(a, i));
        assert(ins(a, i)[k] == ins(b, i)[k]);
    }
    assert forall|i: int, j: int|
        0 <= i < b.len() && 0 <= j < b.len() implies #[trigger] outs(b, i).to_multiset().count(
        FlowNodeId(j as u32),
    ) == #[trigger] ins(b, j).to_multiset().count(FlowNodeId(i as u32)) by {
        assert(outs(b, i) == outs(a, i));
        assert(ins(b, j) == ins(a, j));
        assert(outs(a, i).to_multiset().count(FlowNodeId(j as u32)) == ins(a, j).to_multiset().count(FlowNodeId(i as u32)));
    }
}

/// Pointers of a sequence of basic block instructions.
pub open spec fn ptrs_of(s: Seq<BasicBlockInstr>) -> Seq<SyntaxNodePtr> {
    s.map_values(|x: BasicBlockInstr| x.ptr)
}

/// Pointers of the instructions a node holds: those of its basic block, if it is one.
pub open spec fn node_ptrs(n: FlowNode) -> Seq<SyntaxNodePtr> {
    match n.kind {
        FlowNodeKind::BasicBlock(bb) => ptrs_of(bb.0@),
        _ => Seq::empty(),
    }
}

/// Pointers of the instructions held by the first `n` nodes, in node order.
pub open spec fn bb_ptrs(nodes: Seq<FlowNode>, n: int) -> Seq<SyntaxNodePtr>
    decreases n,
{
    if n <= 0 {
        Seq::empty()
    } else {
        bb_ptrs(nodes, n - 1) + node_ptrs(nodes[n - 1])
    }
}

proof fn lemma_bb_ptrs_prefix(a: Seq<FlowNode>, b: Seq<FlowNode>, n: int)
    requires
        0 <= n <= a.len(),
        n <= b.len(),
        forall|i: int| 0 <= i < n ==> #[trigger] b[i].kind == a[i].kind,
    ensures
        bb_ptrs(b, n) == bb_ptrs(a, n),
    decreases n,
{
    if n > 0 {
        lemma_bb_ptrs_prefix(a, b, n - 1);
        assert(b[n - 1].kind == a[n - 1].kind);
    }
}

/// A control flow graph.
pub struct ControlFlowGraph {
    nodes: Vec<FlowNode>,
}

impl View for ControlFlowGraph {
    type V = Seq<FlowNode>;

    closed spec fn view(&self) -> Seq<FlowNode> {
        self.nodes@
    }
}

impl ControlFlowGraph {
    /// All nodes, by id.
    pub fn nodes(&self) -> (r: &[FlowNode])
        ensures
            r@ == self@,
    {
        self.nodes.as_slice()
    }

    /// All nodes paired with their ids.
    pub fn nodes_with_ids(&self) -> (r: Vec<(&FlowNode, FlowNodeId)>)
        requires
            self@.len() < u32::MAX,
        ensures
            r@.len() == self@.len(),
            forall|i: int| 0 <= i < r@.len() ==> *(#[trigger] r@[i]).0 == self@[i] && r@[i].1 == FlowNodeId(i as u32),
    {
        let mut r: Vec<(&FlowNode, FlowNodeId)> = Vec::new();
        let mut i: usize = 0;
        while i < self.nodes.len()
            invariant
                i <= self@.len(),
                self@.len() < u32::MAX,
                r@.len() == i,
                forall|j: int| 0 <= j < i ==> *(#[trigger] r@[j]).0 == self@[j] && r@[j].1 == FlowNodeId(j as u32),
            decreases self@.len() - i,
        {
            r.push((&self.nodes[i], FlowNodeId(i as u32)));
            i = i + 1;
        }
        r
    }

    /// The node with the id.
    pub fn get_node(&self, id: FlowNodeId) -> (r: Option<&FlowNode>)
        ensures
            r matches Some(n) ==> (id.0 as int) < self@.len() && *n == self@[id.0 as int],
            r is None <==> (id.0 as int) >= self@.len(),
    {
        self.nodes.get(id.0 as usize)
    }

    /// Appends a node without edges and returns its id.
    fn add_node(&mut self, kind: FlowNodeKind, unreachable: bool) -> (id: FlowNodeId)
        requires
            graph_wf(old(self)@),
            old(self)@.len() + 1 < u32::MAX,
        ensures
            graph_wf(final(self)@),
            id.0 as int == old(self)@.len(),
            final(self)@.len() == old(self)@.len() + 1,
            forall|i: int| 0 <= i < old(self)@.len() ==> #[trigger] final(self)@[i] == old(self)@[i],
            final(self)@[id.0 as int].kind == kind,
            final(self)@[id.0 as int].unreachable == unreachable,
            ins(final(self)@, id.0 as int).len() == 0,
            outs(final(self)@, id.0 as int).len() == 0,
            graph_view(final(self)@) == graph_view(old(self)@).push(lone_node(kind_view(kind), unreachable)),
            blocks_nonempty(old(self)@) && match kind {
                FlowNodeKind::BasicBlock(b) => b.0@.len() > 0,
                _ => true,
            } ==> blocks_nonempty(final(self)@),
            bb_ptrs(final(self)@, final(self)@.len() as int) == bb_ptrs(
                old(self)@,
                old(self)@.len() as int,
            ) + node_ptrs(final(self)@[id.0 as int]),
    {
        let id = FlowNodeId(self.nodes.len() as u32);
        let ghost before = self@;
        self.nodes.push(
            FlowNode { kind, unreachable, incomings: flow_ids_new(), outgoings: flow_ids_new() },
        );
        proof {
            let n = self@;
            lemma_bb_ptrs_prefix(before, n, before.len() as int);
            if blocks_nonempty(before) && match n[before.len() as int].kind {
                FlowNodeKind::BasicBlock(b) => b.0@.len() > 0,
                _ => true,
            } {
                assert forall|i: int| 0 <= i < n.len() implies match #[trigger] n[i].kind {
                    FlowNodeKind::BasicBlock(b) => b.0@.len() > 0,
                    _ => true,
                } by {
                    if i < before.len() {
                        assert(n[i] == before[i]);
                    }
                }
            }
            assert forall|i: int, j: int|
                0 <= i < n.len() && 0 <= j < n.len() implies #[trigger] outs(n, i).to_multiset().count(
                FlowNodeId(j as u32),
            ) == #[trigger] ins(n, j).to_multiset().count(FlowNodeId(i as u32)) by {
                if i < before.len() && j < before.len() {
                    assert(outs(n, i) == outs(before, i));
                    assert(ins(n, j) == ins(before, j));
                } else if i < before.len() {
                    assert(outs(n, i) == outs(before, i));
                    assert(ins(n, j).len() == 0);
                    if outs(n, i).to_multiset().count(FlowNodeId(j as u32)) > 0 {
                        let k = choose|k: int| 0 <= k < outs(before, i).len() && outs(before, i)[k] == FlowNodeId(j as u32);
                        assert(outs(before, i)[k].0 < before.len());
                    }
                } else if j < before.len() {
                    assert(ins(n, j) == ins(before, j));
                    assert(outs(n, i).len() == 0);
                    if ins(n, j).to_multiset().count(FlowNodeId(i as u32)) > 0 {
                        let k = choose|k: int| 0 <= k < ins(before, j).len() && ins(before, j)[k] == FlowNodeId(i as u32);
                        assert(ins(before, j)[k].0 < before.len());
                    }
                }
            }
            assert forall|i: int, k: int|
                0 <= i < n.len() && 0 <= k < outs(n, i).len() implies {
                    let t = #[trigger] outs(n, i)[k];
                    (t.0 as int) < n.len() && t.0 as int != i
                } by {
                assert(outs(n, i) == outs(before, i));
            }
            assert forall|i: int, k: int|
                0 <= i < n.len() && 0 <= k < ins(n, i).len() implies {
                    let t = #[trigger] ins(n, i)[k];
                    (t.0 as int) < n.len() && t.0 as int != i
                } by {
                assert(ins(n, i) == ins(before, i));
            }
        }
        id
    }
    /// Records an edge between two distinct existing nodes, in both directions.
    fn add_edge(&mut self, from: FlowNodeId, to: FlowNodeId)
        requires
            graph_wf(old(self)@),
            from != to,
            (from.0 as int) < old(self)@.len(),
            (to.0 as int) < old(self)@.len(),
        ensures
            graph_wf(final(self)@),
            final(self)@.len() == old(self)@.len(),
            forall|i: int|
                0 <= i < old(self)@.len() ==> (#[trigger] final(self)@[i]).kind == old(self)@[i].kind
                    && final(self)@[i].unreachable == old(self)@[i].unreachable,
            forall|i: int|
                0 <= i < old(self)@.len() && i != from.0 ==> #[trigger] outs(final(self)@, i) == outs(
                    old(self)@,
                    i,
                ),
            forall|i: int|
                0 <= i < old(self)@.len() && i != to.0 ==> #[trigger] ins(final(self)@, i) == ins(
                    old(self)@,
                    i,
                ),
            outs(final(self)@, from.0 as int) == outs(old(self)@, from.0 as int).push(to),
            ins(final(self)@, to.0 as int) == ins(old(self)@, to.0 as int).push(from),
            edges_from(old(self)@, final(self)@, from, seq![to]),
            graph_view(final(self)@) == with_edge(graph_view(old(self)@), from, to),
            blocks_nonempty(old(self)@) ==> blocks_nonempty(final(self)@),
            bb_ptrs(final(self)@, final(self)@.len() as int) == bb_ptrs(
                old(self)@,
                old(self)@.len() as int,
            ),
    {
        let ghost before = self@;
        let f = from.0 as usize;
        let t = to.0 as usize;
        flow_ids_push(&mut self.nodes[f].outgoings, to);
        flow_ids_push(&mut self.nodes[t].incomings, from);
        proof {
            let n = self@;
            assert forall|i: int| 0 <= i < before.len() implies #[trigger] n[i].kind == before[i].kind by {
                assert(n[i].kind == before[i].kind);
            }
            lemma_bb_ptrs_prefix(before, n, before.len() as int);
            if blocks_nonempty(before) {
                assert forall|i: int| 0 <= i < n.len() implies match #[trigger] n[i].kind {
                    FlowNodeKind::BasicBlock(b) => b.0@.len() > 0,
                    _ => true,
                } by {
                    assert(n[i].kind == before[i].kind);
                }
            }
            assert forall|i: int|
                0 <= i < before.len() && i != from.0 implies #[trigger] outs(n, i) == outs(before, i) by {
                assert(n[i].outgoings == before[i].outgoings);
            }
            assert forall|i: int|
                0 <= i < before.len() && i != to.0 implies #[trigger] ins(n, i) == ins(before, i) by {
                assert(n[i].incomings == before[i].incomings);
            }
            assert forall|i: int| 0 <= i < before.len() implies #[trigger] outs(n, i) == outs(before, i) + if i
                == from.0 as int {
                seq![to]
            } else {
                Seq::<FlowNodeId>::empty()
            } by {
                if i != from.0 as int {
                    assert(n[i].outgoings == before[i].outgoings);
                    assert(outs(before, i) + Seq::<FlowNodeId>::empty() =~= outs(before, i));
                } else {
                    assert(outs(before, i).push(to) =~= outs(before, i) + seq![to]);
                }
            }
            assert forall|i: int| 0 <= i < before.len() implies #[trigger] ins(n, i) == ins(before, i) + repeat_id(
                from,
                count_id(seq![to], i),
            ) by {
                lemma_count_id_one(to, i);
                if i != to.0 as int {
                    assert(n[i].incomings == before[i].incomings);
                    assert(ins(before, i) + repeat_id(from, 0) =~= ins(before, i));
                } else {
                    assert(ins(before, i).push(from) =~= ins(before, i) + repeat_id(from, 1));
                }
            }
            assert forall|i: int, j: int|
                0 <= i < n.len() && 0 <= j < n.len() implies #[trigger] outs(n, i).to_multiset().count(
                FlowNodeId(j as u32),
            ) == #[trigger] ins(n, j).to_multiset().count(FlowNodeId(i as u32)) by {
                assert(outs(before, i).to_multiset().count(FlowNodeId(j as u32)) == ins(
                    before,
                    j,
                ).to_multiset().count(FlowNodeId(i as u32)));
                if i == from.0 {
                    assert(outs(n, i).to_multiset() == outs(before, i).to_multiset().insert(to));
                }
                if j == to.0 {
                    assert(ins(n, j).to_multiset() == ins(before, j).to_multiset().insert(from));
                }
                assert((FlowNodeId(j as u32) == to) == (j == to.0));
                assert((FlowNodeId(i as u32) == from) == (i == from.0));
            }
            assert forall|i: int, k: int|
                0 <= i < n.len() && 0 <= k < outs(n, i).len() implies {
                    let x = #[trigger] outs(n, i)[k];
                    (x.0 as int) < n.len() && x.0 as int != i
                } by {
                if i == from.0 && k == outs(before, i).len() {
                } else {
                    assert(outs(n, i)[k] == outs(before, i)[k]);
                }
            }
            assert forall|i: int, k: int|
                0 <= i < n.len() && 0 <= k < ins(n, i).len() implies {
                    let x = #[trigger] ins(n, i)[k];
                    (x.0 as int) < n.len() && x.0 as int != i
                } by {
                if i == to.0 && k == ins(before, i).len() {
                } else {
                    assert(ins(n, i)[k] == ins(before, i)[k]);
                }
            }
        }
    }
    /// Sets the reachability flag of a node.
    fn set_unreachable(&mut self, id: FlowNodeId, flag: bool)
        requires
            graph_wf(old(self)@),
            (id.0 as int) < old(self)@.len(),
        ensures
            graph_wf(final(self)@),
            final(self)@.len() == old(self)@.len(),
            forall|i: int|
                0 <= i < old(self)@.len() ==> (#[trigger] final(self)@[i]).kind == old(self)@[i].kind
                    && final(self)@[i].incomings == old(self)@[i].incomings
                    && final(self)@[i].outgoings == old(self)@[i].outgoings && (i != id.0
                    ==> final(self)@[i].unreachable == old(self)@[i].unreachable),
            final(self)@[id.0 as int].unreachable == flag,
            graph_view(final(self)@) == with_flag(graph_view(old(self)@), id, flag),
            bb_ptrs(final(self)@, final(self)@.len() as int) == bb_ptrs(
                old(self)@,
                old(self)@.len() as int,
            ),
    {
        let ghost before = self@;
        self.nodes[id.0 as usize].unreachable = flag;
        proof {
            let n = self@;
            assert forall|i: int| 0 <= i < before.len() implies #[trigger] n[i].kind == before[i].kind by {
                assert(n[i].kind == before[i].kind);
            }
            lemma_bb_ptrs_prefix(before, n, before.len() as int);
            assert forall|i: int| 0 <= i < n.len() implies #[trigger] outs(n, i) == outs(before, i) && ins(n, i) == ins(before, i) by {
                assert(n[i].outgoings == before[i].outgoings);
                assert(n[i].incomings == before[i].incomings);
            }
            lemma_wf_same_edges(before, n);
        }
    }
}

/// An immediate operand of a plain instruction.
pub struct Immediate {
    pub ptr: SyntaxNodePtr,
    /// The index this immediate holds, when it is a reference.
    pub idx: Option<Idx>,
    /// For an immediate holding an `on` clause: the label its second index names.
    pub on_label: Option<Idx>,
}

/// A plain instruction with its operand instructions folded inside it.
pub struct PlainInstr {
    pub ptr: SyntaxNodePtr,
    /// Text of the instruction name; `None` when the name is missing.
    pub name: Option<String>,
    pub immediates: Vec<Immediate>,
    pub instrs: Vec<Instr>,
}

/// The kinds of structured blocks.
#[derive(Clone, Copy, Debug, PartialEq, Eq, Structural)]
pub enum BlockKind {
    Block,
    Loop,
    If,
    TryTable,
}

/// A structured block instruction.
pub struct BlockInstr {
    pub ptr: SyntaxNodePtr,
    pub kind: BlockKind,
    /// The label the block declares.
    pub ident: Option<InternIdent>,
    /// For `try_table`: the label of each catch clause, in order.
    pub catch_labels: Vec<Option<Idx>>,
    /// The body; for `if`, the folded condition instructions.
    pub instrs: Vec<Instr>,
    /// For `if`: the `then` branch.
    pub then_block: Option<Vec<Instr>>,
    /// For `if`: the `else` branch.
    pub else_block: Option<Vec<Instr>>,
}

/// An instruction of a function body or of a constant expression.
pub enum Instr {
    Plain(PlainInstr),
    Block(BlockInstr),
}

/// Number of instructions in an instruction tree, nested ones included.
pub open spec fn instr_size(i: Instr) -> nat
    decreases i, 0int,
{
    match i {
        Instr::Plain(p) => 1 + seq_size(p.instrs@, p.instrs@.len() as int),
        Instr::Block(b) => 1 + seq_size(b.instrs@, b.instrs@.len() as int) + if b.kind
            == BlockKind::If {
            branches_size(b)
        } else {
            0
        },
    }
}

/// Number of instructions in the branches of an `if` block.
pub open spec fn branches_size(b: BlockInstr) -> nat
    decreases b, 0int,
{
    let t: nat = match b.then_block {
        Some(v) => seq_size(v@, v@.len() as int),
        None => 0,
    };
    let e: nat = match b.else_block {
        Some(v) => seq_size(v@, v@.len() as int),
        None => 0,
    };
    t + e
}

/// Pointers of the named plain instructions of a tree in execution order:
/// folded operands before the instruction that consumes them, and for `if`
/// the condition, then the `then` branch, then the `else` branch.
pub open spec fn flat_instr(i: Instr) -> Seq<SyntaxNodePtr>
    decreases i, 0int,
{
    match i {
        Instr::Plain(p) => flat_seq(p.instrs@, p.instrs@.len() as int) + if p.name is Some {
            seq![p.ptr]
        } else {
            Seq::empty()
        },
        Instr::Block(b) => flat_seq(b.instrs@, b.instrs@.len() as int) + if b.kind == BlockKind::If {
            flat_branches(b)
        } else {
            Seq::empty()
        },
    }
}

/// Pointers of the named plain instructions in the branches of an `if` block.
pub open spec fn flat_branches(b: BlockInstr) -> Seq<SyntaxNodePtr>
    decreases b, 0int,
{
    let t = match b.then_block {
        Some(v) => flat_seq(v@, v@.len() as int),
        None => Seq::empty(),
    };
    let e = match b.else_block {
        Some(v) => flat_seq(v@, v@.len() as int),
        None => Seq::empty(),
    };
    t + e
}

/// Pointers of the named plain instructions of the first `n` trees of a sequence.
pub open spec fn flat_seq(s: Seq<Instr>, n: int) -> Seq<SyntaxNodePtr>
    decreases s, n,
{
    if n <= 0 || n > s.len() {
        Seq::empty()
    } else {
        flat_seq(s, n - 1) + flat_instr(s[n - 1])
    }
}

/// Number of instructions in the first `n` trees of a sequence.
pub open spec fn seq_size(s: Seq<Instr>, n: int) -> nat
    decreases s, n,
{
    if n <= 0 || n > s.len() {
        0
    } else {
        seq_size(s, n - 1) + instr_size(s[n - 1])
    }
}

proof fn lemma_seq_size_mono(s: Seq<Instr>, a: int, b: int)
    requires
        0 <= a <= b <= s.len(),
    ensures
        seq_size(s, a) <= seq_size(s, b),
    decreases b - a,
{
    if a < b {
        lemma_seq_size_mono(s, a, b - 1);
    }
}

/// How an instruction passes control on.
#[derive(Clone, Copy, Debug, PartialEq, Eq, Structural)]
pub enum FlowEffect {
    /// Control never continues (`unreachable`, `throw`, `throw_ref`).
    Halt,
    /// Control leaves the function (`return` and the tail calls).
    Return,
    /// Control jumps to its labels (`br`, `br_table`).
    Branch,
    /// Control may jump to its first label or continue (`br_if` and the `br_on_*` family).
    CondBranch,
    /// Control may jump to the labels of its `on` clauses, or continue (`resume` family).
    Resume,
    /// Control continues with the next instruction.
    Next,
}

/// The control effect of an instruction, by name.
pub open spec fn flow_effect(name: Seq<char>) -> FlowEffect {
    if name == "unreachable"@ || name == "throw"@ || name == "throw_ref"@ {
        FlowEffect::Halt
    } else if name == "return"@ || name == "return_call"@ || name == "return_call_indirect"@ || name
        == "return_call_ref"@ {
        FlowEffect::Return
    } else if name == "br"@ || name == "br_table"@ {
        FlowEffect::Branch
    } else if name == "br_if"@ || name == "br_on_null"@ || name == "br_on_non_null"@ || name
        == "br_on_cast"@ || name == "br_on_cast_fail"@ {
        FlowEffect::CondBranch
    } else if name == "resume"@ || name == "resume_throw"@ || name == "resume_throw_ref"@ {
        FlowEffect::Resume
    } else {
        FlowEffect::Next
    }
}

/// Classifies an instruction name by its control effect.
pub fn classify_flow(name: &String) -> (r: FlowEffect)
    ensures
        r == flow_effect(name@),
{
    if string_is(name, "unreachable") || string_is(name, "throw") || string_is(name, "throw_ref") {
        FlowEffect::Halt
    } else if string_is(name, "return") || string_is(name, "return_call") || string_is(
        name,
        "return_call_indirect",
    ) || string_is(name, "return_call_ref") {
        FlowEffect::Return
    } else if string_is(name, "br") || string_is(name, "br_table") {
        FlowEffect::Branch
    } else if string_is(name, "br_if") || string_is(name, "br_on_null") || string_is(
        name,
        "br_on_non_null",
    ) || string_is(name, "br_on_cast") || string_is(name, "br_on_cast_fail") {
        FlowEffect::CondBranch
    } else if string_is(name, "resume") || string_is(name, "resume_throw") || string_is(
        name,
        "resume_throw_ref",
    ) {
        FlowEffect::Resume
    } else {
        FlowEffect::Next
    }
}

/// The innermost label among the first `n` stack entries that carries the identifier.
pub open spec fn last_labeled(
    stack: Seq<(FlowNodeId, Option<InternIdent>)>,
    name: Option<InternIdent>,
    n: int,
) -> Option<FlowNodeId>
    decreases n,
{
    if n <= 0 {
        None
    } else if stack[n - 1].1 == name {
        Some(stack[n - 1].0)
    } else {
        last_labeled(stack, name, n - 1)
    }
}

/// The node that a label index jumps to: by depth counted from the innermost
/// enclosing block, or by identifier to the innermost block carrying it.
pub open spec fn jump_target(stack: Seq<(FlowNodeId, Option<InternIdent>)>, idx: Option<Idx>) -> Option<
    FlowNodeId,
> {
    match idx {
        None => None,
        Some(idx) => match idx.num {
            Some(n) => if (n as int) < stack.len() {
                Some(stack[stack.len() - 1 - n].0)
            } else {
                None
            },
            None => last_labeled(stack, idx.name, stack.len() as int),
        },
    }
}

/// Where a `return` leads: the outermost entry of the block stack, the
/// function's exit.
pub open spec fn return_targets(stack: Seq<(FlowNodeId, Option<InternIdent>)>) -> Seq<FlowNodeId> {
    if stack.len() > 0 {
        seq![stack[0].0]
    } else {
        Seq::empty()
    }
}

/// The labels that the first `n` immediates jump to, in order: the labels of
/// their indexes, or with `on_clauses` those of their `on` clauses; labels
/// that are not found are left out.
pub open spec fn jump_targets(
    stack: Seq<(FlowNodeId, Option<InternIdent>)>,
    immediates: Seq<Immediate>,
    on_clauses: bool,
    n: int,
) -> Seq<FlowNodeId>
    decreases n,
{
    if n <= 0 {
        Seq::empty()
    } else {
        let rest = jump_targets(stack, immediates, on_clauses, n - 1);
        let label = if on_clauses {
            immediates[n - 1].on_label
        } else {
            immediates[n - 1].idx
        };
        match jump_target(stack, label) {
            Some(t) => rest.push(t),
            None => rest,
        }
    }
}

/// What a node stands for, as plain values: a basic block by the pointers
/// of its instructions.
pub enum FlowKindView {
    Entry,
    Exit,
    BasicBlock(Seq<SyntaxNodePtr>),
    BlockEntry(SyntaxNodePtr),
    BlockExit,
}

/// A node as plain values: what it stands for, its reachability flag, and
/// its successors and predecessors in the order the edges were recorded.
pub struct FlowNodeView {
    pub kind: FlowKindView,
    pub unreachable: bool,
    pub outs: Seq<FlowNodeId>,
    pub ins: Seq<FlowNodeId>,
}

/// The plain view of a node kind.
pub open spec fn kind_view(k: FlowNodeKind) -> FlowKindView {
    match k {
        FlowNodeKind::Entry => FlowKindView::Entry,
        FlowNodeKind::Exit => FlowKindView::Exit,
        FlowNodeKind::BasicBlock(b) => FlowKindView::BasicBlock(ptrs_of(b.0@)),
        FlowNodeKind::BlockEntry(p) => FlowKindView::BlockEntry(p),
        FlowNodeKind::BlockExit => FlowKindView::BlockExit,
    }
}

/// The plain view of a node.
pub open spec fn node_view(n: FlowNode) -> FlowNodeView {
    FlowNodeView {
        kind: kind_view(n.kind),
        unreachable: n.unreachable,
        outs: flow_ids_items(n.outgoings),
        ins: flow_ids_items(n.incomings),
    }
}

/// The plain view of a graph, node by node.
pub open spec fn graph_view(g: Seq<FlowNode>) -> Seq<FlowNodeView> {
    g.map_values(|n: FlowNode| node_view(n))
}

/// A new node without edges.
pub open spec fn lone_node(kind: FlowKindView, unreachable: bool) -> FlowNodeView {
    FlowNodeView { kind, unreachable, outs: Seq::empty(), ins: Seq::empty() }
}

/// The graph with the edge `from -> to` recorded at the end of both lists.
pub open spec fn with_edge(g: Seq<FlowNodeView>, from: FlowNodeId, to: FlowNodeId) -> Seq<FlowNodeView> {
    let f = g[from.0 as int];
    let g1 = g.update(
        from.0 as int,
        FlowNodeView { kind: f.kind, unreachable: f.unreachable, outs: f.outs.push(to), ins: f.ins },
    );
    let t = g1[to.0 as int];
    g1.update(to.0 as int, FlowNodeView { kind: t.kind, unreachable: t.unreachable, outs: t.outs, ins: t.ins.push(from) })
}

/// The graph with the edges from `from` to the first `n` targets recorded, in order.
pub open spec fn with_edges(g: Seq<FlowNodeView>, from: FlowNodeId, targets: Seq<FlowNodeId>, n: int) -> Seq<
    FlowNodeView,
>
    decreases n,
{
    if n <= 0 {
        g
    } else {
        with_edge(with_edges(g, from, targets, n - 1), from, targets[n - 1])
    }
}

/// The graph with the reachability flag of node `id` set.
pub open spec fn with_flag(g: Seq<FlowNodeView>, id: FlowNodeId, flag: bool) -> Seq<FlowNodeView> {
    let n = g[id.0 as int];
    g.update(id.0 as int, FlowNodeView { kind: n.kind, unreachable: flag, outs: n.outs, ins: n.ins })
}

/// The edges recorded from the first `n` targets depend on those targets alone.
proof fn lemma_with_edges_prefix(
    g: Seq<FlowNodeView>,
    from: FlowNodeId,
    a: Seq<FlowNodeId>,
    b: Seq<FlowNodeId>,
    n: int,
)
    requires
        0 <= n <= a.len(),
        n <= b.len(),
        forall|k: int| 0 <= k < n ==> a[k] == b[k],
    ensures
        with_edges(g, from, a, n) == with_edges(g, from, b, n),
    decreases n,
{
    if n > 0 {
        lemma_with_edges_prefix(g, from, a, b, n - 1);
    }
}

/// The state of building a graph, as plain values: the graph, the stack of
/// enclosing labels (innermost last), the node control is in, the pending
/// instructions of the next basic block, and whether control is unreachable.
pub struct FlowState {
    pub nodes: Seq<FlowNodeView>,
    pub stack: Seq<(FlowNodeId, Option<InternIdent>)>,
    pub current: Option<FlowNodeId>,
    pub pending: Seq<SyntaxNodePtr>,
    pub unreachable: bool,
}

/// The state with its graph replaced.
pub open spec fn with_nodes(st: FlowState, nodes: Seq<FlowNodeView>) -> FlowState {
    FlowState { nodes, stack: st.stack, current: st.current, pending: st.pending, unreachable: st.unreachable }
}

/// The state with the node control is in replaced.
pub open spec fn with_current(st: FlowState, current: Option<FlowNodeId>) -> FlowState {
    FlowState { nodes: st.nodes, stack: st.stack, current, pending: st.pending, unreachable: st.unreachable }
}

/// The state with its reachability replaced.
pub open spec fn with_reach(st: FlowState, unreachable: bool) -> FlowState {
    FlowState { nodes: st.nodes, stack: st.stack, current: st.current, pending: st.pending, unreachable }
}

/// The state with its label stack replaced.
pub open spec fn with_stack(st: FlowState, stack: Seq<(FlowNodeId, Option<InternIdent>)>) -> FlowState {
    FlowState { nodes: st.nodes, stack, current: st.current, pending: st.pending, unreachable: st.unreachable }
}

/// An edge from the current node, when there is one, to `to`.
pub open spec fn step_connect(st: FlowState, to: FlowNodeId) -> FlowState {
    match st.current {
        Some(c) => with_nodes(st, with_edge(st.nodes, c, to)),
        None => st,
    }
}

/// The pending instructions closed into a new basic block that follows the
/// current node and becomes current; nothing when none are pending.
pub open spec fn step_block(st: FlowState) -> FlowState {
    if st.pending.len() == 0 {
        st
    } else {
        let bb = FlowNodeId(st.nodes.len() as u32);
        let s1 = FlowState {
            nodes: st.nodes.push(lone_node(FlowKindView::BasicBlock(st.pending), st.unreachable)),
            stack: st.stack,
            current: st.current,
            pending: Seq::empty(),
            unreachable: st.unreachable,
        };
        with_current(step_connect(s1, bb), Some(bb))
    }
}

/// The new basic block of `step_block`, when one is made.
pub open spec fn step_block_id(st: FlowState) -> Option<FlowNodeId> {
    if st.pending.len() == 0 {
        None
    } else {
        Some(FlowNodeId(st.nodes.len() as u32))
    }
}

/// `step_block`, then edges from the new block to `targets`.
pub open spec fn step_block_to(st: FlowState, targets: Seq<FlowNodeId>) -> FlowState {
    let s1 = step_block(st);
    match step_block_id(st) {
        Some(bb) => with_nodes(s1, with_edges(s1.nodes, bb, targets, targets.len() as int)),
        None => s1,
    }
}

/// An instruction name and its immediates added to the pending block, then
/// its effect on control.
pub open spec fn step_named(st: FlowState, p: PlainInstr, name: Seq<char>) -> FlowState {
    let s = FlowState {
        nodes: st.nodes,
        stack: st.stack,
        current: st.current,
        pending: st.pending.push(p.ptr),
        unreachable: st.unreachable,
    };
    let imms = p.immediates@;
    match flow_effect(name) {
        FlowEffect::Halt => with_reach(with_current(step_block(s), None), true),
        FlowEffect::Return => with_reach(with_current(step_block_to(s, return_targets(s.stack)), None), true),
        FlowEffect::Branch => with_reach(
            with_current(step_block_to(s, jump_targets(s.stack, imms, false, imms.len() as int)), None),
            true,
        ),
        FlowEffect::CondBranch => {
            let target = if imms.len() > 0 {
                jump_target(s.stack, imms[0].idx)
            } else {
                None
            };
            step_block_to(s, opt_id(target))
        },
        FlowEffect::Resume => step_block_to(s, jump_targets(s.stack, imms, true, imms.len() as int)),
        FlowEffect::Next => s,
    }
}

/// The state after the first `n` instructions of a sequence.
pub open spec fn step_seq(st: FlowState, s: Seq<Instr>, n: int) -> FlowState
    decreases s, 2int, n,
{
    if n <= 0 || n > s.len() {
        st
    } else {
        step_instr(step_seq(st, s, n - 1), s[n - 1])
    }
}

/// The state after one instruction.
pub open spec fn step_instr(st: FlowState, i: Instr) -> FlowState
    decreases i, 3int, 0int,
{
    match i {
        Instr::Plain(p) => step_plain(st, p),
        Instr::Block(b) => step_block_instr(st, b),
    }
}

/// The state after a plain instruction: its folded operands first, then itself.
pub open spec fn step_plain(st: FlowState, p: PlainInstr) -> FlowState
    decreases p, 2int, 0int,
{
    let s1 = step_seq(st, p.instrs@, p.instrs@.len() as int);
    match p.name {
        Some(name) => step_named(s1, p, name@),
        None => s1,
    }
}

/// The state after the body of a block, whose end flows to `exit`.
pub open spec fn step_block_like(st: FlowState, instrs: Seq<Instr>, exit: FlowNodeId) -> FlowState
    decreases instrs, 3int, 0int,
{
    step_connect(step_block(step_seq(st, instrs, instrs.len() as int)), exit)
}

/// The edges from a `try_table` entry to the labels of its first `n` catch clauses.
pub open spec fn catch_targets(stack: Seq<(FlowNodeId, Option<InternIdent>)>, labels: Seq<Option<Idx>>, n: int) -> Seq<
    FlowNodeId,
>
    decreases n,
{
    if n <= 0 {
        Seq::empty()
    } else {
        let rest = catch_targets(stack, labels, n - 1);
        match jump_target(stack, labels[n - 1]) {
            Some(t) => rest.push(t),
            None => rest,
        }
    }
}

/// The branches of an `if` whose entry and exit nodes exist.
pub open spec fn step_if(st: FlowState, b: BlockInstr, exit: FlowNodeId) -> FlowState
    decreases b, 1int, 0int,
{
    let s1 = step_block(step_seq(st, b.instrs@, b.instrs@.len() as int));
    let s2 = with_stack(s1, s1.stack.push((exit, b.ident)));
    let condition = s2.current;
    let s3 = match b.then_block {
        Some(t) => with_reach(with_current(step_block_like(s2, t@, exit), condition), s2.unreachable),
        None => s2,
    };
    match b.else_block {
        Some(e) => step_block_like(s3, e@, exit),
        None => match condition {
            Some(c) => with_nodes(s3, with_edge(s3.nodes, c, exit)),
            None => s3,
        },
    }
}

/// The pending block closed, then the entry and exit nodes of a block: the
/// entry follows the current node and becomes current.
pub open spec fn step_open(st: FlowState, ptr: SyntaxNodePtr) -> FlowState {
    let s1 = step_block(st);
    let entry = FlowNodeId(s1.nodes.len() as u32);
    let s2 = with_nodes(s1, s1.nodes.push(lone_node(FlowKindView::BlockEntry(ptr), s1.unreachable)));
    let s3 = with_current(step_connect(s2, entry), Some(entry));
    with_nodes(s3, s3.nodes.push(lone_node(FlowKindView::BlockExit, false)))
}

/// Whether every predecessor of node `id` is unreachable.
pub open spec fn all_ins_unreachable(g: Seq<FlowNodeView>, id: FlowNodeId) -> bool {
    forall|k: int| 0 <= k < g[id.0 as int].ins.len() ==> g[g[id.0 as int].ins[k].0 as int].unreachable
}

/// A block exit marked unreachable exactly when every node flowing into it
/// is, and control taking on that reachability.
pub open spec fn step_finish(st: FlowState, exit: FlowNodeId) -> FlowState {
    let flag = all_ins_unreachable(st.nodes, exit);
    with_reach(with_nodes(st, with_flag(st.nodes, exit, flag)), flag)
}

/// The state after a block instruction: its entry and exit nodes, its body
/// with its label on the stack (the entry for a loop, the exit otherwise),
/// and control continuing at the exit.
pub open spec fn step_block_instr(st: FlowState, b: BlockInstr) -> FlowState
    decreases b, 2int, 0int,
{
    let s1 = step_open(st, b.ptr);
    let exit = FlowNodeId((s1.nodes.len() - 1) as u32);
    let entry = FlowNodeId((s1.nodes.len() - 2) as u32);
    let s2 = match b.kind {
        BlockKind::Block => step_block_like(with_stack(s1, s1.stack.push((exit, b.ident))), b.instrs@, exit),
        BlockKind::Loop => step_block_like(with_stack(s1, s1.stack.push((entry, b.ident))), b.instrs@, exit),
        BlockKind::If => step_if(s1, b, exit),
        BlockKind::TryTable => {
            let targets = catch_targets(s1.stack, b.catch_labels@, b.catch_labels@.len() as int);
            let s3 = with_nodes(s1, with_edges(s1.nodes, entry, targets, targets.len() as int));
            step_block_like(with_stack(s3, s3.stack.push((exit, b.ident))), b.instrs@, exit)
        },
    };
    let s4 = step_finish(s2, exit);
    with_stack(with_current(s4, Some(exit)), s4.stack.drop_last())
}

/// The control flow graph of a function body, as plain values: the entry
/// and exit nodes, then the body with the function's own label leading to
/// the exit, and the exit's reachability taken from what flows into it.
pub open spec fn cfg_of(body: Seq<Instr>) -> Seq<FlowNodeView> {
    let st = FlowState {
        nodes: seq![lone_node(FlowKindView::Entry, false), lone_node(FlowKindView::Exit, false)],
        stack: seq![(FlowNodeId(1), None)],
        current: Some(FlowNodeId(0)),
        pending: Seq::empty(),
        unreachable: false,
    };
    step_finish(step_block_like(st, body, FlowNodeId(1)), FlowNodeId(1)).nodes
}

/// After an instruction that halts, returns or branches unconditionally,
/// control is unreachable and in no node; the next basic block made then
/// has no predecessor and is marked unreachable.
pub proof fn law_code_after_jump_is_unreachable(st: FlowState, p: PlainInstr, name: Seq<char>, next: SyntaxNodePtr)
    requires
        flow_effect(name) == FlowEffect::Halt || flow_effect(name) == FlowEffect::Return || flow_effect(name)
            == FlowEffect::Branch,
        st.nodes.len() + 2 < u32::MAX,
    ensures
        step_named(st, p, name).unreachable,
        step_named(st, p, name).current is None,
        ({
            let after = step_named(st, p, name);
            let s2 = FlowState {
                nodes: after.nodes,
                stack: after.stack,
                current: after.current,
                pending: after.pending.push(next),
                unreachable: after.unreachable,
            };
            let made = step_block(s2).nodes[after.nodes.len() as int];
            &&& made.unreachable
            &&& made.ins.len() == 0
            &&& made.kind == FlowKindView::BasicBlock(after.pending.push(next))
        }),
{
}

/// Bound on the number of instructions of a body that a graph is built for,
/// so that node ids fit in `u32`.
pub open spec fn max_instrs() -> nat {
    0x3fff_0000
}

/// How many times the node at position `i` occurs in `s`.
pub open spec fn count_id(s: Seq<FlowNodeId>, i: int) -> nat
    decreases s.len(),
{
    if s.len() == 0 {
        0
    } else {
        count_id(s.drop_last(), i) + if s.last().0 as int == i {
            1nat
        } else {
            0nat
        }
    }
}

/// `n` copies of `x`.
pub open spec fn repeat_id(x: FlowNodeId, n: nat) -> Seq<FlowNodeId> {
    Seq::new(n, |_k: int| x)
}

/// The node, if any, as a sequence of at most one.
pub open spec fn opt_id(c: Option<FlowNodeId>) -> Seq<FlowNodeId> {
    match c {
        Some(x) => seq![x],
        None => Seq::empty(),
    }
}

/// `b` is `a` with the edges from `from` to each of `targets` recorded, in
/// order: at the end of the successors of `from` and of the predecessors of
/// each target; nothing else changes.
pub open spec fn edges_from(a: Seq<FlowNode>, b: Seq<FlowNode>, from: FlowNodeId, targets: Seq<FlowNodeId>) -> bool {
    &&& b.len() == a.len()
    &&& forall|i: int|
        0 <= i < a.len() ==> (#[trigger] b[i]).kind == a[i].kind && b[i].unreachable == a[i].unreachable
    &&& forall|i: int|
        0 <= i < a.len() ==> #[trigger] outs(b, i) == outs(a, i) + if i == from.0 as int {
            targets
        } else {
            Seq::<FlowNodeId>::empty()
        }
    &&& forall|i: int| 0 <= i < a.len() ==> #[trigger] ins(b, i) == ins(a, i) + repeat_id(from, count_id(targets, i))
}

/// `b` is `a` with a basic block of `instrs` appended, whose reachability
/// flag is `unreachable`, entered from `pred` (when there is one) and
/// leaving to each of `succs`, in order; the other nodes keep their kinds and
/// flags and gain only these edges.
pub open spec fn block_added(
    a: Seq<FlowNode>,
    b: Seq<FlowNode>,
    instrs: Seq<BasicBlockInstr>,
    unreachable: bool,
    pred: Option<FlowNodeId>,
    succs: Seq<FlowNodeId>,
) -> bool {
    let n = a.len() as int;
    let bb = FlowNodeId(n as u32);
    &&& b.len() == a.len() + 1
    &&& b[n].kind matches FlowNodeKind::BasicBlock(blk) && blk.0@ == instrs
    &&& b[n].unreachable == unreachable
    &&& ins(b, n) == opt_id(pred)
    &&& outs(b, n) == succs
    &&& forall|i: int|
        0 <= i < n ==> (#[trigger] b[i]).kind == a[i].kind && b[i].unreachable == a[i].unreachable
    &&& forall|i: int|
        0 <= i < n ==> #[trigger] outs(b, i) == outs(a, i) + if pred matches Some(c) && c.0 as int == i {
            seq![bb]
        } else {
            Seq::<FlowNodeId>::empty()
        }
    &&& forall|i: int| 0 <= i < n ==> #[trigger] ins(b, i) == ins(a, i) + repeat_id(bb, count_id(succs, i))
}

proof fn lemma_count_id_concat(s: Seq<FlowNodeId>, t: Seq<FlowNodeId>, i: int)
    ensures
        count_id(s + t, i) == count_id(s, i) + count_id(t, i),
    decreases t.len(),
{
    if t.len() > 0 {
        lemma_count_id_concat(s, t.drop_last(), i);
        assert((s + t).drop_last() =~= s + t.drop_last());
    } else {
        assert(s + t =~= s);
    }
}

proof fn lemma_count_id_one(x: FlowNodeId, i: int)
    ensures
        count_id(seq![x], i) == if x.0 as int == i {
            1nat
        } else {
            0nat
        },
{
    let s = seq![x];
    assert(s.drop_last() =~= Seq::<FlowNodeId>::empty());
    assert(count_id(s.drop_last(), i) == 0);
    assert(s.last() == x);
}

proof fn lemma_repeat_id_concat(x: FlowNodeId, m: nat, n: nat)
    ensures
        repeat_id(x, m) + repeat_id(x, n) == repeat_id(x, m + n),
{
    assert(repeat_id(x, m) + repeat_id(x, n) =~= repeat_id(x, m + n));
}

/// Recording more edges from the new basic block extends what it leaves to.
proof fn lemma_block_then_edges(
    a: Seq<FlowNode>,
    m: Seq<FlowNode>,
    b: Seq<FlowNode>,
    instrs: Seq<BasicBlockInstr>,
    unreachable: bool,
    pred: Option<FlowNodeId>,
    succs: Seq<FlowNodeId>,
    targets: Seq<FlowNodeId>,
)
    requires
        a.len() < u32::MAX,
        block_added(a, m, instrs, unreachable, pred, succs),
        edges_from(m, b, FlowNodeId(a.len() as u32), targets),
        forall|k: int| 0 <= k < targets.len() ==> ((#[trigger] targets[k]).0 as int) < a.len(),
    ensures
        block_added(a, b, instrs, unreachable, pred, succs + targets),
{
    let n = a.len() as int;
    let bb = FlowNodeId(n as u32);
    assert(count_id(targets, n) == 0) by {
        lemma_count_id_absent(targets, n);
    }
    assert(b[n].kind == m[n].kind);
    assert(ins(b, n) =~= opt_id(pred));
    assert(outs(b, n) =~= succs + targets);
    assert forall|i: int| 0 <= i < n implies #[trigger] outs(b, i) == outs(a, i) + if pred matches Some(c) && c.0
        as int == i {
        seq![bb]
    } else {
        Seq::<FlowNodeId>::empty()
    } by {
        assert(outs(b, i) == outs(m, i) + Seq::<FlowNodeId>::empty());
        assert(outs(m, i) + Seq::<FlowNodeId>::empty() =~= outs(m, i));
    }
    assert forall|i: int| 0 <= i < n implies #[trigger] ins(b, i) == ins(a, i) + repeat_id(
        bb,
        count_id(succs + targets, i),
    ) by {
        lemma_count_id_concat(succs, targets, i);
        lemma_repeat_id_concat(bb, count_id(succs, i), count_id(targets, i));
        assert(ins(b, i) == ins(m, i) + repeat_id(bb, count_id(targets, i)));
        assert(ins(a, i) + repeat_id(bb, count_id(succs, i)) + repeat_id(bb, count_id(targets, i)) =~= ins(a, i)
            + (repeat_id(bb, count_id(succs, i)) + repeat_id(bb, count_id(targets, i))));
    }
}

proof fn lemma_count_id_absent(s: Seq<FlowNodeId>, i: int)
    requires
        forall|k: int| 0 <= k < s.len() ==> ((#[trigger] s[k]).0 as int) < i,
    ensures
        count_id(s, i) == 0,
    decreases s.len(),
{
    if s.len() > 0 {
        assert forall|k: int| 0 <= k < s.drop_last().len() implies ((#[trigger] s.drop_last()[k]).0 as int) < i by {
            assert(s.drop_last()[k] == s[k]);
        }
        lemma_count_id_absent(s.drop_last(), i);
        assert(s.last() == s[s.len() - 1]);
    }
}

/// Whether every basic block node holds at least one instruction.
pub open spec fn blocks_nonempty(nodes: Seq<FlowNode>) -> bool {
    forall|i: int|
        0 <= i < nodes.len() ==> match #[trigger] nodes[i].kind {
            FlowNodeKind::BasicBlock(bb) => bb.0@.len() > 0,
            _ => true,
        }
}

/// Whether the first `n` nodes of `b` have the kinds they had in `a`.
pub open spec fn kinds_kept(a: Seq<FlowNode>, b: Seq<FlowNode>) -> bool {
    &&& a.len() <= b.len()
    &&& forall|i: int| 0 <= i < a.len() ==> #[trigger] b[i].kind == a[i].kind
}

/// Whether `cur` is a node created after the first `n` nodes, or is `prev`.
pub open spec fn fresh_or(cur: Option<FlowNodeId>, n: int, prev: Option<FlowNodeId>) -> bool {
    cur matches Some(c) ==> (c.0 as int >= n || cur == prev)
}

struct Builder {
    graph: ControlFlowGraph,
    block_stack: Vec<(FlowNodeId, Option<InternIdent>)>,
    current: Option<FlowNodeId>,
    bb_instrs: Vec<BasicBlockInstr>,
    unreachable: bool,
    visited: Ghost<nat>,
    emitted: Ghost<Seq<SyntaxNodePtr>>,
}

impl Builder {
    /// The builder's state as plain values.
    spec fn state(&self) -> FlowState {
        FlowState {
            nodes: graph_view(self.graph@),
            stack: self.block_stack@,
            current: self.current,
            pending: ptrs_of(self.bb_instrs@),
            unreachable: self.unreachable,
        }
    }

    spec fn inv(&self) -> bool {
        let nodes = self.graph@;
        &&& graph_wf(nodes)
        &&& nodes.len() >= 2
        &&& nodes[0].kind is Entry
        &&& nodes[1].kind is Exit
        &&& ins(nodes, 0).len() == 0
        &&& outs(nodes, 1).len() == 0
        &&& blocks_nonempty(nodes)
        &&& forall|k: int|
            0 <= k < self.block_stack@.len() ==> {
                let t = (#[trigger] self.block_stack@[k]).0;
                (t.0 as int) < nodes.len() && t.0 != 0
            }
        &&& self.current matches Some(c) ==> (c.0 as int) < nodes.len() && c.0 != 1
        &&& nodes.len() + self.bb_instrs@.len() <= 2 + 2 * self.visited@
        &&& self.visited@ <= max_instrs()
        &&& bb_ptrs(nodes, nodes.len() as int) + ptrs_of(self.bb_instrs@) == self.emitted@
    }

    fn new() -> (b: Builder)
        ensures
            b.graph@.len() == 0,
            b.block_stack@.len() == 0,
            b.bb_instrs@.len() == 0,
            b.current is None,
            !b.unreachable,
            b.visited@ == 0,
            b.emitted@ == Seq::<SyntaxNodePtr>::empty(),
    {
        Builder {
            graph: ControlFlowGraph { nodes: Vec::new() },
            block_stack: Vec::new(),
            current: None,
            bb_instrs: Vec::new(),
            unreachable: false,
            visited: Ghost(0),
            emitted: Ghost(Seq::empty()),
        }
    }

    fn connect_current_to(&mut self, node_id: FlowNodeId)
        requires
            old(self).inv(),
            (node_id.0 as int) < old(self).graph@.len(),
            node_id.0 != 0,
            old(self).current != Some(node_id),
        ensures
            final(self).inv(),
            kinds_kept(old(self).graph@, final(self).graph@),
            final(self).graph@.len() == old(self).graph@.len(),
            final(self).current == old(self).current,
            final(self).block_stack@ == old(self).block_stack@,
            final(self).visited@ == old(self).visited@,
            final(self).emitted@ == old(self).emitted@,
            final(self).unreachable == old(self).unreachable,
            final(self).bb_instrs@ == old(self).bb_instrs@,
            match old(self).current {
                Some(c) => edges_from(old(self).graph@, final(self).graph@, c, seq![node_id]),
                None => final(self).graph@ == old(self).graph@,
            },
            final(self).state() == step_connect(old(self).state(), node_id),
    {
        if let Some(current) = self.current {
            self.graph.add_edge(current, node_id);
        }
    }

    /// Closes the pending instructions into a new basic block that follows
    /// the current node, and makes it current.
    fn add_basic_block(&mut self) -> (r: Option<FlowNodeId>)
        requires
            old(self).inv(),
        ensures
            final(self).inv(),
            kinds_kept(old(self).graph@, final(self).graph@),
            final(self).bb_instrs@.len() == 0,
            final(self).block_stack@ == old(self).block_stack@,
            final(self).visited@ == old(self).visited@,
            final(self).emitted@ == old(self).emitted@,
            final(self).unreachable == old(self).unreachable,
            match r {
                Some(bb) => {
                    &&& old(self).bb_instrs@.len() > 0
                    &&& bb.0 as int == old(self).graph@.len()
                    &&& final(self).graph@.len() == old(self).graph@.len() + 1
                    &&& final(self).current == Some(bb)
                    &&& final(self).graph@[bb.0 as int].kind is BasicBlock
                    &&& block_added(
                        old(self).graph@,
                        final(self).graph@,
                        old(self).bb_instrs@,
                        old(self).unreachable,
                        old(self).current,
                        Seq::empty(),
                    )
                },
                None => {
                    &&& old(self).bb_instrs@.len() == 0
                    &&& final(self).graph@.len() == old(self).graph@.len()
                    &&& final(self).current == old(self).current
                    &&& final(self).graph@ == old(self).graph@
                },
            },
            final(self).state() == step_block(old(self).state()),
            r == step_block_id(old(self).state()),
    {
        if self.bb_instrs.len() == 0 {
            None
        } else {
            let mut instrs: Vec<BasicBlockInstr> = Vec::new();
            std::mem::swap(&mut instrs, &mut self.bb_instrs);
            let ghost g0 = self.graph@;
            let ghost instrs0 = instrs@;
            let bb = self.graph.add_node(FlowNodeKind::BasicBlock(BasicBlock(instrs)), self.unreachable);
            let ghost g1 = self.graph@;
            proof {
                let st = old(self).state();
                assert(ptrs_of(self.bb_instrs@) =~= Seq::<SyntaxNodePtr>::empty());
                assert(ptrs_of(instrs0) == st.pending);
                assert(self.state() == FlowState {
                    nodes: st.nodes.push(lone_node(FlowKindView::BasicBlock(st.pending), st.unreachable)),
                    stack: st.stack,
                    current: st.current,
                    pending: Seq::empty(),
                    unreachable: st.unreachable,
                });
            }
            proof {
                let n = self.graph@;
                assert forall|i: int| 0 <= i < n.len() implies match #[trigger] n[i].kind {
                    FlowNodeKind::BasicBlock(b) => b.0@.len() > 0,
                    _ => true,
                } by {
                    if i < g0.len() {
                        assert(n[i] == g0[i]);
                    }
                }
            }
            self.connect_current_to(bb);
            proof {
                let g2 = self.graph@;
                let n = g0.len() as int;
                assert(g2[n].kind == g1[n].kind);
                match old(self).current {
                    Some(c) => {
                        lemma_count_id_one(bb, n);
                        assert(ins(g2, n) =~= opt_id(old(self).current));
                        assert(outs(g2, n) =~= Seq::<FlowNodeId>::empty());
                        assert forall|i: int| 0 <= i < n implies #[trigger] outs(g2, i) == outs(g0, i) + if old(
                            self,
                        ).current matches Some(c) && c.0 as int == i {
                            seq![bb]
                        } else {
                            Seq::<FlowNodeId>::empty()
                        } by {
                            assert(g1[i] == g0[i]);
                        }
                        assert forall|i: int| 0 <= i < n implies #[trigger] ins(g2, i) == ins(g0, i) + repeat_id(
                            bb,
                            count_id(Seq::<FlowNodeId>::empty(), i),
                        ) by {
                            assert(g1[i] == g0[i]);
                            lemma_count_id_one(bb, i);
                            assert(ins(g0, i) + repeat_id(bb, 0) =~= ins(g0, i));
                        }
                    },
                    None => {
                        assert(ins(g2, n) =~= opt_id(old(self).current));
                        assert(outs(g2, n) =~= Seq::<FlowNodeId>::empty());
                        assert forall|i: int| 0 <= i < n implies #[trigger] outs(g2, i) == outs(g0, i)
                            + Seq::<FlowNodeId>::empty() by {
                            assert(g1[i] == g0[i]);
                            assert(outs(g0, i) + Seq::<FlowNodeId>::empty() =~= outs(g0, i));
                        }
                        assert forall|i: int| 0 <= i < n implies #[trigger] ins(g2, i) == ins(g0, i) + repeat_id(
                            bb,
                            count_id(Seq::<FlowNodeId>::empty(), i),
                        ) by {
                            assert(g1[i] == g0[i]);
                            assert(ins(g0, i) + repeat_id(bb, 0) =~= ins(g0, i));
                        }
                    },
                }
                assert(instrs0 == old(self).bb_instrs@);
            }
            self.current = Some(bb);
            Some(bb)
        }
    }

    fn find_jump_target(&self, idx: Option<Idx>) -> (r: Option<FlowNodeId>)
        requires
            self.inv(),
        ensures
            r == jump_target(self.block_stack@, idx),
            r matches Some(t) ==> exists|k: int|
                0 <= k < self.block_stack@.len() && (#[trigger] self.block_stack@[k]).0 == t,
            r matches Some(t) ==> (t.0 as int) < self.graph@.len() && t.0 != 0,
    {
        let ix = match idx {
            Some(ix) => ix,
            None => return None,
        };
        let total = self.block_stack.len();
        if let Some(num) = ix.num {
            if (num as usize) < total {
                let t = self.block_stack[total - 1 - num as usize].0;
                assert(self.block_stack@[total - 1 - num].0 == t);
                return Some(t);
            } else {
                return None;
            }
        }
        let mut n = total;
        while n > 0
            invariant
                self.inv(),
                n <= self.block_stack@.len(),
                total == self.block_stack@.len(),
                idx == Some(ix),
                ix.num is None,
                last_labeled(self.block_stack@, ix.name, total as int) == last_labeled(
                    self.block_stack@,
                    ix.name,
                    n as int,
                ),
            decreases n,
        {
            if self.block_stack[n - 1].1 == ix.name {
                assert(self.block_stack@[n - 1].0 == self.block_stack[n - 1].0);
                return Some(self.block_stack[n - 1].0);
            }
            n = n - 1;
        }
        None
    }

    /// Marks a block exit unreachable exactly when every node flowing into it is.
    fn finish_exit(&mut self, exit: FlowNodeId)
        requires
            old(self).inv(),
            (exit.0 as int) < old(self).graph@.len(),
        ensures
            final(self).inv(),
            kinds_kept(old(self).graph@, final(self).graph@),
            final(self).graph@.len() == old(self).graph@.len(),
            final(self).current == old(self).current,
            final(self).block_stack@ == old(self).block_stack@,
            final(self).visited@ == old(self).visited@,
            final(self).emitted@ == old(self).emitted@,
            final(self).bb_instrs@ == old(self).bb_instrs@,
            final(self).unreachable == final(self).graph@[exit.0 as int].unreachable,
            final(self).unreachable == forall|k: int|
                0 <= k < ins(old(self).graph@, exit.0 as int).len() ==> old(self).graph@[ins(
                    old(self).graph@,
                    exit.0 as int,
                )[k].0 as int].unreachable,
            final(self).state() == step_finish(old(self).state(), exit),
    {
        let ghost g0 = self.graph@;
        let node = self.graph.get_node(exit).unwrap();
        let incomings = flow_ids_as_slice(&node.incomings);
        let mut all = true;
        let mut k: usize = 0;
        while k < incomings.len()
            invariant
                k <= incomings@.len(),
                incomings@ == ins(g0, exit.0 as int),
                g0 == self.graph@,
                graph_wf(g0),
                (exit.0 as int) < g0.len(),
                all == forall|j: int| 0 <= j < k ==> g0[incomings@[j].0 as int].unreachable,
            decreases incomings@.len() - k,
        {
            let id = incomings[k];
            match self.graph.get_node(id) {
                Some(n) => {
                    if !n.unreachable {
                        all = false;
                    }
                },
                None => {},
            }
            k = k + 1;
        }
        self.unreachable = all;
        self.graph.set_unreachable(exit, all);
        proof {
            let n = self.graph@;
            assert forall|i: int| 0 <= i < n.len() implies match #[trigger] n[i].kind {
                FlowNodeKind::BasicBlock(b) => b.0@.len() > 0,
                _ => true,
            } by {
                assert(n[i].kind == g0[i].kind);
            }
            assert(ins(n, 0) == ins(g0, 0));
            assert(outs(n, 1) == outs(g0, 1));
        }
    }
}

impl Builder {
    fn visit_instrs(&mut self, instrs: &Vec<Instr>)
        requires
            old(self).inv(),
            old(self).visited@ + seq_size(instrs@, instrs@.len() as int) <= max_instrs(),
        ensures
            final(self).inv(),
            kinds_kept(old(self).graph@, final(self).graph@),
            final(self).block_stack@ == old(self).block_stack@,
            final(self).visited@ == old(self).visited@ + seq_size(instrs@, instrs@.len() as int),
            final(self).emitted@ == old(self).emitted@ + flat_seq(instrs@, instrs@.len() as int),
            fresh_or(final(self).current, old(self).graph@.len() as int, old(self).current),
            final(self).state() == step_seq(old(self).state(), instrs@, instrs@.len() as int),
        decreases instrs@, 0int,
    {
        let ghost len0 = self.graph@.len();
        let ghost cur0 = self.current;
        let ghost v0 = self.visited@;
        let mut k: usize = 0;
        while k < instrs.len()
            invariant
                self.inv(),
                k <= instrs@.len(),
                kinds_kept(old(self).graph@, self.graph@),
                self.block_stack@ == old(self).block_stack@,
                self.visited@ == v0 + seq_size(instrs@, k as int),
                self.emitted@ == old(self).emitted@ + flat_seq(instrs@, k as int),
                v0 == old(self).visited@,
                v0 + seq_size(instrs@, instrs@.len() as int) <= max_instrs(),
                len0 == old(self).graph@.len(),
                cur0 == old(self).current,
                fresh_or(self.current, len0 as int, cur0),
                self.state() == step_seq(old(self).state(), instrs@, k as int),
            decreases instrs@.len() - k,
        {
            proof {
                lemma_seq_size_mono(instrs@, k + 1, instrs@.len() as int);
            }
            assert(decreases_to!(instrs@ => instrs@[k as int]));
            let ghost before = self.emitted@;
            self.visit_instr(&instrs[k]);
            assert(flat_seq(instrs@, k + 1) == flat_seq(instrs@, k as int) + flat_instr(instrs@[k as int]));
            assert(self.emitted@ =~= old(self).emitted@ + flat_seq(instrs@, k + 1));
            k = k + 1;
        }
    }

    fn visit_block_like(&mut self, instrs: &Vec<Instr>, exit: FlowNodeId)
        requires
            old(self).inv(),
            old(self).visited@ + seq_size(instrs@, instrs@.len() as int) <= max_instrs(),
            (exit.0 as int) < old(self).graph@.len(),
            exit.0 != 0,
            old(self).current != Some(exit),
        ensures
            final(self).inv(),
            kinds_kept(old(self).graph@, final(self).graph@),
            final(self).block_stack@ == old(self).block_stack@,
            final(self).visited@ == old(self).visited@ + seq_size(instrs@, instrs@.len() as int),
            final(self).emitted@ == old(self).emitted@ + flat_seq(instrs@, instrs@.len() as int),
            final(self).bb_instrs@.len() == 0,
            fresh_or(final(self).current, old(self).graph@.len() as int, old(self).current),
            final(self).state() == step_block_like(old(self).state(), instrs@, exit),
        decreases instrs@, 1int,
    {
        self.visit_instrs(instrs);
        self.add_basic_block();
        self.connect_current_to(exit);
    }

    fn visit_instr(&mut self, instr: &Instr)
        requires
            old(self).inv(),
            old(self).visited@ + instr_size(*instr) <= max_instrs(),
        ensures
            final(self).inv(),
            kinds_kept(old(self).graph@, final(self).graph@),
            final(self).block_stack@ == old(self).block_stack@,
            final(self).visited@ == old(self).visited@ + instr_size(*instr),
            final(self).emitted@ == old(self).emitted@ + flat_instr(*instr),
            fresh_or(final(self).current, old(self).graph@.len() as int, old(self).current),
            final(self).state() == step_instr(old(self).state(), *instr),
        decreases *instr, 2int,
    {
        match instr {
            Instr::Plain(p) => {
                assert(decreases_to!(*instr => *p));
                self.visit_plain(p);
            },
            Instr::Block(b) => {
                assert(decreases_to!(*instr => *b));
                self.visit_block(b);
            },
        }
    }

    fn visit_plain(&mut self, p: &PlainInstr)
        requires
            old(self).inv(),
            old(self).visited@ + instr_size(Instr::Plain(*p)) <= max_instrs(),
        ensures
            final(self).inv(),
            kinds_kept(old(self).graph@, final(self).graph@),
            final(self).block_stack@ == old(self).block_stack@,
            final(self).visited@ == old(self).visited@ + instr_size(Instr::Plain(*p)),
            final(self).emitted@ == old(self).emitted@ + flat_instr(Instr::Plain(*p)),
            fresh_or(final(self).current, old(self).graph@.len() as int, old(self).current),
            final(self).state() == step_plain(old(self).state(), *p),
        decreases *p, 1int,
    {
        assert(instr_size(Instr::Plain(*p)) == 1 + seq_size(p.instrs@, p.instrs@.len() as int));
        assert(decreases_to!(*p => p.instrs@));
        self.visit_instrs(&p.instrs);
        self.visited = Ghost(self.visited@ + 1);
        let ghost s1 = self.state();
        let name = match &p.name {
            Some(name) => name,
            None => {
                assert(flat_instr(Instr::Plain(*p)) =~= flat_seq(p.instrs@, p.instrs@.len() as int));
                return ;
            },
        };
        let mut immediates: Vec<SyntaxNodePtr> = Vec::new();
        let mut i: usize = 0;
        while i < p.immediates.len()
            invariant
                i <= p.immediates@.len(),
            decreases p.immediates@.len() - i,
        {
            immediates.push(p.immediates[i].ptr);
            i = i + 1;
        }
        let ghost bb0 = self.bb_instrs@;
        let ghost e1 = self.emitted@;
        self.bb_instrs.push(BasicBlockInstr { ptr: p.ptr, name: name.clone(), immediates });
        self.emitted = Ghost(self.emitted@.push(p.ptr));
        proof {
            assert(ptrs_of(self.bb_instrs@) =~= ptrs_of(bb0).push(p.ptr));
            assert(flat_instr(Instr::Plain(*p)) == flat_seq(p.instrs@, p.instrs@.len() as int) + seq![p.ptr]);
            assert(self.emitted@ =~= old(self).emitted@ + flat_instr(Instr::Plain(*p)));
            let nodes = self.graph@;
            assert(bb_ptrs(nodes, nodes.len() as int) + ptrs_of(self.bb_instrs@) =~= e1.push(p.ptr));
            assert(self.state() == FlowState {
                nodes: s1.nodes,
                stack: s1.stack,
                current: s1.current,
                pending: s1.pending.push(p.ptr),
                unreachable: s1.unreachable,
            });
        }
        let ghost sp = self.state();
        let effect = classify_flow(name);
        let unreachable = match effect {
            FlowEffect::Halt => {
                self.add_basic_block();
                true
            },
            FlowEffect::Return => {
                self.close_with_return();
                true
            },
            FlowEffect::Branch => {
                self.close_with_jumps(&p.immediates, false);
                true
            },
            FlowEffect::CondBranch => {
                let target = if p.immediates.len() > 0 {
                    self.find_jump_target(p.immediates[0].idx)
                } else {
                    None
                };
                let ghost len1 = self.graph@.len();
                let ghost tgt = target;
                if let Some(bb) = self.add_basic_block() {
                    let ghost sb = self.state();
                    if let Some(target) = target {
                        let ghost k = choose|k: int|
                            0 <= k < self.block_stack@.len() && (#[trigger] self.block_stack@[k]).0
                                == target;
                        assert((target.0 as int) < len1);
                        self.graph.add_edge(bb, target);
                        proof {
                            let t = opt_id(tgt);
                            assert(t =~= seq![target]);
                            assert(with_edges(sb.nodes, bb, t, 0) == sb.nodes);
                            assert(with_edges(sb.nodes, bb, t, 1) == with_edge(sb.nodes, bb, target));
                        }
                    } else {
                        assert(with_edges(sb.nodes, bb, opt_id(tgt), 0) == sb.nodes);
                    }
                }
                assert(self.state() == step_block_to(sp, opt_id(tgt)));
                false
            },
            FlowEffect::Resume => {
                self.close_with_jumps(&p.immediates, true);
                false
            },
            FlowEffect::Next => false,
        };
        if unreachable {
            self.current = None;
        }
        self.unreachable = self.unreachable || unreachable;
    }

    /// Closes the pending block and joins it to the function exit.
    fn close_with_return(&mut self)
        requires
            old(self).inv(),
        ensures
            final(self).inv(),
            kinds_kept(old(self).graph@, final(self).graph@),
            final(self).block_stack@ == old(self).block_stack@,
            final(self).visited@ == old(self).visited@,
            final(self).emitted@ == old(self).emitted@,
            fresh_or(final(self).current, old(self).graph@.len() as int, old(self).current),
            final(self).bb_instrs@.len() == 0,
            final(self).unreachable == old(self).unreachable,
            old(self).bb_instrs@.len() == 0 ==> final(self).graph@ == old(self).graph@ && final(self).current
                == old(self).current,
            old(self).bb_instrs@.len() > 0 ==> final(self).current == Some(
                FlowNodeId(old(self).graph@.len() as u32),
            ) && block_added(
                old(self).graph@,
                final(self).graph@,
                old(self).bb_instrs@,
                old(self).unreachable,
                old(self).current,
                return_targets(old(self).block_stack@),
            ),
            final(self).state() == step_block_to(old(self).state(), return_targets(old(self).block_stack@)),
    {
        let ghost len1 = self.graph@.len();
        if let Some(bb) = self.add_basic_block() {
            if self.block_stack.len() > 0 {
                let exit = self.block_stack[0].0;
                assert((self.block_stack@[0].0.0 as int) < len1);
                let ghost g1 = self.graph@;
                self.graph.add_edge(bb, exit);
                proof {
                    assert(Seq::<FlowNodeId>::empty() + seq![exit] =~= return_targets(self.block_stack@));
                    lemma_block_then_edges(
                        old(self).graph@,
                        g1,
                        self.graph@,
                        old(self).bb_instrs@,
                        old(self).unreachable,
                        old(self).current,
                        Seq::empty(),
                        seq![exit],
                    );
                    let t = return_targets(old(self).block_stack@);
                    assert(t =~= seq![exit]);
                    let g1v = graph_view(g1);
                    assert(with_edges(g1v, bb, t, 0) == g1v);
                    assert(with_edges(g1v, bb, t, 1) == with_edge(g1v, bb, exit));
                }
            } else {
                assert(return_targets(self.block_stack@) =~= Seq::<FlowNodeId>::empty());
                assert(with_edges(graph_view(self.graph@), bb, return_targets(self.block_stack@), 0) == graph_view(
                    self.graph@,
                ));
            }
        }
    }

    /// Closes the pending block and joins it to the labels of the immediates:
    /// their indexes, or with `on_clauses` the labels of their `on` clauses.
    fn close_with_jumps(&mut self, immediates: &Vec<Immediate>, on_clauses: bool)
        requires
            old(self).inv(),
        ensures
            final(self).inv(),
            kinds_kept(old(self).graph@, final(self).graph@),
            final(self).block_stack@ == old(self).block_stack@,
            final(self).visited@ == old(self).visited@,
            final(self).emitted@ == old(self).emitted@,
            fresh_or(final(self).current, old(self).graph@.len() as int, old(self).current),
            final(self).bb_instrs@.len() == 0,
            final(self).unreachable == old(self).unreachable,
            old(self).bb_instrs@.len() == 0 ==> final(self).graph@ == old(self).graph@ && final(self).current
                == old(self).current,
            old(self).bb_instrs@.len() > 0 ==> final(self).current == Some(
                FlowNodeId(old(self).graph@.len() as u32),
            ) && block_added(
                old(self).graph@,
                final(self).graph@,
                old(self).bb_instrs@,
                old(self).unreachable,
                old(self).current,
                jump_targets(old(self).block_stack@, immediates@, on_clauses, immediates@.len() as int),
            ),
            final(self).state() == step_block_to(
                old(self).state(),
                jump_targets(old(self).block_stack@, immediates@, on_clauses, immediates@.len() as int),
            ),
    {
        let ghost len1 = self.graph@.len();
        let ghost stack0 = self.block_stack@;
        let ghost st0 = old(self).state();
        if let Some(bb) = self.add_basic_block() {
            let ghost s1 = self.state();
            let mut j: usize = 0;
            assert(Seq::<FlowNodeId>::empty() =~= jump_targets(stack0, immediates@, on_clauses, 0));
            while j < immediates.len()
                invariant
                    s1 == step_block(st0),
                    step_block_id(st0) == Some(bb),
                    self.state() == with_nodes(
                        s1,
                        with_edges(
                            s1.nodes,
                            bb,
                            jump_targets(stack0, immediates@, on_clauses, j as int),
                            jump_targets(stack0, immediates@, on_clauses, j as int).len() as int,
                        ),
                    ),
                    self.inv(),
                    j <= immediates@.len(),
                    bb.0 as int == len1,
                    len1 == old(self).graph@.len(),
                    self.current == Some(bb),
                    self.block_stack@ == stack0,
                    stack0 == old(self).block_stack@,
                    forall|k: int|
                        0 <= k < stack0.len() ==> ((#[trigger] stack0[k]).0.0 as int) < len1,
                    kinds_kept(old(self).graph@, self.graph@),
                    self.visited@ == old(self).visited@,
                    self.emitted@ == old(self).emitted@,
                    self.graph@.len() == len1 + 1,
                    self.bb_instrs@.len() == 0,
                    self.unreachable == old(self).unreachable,
                    block_added(
                        old(self).graph@,
                        self.graph@,
                        old(self).bb_instrs@,
                        old(self).unreachable,
                        old(self).current,
                        jump_targets(stack0, immediates@, on_clauses, j as int),
                    ),
                decreases immediates@.len() - j,
            {
                let label = if on_clauses {
                    immediates[j].on_label
                } else {
                    immediates[j].idx
                };
                let ghost before = jump_targets(stack0, immediates@, on_clauses, j as int);
                if let Some(target) = self.find_jump_target(label) {
                    let ghost g1 = self.graph@;
                    let ghost k = choose|k: int| 0 <= k < stack0.len() && (#[trigger] stack0[k]).0 == target;
                    assert((target.0 as int) < len1);
                    self.graph.add_edge(bb, target);
                    proof {
                        lemma_block_then_edges(
                            old(self).graph@,
                            g1,
                            self.graph@,
                            old(self).bb_instrs@,
                            old(self).unreachable,
                            old(self).current,
                            before,
                            seq![target],
                        );
                        let after = jump_targets(stack0, immediates@, on_clauses, j + 1);
                        assert(before + seq![target] =~= after);
                        assert(after == before.push(target));
                        lemma_with_edges_prefix(s1.nodes, bb, after, before, before.len() as int);
                        assert(with_edges(s1.nodes, bb, after, after.len() as int) == with_edge(
                            with_edges(s1.nodes, bb, after, before.len() as int),
                            bb,
                            target,
                        ));
                    }
                } else {
                    assert(before == jump_targets(stack0, immediates@, on_clauses, j + 1));
                }
                j = j + 1;
            }
        }
    }

    /// Closes the pending block and creates the entry and exit nodes of a
    /// structured block; the entry follows the current node and becomes current.
    fn open_block(&mut self, ptr: SyntaxNodePtr) -> (r: (FlowNodeId, FlowNodeId))
        requires
            old(self).inv(),
            old(self).visited@ + 1 <= max_instrs(),
        ensures
            final(self).inv(),
            kinds_kept(old(self).graph@, final(self).graph@),
            final(self).block_stack@ == old(self).block_stack@,
            final(self).visited@ == old(self).visited@ + 1,
            final(self).emitted@ == old(self).emitted@,
            r.0.0 as int >= old(self).graph@.len(),
            r.1.0 == r.0.0 + 1,
            final(self).graph@.len() == r.1.0 + 1,
            final(self).graph@[r.0.0 as int].kind is BlockEntry,
            final(self).graph@[r.1.0 as int].kind is BlockExit,
            final(self).current == Some(r.0),
            final(self).bb_instrs@.len() == 0,
            final(self).state() == step_open(old(self).state(), ptr),
            r.0 == FlowNodeId((final(self).graph@.len() - 2) as u32),
            r.1 == FlowNodeId((final(self).graph@.len() - 1) as u32),
    {
        self.visited = Ghost(self.visited@ + 1);
        self.add_basic_block();
        let block_entry = self.graph.add_node(FlowNodeKind::BlockEntry(ptr), self.unreachable);
        self.connect_current_to(block_entry);
        self.current = Some(block_entry);
        let ghost g1 = self.graph@;
        let block_exit = self.graph.add_node(FlowNodeKind::BlockExit, false);
        proof {
            let g2 = self.graph@;
            assert(g2[0] == g1[0]);
            assert(g2[1] == g1[1]);
            assert(g2[block_entry.0 as int] == g1[block_entry.0 as int]);
        }
        (block_entry, block_exit)
    }

    fn visit_block(&mut self, b: &BlockInstr)
        requires
            old(self).inv(),
            old(self).visited@ + instr_size(Instr::Block(*b)) <= max_instrs(),
        ensures
            final(self).inv(),
            kinds_kept(old(self).graph@, final(self).graph@),
            final(self).block_stack@ == old(self).block_stack@,
            final(self).visited@ == old(self).visited@ + instr_size(Instr::Block(*b)),
            final(self).emitted@ == old(self).emitted@ + flat_instr(Instr::Block(*b)),
            fresh_or(final(self).current, old(self).graph@.len() as int, old(self).current),
            final(self).state() == step_block_instr(old(self).state(), *b),
        decreases *b, 1int,
    {
        assert(instr_size(Instr::Block(*b)) == 1 + seq_size(b.instrs@, b.instrs@.len() as int)
            + if b.kind == BlockKind::If {
            branches_size(*b)
        } else {
            0
        });
        assert(flat_instr(Instr::Block(*b)) == flat_seq(b.instrs@, b.instrs@.len() as int)
            + if b.kind == BlockKind::If {
            flat_branches(*b)
        } else {
            Seq::empty()
        });
        let ghost stack0 = self.block_stack@;
        let (block_entry, block_exit) = self.open_block(b.ptr);
        let ghost s1 = self.state();
        let ident = b.ident;
        assert(decreases_to!(*b => b.instrs@));
        match b.kind {
            BlockKind::Block => {
                self.block_stack.push((block_exit, ident));
                self.visit_block_like(&b.instrs, block_exit);
            },
            BlockKind::Loop => {
                self.block_stack.push((block_entry, ident));
                self.visit_block_like(&b.instrs, block_exit);
            },
            BlockKind::If => {
                self.visit_if(b, block_entry, block_exit);
            },
            BlockKind::TryTable => {
                let mut j: usize = 0;
                while j < b.catch_labels.len()
                    invariant
                        self.inv(),
                        j <= b.catch_labels@.len(),
                        block_entry.0 as int == block_exit.0 - 1,
                        self.current == Some(block_entry),
                        self.block_stack@ == stack0,
                        forall|k: int|
                            0 <= k < stack0.len() ==> ((#[trigger] stack0[k]).0.0 as int)
                                < block_entry.0,
                        kinds_kept(old(self).graph@, self.graph@),
                        self.graph@.len() == block_exit.0 + 1,
                        self.graph@[block_exit.0 as int].kind is BlockExit,
                        self.visited@ == old(self).visited@ + 1,
                        self.emitted@ == old(self).emitted@,
                        s1.stack == stack0,
                        self.state() == with_nodes(
                            s1,
                            with_edges(
                                s1.nodes,
                                block_entry,
                                catch_targets(stack0, b.catch_labels@, j as int),
                                catch_targets(stack0, b.catch_labels@, j as int).len() as int,
                            ),
                        ),
                    decreases b.catch_labels@.len() - j,
                {
                    let ghost before = catch_targets(stack0, b.catch_labels@, j as int);
                    if let Some(target) = self.find_jump_target(b.catch_labels[j]) {
                        self.graph.add_edge(block_entry, target);
                        proof {
                            let after = catch_targets(stack0, b.catch_labels@, j + 1);
                            assert(after == before.push(target));
                            lemma_with_edges_prefix(s1.nodes, block_entry, after, before, before.len() as int);
                            assert(with_edges(s1.nodes, block_entry, after, after.len() as int) == with_edge(
                                with_edges(s1.nodes, block_entry, after, before.len() as int),
                                block_entry,
                                target,
                            ));
                        }
                    } else {
                        assert(before == catch_targets(stack0, b.catch_labels@, j + 1));
                    }
                    j = j + 1;
                }
                self.block_stack.push((block_exit, ident));
                self.visit_block_like(&b.instrs, block_exit);
            },
        }
        self.finish_exit(block_exit);
        self.current = Some(block_exit);
        self.block_stack.pop();
        assert(self.emitted@ =~= old(self).emitted@ + flat_instr(Instr::Block(*b)));
    }

    /// The branches of an `if` block whose entry and exit nodes exist: the
    /// condition runs first, then the `then` branch and the `else` branch both
    /// start from where the condition ended; without `else`, the condition
    /// flows to the exit directly.
    fn visit_if(&mut self, b: &BlockInstr, block_entry: FlowNodeId, block_exit: FlowNodeId)
        requires
            old(self).inv(),
            old(self).visited@ + seq_size(b.instrs@, b.instrs@.len() as int) + branches_size(*b)
                <= max_instrs(),
            block_exit.0 == block_entry.0 + 1,
            old(self).graph@.len() == block_exit.0 + 1,
            old(self).current == Some(block_entry),
            block_entry.0 >= 2,
        ensures
            final(self).inv(),
            kinds_kept(old(self).graph@, final(self).graph@),
            final(self).block_stack@ == old(self).block_stack@.push((block_exit, b.ident)),
            final(self).visited@ == old(self).visited@ + seq_size(b.instrs@, b.instrs@.len() as int)
                + branches_size(*b),
            final(self).emitted@ == old(self).emitted@ + flat_seq(b.instrs@, b.instrs@.len() as int)
                + flat_branches(*b),
            final(self).state() == step_if(old(self).state(), *b, block_exit),
        decreases *b, 0int,
    {
        let ghost len2 = self.graph@.len();
        assert(decreases_to!(*b => b.instrs@));
        self.visit_instrs(&b.instrs);
        self.add_basic_block();
        self.block_stack.push((block_exit, b.ident));
        let condition = self.current;
        let saved_unreachable = self.unreachable;
        if let Some(then_block) = &b.then_block {
            assert(decreases_to!(*b => then_block@));
            self.visit_block_like(then_block, block_exit);
            self.current = condition;
            self.unreachable = saved_unreachable;
        }
        if let Some(else_block) = &b.else_block {
            assert(decreases_to!(*b => else_block@));
            self.visit_block_like(else_block, block_exit);
        } else if let Some(condition) = condition {
            self.graph.add_edge(condition, block_exit);
        }
        assert(self.emitted@ =~= old(self).emitted@ + flat_seq(b.instrs@, b.instrs@.len() as int)
            + flat_branches(*b));
    }
}

/// Builds the control flow graph of a function body: node 0 is the entry,
/// node 1 the exit; basic blocks collect straight-line instructions, and every
/// structured block gets an entry node and an exit node.
pub fn analyze(body: &Vec<Instr>) -> (g: ControlFlowGraph)
    requires
        seq_size(body@, body@.len() as int) < max_instrs(),
    ensures
        graph_wf(g@),
        g@.len() >= 2,
        g@[0].kind is Entry,
        g@[1].kind is Exit,
        ins(g@, 0).len() == 0,
        outs(g@, 1).len() == 0,
        blocks_nonempty(g@),
        bb_ptrs(g@, g@.len() as int) == flat_seq(body@, body@.len() as int),
        graph_view(g@) == cfg_of(body@),
{
    let mut builder = Builder::new();
    let entry = builder.graph.add_node(FlowNodeKind::Entry, false);
    builder.current = Some(entry);
    let exit = builder.graph.add_node(FlowNodeKind::Exit, false);
    builder.block_stack.push((exit, None));
    builder.visited = Ghost(1);
    proof {
        assert(ptrs_of(builder.bb_instrs@) =~= Seq::<SyntaxNodePtr>::empty());
        assert(graph_view(builder.graph@) =~= seq![
            lone_node(FlowKindView::Entry, false),
            lone_node(FlowKindView::Exit, false),
        ]);
        assert(builder.block_stack@ =~= seq![(FlowNodeId(1), None)]);
        assert(builder.state() == FlowState {
            nodes: seq![lone_node(FlowKindView::Entry, false), lone_node(FlowKindView::Exit, false)],
            stack: seq![(FlowNodeId(1), None)],
            current: Some(FlowNodeId(0)),
            pending: Seq::empty(),
            unreachable: false,
        });
    }
    builder.visit_block_like(body, exit);
    builder.finish_exit(exit);
    builder.graph
}

/// The smallest range covering the ranges of the first `n` instructions,
/// starting from `first`.
pub open spec fn cover_ranges(instrs: Seq<BasicBlockInstr>, first: TextRange, n: int) -> TextRange
    decreases n,
{
    if n <= 0 {
        first
    } else {
        let acc = cover_ranges(instrs, first, n - 1);
        let r = instrs[n - 1].ptr.range;
        TextRange {
            start: if acc.start <= r.start { acc.start } else { r.start },
            end: if acc.end >= r.end { acc.end } else { r.end },
        }
    }
}

/// The range a basic block spans: from the smallest start to the largest end
/// of its instructions; none for an empty block.
pub open spec fn bb_range(instrs: Seq<BasicBlockInstr>) -> Option<TextRange> {
    if instrs.len() == 0 {
        None
    } else {
        Some(cover_ranges(instrs, instrs[0].ptr.range, instrs.len() as int))
    }
}

impl BasicBlock {
    /// The range the block spans: see `bb_range`.
    pub fn text_range(&self) -> (r: Option<TextRange>)
        ensures
            r == bb_range(self.0@),
    {
        if self.0.len() == 0 {
            return None;
        }
        let first = self.0[0].ptr.range;
        let mut acc = first;
        let mut i: usize = 0;
        while i < self.0.len()
            invariant
                i <= self.0@.len(),
                first == self.0@[0].ptr.range,
                acc == cover_ranges(self.0@, first, i as int),
            decreases self.0@.len() - i,
        {
            acc = acc.cover(&self.0[i].ptr.range);
            i = i + 1;
        }
        Some(acc)
    }

    /// Whether the node ends inside the block's range (after its start, up
    /// to its end).
    pub fn contains_instr(&self, node: &SyntaxNode) -> (r: bool)
        ensures
            r == (bb_range(self.0@) matches Some(range) && range.start < node.range.end
                && node.range.end <= range.end),
    {
        let end = node.range.end;
        match self.text_range() {
            Some(range) => range.start < end && end <= range.end,
            None => false,
        }
    }
}

/// How a range prints: `start..end`.
pub open spec fn range_text(r: TextRange) -> Seq<char> {
    decimal(r.start as nat) + ".."@ + decimal(r.end as nat)
}

/// The label of a node in the Graphviz output.
pub open spec fn node_label(n: FlowNode) -> Seq<char> {
    match n.kind {
        FlowNodeKind::Entry => "Entry"@,
        FlowNodeKind::Exit => "Exit"@,
        FlowNodeKind::BasicBlock(bb) => match bb_range(bb.0@) {
            Some(r) => "BasicBlock@"@ + range_text(r),
            None => "BasicBlock"@,
        },
        FlowNodeKind::BlockEntry(ptr) => "BlockEntry:"@ + syntax_kind_name(ptr.kind) + "@"@ + range_text(
            ptr.range,
        ),
        FlowNodeKind::BlockExit => "BlockExit"@,
    }
}

/// The mark of unreachable nodes and their edges in the Graphviz output.
pub open spec fn unreachable_class(n: FlowNode) -> Seq<char> {
    if n.unreachable {
        " [class=\"unreachable\"]"@
    } else {
        ""@
    }
}

/// The line of node `i`.
pub open spec fn node_line(i: int, n: FlowNode) -> Seq<char> {
    "  "@ + decimal(i as nat) + " [label=\""@ + node_label(n) + "\"]"@ + unreachable_class(n) + "\n"@
}

/// The lines of the first `n` nodes.
pub open spec fn node_lines(nodes: Seq<FlowNode>, n: int) -> Seq<char>
    decreases n,
{
    if n <= 0 {
        Seq::empty()
    } else {
        node_lines(nodes, n - 1) + node_line(n - 1, nodes[n - 1])
    }
}

/// The lines of the first `k` outgoing edges of node `i`.
pub open spec fn edge_lines(i: int, n: FlowNode, k: int) -> Seq<char>
    decreases k,
{
    if k <= 0 {
        Seq::empty()
    } else {
        edge_lines(i, n, k - 1) + "  "@ + decimal(i as nat) + " -> "@ + decimal(
            flow_ids_items(n.outgoings)[k - 1].0 as nat,
        ) + unreachable_class(n) + "\n"@
    }
}

/// The edge lines of the first `n` nodes.
pub open spec fn graph_edge_lines(nodes: Seq<FlowNode>, n: int) -> Seq<char>
    decreases n,
{
    if n <= 0 {
        Seq::empty()
    } else {
        graph_edge_lines(nodes, n - 1) + edge_lines(
            n - 1,
            nodes[n - 1],
            flow_ids_items(nodes[n - 1].outgoings).len() as int,
        )
    }
}

/// The Graphviz description of a graph: a line for each node, a blank
/// line, then a line for each edge.
pub open spec fn dot_text(nodes: Seq<FlowNode>) -> Seq<char> {
    "digraph {\n"@ + node_lines(nodes, nodes.len() as int) + "\n"@ + graph_edge_lines(
        nodes,
        nodes.len() as int,
    ) + "}"@
}

/// The label of a node in the Graphviz output.
fn push_node_label(out: &mut String, node: &FlowNode)
    ensures
        final(out)@ == old(out)@ + node_label(*node),
{
    match &node.kind {
        FlowNodeKind::Entry => out.append("Entry"),
        FlowNodeKind::Exit => out.append("Exit"),
        FlowNodeKind::BasicBlock(bb) => match bb.text_range() {
            Some(range) => {
                out.append("BasicBlock@");
                push_range(out, range);
            },
            None => out.append("BasicBlock"),
        },
        FlowNodeKind::BlockEntry(ptr) => {
            out.append("BlockEntry:");
            out.append(ptr.kind.name());
            out.append("@");
            push_range(out, ptr.range);
        },
        FlowNodeKind::BlockExit => out.append("BlockExit"),
    }
    proof {
        assert(final(out)@ =~= old(out)@ + node_label(*node));
    }
}

fn push_range(out: &mut String, range: TextRange)
    ensures
        final(out)@ == old(out)@ + range_text(range),
{
    push_decimal(out, range.start as u64);
    out.append("..");
    push_decimal(out, range.end as u64);
    assert(final(out)@ =~= old(out)@ + range_text(range));
}

impl ControlFlowGraph {
    /// Graphviz description of the graph: see `dot_text`.
    pub fn generate_dot(&self) -> (r: String)
        ensures
            r@ == dot_text(self@),
    {
        let mut output = String::from_str("digraph {\n");
        proof {
            reveal_strlit("");
        }
        let ghost head = output@;
        let mut i: usize = 0;
        while i < self.nodes.len()
            invariant
                i <= self@.len(),
                output@ == head + node_lines(self@, i as int),
            decreases self@.len() - i,
        {
            let node = &self.nodes[i];
            let ghost before = output@;
            output.append("  ");
            push_decimal(&mut output, i as u64);
            output.append(" [label=\"");
            push_node_label(&mut output, node);
            output.append("\"]");
            let class = if node.unreachable {
                " [class=\"unreachable\"]"
            } else {
                ""
            };
            output.append(class);
            output.append("\n");
            proof {
                assert(output@ =~= before + node_line(i as int, *node));
                assert(head + node_lines(self@, i + 1) =~= head + node_lines(self@, i as int) + node_line(i as int, self@[i as int]));
            }
            i = i + 1;
        }
        output.append("\n");
        let ghost mid = output@;
        let mut i: usize = 0;
        while i < self.nodes.len()
            invariant
                i <= self@.len(),
                output@ == mid + graph_edge_lines(self@, i as int),
            decreases self@.len() - i,
        {
            let node = &self.nodes[i];
            let class = if node.unreachable {
                " [class=\"unreachable\"]"
            } else {
                ""
            };
            let outgoings = flow_ids_as_slice(&node.outgoings);
            let ghost start = output@;
            let mut k: usize = 0;
            while k < outgoings.len()
                invariant
                    k <= outgoings@.len(),
                    outgoings@ == flow_ids_items(node.outgoings),
                    class@ == unreachable_class(*node),
                    output@ == start + edge_lines(i as int, *node, k as int),
                decreases outgoings@.len() - k,
            {
                let ghost before = output@;
                output.append("  ");
                push_decimal(&mut output, i as u64);
                output.append(" -> ");
                push_decimal(&mut output, outgoings[k].0 as u64);
                output.append(class);
                output.append("\n");
                proof {
                    assert(output@ =~= start + edge_lines(i as int, *node, k + 1));
                }
                k = k + 1;
            }
            proof {
                assert(mid + graph_edge_lines(self@, i + 1) =~= mid + graph_edge_lines(self@, i as int) + edge_lines(
                    i as int,
                    self@[i as int],
                    flow_ids_items(self@[i as int].outgoings).len() as int,
                ));
            }
            i = i + 1;
        }
        output.append("}");
        proof {
            assert(output@ =~= dot_text(self@));
        }
        output
    }
}

} // verus!

