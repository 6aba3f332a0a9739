//! Writes of locals whose value is never read afterwards.

use super::locals::{
    classify_local_access, first_immediate_key, instr_targets_local, is_read, is_write, writes_before,
    LocalAccess,
};
use super::{diag_views, lint_severity, lint_severity_spec, plain_diag, Diagnostic, DiagnosticSeverity, DiagnosticView};
use crate::binder::{symbol_of_key, Symbol, SymbolKey, SymbolTable};
use crate::config::LintLevel;
use crate::idx::{ident_texts, render_idx};
use super::uninit::push_ids;
use crate::cfa::{
    flow_ids_as_slice, graph_wf, ins, outs, BasicBlock, BasicBlockInstr, ControlFlowGraph, FlowNode,
    FlowNodeId, FlowNodeKind,
};
use vstd::prelude::*;

verus! {

broadcast use vstd::seq_lib::group_to_multiset_ensures;

/// What is known of a local around one flow node.
#[derive(Clone, Copy, Debug, PartialEq, Eq, Structural)]
pub struct BlockMark {
    /// The node reads the local before writing it, or the value it has on
    /// entry is read later on some path.
    pub in_gen: bool,
    /// The value the local has on leaving the node is read on some path.
    pub out_gen: bool,
    /// The node writes the local.
    pub kill: bool,
}

impl Default for BlockMark {
    fn default() -> (r: BlockMark)
        ensures
            !r.in_gen,
            !r.out_gen,
            !r.kill,
    {
        BlockMark { in_gen: false, out_gen: false, kill: false }
    }
}

/// Whether one of the first `n` instructions reads the local before any write.
pub open spec fn reads_first(t: SymbolTable, bb: Seq<BasicBlockInstr>, def: SymbolKey, n: int) -> bool {
    exists|j: int| 0 <= j < n && is_read(t, #[trigger] bb[j], def) && !writes_before(t, bb, def, j)
}

impl BlockMark {
    /// The mark of a basic block: whether it reads the local before writing
    /// it, and whether it writes it.
    pub fn new(bb: &BasicBlock, symbol_table: &SymbolTable, def_key: SymbolKey) -> (r: BlockMark)
        requires
            symbol_table.wf(),
        ensures
            r.in_gen == reads_first(*symbol_table, bb.0@, def_key, bb.0@.len() as int),
            !r.out_gen,
            r.kill == writes_before(*symbol_table, bb.0@, def_key, bb.0@.len() as int),
    {
        let ghost t = *symbol_table;
        let ghost s = bb.0@;
        let mut in_gen = false;
        let mut kill = false;
        let mut i: usize = 0;
        while i < bb.0.len()
            invariant
                symbol_table.wf(),
                t == *symbol_table,
                s == bb.0@,
                i <= s.len(),
                in_gen == reads_first(t, s, def_key, i as int),
                kill == writes_before(t, s, def_key, i as int),
            decreases s.len() - i,
        {
            let instr = &bb.0[i];
            match classify_local_access(&instr.name) {
                LocalAccess::Read => {
                    if !kill && instr_targets_local(symbol_table, instr, def_key) {
                        in_gen = true;
                    }
                },
                LocalAccess::Write => {
                    if instr_targets_local(symbol_table, instr, def_key) {
                        kill = true;
                    }
                },
                LocalAccess::Other => {},
            }
            proof {
                if reads_first(t, s, def_key, i + 1) && !reads_first(t, s, def_key, i as int) {
                    let j = choose|j: int|
                        0 <= j < i + 1 && is_read(t, #[trigger] s[j], def_key) && !writes_before(
                            t,
                            s,
                            def_key,
                            j,
                        );
                    assert(j == i as int);
                }
                if writes_before(t, s, def_key, i + 1) && !writes_before(t, s, def_key, i as int) {
                    let j = choose|j: int| 0 <= j < i + 1 && is_write(t, #[trigger] s[j], def_key);
                    assert(j == i as int);
                }
            }
            i = i + 1;
        }
        BlockMark { in_gen, out_gen: false, kill }
    }
}

/// Whether an instruction strictly between positions `a` and `b` reads the local.
pub open spec fn read_between(t: SymbolTable, bb: Seq<BasicBlockInstr>, def: SymbolKey, a: int, b: int) -> bool {
    exists|r: int| a < r < b && is_read(t, #[trigger] bb[r], def)
}

/// Whether an instruction strictly between positions `a` and `b` writes the local.
pub open spec fn write_between(t: SymbolTable, bb: Seq<BasicBlockInstr>, def: SymbolKey, a: int, b: int) -> bool {
    exists|w: int| a < w < b && is_write(t, #[trigger] bb[w], def)
}

/// Whether the value written at `j` is overwritten before any read, within
/// the first `h` instructions: another write follows before `h`, and every
/// read after `j` comes after another write.
pub open spec fn overwritten(t: SymbolTable, bb: Seq<BasicBlockInstr>, def: SymbolKey, j: int, h: int) -> bool {
    &&& is_write(t, bb[j], def)
    &&& write_between(t, bb, def, j, h)
    &&& forall|r: int| j < r < h && is_read(t, #[trigger] bb[r], def) ==> write_between(t, bb, def, j, r)
}

/// Whether the value written at `j` is never read: no read in the block
/// follows it before another write, and when it is the block's last write,
/// the value is not read after the block (`out_gen`).
pub open spec fn unread_write(
    t: SymbolTable,
    bb: Seq<BasicBlockInstr>,
    def: SymbolKey,
    out_gen: bool,
    j: int,
) -> bool {
    &&& is_write(t, bb[j], def)
    &&& forall|r: int| j < r < bb.len() && is_read(t, #[trigger] bb[r], def) ==> write_between(t, bb, def, j, r)
    &&& (!write_between(t, bb, def, j, bb.len() as int) ==> !out_gen)
}

/// The keys written by the instructions among the first `n` that satisfy `pred`, in order.
pub open spec fn keys_where(bb: Seq<BasicBlockInstr>, pred: spec_fn(int) -> bool, n: int) -> Seq<SymbolKey>
    decreases n,
{
    if n <= 0 {
        Seq::empty()
    } else {
        keys_where(bb, pred, n - 1) + if pred(n - 1) {
            seq![first_immediate_key(bb[n - 1])]
        } else {
            Seq::empty()
        }
    }
}

proof fn lemma_keys_where_ext(bb: Seq<BasicBlockInstr>, p: spec_fn(int) -> bool, q: spec_fn(int) -> bool, n: int)
    requires
        forall|j: int| 0 <= j < n ==> #[trigger] p(j) == q(j),
    ensures
        keys_where(bb, p, n) == keys_where(bb, q, n),
    decreases n,
{
    if n > 0 {
        lemma_keys_where_ext(bb, p, q, n - 1);
    }
}

proof fn lemma_keys_where_none(bb: Seq<BasicBlockInstr>, p: spec_fn(int) -> bool, a: int, n: int)
    requires
        0 <= a <= n,
        forall|j: int| a <= j < n ==> !#[trigger] p(j),
    ensures
        keys_where(bb, p, n) == keys_where(bb, p, a),
    decreases n,
{
    if n > a {
        lemma_keys_where_none(bb, p, a, n - 1);
        assert(keys_where(bb, p, n) == keys_where(bb, p, n - 1) + Seq::<SymbolKey>::empty());
    }
}

/// The keys of the writes in the block whose value is never read.
pub open spec fn unread_keys(t: SymbolTable, bb: Seq<BasicBlockInstr>, def: SymbolKey, out_gen: bool) -> Seq<SymbolKey> {
    keys_where(bb, |j: int| unread_write(t, bb, def, out_gen, j), bb.len() as int)
}

/// The instructions before `h` that are overwritten before `h`.
pub open spec fn overwritten_before(t: SymbolTable, bb: Seq<BasicBlockInstr>, def: SymbolKey, h: int) -> spec_fn(
    int,
) -> bool {
    |j: int| overwritten(t, bb, def, j, h)
}

/// The invariant of `detect_unread` after the first `i` instructions: `last`
/// is the last write among them, and `pending` its key while no read has
/// followed it.
pub open spec fn pending_state(
    t: SymbolTable,
    bb: Seq<BasicBlockInstr>,
    def: SymbolKey,
    i: int,
    last: Option<int>,
    pending: Option<SymbolKey>,
) -> bool {
    &&& (last matches Some(lw) ==> 0 <= lw < i && is_write(t, bb[lw], def) && !write_between(t, bb, def, lw, i))
    &&& (last is None ==> !writes_before(t, bb, def, i))
    &&& (pending is Some <==> (last matches Some(lw) && !read_between(t, bb, def, lw, i)))
    &&& (pending matches Some(k) ==> k == first_immediate_key(bb[last.unwrap()]))
}

/// Keys settled before position `i` stay settled, and the last write settles
/// when the next one comes.
proof fn lemma_write_step(
    t: SymbolTable,
    bb: Seq<BasicBlockInstr>,
    def: SymbolKey,
    i: int,
    last: Option<int>,
    pending: Option<SymbolKey>,
)
    requires
        0 <= i < bb.len(),
        is_write(t, bb[i], def),
        pending_state(t, bb, def, i, last, pending),
    ensures
        keys_where(bb, overwritten_before(t, bb, def, i + 1), i + 1) == keys_where(
            bb,
            overwritten_before(t, bb, def, i),
            i,
        ) + match pending {
            Some(k) => seq![k],
            None => Seq::empty(),
        },
{
    let p = overwritten_before(t, bb, def, i);
    let q = overwritten_before(t, bb, def, i + 1);
    assert(!q(i)) by {
        if write_between(t, bb, def, i, i + 1) {
            let w = choose|w: int| i < w < i + 1 && is_write(t, #[trigger] bb[w], def);
        }
    }
    assert(keys_where(bb, q, i + 1) == keys_where(bb, q, i) + Seq::<SymbolKey>::empty());
    match last {
        None => {
            assert forall|j: int| 0 <= j < i implies !#[trigger] q(j) by {
                if is_write(t, bb[j], def) {
                    assert(writes_before(t, bb, def, i));
                }
            }
            assert forall|j: int| 0 <= j < i implies !#[trigger] p(j) by {
                if is_write(t, bb[j], def) {
                    assert(writes_before(t, bb, def, i));
                }
            }
            lemma_keys_where_none(bb, q, 0, i);
            lemma_keys_where_none(bb, p, 0, i);
        },
        Some(lw) => {
            // before the last write, nothing changes
            assert forall|j: int| 0 <= j < lw implies #[trigger] q(j) == p(j) by {
                if is_write(t, bb[j], def) {
                    assert(write_between(t, bb, def, j, i));
                    assert(write_between(t, bb, def, j, i + 1));
                    assert forall|r: int| j < r < i + 1 && is_read(t, #[trigger] bb[r], def) implies write_between(t, bb, def, j, r) <==> (
                    j < r < i && is_read(t, bb[r], def) ==> write_between(t, bb, def, j, r)) by {}
                    if p(j) {
                        assert forall|r: int| j < r < i + 1 && is_read(t, #[trigger] bb[r], def) implies write_between(t, bb, def, j, r) by {
                            if r == i {
                                assert(!is_read(t, bb[i], def));
                            }
                        }
                    }
                    if q(j) {
                        assert forall|r: int| j < r < i && is_read(t, #[trigger] bb[r], def) implies write_between(t, bb, def, j, r) by {
                            assert(j < r < i + 1);
                        }
                    }
                }
            }
            // after the last write, no instruction is a write
            assert forall|j: int| lw < j < i implies !is_write(t, #[trigger] bb[j], def) by {
                if is_write(t, bb[j], def) {
                    assert(write_between(t, bb, def, lw, i));
                }
            }
            assert forall|j: int| lw < j < i + 1 implies !#[trigger] q(j) by {
                if j < i {
                    assert(!is_write(t, bb[j], def));
                }
            }
            assert forall|j: int| lw <= j < i implies !#[trigger] p(j) by {
                if j == lw {
                    if write_between(t, bb, def, lw, i) {
                        let w = choose|w: int| lw < w < i && is_write(t, #[trigger] bb[w], def);
                    }
                } else {
                    assert(!is_write(t, bb[j], def));
                }
            }
            // the last write is settled exactly when no read followed it
            assert(q(lw) == pending is Some) by {
                assert(write_between(t, bb, def, lw, i + 1));
                if pending is Some {
                    assert forall|r: int| lw < r < i + 1 && is_read(t, #[trigger] bb[r], def) implies write_between(t, bb, def, lw, r) by {
                        if r < i {
                            assert(read_between(t, bb, def, lw, i));
                        } else {
                            assert(!is_read(t, bb[i], def));
                        }
                    }
                } else {
                    let r = choose|r: int| lw < r < i && is_read(t, #[trigger] bb[r], def);
                    if write_between(t, bb, def, lw, r) {
                        let w = choose|w: int| lw < w < r && is_write(t, #[trigger] bb[w], def);
                        assert(write_between(t, bb, def, lw, i));
                    }
                }
            }
            lemma_keys_where_none(bb, q, lw + 1, i);
            lemma_keys_where_none(bb, p, lw, i);
            lemma_keys_where_ext(bb, p, q, lw);
            assert(keys_where(bb, q, lw + 1) == keys_where(bb, q, lw) + if q(lw) {
                seq![first_immediate_key(bb[lw])]
            } else {
                Seq::<SymbolKey>::empty()
            });
        },
    }
}

/// A read or an instruction that neither reads nor writes the local settles nothing.
proof fn lemma_no_write_step(t: SymbolTable, bb: Seq<BasicBlockInstr>, def: SymbolKey, i: int)
    requires
        0 <= i < bb.len(),
        !is_write(t, bb[i], def),
    ensures
        keys_where(bb, overwritten_before(t, bb, def, i + 1), i + 1) == keys_where(
            bb,
            overwritten_before(t, bb, def, i),
            i,
        ),
{
    let p = overwritten_before(t, bb, def, i);
    let q = overwritten_before(t, bb, def, i + 1);
    assert(!q(i));
    assert(keys_where(bb, q, i + 1) == keys_where(bb, q, i) + Seq::<SymbolKey>::empty());
    assert forall|j: int| 0 <= j < i implies #[trigger] q(j) == p(j) by {
        if is_write(t, bb[j], def) {
            assert(write_between(t, bb, def, j, i + 1) == write_between(t, bb, def, j, i)) by {
                if write_between(t, bb, def, j, i + 1) {
                    let w = choose|w: int| j < w < i + 1 && is_write(t, #[trigger] bb[w], def);
                    assert(w != i);
                }
            }
            if q(j) {
                assert forall|r: int| j < r < i && is_read(t, #[trigger] bb[r], def) implies write_between(t, bb, def, j, r) by {
                    assert(j < r < i + 1);
                }
            }
            if p(j) {
                assert forall|r: int| j < r < i + 1 && is_read(t, #[trigger] bb[r], def) implies write_between(t, bb, def, j, r) by {
                    if r == i {
                        assert(write_between(t, bb, def, j, i));
                    }
                }
            }
        }
    }
    lemma_keys_where_ext(bb, p, q, i);
}

/// At the end of the block, the settled keys and the pending one are the unread writes.
proof fn lemma_unread_end(
    t: SymbolTable,
    bb: Seq<BasicBlockInstr>,
    def: SymbolKey,
    out_gen: bool,
    last: Option<int>,
    pending: Option<SymbolKey>,
)
    requires
        pending_state(t, bb, def, bb.len() as int, last, pending),
    ensures
        unread_keys(t, bb, def, out_gen) == keys_where(
            bb,
            overwritten_before(t, bb, def, bb.len() as int),
            bb.len() as int,
        ) + match pending {
            Some(k) => if out_gen {
                Seq::empty()
            } else {
                seq![k]
            },
            None => Seq::empty(),
        },
{
    let n = bb.len() as int;
    let p = overwritten_before(t, bb, def, n);
    let u = |j: int| unread_write(t, bb, def, out_gen, j);
    match last {
        None => {
            assert forall|j: int| 0 <= j < n implies !#[trigger] u(j) by {
                if is_write(t, bb[j], def) {
                    assert(writes_before(t, bb, def, n));
                }
            }
            assert forall|j: int| 0 <= j < n implies !#[trigger] p(j) by {
                if is_write(t, bb[j], def) {
                    assert(writes_before(t, bb, def, n));
                }
            }
            lemma_keys_where_none(bb, u, 0, n);
            lemma_keys_where_none(bb, p, 0, n);
        },
        Some(lw) => {
            assert forall|j: int| 0 <= j < lw implies #[trigger] u(j) == p(j) by {
                if is_write(t, bb[j], def) {
                    assert(write_between(t, bb, def, j, n));
                }
            }
            assert forall|j: int| lw < j < n implies !is_write(t, #[trigger] bb[j], def) by {
                if is_write(t, bb[j], def) {
                    assert(write_between(t, bb, def, lw, n));
                }
            }
            assert forall|j: int| lw < j < n implies !#[trigger] u(j) by {
                assert(!is_write(t, bb[j], def));
            }
            assert forall|j: int| lw <= j < n implies !#[trigger] p(j) by {
                if j > lw {
                    assert(!is_write(t, bb[j], def));
                }
            }
            assert(u(lw) == (pending is Some && !out_gen)) by {
                if pending is Some {
                    assert forall|r: int| lw < r < n && is_read(t, #[trigger] bb[r], def) implies write_between(t, bb, def, lw, r) by {
                        assert(read_between(t, bb, def, lw, n));
                    }
                } else {
                    let r = choose|r: int| lw < r < n && is_read(t, #[trigger] bb[r], def);
                    if write_between(t, bb, def, lw, r) {
                        let w = choose|w: int| lw < w < r && is_write(t, #[trigger] bb[w], def);
                        assert(write_between(t, bb, def, lw, n));
                    }
                }
            }
            lemma_keys_where_none(bb, u, lw + 1, n);
            lemma_keys_where_none(bb, p, lw, n);
            lemma_keys_where_ext(bb, p, u, lw);
            assert(keys_where(bb, u, lw + 1) == keys_where(bb, u, lw) + if u(lw) {
                seq![first_immediate_key(bb[lw])]
            } else {
                Seq::<SymbolKey>::empty()
            });
        },
    }
}

/// The keys of the writes in a basic block whose value is never read: not in
/// the block before another write, and, for the block's last write, not after
/// the block either when `mark.out_gen` says it is read there.
pub fn detect_unread(
    bb: &BasicBlock,
    def_key: SymbolKey,
    mark: &BlockMark,
    symbol_table: &SymbolTable,
) -> (r: Vec<SymbolKey>)
    requires
        symbol_table.wf(),
    ensures
        r@ == unread_keys(*symbol_table, bb.0@, def_key, mark.out_gen),
{
    let ghost t = *symbol_table;
    let ghost s = bb.0@;
    let mut result: Vec<SymbolKey> = Vec::new();
    let mut pending: Option<SymbolKey> = None;
    let ghost mut last: Option<int> = None;
    let mut i: usize = 0;
    while i < bb.0.len()
        invariant
            symbol_table.wf(),
            t == *symbol_table,
            s == bb.0@,
            i <= s.len(),
            result@ == keys_where(s, overwritten_before(t, s, def_key, i as int), i as int),
            pending_state(t, s, def_key, i as int, last, pending),
        decreases s.len() - i,
    {
        let instr = &bb.0[i];
        let ghost result0 = result@;
        let ghost pending0 = pending;
        let ghost last0 = last;
        match classify_local_access(&instr.name) {
            LocalAccess::Read => {
                if instr_targets_local(symbol_table, instr, def_key) {
                    pending = None;
                }
            },
            LocalAccess::Write => {
                if instr_targets_local(symbol_table, instr, def_key) {
                    match pending {
                        Some(k) => result.push(k),
                        None => {},
                    }
                    pending = Some(SymbolKey(instr.immediates[0]));
                    proof {
                        last = Some(i as int);
                    }
                }
            },
            LocalAccess::Other => {},
        }
        proof {
            if is_write(t, s[i as int], def_key) {
                lemma_write_step(t, s, def_key, i as int, last0, pending0);
                assert(!write_between(t, s, def_key, i as int, i + 1));
                assert(!read_between(t, s, def_key, i as int, i + 1));
            } else {
                lemma_no_write_step(t, s, def_key, i as int);
                if let Some(lw) = last0 {
                    if write_between(t, s, def_key, lw, i + 1) {
                        let w = choose|w: int| lw < w < i + 1 && is_write(t, #[trigger] s[w], def_key);
                        assert(w != i);
                        assert(write_between(t, s, def_key, lw, i as int));
                    }
                    if is_read(t, s[i as int], def_key) {
                        assert(read_between(t, s, def_key, lw, i + 1));
                    } else if read_between(t, s, def_key, lw, i + 1) {
                        let r = choose|r: int| lw < r < i + 1 && is_read(t, #[trigger] s[r], def_key);
                        assert(read_between(t, s, def_key, lw, i as int));
                    }
                }
                if last0 is None && writes_before(t, s, def_key, i + 1) {
                    let j = choose|j: int| 0 <= j < i + 1 && is_write(t, #[trigger] s[j], def_key);
                    assert(writes_before(t, s, def_key, i as int));
                }
            }
        }
        i = i + 1;
    }
    proof {
        lemma_unread_end(t, s, def_key, mark.out_gen, last, pending);
    }
    if !mark.out_gen {
        match pending {
            Some(k) => result.push(k),
            None => {},
        }
    }
    result
}

/// The mark of node `id`, if the id is in range and the node carries one.
pub open spec fn mark_of(marks: Seq<Option<BlockMark>>, id: FlowNodeId) -> Option<BlockMark> {
    if (id.0 as int) < marks.len() {
        marks[id.0 as int]
    } else {
        None
    }
}

/// Whether a successor of node `i` carries a mark whose entry value is read.
pub open spec fn succ_gen(nodes: Seq<FlowNode>, marks: Seq<Option<BlockMark>>, i: int) -> bool {
    exists|k: int|
        0 <= k < outs(nodes, i).len() && (#[trigger] mark_of(marks, outs(nodes, i)[k]) matches Some(
            x,
        ) && x.in_gen)
}

/// Marks `f` carry marks where `m` does and read the entry value wherever `m` does.
pub open spec fn le_marks(m: Seq<Option<BlockMark>>, f: Seq<Option<BlockMark>>) -> bool {
    &&& m.len() == f.len()
    &&& forall|i: int| 0 <= i < m.len() ==> (#[trigger] m[i] is Some) == (f[i] is Some)
    &&& forall|i: int|
        0 <= i < m.len() && (#[trigger] m[i] matches Some(mm) && mm.in_gen) ==> f[i].unwrap().in_gen
}

/// Marks closed under the propagation rules, starting from `base`: the same
/// nodes carry the same `kill`; the value on leaving a node is read when a
/// successor reads its entry value; and the entry value of a node is read
/// when it was in `base`, or when the node does not write the local and the
/// value on leaving is read.
pub open spec fn closed_marks(
    nodes: Seq<FlowNode>,
    base: Seq<Option<BlockMark>>,
    f: Seq<Option<BlockMark>>,
) -> bool {
    &&& f.len() == base.len()
    &&& forall|i: int| 0 <= i < f.len() ==> (#[trigger] f[i] is Some) == (base[i] is Some)
    &&& forall|i: int|
        0 <= i < f.len() && (#[trigger] f[i] matches Some(fm)) ==> {
            &&& f[i].unwrap().kill == base[i].unwrap().kill
            &&& (base[i].unwrap().in_gen ==> f[i].unwrap().in_gen)
            &&& (!f[i].unwrap().kill && f[i].unwrap().out_gen ==> f[i].unwrap().in_gen)
            &&& (succ_gen(nodes, f, i) ==> f[i].unwrap().out_gen)
        }
}

/// Every read that `m` records, `f` records too.
pub open spec fn gen_within(m: Seq<Option<BlockMark>>, f: Seq<Option<BlockMark>>) -> bool {
    forall|i: int|
        0 <= i < m.len() && (#[trigger] m[i] matches Some(mm)) ==> (m[i].unwrap().in_gen
            ==> f[i].unwrap().in_gen) && (m[i].unwrap().out_gen ==> f[i].unwrap().out_gen)
}

/// The result of propagating `base` backwards: the same nodes carry marks
/// with the same `kill`; the value on leaving a node is read exactly when a
/// successor reads its entry value; the entry value is read when `base` says
/// so or when it passes through a node that does not write the local; and
/// nothing is recorded that every marking closed under these rules does not
/// record.
pub open spec fn is_least_marks(
    nodes: Seq<FlowNode>,
    base: Seq<Option<BlockMark>>,
    m: Seq<Option<BlockMark>>,
) -> bool {
    &&& m.len() == base.len()
    &&& forall|i: int| 0 <= i < m.len() ==> (#[trigger] m[i] is Some) == (base[i] is Some)
    &&& forall|i: int|
        0 <= i < m.len() && (#[trigger] m[i] matches Some(mm)) ==> {
            &&& m[i].unwrap().kill == base[i].unwrap().kill
            &&& m[i].unwrap().in_gen == (base[i].unwrap().in_gen || (!m[i].unwrap().kill
                && m[i].unwrap().out_gen))
            &&& (m[i].unwrap().out_gen <==> succ_gen(nodes, m, i))
        }
    &&& forall|f: Seq<Option<BlockMark>>| #[trigger] closed_marks(nodes, base, f) ==> gen_within(m, f)
}

/// Number of marked nodes among the first `n` whose value on leaving is not known to be read.
pub open spec fn ungen(m: Seq<Option<BlockMark>>, n: int) -> nat
    decreases n,
{
    if n <= 0 {
        0
    } else {
        ungen(m, n - 1) + if m[n - 1] matches Some(mm) && !mm.out_gen {
            1nat
        } else {
            0nat
        }
    }
}

proof fn lemma_ungen_update(m: Seq<Option<BlockMark>>, t: Seq<Option<BlockMark>>, k: int, n: int)
    requires
        m.len() == t.len(),
        0 <= k < m.len(),
        0 <= n <= m.len(),
        forall|j: int| 0 <= j < m.len() && j != k ==> t[j] == m[j],
        m[k] matches Some(mm) && !mm.out_gen,
        t[k] matches Some(tm) && tm.out_gen,
    ensures
        n > k ==> ungen(t, n) + 1 == ungen(m, n),
        n <= k ==> ungen(t, n) == ungen(m, n),
    decreases n,
{
    if n > 0 {
        lemma_ungen_update(m, t, k, n - 1);
    }
}

proof fn lemma_succ_gen_mono(nodes: Seq<FlowNode>, m: Seq<Option<BlockMark>>, f: Seq<Option<BlockMark>>, i: int)
    requires
        le_marks(m, f),
        succ_gen(nodes, m, i),
    ensures
        succ_gen(nodes, f, i),
{
    let k = choose|k: int|
        0 <= k < outs(nodes, i).len() && (#[trigger] mark_of(m, outs(nodes, i)[k]) matches Some(x)
            && x.in_gen);
    let p = outs(nodes, i)[k];
    assert((p.0 as int) < m.len());
    assert(m[p.0 as int] matches Some(x) && x.in_gen);
    assert(mark_of(f, outs(nodes, i)[k]) matches Some(x) && x.in_gen);
}

/// If node `i` is a predecessor of `s`, then `s` is a successor of `i`.
proof fn lemma_pred_succ(nodes: Seq<FlowNode>, s: int, k: int) -> (k2: int)
    requires
        graph_wf(nodes),
        0 <= s < nodes.len(),
        0 <= k < ins(nodes, s).len(),
    ensures
        0 <= k2 < outs(nodes, ins(nodes, s)[k].0 as int).len(),
        outs(nodes, ins(nodes, s)[k].0 as int)[k2] == FlowNodeId(s as u32),
        (ins(nodes, s)[k].0 as int) < nodes.len(),
{
    let x = ins(nodes, s)[k];
    assert((x.0 as int) < nodes.len());
    assert(ins(nodes, s).contains(x));
    assert(FlowNodeId(x.0 as int as u32) == x);
    assert(outs(nodes, x.0 as int).to_multiset().count(FlowNodeId(s as u32)) == ins(
        nodes,
        s,
    ).to_multiset().count(FlowNodeId(x.0 as int as u32)));
    assert(outs(nodes, x.0 as int).contains(FlowNodeId(s as u32)));
    choose|k2: int| 0 <= k2 < outs(nodes, x.0 as int).len() && outs(nodes, x.0 as int)[k2] == FlowNodeId(s as u32)
}

/// If `s` is a successor of node `i`, then `i` is a predecessor of `s`.
proof fn lemma_succ_pred(nodes: Seq<FlowNode>, i: int, k: int) -> (k2: int)
    requires
        graph_wf(nodes),
        0 <= i < nodes.len(),
        0 <= k < outs(nodes, i).len(),
    ensures
        0 <= k2 < ins(nodes, outs(nodes, i)[k].0 as int).len(),
        ins(nodes, outs(nodes, i)[k].0 as int)[k2] == FlowNodeId(i as u32),
        (outs(nodes, i)[k].0 as int) < nodes.len(),
{
    let x = outs(nodes, i)[k];
    assert((x.0 as int) < nodes.len());
    assert(outs(nodes, i).contains(x));
    assert(FlowNodeId(x.0 as int as u32) == x);
    assert(outs(nodes, i).to_multiset().count(FlowNodeId(x.0 as int as u32)) == ins(
        nodes,
        x.0 as int,
    ).to_multiset().count(FlowNodeId(i as u32)));
    assert(ins(nodes, x.0 as int).contains(FlowNodeId(i as u32)));
    choose|k2: int| 0 <= k2 < ins(nodes, x.0 as int).len() && ins(nodes, x.0 as int)[k2] == FlowNodeId(i as u32)
}

/// Whether `x` is a predecessor of a marked node whose entry value is read.
pub open spec fn pred_of_gen(nodes: Seq<FlowNode>, marks: Seq<Option<BlockMark>>, x: FlowNodeId) -> bool {
    exists|p: int, k: int|
        0 <= p < marks.len() && 0 <= k < ins(nodes, p).len() && #[trigger] ins(nodes, p)[k] == x
            && marks[p] is Some && marks[p].unwrap().in_gen
}

/// The predecessors of every marked node whose entry value is read.
fn initial_worklist(cfg: &ControlFlowGraph, marks: &Vec<Option<BlockMark>>) -> (w: Vec<FlowNodeId>)
    requires
        graph_wf(cfg@),
        marks@.len() == cfg@.len(),
    ensures
        forall|p: int, k: int|
            0 <= p < marks@.len() && (marks@[p] matches Some(m) && m.in_gen) && 0 <= k < ins(
                cfg@,
                p,
            ).len() ==> w@.contains(#[trigger] ins(cfg@, p)[k]),
        forall|j: int| 0 <= j < w@.len() ==> pred_of_gen(cfg@, marks@, #[trigger] w@[j]),
{
    let nodes = cfg.nodes();
    let mut w: Vec<FlowNodeId> = Vec::new();
    let mut p: usize = 0;
    while p < marks.len()
        invariant
            nodes@ == cfg@,
            marks@.len() == cfg@.len(),
            p <= marks@.len(),
            forall|q: int, k: int|
                0 <= q < p && (marks@[q] matches Some(m) && m.in_gen) && 0 <= k < ins(
                    cfg@,
                    q,
                ).len() ==> w@.contains(#[trigger] ins(cfg@, q)[k]),
            forall|j: int| 0 <= j < w@.len() ==> pred_of_gen(cfg@, marks@, #[trigger] w@[j]),
        decreases marks@.len() - p,
    {
        let read = match marks[p] {
            Some(m) => m.in_gen,
            None => false,
        };
        if read {
            let ghost w0 = w@;
            push_ids(&mut w, flow_ids_as_slice(&nodes[p].incomings));
            proof {
                assert forall|q: int, k: int|
                    0 <= q < p + 1 && (marks@[q] matches Some(m) && m.in_gen) && 0 <= k < ins(
                        cfg@,
                        q,
                    ).len() implies w@.contains(#[trigger] ins(cfg@, q)[k]) by {
                    if q < p {
                        assert(w0.contains(ins(cfg@, q)[k]));
                        let t = choose|t: int| 0 <= t < w0.len() && w0[t] == ins(cfg@, q)[k];
                        assert(w@[t] == ins(cfg@, q)[k]);
                    } else {
                        assert(w@[w0.len() + k] == ins(cfg@, q)[k]);
                    }
                }
                assert forall|j: int| 0 <= j < w@.len() implies pred_of_gen(cfg@, marks@, #[trigger] w@[j]) by {
                    if j < w0.len() {
                        assert(w@[j] == w0[j]);
                        assert(pred_of_gen(cfg@, marks@, w0[j]));
                    } else {
                        let k = j - w0.len();
                        assert(w@[j] == ins(cfg@, p as int)[k]);
                        assert(marks@[p as int] is Some && marks@[p as int].unwrap().in_gen);
                        assert(0 <= p < marks@.len() && 0 <= k < ins(cfg@, p as int).len() && ins(cfg@, p as int)[k] == w@[j]);
                    }
                }
            }
        }
        p = p + 1;
    }
    w
}

/// Spreads reads of the local backwards through the graph.
///
/// The value on leaving a node is read when a successor reads its entry
/// value; the entry value of a node that does not write the local is read
/// when the value on leaving is. The result is the least marking closed
/// under these rules that starts from `marks`.
fn propagate(cfg: &ControlFlowGraph, marks: &mut Vec<Option<BlockMark>>)
    requires
        graph_wf(cfg@),
        old(marks)@.len() == cfg@.len(),
        forall|i: int|
            0 <= i < old(marks)@.len() && (#[trigger] old(marks)@[i]) is Some ==> !old(
                marks,
            )@[i].unwrap().out_gen,
    ensures
        is_least_marks(cfg@, old(marks)@, final(marks)@),
{
    let ghost base = marks@;
    let ghost len = base.len();
    let mut worklist = initial_worklist(cfg, marks);
    proof {
        assert forall|i: int|
            0 <= i < len && (marks@[i] matches Some(m) && !m.out_gen) && succ_gen(
                cfg@,
                marks@,
                i,
            ) implies worklist@.contains(FlowNodeId(i as u32)) by {
            let k = choose|k: int|
                0 <= k < outs(cfg@, i).len() && (#[trigger] mark_of(marks@, outs(cfg@, i)[k]) matches Some(
                    x,
                ) && x.in_gen);
            let k2 = lemma_succ_pred(cfg@, i, k);
            let s = outs(cfg@, i)[k].0 as int;
            assert(worklist@.contains(ins(cfg@, s)[k2]));
        }
        assert forall|j: int| 0 <= j < worklist@.len() implies (worklist@[j].0 as int) < len && succ_gen(
            cfg@,
            marks@,
            worklist@[j].0 as int,
        ) by {
            assert(pred_of_gen(cfg@, marks@, worklist@[j]));
            let (p, k) = choose|p: int, k: int|
                0 <= p < marks@.len() && 0 <= k < ins(cfg@, p).len() && #[trigger] ins(cfg@, p)[k]
                    == worklist@[j] && marks@[p] is Some && marks@[p].unwrap().in_gen;
            let k2 = lemma_pred_succ(cfg@, p, k);
            let x = worklist@[j].0 as int;
            assert(mark_of(marks@, outs(cfg@, x)[k2]) matches Some(y) && y.in_gen);
        }
    }
    while worklist.len() > 0
        invariant
            graph_wf(cfg@),
            base.len() == cfg@.len(),
            len == base.len(),
            marks@.len() == len,
            forall|i: int| 0 <= i < len ==> (#[trigger] marks@[i] is Some) == (base[i] is Some),
            forall|i: int|
                0 <= i < len && (#[trigger] marks@[i] matches Some(m)) ==> {
                    &&& marks@[i].unwrap().kill == base[i].unwrap().kill
                    &&& marks@[i].unwrap().in_gen == (base[i].unwrap().in_gen || (!marks@[i].unwrap().kill
                        && marks@[i].unwrap().out_gen))
                },
            forall|i: int|
                0 <= i < len && (#[trigger] marks@[i] matches Some(m) && m.out_gen) ==> succ_gen(
                    cfg@,
                    marks@,
                    i,
                ),
            forall|i: int|
                0 <= i < len && (#[trigger] marks@[i] matches Some(m) && !m.out_gen) && succ_gen(
                    cfg@,
                    marks@,
                    i,
                ) ==> worklist@.contains(FlowNodeId(i as u32)),
            forall|j: int|
                0 <= j < worklist@.len() ==> (#[trigger] worklist@[j].0 as int) < len && succ_gen(
                    cfg@,
                    marks@,
                    worklist@[j].0 as int,
                ),
            forall|f: Seq<Option<BlockMark>>| #[trigger]
                closed_marks(cfg@, base, f) ==> gen_within(marks@, f),
        decreases ungen(marks@, marks@.len() as int), worklist@.len(),
    {
        let ghost w_before = worklist@;
        let ghost m0 = marks@;
        let id = worklist.pop().unwrap();
        let ghost w_rest = worklist@;
        proof {
            assert(w_before == w_rest.push(id));
            assert(w_before[w_before.len() - 1] == id);
            assert forall|x: FlowNodeId| w_before.contains(x) && x != id implies w_rest.contains(x) by {
                let t = choose|t: int| 0 <= t < w_before.len() && w_before[t] == x;
                assert(t < w_rest.len());
                assert(w_rest[t] == x);
            }
            assert forall|j: int| 0 <= j < w_rest.len() implies (#[trigger] w_rest[j].0 as int) < len
                && succ_gen(cfg@, marks@, w_rest[j].0 as int) by {
                assert(w_rest[j] == w_before[j]);
            }
        }
        let mut changed = false;
        let idx = id.0 as usize;
        if idx < marks.len() {
            match marks[idx] {
                Some(mark) => {
                    if !mark.out_gen {
                        let spreads = !mark.kill && !mark.in_gen;
                        marks.set(
                            idx,
                            Some(BlockMark { in_gen: mark.in_gen || !mark.kill, out_gen: true, kill: mark.kill }),
                        );
                        if spreads {
                            match cfg.get_node(id) {
                                Some(node) => push_ids(&mut worklist, flow_ids_as_slice(&node.incomings)),
                                None => {},
                            }
                        }
                        changed = true;
                        proof {
                            lemma_propagate_step(cfg@, base, m0, marks@, idx as int, w_rest, worklist@, spreads);
                        }
                    }
                },
                None => {},
            }
        }
        proof {
            if !changed {
                assert(marks@ == m0);
                assert forall|i: int|
                    0 <= i < len && (#[trigger] marks@[i] matches Some(m) && !m.out_gen) && succ_gen(
                        cfg@,
                        marks@,
                        i,
                    ) implies worklist@.contains(FlowNodeId(i as u32)) by {
                    assert(w_before.contains(FlowNodeId(i as u32)));
                    if FlowNodeId(i as u32) == id {
                        assert(id.0 as int == i);
                    }
                }
            }
        }
    }
    proof {
        assert forall|i: int|
            0 <= i < marks@.len() && (#[trigger] marks@[i] matches Some(mm)) implies (marks@[i].unwrap().out_gen
                <==> succ_gen(cfg@, marks@, i)) by {
            if !marks@[i].unwrap().out_gen && succ_gen(cfg@, marks@, i) {
                assert(worklist@.contains(FlowNodeId(i as u32)));
            }
        }
    }
}

/// One step of `propagate`: the value on leaving node `idx` is read; its
/// entry value too unless it writes the local.
proof fn lemma_propagate_step(
    nodes: Seq<FlowNode>,
    base: Seq<Option<BlockMark>>,
    m0: Seq<Option<BlockMark>>,
    m1: Seq<Option<BlockMark>>,
    idx: int,
    w_rest: Seq<FlowNodeId>,
    w_new: Seq<FlowNodeId>,
    spreads: bool,
)
    requires
        graph_wf(nodes),
        base.len() == nodes.len(),
        m0.len() == base.len(),
        0 <= idx < m0.len(),
        forall|i: int| 0 <= i < m0.len() ==> (#[trigger] m0[i] is Some) == (base[i] is Some),
        forall|i: int|
            0 <= i < m0.len() && (#[trigger] m0[i] matches Some(m)) ==> {
                &&& m0[i].unwrap().kill == base[i].unwrap().kill
                &&& m0[i].unwrap().in_gen == (base[i].unwrap().in_gen || (!m0[i].unwrap().kill
                    && m0[i].unwrap().out_gen))
            },
        forall|i: int|
            0 <= i < m0.len() && (#[trigger] m0[i] matches Some(m) && m.out_gen) ==> succ_gen(
                nodes,
                m0,
                i,
            ),
        forall|i: int|
            0 <= i < m0.len() && (#[trigger] m0[i] matches Some(m) && !m.out_gen) && succ_gen(
                nodes,
                m0,
                i,
            ) ==> w_rest.push(FlowNodeId(idx as u32)).contains(FlowNodeId(i as u32)),
        forall|j: int|
            0 <= j < w_rest.len() ==> (#[trigger] w_rest[j].0 as int) < m0.len() && succ_gen(
                nodes,
                m0,
                w_rest[j].0 as int,
            ),
        forall|f: Seq<Option<BlockMark>>| #[trigger]
            closed_marks(nodes, base, f) ==> gen_within(m0, f),
        succ_gen(nodes, m0, idx),
        m0[idx] matches Some(m) && !m.out_gen && spreads == (!m.kill && !m.in_gen),
        m1 == m0.update(
            idx,
            Some(
                BlockMark {
                    in_gen: m0[idx].unwrap().in_gen || !m0[idx].unwrap().kill,
                    out_gen: true,
                    kill: m0[idx].unwrap().kill,
                },
            ),
        ),
        !spreads ==> w_new == w_rest,
        spreads ==> w_new == w_rest + ins(nodes, idx),
    ensures
        forall|i: int| 0 <= i < m1.len() ==> (#[trigger] m1[i] is Some) == (base[i] is Some),
        forall|i: int|
            0 <= i < m1.len() && (#[trigger] m1[i] matches Some(m)) ==> {
                &&& m1[i].unwrap().kill == base[i].unwrap().kill
                &&& m1[i].unwrap().in_gen == (base[i].unwrap().in_gen || (!m1[i].unwrap().kill
                    && m1[i].unwrap().out_gen))
            },
        forall|i: int|
            0 <= i < m1.len() && (#[trigger] m1[i] matches Some(m) && m.out_gen) ==> succ_gen(
                nodes,
                m1,
                i,
            ),
        forall|i: int|
            0 <= i < m1.len() && (#[trigger] m1[i] matches Some(m) && !m.out_gen) && succ_gen(
                nodes,
                m1,
                i,
            ) ==> w_new.contains(FlowNodeId(i as u32)),
        forall|j: int|
            0 <= j < w_new.len() ==> (#[trigger] w_new[j].0 as int) < m1.len() && succ_gen(
                nodes,
                m1,
                w_new[j].0 as int,
            ),
        forall|f: Seq<Option<BlockMark>>| #[trigger]
            closed_marks(nodes, base, f) ==> gen_within(m1, f),
        ungen(m1, m1.len() as int) < ungen(m0, m0.len() as int),
{
    let id = FlowNodeId(idx as u32);
    assert(le_marks(m0, m1));
    assert forall|i: int|
        0 <= i < m1.len() && (#[trigger] m1[i] matches Some(m) && m.out_gen) implies succ_gen(
        nodes,
        m1,
        i,
    ) by {
        lemma_succ_gen_mono(nodes, m0, m1, i);
    }
    assert forall|j: int| 0 <= j < w_new.len() implies (#[trigger] w_new[j].0 as int) < m1.len()
        && succ_gen(nodes, m1, w_new[j].0 as int) by {
        if j < w_rest.len() {
            assert(w_new[j] == w_rest[j]);
            lemma_succ_gen_mono(nodes, m0, m1, w_rest[j].0 as int);
        } else {
            let k = j - w_rest.len();
            assert(w_new[j] == ins(nodes, idx)[k]);
            let k2 = lemma_pred_succ(nodes, idx, k);
            let x = w_new[j].0 as int;
            assert(mark_of(m1, outs(nodes, x)[k2]) matches Some(y) && y.in_gen);
        }
    }
    assert forall|i: int|
        0 <= i < m1.len() && (#[trigger] m1[i] matches Some(m) && !m.out_gen) && succ_gen(
            nodes,
            m1,
            i,
        ) implies w_new.contains(FlowNodeId(i as u32)) by {
        assert(i != idx);
        assert(m0[i] == m1[i]);
        if succ_gen(nodes, m0, i) {
            let w_before = w_rest.push(id);
            assert(w_before.contains(FlowNodeId(i as u32)));
            let t = choose|t: int| 0 <= t < w_before.len() && w_before[t] == FlowNodeId(i as u32);
            assert(t < w_rest.len());
            assert(w_new[t] == w_rest[t]);
            assert(w_new.contains(FlowNodeId(i as u32)));
        } else {
            let k = choose|k: int|
                0 <= k < outs(nodes, i).len() && (#[trigger] mark_of(m1, outs(nodes, i)[k]) matches Some(x)
                    && x.in_gen);
            let p = outs(nodes, i)[k];
            if (p.0 as int) != idx {
                assert(mark_of(m0, outs(nodes, i)[k]) matches Some(x) && x.in_gen);
            }
            assert(p == id);
            if !spreads {
                assert(mark_of(m0, outs(nodes, i)[k]) matches Some(x) && x.in_gen);
            }
            let k2 = lemma_succ_pred(nodes, i, k);
            assert(w_new[w_rest.len() + k2] == FlowNodeId(i as u32));
        }
    }
    assert forall|f: Seq<Option<BlockMark>>| #[trigger]
        closed_marks(nodes, base, f) implies gen_within(m1, f) by {
        assert(gen_within(m0, f));
        assert forall|i: int| 0 <= i < m0.len() && (#[trigger] m0[i] matches Some(mm) && mm.in_gen) implies f[i].unwrap().in_gen by {
            assert(f[i] is Some);
        }
        assert(le_marks(m0, f));
        lemma_succ_gen_mono(nodes, m0, f, idx);
        assert(f[idx] is Some);
    }
    lemma_ungen_update(m0, m1, idx, m0.len() as int);
}

proof fn lemma_least_marks_unique(
    nodes: Seq<FlowNode>,
    base: Seq<Option<BlockMark>>,
    m1: Seq<Option<BlockMark>>,
    m2: Seq<Option<BlockMark>>,
)
    requires
        is_least_marks(nodes, base, m1),
        is_least_marks(nodes, base, m2),
    ensures
        m1 == m2,
{
    assert(closed_marks(nodes, base, m1));
    assert(closed_marks(nodes, base, m2));
    assert(gen_within(m1, m2));
    assert(gen_within(m2, m1));
    assert forall|i: int| 0 <= i < m1.len() implies m1[i] == m2[i] by {
        if m1[i] is Some {
            assert(m2[i] is Some);
        }
    }
    assert(m1 =~= m2);
}

/// The marking that propagating `base` backwards gives.
pub open spec fn least_marks(nodes: Seq<FlowNode>, base: Seq<Option<BlockMark>>) -> Seq<
    Option<BlockMark>,
> {
    choose|m: Seq<Option<BlockMark>>| is_least_marks(nodes, base, m)
}

/// The mark a node starts with: none for unreachable nodes and for the
/// entry and exit of the function.
pub open spec fn initial_mark(n: FlowNode, t: SymbolTable, def: SymbolKey) -> Option<BlockMark> {
    if n.unreachable {
        None
    } else {
        match n.kind {
            FlowNodeKind::BasicBlock(bb) => Some(
                BlockMark {
                    in_gen: reads_first(t, bb.0@, def, bb.0@.len() as int),
                    out_gen: false,
                    kill: writes_before(t, bb.0@, def, bb.0@.len() as int),
                },
            ),
            FlowNodeKind::BlockEntry(_) => Some(BlockMark { in_gen: false, out_gen: false, kill: false }),
            FlowNodeKind::BlockExit => Some(BlockMark { in_gen: false, out_gen: false, kill: false }),
            _ => None,
        }
    }
}

/// The marks all nodes start with.
pub open spec fn initial_marks(nodes: Seq<FlowNode>, t: SymbolTable, def: SymbolKey) -> Seq<
    Option<BlockMark>,
> {
    Seq::new(nodes.len(), |i: int| initial_mark(nodes[i], t, def))
}

/// The marks all nodes start with.
fn build_marks(cfg: &ControlFlowGraph, symbol_table: &SymbolTable, def_key: SymbolKey) -> (r: Vec<
    Option<BlockMark>,
>)
    requires
        symbol_table.wf(),
    ensures
        r@ == initial_marks(cfg@, *symbol_table, def_key),
{
    let nodes = cfg.nodes();
    let mut r: Vec<Option<BlockMark>> = Vec::new();
    let mut i: usize = 0;
    while i < nodes.len()
        invariant
            symbol_table.wf(),
            nodes@ == cfg@,
            i <= nodes@.len(),
            r@ == initial_marks(cfg@, *symbol_table, def_key).subrange(0, i as int),
        decreases nodes@.len() - i,
    {
        let node = &nodes[i];
        let mark = if node.unreachable {
            None
        } else {
            match &node.kind {
                FlowNodeKind::BasicBlock(bb) => Some(BlockMark::new(bb, symbol_table, def_key)),
                FlowNodeKind::BlockEntry(_) => Some(BlockMark::default()),
                FlowNodeKind::BlockExit => Some(BlockMark::default()),
                _ => None,
            }
        };
        r.push(mark);
        proof {
            assert(initial_marks(cfg@, *symbol_table, def_key).subrange(0, i + 1) =~= initial_marks(
                cfg@,
                *symbol_table,
                def_key,
            ).subrange(0, i as int).push(mark));
        }
        i = i + 1;
    }
    r
}

/// The message for a write to the local named `name` whose value is never read.
pub open spec fn unread_message(name: Seq<char>) -> Seq<char> {
    "local `"@ + name + "` is set but never read"@
}

/// The diagnostics for writes at the keys, one per key that has a symbol.
pub open spec fn unread_key_diags(
    keys: Seq<SymbolKey>,
    t: SymbolTable,
    severity: DiagnosticSeverity,
    idents: Seq<Seq<char>>,
) -> Seq<DiagnosticView>
    decreases keys.len(),
{
    if keys.len() == 0 {
        Seq::empty()
    } else {
        let rest = unread_key_diags(keys.drop_last(), t, severity, idents);
        match symbol_of_key(t.symbols@, keys.last()) {
            Some(sym) => rest.push(
                plain_diag(
                    sym.key.0.range,
                    severity,
                    "unread"@,
                    unread_message(render_idx(sym.idx, idents)),
                ),
            ),
            None => rest,
        }
    }
}

/// The diagnostics of one node, given its final mark.
pub open spec fn unread_node_diags(
    n: FlowNode,
    mark: Option<BlockMark>,
    t: SymbolTable,
    def: SymbolKey,
    severity: DiagnosticSeverity,
    idents: Seq<Seq<char>>,
) -> Seq<DiagnosticView> {
    match n.kind {
        FlowNodeKind::BasicBlock(bb) => match mark {
            Some(m) => if n.unreachable {
                Seq::empty()
            } else {
                unread_key_diags(unread_keys(t, bb.0@, def, m.out_gen), t, severity, idents)
            },
            None => Seq::empty(),
        },
        _ => Seq::empty(),
    }
}

/// The diagnostics of the first `n` nodes, in node order.
pub open spec fn unread_graph_diags(
    nodes: Seq<FlowNode>,
    marks: Seq<Option<BlockMark>>,
    t: SymbolTable,
    def: SymbolKey,
    severity: DiagnosticSeverity,
    idents: Seq<Seq<char>>,
    n: int,
) -> Seq<DiagnosticView>
    decreases n,
{
    if n <= 0 {
        Seq::empty()
    } else {
        unread_graph_diags(nodes, marks, t, def, severity, idents, n - 1) + unread_node_diags(
            nodes[n - 1],
            marks[n - 1],
            t,
            def,
            severity,
            idents,
        )
    }
}

/// What `check` reports for a local: nothing when the lint is allowed; else
/// each write whose value no path reads.
pub open spec fn unread_diags(
    nodes: Seq<FlowNode>,
    t: SymbolTable,
    level: LintLevel,
    local: Symbol,
    idents: Seq<Seq<char>>,
) -> Seq<DiagnosticView> {
    match lint_severity_spec(level) {
        Some(severity) => {
            let marks = least_marks(nodes, initial_marks(nodes, t, local.key));
            unread_graph_diags(nodes, marks, t, local.key, severity, idents, nodes.len() as int)
        },
        None => Seq::empty(),
    }
}

/// Appends a diagnostic for each key that has a symbol.
fn push_key_diags(
    diagnostics: &mut Vec<Diagnostic>,
    keys: &Vec<SymbolKey>,
    symbol_table: &SymbolTable,
    severity: DiagnosticSeverity,
    idents: &Vec<String>,
)
    requires
        symbol_table.wf(),
    ensures
        diag_views(final(diagnostics)@) == diag_views(old(diagnostics)@) + unread_key_diags(
            keys@,
            *symbol_table,
            severity,
            ident_texts(idents@),
        ),
{
    let mut j: usize = 0;
    while j < keys.len()
        invariant
            symbol_table.wf(),
            j <= keys@.len(),
            diag_views(diagnostics@) == diag_views(old(diagnostics)@) + unread_key_diags(
                keys@.subrange(0, j as int),
                *symbol_table,
                severity,
                ident_texts(idents@),
            ),
        decreases keys@.len() - j,
    {
        let key = keys[j];
        let ghost before = diagnostics@;
        assert(keys@.subrange(0, j + 1).drop_last() == keys@.subrange(0, j as int));
        assert(keys@.subrange(0, j + 1).last() == key);
        match symbol_table.symbols.get(key) {
            Some(sym) => {
                let mut message = String::from_str("local `");
                let name = sym.idx.render(idents);
                message.append(name.as_str());
                message.append("` is set but never read");
                let d = Diagnostic {
                    range: sym.key.0.range,
                    severity,
                    code: String::from_str("unread"),
                    message,
                    tags: None,
                    data: None,
                    related_information: None,
                };
                diagnostics.push(d);
                proof {
                    assert(symbol_of_key(symbol_table.symbols@, key) == Some(*sym));
                    assert(diag_views(diagnostics@) =~= diag_views(before).push(d@));
                }
            },
            None => {},
        }
        j = j + 1;
    }
    assert(keys@.subrange(0, keys@.len() as int) == keys@);
}

/// Reports writes of a local whose value is never read on any path, at the
/// severity of the lint level; nothing when the lint is allowed.
///
/// `cfg` is the control flow graph of the function that declares the local;
/// `idents` holds identifier texts.
pub fn check(
    diagnostics: &mut Vec<Diagnostic>,
    lint_level: LintLevel,
    symbol_table: &SymbolTable,
    cfg: &ControlFlowGraph,
    local: &Symbol,
    idents: &Vec<String>,
)
    requires
        symbol_table.wf(),
        graph_wf(cfg@),
    ensures
        diag_views(final(diagnostics)@) == diag_views(old(diagnostics)@) + unread_diags(
            cfg@,
            *symbol_table,
            lint_level,
            *local,
            ident_texts(idents@),
        ),
{
    let severity = match lint_severity(lint_level) {
        Some(severity) => severity,
        None => {
            assert(diag_views(old(diagnostics)@) + Seq::<DiagnosticView>::empty() == diag_views(
                old(diagnostics)@,
            ));
            return ;
        },
    };
    let mut marks = build_marks(cfg, symbol_table, local.key);
    let ghost base = marks@;
    propagate(cfg, &mut marks);
    proof {
        lemma_least_marks_unique(cfg@, base, marks@, least_marks(cfg@, base));
    }
    let ghost fin = marks@;
    let nodes = cfg.nodes();
    let mut i: usize = 0;
    while i < nodes.len()
        invariant
            symbol_table.wf(),
            nodes@ == cfg@,
            marks@ == fin,
            fin.len() == cfg@.len(),
            fin == least_marks(cfg@, initial_marks(cfg@, *symbol_table, local.key)),
            lint_severity_spec(lint_level) == Some(severity),
            i <= nodes@.len(),
            diag_views(diagnostics@) == diag_views(old(diagnostics)@) + unread_graph_diags(
                cfg@,
                fin,
                *symbol_table,
                local.key,
                severity,
                ident_texts(idents@),
                i as int,
            ),
        decreases nodes@.len() - i,
    {
        let node = &nodes[i];
        match &node.kind {
            FlowNodeKind::BasicBlock(bb) => {
                if !node.unreachable {
                    match &marks[i] {
                        Some(mark) => {
                            let keys = detect_unread(bb, local.key, mark, symbol_table);
                            push_key_diags(diagnostics, &keys, symbol_table, severity, idents);
                        },
                        None => {},
                    }
                }
            },
            _ => {},
        }
        i = i + 1;
    }
}

} // verus!

