//! Laws of the control-flow graph that name the instructions they are about.

use crate::cfa::{
    flow_effect, law_code_after_jump_is_unreachable, lone_node, return_targets, step_block, step_connect, step_named,
    with_current, with_edge, with_edges, FlowEffect, FlowKindView, FlowNodeId, FlowState, PlainInstr,
};
use crate::syntax::SyntaxNodePtr;
use vstd::prelude::*;

verus! {

/// The instructions that end control where they stand: `unreachable`,
/// `throw`, `throw_ref`, `return`, the tail calls, `br` and `br_table`.
pub open spec fn ends_control(name: Seq<char>) -> bool {
    name == "unreachable"@ || name == "throw"@ || name == "throw_ref"@ || name == "return"@ || name
        == "return_call"@ || name == "return_call_indirect"@ || name == "return_call_ref"@ || name == "br"@
        || name == "br_table"@
}

/// After `unreachable`, `throw`, `throw_ref`, `return`, a tail call, `br`
/// or `br_table`, control is in no node and the code that follows is in a
/// new basic block that nothing enters and that is marked unreachable.
pub proof fn law_code_after_control_end_is_unreachable(
    st: FlowState,
    p: PlainInstr,
    name: Seq<char>,
    next: SyntaxNodePtr,
)
    requires
        ends_control(name),
        st.nodes.len() + 2 < u32::MAX,
    ensures
        step_named(st, p, name).unreachable,
        step_named(st, p, name).current is None,
        ({
            let after = step_named(st, p, name);
            let s2 = FlowState {
                nodes: after.nodes,
                stack: after.stack,
                current: after.current,
                pending: after.pending.push(next),
                unreachable: after.unreachable,
            };
            let made = step_block(s2).nodes[after.nodes.len() as int];
            &&& made.unreachable
            &&& made.ins.len() == 0
            &&& made.kind == FlowKindView::BasicBlock(after.pending.push(next))
        }),
{
    law_code_after_jump_is_unreachable(st, p, name, next);
}

/// `return` and the tail calls close the block they end with a single edge
/// to the function's exit, the label at the bottom of the stack, which
/// records the block as its last predecessor.
pub proof fn law_return_goes_to_exit(st: FlowState, p: PlainInstr, name: Seq<char>)
    requires
        name == "return"@ || name == "return_call"@ || name == "return_call_indirect"@ || name
            == "return_call_ref"@,
        st.stack.len() > 0,
        (st.stack[0].0.0 as int) < st.nodes.len(),
        st.current matches Some(c) ==> (c.0 as int) < st.nodes.len(),
        st.nodes.len() + 2 < u32::MAX,
    ensures
        ({
            let after = step_named(st, p, name);
            let bb = st.nodes.len() as int;
            let exit = st.stack[0].0.0 as int;
            &&& after.nodes.len() == bb + 1
            &&& after.nodes[bb].outs == seq![st.stack[0].0]
            &&& after.nodes[exit].ins.len() > 0
            &&& after.nodes[exit].ins.last() == FlowNodeId(bb as u32)
            &&& after.pending.len() == 0
        }),
{
    let bb = st.nodes.len() as int;
    let s = FlowState {
        nodes: st.nodes,
        stack: st.stack,
        current: st.current,
        pending: st.pending.push(p.ptr),
        unreachable: st.unreachable,
    };
    let id = FlowNodeId(bb as u32);
    let s0 = FlowState {
        nodes: s.nodes.push(lone_node(FlowKindView::BasicBlock(s.pending), s.unreachable)),
        stack: s.stack,
        current: s.current,
        pending: Seq::empty(),
        unreachable: s.unreachable,
    };
    let c0 = step_connect(s0, id);
    assert(c0.nodes.len() == bb + 1);
    assert(c0.nodes[bb].outs == Seq::<FlowNodeId>::empty());
    let s1 = step_block(s);
    assert(s1 == with_current(c0, Some(id)));
    let targets = return_targets(s.stack);
    assert(targets == seq![st.stack[0].0]);
    reveal_with_fuel(with_edges, 2);
    let g = with_edges(s1.nodes, id, targets, 1);
    assert(g == with_edge(s1.nodes, id, st.stack[0].0));
    let exit = st.stack[0].0.0 as int;
    assert(exit != bb);
    assert(g.len() == bb + 1);
    assert(g[bb].outs == seq![st.stack[0].0]);
    assert(g[exit].ins.last() == id);
    reveal_strlit("unreachable");
    reveal_strlit("throw");
    reveal_strlit("throw_ref");
    reveal_strlit("return");
    reveal_strlit("return_call");
    reveal_strlit("return_call_indirect");
    reveal_strlit("return_call_ref");
    assert("unreachable"@[0] == 'u' && "throw"@[0] == 't' && "throw_ref"@[0] == 't');
    assert(name[0] == 'r');
    assert(name != "unreachable"@ && name != "throw"@ && name != "throw_ref"@);
    assert(flow_effect(name) == FlowEffect::Return);
    let after = step_named(st, p, name);
    assert(after.nodes == g);
}


/// The instructions whose control may continue after a jump:
/// `br_if`, the `br_on_*` family and the `resume` family.
pub open spec fn may_continue_after_jump(name: Seq<char>) -> bool {
    name == "br_if"@ || name == "br_on_null"@ || name == "br_on_non_null"@ || name == "br_on_cast"@ || name
        == "br_on_cast_fail"@ || name == "resume"@ || name == "resume_throw"@ || name == "resume_throw_ref"@
}

/// After a conditional jump, control continues in the block that the jump
/// ends, and reachability is unchanged.
pub proof fn law_conditional_jump_continues(st: FlowState, p: PlainInstr, name: Seq<char>)
    requires
        may_continue_after_jump(name),
        st.nodes.len() + 2 < u32::MAX,
    ensures
        step_named(st, p, name).current == Some(FlowNodeId(st.nodes.len() as u32)),
        step_named(st, p, name).unreachable == st.unreachable,
        step_named(st, p, name).pending.len() == 0,
{
    lemma_flow_names(name);
}

/// Any other instruction only joins the block being built: the graph,
/// the node control is in and reachability stay as they are.
pub proof fn law_ordinary_instruction_falls_through(st: FlowState, p: PlainInstr, name: Seq<char>)
    requires
        !ends_control(name),
        !may_continue_after_jump(name),
    ensures
        step_named(st, p, name).nodes == st.nodes,
        step_named(st, p, name).current == st.current,
        step_named(st, p, name).unreachable == st.unreachable,
        step_named(st, p, name).pending == st.pending.push(p.ptr),
{
    lemma_flow_names(name);
}

proof fn lemma_flow_names(name: Seq<char>)
    ensures
        ends_control(name) ==> (flow_effect(name) == FlowEffect::Halt || flow_effect(name) == FlowEffect::Return
            || flow_effect(name) == FlowEffect::Branch),
        may_continue_after_jump(name) ==> (flow_effect(name) == FlowEffect::CondBranch || flow_effect(name)
            == FlowEffect::Resume),
        !ends_control(name) && !may_continue_after_jump(name) ==> flow_effect(name) == FlowEffect::Next,
{
    reveal_strlit("unreachable");
    reveal_strlit("throw");
    reveal_strlit("throw_ref");
    reveal_strlit("return");
    reveal_strlit("return_call");
    reveal_strlit("return_call_indirect");
    reveal_strlit("return_call_ref");
    reveal_strlit("br");
    reveal_strlit("br_table");
    reveal_strlit("br_if");
    reveal_strlit("br_on_null");
    reveal_strlit("br_on_non_null");
    reveal_strlit("br_on_cast");
    reveal_strlit("br_on_cast_fail");
    reveal_strlit("resume");
    reveal_strlit("resume_throw");
    reveal_strlit("resume_throw_ref");
    if may_continue_after_jump(name) {
        assert(name[0] == 'b' || name[0] == 'r');
        assert(name.len() >= 5);
        assert(name != "unreachable"@ && name != "throw"@ && name != "throw_ref"@);
        if name == "resume"@ {
            assert(name[2] == 's' && "return"@[2] == 't');
        }
        assert(name != "return"@ && name != "return_call"@ && name != "return_call_indirect"@ && name
            != "return_call_ref"@);
        assert(name != "br"@ && name != "br_table"@);
    }
}

} // verus!
