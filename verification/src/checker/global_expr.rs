//! Instructions in the initializer of a global that are not constant.

use super::{diag_views, plain_diag, Diagnostic, DiagnosticSeverity, DiagnosticView};
use crate::syntax::{child_nodes, child_token_of, SyntaxKind, SyntaxNode};
use crate::text::str_eq;
use vstd::prelude::*;
use vstd::utf8::encode_utf8;

verus! {

/// Whether a name ends with `.const`, byte by byte.
pub open spec fn ends_with_const(name: Seq<char>) -> bool {
    let b = encode_utf8(name);
    b.len() >= 6 && b.subrange(b.len() - 6, b.len() as int) == seq![0x2eu8, 0x63u8, 0x6fu8, 0x6eu8, 0x73u8, 0x74u8]
}

/// Plain instructions allowed in a constant expression, besides the `.const` ones.
pub open spec fn is_constant_instr_name(name: Seq<char>) -> bool {
    ends_with_const(name) || name == "global.get"@ || name == "ref.null"@ || name == "ref.i31"@ || name
        == "ref.func"@ || name == "struct.new"@ || name == "struct.new_default"@ || name == "array.new"@
        || name == "array.new_default"@ || name == "array.new_fixed"@ || name == "any.convert_extern"@
        || name == "extern.convert_any"@
}

/// Whether a child node is an instruction that a constant expression may
/// not hold: any block, and a plain instruction with a name that is not
/// constant (one without a name is let pass).
pub open spec fn is_non_constant(instr: SyntaxNode) -> bool {
    if instr.kind == SyntaxKind::PLAIN_INSTR {
        match child_token_of(instr, SyntaxKind::INSTR_NAME) {
            Some(name) => !is_constant_instr_name(name.text@),
            None => false,
        }
    } else {
        instr.kind == SyntaxKind::BLOCK_BLOCK || instr.kind == SyntaxKind::BLOCK_LOOP || instr.kind
            == SyntaxKind::BLOCK_IF || instr.kind == SyntaxKind::BLOCK_TRY_TABLE
    }
}

/// A report for each of the first `n` nodes that is a non-constant instruction.
pub open spec fn global_expr_diags(nodes: Seq<SyntaxNode>, n: int) -> Seq<DiagnosticView>
    decreases n,
{
    if n <= 0 {
        seq![]
    } else {
        global_expr_diags(nodes, n - 1) + if is_non_constant(nodes[n - 1]) {
            seq![
                plain_diag(
                    nodes[n - 1].range,
                    DiagnosticSeverity::Error,
                    "global-expr"@,
                    "expression must be constant in global"@,
                ),
            ]
        } else {
            seq![]
        }
    }
}

fn ends_with_const_name(name: &str) -> (r: bool)
    ensures
        r == ends_with_const(name@),
{
    let b = name.as_bytes();
    let n = b.len();
    if n < 6 {
        return false;
    }
    let r = b[n - 6] == 0x2e && b[n - 5] == 0x63 && b[n - 4] == 0x6f && b[n - 3] == 0x6e && b[n - 2] == 0x73
        && b[n - 1] == 0x74;
    let ghost tail = b@.subrange(n - 6, n as int);
    assert(r ==> tail =~= seq![0x2eu8, 0x63u8, 0x6fu8, 0x6eu8, 0x73u8, 0x74u8]);
    assert(tail =~= seq![0x2eu8, 0x63u8, 0x6fu8, 0x6eu8, 0x73u8, 0x74u8] ==> tail[0] == 0x2e && tail[1] == 0x63
        && tail[2] == 0x6f && tail[3] == 0x6e && tail[4] == 0x73 && tail[5] == 0x74);
    r
}

fn constant_instr_name(name: &str) -> (r: bool)
    ensures
        r == is_constant_instr_name(name@),
{
    ends_with_const_name(name) || str_eq(name, "global.get") || str_eq(name, "ref.null") || str_eq(name, "ref.i31")
        || str_eq(name, "ref.func") || str_eq(name, "struct.new") || str_eq(name, "struct.new_default") || str_eq(
        name,
        "array.new",
    ) || str_eq(name, "array.new_default") || str_eq(name, "array.new_fixed") || str_eq(
        name,
        "any.convert_extern",
    ) || str_eq(name, "extern.convert_any")
}

/// Checks that the instructions directly under a node (the initializer of a
/// global) are constant.
pub fn check(diagnostics: &mut Vec<Diagnostic>, node: &SyntaxNode)
    ensures
        diag_views(final(diagnostics)@) == diag_views(old(diagnostics)@) + global_expr_diags(
            child_nodes(*node),
            child_nodes(*node).len() as int,
        ),
{
    let instrs = node.nodes();
    let ghost all = instrs@.map_values(|n: &SyntaxNode| *n);
    let mut i: usize = 0;
    assert(diag_views(old(diagnostics)@) + seq![] =~= diag_views(old(diagnostics)@));
    while i < instrs.len()
        invariant
            all == instrs@.map_values(|n: &SyntaxNode| *n),
            all == child_nodes(*node),
            i <= instrs@.len(),
            diag_views(diagnostics@) == diag_views(old(diagnostics)@) + global_expr_diags(all, i as int),
        decreases instrs@.len() - i,
    {
        let ghost before = diag_views(diagnostics@);
        let instr = instrs[i];
        assert(all[i as int] == *instr);
        let bad = if instr.kind == SyntaxKind::PLAIN_INSTR {
            match instr.token_of_kind(SyntaxKind::INSTR_NAME) {
                Some(name) => !constant_instr_name(name.text.as_str()),
                None => false,
            }
        } else {
            instr.kind == SyntaxKind::BLOCK_BLOCK || instr.kind == SyntaxKind::BLOCK_LOOP || instr.kind
                == SyntaxKind::BLOCK_IF || instr.kind == SyntaxKind::BLOCK_TRY_TABLE
        };
        if bad {
            let d = Diagnostic::plain(
                instr.range,
                DiagnosticSeverity::Error,
                "global-expr",
                String::from_str("expression must be constant in global"),
            );
            diagnostics.push(d);
            assert(diag_views(diagnostics@) =~= before.push(d@));
        } else {
            assert(diag_views(diagnostics@) =~= before);
        }
        assert(diag_views(diagnostics@) =~= diag_views(old(diagnostics)@) + global_expr_diags(all, i + 1));
        i = i + 1;
    }
}

} // verus!
