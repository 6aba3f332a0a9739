//! Instruction names that are no instruction.

use super::{plain_diag, Diagnostic, DiagnosticSeverity, DiagnosticView};
use crate::data_set::instr_meta::{get_instr_op_code, instr_op_code};
use crate::syntax::SyntaxToken;
use vstd::prelude::*;

verus! {

/// The report on an instruction name that has no opcode.
pub open spec fn unknown_instr_diag(name: SyntaxToken) -> Option<DiagnosticView> {
    if instr_op_code(name.text@) is Some {
        None
    } else {
        Some(
            plain_diag(
                name.range,
                DiagnosticSeverity::Error,
                "unknown-instr"@,
                "unknown instruction `"@ + name.text@ + "`"@,
            ),
        )
    }
}

/// Checks that an instruction name names an instruction.
pub fn check(instr_name: &SyntaxToken) -> (r: Option<Diagnostic>)
    ensures
        match unknown_instr_diag(*instr_name) {
            Some(d) => r matches Some(x) && x@ == d,
            None => r is None,
        },
{
    if get_instr_op_code(instr_name.text.as_str()).is_some() {
        None
    } else {
        let mut message = String::from_str("unknown instruction `");
        message.append(instr_name.text.as_str());
        message.append("`");
        Some(Diagnostic::plain(instr_name.range, DiagnosticSeverity::Error, "unknown-instr", message))
    }
}

} // verus!
