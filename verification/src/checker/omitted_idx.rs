//! Instructions on memories and tables that leave out the index of the
//! memory or table they act on.

use super::plain_instr::{is_lane_memory_access, is_memory_access, lane_memory_access, memory_access};
use super::{lint_severity, lint_severity_spec, plain_diag, Diagnostic, DiagnosticView};
use crate::config::LintLevel;
use crate::syntax::{child_nodes_of, child_token_of, SyntaxKind, SyntaxNode};
use crate::text::str_eq;
use vstd::prelude::*;

verus! {

/// Instructions whose memory index stands before a memory argument.
pub open spec fn takes_memory_before_arg(name: Seq<char>) -> bool {
    name == "memory.size"@ || name == "memory.grow"@ || name == "memory.fill"@ || is_memory_access(name)
        || is_lane_memory_access(name)
}

/// Whether an instruction's memory index stands before a memory argument.
pub fn memory_before_arg(name: &str) -> (r: bool)
    ensures
        r == takes_memory_before_arg(name@),
{
    str_eq(name, "memory.size") || str_eq(name, "memory.grow") || str_eq(name, "memory.fill") || memory_access(name)
        || lane_memory_access(name)
}

/// What is missing from an instruction: `Some(true)` a memory index,
/// `Some(false)` a table index, `None` nothing.
pub open spec fn omitted_idx(node: SyntaxNode, name: Seq<char>) -> Option<bool> {
    let imms = child_nodes_of(node, SyntaxKind::IMMEDIATE);
    if takes_memory_before_arg(name) {
        if imms.len() == 0 || child_nodes_of(imms[0], SyntaxKind::MEM_ARG).len() > 0 {
            Some(true)
        } else {
            None
        }
    } else if name == "memory.init"@ || name == "memory.copy"@ {
        if imms.len() < 2 {
            Some(true)
        } else {
            None
        }
    } else if name == "table.get"@ || name == "table.set"@ || name == "table.size"@ || name == "table.grow"@
        || name == "table.fill"@ {
        if imms.len() == 0 {
            Some(false)
        } else {
            None
        }
    } else if name == "table.init"@ || name == "table.copy"@ {
        if imms.len() < 2 {
            Some(false)
        } else {
            None
        }
    } else {
        None
    }
}

/// The report on an instruction that leaves out the index of its memory or
/// table, at the instruction name, with the severity of the lint level.
pub open spec fn omitted_idx_diag(level: LintLevel, node: SyntaxNode) -> Option<DiagnosticView> {
    match (lint_severity_spec(level), child_token_of(node, SyntaxKind::INSTR_NAME)) {
        (Some(severity), Some(name)) => match omitted_idx(node, name.text@) {
            Some(memory) => Some(
                plain_diag(
                    name.range,
                    severity,
                    "omitted-idx-in-instr"@,
                    (if memory {
                        "explicit memory idx for `"@
                    } else {
                        "explicit table idx for `"@
                    }) + name.text@ + "` is required"@,
                ),
            ),
            None => None,
        },
        _ => None,
    }
}

/// Checks that an instruction on memories or tables names the one it acts on.
pub fn check(lint_level: LintLevel, node: &SyntaxNode) -> (r: Option<Diagnostic>)
    ensures
        match omitted_idx_diag(lint_level, *node) {
            Some(d) => r matches Some(x) && x@ == d,
            None => r is None,
        },
{
    let severity = match lint_severity(lint_level) {
        Some(s) => s,
        None => return None,
    };
    let name_token = match node.token_of_kind(SyntaxKind::INSTR_NAME) {
        Some(t) => t,
        None => return None,
    };
    let name = name_token.text.as_str();
    let imms = node.children_of_kind(SyntaxKind::IMMEDIATE);
    proof {
        assert(imms@.len() == child_nodes_of(*node, SyntaxKind::IMMEDIATE).len());
        if imms@.len() > 0 {
            assert(*imms@[0] == child_nodes_of(*node, SyntaxKind::IMMEDIATE)[0]);
        }
    }
    let memory = if str_eq(name, "memory.size") || str_eq(name, "memory.grow") || str_eq(name, "memory.fill")
        || memory_access(name) || lane_memory_access(name) {
        if imms.len() == 0 || imms[0].child_of_kind(SyntaxKind::MEM_ARG).is_some() {
            true
        } else {
            return None;
        }
    } else if str_eq(name, "memory.init") || str_eq(name, "memory.copy") {
        if imms.len() < 2 {
            true
        } else {
            return None;
        }
    } else if str_eq(name, "table.get") || str_eq(name, "table.set") || str_eq(name, "table.size") || str_eq(
        name,
        "table.grow",
    ) || str_eq(name, "table.fill") {
        if imms.len() == 0 {
            false
        } else {
            return None;
        }
    } else if str_eq(name, "table.init") || str_eq(name, "table.copy") {
        if imms.len() < 2 {
            false
        } else {
            return None;
        }
    } else {
        return None;
    };
    let mut message = if memory {
        String::from_str("explicit memory idx for `")
    } else {
        String::from_str("explicit table idx for `")
    };
    message.append(name);
    message.append("` is required");
    Some(Diagnostic::plain(name_token.range, severity, "omitted-idx-in-instr", message))
}

} // verus!
