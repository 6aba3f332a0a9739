//! Checks on the shape of a document: modules, memories, start sections,
//! catch clauses.

use super::{
    after, diag_views, lint_severity, lint_severity_spec, node_diags, plain_diag, push_node_diags, Diagnostic,
    DiagnosticSeverity, DiagnosticTag, DiagnosticView,
};
use crate::config::LintLevel;
use crate::syntax::{child_nodes_of, child_token_of, SyntaxKind, SyntaxNode};
use vstd::prelude::*;

verus! {

/// Every module after the first, when multiple modules are not allowed.
pub open spec fn multi_modules_diags(level: LintLevel, root: SyntaxNode) -> Seq<DiagnosticView> {
    match lint_severity_spec(level) {
        Some(severity) => node_diags(
            after(child_nodes_of(root, SyntaxKind::MODULE), 1),
            severity,
            "multiple-modules"@,
            "only one module is allowed"@,
        ),
        None => Seq::empty(),
    }
}

/// Reports every module after the first one of the document.
pub fn check_multi_modules(diagnostics: &mut Vec<Diagnostic>, lint_level: LintLevel, root: &SyntaxNode)
    ensures
        diag_views(final(diagnostics)@) == diag_views(old(diagnostics)@) + multi_modules_diags(
            lint_level,
            *root,
        ),
{
    match lint_severity(lint_level) {
        Some(severity) => {
            let modules = root.children_of_kind(SyntaxKind::MODULE);
            push_node_diags(
                diagnostics,
                &modules,
                1,
                severity,
                "multiple-modules",
                "only one module is allowed",
            );
        },
        None => {
            assert(diag_views(old(diagnostics)@) + Seq::<DiagnosticView>::empty() =~= diag_views(
                old(diagnostics)@,
            ));
        },
    }
}

/// Every memory after the first among the fields of a node, when multiple
/// memories are not allowed.
pub open spec fn multi_memories_diags(level: LintLevel, node: SyntaxNode) -> Seq<DiagnosticView> {
    match lint_severity_spec(level) {
        Some(severity) => node_diags(
            after(child_nodes_of(node, SyntaxKind::MODULE_FIELD_MEMORY), 1),
            severity,
            "multiple-memories"@,
            "only one memory is allowed"@,
        ),
        None => Seq::empty(),
    }
}

/// Reports every memory field after the first one among the children of a node.
pub fn check_multi_memories(diagnostics: &mut Vec<Diagnostic>, lint_level: LintLevel, node: &SyntaxNode)
    ensures
        diag_views(final(diagnostics)@) == diag_views(old(diagnostics)@) + multi_memories_diags(
            lint_level,
            *node,
        ),
{
    match lint_severity(lint_level) {
        Some(severity) => {
            let memories = node.children_of_kind(SyntaxKind::MODULE_FIELD_MEMORY);
            push_node_diags(
                diagnostics,
                &memories,
                1,
                severity,
                "multiple-memories",
                "only one memory is allowed",
            );
        },
        None => {
            assert(diag_views(old(diagnostics)@) + Seq::<DiagnosticView>::empty() =~= diag_views(
                old(diagnostics)@,
            ));
        },
    }
}

/// The report on a module written without parentheses: its fields stand at
/// the top level of the document.
pub open spec fn implicit_module_diag(level: LintLevel, module: SyntaxNode) -> Option<DiagnosticView> {
    match lint_severity_spec(level) {
        Some(severity) => if child_token_of(module, SyntaxKind::L_PAREN) is None {
            Some(
                plain_diag(
                    module.range,
                    severity,
                    "implicit-module"@,
                    "top-level module fields should be wrapped in a module"@,
                ),
            )
        } else {
            None
        },
        None => None,
    }
}

/// Reports a module written without parentheses.
pub fn check_implicit_module(lint_level: LintLevel, module: &SyntaxNode) -> (r: Option<Diagnostic>)
    ensures
        match implicit_module_diag(lint_level, *module) {
            Some(d) => r matches Some(x) && x@ == d,
            None => r is None,
        },
{
    let severity = match lint_severity(lint_level) {
        Some(s) => s,
        None => return None,
    };
    if module.token_of_kind(SyntaxKind::L_PAREN).is_none() {
        Some(
            Diagnostic {
                range: module.range,
                severity,
                code: String::from_str("implicit-module"),
                message: String::from_str("top-level module fields should be wrapped in a module"),
                tags: None,
                data: None,
                related_information: None,
            },
        )
    } else {
        None
    }
}

/// Every start section of a module after the first.
pub open spec fn multi_starts_diags(module: SyntaxNode) -> Seq<DiagnosticView> {
    node_diags(
        after(child_nodes_of(module, SyntaxKind::MODULE_FIELD_START), 1),
        DiagnosticSeverity::Error,
        "multiple-starts"@,
        "only one start section is allowed"@,
    )
}

/// Reports every start section of a module after the first.
pub fn check_multi_starts(diagnostics: &mut Vec<Diagnostic>, module: &SyntaxNode)
    ensures
        diag_views(final(diagnostics)@) == diag_views(old(diagnostics)@) + multi_starts_diags(*module),
{
    let starts = module.children_of_kind(SyntaxKind::MODULE_FIELD_START);
    push_node_diags(
        diagnostics,
        &starts,
        1,
        DiagnosticSeverity::Error,
        "multiple-starts",
        "only one start section is allowed",
    );
}

/// The report on a `try_table` block without catch clauses, at its keyword.
pub open spec fn needless_try_table_diag(level: LintLevel, node: SyntaxNode) -> Option<DiagnosticView> {
    match lint_severity_spec(level) {
        Some(severity) => match child_token_of(node, SyntaxKind::KEYWORD) {
            Some(keyword) => if child_nodes_of(node, SyntaxKind::CATCH).len() == 0 && child_nodes_of(
                node,
                SyntaxKind::CATCH_ALL,
            ).len() == 0 {
                Some(
                    DiagnosticView {
                        range: keyword.range,
                        severity,
                        code: "needless-try-table"@,
                        message: "`try_table` block without catch clauses is unnecessary"@,
                        tags: Some(seq![DiagnosticTag::Unnecessary]),
                        data: None,
                        related_information: None,
                    },
                )
            } else {
                None
            },
            None => None,
        },
        None => None,
    }
}

/// Reports a `try_table` block without catch clauses.
pub fn check_needless_try_table(lint_level: LintLevel, node: &SyntaxNode) -> (r: Option<Diagnostic>)
    ensures
        match needless_try_table_diag(lint_level, *node) {
            Some(d) => r matches Some(x) && x@ == d,
            None => r is None,
        },
{
    let severity = match lint_severity(lint_level) {
        Some(s) => s,
        None => return None,
    };
    let keyword = match node.token_of_kind(SyntaxKind::KEYWORD) {
        Some(k) => k,
        None => return None,
    };
    let catches = node.children_of_kind(SyntaxKind::CATCH);
    let catch_alls = node.children_of_kind(SyntaxKind::CATCH_ALL);
    if catches.len() == 0 && catch_alls.len() == 0 {
        let tags = vec![DiagnosticTag::Unnecessary];
        let d = Diagnostic {
            range: keyword.range,
            severity,
            code: String::from_str("needless-try-table"),
            message: String::from_str("`try_table` block without catch clauses is unnecessary"),
            tags: Some(tags),
            data: None,
            related_information: None,
        };
        proof {
            assert(d@.tags == Some(seq![DiagnosticTag::Unnecessary]));
        }
        Some(d)
    } else {
        None
    }
}

} // verus!
