//! Labels repeated after `end` that do not match the block's own label.

use super::{Diagnostic, DiagnosticSeverity, DiagnosticView, RelatedInformation};
use crate::syntax::{child_nodes_of, child_token_of, SyntaxKind, SyntaxNode};
use crate::text::str_eq;
use vstd::prelude::*;

verus! {

/// Whether the kind is one of the structured blocks.
pub open spec fn is_block_kind(kind: SyntaxKind) -> bool {
    kind == SyntaxKind::BLOCK_BLOCK || kind == SyntaxKind::BLOCK_LOOP || kind == SyntaxKind::BLOCK_IF
        || kind == SyntaxKind::BLOCK_TRY_TABLE
}

/// The keyword that names a block kind in messages.
pub open spec fn block_kind_word(kind: SyntaxKind) -> Seq<char> {
    if kind == SyntaxKind::BLOCK_BLOCK {
        "block"@
    } else if kind == SyntaxKind::BLOCK_LOOP {
        "loop"@
    } else if kind == SyntaxKind::BLOCK_IF {
        "if"@
    } else {
        "try_table"@
    }
}

/// The keyword that names a block kind in messages.
pub fn display_block_kind(node: &SyntaxNode) -> (r: &'static str)
    requires
        is_block_kind(node.kind),
    ensures
        r@ == block_kind_word(node.kind),
{
    match node.kind {
        SyntaxKind::BLOCK_BLOCK => "block",
        SyntaxKind::BLOCK_LOOP => "loop",
        SyntaxKind::BLOCK_IF => "if",
        _ => "try_table",
    }
}

/// The report on the label after a block's `end`: none when it repeats the
/// block's label; a mismatch when the block has another label; and an
/// unexpected label when the block has none, pointing at the block's
/// keyword (or the block itself without one).
pub open spec fn asymmetric_ident_diag(node: SyntaxNode) -> Option<DiagnosticView> {
    let ends = child_nodes_of(node, SyntaxKind::END_DELIM);
    if ends.len() == 0 {
        None
    } else {
        match child_token_of(ends[0], SyntaxKind::IDENT) {
            None => None,
            Some(close) => {
                let kind = block_kind_word(node.kind);
                match child_token_of(node, SyntaxKind::IDENT) {
                    Some(open) => if open.text@ == close.text@ {
                        None
                    } else {
                        Some(
                            DiagnosticView {
                                range: close.range,
                                severity: DiagnosticSeverity::Error,
                                code: "asymmetric-ident"@,
                                message: "mismatched ident whose enclosing `"@ + kind + "` is labeled as `"@
                                    + open.text@ + "`"@,
                                tags: None,
                                data: None,
                                related_information: Some(
                                    seq![(open.range, kind + " `"@ + open.text@ + "` defined here"@)],
                                ),
                            },
                        )
                    },
                    None => Some(
                        DiagnosticView {
                            range: close.range,
                            severity: DiagnosticSeverity::Error,
                            code: "asymmetric-ident"@,
                            message: "unexpected ident whose enclosing `"@ + kind + "` is not labeled"@,
                            tags: None,
                            data: None,
                            related_information: Some(
                                seq![
                                    (
                                        match child_token_of(node, SyntaxKind::KEYWORD) {
                                            Some(k) => k.range,
                                            None => node.range,
                                        },
                                        kind + " defined here"@,
                                    ),
                                ],
                            ),
                        },
                    ),
                }
            },
        }
    }
}

/// Checks the label after the `end` of a structured block.
pub fn check(node: &SyntaxNode) -> (r: Option<Diagnostic>)
    requires
        is_block_kind(node.kind),
    ensures
        match asymmetric_ident_diag(*node) {
            Some(d) => r matches Some(x) && x@ == d,
            None => r is None,
        },
{
    let end = match node.child_of_kind(SyntaxKind::END_DELIM) {
        Some(e) => e,
        None => return None,
    };
    let close = match end.token_of_kind(SyntaxKind::IDENT) {
        Some(c) => c,
        None => return None,
    };
    let kind = display_block_kind(node);
    match node.token_of_kind(SyntaxKind::IDENT) {
        Some(open) => {
            if str_eq(open.text.as_str(), close.text.as_str()) {
                None
            } else {
                let mut message = String::from_str("mismatched ident whose enclosing `");
                message.append(kind);
                message.append("` is labeled as `");
                message.append(open.text.as_str());
                message.append("`");
                let mut note = String::from_str(kind);
                note.append(" `");
                note.append(open.text.as_str());
                note.append("` defined here");
                let mut related = Vec::new();
                related.push(RelatedInformation { range: open.range, message: note });
                let d = Diagnostic {
                    range: close.range,
                    severity: DiagnosticSeverity::Error,
                    code: String::from_str("asymmetric-ident"),
                    message,
                    tags: None,
                    data: None,
                    related_information: Some(related),
                };
                proof {
                    assert(related@.map_values(|x: RelatedInformation| x@) =~= seq![related@[0]@]);
                }
                Some(d)
            }
        },
        None => {
            let mut message = String::from_str("unexpected ident whose enclosing `");
            message.append(kind);
            message.append("` is not labeled");
            let range = match node.token_of_kind(SyntaxKind::KEYWORD) {
                Some(k) => k.range,
                None => node.range,
            };
            let mut note = String::from_str(kind);
            note.append(" defined here");
            let mut related = Vec::new();
            related.push(RelatedInformation { range, message: note });
            let d = Diagnostic {
                range: close.range,
                severity: DiagnosticSeverity::Error,
                code: String::from_str("asymmetric-ident"),
                message,
                tags: None,
                data: None,
                related_information: Some(related),
            };
            proof {
                assert(related@.map_values(|x: RelatedInformation| x@) =~= seq![related@[0]@]);
            }
            Some(d)
        },
    }
}

} // verus!
