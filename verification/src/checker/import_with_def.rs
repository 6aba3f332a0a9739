//! Imported items that also carry a definition.

use super::import_occur::{contains_key, key_of};
use super::{Diagnostic, DiagnosticSeverity, DiagnosticView, RelatedInformation};
use crate::binder::SymbolKey;
use crate::syntax::{child_nodes, child_nodes_of, SyntaxKind, SyntaxNode, TextRange};
use vstd::prelude::*;

verus! {

/// Children that an imported item may hold: its export and import parts and
/// its type.
pub open spec fn is_declaration_part(kind: SyntaxKind) -> bool {
    kind == SyntaxKind::EXPORT || kind == SyntaxKind::IMPORT || kind == SyntaxKind::TYPE_USE || kind
        == SyntaxKind::GLOBAL_TYPE || kind == SyntaxKind::MEM_TYPE || kind == SyntaxKind::TABLE_TYPE
}

/// The first of the first `n` nodes that is not a declaration part.
pub open spec fn first_definition(nodes: Seq<SyntaxNode>, n: int) -> Option<SyntaxNode>
    decreases n,
{
    if n <= 0 {
        None
    } else {
        match first_definition(nodes, n - 1) {
            Some(d) => Some(d),
            None => if !is_declaration_part(nodes[n - 1].kind) {
                Some(nodes[n - 1])
            } else {
                None
            },
        }
    }
}

/// The smallest range covering two ranges.
pub open spec fn cover(a: TextRange, b: TextRange) -> TextRange {
    TextRange {
        start: if a.start <= b.start { a.start } else { b.start },
        end: if a.end >= b.end { a.end } else { b.end },
    }
}

/// The report on an imported item with a definition: from its first child
/// node that is no declaration part to its last child node, pointing at the
/// import.
pub open spec fn import_with_def_diag(imports: Seq<SymbolKey>, node: SyntaxNode) -> Option<DiagnosticView> {
    let nodes = child_nodes(node);
    if !imports.contains(key_of(node)) {
        None
    } else {
        match first_definition(nodes, nodes.len() as int) {
            Some(first) => {
                let last = nodes.last();
                let import_parts = child_nodes_of(node, SyntaxKind::IMPORT);
                Some(
                    DiagnosticView {
                        range: cover(first.range, last.range),
                        severity: DiagnosticSeverity::Error,
                        code: "import-with-def"@,
                        message: "imported item can't contain definition"@,
                        tags: None,
                        data: None,
                        related_information: if import_parts.len() > 0 {
                            Some(seq![(import_parts[0].range, "import declared here"@)])
                        } else {
                            None
                        },
                    },
                )
            },
            None => None,
        }
    }
}

proof fn lemma_first_definition(nodes: Seq<SyntaxNode>, a: int, n: int)
    requires
        0 <= a <= n,
        first_definition(nodes, a) is Some,
    ensures
        first_definition(nodes, n) == first_definition(nodes, a),
    decreases n - a,
{
    if n > a {
        lemma_first_definition(nodes, a, n - 1);
    }
}

fn find_first_definition(nodes: &Vec<&SyntaxNode>) -> (r: Option<usize>)
    ensures
        match first_definition(nodes@.map_values(|n: &SyntaxNode| *n), nodes@.len() as int) {
            Some(d) => r matches Some(i) && i < nodes@.len() && *nodes@[i as int] == d,
            None => r is None,
        },
{
    let ghost all = nodes@.map_values(|n: &SyntaxNode| *n);
    let mut i: usize = 0;
    while i < nodes.len()
        invariant
            all == nodes@.map_values(|n: &SyntaxNode| *n),
            i <= nodes@.len(),
            first_definition(all, i as int) is None,
        decreases nodes@.len() - i,
    {
        let k = nodes[i].kind;
        assert(all[i as int] == *nodes@[i as int]);
        if !(k == SyntaxKind::EXPORT || k == SyntaxKind::IMPORT || k == SyntaxKind::TYPE_USE || k
            == SyntaxKind::GLOBAL_TYPE || k == SyntaxKind::MEM_TYPE || k == SyntaxKind::TABLE_TYPE) {
            proof {
                lemma_first_definition(all, i + 1, all.len() as int);
            }
            return Some(i);
        }
        i = i + 1;
    }
    None
}

/// Checks that an imported item carries no definition; the `imports` list
/// the fields that import what they define.
pub fn check(imports: &Vec<SymbolKey>, node: &SyntaxNode) -> (r: Option<Diagnostic>)
    ensures
        match import_with_def_diag(imports@, *node) {
            Some(d) => r matches Some(x) && x@ == d,
            None => r is None,
        },
{
    if !contains_key(imports, SymbolKey(node.to_ptr())) {
        return None;
    }
    let nodes = node.nodes();
    let ghost all = nodes@.map_values(|n: &SyntaxNode| *n);
    let first = match find_first_definition(&nodes) {
        Some(i) => nodes[i],
        None => return None,
    };
    let last = nodes[nodes.len() - 1];
    assert(all.last() == *last);
    let related = match node.child_of_kind(SyntaxKind::IMPORT) {
        Some(import) => {
            let mut v = Vec::new();
            v.push(RelatedInformation { range: import.range, message: String::from_str("import declared here") });
            assert(v@.map_values(|x: RelatedInformation| x@) =~= seq![(import.range, "import declared here"@)]);
            Some(v)
        },
        None => None,
    };
    Some(
        Diagnostic {
            range: first.range.cover(&last.range),
            severity: DiagnosticSeverity::Error,
            code: String::from_str("import-with-def"),
            message: String::from_str("imported item can't contain definition"),
            tags: None,
            data: None,
            related_information: related,
        },
    )
}

} // verus!
