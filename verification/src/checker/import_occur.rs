//! Imports that come after a definition of the module.

use super::{diag_views, plain_diag, Diagnostic, DiagnosticSeverity, DiagnosticView};
use crate::binder::SymbolKey;
use crate::syntax::{child_nodes, SyntaxKind, SyntaxNode, SyntaxNodePtr};
use vstd::prelude::*;

verus! {

/// Module fields that define an item, or import it in their own form.
pub open spec fn is_definition_field(kind: SyntaxKind) -> bool {
    kind == SyntaxKind::MODULE_FIELD_FUNC || kind == SyntaxKind::MODULE_FIELD_TABLE || kind
        == SyntaxKind::MODULE_FIELD_MEMORY || kind == SyntaxKind::MODULE_FIELD_GLOBAL || kind
        == SyntaxKind::MODULE_FIELD_TAG
}

/// The key of a node.
pub open spec fn key_of(node: SyntaxNode) -> SymbolKey {
    SymbolKey(SyntaxNodePtr { kind: node.kind, range: node.range })
}

/// Whether a field among the first `n` defines an item without importing it.
pub open spec fn defined_before(imports: Seq<SymbolKey>, fields: Seq<SyntaxNode>, n: int) -> bool
    decreases n,
{
    if n <= 0 {
        false
    } else {
        defined_before(imports, fields, n - 1) || (is_definition_field(fields[n - 1].kind) && !imports.contains(
            key_of(fields[n - 1]),
        ))
    }
}

/// A report for each `import` field among the first `n` fields that follows
/// a definition which imports nothing.
pub open spec fn late_imports(imports: Seq<SymbolKey>, fields: Seq<SyntaxNode>, n: int) -> Seq<DiagnosticView>
    decreases n,
{
    if n <= 0 {
        seq![]
    } else {
        late_imports(imports, fields, n - 1) + if fields[n - 1].kind == SyntaxKind::MODULE_FIELD_IMPORT
            && defined_before(imports, fields, n - 1) {
            seq![
                plain_diag(
                    fields[n - 1].range,
                    DiagnosticSeverity::Error,
                    "import-occurrence"@,
                    "import must occur before all non-import definitions"@,
                ),
            ]
        } else {
            seq![]
        }
    }
}

/// Whether a key is in a list.
pub fn contains_key(keys: &Vec<SymbolKey>, key: SymbolKey) -> (r: bool)
    ensures
        r == keys@.contains(key),
{
    let mut i: usize = 0;
    while i < keys.len()
        invariant
            i <= keys@.len(),
            forall|j: int| 0 <= j < i ==> keys@[j] != key,
        decreases keys@.len() - i,
    {
        if keys[i] == key {
            assert(keys@[i as int] == key);
            return true;
        }
        i = i + 1;
    }
    false
}

/// Checks that the imports of a module come before its definitions; the
/// `imports` list the fields that import what they define.
pub fn check(diagnostics: &mut Vec<Diagnostic>, imports: &Vec<SymbolKey>, module: &SyntaxNode)
    ensures
        diag_views(final(diagnostics)@) == diag_views(old(diagnostics)@) + late_imports(
            imports@,
            child_nodes(*module),
            child_nodes(*module).len() as int,
        ),
{
    let fields = module.nodes();
    let ghost all = fields@.map_values(|n: &SyntaxNode| *n);
    let mut has_non_import = false;
    let mut i: usize = 0;
    assert(diag_views(old(diagnostics)@) + seq![] =~= diag_views(old(diagnostics)@));
    while i < fields.len()
        invariant
            all == fields@.map_values(|n: &SyntaxNode| *n),
            all == child_nodes(*module),
            i <= fields@.len(),
            has_non_import == defined_before(imports@, all, i as int),
            diag_views(diagnostics@) == diag_views(old(diagnostics)@) + late_imports(imports@, all, i as int),
        decreases fields@.len() - i,
    {
        let ghost before = diag_views(diagnostics@);
        let field = fields[i];
        assert(all[i as int] == *field);
        let k = field.kind;
        if k == SyntaxKind::MODULE_FIELD_FUNC || k == SyntaxKind::MODULE_FIELD_TABLE || k
            == SyntaxKind::MODULE_FIELD_MEMORY || k == SyntaxKind::MODULE_FIELD_GLOBAL || k
            == SyntaxKind::MODULE_FIELD_TAG {
            if !contains_key(imports, SymbolKey(field.to_ptr())) {
                has_non_import = true;
            }
        } else if k == SyntaxKind::MODULE_FIELD_IMPORT && has_non_import {
            let d = Diagnostic::plain(
                field.range,
                DiagnosticSeverity::Error,
                "import-occurrence",
                String::from_str("import must occur before all non-import definitions"),
            );
            diagnostics.push(d);
            assert(diag_views(diagnostics@) =~= before.push(d@));
        } else {
            assert(diag_views(diagnostics@) =~= before);
        }
        assert(diag_views(diagnostics@) =~= diag_views(old(diagnostics)@) + late_imports(imports@, all, i + 1));
        i = i + 1;
    }
}

} // verus!
