//! References that resolve to no definition.

use super::{diag_views, plain_diag, Diagnostic, DiagnosticSeverity, DiagnosticView};
use crate::binder::{symbol_kind_text, Symbol, SymbolKind, SymbolTable};
use crate::idx::{ident_texts, render_idx};
use vstd::prelude::*;

verus! {

/// Whether symbols of the kind refer to a definition elsewhere.
pub open spec fn is_reference(kind: SymbolKind) -> bool {
    match kind {
        SymbolKind::Call | SymbolKind::LocalRef | SymbolKind::TypeUse | SymbolKind::GlobalRef
        | SymbolKind::MemoryRef | SymbolKind::TableRef | SymbolKind::FieldRef
        | SymbolKind::BlockRef | SymbolKind::TagRef | SymbolKind::DataRef
        | SymbolKind::ElemRef => true,
        _ => false,
    }
}

/// Whether symbols of the kind refer to a definition elsewhere.
pub fn reference_kind(kind: SymbolKind) -> (r: bool)
    ensures
        r == is_reference(kind),
{
    match kind {
        SymbolKind::Call | SymbolKind::LocalRef | SymbolKind::TypeUse | SymbolKind::GlobalRef
        | SymbolKind::MemoryRef | SymbolKind::TableRef | SymbolKind::FieldRef
        | SymbolKind::BlockRef | SymbolKind::TagRef | SymbolKind::DataRef
        | SymbolKind::ElemRef => true,
        _ => false,
    }
}

/// The message for a reference that resolves to nothing.
pub open spec fn undef_message(kind: SymbolKind, name: Seq<char>) -> Seq<char> {
    "cannot find "@ + symbol_kind_text(kind) + " `"@ + name + "` in this scope"@
}

/// The reports on the first `n` symbols: one for each reference that
/// resolves to no definition, in symbol order.
pub open spec fn undef_diags(
    symbols: Seq<Symbol>,
    resolved: Seq<Option<u32>>,
    idents: Seq<Seq<char>>,
    n: int,
) -> Seq<DiagnosticView>
    decreases n,
{
    if n <= 0 {
        Seq::empty()
    } else {
        let rest = undef_diags(symbols, resolved, idents, n - 1);
        let s = symbols[n - 1];
        if is_reference(s.kind) && resolved[n - 1] is None {
            rest.push(
                plain_diag(
                    s.key.0.range,
                    DiagnosticSeverity::Error,
                    "undef"@,
                    undef_message(s.kind, render_idx(s.idx, idents)),
                ),
            )
        } else {
            rest
        }
    }
}

/// Reports each reference that resolves to no definition.
pub fn check(diagnostics: &mut Vec<Diagnostic>, symbol_table: &SymbolTable, idents: &Vec<String>)
    requires
        symbol_table.wf(),
    ensures
        diag_views(final(diagnostics)@) == diag_views(old(diagnostics)@) + undef_diags(
            symbol_table.symbols@,
            symbol_table.resolved_view(),
            ident_texts(idents@),
            symbol_table.symbols@.len() as int,
        ),
{
    let symbols = symbol_table.symbols.iter();
    let mut i: usize = 0;
    while i < symbols.len()
        invariant
            symbol_table.wf(),
            symbols@ == symbol_table.symbols@,
            i <= symbols@.len(),
            diag_views(diagnostics@) == diag_views(old(diagnostics)@) + undef_diags(
                symbol_table.symbols@,
                symbol_table.resolved_view(),
                ident_texts(idents@),
                i as int,
            ),
        decreases symbols@.len() - i,
    {
        let s = &symbols[i];
        if reference_kind(s.kind) && symbol_table.resolved[i].is_none() {
            let ghost before = diagnostics@;
            let mut message = String::from_str("cannot find ");
            message.append(s.kind.text());
            message.append(" `");
            let name = s.idx.render(idents);
            message.append(name.as_str());
            message.append("` in this scope");
            let d = Diagnostic {
                range: s.key.0.range,
                severity: DiagnosticSeverity::Error,
                code: String::from_str("undef"),
                message,
                tags: None,
                data: None,
                related_information: None,
            };
            diagnostics.push(d);
            proof {
                assert(diag_views(diagnostics@) =~= diag_views(before).push(d@));
            }
        }
        i = i + 1;
    }
}

} // verus!
