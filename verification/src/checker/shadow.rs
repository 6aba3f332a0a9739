//! Block labels that a nested block declares again.

use super::{diag_views, lint_severity, lint_severity_spec, Diagnostic, DiagnosticSeverity, DiagnosticView, RelatedInformation};
use crate::binder::{Symbol, SymbolKind, SymbolTable};
use crate::config::LintLevel;
use crate::idx::{ident_texts, InternIdent};
use crate::syntax::TextRange;
use vstd::prelude::*;

verus! {

/// The text of an identifier; empty when the table has no such entry.
pub open spec fn name_text(name: InternIdent, idents: Seq<Seq<char>>) -> Seq<char> {
    if (name.0 as int) < idents.len() {
        idents[name.0 as int]
    } else {
        Seq::empty()
    }
}

/// Whether the symbol at `k` shadows the label at `i`: another block label
/// with the same name, declared by a block inside it.
pub open spec fn shadows(symbols: Seq<Symbol>, i: int, name: InternIdent, k: int) -> bool {
    let s = symbols[i];
    let o = symbols[k];
    &&& o.key != s.key
    &&& o.kind == SymbolKind::BlockDef
    &&& o.idx.name == Some(name)
    &&& s.key.0.range.start <= o.key.0.range.start
    &&& o.key.0.range.end <= s.key.0.range.end
}

/// Positions among the first `n` symbols that shadow the label at `i`, in order.
pub open spec fn shadowing_positions(symbols: Seq<Symbol>, i: int, name: InternIdent, n: int) -> Seq<int>
    decreases n,
{
    if n <= 0 {
        Seq::empty()
    } else {
        let rest = shadowing_positions(symbols, i, name, n - 1);
        if shadows(symbols, i, name, n - 1) {
            rest.push(n - 1)
        } else {
            rest
        }
    }
}

/// The report on the label at `i` when nested blocks shadow it: at its point
/// of interest, with the places of the shadowing labels.
pub open spec fn shadow_diag(
    severity: DiagnosticSeverity,
    symbols: Seq<Symbol>,
    i: int,
    idents: Seq<Seq<char>>,
    def_poi: Seq<TextRange>,
) -> Option<DiagnosticView> {
    let s = symbols[i];
    match s.idx.name {
        Some(name) => if s.kind == SymbolKind::BlockDef {
            let others = shadowing_positions(symbols, i, name, symbols.len() as int);
            if others.len() > 0 {
                let text = name_text(name, idents);
                Some(
                    DiagnosticView {
                        range: def_poi[i],
                        severity,
                        code: "shadow"@,
                        message: "`"@ + text + "` is shadowed"@,
                        tags: None,
                        data: None,
                        related_information: Some(
                            others.map_values(|k: int| (def_poi[k], "`"@ + text + "` shadowing occurs here"@)),
                        ),
                    },
                )
            } else {
                None
            }
        } else {
            None
        },
        None => None,
    }
}

/// The reports on the first `n` symbols, in order.
pub open spec fn shadow_diags(
    severity: DiagnosticSeverity,
    symbols: Seq<Symbol>,
    idents: Seq<Seq<char>>,
    def_poi: Seq<TextRange>,
    n: int,
) -> Seq<DiagnosticView>
    decreases n,
{
    if n <= 0 {
        Seq::empty()
    } else {
        let rest = shadow_diags(severity, symbols, idents, def_poi, n - 1);
        match shadow_diag(severity, symbols, n - 1, idents, def_poi) {
            Some(d) => rest.push(d),
            None => rest,
        }
    }
}

/// The reports of the lint at a level: nothing when it is allowed.
pub open spec fn shadow_report(
    level: LintLevel,
    table: SymbolTable,
    idents: Seq<Seq<char>>,
    def_poi: Seq<TextRange>,
) -> Seq<DiagnosticView> {
    match lint_severity_spec(level) {
        None => Seq::empty(),
        Some(severity) => shadow_diags(severity, table.symbols@, idents, def_poi, table.symbols@.len() as int),
    }
}

/// The text of an identifier; empty when the table has no such entry.
pub fn name_string(name: InternIdent, idents: &Vec<String>) -> (r: String)
    ensures
        r@ == name_text(name, ident_texts(idents@)),
{
    if (name.0 as usize) < idents.len() {
        idents[name.0 as usize].clone()
    } else {
        String::new()
    }
}

/// Reports each named block label that a block nested in it declares again,
/// at the label's point of interest `def_poi[i]`, in the order of the symbols.
pub fn check(
    diagnostics: &mut Vec<Diagnostic>,
    lint_level: LintLevel,
    symbol_table: &SymbolTable,
    idents: &Vec<String>,
    def_poi: &Vec<TextRange>,
)
    requires
        symbol_table.wf(),
        def_poi@.len() == symbol_table.symbols@.len(),
    ensures
        diag_views(final(diagnostics)@) == diag_views(old(diagnostics)@) + shadow_report(
            lint_level,
            *symbol_table,
            ident_texts(idents@),
            def_poi@,
        ),
{
    let ghost before = diag_views(diagnostics@);
    let severity = match lint_severity(lint_level) {
        Some(s) => s,
        None => {
            assert(before + Seq::<DiagnosticView>::empty() =~= before);
            return;
        },
    };
    let symbols = symbol_table.symbols.iter();
    let n = symbols.len();
    let ghost ids = ident_texts(idents@);
    let mut i: usize = 0;
    assert(before + Seq::<DiagnosticView>::empty() =~= before);
    while i < n
        invariant
            n == symbols@.len(),
            def_poi@.len() == n,
            i <= n,
            ids == ident_texts(idents@),
            diag_views(diagnostics@) == before + shadow_diags(severity, symbols@, ids, def_poi@, i as int),
        decreases n - i,
    {
        let s = &symbols[i];
        match s.idx.name {
            Some(name) => {
                if s.kind == SymbolKind::BlockDef {
                    let text = name_string(name, idents);
                    let mut related: Vec<RelatedInformation> = Vec::new();
                    let mut k: usize = 0;
                    while k < n
                        invariant
                            n == symbols@.len(),
                            def_poi@.len() == n,
                            i < n,
                            k <= n,
                            *s == symbols@[i as int],
                            s.idx.name == Some(name),
                            text@ == name_text(name, ids),
                            related@.map_values(|x: RelatedInformation| x@) == shadowing_positions(
                                symbols@,
                                i as int,
                                name,
                                k as int,
                            ).map_values(|j: int| (def_poi@[j], "`"@ + text@ + "` shadowing occurs here"@)),
                        decreases n - k,
                    {
                        let o = &symbols[k];
                        let ghost prev = related@;
                        if o.key != s.key && o.kind == SymbolKind::BlockDef && o.idx.name == Some(name)
                            && s.key.0.range.contains_range(&o.key.0.range) {
                            let mut note = String::from_str("`");
                            note.append(text.as_str());
                            note.append("` shadowing occurs here");
                            related.push(RelatedInformation { range: def_poi[k], message: note });
                            assert(related@.map_values(|x: RelatedInformation| x@) =~= prev.map_values(
                                |x: RelatedInformation| x@,
                            ).push((def_poi@[k as int], "`"@ + text@ + "` shadowing occurs here"@)));
                        }
                        k = k + 1;
                    }
                    if related.len() > 0 {
                        let mut message = String::from_str("`");
                        message.append(text.as_str());
                        message.append("` is shadowed");
                        let ghost prev = diagnostics@;
                        let d = Diagnostic {
                            range: def_poi[i],
                            severity,
                            code: String::from_str("shadow"),
                            message,
                            tags: None,
                            data: None,
                            related_information: Some(related),
                        };
                        proof {
                            let want = shadow_diag(severity, symbols@, i as int, ids, def_poi@);
                            assert(want == Some(d@));
                        }
                        diagnostics.push(d);
                        assert(diag_views(diagnostics@) =~= diag_views(prev).push(d@));
                    }
                }
            },
            None => {},
        }
        i = i + 1;
    }
}

} // verus!
