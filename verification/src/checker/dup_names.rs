//! Names declared twice in one scope, and names exported twice from one
//! module.

use super::shadow::{name_string, name_text};
use super::{diag_views, Diagnostic, DiagnosticSeverity, DiagnosticView, RelatedInformation};
use crate::binder::{idx_kind_of, idx_kind_text, IdxKind, Symbol, SymbolKey, SymbolKind, SymbolTable};
use crate::exports::{exports_views, get_exports, root_exports, Export};
use crate::idx::ident_texts;
use crate::text::str_eq;
use crate::syntax::{SyntaxNode, SyntaxNodePtr, TextRange};
use vstd::prelude::*;

verus! {

/// Kinds of definitions whose names must be unique in their scope.
pub open spec fn is_checked_def(kind: SymbolKind) -> bool {
    kind == SymbolKind::Func || kind == SymbolKind::Param || kind == SymbolKind::Local || kind == SymbolKind::Type
        || kind == SymbolKind::GlobalDef || kind == SymbolKind::MemoryDef || kind == SymbolKind::TableDef || kind
        == SymbolKind::FieldDef || kind == SymbolKind::TagDef
}

/// Whether two definitions share a name, a scope and an index space.
pub open spec fn same_name_group(a: Symbol, b: Symbol) -> bool {
    &&& is_checked_def(a.kind)
    &&& is_checked_def(b.kind)
    &&& a.idx.name is Some
    &&& a.idx.name == b.idx.name
    &&& a.region == b.region
    &&& idx_kind_of(a.kind) == idx_kind_of(b.kind)
}

/// Positions among the first `n` symbols in the group of the symbol at `i`,
/// in order; with `skip_self`, other than symbols with its key.
pub open spec fn group_positions(symbols: Seq<Symbol>, i: int, skip_self: bool, n: int) -> Seq<int>
    decreases n,
{
    if n <= 0 {
        Seq::empty()
    } else {
        let rest = group_positions(symbols, i, skip_self, n - 1);
        if same_name_group(symbols[i], symbols[n - 1]) && !(skip_self && symbols[n - 1].key == symbols[i].key) {
            rest.push(n - 1)
        } else {
            rest
        }
    }
}

/// The report on the symbol at `i` when another definition in its scope and
/// index space has its name, pointing at the others.
pub open spec fn dup_symbol_diag(
    symbols: Seq<Symbol>,
    i: int,
    idents: Seq<Seq<char>>,
    def_poi: Seq<TextRange>,
) -> Option<DiagnosticView> {
    let s = symbols[i];
    match s.idx.name {
        Some(name) => if is_checked_def(s.kind) && group_positions(symbols, i, false, symbols.len() as int).len()
            > 1 {
            let text = name_text(name, idents);
            Some(
                DiagnosticView {
                    range: def_poi[i],
                    severity: DiagnosticSeverity::Error,
                    code: "duplicated-names"@,
                    message: "duplicated "@ + idx_kind_text(idx_kind_of(s.kind)) + " name `"@ + text
                        + "` in this scope"@,
                    tags: None,
                    data: None,
                    related_information: Some(
                        group_positions(symbols, i, true, symbols.len() as int).map_values(
                            |k: int| (def_poi[k], "already defined here as `"@ + text + "`"@),
                        ),
                    ),
                },
            )
        } else {
            None
        },
        None => None,
    }
}

/// The reports on the first `n` symbols, in order.
pub open spec fn dup_symbol_diags(
    symbols: Seq<Symbol>,
    idents: Seq<Seq<char>>,
    def_poi: Seq<TextRange>,
    n: int,
) -> Seq<DiagnosticView>
    decreases n,
{
    if n <= 0 {
        Seq::empty()
    } else {
        let rest = dup_symbol_diags(symbols, idents, def_poi, n - 1);
        match dup_symbol_diag(symbols, n - 1, idents, def_poi) {
            Some(d) => rest.push(d),
            None => rest,
        }
    }
}

fn checked_def(kind: SymbolKind) -> (r: bool)
    ensures
        r == is_checked_def(kind),
{
    match kind {
        SymbolKind::Func | SymbolKind::Param | SymbolKind::Local | SymbolKind::Type | SymbolKind::GlobalDef
        | SymbolKind::MemoryDef | SymbolKind::TableDef | SymbolKind::FieldDef | SymbolKind::TagDef => true,
        _ => false,
    }
}

fn in_same_group(a: &Symbol, b: &Symbol) -> (r: bool)
    ensures
        r == same_name_group(*a, *b),
{
    checked_def(a.kind) && checked_def(b.kind) && a.idx.name.is_some() && a.idx.name == b.idx.name && a.region
        == b.region && IdxKind::from(a.kind) == IdxKind::from(b.kind)
}

/// Reports each definition whose name another definition of the same scope
/// and index space also declares, in the order of the symbols, at its point
/// of interest `def_poi[i]`.
pub fn check_symbols(
    diagnostics: &mut Vec<Diagnostic>,
    symbol_table: &SymbolTable,
    idents: &Vec<String>,
    def_poi: &Vec<TextRange>,
)
    requires
        symbol_table.wf(),
        def_poi@.len() == symbol_table.symbols@.len(),
    ensures
        diag_views(final(diagnostics)@) == diag_views(old(diagnostics)@) + dup_symbol_diags(
            symbol_table.symbols@,
            ident_texts(idents@),
            def_poi@,
            symbol_table.symbols@.len() as int,
        ),
{
    let ghost before = diag_views(diagnostics@);
    let symbols = symbol_table.symbols.iter();
    let n = symbols.len();
    let ghost ids = ident_texts(idents@);
    let mut i: usize = 0;
    assert(before + Seq::<DiagnosticView>::empty() =~= before);
    while i < n
        invariant
            n == symbols@.len(),
            def_poi@.len() == n,
            i <= n,
            ids == ident_texts(idents@),
            diag_views(diagnostics@) == before + dup_symbol_diags(symbols@, ids, def_poi@, i as int),
        decreases n - i,
    {
        let s = &symbols[i];
        match s.idx.name {
            Some(name) => {
                if checked_def(s.kind) {
                    let text = name_string(name, idents);
                    let mut related: Vec<RelatedInformation> = Vec::new();
                    let mut count: usize = 0;
                    let mut k: usize = 0;
                    while k < n
                        invariant
                            n == symbols@.len(),
                            def_poi@.len() == n,
                            i < n,
                            k <= n,
                            *s == symbols@[i as int],
                            s.idx.name == Some(name),
                            text@ == name_text(name, ids),
                            count as int == group_positions(symbols@, i as int, false, k as int).len(),
                            count <= k,
                            related@.map_values(|x: RelatedInformation| x@) == group_positions(
                                symbols@,
                                i as int,
                                true,
                                k as int,
                            ).map_values(|j: int| (def_poi@[j], "already defined here as `"@ + text@ + "`"@)),
                        decreases n - k,
                    {
                        let o = &symbols[k];
                        if in_same_group(s, o) {
                            count = count + 1;
                            if o.key != s.key {
                                let ghost prev = related@;
                                let mut note = String::from_str("already defined here as `");
                                note.append(text.as_str());
                                note.append("`");
                                related.push(RelatedInformation { range: def_poi[k], message: note });
                                assert(related@.map_values(|x: RelatedInformation| x@) =~= prev.map_values(
                                    |x: RelatedInformation| x@,
                                ).push((def_poi@[k as int], "already defined here as `"@ + text@ + "`"@)));
                            }
                        }
                        k = k + 1;
                    }
                    if count > 1 {
                        let mut message = String::from_str("duplicated ");
                        message.append(IdxKind::from(s.kind).text());
                        message.append(" name `");
                        message.append(text.as_str());
                        message.append("` in this scope");
                        let ghost prev = diagnostics@;
                        let d = Diagnostic {
                            range: def_poi[i],
                            severity: DiagnosticSeverity::Error,
                            code: String::from_str("duplicated-names"),
                            message,
                            tags: None,
                            data: None,
                            related_information: Some(related),
                        };
                        proof {
                            assert(dup_symbol_diag(symbols@, i as int, ids, def_poi@) == Some(d@));
                        }
                        diagnostics.push(d);
                        assert(diag_views(diagnostics@) =~= diag_views(prev).push(d@));
                    }
                }
            },
            None => {},
        }
        i = i + 1;
    }
}

/// Whether a name as written is enclosed in double quotes.
pub open spec fn is_quoted(name: Seq<char>) -> bool {
    name.len() >= 2 && name[0] == '"' && name[name.len() - 1] == '"'
}

/// A quoted name without its quotes.
pub open spec fn unquoted(name: Seq<char>) -> Seq<char> {
    name.subrange(1, name.len() - 1)
}

/// Whether every name that two exports share is quoted.
pub open spec fn shared_names_quoted(exports: Seq<(SymbolKey, Seq<char>, TextRange)>) -> bool {
    forall|j: int, k: int|
        #![trigger exports[j], exports[k]]
        0 <= j < exports.len() && 0 <= k < exports.len() && j != k && exports[j].1 == exports[k].1 ==> is_quoted(
            exports[j].1,
        )
}

/// Positions among the first `n` exports with the name of the export at `j`,
/// in order; with `skip_range`, other than those at its range.
pub open spec fn same_name_positions(
    exports: Seq<(SymbolKey, Seq<char>, TextRange)>,
    j: int,
    skip_range: bool,
    n: int,
) -> Seq<int>
    decreases n,
{
    if n <= 0 {
        Seq::empty()
    } else {
        let rest = same_name_positions(exports, j, skip_range, n - 1);
        if exports[n - 1].1 == exports[j].1 && !(skip_range && exports[n - 1].2 == exports[j].2) {
            rest.push(n - 1)
        } else {
            rest
        }
    }
}

/// The report on the export at `j` when another export of the module has
/// its name, pointing at the others.
pub open spec fn dup_export_diag(exports: Seq<(SymbolKey, Seq<char>, TextRange)>, j: int) -> Option<DiagnosticView> {
    if same_name_positions(exports, j, false, exports.len() as int).len() > 1 {
        let name = unquoted(exports[j].1);
        Some(
            DiagnosticView {
                range: exports[j].2,
                severity: DiagnosticSeverity::Error,
                code: "duplicated-names"@,
                message: "duplicated export `"@ + name + "` in this module"@,
                tags: None,
                data: None,
                related_information: Some(
                    same_name_positions(exports, j, true, exports.len() as int).map_values(
                        |k: int| (exports[k].2, "already exported here as `"@ + name + "`"@),
                    ),
                ),
            },
        )
    } else {
        None
    }
}

/// The reports on the first `n` exports of a module, in order.
pub open spec fn dup_export_diags(exports: Seq<(SymbolKey, Seq<char>, TextRange)>, n: int) -> Seq<DiagnosticView>
    decreases n,
{
    if n <= 0 {
        Seq::empty()
    } else {
        let rest = dup_export_diags(exports, n - 1);
        match dup_export_diag(exports, n - 1) {
            Some(d) => rest.push(d),
            None => rest,
        }
    }
}

proof fn lemma_positions_bounded(exports: Seq<(SymbolKey, Seq<char>, TextRange)>, j: int, n: int)
    requires
        0 <= n <= exports.len(),
    ensures
        forall|a: int|
            0 <= a < same_name_positions(exports, j, false, n).len() ==> 0 <= #[trigger] same_name_positions(
                exports,
                j,
                false,
                n,
            )[a] < n && exports[same_name_positions(exports, j, false, n)[a]].1 == exports[j].1,
        forall|a: int, b: int|
            0 <= a < b < same_name_positions(exports, j, false, n).len() ==> #[trigger] same_name_positions(
                exports,
                j,
                false,
                n,
            )[a] < #[trigger] same_name_positions(exports, j, false, n)[b],
    decreases n,
{
    if n > 0 {
        lemma_positions_bounded(exports, j, n - 1);
        let rest = same_name_positions(exports, j, false, n - 1);
        let all = same_name_positions(exports, j, false, n);
        if exports[n - 1].1 == exports[j].1 {
            assert(all == rest.push(n - 1));
            assert forall|a: int| 0 <= a < all.len() implies 0 <= #[trigger] all[a] < n && exports[all[a]].1
                == exports[j].1 by {
                if a < rest.len() {
                    assert(all[a] == rest[a]);
                }
            }
            assert forall|a: int, b: int| 0 <= a < b < all.len() implies #[trigger] all[a] < #[trigger] all[b] by {
                assert(all[a] == rest[a]);
                if b < rest.len() {
                    assert(all[b] == rest[b]);
                }
            }
        } else {
            assert(all == rest);
        }
    }
}

/// A name that another export shares is quoted.
proof fn lemma_shared_name_quoted(exports: Seq<(SymbolKey, Seq<char>, TextRange)>, j: int)
    requires
        0 <= j < exports.len(),
        shared_names_quoted(exports),
        same_name_positions(exports, j, false, exports.len() as int).len() > 1,
    ensures
        is_quoted(exports[j].1),
{
    let pos = same_name_positions(exports, j, false, exports.len() as int);
    lemma_positions_bounded(exports, j, exports.len() as int);
    let p0 = pos[0];
    let p1 = pos[1];
    assert(p0 < p1);
    let k = if p0 != j { p0 } else { p1 };
    assert(exports[k].1 == exports[j].1);
    assert(exports[j] == exports[j] && exports[k] == exports[k]);
}

fn check_module_exports(diagnostics: &mut Vec<Diagnostic>, exports: &Vec<Export>)
    requires
        shared_names_quoted(exports@.map_values(|x: Export| x@)),
    ensures
        diag_views(final(diagnostics)@) == diag_views(old(diagnostics)@) + dup_export_diags(
            exports@.map_values(|x: Export| x@),
            exports@.len() as int,
        ),
{
    let ghost before = diag_views(diagnostics@);
    let ghost ev = exports@.map_values(|x: Export| x@);
    let n = exports.len();
    let mut j: usize = 0;
    assert(before + Seq::<DiagnosticView>::empty() =~= before);
    while j < n
        invariant
            n == exports@.len(),
            ev == exports@.map_values(|x: Export| x@),
            shared_names_quoted(ev),
            j <= n,
            diag_views(diagnostics@) == before + dup_export_diags(ev, j as int),
        decreases n - j,
    {
        let e = &exports[j];
        assert(ev[j as int] == e@);
        let mut count: usize = 0;
        let mut k: usize = 0;
        while k < n
            invariant
                n == exports@.len(),
                ev == exports@.map_values(|x: Export| x@),
                j < n,
                k <= n,
                *e == exports@[j as int],
                count as int == same_name_positions(ev, j as int, false, k as int).len(),
                count <= k,
            decreases n - k,
        {
            assert(ev[k as int] == exports@[k as int]@);
            if str_eq(exports[k].name.as_str(), e.name.as_str()) {
                count = count + 1;
            }
            k = k + 1;
        }
        if count > 1 {
            proof {
                lemma_shared_name_quoted(ev, j as int);
            }
            let len = e.name.unicode_len();
            let name = e.name.as_str().substring_char(1, len - 1);
            let mut related: Vec<RelatedInformation> = Vec::new();
            let mut k: usize = 0;
            while k < n
                invariant
                    n == exports@.len(),
                    ev == exports@.map_values(|x: Export| x@),
                    j < n,
                    k <= n,
                    *e == exports@[j as int],
                    name@ == unquoted(ev[j as int].1),
                    related@.map_values(|x: RelatedInformation| x@) == same_name_positions(
                        ev,
                        j as int,
                        true,
                        k as int,
                    ).map_values(|p: int| (ev[p].2, "already exported here as `"@ + name@ + "`"@)),
                decreases n - k,
            {
                let o = &exports[k];
                assert(ev[k as int] == o@);
                if str_eq(o.name.as_str(), e.name.as_str()) && !(o.range == e.range) {
                    let ghost prev = related@;
                    let mut note = String::from_str("already exported here as `");
                    note.append(name);
                    note.append("`");
                    related.push(RelatedInformation { range: o.range, message: note });
                    assert(related@.map_values(|x: RelatedInformation| x@) =~= prev.map_values(
                        |x: RelatedInformation| x@,
                    ).push((ev[k as int].2, "already exported here as `"@ + name@ + "`"@)));
                }
                k = k + 1;
            }
            let mut message = String::from_str("duplicated export `");
            message.append(name);
            message.append("` in this module");
            let ghost prev = diagnostics@;
            let d = Diagnostic {
                range: e.range,
                severity: DiagnosticSeverity::Error,
                code: String::from_str("duplicated-names"),
                message,
                tags: None,
                data: None,
                related_information: Some(related),
            };
            proof {
                assert(dup_export_diag(ev, j as int) == Some(d@));
            }
            diagnostics.push(d);
            assert(diag_views(diagnostics@) =~= diag_views(prev).push(d@));
        }
        j = j + 1;
    }
}

/// The reports on the exports of the first `n` modules, module by module.
pub open spec fn dup_exports_all(
    modules: Seq<(SyntaxNodePtr, Seq<(SymbolKey, Seq<char>, TextRange)>)>,
    n: int,
) -> Seq<DiagnosticView>
    decreases n,
{
    if n <= 0 {
        Seq::empty()
    } else {
        dup_exports_all(modules, n - 1) + dup_export_diags(modules[n - 1].1, modules[n - 1].1.len() as int)
    }
}

/// The reports of both kinds on a document: duplicated definitions, then
/// duplicated exports.
pub open spec fn dup_names_report(
    table: SymbolTable,
    idents: Seq<Seq<char>>,
    root: SyntaxNode,
    def_poi: Seq<TextRange>,
) -> Seq<DiagnosticView> {
    let modules = root_exports(table, root, root.children@.len() as int);
    dup_symbol_diags(table.symbols@, idents, def_poi, table.symbols@.len() as int) + dup_exports_all(
        modules,
        modules.len() as int,
    )
}

/// Reports definitions that share a name with another in the same scope and
/// index space, at their points of interest `def_poi[i]`, and then exports
/// that share a name with another export of the same module.
pub fn check(
    diagnostics: &mut Vec<Diagnostic>,
    symbol_table: &SymbolTable,
    idents: &Vec<String>,
    root: &SyntaxNode,
    def_poi: &Vec<TextRange>,
)
    requires
        symbol_table.wf(),
        def_poi@.len() == symbol_table.symbols@.len(),
        forall|m: int|
            0 <= m < root_exports(*symbol_table, *root, root.children@.len() as int).len() ==> shared_names_quoted(
                #[trigger] root_exports(*symbol_table, *root, root.children@.len() as int)[m].1,
            ),
    ensures
        diag_views(final(diagnostics)@) == diag_views(old(diagnostics)@) + dup_names_report(
            *symbol_table,
            ident_texts(idents@),
            *root,
            def_poi@,
        ),
{
    let ghost before = diag_views(diagnostics@);
    check_symbols(diagnostics, symbol_table, idents, def_poi);
    let ghost mid = diag_views(diagnostics@);
    let ghost syms = dup_symbol_diags(
        symbol_table.symbols@,
        ident_texts(idents@),
        def_poi@,
        symbol_table.symbols@.len() as int,
    );
    let modules = get_exports(symbol_table, root);
    let ghost mv = root_exports(*symbol_table, *root, root.children@.len() as int);
    assert(exports_views(modules@) == mv);
    let mut m: usize = 0;
    assert(mid + Seq::<DiagnosticView>::empty() =~= mid);
    while m < modules.len()
        invariant
            m <= modules@.len(),
            exports_views(modules@) == mv,
            mid == before + syms,
            forall|x: int| 0 <= x < mv.len() ==> shared_names_quoted(#[trigger] mv[x].1),
            diag_views(diagnostics@) == mid + dup_exports_all(mv, m as int),
        decreases modules@.len() - m,
    {
        assert(mv[m as int] == (modules@[m as int].0, modules@[m as int].1@.map_values(|x: Export| x@)));
        assert(shared_names_quoted(mv[m as int].1));
        assert(mv[m as int].1 == modules@[m as int].1@.map_values(|x: Export| x@));
        check_module_exports(diagnostics, &modules[m].1);
        assert(diag_views(diagnostics@) =~= mid + dup_exports_all(mv, m + 1));
        m = m + 1;
    }
    assert(diag_views(diagnostics@) =~= before + (syms + dup_exports_all(mv, mv.len() as int)));
}

proof fn lemma_same_group_positions(symbols: Seq<Symbol>, i: int, k: int, n: int)
    requires
        0 <= i < symbols.len(),
        0 <= k < symbols.len(),
        0 <= n <= symbols.len(),
        same_name_group(symbols[i], symbols[k]),
    ensures
        group_positions(symbols, i, false, n) == group_positions(symbols, k, false, n),
    decreases n,
{
    if n > 0 {
        lemma_same_group_positions(symbols, i, k, n - 1);
    }
}

/// Duplicated definitions are reported together: when one definition is
/// reported, so is every other definition with its name in its scope and
/// index space.
pub proof fn law_duplicates_reported_together(
    symbols: Seq<Symbol>,
    idents: Seq<Seq<char>>,
    def_poi: Seq<TextRange>,
    i: int,
    k: int,
)
    requires
        0 <= i < symbols.len(),
        0 <= k < symbols.len(),
        dup_symbol_diag(symbols, i, idents, def_poi) is Some,
        same_name_group(symbols[i], symbols[k]),
    ensures
        dup_symbol_diag(symbols, k, idents, def_poi) is Some,
{
    lemma_same_group_positions(symbols, i, k, symbols.len() as int);
}

} // verus!
