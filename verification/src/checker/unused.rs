//! Definitions and parameters that nothing refers to.

use super::import_occur::contains_key;
use super::{diag_views, lint_severity, lint_severity_spec, Diagnostic, DiagnosticSeverity, DiagnosticTag, DiagnosticView};
use crate::binder::{listed_positions, symbol_kind_text, Symbol, SymbolKey, SymbolKind, SymbolTable};
use crate::config::LintLevel;
use crate::idx::{ident_texts, render_idx, Idx};
use crate::syntax::{child_nodes_of, locate, locate_node, SyntaxElement, SyntaxKind, SyntaxNode, TextRange};
use vstd::prelude::*;

verus! {

/// Whether one of the first `k` resolutions names the symbol at `i`.
pub open spec fn used_upto(resolved: Seq<Option<u32>>, i: int, k: int) -> bool
    decreases k,
{
    if k <= 0 {
        false
    } else {
        (resolved[k - 1] matches Some(d) && d as int == i) || used_upto(resolved, i, k - 1)
    }
}

/// Whether some use resolves to the symbol at `i`.
pub open spec fn is_used(resolved: Seq<Option<u32>>, i: int) -> bool {
    used_upto(resolved, i, resolved.len() as int)
}

/// Whether the node of a symbol, found from the root, has an inline export.
pub open spec fn has_export(root: SyntaxNode, key: SymbolKey) -> bool {
    match locate(root, key.0) {
        Some((parent, i)) => match parent.children@[i] {
            SyntaxElement::Node(c) => child_nodes_of(c, SyntaxKind::EXPORT).len() > 0,
            SyntaxElement::Token(_) => false,
        },
        None => false,
    }
}

/// Whether an index carries an identifier that starts with `$_`.
pub open spec fn is_prefixed_with_underscore(idx: Idx, idents: Seq<Seq<char>>) -> bool {
    match idx.name {
        Some(name) => (name.0 as int) < idents.len() && idents[name.0 as int].len() >= 2
            && idents[name.0 as int][0] == '$' && idents[name.0 as int][1] == '_',
        None => false,
    }
}

/// Kinds of definitions that are reported when nothing uses them.
pub open spec fn is_reported_def(kind: SymbolKind) -> bool {
    kind == SymbolKind::Func || kind == SymbolKind::Local || kind == SymbolKind::Type || kind
        == SymbolKind::GlobalDef || kind == SymbolKind::MemoryDef || kind == SymbolKind::TableDef || kind
        == SymbolKind::FieldDef || kind == SymbolKind::TagDef || kind == SymbolKind::DataDef || kind
        == SymbolKind::ElemDef
}

/// Whether the symbol at `i` is reported: a definition that is not used,
/// not exported and not named with `$_`; or a parameter that is not used,
/// not named with `$_`, not of an imported function and not of a type
/// definition.
pub open spec fn is_unused(
    symbols: Seq<Symbol>,
    resolved: Seq<Option<u32>>,
    i: int,
    imports: Seq<SymbolKey>,
    idents: Seq<Seq<char>>,
    root: SyntaxNode,
) -> bool {
    let s = symbols[i];
    if is_reported_def(s.kind) {
        !is_used(resolved, i) && !has_export(root, s.key) && !is_prefixed_with_underscore(s.idx, idents)
    } else if s.kind == SymbolKind::Param {
        !is_used(resolved, i) && !is_prefixed_with_underscore(s.idx, idents) && !imports.contains(s.region)
            && s.region.0.kind != SyntaxKind::TYPE_DEF
    } else {
        false
    }
}

/// The report on an unused symbol, at its point of interest.
pub open spec fn unused_diag(range: TextRange, severity: DiagnosticSeverity, s: Symbol, idents: Seq<Seq<char>>) -> DiagnosticView {
    DiagnosticView {
        range,
        severity,
        code: "unused"@,
        message: symbol_kind_text(s.kind) + " `"@ + render_idx(s.idx, idents) + "` is never used"@,
        tags: Some(seq![DiagnosticTag::Unnecessary]),
        data: None,
        related_information: None,
    }
}

/// The reports on the first `n` symbols, in order.
pub open spec fn unused_diags(
    severity: DiagnosticSeverity,
    symbols: Seq<Symbol>,
    resolved: Seq<Option<u32>>,
    imports: Seq<SymbolKey>,
    idents: Seq<Seq<char>>,
    root: SyntaxNode,
    def_poi: Seq<TextRange>,
    n: int,
) -> Seq<DiagnosticView>
    decreases n,
{
    if n <= 0 {
        Seq::empty()
    } else {
        let rest = unused_diags(severity, symbols, resolved, imports, idents, root, def_poi, n - 1);
        if is_unused(symbols, resolved, n - 1, imports, idents, root) {
            rest.push(unused_diag(def_poi[n - 1], severity, symbols[n - 1], idents))
        } else {
            rest
        }
    }
}

/// The reports of the lint at a level: nothing when it is allowed.
pub open spec fn unused_report(
    level: LintLevel,
    table: SymbolTable,
    imports: Seq<SymbolKey>,
    idents: Seq<Seq<char>>,
    root: SyntaxNode,
    def_poi: Seq<TextRange>,
) -> Seq<DiagnosticView> {
    match lint_severity_spec(level) {
        None => Seq::empty(),
        Some(severity) => unused_diags(
            severity,
            table.symbols@,
            table.resolved_view(),
            imports,
            idents,
            root,
            def_poi,
            table.symbols@.len() as int,
        ),
    }
}

proof fn lemma_used_upto_after(resolved: Seq<Option<u32>>, i: int, k: int)
    requires
        0 <= k < resolved.len(),
    ensures
        used_upto(resolved, i, k + 1) == ((resolved[k] matches Some(d) && d as int == i) || used_upto(resolved, i, k)),
{
}

/// For each symbol position below `n`, whether some use resolves to it.
fn used_flags(resolved: &Vec<Option<u32>>, n: usize) -> (r: Vec<bool>)
    requires
        forall|j: int| 0 <= j < resolved@.len() ==> (#[trigger] resolved@[j] matches Some(d) ==> (d as int) < n),
    ensures
        r@.len() == n,
        forall|i: int| 0 <= i < n ==> r@[i] == is_used(resolved@, i),
{
    let mut used: Vec<bool> = Vec::new();
    let mut i: usize = 0;
    while i < n
        invariant
            i <= n,
            used@.len() == i,
            forall|x: int| 0 <= x < i ==> !used@[x],
        decreases n - i,
    {
        used.push(false);
        i = i + 1;
    }
    let mut k: usize = 0;
    while k < resolved.len()
        invariant
            k <= resolved@.len(),
            used@.len() == n,
            forall|j: int| 0 <= j < resolved@.len() ==> (#[trigger] resolved@[j] matches Some(d) ==> (d as int) < n),
            forall|x: int| 0 <= x < n ==> used@[x] == used_upto(resolved@, x, k as int),
        decreases resolved@.len() - k,
    {
        let ghost prev = used@;
        if let Some(d) = resolved[k] {
            assert(resolved@[k as int] matches Some(e) && (e as int) < n);
            used.set(d as usize, true);
        }
        proof {
            assert forall|x: int| 0 <= x < n implies used@[x] == used_upto(resolved@, x, k + 1) by {
                lemma_used_upto_after(resolved@, x, k as int);
                if resolved@[k as int] matches Some(d) && d as int == x {
                    assert(used@[x]);
                } else {
                    assert(used@[x] == prev[x]);
                }
            }
        }
        k = k + 1;
    }
    used
}

/// Whether the node of a symbol, found from the root, has an inline export.
pub fn node_has_export(root: &SyntaxNode, key: SymbolKey) -> (r: bool)
    ensures
        r == has_export(*root, key),
{
    match locate_node(root, key.0) {
        Some((parent, i)) => match &parent.children[i] {
            SyntaxElement::Node(c) => c.child_of_kind(SyntaxKind::EXPORT).is_some(),
            SyntaxElement::Token(_) => false,
        },
        None => false,
    }
}

/// Whether an index carries an identifier that starts with `$_`.
pub fn prefixed_with_underscore(idx: Idx, idents: &Vec<String>) -> (r: bool)
    ensures
        r == is_prefixed_with_underscore(idx, ident_texts(idents@)),
{
    match idx.name {
        Some(name) => {
            if (name.0 as usize) < idents.len() {
                let text = idents[name.0 as usize].as_str();
                text.unicode_len() >= 2 && text.get_char(0) == '$' && text.get_char(1) == '_'
            } else {
                false
            }
        },
        None => false,
    }
}

/// Reports the definitions and parameters that nothing uses, in the order of
/// the symbols, each at its point of interest `def_poi[i]`.
pub fn check(
    diagnostics: &mut Vec<Diagnostic>,
    lint_level: LintLevel,
    symbol_table: &SymbolTable,
    imports: &Vec<SymbolKey>,
    idents: &Vec<String>,
    root: &SyntaxNode,
    def_poi: &Vec<TextRange>,
)
    requires
        symbol_table.wf(),
        def_poi@.len() == symbol_table.symbols@.len(),
    ensures
        diag_views(final(diagnostics)@) == diag_views(old(diagnostics)@) + unused_report(
            lint_level,
            *symbol_table,
            imports@,
            ident_texts(idents@),
            *root,
            def_poi@,
        ),
{
    let ghost before = diag_views(diagnostics@);
    let severity = match lint_severity(lint_level) {
        Some(s) => s,
        None => {
            assert(before + Seq::<DiagnosticView>::empty() =~= before);
            return;
        },
    };
    let symbols = symbol_table.symbols.iter();
    let n = symbols.len();
    let used = used_flags(&symbol_table.resolved, n);
    let ghost ids = ident_texts(idents@);
    let mut i: usize = 0;
    assert(before + Seq::<DiagnosticView>::empty() =~= before);
    while i < n
        invariant
            symbol_table.wf(),
            symbols@ == symbol_table.symbols@,
            n == symbols@.len(),
            def_poi@.len() == n,
            used@.len() == n,
            forall|x: int| 0 <= x < n ==> used@[x] == is_used(symbol_table.resolved_view(), x),
            i <= n,
            ids == ident_texts(idents@),
            diag_views(diagnostics@) == before + unused_diags(
                severity,
                symbols@,
                symbol_table.resolved_view(),
                imports@,
                ids,
                *root,
                def_poi@,
                i as int,
            ),
        decreases n - i,
    {
        let s = &symbols[i];
        let unused = if s.kind == SymbolKind::Func || s.kind == SymbolKind::Local || s.kind == SymbolKind::Type
            || s.kind == SymbolKind::GlobalDef || s.kind == SymbolKind::MemoryDef || s.kind == SymbolKind::TableDef
            || s.kind == SymbolKind::FieldDef || s.kind == SymbolKind::TagDef || s.kind == SymbolKind::DataDef
            || s.kind == SymbolKind::ElemDef {
            !used[i] && !node_has_export(root, s.key) && !prefixed_with_underscore(s.idx, idents)
        } else if s.kind == SymbolKind::Param {
            !used[i] && !prefixed_with_underscore(s.idx, idents) && !contains_key(imports, s.region)
                && s.region.0.kind != SyntaxKind::TYPE_DEF
        } else {
            false
        };
        assert(unused == is_unused(symbols@, symbol_table.resolved_view(), i as int, imports@, ids, *root));
        if unused {
            let mut message = String::from_str(s.kind.text());
            message.append(" `");
            let name = s.idx.render(idents);
            message.append(name.as_str());
            message.append("` is never used");
            let ghost prev = diagnostics@;
            diagnostics.push(
                Diagnostic {
                    range: def_poi[i],
                    severity,
                    code: String::from_str("unused"),
                    message,
                    tags: Some(vec![DiagnosticTag::Unnecessary]),
                    data: None,
                    related_information: None,
                },
            );
            proof {
                let d = unused_diag(def_poi@[i as int], severity, symbols@[i as int], ids);
                assert(diagnostics@[diagnostics@.len() - 1]@.tags == Some(seq![DiagnosticTag::Unnecessary]));
                assert(diagnostics@[diagnostics@.len() - 1]@ == d);
                assert(diag_views(diagnostics@) =~= diag_views(prev).push(d));
            }
        }
        i = i + 1;
    }
}

proof fn lemma_unused_not_listed(resolved: Seq<Option<u32>>, def: u32, n: int)
    requires
        0 <= n <= resolved.len(),
        !used_upto(resolved, def as int, n),
    ensures
        listed_positions(resolved, def, false, n).len() == 0,
    decreases n,
{
    if n > 0 {
        lemma_unused_not_listed(resolved, def, n - 1);
    }
}

/// A symbol reported as unused has no references: looking up the
/// references of its definition, without the declaration itself, finds
/// nothing.
pub proof fn law_unused_has_no_references(
    table: SymbolTable,
    imports: Seq<SymbolKey>,
    idents: Seq<Seq<char>>,
    root: SyntaxNode,
    i: int,
)
    requires
        table.wf(),
        0 <= i < table.symbols@.len(),
        i <= u32::MAX,
        is_unused(table.symbols@, table.resolved_view(), i, imports, idents, root),
    ensures
        listed_positions(table.resolved_view(), i as u32, false, table.resolved_view().len() as int).len() == 0,
{
    lemma_unused_not_listed(table.resolved_view(), i as u32, table.resolved_view().len() as int);
}

} // verus!
