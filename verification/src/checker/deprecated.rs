//! Uses of definitions marked deprecated.

use super::{diag_views, lint_severity, lint_severity_spec, Diagnostic, DiagnosticSeverity, DiagnosticTag, DiagnosticView};
use crate::binder::{symbol_kind_text, Symbol, SymbolKey, SymbolKind, SymbolTable};
use crate::deprecation::{deprecations, entry_views, get_deprecation};
use crate::idx::{ident_texts, render_idx};
use crate::config::LintLevel;
use crate::syntax::SyntaxNode;
use vstd::prelude::*;

verus! {

/// Kinds of references whose target may be deprecated.
pub open spec fn checked_reference(kind: SymbolKind) -> bool {
    match kind {
        SymbolKind::Call | SymbolKind::TypeUse | SymbolKind::GlobalRef | SymbolKind::MemoryRef
        | SymbolKind::TableRef | SymbolKind::TagRef | SymbolKind::DataRef => true,
        _ => false,
    }
}

fn is_checked_reference(kind: SymbolKind) -> (r: bool)
    ensures
        r == checked_reference(kind),
{
    match kind {
        SymbolKind::Call | SymbolKind::TypeUse | SymbolKind::GlobalRef | SymbolKind::MemoryRef
        | SymbolKind::TableRef | SymbolKind::TagRef | SymbolKind::DataRef => true,
        _ => false,
    }
}

/// The deprecation recorded for a key among the first `n` entries: the
/// last one with that key, as a map built from them in order keeps.
pub open spec fn deprecation_of(entries: Seq<(SymbolKey, Option<Seq<char>>)>, key: SymbolKey, n: int) -> Option<
    Option<Seq<char>>,
>
    decreases n,
{
    if n <= 0 {
        None
    } else if entries[n - 1].0 == key {
        Some(entries[n - 1].1)
    } else {
        deprecation_of(entries, key, n - 1)
    }
}

/// The message for a use of a deprecated definition.
pub open spec fn deprecated_message(kind: SymbolKind, name: Seq<char>, reason: Option<Seq<char>>) -> Seq<char> {
    let head = symbol_kind_text(kind) + " `"@ + name + "` is deprecated"@;
    match reason {
        Some(r) => head + ": "@ + r,
        None => head,
    }
}

/// The reports on the first `n` symbols: one for each reference of a
/// checked kind whose definition is deprecated, in symbol order.
pub open spec fn deprecated_diags(
    symbols: Seq<Symbol>,
    resolved: Seq<Option<u32>>,
    entries: Seq<(SymbolKey, Option<Seq<char>>)>,
    severity: DiagnosticSeverity,
    idents: Seq<Seq<char>>,
    n: int,
) -> Seq<DiagnosticView>
    decreases n,
{
    if n <= 0 {
        Seq::empty()
    } else {
        let rest = deprecated_diags(symbols, resolved, entries, severity, idents, n - 1);
        let s = symbols[n - 1];
        if checked_reference(s.kind) && resolved[n - 1] is Some {
            match deprecation_of(entries, symbols[resolved[n - 1].unwrap() as int].key, entries.len() as int) {
                Some(reason) => rest.push(
                    DiagnosticView {
                        range: s.key.0.range,
                        severity,
                        code: "deprecated"@,
                        message: deprecated_message(s.kind, render_idx(s.idx, idents), reason),
                        tags: Some(seq![DiagnosticTag::Deprecated]),
                        data: None,
                        related_information: None,
                    },
                ),
                None => rest,
            }
        } else {
            rest
        }
    }
}

/// What `check` reports: nothing when the lint is allowed.
pub open spec fn deprecated_report(
    t: SymbolTable,
    level: LintLevel,
    root: SyntaxNode,
    idents: Seq<Seq<char>>,
) -> Seq<DiagnosticView> {
    match lint_severity_spec(level) {
        Some(severity) => deprecated_diags(
            t.symbols@,
            t.resolved_view(),
            deprecations(root),
            severity,
            idents,
            t.symbols@.len() as int,
        ),
        None => Seq::empty(),
    }
}

fn find_deprecation<'a>(entries: &'a Vec<(SymbolKey, Option<String>)>, key: SymbolKey) -> (r: Option<&'a Option<String>>)
    ensures
        match deprecation_of(entry_views(entries@), key, entries@.len() as int) {
            Some(reason) => r matches Some(x) && match *x {
                Some(s) => reason == Some(s@),
                None => reason is None,
            },
            None => r is None,
        },
{
    let ghost views = entry_views(entries@);
    let mut i = entries.len();
    while i > 0
        invariant
            i <= entries@.len(),
            views == entry_views(entries@),
            deprecation_of(views, key, entries@.len() as int) == deprecation_of(views, key, i as int),
        decreases i,
    {
        assert(views[i - 1].0 == entries@[i - 1].0);
        if entries[i - 1].0 == key {
            return Some(&entries[i - 1].1);
        }
        i = i - 1;
    }
    None
}

/// Reports uses of deprecated definitions, at the severity of the lint
/// level; nothing when the lint is allowed.
///
/// `root` is the parse of the document and `idents` holds identifier texts.
pub fn check(
    diagnostics: &mut Vec<Diagnostic>,
    lint_level: LintLevel,
    symbol_table: &SymbolTable,
    root: &SyntaxNode,
    idents: &Vec<String>,
)
    requires
        symbol_table.wf(),
    ensures
        diag_views(final(diagnostics)@) == diag_views(old(diagnostics)@) + deprecated_report(
            *symbol_table,
            lint_level,
            *root,
            ident_texts(idents@),
        ),
{
    let severity = match lint_severity(lint_level) {
        Some(s) => s,
        None => {
            assert(diag_views(old(diagnostics)@) + Seq::<DiagnosticView>::empty() =~= diag_views(old(diagnostics)@));
            return;
        },
    };
    let entries = get_deprecation(root);
    let symbols = symbol_table.symbols.iter();
    let mut i: usize = 0;
    while i < symbols.len()
        invariant
            symbol_table.wf(),
            symbols@ == symbol_table.symbols@,
            entry_views(entries@) == deprecations(*root),
            i <= symbols@.len(),
            diag_views(diagnostics@) == diag_views(old(diagnostics)@) + deprecated_diags(
                symbol_table.symbols@,
                symbol_table.resolved_view(),
                deprecations(*root),
                severity,
                ident_texts(idents@),
                i as int,
            ),
        decreases symbols@.len() - i,
    {
        let s = &symbols[i];
        if is_checked_reference(s.kind) {
            match symbol_table.resolved[i] {
                Some(def_index) => {
                    let def_key = symbols[def_index as usize].key;
                    match find_deprecation(&entries, def_key) {
                        Some(reason) => {
                            let mut message = String::from_str(s.kind.text());
                            message.append(" `");
                            let name = s.idx.render(idents);
                            message.append(name.as_str());
                            message.append("` is deprecated");
                            match reason {
                                Some(r) => {
                                    message.append(": ");
                                    message.append(r.as_str());
                                },
                                None => {},
                            }
                            let ghost rv = match reason {
                                Some(r) => Some(r@),
                                None => None,
                            };
                            assert(message@ == deprecated_message(s.kind, render_idx(s.idx, ident_texts(idents@)), rv));
                            let mut tags = Vec::new();
                            tags.push(DiagnosticTag::Deprecated);
                            assert(tags@ =~= seq![DiagnosticTag::Deprecated]);
                            let d = Diagnostic {
                                range: s.key.0.range,
                                severity,
                                code: String::from_str("deprecated"),
                                message,
                                tags: Some(tags),
                                data: None,
                                related_information: None,
                            };
                            let ghost before = diagnostics@;
                            diagnostics.push(d);
                            proof {
                                assert(symbols@[def_index as int].key == def_key);
                                assert(diag_views(diagnostics@) =~= diag_views(before).push(d@));
                            }
                        },
                        None => {},
                    }
                },
                None => {},
            }
        }
        i = i + 1;
    }
}

} // verus!
