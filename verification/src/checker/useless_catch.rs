//! Catch clauses of a `try_table` that an earlier clause always takes first.

use super::{diag_views, lint_severity, lint_severity_spec, Diagnostic, DiagnosticSeverity, DiagnosticTag, DiagnosticView, RelatedInformation};
use crate::binder::{SymbolKey, SymbolTable};
use crate::config::LintLevel;
use crate::syntax::{child_nodes, child_nodes_of, SyntaxKind, SyntaxNode, SyntaxNodePtr, TextRange};
use vstd::prelude::*;

verus! {

/// The report on a clause at `reported` that the clause at `related` always
/// takes first.
pub open spec fn useless_diag(reported: TextRange, related: TextRange, severity: DiagnosticSeverity) -> DiagnosticView {
    DiagnosticView {
        range: reported,
        severity,
        code: "useless-catch"@,
        message: "this catch clause will never be matched"@,
        tags: Some(seq![DiagnosticTag::Unnecessary]),
        data: None,
        related_information: Some(seq![(related, "catch clause already matched here"@)]),
    }
}

/// The range stored for a key among the first `n` pairs (the first one).
pub open spec fn lookup(pairs: Seq<(SymbolKey, TextRange)>, key: SymbolKey, n: int) -> Option<TextRange>
    decreases n,
{
    if n <= 0 {
        None
    } else {
        match lookup(pairs, key, n - 1) {
            Some(r) => Some(r),
            None => if pairs[n - 1].0 == key {
                Some(pairs[n - 1].1)
            } else {
                None
            },
        }
    }
}

/// What the clauses seen so far leave: the range of the first `catch_all`,
/// and for each tag the range of the first `catch` on it.
pub struct CatchState {
    pub default: Option<TextRange>,
    pub seen: Seq<(SymbolKey, TextRange)>,
}

/// The tag that a `catch` clause names, through its first index.
pub open spec fn caught_tag(t: SymbolTable, clause: SyntaxNode) -> Option<SymbolKey> {
    let indices = child_nodes_of(clause, SyntaxKind::INDEX);
    if indices.len() == 0 {
        None
    } else {
        match t.def_of(SymbolKey(SyntaxNodePtr { kind: SyntaxKind::INDEX, range: indices[0].range })) {
            Some(def) => Some(def.key),
            None => None,
        }
    }
}

/// One clause: a `catch` of a tag already caught, or of any tag after a
/// `catch_all`, is reported against the earlier of the two clauses; a
/// `catch_all` after another is reported against the first.
pub open spec fn catch_step(t: SymbolTable, st: CatchState, clause: SyntaxNode, severity: DiagnosticSeverity) -> (
    CatchState,
    Seq<DiagnosticView>,
) {
    if clause.kind == SyntaxKind::CATCH {
        match caught_tag(t, clause) {
            None => (st, seq![]),
            Some(tag) => match (lookup(st.seen, tag, st.seen.len() as int), st.default) {
                (Some(c), Some(a)) => (
                    st,
                    seq![useless_diag(clause.range, if c.start < a.start { c } else { a }, severity)],
                ),
                (Some(c), None) => (st, seq![useless_diag(clause.range, c, severity)]),
                (None, Some(a)) => (st, seq![useless_diag(clause.range, a, severity)]),
                (None, None) => (CatchState { default: st.default, seen: st.seen.push((tag, clause.range)) }, seq![]),
            },
        }
    } else if clause.kind == SyntaxKind::CATCH_ALL {
        match st.default {
            Some(a) => (st, seq![useless_diag(clause.range, a, severity)]),
            None => (CatchState { default: Some(clause.range), seen: st.seen }, seq![]),
        }
    } else {
        (st, seq![])
    }
}

/// The clauses among the first `n` children taken in order.
pub open spec fn catch_fold(t: SymbolTable, clauses: Seq<SyntaxNode>, severity: DiagnosticSeverity, n: int) -> (
    CatchState,
    Seq<DiagnosticView>,
)
    decreases n,
{
    if n <= 0 {
        (CatchState { default: None, seen: seq![] }, seq![])
    } else {
        let (st, d) = catch_fold(t, clauses, severity, n - 1);
        let (st2, d2) = catch_step(t, st, clauses[n - 1], severity);
        (st2, d + d2)
    }
}

/// The reports on the catch clauses of a `try_table` node.
pub open spec fn useless_catch_diags(t: SymbolTable, level: LintLevel, node: SyntaxNode) -> Seq<DiagnosticView> {
    match lint_severity_spec(level) {
        Some(severity) => {
            let clauses = child_nodes(node);
            catch_fold(t, clauses, severity, clauses.len() as int).1
        },
        None => seq![],
    }
}

proof fn lemma_lookup_stable(pairs: Seq<(SymbolKey, TextRange)>, key: SymbolKey, a: int, n: int)
    requires
        0 <= a <= n,
        lookup(pairs, key, a) is Some,
    ensures
        lookup(pairs, key, n) == lookup(pairs, key, a),
    decreases n - a,
{
    if n > a {
        lemma_lookup_stable(pairs, key, a, n - 1);
    }
}

fn find_seen(seen: &Vec<(SymbolKey, TextRange)>, key: SymbolKey) -> (r: Option<TextRange>)
    ensures
        r == lookup(seen@, key, seen@.len() as int),
{
    let mut i: usize = 0;
    while i < seen.len()
        invariant
            i <= seen@.len(),
            lookup(seen@, key, i as int) is None,
        decreases seen@.len() - i,
    {
        if seen[i].0 == key {
            proof {
                lemma_lookup_stable(seen@, key, i + 1, seen@.len() as int);
            }
            return Some(seen[i].1);
        }
        i = i + 1;
    }
    None
}

fn useless(reported: TextRange, related: TextRange, severity: DiagnosticSeverity) -> (r: Diagnostic)
    ensures
        r@ == useless_diag(reported, related, severity),
{
    let mut related_information = Vec::new();
    related_information.push(
        RelatedInformation { range: related, message: String::from_str("catch clause already matched here") },
    );
    let mut tags = Vec::new();
    tags.push(DiagnosticTag::Unnecessary);
    let d = Diagnostic {
        range: reported,
        severity,
        code: String::from_str("useless-catch"),
        message: String::from_str("this catch clause will never be matched"),
        tags: Some(tags),
        data: None,
        related_information: Some(related_information),
    };
    assert(related_information@.map_values(|x: RelatedInformation| x@) =~= seq![(related, "catch clause already matched here"@)]);
    assert(tags@ =~= seq![DiagnosticTag::Unnecessary]);
    d
}

/// Checks the catch clauses of a `try_table` node for ones that are never
/// taken: see `useless_catch_diags`.
pub fn check(diagnostics: &mut Vec<Diagnostic>, lint_level: LintLevel, table: &SymbolTable, node: &SyntaxNode)
    requires
        table.wf(),
    ensures
        diag_views(final(diagnostics)@) == diag_views(old(diagnostics)@) + useless_catch_diags(
            *table,
            lint_level,
            *node,
        ),
{
    let severity = match lint_severity(lint_level) {
        Some(s) => s,
        None => {
            assert(diag_views(old(diagnostics)@) + seq![] =~= diag_views(old(diagnostics)@));
            return ;
        },
    };
    let clauses = node.nodes();
    let ghost all = clauses@.map_values(|n: &SyntaxNode| *n);
    let mut default: Option<TextRange> = None;
    let mut seen: Vec<(SymbolKey, TextRange)> = Vec::new();
    let mut i: usize = 0;
    assert(diag_views(old(diagnostics)@) + seq![] =~= diag_views(old(diagnostics)@));
    while i < clauses.len()
        invariant
            table.wf(),
            all == clauses@.map_values(|n: &SyntaxNode| *n),
            all == child_nodes(*node),
            i <= clauses@.len(),
            ({
                let (st, d) = catch_fold(*table, all, severity, i as int);
                &&& st.default == default
                &&& st.seen == seen@
                &&& diag_views(diagnostics@) == diag_views(old(diagnostics)@) + d
            }),
        decreases clauses@.len() - i,
    {
        let ghost before = diag_views(diagnostics@);
        let clause = clauses[i];
        assert(all[i as int] == *clause);
        if clause.kind == SyntaxKind::CATCH {
            let indices = clause.children_of_kind(SyntaxKind::INDEX);
            if indices.len() > 0 {
                assert(*indices@[0] == child_nodes_of(*clause, SyntaxKind::INDEX)[0]);
                let key = SymbolKey(SyntaxNodePtr { kind: SyntaxKind::INDEX, range: indices[0].range });
                match table.find_def(key) {
                    Some(def) => {
                        let tag = def.key;
                        match (find_seen(&seen, tag), default) {
                            (Some(c), Some(a)) => {
                                let related = if c.start < a.start {
                                    c
                                } else {
                                    a
                                };
                                diagnostics.push(useless(clause.range, related, severity));
                            },
                            (Some(c), None) => {
                                diagnostics.push(useless(clause.range, c, severity));
                            },
                            (None, Some(a)) => {
                                diagnostics.push(useless(clause.range, a, severity));
                            },
                            (None, None) => {
                                seen.push((tag, clause.range));
                            },
                        }
                    },
                    None => {},
                }
            }
        } else if clause.kind == SyntaxKind::CATCH_ALL {
            match default {
                Some(a) => {
                    diagnostics.push(useless(clause.range, a, severity));
                },
                None => {
                    default = Some(clause.range);
                },
            }
        }
        proof {
            let (st, d) = catch_fold(*table, all, severity, i as int);
            let (st2, d2) = catch_step(*table, st, all[i as int], severity);
            assert(diag_views(diagnostics@) =~= before + d2);
        }
        i = i + 1;
    }
}

} // verus!
