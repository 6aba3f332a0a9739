//! Mutation of immutable globals, arrays and fields, and `mut` that nothing
//! needs.
//!
//! Which definitions are mutable and which instructions set or get them
//! come from the mutability analysis, as arguments in its order.

use super::{diag_views, lint_severity, lint_severity_spec, Diagnostic, DiagnosticSeverity, DiagnosticTag, DiagnosticView, RelatedInformation};
use crate::binder::{index_of_key, Symbol, SymbolKey, SymbolKind, SymbolTable};
use crate::config::LintLevel;
use crate::idx::{ident_texts, render_idx};
use crate::syntax::TextRange;
use vstd::prelude::*;

verus! {

/// A definition that may be mutable: its key, the range of its `mut`
/// keyword if it has one, and whether it is shared with another module.
#[derive(Clone, Copy)]
pub struct Mutability {
    pub key: SymbolKey,
    pub mut_keyword: Option<TextRange>,
    pub cross_module: bool,
}

/// An instruction's access to a definition: the key of the reference,
/// whether it sets (or only gets), and the definition it targets, if known.
#[derive(Clone, Copy)]
pub struct MutationAction {
    pub key: SymbolKey,
    pub set: bool,
    pub target: Option<SymbolKey>,
}

/// The first mutability entry with the key among the first `n`.
pub open spec fn mutability_of(ms: Seq<Mutability>, key: SymbolKey, n: int) -> Option<Mutability>
    decreases n,
{
    if n <= 0 {
        None
    } else {
        match mutability_of(ms, key, n - 1) {
            Some(m) => Some(m),
            None => if ms[n - 1].key == key {
                Some(ms[n - 1])
            } else {
                None
            },
        }
    }
}

/// The symbol with a key.
pub open spec fn symbol_with(table: SymbolTable, key: SymbolKey) -> Option<Symbol> {
    match index_of_key(table.symbols@, key) {
        Some(i) => Some(table.symbols@[i]),
        None => None,
    }
}

/// The immutable definition a setting action targets, with the symbol of
/// its reference.
pub open spec fn immutable_target(table: SymbolTable, ms: Seq<Mutability>, a: MutationAction) -> Option<(SymbolKey, Symbol)> {
    if !a.set {
        None
    } else {
        match a.target {
            Some(t) => match mutability_of(ms, t, ms.len() as int) {
                Some(m) => if m.mut_keyword is None {
                    match symbol_with(table, a.key) {
                        Some(s) => Some((m.key, s)),
                        None => None,
                    }
                } else {
                    None
                },
                None => None,
            },
            None => None,
        }
    }
}

/// How the kind of a reference reads in these reports.
pub open spec fn ref_kind_text(kind: SymbolKind) -> Seq<char> {
    if kind == SymbolKind::GlobalRef {
        "global"@
    } else if kind == SymbolKind::TypeUse {
        "array"@
    } else {
        "field"@
    }
}

/// The actions that set an immutable definition reference a global, an
/// array type or a field.
pub open spec fn actions_ok(table: SymbolTable, ms: Seq<Mutability>, actions: Seq<MutationAction>) -> bool {
    forall|i: int|
        0 <= i < actions.len() ==> match #[trigger] immutable_target(table, ms, actions[i]) {
            Some((_, s)) => s.kind == SymbolKind::GlobalRef || s.kind == SymbolKind::TypeUse || s.kind
                == SymbolKind::FieldRef,
            None => true,
        }
}

/// The reports on the first `n` actions: each that sets an immutable
/// definition, with a note on where it is defined.
pub open spec fn mutated_immutable_diags(
    table: SymbolTable,
    idents: Seq<Seq<char>>,
    ms: Seq<Mutability>,
    actions: Seq<MutationAction>,
    n: int,
) -> Seq<DiagnosticView>
    decreases n,
{
    if n <= 0 {
        Seq::empty()
    } else {
        mutated_immutable_diags(table, idents, ms, actions, n - 1) + match immutable_target(table, ms, actions[n - 1]) {
            Some((def, s)) => {
                let kind = ref_kind_text(s.kind);
                seq![
                    DiagnosticView {
                        range: actions[n - 1].key.0.range,
                        severity: DiagnosticSeverity::Error,
                        code: "mutated-immutable"@,
                        message: "mutating the immutable "@ + kind + " `"@ + render_idx(s.idx, idents)
                            + "` is not allowed"@,
                        tags: None,
                        related_information: Some(seq![(def.0.range, "immutable "@ + kind + " defined here"@)]),
                        data: None,
                    },
                ]
            },
            None => Seq::empty(),
        }
    }
}

fn find_mutability(ms: &Vec<Mutability>, key: SymbolKey) -> (r: Option<Mutability>)
    ensures
        r == mutability_of(ms@, key, ms@.len() as int),
{
    let mut i: usize = 0;
    while i < ms.len()
        invariant
            i <= ms@.len(),
            mutability_of(ms@, key, i as int) is None,
        decreases ms@.len() - i,
    {
        if ms[i].key == key {
            proof {
                lemma_mutability_stable(ms@, key, i + 1, ms@.len() as int);
            }
            return Some(ms[i]);
        }
        i = i + 1;
    }
    None
}

proof fn lemma_mutability_stable(ms: Seq<Mutability>, key: SymbolKey, a: int, n: int)
    requires
        0 <= a <= n,
        mutability_of(ms, key, a) is Some,
    ensures
        mutability_of(ms, key, n) == mutability_of(ms, key, a),
    decreases n - a,
{
    if n > a {
        lemma_mutability_stable(ms, key, a, n - 1);
    }
}

fn kind_word<'a>(kind: SymbolKind, a: &'a str, b: &'a str, c: &'a str) -> (r: &'a str)
    ensures
        r@ == (if kind == SymbolKind::GlobalRef || kind == SymbolKind::GlobalDef {
            a@
        } else if kind == SymbolKind::TypeUse || kind == SymbolKind::Type {
            b@
        } else {
            c@
        }),
{
    match kind {
        SymbolKind::GlobalRef | SymbolKind::GlobalDef => a,
        SymbolKind::TypeUse | SymbolKind::Type => b,
        _ => c,
    }
}

/// Reports each action that sets an immutable definition: see
/// `mutated_immutable_diags`.
pub fn check_mutated_immutable(
    diagnostics: &mut Vec<Diagnostic>,
    table: &SymbolTable,
    idents: &Vec<String>,
    mutabilities: &Vec<Mutability>,
    actions: &Vec<MutationAction>,
)
    requires
        table.wf(),
        actions_ok(*table, mutabilities@, actions@),
    ensures
        diag_views(final(diagnostics)@) == diag_views(old(diagnostics)@) + mutated_immutable_diags(
            *table,
            ident_texts(idents@),
            mutabilities@,
            actions@,
            actions@.len() as int,
        ),
{
    let ghost ids = ident_texts(idents@);
    let mut i: usize = 0;
    while i < actions.len()
        invariant
            i <= actions@.len(),
            table.wf(),
            ids == ident_texts(idents@),
            actions_ok(*table, mutabilities@, actions@),
            diag_views(diagnostics@) == diag_views(old(diagnostics)@) + mutated_immutable_diags(
                *table,
                ids,
                mutabilities@,
                actions@,
                i as int,
            ),
        decreases actions@.len() - i,
    {
        let a = actions[i];
        let ghost before = diag_views(diagnostics@);
        let ghost expect = immutable_target(*table, mutabilities@, a);
        assert(expect == immutable_target(*table, mutabilities@, actions@[i as int]));
        let mut found: Option<(SymbolKey, &Symbol)> = None;
        if a.set {
            match a.target {
                Some(t) => match find_mutability(mutabilities, t) {
                    Some(m) => {
                        if m.mut_keyword.is_none() {
                            match table.symbols.get(a.key) {
                                Some(s) => {
                                    found = Some((m.key, s));
                                },
                                None => {},
                            }
                        }
                    },
                    None => {},
                },
                None => {},
            }
        }
        match found {
            Some((def, s)) => {
                assert(expect == Some((def, *s)));
                let kind = kind_word(s.kind, "global", "array", "field");
                assert(kind@ == ref_kind_text(s.kind));
                let mut message = String::from_str("mutating the immutable ");
                message.append(kind);
                message.append(" `");
                let name = s.idx.render(idents);
                message.append(name.as_str());
                message.append("` is not allowed");
                let mut note = String::from_str("immutable ");
                note.append(kind);
                note.append(" defined here");
                let related = vec![RelatedInformation { range: def.0.range, message: note }];
                assert(related@.map_values(|x: RelatedInformation| x@) =~= seq![
                    (def.0.range, "immutable "@ + ref_kind_text(s.kind) + " defined here"@),
                ]);
                let d = Diagnostic {
                    range: a.key.0.range,
                    severity: DiagnosticSeverity::Error,
                    code: String::from_str("mutated-immutable"),
                    message,
                    tags: None,
                    data: None,
                    related_information: Some(related),
                };
                diagnostics.push(d);
                assert(diag_views(diagnostics@) =~= before + seq![d@]);
            },
            None => {
                assert(expect is None);
                assert(diag_views(diagnostics@) =~= before + Seq::<DiagnosticView>::empty());
            },
        }
        assert(diag_views(diagnostics@) =~= diag_views(old(diagnostics)@) + mutated_immutable_diags(
            *table,
            ids,
            mutabilities@,
            actions@,
            i + 1,
        ));
        i = i + 1;
    }
}

/// Whether every action that targets a key only gets it.
pub open spec fn only_got(actions: Seq<MutationAction>, key: SymbolKey) -> bool {
    forall|i: int| 0 <= i < actions.len() && actions[i].target == Some(key) ==> !(#[trigger] actions[i]).set
}

/// How the kind of a definition reads in these reports.
pub open spec fn def_kind_text(kind: SymbolKind) -> Seq<char> {
    if kind == SymbolKind::GlobalDef {
        "global"@
    } else if kind == SymbolKind::Type {
        "array"@
    } else {
        "field"@
    }
}

/// The definition a mutability entry reports as needlessly mutable, with
/// the range of its keyword.
pub open spec fn needless_target(table: SymbolTable, actions: Seq<MutationAction>, m: Mutability) -> Option<(Symbol, TextRange)> {
    match m.mut_keyword {
        Some(kw) => if !m.cross_module && only_got(actions, m.key) {
            match symbol_with(table, m.key) {
                Some(s) => Some((s, kw)),
                None => None,
            }
        } else {
            None
        },
        None => None,
    }
}

/// The definitions reported as needlessly mutable are globals, array
/// types or fields.
pub open spec fn mutabilities_ok(table: SymbolTable, ms: Seq<Mutability>, actions: Seq<MutationAction>) -> bool {
    forall|i: int|
        0 <= i < ms.len() ==> match #[trigger] needless_target(table, actions, ms[i]) {
            Some((s, _)) => s.kind == SymbolKind::GlobalDef || s.kind == SymbolKind::Type || s.kind
                == SymbolKind::FieldDef,
            None => true,
        }
}

/// The reports on the first `n` mutability entries: each mutable
/// definition, not shared with another module, that nothing sets.
pub open spec fn needless_mut_diags(
    table: SymbolTable,
    idents: Seq<Seq<char>>,
    level: LintLevel,
    ms: Seq<Mutability>,
    actions: Seq<MutationAction>,
    n: int,
) -> Seq<DiagnosticView>
    decreases n,
{
    if n <= 0 {
        Seq::empty()
    } else {
        needless_mut_diags(table, idents, level, ms, actions, n - 1) + match (
            lint_severity_spec(level),
            needless_target(table, actions, ms[n - 1]),
        ) {
            (Some(severity), Some((s, kw))) => seq![
                DiagnosticView {
                    range: kw,
                    severity,
                    code: "needless-mut"@,
                    message: def_kind_text(s.kind) + " `"@ + render_idx(s.idx, idents) + "` is unnecessarily mutable"@,
                    tags: Some(seq![DiagnosticTag::Unnecessary]),
                    related_information: None,
                    data: None,
                },
            ],
            _ => Seq::empty(),
        }
    }
}

fn only_gets(actions: &Vec<MutationAction>, key: SymbolKey) -> (r: bool)
    ensures
        r == only_got(actions@, key),
{
    let mut i: usize = 0;
    while i < actions.len()
        invariant
            i <= actions@.len(),
            forall|k: int| 0 <= k < i && actions@[k].target == Some(key) ==> !(#[trigger] actions@[k]).set,
        decreases actions@.len() - i,
    {
        if actions[i].set && actions[i].target == Some(key) {
            return false;
        }
        i = i + 1;
    }
    true
}

/// Reports each mutable definition that nothing sets, at the level of the
/// lint: see `needless_mut_diags`.
pub fn check_needless_mut(
    diagnostics: &mut Vec<Diagnostic>,
    table: &SymbolTable,
    idents: &Vec<String>,
    level: LintLevel,
    mutabilities: &Vec<Mutability>,
    actions: &Vec<MutationAction>,
)
    requires
        table.wf(),
        mutabilities_ok(*table, mutabilities@, actions@),
    ensures
        diag_views(final(diagnostics)@) == diag_views(old(diagnostics)@) + needless_mut_diags(
            *table,
            ident_texts(idents@),
            level,
            mutabilities@,
            actions@,
            mutabilities@.len() as int,
        ),
{
    let ghost ids = ident_texts(idents@);
    let severity = lint_severity(level);
    let mut i: usize = 0;
    while i < mutabilities.len()
        invariant
            i <= mutabilities@.len(),
            table.wf(),
            ids == ident_texts(idents@),
            severity == lint_severity_spec(level),
            mutabilities_ok(*table, mutabilities@, actions@),
            diag_views(diagnostics@) == diag_views(old(diagnostics)@) + needless_mut_diags(
                *table,
                ids,
                level,
                mutabilities@,
                actions@,
                i as int,
            ),
        decreases mutabilities@.len() - i,
    {
        let m = mutabilities[i];
        let ghost before = diag_views(diagnostics@);
        let ghost expect = needless_target(*table, actions@, m);
        assert(expect == needless_target(*table, actions@, mutabilities@[i as int]));
        let mut found: Option<(&Symbol, TextRange)> = None;
        match m.mut_keyword {
            Some(kw) => {
                if !m.cross_module && only_gets(actions, m.key) {
                    match table.symbols.get(m.key) {
                        Some(s) => {
                            found = Some((s, kw));
                        },
                        None => {},
                    }
                }
            },
            None => {},
        }
        match (severity, found) {
            (Some(sev), Some((s, kw))) => {
                assert(expect == Some((*s, kw)));
                let kind = kind_word(s.kind, "global", "array", "field");
                assert(kind@ == def_kind_text(s.kind));
                let mut message = String::from_str(kind);
                message.append(" `");
                let name = s.idx.render(idents);
                message.append(name.as_str());
                message.append("` is unnecessarily mutable");
                let d = Diagnostic {
                    range: kw,
                    severity: sev,
                    code: String::from_str("needless-mut"),
                    message,
                    tags: Some(vec![DiagnosticTag::Unnecessary]),
                    data: None,
                    related_information: None,
                };
                diagnostics.push(d);
                assert(d@.tags == Some(seq![DiagnosticTag::Unnecessary]));
                assert(diag_views(diagnostics@) =~= before + seq![d@]);
            },
            _ => {
                assert(diag_views(diagnostics@) =~= before + Seq::<DiagnosticView>::empty());
            },
        }
        assert(diag_views(diagnostics@) =~= diag_views(old(diagnostics)@) + needless_mut_diags(
            *table,
            ids,
            level,
            mutabilities@,
            actions@,
            i + 1,
        ));
        i = i + 1;
    }
}

} // verus!
