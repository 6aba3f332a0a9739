//! Diagnostics and the checks that report them.

use crate::config::LintLevel;
use crate::syntax::{SyntaxNode, TextRange};
use vstd::prelude::*;

pub mod locals;
pub mod mem_arg;
pub mod mutation;
pub mod asymmetric_ident;
pub mod const_expr;
pub mod def_type;
pub mod deprecated;
pub mod dup_names;
pub mod global_expr;
pub mod import_occur;
pub mod import_with_def;
pub mod lane;
pub mod laws;
pub mod limits;
pub mod omitted_idx;
pub mod operand_amount;
pub mod order;
pub mod plain_instr;
pub mod shadow;
pub mod structure;
pub mod subtyping;
pub mod syntax;
pub mod type_misuse;
pub mod typeck;
pub mod undef;
pub mod unknown_instr;
pub mod uninit;
pub mod unreachable;
pub mod unused;
pub mod unread;
pub mod useless_catch;
pub mod walk;

verus! {

/// How serious a diagnostic is.
#[derive(Clone, Copy, Debug, PartialEq, Eq, Structural)]
pub enum DiagnosticSeverity {
    Error,
    Warning,
    Information,
    Hint,
}

/// Extra tags of a diagnostic.
#[derive(Clone, Copy, Debug, PartialEq, Eq, Structural)]
pub enum DiagnosticTag {
    Unnecessary,
    Deprecated,
}

/// A location related to a diagnostic, with a note.
pub struct RelatedInformation {
    pub range: TextRange,
    pub message: String,
}

impl View for RelatedInformation {
    type V = (TextRange, Seq<char>);

    open spec fn view(&self) -> (TextRange, Seq<char>) {
        (self.range, self.message@)
    }
}

/// What a diagnostic says, as plain values.
pub struct DiagnosticView {
    pub range: TextRange,
    pub severity: DiagnosticSeverity,
    pub code: Seq<char>,
    pub message: Seq<char>,
    pub tags: Option<Seq<DiagnosticTag>>,
    pub related_information: Option<Seq<(TextRange, Seq<char>)>>,
    pub data: Option<Seq<Seq<char>>>,
}

/// A problem found in a document.
pub struct Diagnostic {
    pub range: TextRange,
    pub severity: DiagnosticSeverity,
    pub code: String,
    pub message: String,
    pub tags: Option<Vec<DiagnosticTag>>,
    pub related_information: Option<Vec<RelatedInformation>>,
    /// The types left on the stack, for a client that offers a fix.
    pub data: Option<Vec<String>>,
}

impl View for Diagnostic {
    type V = DiagnosticView;

    open spec fn view(&self) -> DiagnosticView {
        DiagnosticView {
            range: self.range,
            severity: self.severity,
            code: self.code@,
            message: self.message@,
            tags: match self.tags {
                Some(t) => Some(t@),
                None => None,
            },
            related_information: match self.related_information {
                Some(r) => Some(r@.map_values(|x: RelatedInformation| x@)),
                None => None,
            },
            data: match self.data {
                Some(d) => Some(d@.map_values(|x: String| x@)),
                None => None,
            },
        }
    }
}

impl Diagnostic {
    /// A diagnostic with a range, a severity, a code and a message, and nothing else.
    pub fn plain(range: TextRange, severity: DiagnosticSeverity, code: &str, message: String) -> (r: Diagnostic)
        ensures
            r@ == plain_diag(range, severity, code@, message@),
    {
        Diagnostic {
            range,
            severity,
            code: String::from_str(code),
            message,
            tags: None,
            data: None,
            related_information: None,
        }
    }
}

/// The views of a list of diagnostics.
pub open spec fn diag_views(s: Seq<Diagnostic>) -> Seq<DiagnosticView> {
    s.map_values(|d: Diagnostic| d@)
}

/// A diagnostic with a range, a severity, a code and a message, and nothing else.
pub open spec fn plain_diag(
    range: TextRange,
    severity: DiagnosticSeverity,
    code: Seq<char>,
    message: Seq<char>,
) -> DiagnosticView {
    DiagnosticView { range, severity, code, message, tags: None, related_information: None, data: None }
}

impl Default for Diagnostic {
    fn default() -> (r: Diagnostic)
        ensures
            r.range == (TextRange { start: 0, end: 0 }),
            r.severity == DiagnosticSeverity::Error,
            r.code@ == Seq::<char>::empty(),
            r.message@ == Seq::<char>::empty(),
            r.tags is None,
            r.related_information is None,
    {
        Diagnostic {
            range: TextRange { start: 0, end: 0 },
            severity: DiagnosticSeverity::Error,
            code: String::new(),
            message: String::new(),
            tags: None,
            data: None,
            related_information: None,
        }
    }
}

/// The severity a lint reports with at a level; nothing when it is allowed.
pub open spec fn lint_severity_spec(level: LintLevel) -> Option<DiagnosticSeverity> {
    match level {
        LintLevel::Allow => None,
        LintLevel::Hint => Some(DiagnosticSeverity::Hint),
        LintLevel::Warn => Some(DiagnosticSeverity::Warning),
        LintLevel::Deny => Some(DiagnosticSeverity::Error),
    }
}

/// The severity a lint reports with at a level; nothing when it is allowed.
pub fn lint_severity(level: LintLevel) -> (r: Option<DiagnosticSeverity>)
    ensures
        r == lint_severity_spec(level),
{
    match level {
        LintLevel::Allow => None,
        LintLevel::Hint => Some(DiagnosticSeverity::Hint),
        LintLevel::Warn => Some(DiagnosticSeverity::Warning),
        LintLevel::Deny => Some(DiagnosticSeverity::Error),
    }
}

/// The elements of a sequence from position `n` on; none when it is shorter.
pub open spec fn after<T>(s: Seq<T>, n: int) -> Seq<T> {
    if n >= s.len() {
        Seq::empty()
    } else {
        s.subrange(n, s.len() as int)
    }
}

/// One diagnostic with the same severity, code and message at each node, in order.
pub open spec fn node_diags(
    nodes: Seq<SyntaxNode>,
    severity: DiagnosticSeverity,
    code: Seq<char>,
    message: Seq<char>,
) -> Seq<DiagnosticView> {
    nodes.map_values(|n: SyntaxNode| plain_diag(n.range, severity, code, message))
}

/// Appends a diagnostic at each node from position `from` on.
pub fn push_node_diags(
    diagnostics: &mut Vec<Diagnostic>,
    nodes: &Vec<&SyntaxNode>,
    from: usize,
    severity: DiagnosticSeverity,
    code: &str,
    message: &str,
)
    ensures
        diag_views(final(diagnostics)@) == diag_views(old(diagnostics)@) + node_diags(
            after(nodes@.map_values(|n: &SyntaxNode| *n), from as int),
            severity,
            code@,
            message@,
        ),
{
    let ghost all = nodes@.map_values(|n: &SyntaxNode| *n);
    let mut i = from;
    if i > nodes.len() {
        i = nodes.len();
        assert(diag_views(old(diagnostics)@) + node_diags(Seq::empty(), severity, code@, message@)
            =~= diag_views(old(diagnostics)@));
        return;
    }
    while i < nodes.len()
        invariant
            from <= i <= nodes@.len(),
            all == nodes@.map_values(|n: &SyntaxNode| *n),
            diag_views(diagnostics@) == diag_views(old(diagnostics)@) + node_diags(
                all.subrange(from as int, i as int),
                severity,
                code@,
                message@,
            ),
        decreases nodes@.len() - i,
    {
        let ghost before = diagnostics@;
        let d = Diagnostic {
            range: nodes[i].range,
            severity,
            code: String::from_str(code),
            message: String::from_str(message),
            tags: None,
            data: None,
            related_information: None,
        };
        diagnostics.push(d);
        proof {
            assert(diag_views(diagnostics@) =~= diag_views(before).push(d@));
            assert(all.subrange(from as int, i + 1) =~= all.subrange(from as int, i as int).push(all[i as int]));
            assert(node_diags(all.subrange(from as int, i + 1), severity, code@, message@) =~= node_diags(
                all.subrange(from as int, i as int),
                severity,
                code@,
                message@,
            ).push(d@));
        }
        i = i + 1;
    }
    assert(all.subrange(from as int, nodes@.len() as int) =~= after(all, from as int));
}

/// A lint set to `allow` reports nothing, whatever the document.
pub proof fn law_allowed_lint_is_silent(
    nodes: Seq<crate::cfa::FlowNode>,
    t: crate::binder::SymbolTable,
    local: crate::binder::Symbol,
    idents: Seq<Seq<char>>,
    root: SyntaxNode,
    node: SyntaxNode,
    imports: Seq<crate::binder::SymbolKey>,
    def_poi: Seq<crate::syntax::TextRange>,
)
    ensures
        unused::unused_report(LintLevel::Allow, t, imports, idents, root, def_poi) == Seq::<DiagnosticView>::empty(),
        shadow::shadow_report(LintLevel::Allow, t, idents, def_poi) == Seq::<DiagnosticView>::empty(),
        unread::unread_diags(nodes, t, LintLevel::Allow, local, idents) == Seq::<DiagnosticView>::empty(),
        unreachable::unreachable_diags(LintLevel::Allow, root, nodes) == Seq::<DiagnosticView>::empty(),
        useless_catch::useless_catch_diags(t, LintLevel::Allow, node) == Seq::<DiagnosticView>::empty(),
        omitted_idx::omitted_idx_diag(LintLevel::Allow, node) is None,
        structure::multi_memories_diags(LintLevel::Allow, root) == Seq::<DiagnosticView>::empty(),
        deprecated::deprecated_report(t, LintLevel::Allow, root, idents) == Seq::<DiagnosticView>::empty(),
        structure::multi_modules_diags(LintLevel::Allow, root) == Seq::<DiagnosticView>::empty(),
        structure::implicit_module_diag(LintLevel::Allow, node) is None,
        structure::needless_try_table_diag(LintLevel::Allow, node) is None,
{
}

/// Only locals whose type is known to have no default value are checked
/// for reads before initialization.
pub proof fn law_defaultable_local_is_silent(
    nodes: Seq<crate::cfa::FlowNode>,
    t: crate::binder::SymbolTable,
    local: crate::binder::Symbol,
    local_defaultable: Option<bool>,
    idents: Seq<Seq<char>>,
)
    requires
        local_defaultable != Some(false),
    ensures
        uninit::uninit_diags(nodes, t, local, local_defaultable, idents) == Seq::<DiagnosticView>::empty(),
{
}

} // verus!

