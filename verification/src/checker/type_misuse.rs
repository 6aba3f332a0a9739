//! Instructions used with a type definition of the wrong kind, and the type
//! agreements their operands need.
//!
//! The composite kind of each type definition, and whether two types match,
//! are decided by the type analysis; the functions here take those answers
//! as arguments.

use super::mem_arg::{find_char, first_of, lemma_first_of_range};
use super::{diag_views, Diagnostic, DiagnosticSeverity, DiagnosticView, RelatedInformation};
use crate::binder::{Symbol, SymbolKey, SymbolTable};
use crate::idx::{ident_texts, render_idx};
use crate::binder::index_of_key;
use crate::syntax::{
    child_nodes_of, child_token_of, locate, locate_node, node_text, push_node_text, SyntaxElement, SyntaxKind, SyntaxNode,
    SyntaxNodePtr, TextRange,
};
use crate::text::str_eq;
use vstd::prelude::*;

verus! {

/// The kinds of composite types.
#[derive(Clone, Copy, Debug, PartialEq, Eq, Structural)]
pub enum CompositeKind {
    Func,
    Struct,
    Array,
    Cont,
}

/// How a composite kind reads in messages.
pub open spec fn composite_text(k: CompositeKind) -> Seq<char> {
    match k {
        CompositeKind::Func => "func"@,
        CompositeKind::Struct => "struct"@,
        CompositeKind::Array => "array"@,
        CompositeKind::Cont => "cont"@,
    }
}

impl CompositeKind {
    /// How this kind reads in messages.
    pub fn text(&self) -> (r: &'static str)
        ensures
            r@ == composite_text(*self),
    {
        match self {
            CompositeKind::Func => "func",
            CompositeKind::Struct => "struct",
            CompositeKind::Array => "array",
            CompositeKind::Cont => "cont",
        }
    }
}

/// The composite kind recorded for a type definition: the first entry with its key.
pub open spec fn kind_of_def(def_kinds: Seq<(SymbolKey, CompositeKind)>, key: SymbolKey, n: int) -> Option<CompositeKind>
    decreases n,
{
    if n <= 0 {
        None
    } else {
        match kind_of_def(def_kinds, key, n - 1) {
            Some(k) => Some(k),
            None => if def_kinds[n - 1].0 == key {
                Some(def_kinds[n - 1].1)
            } else {
                None
            },
        }
    }
}

/// The composite kind of a type definition.
pub open spec fn def_kind(def_kinds: Seq<(SymbolKey, CompositeKind)>, key: SymbolKey) -> Option<CompositeKind> {
    kind_of_def(def_kinds, key, def_kinds.len() as int)
}

/// The key of a node.
pub open spec fn key_of(node: SyntaxNode) -> SymbolKey {
    SymbolKey(SyntaxNodePtr { kind: node.kind, range: node.range })
}

/// The report on an index whose type definition has another kind than expected.
pub open spec fn misuse_diag(
    expected: CompositeKind,
    actual: CompositeKind,
    at: TextRange,
    def: Symbol,
    idents: Seq<Seq<char>>,
) -> DiagnosticView {
    DiagnosticView {
        range: at,
        severity: DiagnosticSeverity::Error,
        code: "type-misuse"@,
        message: "expected type is "@ + composite_text(expected) + ", but type of `"@ + render_idx(def.idx, idents)
            + "` is "@ + composite_text(actual),
        tags: None,
        data: None,
        related_information: Some(seq![(def.key.0.range, composite_text(actual) + " type defined here"@)]),
    }
}

/// What an index to a type names: its definition and that definition's
/// composite kind; `None` when either is unknown.
pub open spec fn typed_def(table: SymbolTable, def_kinds: Seq<(SymbolKey, CompositeKind)>, imm: SyntaxNode) -> Option<
    (Symbol, CompositeKind),
> {
    match table.def_of(key_of(imm)) {
        Some(def) => match def_kind(def_kinds, def.key) {
            Some(k) => Some((def, k)),
            None => None,
        },
        None => None,
    }
}

/// The report on an index whose type definition is not of the expected kind.
pub open spec fn type_matches_diag(
    table: SymbolTable,
    def_kinds: Seq<(SymbolKey, CompositeKind)>,
    idents: Seq<Seq<char>>,
    expected: CompositeKind,
    imm: SyntaxNode,
) -> Option<DiagnosticView> {
    match typed_def(table, def_kinds, imm) {
        Some((def, k)) => if k == expected {
            None
        } else {
            Some(misuse_diag(expected, k, imm.range, def, idents))
        },
        None => None,
    }
}

/// A report, as a sequence of at most one.
pub open spec fn opt_seq(d: Option<DiagnosticView>) -> Seq<DiagnosticView> {
    match d {
        Some(x) => seq![x],
        None => Seq::empty(),
    }
}

/// The type answers for an instruction that the type analysis gives: for
/// `array.copy`, whether the source's storage type matches the
/// destination's (`None` when either array has no field type); for
/// `array.new_elem` and `array.init_elem`, whether the element segment's
/// ref type matches the array's field type, with both types as messages
/// show them (`None` when either type is unknown); for `table.copy`,
/// whether the source table's ref type matches the destination's, with both
/// types as messages show them (`None` when either is unknown).
pub struct MisuseAnswers {
    pub storage_matches: Option<bool>,
    pub elem_matches: Option<(bool, String, String)>,
    pub table_matches: Option<(bool, String, String)>,
}

/// The plain view of the answers.
pub struct MisuseAnswersView {
    pub storage_matches: Option<bool>,
    pub elem_matches: Option<(bool, Seq<char>, Seq<char>)>,
    pub table_matches: Option<(bool, Seq<char>, Seq<char>)>,
}

impl View for MisuseAnswers {
    type V = MisuseAnswersView;

    open spec fn view(&self) -> MisuseAnswersView {
        MisuseAnswersView {
            storage_matches: self.storage_matches,
            elem_matches: match self.elem_matches {
                Some((b, x, y)) => Some((b, x@, y@)),
                None => None,
            },
            table_matches: match self.table_matches {
                Some((b, x, y)) => Some((b, x@, y@)),
                None => None,
            },
        }
    }
}

/// The reports on `array.copy`: each operand that is not an array type,
/// then source storage that does not match the destination's.
pub open spec fn array_copy_diags(
    table: SymbolTable,
    def_kinds: Seq<(SymbolKey, CompositeKind)>,
    idents: Seq<Seq<char>>,
    node: SyntaxNode,
    imms: Seq<SyntaxNode>,
    answers: MisuseAnswersView,
) -> Seq<DiagnosticView> {
    if imms.len() == 0 {
        Seq::empty()
    } else {
        match typed_def(table, def_kinds, imms[0]) {
            None => Seq::empty(),
            Some((dst, dk)) => {
                let d1 = if dk != CompositeKind::Array {
                    seq![misuse_diag(CompositeKind::Array, dk, imms[0].range, dst, idents)]
                } else {
                    Seq::empty()
                };
                if imms.len() < 2 {
                    d1
                } else {
                    match typed_def(table, def_kinds, imms[1]) {
                        None => d1,
                        Some((src, sk)) => {
                            let d2 = if sk != CompositeKind::Array {
                                seq![misuse_diag(CompositeKind::Array, sk, imms[1].range, src, idents)]
                            } else {
                                Seq::empty()
                            };
                            let dst_name = render_idx(dst.idx, idents);
                            let src_name = render_idx(src.idx, idents);
                            let d3 = if dk == CompositeKind::Array && sk == CompositeKind::Array
                                && answers.storage_matches == Some(false) {
                                seq![
                                    DiagnosticView {
                                        range: node.range,
                                        severity: DiagnosticSeverity::Error,
                                        code: "type-misuse"@,
                                        message: "source array type `"@ + src_name
                                            + "` doesn't match destination array type `"@ + dst_name + "`"@,
                                        tags: None,
                                        data: None,
                                        related_information: Some(
                                            seq![
                                                (
                                                    dst.key.0.range,
                                                    "destination array type `"@ + dst_name + "` defined here"@,
                                                ),
                                                (src.key.0.range, "source array type `"@ + src_name + "` defined here"@),
                                            ],
                                        ),
                                    },
                                ]
                            } else {
                                Seq::empty()
                            };
                            d1 + d2 + d3
                        },
                    }
                }
            },
        }
    }
}

/// The reports on `array.new_elem` and `array.init_elem`: an array operand
/// that is not an array type, else an element segment whose ref type does
/// not match the array's field type.
pub open spec fn array_elem_diags(
    table: SymbolTable,
    def_kinds: Seq<(SymbolKey, CompositeKind)>,
    idents: Seq<Seq<char>>,
    node: SyntaxNode,
    imms: Seq<SyntaxNode>,
    answers: MisuseAnswersView,
) -> Seq<DiagnosticView> {
    if imms.len() == 0 {
        Seq::empty()
    } else {
        match typed_def(table, def_kinds, imms[0]) {
            None => Seq::empty(),
            Some((array, ak)) => if ak != CompositeKind::Array {
                seq![misuse_diag(CompositeKind::Array, ak, imms[0].range, array, idents)]
            } else if imms.len() < 2 {
                Seq::empty()
            } else {
                match table.def_of(key_of(imms[1])) {
                    None => Seq::empty(),
                    Some(elem) => match answers.elem_matches {
                        Some((false, elem_type, array_type)) => {
                            let array_name = render_idx(array.idx, idents);
                            let elem_name = render_idx(elem.idx, idents);
                            seq![
                                DiagnosticView {
                                    range: node.range,
                                    severity: DiagnosticSeverity::Error,
                                    code: "type-misuse"@,
                                    message: "ref type `"@ + elem_type + "` of element segment `"@ + elem_name
                                        + "` doesn't match ref type `"@ + array_type + "` of array type `"@ + array_name
                                        + "`"@,
                                    tags: None,
                                    data: None,
                                    related_information: Some(
                                        seq![
                                            (array.key.0.range, "array type `"@ + array_name + "` defined here"@),
                                            (elem.key.0.range, "element segment `"@ + elem_name + "` defined here"@),
                                        ],
                                    ),
                                },
                            ]
                        },
                        _ => Seq::empty(),
                    },
                }
            },
        }
    }
}

/// The report on `table.copy` when the source table's ref type does not
/// match the destination's.
pub open spec fn table_copy_diags(
    table: SymbolTable,
    idents: Seq<Seq<char>>,
    node: SyntaxNode,
    imms: Seq<SyntaxNode>,
    answers: MisuseAnswersView,
) -> Seq<DiagnosticView> {
    if imms.len() < 2 {
        Seq::empty()
    } else {
        match (table.def_of(key_of(imms[0])), table.def_of(key_of(imms[1]))) {
            (Some(dst), Some(src)) => match answers.table_matches {
                Some((false, dst_type, src_type)) => {
                    let dst_name = render_idx(dst.idx, idents);
                    let src_name = render_idx(src.idx, idents);
                    seq![
                        DiagnosticView {
                            range: node.range,
                            severity: DiagnosticSeverity::Error,
                            code: "type-misuse"@,
                            message: "ref type `"@ + dst_type + "` of source table `"@ + dst_name
                                + "` doesn't match ref type `"@ + src_type + "` of destination table `"@ + src_name
                                + "`"@,
                            tags: None,
                            data: None,
                            related_information: Some(
                                seq![
                                    (dst.key.0.range, "destination table `"@ + dst_name + "` defined here"@),
                                    (src.key.0.range, "source table `"@ + src_name + "` defined here"@),
                                ],
                            ),
                        },
                    ]
                },
                _ => Seq::empty(),
            },
            _ => Seq::empty(),
        }
    }
}

/// The first immediate checked for the expected kind, when there is one.
pub open spec fn first_kind_diags(
    table: SymbolTable,
    def_kinds: Seq<(SymbolKey, CompositeKind)>,
    idents: Seq<Seq<char>>,
    imms: Seq<SyntaxNode>,
    expected: CompositeKind,
) -> Seq<DiagnosticView> {
    if imms.len() > 0 {
        opt_seq(type_matches_diag(table, def_kinds, idents, expected, imms[0]))
    } else {
        Seq::empty()
    }
}

/// The reports on an instruction with the given name: by the part before
/// the first `.` and the part after it, or by the whole name.
pub open spec fn type_misuse_diags(
    table: SymbolTable,
    def_kinds: Seq<(SymbolKey, CompositeKind)>,
    idents: Seq<Seq<char>>,
    node: SyntaxNode,
    name: Seq<char>,
    answers: MisuseAnswersView,
) -> Seq<DiagnosticView> {
    let imms = child_nodes_of(node, SyntaxKind::IMMEDIATE);
    match first_of(name, '.', name.len() as int) {
        Some(i) => {
            let left = name.subrange(0, i);
            let right = name.subrange(i + 1, name.len() as int);
            if left == "struct"@ {
                first_kind_diags(table, def_kinds, idents, imms, CompositeKind::Struct)
            } else if left == "array"@ && right == "copy"@ {
                array_copy_diags(table, def_kinds, idents, node, imms, answers)
            } else if left == "array"@ && (right == "new_elem"@ || right == "init_elem"@) {
                array_elem_diags(table, def_kinds, idents, node, imms, answers)
            } else if left == "array"@ {
                first_kind_diags(table, def_kinds, idents, imms, CompositeKind::Array)
            } else if left == "cont"@ && right == "new"@ {
                first_kind_diags(table, def_kinds, idents, imms, CompositeKind::Cont)
            } else if left == "table"@ && right == "copy"@ {
                table_copy_diags(table, idents, node, imms, answers)
            } else {
                Seq::empty()
            }
        },
        None => if name == "call_ref"@ || name == "return_call_ref"@ {
            first_kind_diags(table, def_kinds, idents, imms, CompositeKind::Func)
        } else {
            Seq::empty()
        },
    }
}

proof fn lemma_kind_of_def_stable(def_kinds: Seq<(SymbolKey, CompositeKind)>, key: SymbolKey, a: int, n: int)
    requires
        0 <= a <= n,
        kind_of_def(def_kinds, key, a) is Some,
    ensures
        kind_of_def(def_kinds, key, n) == kind_of_def(def_kinds, key, a),
    decreases n - a,
{
    if n > a {
        lemma_kind_of_def_stable(def_kinds, key, a, n - 1);
    }
}

pub(crate) fn find_kind(def_kinds: &Vec<(SymbolKey, CompositeKind)>, key: SymbolKey) -> (r: Option<CompositeKind>)
    ensures
        r == def_kind(def_kinds@, key),
{
    let mut i: usize = 0;
    while i < def_kinds.len()
        invariant
            i <= def_kinds@.len(),
            kind_of_def(def_kinds@, key, i as int) is None,
        decreases def_kinds@.len() - i,
    {
        if def_kinds[i].0 == key {
            proof {
                lemma_kind_of_def_stable(def_kinds@, key, i + 1, def_kinds@.len() as int);
            }
            return Some(def_kinds[i].1);
        }
        i = i + 1;
    }
    None
}

fn find_typed_def<'a>(
    table: &'a SymbolTable,
    def_kinds: &Vec<(SymbolKey, CompositeKind)>,
    imm: &SyntaxNode,
) -> (r: Option<(&'a Symbol, CompositeKind)>)
    requires
        table.wf(),
    ensures
        match typed_def(*table, def_kinds@, *imm) {
            Some((d, k)) => r matches Some((x, j)) && *x == d && j == k,
            None => r is None,
        },
{
    let def = match table.find_def(SymbolKey(imm.to_ptr())) {
        Some(d) => d,
        None => return None,
    };
    match find_kind(def_kinds, def.key) {
        Some(k) => Some((def, k)),
        None => None,
    }
}

fn misuse_error(expected: CompositeKind, actual: CompositeKind, at: TextRange, def: &Symbol, idents: &Vec<String>) -> (r:
    Diagnostic)
    ensures
        r@ == misuse_diag(expected, actual, at, *def, ident_texts(idents@)),
{
    let name = def.idx.render(idents);
    let mut message = String::from_str("expected type is ");
    message.append(expected.text());
    message.append(", but type of `");
    message.append(name.as_str());
    message.append("` is ");
    message.append(actual.text());
    let mut note = String::from_str(actual.text());
    note.append(" type defined here");
    let related = vec![RelatedInformation { range: def.key.0.range, message: note }];
    let d = Diagnostic {
        range: at,
        severity: DiagnosticSeverity::Error,
        code: String::from_str("type-misuse"),
        message,
        tags: None,
        data: None,
        related_information: Some(related),
    };
    assert(related@.map_values(|x: RelatedInformation| x@) =~= seq![
        (def.key.0.range, composite_text(actual) + " type defined here"@),
    ]);
    d
}

/// Checks that an index names a type definition of the expected kind.
pub fn check_type_matches(
    table: &SymbolTable,
    def_kinds: &Vec<(SymbolKey, CompositeKind)>,
    idents: &Vec<String>,
    expected: CompositeKind,
    imm: &SyntaxNode,
) -> (r: Option<Diagnostic>)
    requires
        table.wf(),
    ensures
        match type_matches_diag(*table, def_kinds@, ident_texts(idents@), expected, *imm) {
            Some(d) => r matches Some(x) && x@ == d,
            None => r is None,
        },
{
    match find_typed_def(table, def_kinds, imm) {
        Some((def, k)) => {
            if k == expected {
                None
            } else {
                Some(misuse_error(expected, k, imm.range, def, idents))
            }
        },
        None => None,
    }
}

fn push_seq_opt(diagnostics: &mut Vec<Diagnostic>, d: Option<Diagnostic>)
    ensures
        diag_views(final(diagnostics)@) == diag_views(old(diagnostics)@) + opt_seq(
            match d {
                Some(x) => Some(x@),
                None => None,
            },
        ),
{
    let ghost before = diag_views(diagnostics@);
    match d {
        Some(x) => {
            diagnostics.push(x);
            assert(diag_views(diagnostics@) =~= before + seq![x@]);
        },
        None => {
            assert(before + Seq::<DiagnosticView>::empty() =~= before);
        },
    }
}

fn push_one(diagnostics: &mut Vec<Diagnostic>, d: Diagnostic)
    ensures
        diag_views(final(diagnostics)@) == diag_views(old(diagnostics)@) + seq![d@],
{
    let ghost before = diag_views(diagnostics@);
    diagnostics.push(d);
    assert(diag_views(diagnostics@) =~= before + seq![d@]);
}

fn first_kind_check(
    diagnostics: &mut Vec<Diagnostic>,
    table: &SymbolTable,
    def_kinds: &Vec<(SymbolKey, CompositeKind)>,
    idents: &Vec<String>,
    imms: &Vec<&SyntaxNode>,
    expected: CompositeKind,
)
    requires
        table.wf(),
    ensures
        diag_views(final(diagnostics)@) == diag_views(old(diagnostics)@) + first_kind_diags(
            *table,
            def_kinds@,
            ident_texts(idents@),
            imms@.map_values(|n: &SyntaxNode| *n),
            expected,
        ),
{
    if imms.len() > 0 {
        assert(imms@.map_values(|n: &SyntaxNode| *n)[0] == *imms@[0]);
        push_seq_opt(diagnostics, check_type_matches(table, def_kinds, idents, expected, imms[0]));
    } else {
        assert(diag_views(diagnostics@) + Seq::<DiagnosticView>::empty() =~= diag_views(diagnostics@));
    }
}

fn array_copy_check(
    diagnostics: &mut Vec<Diagnostic>,
    table: &SymbolTable,
    def_kinds: &Vec<(SymbolKey, CompositeKind)>,
    idents: &Vec<String>,
    node: &SyntaxNode,
    imms: &Vec<&SyntaxNode>,
    answers: &MisuseAnswers,
)
    requires
        table.wf(),
    ensures
        diag_views(final(diagnostics)@) == diag_views(old(diagnostics)@) + array_copy_diags(
            *table,
            def_kinds@,
            ident_texts(idents@),
            *node,
            imms@.map_values(|n: &SyntaxNode| *n),
            answers@,
        ),
{
    let ghost before = diag_views(diagnostics@);
    let ghost all = imms@.map_values(|n: &SyntaxNode| *n);
    let ghost ids = ident_texts(idents@);
    if imms.len() == 0 {
        assert(before + Seq::<DiagnosticView>::empty() =~= before);
        return;
    }
    assert(all[0] == *imms@[0]);
    let (dst, dk) = match find_typed_def(table, def_kinds, imms[0]) {
        Some(p) => p,
        None => {
            assert(before + Seq::<DiagnosticView>::empty() =~= before);
            return;
        },
    };
    let ghost d1 = if dk != CompositeKind::Array {
        seq![misuse_diag(CompositeKind::Array, dk, all[0].range, *dst, ids)]
    } else {
        Seq::<DiagnosticView>::empty()
    };
    if dk != CompositeKind::Array {
        push_one(diagnostics, misuse_error(CompositeKind::Array, dk, imms[0].range, dst, idents));
    } else {
        assert(before + Seq::<DiagnosticView>::empty() =~= before);
    }
    assert(diag_views(diagnostics@) == before + d1);
    if imms.len() < 2 {
        return;
    }
    assert(all[1] == *imms@[1]);
    let (src, sk) = match find_typed_def(table, def_kinds, imms[1]) {
        Some(p) => p,
        None => {
            return;
        },
    };
    let ghost d2 = if sk != CompositeKind::Array {
        seq![misuse_diag(CompositeKind::Array, sk, all[1].range, *src, ids)]
    } else {
        Seq::<DiagnosticView>::empty()
    };
    if sk != CompositeKind::Array {
        push_one(diagnostics, misuse_error(CompositeKind::Array, sk, imms[1].range, src, idents));
    } else {
        assert(before + d1 + Seq::<DiagnosticView>::empty() =~= before + d1);
    }
    assert(diag_views(diagnostics@) =~= before + d1 + d2);
    if dk == CompositeKind::Array && sk == CompositeKind::Array && answers.storage_matches == Some(false) {
        let dst_name = dst.idx.render(idents);
        let src_name = src.idx.render(idents);
        let mut message = String::from_str("source array type `");
        message.append(src_name.as_str());
        message.append("` doesn't match destination array type `");
        message.append(dst_name.as_str());
        message.append("`");
        let mut n1 = String::from_str("destination array type `");
        n1.append(dst_name.as_str());
        n1.append("` defined here");
        let mut n2 = String::from_str("source array type `");
        n2.append(src_name.as_str());
        n2.append("` defined here");
        let related = vec![
            RelatedInformation { range: dst.key.0.range, message: n1 },
            RelatedInformation { range: src.key.0.range, message: n2 },
        ];
        let ghost rel = related@.map_values(|x: RelatedInformation| x@);
        assert(rel =~= seq![
            (dst.key.0.range, "destination array type `"@ + dst_name@ + "` defined here"@),
            (src.key.0.range, "source array type `"@ + src_name@ + "` defined here"@),
        ]);
        push_one(
            diagnostics,
            Diagnostic {
                range: node.range,
                severity: DiagnosticSeverity::Error,
                code: String::from_str("type-misuse"),
                message,
                tags: None,
                data: None,
                related_information: Some(related),
            },
        );
    } else {
        assert(before + d1 + d2 + Seq::<DiagnosticView>::empty() =~= before + d1 + d2);
    }
    assert(diag_views(diagnostics@) =~= before + array_copy_diags(*table, def_kinds@, ids, *node, all, answers@));
}

fn array_elem_check(
    diagnostics: &mut Vec<Diagnostic>,
    table: &SymbolTable,
    def_kinds: &Vec<(SymbolKey, CompositeKind)>,
    idents: &Vec<String>,
    node: &SyntaxNode,
    imms: &Vec<&SyntaxNode>,
    answers: &MisuseAnswers,
)
    requires
        table.wf(),
    ensures
        diag_views(final(diagnostics)@) == diag_views(old(diagnostics)@) + array_elem_diags(
            *table,
            def_kinds@,
            ident_texts(idents@),
            *node,
            imms@.map_values(|n: &SyntaxNode| *n),
            answers@,
        ),
{
    let ghost before = diag_views(diagnostics@);
    let ghost all = imms@.map_values(|n: &SyntaxNode| *n);
    assert(before + Seq::<DiagnosticView>::empty() =~= before);
    if imms.len() == 0 {
        return;
    }
    assert(all[0] == *imms@[0]);
    let (array, ak) = match find_typed_def(table, def_kinds, imms[0]) {
        Some(p) => p,
        None => return,
    };
    if ak != CompositeKind::Array {
        push_one(diagnostics, misuse_error(CompositeKind::Array, ak, imms[0].range, array, idents));
        return;
    }
    if imms.len() < 2 {
        return;
    }
    assert(all[1] == *imms@[1]);
    let elem = match table.find_def(SymbolKey(imms[1].to_ptr())) {
        Some(e) => e,
        None => return,
    };
    match &answers.elem_matches {
        Some((false, elem_type, array_type)) => {
            let array_name = array.idx.render(idents);
            let elem_name = elem.idx.render(idents);
            let mut message = String::from_str("ref type `");
            message.append(elem_type.as_str());
            message.append("` of element segment `");
            message.append(elem_name.as_str());
            message.append("` doesn't match ref type `");
            message.append(array_type.as_str());
            message.append("` of array type `");
            message.append(array_name.as_str());
            message.append("`");
            let mut n1 = String::from_str("array type `");
            n1.append(array_name.as_str());
            n1.append("` defined here");
            let mut n2 = String::from_str("element segment `");
            n2.append(elem_name.as_str());
            n2.append("` defined here");
            let related = vec![
                RelatedInformation { range: array.key.0.range, message: n1 },
                RelatedInformation { range: elem.key.0.range, message: n2 },
            ];
            assert(related@.map_values(|x: RelatedInformation| x@) =~= seq![
                (array.key.0.range, "array type `"@ + array_name@ + "` defined here"@),
                (elem.key.0.range, "element segment `"@ + elem_name@ + "` defined here"@),
            ]);
            push_one(
                diagnostics,
                Diagnostic {
                    range: node.range,
                    severity: DiagnosticSeverity::Error,
                    code: String::from_str("type-misuse"),
                    message,
                    tags: None,
                    data: None,
                    related_information: Some(related),
                },
            );
        },
        _ => {},
    }
}

fn table_copy_check(
    diagnostics: &mut Vec<Diagnostic>,
    table: &SymbolTable,
    idents: &Vec<String>,
    node: &SyntaxNode,
    imms: &Vec<&SyntaxNode>,
    answers: &MisuseAnswers,
)
    requires
        table.wf(),
    ensures
        diag_views(final(diagnostics)@) == diag_views(old(diagnostics)@) + table_copy_diags(
            *table,
            ident_texts(idents@),
            *node,
            imms@.map_values(|n: &SyntaxNode| *n),
            answers@,
        ),
{
    let ghost before = diag_views(diagnostics@);
    let ghost all = imms@.map_values(|n: &SyntaxNode| *n);
    assert(before + Seq::<DiagnosticView>::empty() =~= before);
    if imms.len() < 2 {
        return;
    }
    assert(all[0] == *imms@[0]);
    assert(all[1] == *imms@[1]);
    let dst = match table.find_def(SymbolKey(imms[0].to_ptr())) {
        Some(d) => d,
        None => return,
    };
    let src = match table.find_def(SymbolKey(imms[1].to_ptr())) {
        Some(d) => d,
        None => return,
    };
    match &answers.table_matches {
        Some((false, dst_type, src_type)) => {
            let dst_name = dst.idx.render(idents);
            let src_name = src.idx.render(idents);
            let mut message = String::from_str("ref type `");
            message.append(dst_type.as_str());
            message.append("` of source table `");
            message.append(dst_name.as_str());
            message.append("` doesn't match ref type `");
            message.append(src_type.as_str());
            message.append("` of destination table `");
            message.append(src_name.as_str());
            message.append("`");
            let mut n1 = String::from_str("destination table `");
            n1.append(dst_name.as_str());
            n1.append("` defined here");
            let mut n2 = String::from_str("source table `");
            n2.append(src_name.as_str());
            n2.append("` defined here");
            let related = vec![
                RelatedInformation { range: dst.key.0.range, message: n1 },
                RelatedInformation { range: src.key.0.range, message: n2 },
            ];
            assert(related@.map_values(|x: RelatedInformation| x@) =~= seq![
                (dst.key.0.range, "destination table `"@ + dst_name@ + "` defined here"@),
                (src.key.0.range, "source table `"@ + src_name@ + "` defined here"@),
            ]);
            push_one(
                diagnostics,
                Diagnostic {
                    range: node.range,
                    severity: DiagnosticSeverity::Error,
                    code: String::from_str("type-misuse"),
                    message,
                    tags: None,
                    data: None,
                    related_information: Some(related),
                },
            );
        },
        _ => {},
    }
}

/// Checks that the type indices of an instruction name type definitions of
/// the kind the instruction needs, and that the types it moves between
/// agree. `def_kinds` gives the composite kind of each type definition;
/// `answers` gives the type agreements the type analysis decides.
pub fn check(
    diagnostics: &mut Vec<Diagnostic>,
    table: &SymbolTable,
    def_kinds: &Vec<(SymbolKey, CompositeKind)>,
    idents: &Vec<String>,
    node: &SyntaxNode,
    instr_name: &str,
    answers: &MisuseAnswers,
)
    requires
        table.wf(),
    ensures
        diag_views(final(diagnostics)@) == diag_views(old(diagnostics)@) + type_misuse_diags(
            *table,
            def_kinds@,
            ident_texts(idents@),
            *node,
            instr_name@,
            answers@,
        ),
{
    let imms = node.children_of_kind(SyntaxKind::IMMEDIATE);
    let ghost before = diag_views(diagnostics@);
    match find_char(instr_name, '.') {
        Some(i) => {
            let n = instr_name.unicode_len();
            proof {
                lemma_first_of_range(instr_name@, '.', n as int);
            }
            let left = instr_name.substring_char(0, i);
            let right = instr_name.substring_char(i + 1, n);
            if str_eq(left, "struct") {
                first_kind_check(diagnostics, table, def_kinds, idents, &imms, CompositeKind::Struct);
            } else if str_eq(left, "array") && str_eq(right, "copy") {
                array_copy_check(diagnostics, table, def_kinds, idents, node, &imms, answers);
            } else if str_eq(left, "array") && (str_eq(right, "new_elem") || str_eq(right, "init_elem")) {
                array_elem_check(diagnostics, table, def_kinds, idents, node, &imms, answers);
            } else if str_eq(left, "array") {
                first_kind_check(diagnostics, table, def_kinds, idents, &imms, CompositeKind::Array);
            } else if str_eq(left, "cont") && str_eq(right, "new") {
                first_kind_check(diagnostics, table, def_kinds, idents, &imms, CompositeKind::Cont);
            } else if str_eq(left, "table") && str_eq(right, "copy") {
                table_copy_check(diagnostics, table, idents, node, &imms, answers);
            } else {
                assert(before + Seq::<DiagnosticView>::empty() =~= before);
            }
        },
        None => {
            if str_eq(instr_name, "call_ref") || str_eq(instr_name, "return_call_ref") {
                first_kind_check(diagnostics, table, def_kinds, idents, &imms, CompositeKind::Func);
            } else {
                assert(before + Seq::<DiagnosticView>::empty() =~= before);
            }
        },
    }
}


/// What the type analysis tells of an `on` clause: whether the tag's param
/// types are empty, and what the result types of the label, when the clause
/// has one, say.
pub struct OnClauseAnswers {
    pub tag_params_empty: bool,
    pub label: LabelAnswer,
}

/// What the result types of a label say for an `on` clause.
pub enum LabelAnswer {
    /// The last result type is not a reference to a continuation type.
    NotCont,
    /// A type on the way is unknown; nothing is reported.
    Unknown,
    /// The last result type refers to a continuation type, defined at
    /// `def_range` and read as `idx_text`: whether the tag's param types
    /// match the label's other result types, and whether the tag's result
    /// types match those of the continuation's function type (`None` when
    /// that function type is unknown).
    Cont { def_range: TextRange, idx_text: String, params_match: bool, results_match: Option<bool> },
}

/// The plain view of a label answer.
pub enum LabelAnswerView {
    NotCont,
    Unknown,
    Cont { def_range: TextRange, idx_text: Seq<char>, params_match: bool, results_match: Option<bool> },
}

impl View for LabelAnswer {
    type V = LabelAnswerView;

    open spec fn view(&self) -> LabelAnswerView {
        match self {
            LabelAnswer::NotCont => LabelAnswerView::NotCont,
            LabelAnswer::Unknown => LabelAnswerView::Unknown,
            LabelAnswer::Cont { def_range, idx_text, params_match, results_match } => LabelAnswerView::Cont {
                def_range: *def_range,
                idx_text: idx_text@,
                params_match: *params_match,
                results_match: *results_match,
            },
        }
    }
}

/// The range of the type use of the node a key names, found below `root`.
pub open spec fn type_use_range(root: SyntaxNode, key: SymbolKey) -> Option<TextRange> {
    match locate(root, key.0) {
        Some((p, i)) => match p.children@[i] {
            SyntaxElement::Node(c) => {
                let uses = child_nodes_of(c, SyntaxKind::TYPE_USE);
                if uses.len() > 0 {
                    Some(uses[0].range)
                } else {
                    None
                }
            },
            _ => None,
        },
        None => None,
    }
}

/// A type-misuse report with its notes.
pub open spec fn misuse_report(
    range: TextRange,
    message: Seq<char>,
    related: Option<Seq<(TextRange, Seq<char>)>>,
) -> DiagnosticView {
    DiagnosticView {
        range,
        severity: DiagnosticSeverity::Error,
        code: "type-misuse"@,
        message,
        tags: None,
        data: None,
        related_information: related,
    }
}

/// The note on where a tag is defined.
pub open spec fn tag_note(tag_def: Symbol, tag_name: Seq<char>) -> (TextRange, Seq<char>) {
    (tag_def.key.0.range, "tag `"@ + tag_name + "` defined here"@)
}

/// The report on an `on` clause whose label does not fit its tag.
pub open spec fn label_diag(
    label: SyntaxNode,
    tag_def: Symbol,
    tag_name: Seq<char>,
    type_use: Option<TextRange>,
    answer: LabelAnswerView,
) -> Option<DiagnosticView> {
    let label_text = node_text(label);
    match answer {
        LabelAnswerView::Unknown => None,
        LabelAnswerView::NotCont => Some(
            misuse_report(
                label.range,
                "last result type of label `"@ + label_text + "` must be continuation reference type"@,
                match type_use {
                    Some(r) => Some(seq![(r, "type of label `"@ + label_text + "` declared here"@)]),
                    None => None,
                },
            ),
        ),
        LabelAnswerView::Cont { def_range, idx_text, params_match, results_match } => if !params_match {
            Some(
                misuse_report(
                    label.range,
                    "param types of tag `"@ + tag_name + "` must match result types of label `"@ + label_text
                        + "`"@,
                    match type_use {
                        Some(r) => Some(
                            seq![tag_note(tag_def, tag_name), (r, "type of label `"@ + label_text + "` defined here"@)],
                        ),
                        None => None,
                    },
                ),
            )
        } else if results_match == Some(false) {
            Some(
                misuse_report(
                    label.range,
                    "result types of tag `"@ + tag_name + "` must match result types of cont type `"@ + idx_text
                        + "`"@,
                    Some(seq![tag_note(tag_def, tag_name), (def_range, "cont type `"@ + idx_text + "` defined here"@)]),
                ),
            )
        } else {
            None
        },
    }
}

/// The report on the `on` clause of an immediate: with a label, whether the
/// label's result types fit the tag; without one, for a clause with a
/// modifier keyword, that the tag takes no params. `None` when the
/// immediate has no clause, or its tag or label is unknown.
pub open spec fn on_clause_diag(
    table: SymbolTable,
    root: SyntaxNode,
    idents: Seq<Seq<char>>,
    imm: SyntaxNode,
    tag_params_empty: bool,
    label: LabelAnswerView,
) -> Option<DiagnosticView> {
    let clauses = child_nodes_of(imm, SyntaxKind::ON_CLAUSE);
    if clauses.len() == 0 {
        None
    } else {
        let clause = clauses[0];
        let indexes = child_nodes_of(clause, SyntaxKind::INDEX);
        if indexes.len() == 0 {
            None
        } else {
            match index_of_key(table.symbols@, key_of(indexes[0])) {
                None => None,
                Some(t) => {
                    let tag_ref = table.symbols@[t];
                    match table.def_of(tag_ref.key) {
                        None => None,
                        Some(tag_def) => {
                            let tag_name = render_idx(tag_ref.idx, idents);
                            if indexes.len() > 1 {
                                match table.def_of(key_of(indexes[1])) {
                                    None => None,
                                    Some(block) => label_diag(
                                        indexes[1],
                                        tag_def,
                                        tag_name,
                                        type_use_range(root, block.key),
                                        label,
                                    ),
                                }
                            } else if child_token_of(clause, SyntaxKind::MODIFIER_KEYWORD) is None
                                || tag_params_empty {
                                None
                            } else {
                                Some(
                                    misuse_report(
                                        tag_ref.key.0.range,
                                        "param types of tag `"@ + tag_name + "` must be empty"@,
                                        Some(seq![tag_note(tag_def, tag_name)]),
                                    ),
                                )
                            }
                        },
                    }
                },
            }
        }
    }
}

fn find_type_use(root: &SyntaxNode, key: SymbolKey) -> (r: Option<TextRange>)
    ensures
        r == type_use_range(*root, key),
{
    match locate_node(root, key.0) {
        Some((p, i)) => match &p.children[i] {
            SyntaxElement::Node(c) => match c.child_of_kind(SyntaxKind::TYPE_USE) {
                Some(u) => Some(u.range),
                None => None,
            },
            _ => None,
        },
        None => None,
    }
}

fn tag_note_info(tag_def: &Symbol, tag_name: &String) -> (r: RelatedInformation)
    ensures
        r@ == tag_note(*tag_def, tag_name@),
{
    let mut message = String::from_str("tag `");
    message.append(tag_name.as_str());
    message.append("` defined here");
    RelatedInformation { range: tag_def.key.0.range, message }
}

fn label_note(range: TextRange, label_text: &String, tail: &str) -> (r: RelatedInformation)
    ensures
        r@ == (range, "type of label `"@ + label_text@ + tail@),
{
    let mut message = String::from_str("type of label `");
    message.append(label_text.as_str());
    message.append(tail);
    RelatedInformation { range, message }
}

fn misuse_report_of(range: TextRange, message: String, related: Option<Vec<RelatedInformation>>) -> (r: Diagnostic)
    ensures
        r@ == misuse_report(
            range,
            message@,
            match related {
                Some(v) => Some(v@.map_values(|x: RelatedInformation| x@)),
                None => None,
            },
        ),
{
    Diagnostic {
        range,
        severity: DiagnosticSeverity::Error,
        code: String::from_str("type-misuse"),
        message,
        tags: None,
        data: None,
        related_information: related,
    }
}

fn check_label(
    label: &SyntaxNode,
    tag_def: &Symbol,
    tag_name: &String,
    type_use: Option<TextRange>,
    answer: &LabelAnswer,
) -> (r: Option<Diagnostic>)
    ensures
        match label_diag(*label, *tag_def, tag_name@, type_use, answer@) {
            Some(d) => r matches Some(x) && x@ == d,
            None => r is None,
        },
{
    let mut label_text = String::new();
    push_node_text(&mut label_text, label);
    assert(label_text@ == node_text(*label));
    match answer {
        LabelAnswer::Unknown => None,
        LabelAnswer::NotCont => {
            let mut message = String::from_str("last result type of label `");
            message.append(label_text.as_str());
            message.append("` must be continuation reference type");
            let related = match type_use {
                Some(r) => {
                    let v = vec![label_note(r, &label_text, "` declared here")];
                    assert(v@.map_values(|x: RelatedInformation| x@) =~= seq![
                        (r, "type of label `"@ + label_text@ + "` declared here"@),
                    ]);
                    Some(v)
                },
                None => None,
            };
            Some(misuse_report_of(label.range, message, related))
        },
        LabelAnswer::Cont { def_range, idx_text, params_match, results_match } => {
            if !*params_match {
                let mut message = String::from_str("param types of tag `");
                message.append(tag_name.as_str());
                message.append("` must match result types of label `");
                message.append(label_text.as_str());
                message.append("`");
                let related = match type_use {
                    Some(r) => {
                        let v = vec![tag_note_info(tag_def, tag_name), label_note(r, &label_text, "` defined here")];
                        assert(v@.map_values(|x: RelatedInformation| x@) =~= seq![
                            tag_note(*tag_def, tag_name@),
                            (r, "type of label `"@ + label_text@ + "` defined here"@),
                        ]);
                        Some(v)
                    },
                    None => None,
                };
                Some(misuse_report_of(label.range, message, related))
            } else if *results_match == Some(false) {
                let mut message = String::from_str("result types of tag `");
                message.append(tag_name.as_str());
                message.append("` must match result types of cont type `");
                message.append(idx_text.as_str());
                message.append("`");
                let mut note = String::from_str("cont type `");
                note.append(idx_text.as_str());
                note.append("` defined here");
                let v = vec![tag_note_info(tag_def, tag_name), RelatedInformation { range: *def_range, message: note }];
                assert(v@.map_values(|x: RelatedInformation| x@) =~= seq![
                    tag_note(*tag_def, tag_name@),
                    (*def_range, "cont type `"@ + idx_text@ + "` defined here"@),
                ]);
                Some(misuse_report_of(label.range, message, Some(v)))
            } else {
                None
            }
        },
    }
}

/// Checks the `on` clause of an immediate against its tag: see
/// `on_clause_diag`. `root` is the document's tree, where the label's
/// definition is found; `answers` holds what the type analysis decides.
pub fn check_on_clause(
    table: &SymbolTable,
    root: &SyntaxNode,
    idents: &Vec<String>,
    imm: &SyntaxNode,
    answers: &OnClauseAnswers,
) -> (r: Option<Diagnostic>)
    requires
        table.wf(),
    ensures
        match on_clause_diag(*table, *root, ident_texts(idents@), *imm, answers.tag_params_empty, answers.label@) {
            Some(d) => r matches Some(x) && x@ == d,
            None => r is None,
        },
{
    let clause = match imm.child_of_kind(SyntaxKind::ON_CLAUSE) {
        Some(c) => c,
        None => return None,
    };
    let indexes = clause.children_of_kind(SyntaxKind::INDEX);
    if indexes.len() == 0 {
        return None;
    }
    let tag_ref = match table.symbols.get(SymbolKey(indexes[0].to_ptr())) {
        Some(s) => s,
        None => return None,
    };
    let tag_def = match table.find_def(tag_ref.key) {
        Some(d) => d,
        None => return None,
    };
    let tag_name = tag_ref.idx.render(idents);
    if indexes.len() > 1 {
        let label = indexes[1];
        let block = match table.find_def(SymbolKey(label.to_ptr())) {
            Some(b) => b,
            None => return None,
        };
        let type_use = find_type_use(root, block.key);
        check_label(label, tag_def, &tag_name, type_use, &answers.label)
    } else if clause.token_of_kind(SyntaxKind::MODIFIER_KEYWORD).is_none() || answers.tag_params_empty {
        None
    } else {
        let mut message = String::from_str("param types of tag `");
        message.append(tag_name.as_str());
        message.append("` must be empty");
        let v = vec![tag_note_info(tag_def, &tag_name)];
        assert(v@.map_values(|x: RelatedInformation| x@) =~= seq![tag_note(*tag_def, tag_name@)]);
        Some(misuse_report_of(tag_ref.key.0.range, message, Some(v)))
    }
}

} // verus!
