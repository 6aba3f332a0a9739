//! Type uses that must name function types (block types, continuation
//! types, tag types, and the type of the start function), and the types
//! that element segments and the branches of `br_table` must agree on.
//!
//! The composite kind of each type definition and the signatures of
//! functions and type uses come from the type analysis, as arguments.

use super::type_misuse::{def_kind, find_kind, key_of, CompositeKind};
use super::{Diagnostic, DiagnosticSeverity, DiagnosticView, RelatedInformation};
use crate::binder::{index_of_key, Symbol, SymbolKey, SymbolKind, SymbolTable};
use crate::idx::{ident_texts, render_idx, Idx};
use crate::syntax::{child_nodes_of, child_token_of, SyntaxKind, SyntaxNode, TextRange};
use crate::text::str_eq;
use vstd::prelude::*;
use vstd::utf8::encode_utf8;

verus! {

/// An error with no notes.
pub open spec fn error_diag(range: TextRange, code: Seq<char>, message: Seq<char>) -> DiagnosticView {
    DiagnosticView {
        range,
        severity: DiagnosticSeverity::Error,
        code,
        message,
        tags: None,
        related_information: None,
        data: None,
    }
}

/// The first child node of a kind.
pub open spec fn first_of_kind(node: SyntaxNode, kind: SyntaxKind) -> Option<SyntaxNode> {
    if child_nodes_of(node, kind).len() > 0 {
        Some(child_nodes_of(node, kind)[0])
    } else {
        None
    }
}

/// The index in the type use of a node.
pub open spec fn type_use_index(node: SyntaxNode) -> Option<SyntaxNode> {
    match first_of_kind(node, SyntaxKind::TYPE_USE) {
        Some(u) => first_of_kind(u, SyntaxKind::INDEX),
        None => None,
    }
}

/// Whether an index names a type definition that is known not to be a
/// function type.
pub open spec fn names_non_func(
    table: SymbolTable,
    def_kinds: Seq<(SymbolKey, CompositeKind)>,
    index: SyntaxNode,
) -> bool {
    match table.def_of(key_of(index)) {
        Some(def) => match def_kind(def_kinds, def.key) {
            Some(k) => k != CompositeKind::Func,
            None => false,
        },
        None => false,
    }
}

/// The report on a block whose type use names a type that is not a
/// function type.
pub open spec fn block_type_diag(
    table: SymbolTable,
    def_kinds: Seq<(SymbolKey, CompositeKind)>,
    node: SyntaxNode,
) -> Option<DiagnosticView> {
    match type_use_index(node) {
        Some(index) => if names_non_func(table, def_kinds, index) {
            Some(error_diag(index.range, "block-type"@, "block type must be function type"@))
        } else {
            None
        },
        None => None,
    }
}

/// The report on a continuation type whose index names a type that is not
/// a function type, with a note on where that type is defined.
pub open spec fn cont_type_diag(
    table: SymbolTable,
    def_kinds: Seq<(SymbolKey, CompositeKind)>,
    idents: Seq<Seq<char>>,
    node: SyntaxNode,
) -> Option<DiagnosticView> {
    match first_of_kind(node, SyntaxKind::INDEX) {
        Some(index) => match index_of_key(table.symbols@, key_of(index)) {
            Some(i) => {
                let r = table.symbols@[i];
                match table.def_of(r.key) {
                    Some(def) => match def_kind(def_kinds, def.key) {
                        Some(k) => if k == CompositeKind::Func {
                            None
                        } else {
                            let name = render_idx(r.idx, idents);
                            Some(
                                DiagnosticView {
                                    range: index.range,
                                    severity: DiagnosticSeverity::Error,
                                    code: "cont-type"@,
                                    message: "type `"@ + name + "` must be a function type"@,
                                    tags: None,
                                    related_information: Some(
                                        seq![(def.key.0.range, "type `"@ + name + "` defined here"@)],
                                    ),
                                    data: None,
                                },
                            )
                        },
                        None => None,
                    },
                    None => None,
                }
            },
            None => None,
        },
        None => None,
    }
}

/// The reports on a tag or an imported tag type: its type use must name a
/// function type, and give no results (`results_empty`, from the type
/// analysis).
pub open spec fn tag_type_diags(
    table: SymbolTable,
    def_kinds: Seq<(SymbolKey, CompositeKind)>,
    node: SyntaxNode,
    results_empty: bool,
) -> Seq<DiagnosticView> {
    match first_of_kind(node, SyntaxKind::TYPE_USE) {
        Some(u) => {
            let not_func = match first_of_kind(u, SyntaxKind::INDEX) {
                Some(index) => if names_non_func(table, def_kinds, index) {
                    seq![error_diag(index.range, "tag-type"@, "tag type must be function type"@)]
                } else {
                    Seq::empty()
                },
                None => Seq::empty(),
            };
            not_func + if results_empty {
                Seq::empty()
            } else {
                seq![error_diag(u.range, "tag-type"@, "tag type's result type must be empty"@)]
            }
        },
        None => Seq::empty(),
    }
}

/// The report on a start field whose function takes params or gives
/// results; `sig_empty` tells, from the type analysis, whether the
/// signature of the function the index names is `[] -> []`.
pub open spec fn start_diag(table: SymbolTable, node: SyntaxNode, sig_empty: bool) -> Option<DiagnosticView> {
    match first_of_kind(node, SyntaxKind::INDEX) {
        Some(index) => if table.def_of(key_of(index)) is Some && !sig_empty {
            Some(error_diag(index.range, "start"@, "start function must be type of [] -> []"@))
        } else {
            None
        },
        None => None,
    }
}

fn error_of(range: TextRange, code: &str, message: &str) -> (r: Diagnostic)
    ensures
        r@ == error_diag(range, code@, message@),
{
    Diagnostic {
        range,
        severity: DiagnosticSeverity::Error,
        code: String::from_str(code),
        message: String::from_str(message),
        tags: None,
        data: None,
        related_information: None,
    }
}

fn first_child<'a>(node: &'a SyntaxNode, kind: SyntaxKind) -> (r: Option<&'a SyntaxNode>)
    ensures
        match first_of_kind(*node, kind) {
            Some(c) => r matches Some(x) && *x == c,
            None => r is None,
        },
{
    node.child_of_kind(kind)
}

fn non_func(table: &SymbolTable, def_kinds: &Vec<(SymbolKey, CompositeKind)>, index: &SyntaxNode) -> (r: bool)
    requires
        table.wf(),
    ensures
        r == names_non_func(*table, def_kinds@, *index),
{
    match table.find_def(SymbolKey(index.to_ptr())) {
        Some(def) => match find_kind(def_kinds, def.key) {
            Some(k) => k != CompositeKind::Func,
            None => false,
        },
        None => false,
    }
}

/// Checks that the type use of a block names a function type: see
/// `block_type_diag`.
pub fn check_block_type(table: &SymbolTable, def_kinds: &Vec<(SymbolKey, CompositeKind)>, node: &SyntaxNode) -> (r:
    Option<Diagnostic>)
    requires
        table.wf(),
    ensures
        match block_type_diag(*table, def_kinds@, *node) {
            Some(d) => r matches Some(x) && x@ == d,
            None => r is None,
        },
{
    let u = match first_child(node, SyntaxKind::TYPE_USE) {
        Some(u) => u,
        None => return None,
    };
    let index = match first_child(u, SyntaxKind::INDEX) {
        Some(i) => i,
        None => return None,
    };
    if non_func(table, def_kinds, index) {
        Some(error_of(index.range, "block-type", "block type must be function type"))
    } else {
        None
    }
}

/// Checks that a continuation type names a function type: see
/// `cont_type_diag`.
pub fn check_cont_type(
    table: &SymbolTable,
    def_kinds: &Vec<(SymbolKey, CompositeKind)>,
    idents: &Vec<String>,
    node: &SyntaxNode,
) -> (r: Option<Diagnostic>)
    requires
        table.wf(),
    ensures
        match cont_type_diag(*table, def_kinds@, ident_texts(idents@), *node) {
            Some(d) => r matches Some(x) && x@ == d,
            None => r is None,
        },
{
    let index = match first_child(node, SyntaxKind::INDEX) {
        Some(i) => i,
        None => return None,
    };
    let r = match table.symbols.get(SymbolKey(index.to_ptr())) {
        Some(s) => s,
        None => return None,
    };
    let def = match table.find_def(r.key) {
        Some(d) => d,
        None => return None,
    };
    let k = match find_kind(def_kinds, def.key) {
        Some(k) => k,
        None => return None,
    };
    if k == CompositeKind::Func {
        return None;
    }
    let name = r.idx.render(idents);
    let mut message = String::from_str("type `");
    message.append(name.as_str());
    message.append("` must be a function type");
    let mut note = String::from_str("type `");
    note.append(name.as_str());
    note.append("` defined here");
    let related = vec![RelatedInformation { range: def.key.0.range, message: note }];
    assert(related@.map_values(|x: RelatedInformation| x@) =~= seq![
        (def.key.0.range, "type `"@ + name@ + "` defined here"@),
    ]);
    Some(
        Diagnostic {
            range: index.range,
            severity: DiagnosticSeverity::Error,
            code: String::from_str("cont-type"),
            message,
            tags: None,
            data: None,
            related_information: Some(related),
        },
    )
}

/// Checks the type use of a tag: see `tag_type_diags`.
pub fn check_tag_type(
    diagnostics: &mut Vec<Diagnostic>,
    table: &SymbolTable,
    def_kinds: &Vec<(SymbolKey, CompositeKind)>,
    node: &SyntaxNode,
    results_empty: bool,
)
    requires
        table.wf(),
    ensures
        final(diagnostics)@.map_values(|d: Diagnostic| d@) == old(diagnostics)@.map_values(|d: Diagnostic| d@)
            + tag_type_diags(*table, def_kinds@, *node, results_empty),
{
    let ghost before = old(diagnostics)@.map_values(|d: Diagnostic| d@);
    let u = match first_child(node, SyntaxKind::TYPE_USE) {
        Some(u) => u,
        None => {
            assert(diagnostics@.map_values(|d: Diagnostic| d@) =~= before + Seq::<DiagnosticView>::empty());
            return;
        },
    };
    let ghost not_func: Seq<DiagnosticView> = match first_of_kind(*u, SyntaxKind::INDEX) {
        Some(index) => if names_non_func(*table, def_kinds@, index) {
            seq![error_diag(index.range, "tag-type"@, "tag type must be function type"@)]
        } else {
            Seq::empty()
        },
        None => Seq::empty(),
    };
    match first_child(u, SyntaxKind::INDEX) {
        Some(index) => {
            if non_func(table, def_kinds, index) {
                diagnostics.push(error_of(index.range, "tag-type", "tag type must be function type"));
            }
        },
        None => {},
    }
    assert(diagnostics@.map_values(|d: Diagnostic| d@) =~= before + not_func);
    let ghost mid = diagnostics@.map_values(|d: Diagnostic| d@);
    if !results_empty {
        diagnostics.push(error_of(u.range, "tag-type", "tag type's result type must be empty"));
        assert(diagnostics@.map_values(|d: Diagnostic| d@) =~= mid + seq![
            error_diag(u.range, "tag-type"@, "tag type's result type must be empty"@),
        ]);
    } else {
        assert(diagnostics@.map_values(|d: Diagnostic| d@) =~= mid + Seq::<DiagnosticView>::empty());
    }
    assert(diagnostics@.map_values(|d: Diagnostic| d@) =~= before + tag_type_diags(
        *table,
        def_kinds@,
        *node,
        results_empty,
    ));
}

/// Checks that the start function takes and gives nothing: see
/// `start_diag`.
pub fn check_start(table: &SymbolTable, node: &SyntaxNode, sig_empty: bool) -> (r: Option<Diagnostic>)
    requires
        table.wf(),
    ensures
        match start_diag(*table, *node, sig_empty) {
            Some(d) => r matches Some(x) && x@ == d,
            None => r is None,
        },
{
    let index = match first_child(node, SyntaxKind::INDEX) {
        Some(i) => i,
        None => return None,
    };
    if table.find_def(SymbolKey(index.to_ptr())).is_some() && !sig_empty {
        Some(error_of(index.range, "start", "start function must be type of [] -> []"))
    } else {
        None
    }
}

} // verus!
verus! {

/// The report on an element segment whose ref type does not match the ref
/// type of its table. `types` gives, from the type analysis, the table's
/// ref type and the segment's as they read, and whether they match
/// (`None` when either is unknown).
pub open spec fn elem_type_diag(
    table: SymbolTable,
    idents: Seq<Seq<char>>,
    node: SyntaxNode,
    types: Option<(Seq<char>, Seq<char>, bool)>,
) -> Option<DiagnosticView> {
    match first_of_kind(node, SyntaxKind::TABLE_USE) {
        Some(u) => match first_of_kind(u, SyntaxKind::INDEX) {
            Some(index) => match table.def_of(key_of(index)) {
                Some(t) => match first_of_kind(node, SyntaxKind::ELEM_LIST) {
                    Some(list) => match first_of_kind(list, SyntaxKind::REF_TYPE) {
                        Some(ref_type) => match types {
                            Some((table_type, elem_type, matches)) => if matches {
                                None
                            } else {
                                Some(
                                    error_diag(
                                        ref_type.range,
                                        "elem-type"@,
                                        "ref type `"@ + elem_type + "` doesn't match ref type `"@ + table_type
                                            + "` of table `"@ + render_idx(t.idx, idents) + "`"@,
                                    ),
                                )
                            },
                            None => None,
                        },
                        None => None,
                    },
                    None => None,
                },
                None => None,
            },
            None => None,
        },
        None => None,
    }
}

/// Checks that the ref type of an element segment matches its table's:
/// see `elem_type_diag`.
pub fn check_elem_type(
    table: &SymbolTable,
    idents: &Vec<String>,
    node: &SyntaxNode,
    types: &Option<(String, String, bool)>,
) -> (r: Option<Diagnostic>)
    requires
        table.wf(),
    ensures
        match elem_type_diag(
            *table,
            ident_texts(idents@),
            *node,
            match types {
                Some((a, b, m)) => Some((a@, b@, *m)),
                None => None,
            },
        ) {
            Some(d) => r matches Some(x) && x@ == d,
            None => r is None,
        },
{
    let u = match first_child(node, SyntaxKind::TABLE_USE) {
        Some(u) => u,
        None => return None,
    };
    let index = match first_child(u, SyntaxKind::INDEX) {
        Some(i) => i,
        None => return None,
    };
    let t = match table.find_def(SymbolKey(index.to_ptr())) {
        Some(t) => t,
        None => return None,
    };
    let list = match first_child(node, SyntaxKind::ELEM_LIST) {
        Some(l) => l,
        None => return None,
    };
    let ref_type = match first_child(list, SyntaxKind::REF_TYPE) {
        Some(r) => r,
        None => return None,
    };
    match types {
        Some((table_type, elem_type, matches)) => {
            if *matches {
                None
            } else {
                let mut message = String::from_str("ref type `");
                message.append(elem_type.as_str());
                message.append("` doesn't match ref type `");
                message.append(table_type.as_str());
                message.append("` of table `");
                let name = t.idx.render(idents);
                message.append(name.as_str());
                message.append("`");
                Some(
                    Diagnostic {
                        range: ref_type.range,
                        severity: DiagnosticSeverity::Error,
                        code: String::from_str("elem-type"),
                        message,
                        tags: None,
                        data: None,
                        related_information: None,
                    },
                )
            }
        },
        None => None,
    }
}

/// The reports on the branches of `br_table` among the first `n`
/// immediates after the first: each whose types, as the type analysis
/// resolves them (`None` when it cannot), differ from those of the first.
/// `expected` holds the first's types and how they read.
pub open spec fn br_table_diags(
    imms: Seq<SyntaxNode>,
    branch_types: Seq<Option<(Seq<Seq<char>>, Seq<char>)>>,
    expected: (Seq<Seq<char>>, Seq<char>),
    n: int,
) -> Seq<DiagnosticView>
    decreases n,
{
    if n <= 1 {
        Seq::empty()
    } else {
        br_table_diags(imms, branch_types, expected, n - 1) + if n - 1 < branch_types.len() {
            match branch_types[n - 1] {
                Some((types, text)) => if types != expected.0 {
                    seq![
                        error_diag(
                            imms[n - 1].range,
                            "br-table-branches"@,
                            "type mismatch in `br_table`: expected "@ + expected.1 + ", found "@ + text,
                        ),
                    ]
                } else {
                    Seq::empty()
                },
                None => Seq::empty(),
            }
        } else {
            Seq::empty()
        }
    }
}

/// The reports on `br_table`: `branch_types[k]` gives the types of the
/// label of the `k`-th immediate and how they read; nothing when the
/// instruction is not `br_table` or the first label's types are unknown.
pub open spec fn br_table_branches_diags(
    node: SyntaxNode,
    instr_name: Seq<char>,
    branch_types: Seq<Option<(Seq<Seq<char>>, Seq<char>)>>,
) -> Seq<DiagnosticView> {
    let imms = child_nodes_of(node, SyntaxKind::IMMEDIATE);
    if instr_name != "br_table"@ || imms.len() == 0 || branch_types.len() == 0 {
        Seq::empty()
    } else {
        match branch_types[0] {
            Some(expected) => br_table_diags(imms, branch_types, expected, imms.len() as int),
            None => Seq::empty(),
        }
    }
}

/// The plain view of the branch types.
pub open spec fn branch_views(b: Seq<Option<(Vec<String>, String)>>) -> Seq<Option<(Seq<Seq<char>>, Seq<char>)>> {
    b.map_values(
        |x: Option<(Vec<String>, String)>|
            match x {
                Some((types, text)) => Some((types@.map_values(|s: String| s@), text@)),
                None => None,
            },
    )
}

fn names_eq(a: &Vec<String>, b: &Vec<String>) -> (r: bool)
    ensures
        r == (a@.map_values(|s: String| s@) == b@.map_values(|s: String| s@)),
{
    if a.len() != b.len() {
        assert(a@.map_values(|s: String| s@).len() != b@.map_values(|s: String| s@).len());
        return false;
    }
    let mut i: usize = 0;
    while i < a.len()
        invariant
            i <= a@.len(),
            a@.len() == b@.len(),
            forall|k: int| 0 <= k < i ==> a@[k]@ == b@[k]@,
        decreases a@.len() - i,
    {
        if !str_eq(a[i].as_str(), b[i].as_str()) {
            assert(a@.map_values(|s: String| s@)[i as int] != b@.map_values(|s: String| s@)[i as int]);
            return false;
        }
        i = i + 1;
    }
    assert(a@.map_values(|s: String| s@) =~= b@.map_values(|s: String| s@));
    true
}

/// Checks that every branch of `br_table` expects the types of the first:
/// see `br_table_branches_diags`.
pub fn check_br_table_branches(
    diagnostics: &mut Vec<Diagnostic>,
    node: &SyntaxNode,
    instr_name: &str,
    branch_types: &Vec<Option<(Vec<String>, String)>>,
)
    ensures
        final(diagnostics)@.map_values(|d: Diagnostic| d@) == old(diagnostics)@.map_values(|d: Diagnostic| d@)
            + br_table_branches_diags(*node, instr_name@, branch_views(branch_types@)),
{
    let ghost before = old(diagnostics)@.map_values(|d: Diagnostic| d@);
    let imms = node.children_of_kind(SyntaxKind::IMMEDIATE);
    let ghost all = child_nodes_of(*node, SyntaxKind::IMMEDIATE);
    let ghost bv = branch_views(branch_types@);
    if !str_eq(instr_name, "br_table") || imms.len() == 0 || branch_types.len() == 0 {
        assert(diagnostics@.map_values(|d: Diagnostic| d@) =~= before + Seq::<DiagnosticView>::empty());
        return;
    }
    let (expected, expected_text) = match &branch_types[0] {
        Some(e) => (&e.0, &e.1),
        None => {
            assert(diagnostics@.map_values(|d: Diagnostic| d@) =~= before + Seq::<DiagnosticView>::empty());
            return;
        },
    };
    let ghost ev = bv[0].unwrap();
    let mut k: usize = 1;
    assert(diagnostics@.map_values(|d: Diagnostic| d@) =~= before + br_table_diags(all, bv, ev, 1));
    while k < imms.len()
        invariant
            1 <= k <= imms@.len(),
            imms@.map_values(|n: &SyntaxNode| *n) == all,
            bv == branch_views(branch_types@),
            ev.0 == expected@.map_values(|s: String| s@),
            ev.1 == expected_text@,
            diagnostics@.map_values(|d: Diagnostic| d@) == before + br_table_diags(all, bv, ev, k as int),
        decreases imms@.len() - k,
    {
        let ghost mid = diagnostics@.map_values(|d: Diagnostic| d@);
        if k < branch_types.len() {
            match &branch_types[k] {
                Some((types, text)) => {
                    if !names_eq(types, expected) {
                        let mut message = String::from_str("type mismatch in `br_table`: expected ");
                        message.append(expected_text.as_str());
                        message.append(", found ");
                        message.append(text.as_str());
                        let d = Diagnostic {
                            range: imms[k].range,
                            severity: DiagnosticSeverity::Error,
                            code: String::from_str("br-table-branches"),
                            message,
                            tags: None,
                            data: None,
                            related_information: None,
                        };
                        diagnostics.push(d);
                        assert(diagnostics@.map_values(|d: Diagnostic| d@) =~= mid + seq![d@]);
                    } else {
                        assert(diagnostics@.map_values(|d: Diagnostic| d@) =~= mid + Seq::<DiagnosticView>::empty());
                    }
                },
                None => {
                    assert(diagnostics@.map_values(|d: Diagnostic| d@) =~= mid + Seq::<DiagnosticView>::empty());
                },
            }
        } else {
            assert(diagnostics@.map_values(|d: Diagnostic| d@) =~= mid + Seq::<DiagnosticView>::empty());
        }
        assert(*imms@[k as int] == all[k as int]);
        k = k + 1;
    }
}

} // verus!
verus! {

/// Whether a name ends with a suffix, byte by byte.
pub open spec fn ends_with_text(name: Seq<char>, suffix: Seq<char>) -> bool {
    let b = encode_utf8(name);
    let s = encode_utf8(suffix);
    b.len() >= s.len() && b.subrange(b.len() - s.len(), b.len() as int) == s
}

fn ends_with(name: &str, suffix: &str) -> (r: bool)
    ensures
        r == ends_with_text(name@, suffix@),
{
    let b = name.as_bytes();
    let s = suffix.as_bytes();
    let n = b.len();
    let m = s.len();
    if n < m {
        return false;
    }
    let mut i: usize = 0;
    while i < m
        invariant
            i <= m,
            m <= n,
            n == b@.len(),
            m == s@.len(),
            b@ == encode_utf8(name@),
            s@ == encode_utf8(suffix@),
            forall|k: int| 0 <= k < i ==> b@[n - m + k] == s@[k],
        decreases m - i,
    {
        if b[n - m + i] != s[i] {
            assert(b@.subrange(n - m, n as int)[i as int] != s@[i as int]);
            assert(b@.subrange(n - m, n as int) != s@);
            return false;
        }
        i = i + 1;
    }
    assert(b@.subrange(n - m, n as int) =~= s@);
    true
}

/// What the type analysis tells of the type that `*.new_default` makes: a
/// struct type with the indices of its fields whose types have no default,
/// an array type with whether its element type has none, or another or
/// unknown type.
pub enum DefaultAnswer {
    Struct(Vec<Idx>),
    Array(bool),
    Other,
}

/// The plain view of a default answer.
pub enum DefaultAnswerView {
    Struct(Seq<Idx>),
    Array(bool),
    Other,
}

impl View for DefaultAnswer {
    type V = DefaultAnswerView;

    open spec fn view(&self) -> DefaultAnswerView {
        match self {
            DefaultAnswer::Struct(v) => DefaultAnswerView::Struct(v@),
            DefaultAnswer::Array(b) => DefaultAnswerView::Array(*b),
            DefaultAnswer::Other => DefaultAnswerView::Other,
        }
    }
}

/// Whether a symbol is the field definition with the index in the type
/// definition with the key.
pub open spec fn is_field_of(s: Symbol, def: SymbolKey, idx: Idx) -> bool {
    s.kind == SymbolKind::FieldDef && s.region == def && s.idx == idx
}

/// The first field definition among the first `n` symbols with the index in
/// the type definition.
pub open spec fn field_symbol(symbols: Seq<Symbol>, def: SymbolKey, idx: Idx, n: int) -> Option<Symbol>
    decreases n,
{
    if n <= 0 {
        None
    } else {
        match field_symbol(symbols, def, idx, n - 1) {
            Some(s) => Some(s),
            None => if is_field_of(symbols[n - 1], def, idx) {
                Some(symbols[n - 1])
            } else {
                None
            },
        }
    }
}

/// The notes on the first `n` fields without a default, each at its
/// definition when it is found.
pub open spec fn field_notes(symbols: Seq<Symbol>, def: SymbolKey, fields: Seq<Idx>, idents: Seq<Seq<char>>, n: int) -> Seq<
    (TextRange, Seq<char>),
>
    decreases n,
{
    if n <= 0 {
        Seq::empty()
    } else {
        field_notes(symbols, def, fields, idents, n - 1) + match field_symbol(
            symbols,
            def,
            fields[n - 1],
            symbols.len() as int,
        ) {
            Some(s) => seq![(s.key.0.range, "field type `"@ + render_idx(s.idx, idents) + "` is not defaultable"@)],
            None => Seq::empty(),
        }
    }
}

/// The report on `*.new_default` for a type without a default value.
pub open spec fn new_default_diag(
    table: SymbolTable,
    idents: Seq<Seq<char>>,
    node: SyntaxNode,
    instr_name: Seq<char>,
    answer: DefaultAnswerView,
) -> Option<DiagnosticView> {
    if !ends_with_text(instr_name, ".new_default"@) {
        None
    } else {
        match first_of_kind(node, SyntaxKind::IMMEDIATE) {
            Some(imm) => match table.def_of(key_of(imm)) {
                Some(def) => match answer {
                    DefaultAnswerView::Struct(fields) => if fields.len() == 0 {
                        None
                    } else {
                        Some(
                            DiagnosticView {
                                range: imm.range,
                                severity: DiagnosticSeverity::Error,
                                code: "new-non-defaultable"@,
                                message: "struct type `"@ + render_idx(def.idx, idents) + "` is not defaultable"@,
                                tags: None,
                                related_information: Some(
                                    field_notes(table.symbols@, def.key, fields, idents, fields.len() as int),
                                ),
                                data: None,
                            },
                        )
                    },
                    DefaultAnswerView::Array(non_default) => if non_default {
                        Some(
                            error_diag(
                                imm.range,
                                "new-non-defaultable"@,
                                "array type `"@ + render_idx(def.idx, idents) + "` is not defaultable"@,
                            ),
                        )
                    } else {
                        None
                    },
                    DefaultAnswerView::Other => None,
                },
                None => None,
            },
            None => None,
        }
    }
}

fn find_field<'a>(symbols: &'a [Symbol], def: SymbolKey, idx: Idx) -> (r: Option<&'a Symbol>)
    ensures
        match field_symbol(symbols@, def, idx, symbols@.len() as int) {
            Some(s) => r matches Some(x) && *x == s,
            None => r is None,
        },
{
    let mut i: usize = 0;
    while i < symbols.len()
        invariant
            i <= symbols@.len(),
            field_symbol(symbols@, def, idx, i as int) is None,
        decreases symbols@.len() - i,
    {
        let s = &symbols[i];
        if s.kind == SymbolKind::FieldDef && s.region == def && s.idx == idx {
            proof {
                lemma_field_symbol_stable(symbols@, def, idx, i + 1, symbols@.len() as int);
            }
            return Some(s);
        }
        i = i + 1;
    }
    None
}

proof fn lemma_field_symbol_stable(symbols: Seq<Symbol>, def: SymbolKey, idx: Idx, a: int, n: int)
    requires
        0 <= a <= n,
        field_symbol(symbols, def, idx, a) is Some,
    ensures
        field_symbol(symbols, def, idx, n) == field_symbol(symbols, def, idx, a),
    decreases n - a,
{
    if n > a {
        lemma_field_symbol_stable(symbols, def, idx, a, n - 1);
    }
}

/// Checks that `*.new_default` makes a type with a default value: see
/// `new_default_diag`.
pub fn check_new_non_defaultable(
    table: &SymbolTable,
    idents: &Vec<String>,
    node: &SyntaxNode,
    instr_name: &str,
    answer: &DefaultAnswer,
) -> (r: Option<Diagnostic>)
    requires
        table.wf(),
    ensures
        match new_default_diag(*table, ident_texts(idents@), *node, instr_name@, answer@) {
            Some(d) => r matches Some(x) && x@ == d,
            None => r is None,
        },
{
    if !ends_with(instr_name, ".new_default") {
        return None;
    }
    let imm = match first_child(node, SyntaxKind::IMMEDIATE) {
        Some(i) => i,
        None => return None,
    };
    let def = match table.find_def(SymbolKey(imm.to_ptr())) {
        Some(d) => d,
        None => return None,
    };
    let name = def.idx.render(idents);
    match answer {
        DefaultAnswer::Struct(fields) => {
            if fields.len() == 0 {
                return None;
            }
            let symbols = table.symbols.iter();
            let mut notes: Vec<RelatedInformation> = Vec::new();
            let mut k: usize = 0;
            while k < fields.len()
                invariant
                    k <= fields@.len(),
                    symbols@ == table.symbols@,
                    notes@.map_values(|x: RelatedInformation| x@) == field_notes(
                        table.symbols@,
                        def.key,
                        fields@,
                        ident_texts(idents@),
                        k as int,
                    ),
                decreases fields@.len() - k,
            {
                let ghost before = notes@.map_values(|x: RelatedInformation| x@);
                match find_field(symbols, def.key, fields[k]) {
                    Some(s) => {
                        let mut message = String::from_str("field type `");
                        let field_name = s.idx.render(idents);
                        message.append(field_name.as_str());
                        message.append("` is not defaultable");
                        notes.push(RelatedInformation { range: s.key.0.range, message });
                    },
                    None => {},
                }
                assert(notes@.map_values(|x: RelatedInformation| x@) =~= field_notes(
                    table.symbols@,
                    def.key,
                    fields@,
                    ident_texts(idents@),
                    k + 1,
                ));
                k = k + 1;
            }
            let mut message = String::from_str("struct type `");
            message.append(name.as_str());
            message.append("` is not defaultable");
            Some(
                Diagnostic {
                    range: imm.range,
                    severity: DiagnosticSeverity::Error,
                    code: String::from_str("new-non-defaultable"),
                    message,
                    tags: None,
                    data: None,
                    related_information: Some(notes),
                },
            )
        },
        DefaultAnswer::Array(non_default) => {
            if *non_default {
                let mut message = String::from_str("array type `");
                message.append(name.as_str());
                message.append("` is not defaultable");
                Some(
                    Diagnostic {
                        range: imm.range,
                        severity: DiagnosticSeverity::Error,
                        code: String::from_str("new-non-defaultable"),
                        message,
                        tags: None,
                        data: None,
                        related_information: None,
                    },
                )
            } else {
                None
            }
        },
        DefaultAnswer::Other => None,
    }
}

} // verus!
verus! {

/// Type texts joined with commas.
pub open spec fn join_texts(s: Seq<Seq<char>>, n: int) -> Seq<char>
    decreases n,
{
    if n <= 0 {
        Seq::empty()
    } else if n == 1 {
        s[0]
    } else {
        join_texts(s, n - 1) + ", "@ + s[n - 1]
    }
}

/// Whether a `catch_all` clause has one of its two keywords.
pub open spec fn catch_all_keyword_ok(node: SyntaxNode) -> bool {
    node.kind == SyntaxKind::CATCH_ALL ==> match child_token_of(node, SyntaxKind::KEYWORD) {
        Some(k) => k.text@ == "catch_all"@ || k.text@ == "catch_all_ref"@,
        None => true,
    }
}

/// The label a catch clause branches to and the types it hands over: the
/// tag's params (`tag_params`, from the type analysis), then an exception
/// reference (`exn_ref`, as it reads) for the `_ref` forms.
pub open spec fn catch_target(
    table: SymbolTable,
    node: SyntaxNode,
    tag_params: Seq<Seq<char>>,
    exn_ref: Seq<char>,
) -> Option<(SyntaxNode, Seq<Seq<char>>)> {
    let indexes = child_nodes_of(node, SyntaxKind::INDEX);
    if node.kind == SyntaxKind::CATCH {
        if indexes.len() == 0 || table.def_of(key_of(indexes[0])) is None {
            None
        } else {
            match child_token_of(node, SyntaxKind::KEYWORD) {
                Some(k) => if indexes.len() < 2 {
                    None
                } else {
                    Some((indexes[1], if k.text@ == "catch_ref"@ { tag_params.push(exn_ref) } else { tag_params }))
                },
                None => None,
            }
        }
    } else if node.kind == SyntaxKind::CATCH_ALL {
        match child_token_of(node, SyntaxKind::KEYWORD) {
            Some(k) => if indexes.len() == 0 {
                None
            } else {
                Some((indexes[0], if k.text@ == "catch_all"@ { Seq::empty() } else { seq![exn_ref] }))
            },
            None => None,
        }
    } else {
        None
    }
}

/// The report on a catch clause whose handed over types do not match the
/// result types of its label's block (`matches`, from the type analysis).
pub open spec fn catch_type_diag(
    table: SymbolTable,
    idents: Seq<Seq<char>>,
    node: SyntaxNode,
    tag_params: Seq<Seq<char>>,
    exn_ref: Seq<char>,
    matches: bool,
) -> Option<DiagnosticView> {
    match catch_target(table, node, tag_params, exn_ref) {
        Some((label, results)) => if table.def_of(key_of(label)) is None || matches {
            None
        } else {
            match index_of_key(table.symbols@, key_of(label)) {
                Some(i) => Some(
                    error_diag(
                        label.range,
                        "catch-type"@,
                        "result type ["@ + join_texts(results, results.len() as int)
                            + "] should match result type of block `"@ + render_idx(table.symbols@[i].idx, idents)
                            + "`"@,
                    ),
                ),
                None => None,
            }
        },
        None => None,
    }
}

fn join_names(s: &Vec<String>) -> (r: String)
    ensures
        r@ == join_texts(s@.map_values(|x: String| x@), s@.len() as int),
{
    let ghost v = s@.map_values(|x: String| x@);
    let mut r = String::new();
    let mut i: usize = 0;
    while i < s.len()
        invariant
            i <= s@.len(),
            v == s@.map_values(|x: String| x@),
            r@ == join_texts(v, i as int),
        decreases s@.len() - i,
    {
        if i > 0 {
            r.append(", ");
        }
        r.append(s[i].as_str());
        proof {
            if i == 0 {
                assert(r@ =~= join_texts(v, 1));
            }
        }
        i = i + 1;
    }
    r
}

/// Checks that a catch clause hands its label's block the types it gives:
/// see `catch_type_diag`. `tag_params` are the param types of the clause's
/// tag, `exn_ref` how a non-nullable exception reference reads, and
/// `matches` whether the types handed over match the block's result types.
pub fn check_catch_type(
    table: &SymbolTable,
    idents: &Vec<String>,
    node: &SyntaxNode,
    tag_params: &Vec<String>,
    exn_ref: &str,
    matches: bool,
) -> (r: Option<Diagnostic>)
    requires
        table.wf(),
        catch_all_keyword_ok(*node),
    ensures
        match catch_type_diag(
            *table,
            ident_texts(idents@),
            *node,
            tag_params@.map_values(|x: String| x@),
            exn_ref@,
            matches,
        ) {
            Some(d) => r matches Some(x) && x@ == d,
            None => r is None,
        },
{
    let indexes = node.children_of_kind(SyntaxKind::INDEX);
    let mut results: Vec<String> = Vec::new();
    let label: &SyntaxNode;
    if node.kind == SyntaxKind::CATCH {
        if indexes.len() == 0 || table.find_def(SymbolKey(indexes[0].to_ptr())).is_none() {
            return None;
        }
        let k = match node.token_of_kind(SyntaxKind::KEYWORD) {
            Some(k) => k,
            None => return None,
        };
        if indexes.len() < 2 {
            return None;
        }
        let mut j: usize = 0;
        while j < tag_params.len()
            invariant
                j <= tag_params@.len(),
                results@ == tag_params@.take(j as int),
            decreases tag_params@.len() - j,
        {
            results.push(tag_params[j].clone());
            assert(results@ =~= tag_params@.take(j + 1));
            j = j + 1;
        }
        assert(results@ =~= tag_params@);
        if str_eq(k.text.as_str(), "catch_ref") {
            results.push(String::from_str(exn_ref));
        }
        label = indexes[1];
    } else if node.kind == SyntaxKind::CATCH_ALL {
        let k = match node.token_of_kind(SyntaxKind::KEYWORD) {
            Some(k) => k,
            None => return None,
        };
        if indexes.len() == 0 {
            return None;
        }
        if !str_eq(k.text.as_str(), "catch_all") {
            results.push(String::from_str(exn_ref));
        }
        label = indexes[0];
    } else {
        return None;
    }
    let ghost target = catch_target(*table, *node, tag_params@.map_values(|x: String| x@), exn_ref@);
    assert(target matches Some((l, rs)) && l == *label && rs =~= results@.map_values(|x: String| x@));
    if table.find_def(SymbolKey(label.to_ptr())).is_none() || matches {
        return None;
    }
    let r = match table.symbols.get(SymbolKey(label.to_ptr())) {
        Some(s) => s,
        None => return None,
    };
    let mut message = String::from_str("result type [");
    let joined = join_names(&results);
    message.append(joined.as_str());
    message.append("] should match result type of block `");
    let name = r.idx.render(idents);
    message.append(name.as_str());
    message.append("`");
    Some(
        Diagnostic {
            range: label.range,
            severity: DiagnosticSeverity::Error,
            code: String::from_str("catch-type"),
            message,
            tags: None,
            data: None,
            related_information: None,
        },
    )
}

} // verus!
verus! {

/// A packing report: at the index of the field or array, with a note at
/// the instruction's name on what to use instead.
pub open spec fn packing_report(at: TextRange, message: Seq<char>, name_at: TextRange, hint: Seq<char>) -> DiagnosticView {
    DiagnosticView {
        range: at,
        severity: DiagnosticSeverity::Error,
        code: "packing"@,
        message,
        tags: None,
        related_information: Some(seq![(name_at, hint)]),
        data: None,
    }
}

/// The symbol with the key of a node.
pub open spec fn symbol_at(table: SymbolTable, node: SyntaxNode) -> Option<Symbol> {
    match index_of_key(table.symbols@, key_of(node)) {
        Some(i) => Some(table.symbols@[i]),
        None => None,
    }
}

/// The report on a `get` of a struct field or array element that does not
/// fit its packing: `packed` tells, from the type analysis, whether the
/// field or element type is packed (`None` when it is unknown).
pub open spec fn packing_diag(
    table: SymbolTable,
    idents: Seq<Seq<char>>,
    node: SyntaxNode,
    name: Seq<char>,
    packed: Option<bool>,
) -> Option<DiagnosticView> {
    let imms = child_nodes_of(node, SyntaxKind::IMMEDIATE);
    let is_struct = name == "struct.get"@ || name == "struct.get_s"@ || name == "struct.get_u"@;
    let is_array = name == "array.get"@ || name == "array.get_s"@ || name == "array.get_u"@;
    match child_token_of(node, SyntaxKind::INSTR_NAME) {
        Some(tok) => if is_struct {
            if imms.len() < 2 || table.def_of(key_of(imms[0])) is None {
                None
            } else {
                match (symbol_at(table, imms[1]), packed) {
                    (Some(f), Some(p)) => if name == "struct.get"@ && p {
                        Some(
                            packing_report(
                                f.key.0.range,
                                "field `"@ + render_idx(f.idx, idents) + "` is packed"@,
                                tok.range,
                                "use `struct.get_s` or `struct.get_u` instead"@,
                            ),
                        )
                    } else if name != "struct.get"@ && !p {
                        Some(
                            packing_report(
                                f.key.0.range,
                                "field `"@ + render_idx(f.idx, idents) + "` is unpacked"@,
                                tok.range,
                                "use `struct.get` instead"@,
                            ),
                        )
                    } else {
                        None
                    },
                    _ => None,
                }
            }
        } else if is_array {
            if imms.len() < 1 || table.def_of(key_of(imms[0])) is None {
                None
            } else {
                match (symbol_at(table, imms[0]), packed) {
                    (Some(a), Some(p)) => if name == "array.get"@ && p {
                        Some(
                            packing_report(
                                a.key.0.range,
                                "array `"@ + render_idx(a.idx, idents) + "` is packed"@,
                                tok.range,
                                "use `array.get_s` or `array.get_u` instead"@,
                            ),
                        )
                    } else if name != "array.get"@ && !p {
                        Some(
                            packing_report(
                                a.key.0.range,
                                "array `"@ + render_idx(a.idx, idents) + "` is unpacked"@,
                                tok.range,
                                "use `array.get` instead"@,
                            ),
                        )
                    } else {
                        None
                    },
                    _ => None,
                }
            }
        } else {
            None
        },
        None => None,
    }
}

fn packing_of(at: TextRange, head: &str, name: &String, tail: &str, name_at: TextRange, hint: &str) -> (r: Diagnostic)
    ensures
        r@ == packing_report(at, head@ + name@ + tail@, name_at, hint@),
{
    let mut message = String::from_str(head);
    message.append(name.as_str());
    message.append(tail);
    let related = vec![RelatedInformation { range: name_at, message: String::from_str(hint) }];
    assert(related@.map_values(|x: RelatedInformation| x@) =~= seq![(name_at, hint@)]);
    Diagnostic {
        range: at,
        severity: DiagnosticSeverity::Error,
        code: String::from_str("packing"),
        message,
        tags: None,
        data: None,
        related_information: Some(related),
    }
}

/// Checks that a `get` of a struct field or array element fits the
/// packing of its type: see `packing_diag`.
pub fn check_packing(
    table: &SymbolTable,
    idents: &Vec<String>,
    node: &SyntaxNode,
    name: &str,
    packed: Option<bool>,
) -> (r: Option<Diagnostic>)
    requires
        table.wf(),
    ensures
        match packing_diag(*table, ident_texts(idents@), *node, name@, packed) {
            Some(d) => r matches Some(x) && x@ == d,
            None => r is None,
        },
{
    let tok = match node.token_of_kind(SyntaxKind::INSTR_NAME) {
        Some(t) => t,
        None => return None,
    };
    let imms = node.children_of_kind(SyntaxKind::IMMEDIATE);
    let is_get = str_eq(name, "struct.get");
    let is_struct = is_get || str_eq(name, "struct.get_s") || str_eq(name, "struct.get_u");
    let is_array_get = str_eq(name, "array.get");
    let is_array = is_array_get || str_eq(name, "array.get_s") || str_eq(name, "array.get_u");
    let p = match packed {
        Some(p) => p,
        None => return None,
    };
    if is_struct {
        if imms.len() < 2 || table.find_def(SymbolKey(imms[0].to_ptr())).is_none() {
            return None;
        }
        let f = match table.symbols.get(SymbolKey(imms[1].to_ptr())) {
            Some(f) => f,
            None => return None,
        };
        let field = f.idx.render(idents);
        if is_get && p {
            Some(
                packing_of(
                    f.key.0.range,
                    "field `",
                    &field,
                    "` is packed",
                    tok.range,
                    "use `struct.get_s` or `struct.get_u` instead",
                ),
            )
        } else if !is_get && !p {
            Some(packing_of(f.key.0.range, "field `", &field, "` is unpacked", tok.range, "use `struct.get` instead"))
        } else {
            None
        }
    } else if is_array {
        if imms.len() < 1 || table.find_def(SymbolKey(imms[0].to_ptr())).is_none() {
            return None;
        }
        let a = match table.symbols.get(SymbolKey(imms[0].to_ptr())) {
            Some(a) => a,
            None => return None,
        };
        let array = a.idx.render(idents);
        if is_array_get && p {
            Some(
                packing_of(
                    a.key.0.range,
                    "array `",
                    &array,
                    "` is packed",
                    tok.range,
                    "use `array.get_s` or `array.get_u` instead",
                ),
            )
        } else if !is_array_get && !p {
            Some(packing_of(a.key.0.range, "array `", &array, "` is unpacked", tok.range, "use `array.get` instead"))
        } else {
            None
        }
    } else {
        None
    }
}

} // verus!
