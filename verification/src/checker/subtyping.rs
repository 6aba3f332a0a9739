//! Declared super types: a super type must come earlier, must not be
//! final, and must match the type that inherits from it.
//!
//! The type definitions, with their super types and whether each matches
//! its super type, come from the type analysis, as arguments in its order.

use super::def_type::error_diag;
use super::mutation::symbol_with;
use super::{diag_views, Diagnostic, DiagnosticSeverity, DiagnosticView};
use crate::binder::{SymbolKey, SymbolTable};
use crate::idx::{ident_texts, render_idx, Idx};
use crate::syntax::{child_nodes_of, locate, locate_node, SyntaxElement, SyntaxKind, SyntaxNode, TextRange};
use vstd::prelude::*;

verus! {

/// A type definition as the type analysis sees it: its key and index, the
/// key of the type it inherits from, whether it is final, and whether its
/// composite type matches that of its super type.
#[derive(Clone, Copy)]
pub struct DefTypeFacts {
    pub key: SymbolKey,
    pub idx: Idx,
    pub inherits: Option<SymbolKey>,
    pub is_final: bool,
    pub matches_super: bool,
}

/// The first entry with the key among the first `n`.
pub open spec fn facts_of(types: Seq<DefTypeFacts>, key: SymbolKey, n: int) -> Option<DefTypeFacts>
    decreases n,
{
    if n <= 0 {
        None
    } else {
        match facts_of(types, key, n - 1) {
            Some(f) => Some(f),
            None => if types[n - 1].key == key {
                Some(types[n - 1])
            } else {
                None
            },
        }
    }
}

/// The range of the index in the `sub` clause of the node a key names.
pub open spec fn sub_index_range(root: SyntaxNode, key: SymbolKey) -> Option<TextRange> {
    match locate(root, key.0) {
        Some((p, i)) => match p.children@[i] {
            SyntaxElement::Node(c) => {
                let subs = child_nodes_of(c, SyntaxKind::SUB_TYPE);
                if subs.len() > 0 {
                    let idxs = child_nodes_of(subs[0], SyntaxKind::INDEX);
                    if idxs.len() > 0 {
                        Some(idxs[0].range)
                    } else {
                        None
                    }
                } else {
                    None
                }
            },
            _ => None,
        },
        None => None,
    }
}

/// What is wrong with a type definition's super type, if anything.
pub open spec fn subtype_message(sub: DefTypeFacts, sup: DefTypeFacts, idents: Seq<Seq<char>>) -> Option<Seq<char>> {
    let sup_name = render_idx(sup.idx, idents);
    let sub_name = render_idx(sub.idx, idents);
    if sup.idx.num is Some && sub.idx.num is Some && sup.idx.num.unwrap() >= sub.idx.num.unwrap() {
        Some("typeidx of super type `"@ + sup_name + "` must be smaller than type `"@ + sub_name + "`"@)
    } else if sup.is_final {
        Some("type `"@ + sup_name + "` is final"@)
    } else if !sub.matches_super {
        Some("type of `"@ + sub_name + "` doesn't match its super type `"@ + sup_name + "`"@)
    } else {
        None
    }
}

/// The report on one type definition.
pub open spec fn subtype_diag(
    table: SymbolTable,
    root: SyntaxNode,
    idents: Seq<Seq<char>>,
    types: Seq<DefTypeFacts>,
    sub: DefTypeFacts,
) -> Option<DiagnosticView> {
    match sub.inherits {
        Some(sk) => match facts_of(types, sk, types.len() as int) {
            Some(sup) => match symbol_with(table, sub.key) {
                Some(def) => match symbol_with(table, def.region) {
                    Some(m) => if m.idx.num is Some {
                        match subtype_message(sub, sup, idents) {
                            Some(message) => match sub_index_range(root, def.key) {
                                Some(r) => Some(error_diag(r, "subtyping"@, message)),
                                None => None,
                            },
                            None => None,
                        }
                    } else {
                        None
                    },
                    None => None,
                },
                None => None,
            },
            None => None,
        },
        None => None,
    }
}

/// The reports on the first `n` type definitions.
pub open spec fn subtyping_diags(
    table: SymbolTable,
    root: SyntaxNode,
    idents: Seq<Seq<char>>,
    types: Seq<DefTypeFacts>,
    n: int,
) -> Seq<DiagnosticView>
    decreases n,
{
    if n <= 0 {
        Seq::empty()
    } else {
        subtyping_diags(table, root, idents, types, n - 1) + match subtype_diag(table, root, idents, types, types[n - 1]) {
            Some(d) => seq![d],
            None => Seq::empty(),
        }
    }
}

proof fn lemma_facts_stable(types: Seq<DefTypeFacts>, key: SymbolKey, a: int, n: int)
    requires
        0 <= a <= n,
        facts_of(types, key, a) is Some,
    ensures
        facts_of(types, key, n) == facts_of(types, key, a),
    decreases n - a,
{
    if n > a {
        lemma_facts_stable(types, key, a, n - 1);
    }
}

fn find_facts(types: &Vec<DefTypeFacts>, key: SymbolKey) -> (r: Option<DefTypeFacts>)
    ensures
        r == facts_of(types@, key, types@.len() as int),
{
    let mut i: usize = 0;
    while i < types.len()
        invariant
            i <= types@.len(),
            facts_of(types@, key, i as int) is None,
        decreases types@.len() - i,
    {
        if types[i].key == key {
            proof {
                lemma_facts_stable(types@, key, i + 1, types@.len() as int);
            }
            return Some(types[i]);
        }
        i = i + 1;
    }
    None
}

fn find_sub_index(root: &SyntaxNode, key: SymbolKey) -> (r: Option<TextRange>)
    ensures
        r == sub_index_range(*root, key),
{
    match locate_node(root, key.0) {
        Some((p, i)) => match &p.children[i] {
            SyntaxElement::Node(c) => match c.child_of_kind(SyntaxKind::SUB_TYPE) {
                Some(s) => match s.child_of_kind(SyntaxKind::INDEX) {
                    Some(x) => Some(x.range),
                    None => None,
                },
                None => None,
            },
            _ => None,
        },
        None => None,
    }
}

fn message_of(sub: &DefTypeFacts, sup: &DefTypeFacts, idents: &Vec<String>) -> (r: Option<String>)
    ensures
        match subtype_message(*sub, *sup, ident_texts(idents@)) {
            Some(m) => r matches Some(x) && x@ == m,
            None => r is None,
        },
{
    let sup_name = sup.idx.render(idents);
    let sub_name = sub.idx.render(idents);
    let too_late = match (sup.idx.num, sub.idx.num) {
        (Some(a), Some(b)) => a >= b,
        _ => false,
    };
    if too_late {
        let mut m = String::from_str("typeidx of super type `");
        m.append(sup_name.as_str());
        m.append("` must be smaller than type `");
        m.append(sub_name.as_str());
        m.append("`");
        Some(m)
    } else if sup.is_final {
        let mut m = String::from_str("type `");
        m.append(sup_name.as_str());
        m.append("` is final");
        Some(m)
    } else if !sub.matches_super {
        let mut m = String::from_str("type of `");
        m.append(sub_name.as_str());
        m.append("` doesn't match its super type `");
        m.append(sup_name.as_str());
        m.append("`");
        Some(m)
    } else {
        None
    }
}

/// Checks the super type of each type definition: see `subtyping_diags`.
/// `root` is the document's tree, where each definition's `sub` clause is
/// found.
pub fn check_subtyping(
    diagnostics: &mut Vec<Diagnostic>,
    table: &SymbolTable,
    root: &SyntaxNode,
    idents: &Vec<String>,
    types: &Vec<DefTypeFacts>,
)
    requires
        table.wf(),
    ensures
        diag_views(final(diagnostics)@) == diag_views(old(diagnostics)@) + subtyping_diags(
            *table,
            *root,
            ident_texts(idents@),
            types@,
            types@.len() as int,
        ),
{
    let ghost ids = ident_texts(idents@);
    let mut i: usize = 0;
    while i < types.len()
        invariant
            i <= types@.len(),
            table.wf(),
            ids == ident_texts(idents@),
            diag_views(diagnostics@) == diag_views(old(diagnostics)@) + subtyping_diags(
                *table,
                *root,
                ids,
                types@,
                i as int,
            ),
        decreases types@.len() - i,
    {
        let sub = types[i];
        let ghost before = diag_views(diagnostics@);
        let ghost expect = subtype_diag(*table, *root, ids, types@, sub);
        let mut found: Option<Diagnostic> = None;
        match sub.inherits {
            Some(sk) => match find_facts(types, sk) {
                Some(sup) => match table.symbols.get(sub.key) {
                    Some(def) => match table.symbols.get(def.region) {
                        Some(m) => {
                            if m.idx.num.is_some() {
                                match message_of(&sub, &sup, idents) {
                                    Some(message) => match find_sub_index(root, def.key) {
                                        Some(r) => {
                                            found = Some(
                                                Diagnostic {
                                                    range: r,
                                                    severity: DiagnosticSeverity::Error,
                                                    code: String::from_str("subtyping"),
                                                    message,
                                                    tags: None,
                                                    data: None,
                                                    related_information: None,
                                                },
                                            );
                                        },
                                        None => {},
                                    },
                                    None => {},
                                }
                            }
                        },
                        None => {},
                    },
                    None => {},
                },
                None => {},
            },
            None => {},
        }
        match found {
            Some(d) => {
                assert(expect == Some(d@));
                diagnostics.push(d);
                assert(diag_views(diagnostics@) =~= before + seq![d@]);
            },
            None => {
                assert(expect is None);
                assert(diag_views(diagnostics@) =~= before + Seq::<DiagnosticView>::empty());
            },
        }
        assert(types@[i as int] == sub);
        assert(diag_views(diagnostics@) =~= diag_views(old(diagnostics)@) + subtyping_diags(
            *table,
            *root,
            ids,
            types@,
            i + 1,
        ));
        i = i + 1;
    }
}

} // verus!
