//! The exports of each module.

use crate::binder::{SymbolKey, SymbolTable};
use crate::syntax::{
    child_nodes_of, children_ordered, element_span, node_text, push_node_text, SyntaxElement, SyntaxKind, SyntaxNode, SyntaxNodePtr,
    TextRange,
};
use vstd::prelude::*;

verus! {

/// An export: the definition it exports, its name as written (quotes
/// included) and the range of the name.
pub struct Export {
    pub def_key: SymbolKey,
    pub name: String,
    pub range: TextRange,
}

impl View for Export {
    type V = (SymbolKey, Seq<char>, TextRange);

    open spec fn view(&self) -> (SymbolKey, Seq<char>, TextRange) {
        (self.def_key, self.name@, self.range)
    }
}

/// Kinds of the index part of an export field.
pub open spec fn extern_idx_kind(kind: SyntaxKind) -> bool {
    match kind {
        SyntaxKind::EXTERN_IDX_FUNC | SyntaxKind::EXTERN_IDX_TABLE | SyntaxKind::EXTERN_IDX_MEMORY
        | SyntaxKind::EXTERN_IDX_GLOBAL | SyntaxKind::EXTERN_IDX_TAG => true,
        _ => false,
    }
}

/// The first child node, among the first `n`, of an extern index kind.
pub open spec fn first_extern_idx(children: Seq<SyntaxElement>, n: int) -> Option<SyntaxNode>
    decreases n,
{
    if n <= 0 {
        None
    } else {
        match first_extern_idx(children, n - 1) {
            Some(x) => Some(x),
            None => match children[n - 1] {
                SyntaxElement::Node(c) => if extern_idx_kind(c.kind) {
                    Some(c)
                } else {
                    None
                },
                _ => None,
            },
        }
    }
}

/// The first child node of a kind.
pub open spec fn first_child_of(node: SyntaxNode, kind: SyntaxKind) -> Option<SyntaxNode> {
    let all = child_nodes_of(node, kind);
    if all.len() > 0 {
        Some(all[0])
    } else {
        None
    }
}

/// What a module field exports: an export field names the definition that
/// its index resolves to (nothing if it does not resolve); any other field
/// with an inline export exports itself. The name is the text of the
/// field's or the inline export's name node.
pub open spec fn field_export(t: SymbolTable, field: SyntaxNode) -> Option<(SymbolKey, Seq<char>, TextRange)> {
    if field.kind == SyntaxKind::MODULE_FIELD_EXPORT {
        match first_child_of(field, SyntaxKind::NAME) {
            None => None,
            Some(name) => match first_extern_idx(field.children@, field.children@.len() as int) {
                None => None,
                Some(extern_idx) => match first_child_of(extern_idx, SyntaxKind::INDEX) {
                    None => None,
                    Some(index) => match t.def_of(SymbolKey(SyntaxNodePtr { kind: index.kind, range: index.range })) {
                        Some(def) => Some((def.key, node_text(name), name.range)),
                        None => None,
                    },
                },
            },
        }
    } else {
        match first_child_of(field, SyntaxKind::EXPORT) {
            None => None,
            Some(export) => match first_child_of(export, SyntaxKind::NAME) {
                Some(name) => Some(
                    (SymbolKey(SyntaxNodePtr { kind: field.kind, range: field.range }), node_text(name), name.range),
                ),
                None => None,
            },
        }
    }
}

/// The exports of the first `n` child nodes of a module, in order.
pub open spec fn module_exports(t: SymbolTable, module: SyntaxNode, n: int) -> Seq<(SymbolKey, Seq<char>, TextRange)>
    decreases n,
{
    if n <= 0 {
        Seq::empty()
    } else {
        module_exports(t, module, n - 1) + match module.children@[n - 1] {
            SyntaxElement::Node(c) => match field_export(t, c) {
                Some(e) => seq![e],
                None => Seq::empty(),
            },
            _ => Seq::empty(),
        }
    }
}

/// The exports of the first `n` modules of the root, each with the pointer
/// to its module.
pub open spec fn root_exports(t: SymbolTable, root: SyntaxNode, n: int) -> Seq<(SyntaxNodePtr, Seq<(SymbolKey, Seq<char>, TextRange)>)>
    decreases n,
{
    if n <= 0 {
        Seq::empty()
    } else {
        root_exports(t, root, n - 1) + match root.children@[n - 1] {
            SyntaxElement::Node(m) => seq![
                (
                    SyntaxNodePtr { kind: m.kind, range: m.range },
                    module_exports(t, m, m.children@.len() as int),
                ),
            ],
            _ => Seq::empty(),
        }
    }
}

/// The views of the exports of each module.
pub open spec fn exports_views(v: Seq<(SyntaxNodePtr, Vec<Export>)>) -> Seq<(SyntaxNodePtr, Seq<(SymbolKey, Seq<char>, TextRange)>)> {
    v.map_values(|e: (SyntaxNodePtr, Vec<Export>)| (e.0, e.1@.map_values(|x: Export| x@)))
}

fn first_child<'a>(node: &'a SyntaxNode, kind: SyntaxKind) -> (r: Option<&'a SyntaxNode>)
    ensures
        match first_child_of(*node, kind) {
            Some(c) => r matches Some(x) && *x == c,
            None => r is None,
        },
{
    node.child_of_kind(kind)
}

fn first_extern_idx_of(node: &SyntaxNode) -> (r: Option<&SyntaxNode>)
    ensures
        match first_extern_idx(node.children@, node.children@.len() as int) {
            Some(c) => r matches Some(x) && *x == c,
            None => r is None,
        },
{
    let mut i: usize = 0;
    while i < node.children.len()
        invariant
            i <= node.children@.len(),
            first_extern_idx(node.children@, i as int) is None,
        decreases node.children@.len() - i,
    {
        match &node.children[i] {
            SyntaxElement::Node(c) => {
                let k = c.kind;
                if k == SyntaxKind::EXTERN_IDX_FUNC || k == SyntaxKind::EXTERN_IDX_TABLE || k
                    == SyntaxKind::EXTERN_IDX_MEMORY || k == SyntaxKind::EXTERN_IDX_GLOBAL || k
                    == SyntaxKind::EXTERN_IDX_TAG {
                    proof {
                        assert(first_extern_idx(node.children@, i + 1) == Some(*c));
                        lemma_first_extern_idx_stable(node.children@, i + 1, node.children@.len() as int);
                    }
                    return Some(c);
                }
            },
            SyntaxElement::Token(_) => {},
        }
        i = i + 1;
    }
    None
}

proof fn lemma_first_extern_idx_stable(children: Seq<SyntaxElement>, a: int, n: int)
    requires
        0 <= a <= n,
        first_extern_idx(children, a) is Some,
    ensures
        first_extern_idx(children, n) == first_extern_idx(children, a),
    decreases n - a,
{
    if n > a {
        lemma_first_extern_idx_stable(children, a, n - 1);
    }
}

fn export_of(symbol_table: &SymbolTable, field: &SyntaxNode) -> (r: Option<Export>)
    requires
        symbol_table.wf(),
    ensures
        match field_export(*symbol_table, *field) {
            Some(e) => r matches Some(x) && x@ == e,
            None => r is None,
        },
{
    if field.kind == SyntaxKind::MODULE_FIELD_EXPORT {
        let name = match first_child(field, SyntaxKind::NAME) {
            Some(n) => n,
            None => return None,
        };
        let extern_idx = match first_extern_idx_of(field) {
            Some(e) => e,
            None => return None,
        };
        let index = match first_child(extern_idx, SyntaxKind::INDEX) {
            Some(i) => i,
            None => return None,
        };
        match symbol_table.find_def(SymbolKey(SyntaxNodePtr { kind: index.kind, range: index.range })) {
            Some(def) => {
                let mut text = String::new();
                push_node_text(&mut text, name);
                Some(Export { def_key: def.key, name: text, range: name.range })
            },
            None => None,
        }
    } else {
        let export = match first_child(field, SyntaxKind::EXPORT) {
            Some(e) => e,
            None => return None,
        };
        match first_child(export, SyntaxKind::NAME) {
            Some(name) => {
                let mut text = String::new();
                push_node_text(&mut text, name);
                Some(
                    Export {
                        def_key: SymbolKey(SyntaxNodePtr { kind: field.kind, range: field.range }),
                        name: text,
                        range: name.range,
                    },
                )
            },
            None => None,
        }
    }
}

/// The exports of each module of a document, in order, with the pointer to
/// the module: see `field_export`.
pub fn get_exports(symbol_table: &SymbolTable, root: &SyntaxNode) -> (r: Vec<(SyntaxNodePtr, Vec<Export>)>)
    requires
        symbol_table.wf(),
    ensures
        exports_views(r@) == root_exports(*symbol_table, *root, root.children@.len() as int),
{
    let mut out: Vec<(SyntaxNodePtr, Vec<Export>)> = Vec::new();
    let mut i: usize = 0;
    while i < root.children.len()
        invariant
            symbol_table.wf(),
            i <= root.children@.len(),
            exports_views(out@) == root_exports(*symbol_table, *root, i as int),
        decreases root.children@.len() - i,
    {
        let ghost before = out@;
        match &root.children[i] {
            SyntaxElement::Node(m) => {
                let mut exports: Vec<Export> = Vec::new();
                let mut j: usize = 0;
                while j < m.children.len()
                    invariant
                        symbol_table.wf(),
                        j <= m.children@.len(),
                        exports@.map_values(|x: Export| x@) == module_exports(*symbol_table, *m, j as int),
                    decreases m.children@.len() - j,
                {
                    let ghost prev = exports@;
                    match &m.children[j] {
                        SyntaxElement::Node(c) => match export_of(symbol_table, c) {
                            Some(e) => {
                                exports.push(e);
                                assert(exports@.map_values(|x: Export| x@) =~= prev.map_values(|x: Export| x@).push(e@));
                            },
                            None => {},
                        },
                        SyntaxElement::Token(_) => {},
                    }
                    assert(exports@.map_values(|x: Export| x@) =~= module_exports(*symbol_table, *m, j + 1));
                    j = j + 1;
                }
                let entry = (SyntaxNodePtr { kind: m.kind, range: m.range }, exports);
                out.push(entry);
                assert(exports_views(out@) =~= exports_views(before).push((entry.0, entry.1@.map_values(|x: Export| x@))));
            },
            SyntaxElement::Token(_) => {},
        }
        assert(exports_views(out@) =~= root_exports(*symbol_table, *root, i + 1));
        i = i + 1;
    }
    out
}


/// Whether child `i` of the root is a node with the pointer.
pub open spec fn child_has_ptr(root: SyntaxNode, i: int, p: SyntaxNodePtr) -> bool {
    root.children@[i] matches SyntaxElement::Node(m) && p == (SyntaxNodePtr { kind: m.kind, range: m.range })
}

/// Each entry of the exports of the first `n` children comes from one of
/// those children.
proof fn lemma_export_entry_from_child(t: SymbolTable, root: SyntaxNode, n: int, j: int)
    requires
        0 <= n <= root.children@.len(),
        0 <= j < root_exports(t, root, n).len(),
    ensures
        exists|i: int| 0 <= i < n && #[trigger] child_has_ptr(root, i, root_exports(t, root, n)[j].0),
    decreases n,
{
    let prev = root_exports(t, root, n - 1);
    if j < prev.len() {
        lemma_export_entry_from_child(t, root, n - 1, j);
        let i = choose|i: int| 0 <= i < n - 1 && #[trigger] child_has_ptr(root, i, prev[j].0);
        assert(root_exports(t, root, n)[j] == prev[j]);
        assert(0 <= i < n && child_has_ptr(root, i, root_exports(t, root, n)[j].0));
    } else {
        assert(child_has_ptr(root, n - 1, root_exports(t, root, n)[j].0));
    }
}

/// Each module of a document has one entry of exports, when the modules
/// come in text order and none is empty.
pub proof fn law_export_modules_distinct(t: SymbolTable, root: SyntaxNode)
    requires
        children_ordered(root),
        forall|i: int|
            0 <= i < root.children@.len() ==> (#[trigger] element_span(root.children@[i])).start < element_span(
                root.children@[i],
            ).end,
    ensures
        forall|a: int, b: int|
            0 <= a < b < root_exports(t, root, root.children@.len() as int).len() ==> (#[trigger] root_exports(
                t,
                root,
                root.children@.len() as int,
            )[a]).0 != (#[trigger] root_exports(t, root, root.children@.len() as int)[b]).0,
{
    lemma_distinct_upto(t, root, root.children@.len() as int);
}

proof fn lemma_distinct_upto(t: SymbolTable, root: SyntaxNode, n: int)
    requires
        0 <= n <= root.children@.len(),
        children_ordered(root),
        forall|i: int|
            0 <= i < root.children@.len() ==> (#[trigger] element_span(root.children@[i])).start < element_span(
                root.children@[i],
            ).end,
    ensures
        forall|a: int, b: int|
            0 <= a < b < root_exports(t, root, n).len() ==> (#[trigger] root_exports(t, root, n)[a]).0 != (
            #[trigger] root_exports(t, root, n)[b]).0,
    decreases n,
{
    if n > 0 {
        lemma_distinct_upto(t, root, n - 1);
        let prev = root_exports(t, root, n - 1);
        let r = root_exports(t, root, n);
        assert forall|a: int, b: int| 0 <= a < b < r.len() implies (#[trigger] r[a]).0 != (#[trigger] r[b]).0 by {
            if b < prev.len() {
                assert(r[a] == prev[a] && r[b] == prev[b]);
            } else {
                assert(r[a] == prev[a]);
                lemma_export_entry_from_child(t, root, n - 1, a);
                let i = choose|i: int| 0 <= i < n - 1 && #[trigger] child_has_ptr(root, i, prev[a].0);
                assert(child_has_ptr(root, n - 1, r[b].0));
                assert(element_span(root.children@[i]).end <= element_span(root.children@[n - 1]).start);
                assert(element_span(root.children@[i]).start < element_span(root.children@[i]).end);
            }
        }
    }
}

} // verus!
