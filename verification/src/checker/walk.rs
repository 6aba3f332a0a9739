//! Running the checkers over a document: which checker runs on which node,
//! under which lint level, and in what order the reports come.

use super::const_expr::{const_expr_diag, name_texts};
use super::import_occur::late_imports;
use super::order::{in_order, sort_diagnostics};
use super::import_with_def::import_with_def_diag;
use super::lane::{has_zero_lane_width, lane_diags, zero_lane_width};
use super::limits::{mem_type_diags, table_type_diags, AddrType};
use super::mem_arg::mem_arg_diags;
use super::omitted_idx::omitted_idx_diag;
use super::plain_instr::plain_instr_diags;
use super::structure::{implicit_module_diag, multi_modules_diags, multi_starts_diags, needless_try_table_diag};
use super::syntax::syntax_diag;
use super::useless_catch::useless_catch_diags;
use super::{
    const_expr, diag_views, import_occur, import_with_def, lane, limits, mem_arg, omitted_idx, plain_instr, structure,
    syntax, useless_catch, Diagnostic, DiagnosticView,
};
use crate::binder::{SymbolKey, SymbolTable};
use crate::config::{LintLevel, Lints};
use crate::document::{error_views, Document};
use crate::idx::ident_texts;
use crate::syntax::{child_nodes, child_token_of, SyntaxElement, SyntaxKind, SyntaxNode, SyntaxNodePtr, TextRange};
use vstd::prelude::*;

verus! {

/// What the checkers read besides the tree: the lint levels, the symbol
/// table with its identifier texts, the keys of the imported definitions,
/// the names of the constant instructions, the keys of the memories whose
/// addresses are `i32`, and the memory and table types whose addresses are
/// `i64`.
pub struct CheckContext<'a> {
    pub lints: Lints,
    pub omitted_idx_in_instr: LintLevel,
    pub table: &'a SymbolTable,
    pub idents: &'a Vec<String>,
    pub imports: &'a Vec<SymbolKey>,
    pub const_instrs: &'a Vec<String>,
    pub i32_memories: &'a Vec<SymbolKey>,
    pub i64_types: &'a Vec<SyntaxNodePtr>,
}

/// A report, as a sequence of at most one.
pub open spec fn opt_diag(d: Option<DiagnosticView>) -> Seq<DiagnosticView> {
    match d {
        Some(x) => seq![x],
        None => Seq::empty(),
    }
}

/// The address type of a memory or table type node.
pub open spec fn addr_type_of(ctx: CheckContext, node: SyntaxNode) -> AddrType {
    if ctx.i64_types@.contains(SyntaxNodePtr { kind: node.kind, range: node.range }) {
        AddrType::I64
    } else {
        AddrType::I32
    }
}

/// Kinds of nodes whose children no checker looks at.
pub open spec fn is_leaf_kind(kind: SyntaxKind) -> bool {
    kind == SyntaxKind::IMMEDIATE || kind == SyntaxKind::FUNC_TYPE || kind == SyntaxKind::STRUCT_TYPE || kind
        == SyntaxKind::ARRAY_TYPE || kind == SyntaxKind::TYPE_USE || kind == SyntaxKind::LOCAL || kind
        == SyntaxKind::IMPORT || kind == SyntaxKind::EXPORT || kind == SyntaxKind::GLOBAL_TYPE || kind
        == SyntaxKind::MODULE_FIELD_EXPORT
}

/// The reports of the checkers that run on one node of the module with the
/// key `module`, in the order they run.
pub open spec fn node_checks(ctx: CheckContext, module: SymbolKey, node: SyntaxNode) -> Seq<DiagnosticView> {
    let consts = name_texts(ctx.const_instrs@);
    let with_def = opt_diag(import_with_def_diag(ctx.imports@, node));
    if node.kind == SyntaxKind::MODULE_FIELD_FUNC || node.kind == SyntaxKind::MODULE_FIELD_MEMORY || node.kind
        == SyntaxKind::MODULE_FIELD_TAG {
        with_def
    } else if node.kind == SyntaxKind::MODULE_FIELD_GLOBAL || node.kind == SyntaxKind::MODULE_FIELD_TABLE {
        opt_diag(const_expr_diag(node, consts)) + with_def
    } else if node.kind == SyntaxKind::PLAIN_INSTR {
        match child_token_of(node, SyntaxKind::INSTR_NAME) {
            Some(t) => plain_instr_diags(node, t) + mem_arg_diags(
                *ctx.table,
                ident_texts(ctx.idents@),
                module,
                ctx.i32_memories@,
                node,
                t.text@,
            ) + lane_diags(node, t.text@) + opt_diag(omitted_idx_diag(ctx.omitted_idx_in_instr, node)),
            None => Seq::empty(),
        }
    } else if node.kind == SyntaxKind::MEM_TYPE {
        mem_type_diags(node, addr_type_of(ctx, node))
    } else if node.kind == SyntaxKind::TABLE_TYPE {
        table_type_diags(node, addr_type_of(ctx, node))
    } else if node.kind == SyntaxKind::OFFSET || node.kind == SyntaxKind::ELEM_EXPR {
        opt_diag(const_expr_diag(node, consts))
    } else if node.kind == SyntaxKind::BLOCK_TRY_TABLE {
        opt_diag(needless_try_table_diag(ctx.lints.needless_try_table, node)) + useless_catch_diags(
            *ctx.table,
            ctx.lints.useless_catch,
            node,
        )
    } else {
        Seq::empty()
    }
}

/// The reports on a node and, unless its kind is a leaf kind, on the nodes
/// below it, in document order.
pub open spec fn walk_diags(ctx: CheckContext, module: SymbolKey, node: SyntaxNode) -> Seq<DiagnosticView>
    decreases node, 1int,
{
    node_checks(ctx, module, node) + if is_leaf_kind(node.kind) {
        Seq::empty()
    } else {
        walk_children(ctx, module, node.children@, node.children@.len() as int)
    }
}

/// The reports on the nodes among the first `n` children and below them.
pub open spec fn walk_children(ctx: CheckContext, module: SymbolKey, children: Seq<SyntaxElement>, n: int) -> Seq<
    DiagnosticView,
>
    decreases children, n,
{
    if n <= 0 || n > children.len() {
        Seq::empty()
    } else {
        walk_children(ctx, module, children, n - 1) + match children[n - 1] {
            SyntaxElement::Node(c) => walk_diags(ctx, module, c),
            SyntaxElement::Token(_) => Seq::empty(),
        }
    }
}

/// Whether no instruction the walk reaches names a `v128` lane access of
/// width zero, on which the lane check would divide by zero.
pub open spec fn lanes_ok(node: SyntaxNode) -> bool
    decreases node, 1int,
{
    &&& (node.kind == SyntaxKind::PLAIN_INSTR ==> match child_token_of(node, SyntaxKind::INSTR_NAME) {
        Some(t) => !zero_lane_width(t.text@),
        None => true,
    })
    &&& (!is_leaf_kind(node.kind) ==> children_lanes_ok(node.children@, node.children@.len() as int))
}

/// `lanes_ok` for the nodes among the first `n` children.
pub open spec fn children_lanes_ok(children: Seq<SyntaxElement>, n: int) -> bool
    decreases children, n,
{
    if n <= 0 || n > children.len() {
        true
    } else {
        children_lanes_ok(children, n - 1) && match children[n - 1] {
            SyntaxElement::Node(c) => lanes_ok(c),
            SyntaxElement::Token(_) => true,
        }
    }
}

/// The key of a node.
pub open spec fn key_of(node: SyntaxNode) -> SymbolKey {
    SymbolKey(SyntaxNodePtr { kind: node.kind, range: node.range })
}

/// The reports on one module: a module written without `(module ...)`, the
/// nodes below it, more than one start function, and imports after other
/// fields.
pub open spec fn module_checks(ctx: CheckContext, module: SyntaxNode) -> Seq<DiagnosticView> {
    opt_diag(implicit_module_diag(ctx.lints.implicit_module, module)) + walk_children(
        ctx,
        key_of(module),
        module.children@,
        module.children@.len() as int,
    ) + multi_starts_diags(module) + late_imports(ctx.imports@, child_nodes(module), child_nodes(module).len() as int)
}

/// The reports on the modules among the first `n` children of the root.
pub open spec fn modules_checks(ctx: CheckContext, children: Seq<SyntaxElement>, n: int) -> Seq<DiagnosticView>
    decreases n,
{
    if n <= 0 || n > children.len() {
        Seq::empty()
    } else {
        modules_checks(ctx, children, n - 1) + match children[n - 1] {
            SyntaxElement::Node(m) => module_checks(ctx, m),
            SyntaxElement::Token(_) => Seq::empty(),
        }
    }
}

/// Whether `lanes_ok` holds of the nodes the walk of each module reaches.
pub open spec fn modules_lanes_ok(children: Seq<SyntaxElement>) -> bool {
    forall|i: int|
        0 <= i < children.len() ==> match #[trigger] children[i] {
            SyntaxElement::Node(m) => children_lanes_ok(m.children@, m.children@.len() as int),
            SyntaxElement::Token(_) => true,
        }
}

/// The reports of the syntax errors and of the checkers that walk the tree
/// of a document, in the order they run.
pub open spec fn document_checks(ctx: CheckContext, document: Document) -> Seq<DiagnosticView> {
    let root = document.root;
    error_views(document.syntax_errors@).map_values(|e: (TextRange, Seq<char>, Option<Seq<char>>)| syntax_diag(e))
        + multi_modules_diags(ctx.lints.multi_modules, root) + modules_checks(
        ctx,
        root.children@,
        root.children@.len() as int,
    )
}

fn opt_push(diagnostics: &mut Vec<Diagnostic>, d: Option<Diagnostic>)
    ensures
        diag_views(final(diagnostics)@) == diag_views(old(diagnostics)@) + opt_diag(
            match d {
                Some(x) => Some(x@),
                None => None,
            },
        ),
{
    let ghost before = diag_views(diagnostics@);
    match d {
        Some(x) => {
            diagnostics.push(x);
            assert(diag_views(diagnostics@) =~= before + seq![x@]);
        },
        None => {
            assert(before + Seq::<DiagnosticView>::empty() =~= before);
        },
    }
}

fn addr_type(ctx: &CheckContext, node: &SyntaxNode) -> (r: AddrType)
    ensures
        r == addr_type_of(*ctx, *node),
{
    let p = node.to_ptr();
    let mut i: usize = 0;
    while i < ctx.i64_types.len()
        invariant
            i <= ctx.i64_types@.len(),
            p == (SyntaxNodePtr { kind: node.kind, range: node.range }),
            forall|j: int| 0 <= j < i ==> ctx.i64_types@[j] != p,
        decreases ctx.i64_types@.len() - i,
    {
        if ctx.i64_types[i] == p {
            assert(ctx.i64_types@[i as int] == p);
            return AddrType::I64;
        }
        i = i + 1;
    }
    AddrType::I32
}

/// Runs the checkers that apply to one node.
fn check_node(diagnostics: &mut Vec<Diagnostic>, ctx: &CheckContext, module: SymbolKey, node: &SyntaxNode)
    requires
        ctx.table.wf(),
        node.kind == SyntaxKind::PLAIN_INSTR ==> match child_token_of(*node, SyntaxKind::INSTR_NAME) {
            Some(t) => !zero_lane_width(t.text@),
            None => true,
        },
    ensures
        diag_views(final(diagnostics)@) == diag_views(old(diagnostics)@) + node_checks(*ctx, module, *node),
{
    let ghost before = diag_views(diagnostics@);
    let k = node.kind;
    if k == SyntaxKind::MODULE_FIELD_FUNC || k == SyntaxKind::MODULE_FIELD_MEMORY || k == SyntaxKind::MODULE_FIELD_TAG {
        opt_push(diagnostics, import_with_def::check(ctx.imports, node));
    } else if k == SyntaxKind::MODULE_FIELD_GLOBAL || k == SyntaxKind::MODULE_FIELD_TABLE {
        opt_push(diagnostics, const_expr::check(node, ctx.const_instrs));
        let ghost mid = diag_views(diagnostics@);
        opt_push(diagnostics, import_with_def::check(ctx.imports, node));
        assert(diag_views(diagnostics@) =~= before + node_checks(*ctx, module, *node));
    } else if k == SyntaxKind::PLAIN_INSTR {
        match node.token_of_kind(SyntaxKind::INSTR_NAME) {
            Some(t) => {
                plain_instr::check(diagnostics, node, t);
                let ghost a = diag_views(diagnostics@);
                mem_arg::check(diagnostics, ctx.table, ctx.idents, module, ctx.i32_memories, node, t);
                let ghost b = diag_views(diagnostics@);
                lane::check(diagnostics, node, t.text.as_str());
                let ghost c = diag_views(diagnostics@);
                opt_push(diagnostics, omitted_idx::check(ctx.omitted_idx_in_instr, node));
                assert(diag_views(diagnostics@) =~= before + node_checks(*ctx, module, *node));
            },
            None => {
                assert(before + Seq::<DiagnosticView>::empty() =~= before);
            },
        }
    } else if k == SyntaxKind::MEM_TYPE {
        let a = addr_type(ctx, node);
        limits::check_mem_type(diagnostics, node, a);
    } else if k == SyntaxKind::TABLE_TYPE {
        let a = addr_type(ctx, node);
        limits::check_table_type(diagnostics, node, a);
    } else if k == SyntaxKind::OFFSET || k == SyntaxKind::ELEM_EXPR {
        opt_push(diagnostics, const_expr::check(node, ctx.const_instrs));
    } else if k == SyntaxKind::BLOCK_TRY_TABLE {
        opt_push(diagnostics, structure::check_needless_try_table(ctx.lints.needless_try_table, node));
        useless_catch::check(diagnostics, ctx.lints.useless_catch, ctx.table, node);
        assert(diag_views(diagnostics@) =~= before + node_checks(*ctx, module, *node));
    } else {
        assert(before + Seq::<DiagnosticView>::empty() =~= before);
    }
}

fn is_leaf(kind: SyntaxKind) -> (r: bool)
    ensures
        r == is_leaf_kind(kind),
{
    match kind {
        SyntaxKind::IMMEDIATE | SyntaxKind::FUNC_TYPE | SyntaxKind::STRUCT_TYPE | SyntaxKind::ARRAY_TYPE
        | SyntaxKind::TYPE_USE | SyntaxKind::LOCAL | SyntaxKind::IMPORT | SyntaxKind::EXPORT | SyntaxKind::GLOBAL_TYPE
        | SyntaxKind::MODULE_FIELD_EXPORT => true,
        _ => false,
    }
}

/// Runs the checkers on a node and the nodes below it, in document order.
fn walk(diagnostics: &mut Vec<Diagnostic>, ctx: &CheckContext, module: SymbolKey, node: &SyntaxNode)
    requires
        ctx.table.wf(),
        lanes_ok(*node),
    ensures
        diag_views(final(diagnostics)@) == diag_views(old(diagnostics)@) + walk_diags(*ctx, module, *node),
    decreases node, 1int,
{
    let ghost before = diag_views(diagnostics@);
    check_node(diagnostics, ctx, module, node);
    if is_leaf(node.kind) {
        assert(diag_views(diagnostics@) =~= before + walk_diags(*ctx, module, *node));
    } else {
        let ghost mid = diag_views(diagnostics@);
        walk_nodes(diagnostics, ctx, module, node);
        assert(diag_views(diagnostics@) =~= before + walk_diags(*ctx, module, *node));
    }
}

/// Runs the checkers on the nodes below a node, in document order.
fn walk_nodes(diagnostics: &mut Vec<Diagnostic>, ctx: &CheckContext, module: SymbolKey, node: &SyntaxNode)
    requires
        ctx.table.wf(),
        children_lanes_ok(node.children@, node.children@.len() as int),
    ensures
        diag_views(final(diagnostics)@) == diag_views(old(diagnostics)@) + walk_children(
            *ctx,
            module,
            node.children@,
            node.children@.len() as int,
        ),
    decreases node, 0int,
{
    let ghost before = diag_views(diagnostics@);
    let mut i: usize = 0;
    assert(before + Seq::<DiagnosticView>::empty() =~= before);
    while i < node.children.len()
        invariant
            ctx.table.wf(),
            i <= node.children@.len(),
            children_lanes_ok(node.children@, node.children@.len() as int),
            diag_views(diagnostics@) == before + walk_children(*ctx, module, node.children@, i as int),
        decreases node.children@.len() - i,
    {
        proof {
            lemma_children_lanes_prefix(node.children@, i + 1, node.children@.len() as int);
        }
        let ghost prev = diag_views(diagnostics@);
        match &node.children[i] {
            SyntaxElement::Node(c) => {
                assert(decreases_to!(*node => node.children@[i as int]));
                walk(diagnostics, ctx, module, c);
                assert(diag_views(diagnostics@) =~= before + walk_children(*ctx, module, node.children@, i + 1));
            },
            SyntaxElement::Token(_) => {
                assert(diag_views(diagnostics@) =~= before + walk_children(*ctx, module, node.children@, i + 1));
            },
        }
        i = i + 1;
    }
}

proof fn lemma_children_lanes_prefix(children: Seq<SyntaxElement>, m: int, n: int)
    requires
        0 <= m <= n <= children.len(),
        children_lanes_ok(children, n),
    ensures
        children_lanes_ok(children, m),
    decreases n - m,
{
    if m < n {
        lemma_children_lanes_prefix(children, m, n - 1);
    }
}

/// Runs the checkers of one module: a module written without
/// `(module ...)`, every node below it (see `node_checks`), more than one
/// start function, and imports after other fields.
pub fn check_module(diagnostics: &mut Vec<Diagnostic>, ctx: &CheckContext, module: &SyntaxNode)
    requires
        ctx.table.wf(),
        children_lanes_ok(module.children@, module.children@.len() as int),
    ensures
        diag_views(final(diagnostics)@) == diag_views(old(diagnostics)@) + module_checks(*ctx, *module),
{
    let ghost before = diag_views(diagnostics@);
    opt_push(diagnostics, structure::check_implicit_module(ctx.lints.implicit_module, module));
    let ghost a = diag_views(diagnostics@);
    walk_nodes(diagnostics, ctx, SymbolKey(module.to_ptr()), module);
    let ghost b = diag_views(diagnostics@);
    structure::check_multi_starts(diagnostics, module);
    let ghost c = diag_views(diagnostics@);
    import_occur::check(diagnostics, ctx.imports, module);
    assert(diag_views(diagnostics@) =~= before + module_checks(*ctx, *module));
}

/// Runs the checkers that read the syntax tree of a document: its syntax
/// errors, more than one module, and each module in order (see
/// `check_module`). An instruction that names a `v128` lane access of width
/// zero would make the lane check divide by zero; `modules_lanes_checked`
/// tells whether a document has none.
pub fn check_document(diagnostics: &mut Vec<Diagnostic>, ctx: &CheckContext, document: &Document)
    requires
        ctx.table.wf(),
        modules_lanes_ok(document.root.children@),
    ensures
        diag_views(final(diagnostics)@) == diag_views(old(diagnostics)@) + document_checks(*ctx, *document),
{
    let root = &document.root;
    let ghost before = diag_views(diagnostics@);
    syntax::check(diagnostics, document);
    let ghost a = diag_views(diagnostics@);
    structure::check_multi_modules(diagnostics, ctx.lints.multi_modules, root);
    let ghost b = diag_views(diagnostics@);
    let mut i: usize = 0;
    assert(b + Seq::<DiagnosticView>::empty() =~= b);
    while i < root.children.len()
        invariant
            ctx.table.wf(),
            i <= root.children@.len(),
            modules_lanes_ok(root.children@),
            diag_views(diagnostics@) == b + modules_checks(*ctx, root.children@, i as int),
        decreases root.children@.len() - i,
    {
        match &root.children[i] {
            SyntaxElement::Node(m) => {
                assert(match root.children@[i as int] {
                    SyntaxElement::Node(x) => children_lanes_ok(x.children@, x.children@.len() as int),
                    SyntaxElement::Token(_) => true,
                });
                check_module(diagnostics, ctx, m);
                assert(diag_views(diagnostics@) =~= b + modules_checks(*ctx, root.children@, i + 1));
            },
            SyntaxElement::Token(_) => {
                assert(diag_views(diagnostics@) =~= b + modules_checks(*ctx, root.children@, i + 1));
            },
        }
        i = i + 1;
    }
    assert(diag_views(diagnostics@) =~= before + document_checks(*ctx, *document));
}

/// Whether `lanes_ok` holds of a node, checked.
fn node_lanes_checked(node: &SyntaxNode) -> (r: bool)
    ensures
        r == lanes_ok(*node),
    decreases node, 1int,
{
    if node.kind == SyntaxKind::PLAIN_INSTR {
        match node.token_of_kind(SyntaxKind::INSTR_NAME) {
            Some(t) => {
                if has_zero_lane_width(t.text.as_str()) {
                    return false;
                }
            },
            None => {},
        }
    }
    if is_leaf(node.kind) {
        true
    } else {
        children_lanes_checked(node)
    }
}

/// Whether `lanes_ok` holds of the nodes below a node, checked.
fn children_lanes_checked(node: &SyntaxNode) -> (r: bool)
    ensures
        r == children_lanes_ok(node.children@, node.children@.len() as int),
    decreases node, 0int,
{
    let mut i: usize = 0;
    while i < node.children.len()
        invariant
            i <= node.children@.len(),
            children_lanes_ok(node.children@, i as int),
        decreases node.children@.len() - i,
    {
        match &node.children[i] {
            SyntaxElement::Node(c) => {
                assert(decreases_to!(*node => node.children@[i as int]));
                if !node_lanes_checked(c) {
                    proof {
                        lemma_children_lanes_false(node.children@, i + 1, node.children@.len() as int);
                    }
                    return false;
                }
            },
            SyntaxElement::Token(_) => {},
        }
        i = i + 1;
    }
    true
}

proof fn lemma_children_lanes_false(children: Seq<SyntaxElement>, m: int, n: int)
    requires
        0 <= m <= n <= children.len(),
        !children_lanes_ok(children, m),
    ensures
        !children_lanes_ok(children, n),
    decreases n - m,
{
    if m < n {
        lemma_children_lanes_false(children, m, n - 1);
    }
}

/// Whether the walk of each module reaches only lane accesses of non-zero width.
pub fn modules_lanes_checked(root: &SyntaxNode) -> (r: bool)
    ensures
        r == modules_lanes_ok(root.children@),
{
    let mut i: usize = 0;
    while i < root.children.len()
        invariant
            i <= root.children@.len(),
            forall|j: int|
                0 <= j < i ==> match #[trigger] root.children@[j] {
                    SyntaxElement::Node(m) => children_lanes_ok(m.children@, m.children@.len() as int),
                    SyntaxElement::Token(_) => true,
                },
        decreases root.children@.len() - i,
    {
        match &root.children[i] {
            SyntaxElement::Node(m) => {
                if !children_lanes_checked(m) {
                    return false;
                }
            },
            SyntaxElement::Token(_) => {},
        }
        i = i + 1;
    }
    true
}


/// The reports on a document (see `check_document`), in order by code and
/// then by range.
pub fn document_diagnostics(ctx: &CheckContext, document: &Document) -> (r: Vec<Diagnostic>)
    requires
        ctx.table.wf(),
        modules_lanes_ok(document.root.children@),
    ensures
        diag_views(r@).to_multiset() == document_checks(*ctx, *document).to_multiset(),
        in_order(diag_views(r@)),
{
    let mut diagnostics: Vec<Diagnostic> = Vec::new();
    check_document(&mut diagnostics, ctx, document);
    assert(diag_views(diagnostics@) =~= document_checks(*ctx, *document));
    sort_diagnostics(diagnostics)
}

} // verus!
