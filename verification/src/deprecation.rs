//! Definitions marked deprecated with a `(@deprecated ...)` annotation.

use crate::binder::SymbolKey;
use crate::syntax::{SyntaxElement, SyntaxKind, SyntaxNode, SyntaxNodePtr, SyntaxToken};
use crate::text::str_eq;
use vstd::prelude::*;

verus! {

/// Kinds of module fields that can be deprecated.
pub open spec fn deprecatable_field(kind: SyntaxKind) -> bool {
    match kind {
        SyntaxKind::MODULE_FIELD_FUNC | SyntaxKind::MODULE_FIELD_GLOBAL | SyntaxKind::MODULE_FIELD_MEMORY
        | SyntaxKind::MODULE_FIELD_TABLE | SyntaxKind::MODULE_FIELD_TAG | SyntaxKind::TYPE_DEF
        | SyntaxKind::MODULE_FIELD_IMPORT | SyntaxKind::MODULE_FIELD_DATA
        | SyntaxKind::MODULE_FIELD_ELEM => true,
        _ => false,
    }
}

fn is_deprecatable_field(kind: SyntaxKind) -> (r: bool)
    ensures
        r == deprecatable_field(kind),
{
    match kind {
        SyntaxKind::MODULE_FIELD_FUNC | SyntaxKind::MODULE_FIELD_GLOBAL | SyntaxKind::MODULE_FIELD_MEMORY
        | SyntaxKind::MODULE_FIELD_TABLE | SyntaxKind::MODULE_FIELD_TAG | SyntaxKind::TYPE_DEF
        | SyntaxKind::MODULE_FIELD_IMPORT | SyntaxKind::MODULE_FIELD_DATA
        | SyntaxKind::MODULE_FIELD_ELEM => true,
        _ => false,
    }
}

/// Kinds of the extern type inside an import.
pub open spec fn extern_type_kind(kind: SyntaxKind) -> bool {
    match kind {
        SyntaxKind::EXTERN_TYPE_FUNC | SyntaxKind::EXTERN_TYPE_GLOBAL | SyntaxKind::EXTERN_TYPE_MEMORY
        | SyntaxKind::EXTERN_TYPE_TABLE | SyntaxKind::EXTERN_TYPE_TAG => true,
        _ => false,
    }
}

fn is_extern_type_kind(kind: SyntaxKind) -> (r: bool)
    ensures
        r == extern_type_kind(kind),
{
    match kind {
        SyntaxKind::EXTERN_TYPE_FUNC | SyntaxKind::EXTERN_TYPE_GLOBAL | SyntaxKind::EXTERN_TYPE_MEMORY
        | SyntaxKind::EXTERN_TYPE_TABLE | SyntaxKind::EXTERN_TYPE_TAG => true,
        _ => false,
    }
}

/// The first child node, among the first `n`, whose kind is an extern type.
pub open spec fn first_extern_type(children: Seq<SyntaxElement>, n: int) -> Option<SyntaxNode>
    decreases n,
{
    if n <= 0 {
        None
    } else {
        match first_extern_type(children, n - 1) {
            Some(x) => Some(x),
            None => match children[n - 1] {
                SyntaxElement::Node(c) => if extern_type_kind(c.kind) {
                    Some(c)
                } else {
                    None
                },
                _ => None,
            },
        }
    }
}

/// The key a deprecation is recorded under: the extern type of an import
/// (none if it has none), else the node itself.
pub open spec fn deprecation_key(node: SyntaxNode) -> Option<SymbolKey> {
    if node.kind == SyntaxKind::MODULE_FIELD_IMPORT {
        match first_extern_type(node.children@, node.children@.len() as int) {
            Some(t) => Some(SymbolKey(SyntaxNodePtr { kind: t.kind, range: t.range })),
            None => None,
        }
    } else {
        Some(SymbolKey(SyntaxNodePtr { kind: node.kind, range: node.range }))
    }
}

/// The text between a pair of double quotes, if the text is quoted.
pub open spec fn unquote(s: Seq<char>) -> Option<Seq<char>> {
    if s.len() >= 2 && s[0] == '"' && s[s.len() - 1] == '"' {
        Some(s.subrange(1, s.len() - 1))
    } else {
        None
    }
}

/// Whether a token opens a `deprecated` annotation: `(@deprecated`, the
/// name possibly quoted.
pub open spec fn opens_deprecated(t: SyntaxToken) -> bool {
    &&& t.kind == SyntaxKind::ANNOT_START
    &&& t.text@.len() >= 2 && t.text@[0] == '(' && t.text@[1] == '@'
    &&& {
        let name = t.text@.subrange(2, t.text@.len() as int);
        match unquote(name) {
            Some(inner) => inner == "deprecated"@,
            None => name == "deprecated"@,
        }
    }
}

/// Whether a child is a trivia token.
pub open spec fn is_trivia_token(e: SyntaxElement) -> bool {
    e matches SyntaxElement::Token(t) && t.kind.is_trivia_spec()
}

/// Walking back from position `j` over trivia tokens, the position of the
/// nearest token that opens a `deprecated` annotation.
pub open spec fn annotation_before(children: Seq<SyntaxElement>, j: int) -> Option<int>
    decreases j + 1,
{
    if j < 0 || j >= children.len() {
        None
    } else if !is_trivia_token(children[j]) {
        None
    } else if children[j] matches SyntaxElement::Token(t) && opens_deprecated(t) {
        Some(j)
    } else {
        annotation_before(children, j - 1)
    }
}

/// Walking forward from position `k` over trivia tokens, the text of the
/// first quoted annotation element.
pub open spec fn reason_after(children: Seq<SyntaxElement>, k: int) -> Option<Seq<char>>
    decreases children.len() - k,
{
    if k < 0 || k >= children.len() {
        None
    } else if !is_trivia_token(children[k]) {
        None
    } else {
        match children[k] {
            SyntaxElement::Token(t) => if t.kind == SyntaxKind::ANNOT_ELEM && unquote(t.text@) is Some {
                unquote(t.text@)
            } else {
                reason_after(children, k + 1)
            },
            _ => None,
        }
    }
}

/// The deprecation of child `i` of a node: its key and the reason given,
/// if trivia right before it holds a `deprecated` annotation.
pub open spec fn deprecation_entry(parent: SyntaxNode, i: int) -> Option<(SymbolKey, Option<Seq<char>>)> {
    match parent.children@[i] {
        SyntaxElement::Node(node) => match (deprecation_key(node), annotation_before(parent.children@, i - 1)) {
            (Some(key), Some(a)) => Some((key, reason_after(parent.children@, a + 1))),
            _ => None,
        },
        _ => None,
    }
}

/// An entry as a sequence of at most one.
pub open spec fn entry_seq(e: Option<(SymbolKey, Option<Seq<char>>)>) -> Seq<(SymbolKey, Option<Seq<char>>)> {
    match e {
        Some(x) => seq![x],
        None => Seq::empty(),
    }
}

/// The deprecations of the first `n` deprecatable fields of a module.
pub open spec fn field_entries(module: SyntaxNode, n: int) -> Seq<(SymbolKey, Option<Seq<char>>)>
    decreases n,
{
    if n <= 0 {
        Seq::empty()
    } else {
        field_entries(module, n - 1) + match module.children@[n - 1] {
            SyntaxElement::Node(c) => if deprecatable_field(c.kind) {
                entry_seq(deprecation_entry(module, n - 1))
            } else {
                Seq::empty()
            },
            _ => Seq::empty(),
        }
    }
}

/// The deprecations of the first `n` child nodes of a recursive type group.
pub open spec fn rec_member_entries(rec: SyntaxNode, n: int) -> Seq<(SymbolKey, Option<Seq<char>>)>
    decreases n,
{
    if n <= 0 {
        Seq::empty()
    } else {
        rec_member_entries(rec, n - 1) + match rec.children@[n - 1] {
            SyntaxElement::Node(_) => entry_seq(deprecation_entry(rec, n - 1)),
            _ => Seq::empty(),
        }
    }
}

/// The deprecations inside the recursive type groups among the first `n`
/// children of a module.
pub open spec fn rec_entries(module: SyntaxNode, n: int) -> Seq<(SymbolKey, Option<Seq<char>>)>
    decreases n,
{
    if n <= 0 {
        Seq::empty()
    } else {
        rec_entries(module, n - 1) + match module.children@[n - 1] {
            SyntaxElement::Node(c) => if c.kind == SyntaxKind::REC_TYPE {
                rec_member_entries(c, c.children@.len() as int)
            } else {
                Seq::empty()
            },
            _ => Seq::empty(),
        }
    }
}

/// Over the first `n` modules of the root, the deprecations of module
/// fields (`fields`) or of recursive type members (not `fields`).
pub open spec fn root_entries(root: SyntaxNode, fields: bool, n: int) -> Seq<(SymbolKey, Option<Seq<char>>)>
    decreases n,
{
    if n <= 0 {
        Seq::empty()
    } else {
        root_entries(root, fields, n - 1) + match root.children@[n - 1] {
            SyntaxElement::Node(m) => if fields {
                field_entries(m, m.children@.len() as int)
            } else {
                rec_entries(m, m.children@.len() as int)
            },
            _ => Seq::empty(),
        }
    }
}

/// The deprecated definitions of a document, in order: module fields, then
/// members of recursive type groups; each with the reason given, if any.
pub open spec fn deprecations(root: SyntaxNode) -> Seq<(SymbolKey, Option<Seq<char>>)> {
    let n = root.children@.len() as int;
    root_entries(root, true, n) + root_entries(root, false, n)
}

/// The views of deprecation entries.
pub open spec fn entry_views(s: Seq<(SymbolKey, Option<String>)>) -> Seq<(SymbolKey, Option<Seq<char>>)> {
    s.map_values(
        |e: (SymbolKey, Option<String>)|
            (
                e.0,
                match e.1 {
                    Some(r) => Some(r@),
                    None => None,
                },
            ),
    )
}

fn deprecation_key_of(node: &SyntaxNode) -> (r: Option<SymbolKey>)
    ensures
        r == deprecation_key(*node),
{
    if node.kind == SyntaxKind::MODULE_FIELD_IMPORT {
        let mut i: usize = 0;
        while i < node.children.len()
            invariant
                node.kind == SyntaxKind::MODULE_FIELD_IMPORT,
                i <= node.children@.len(),
                first_extern_type(node.children@, i as int) is None,
            decreases node.children@.len() - i,
        {
            match &node.children[i] {
                SyntaxElement::Node(c) => {
                    if is_extern_type_kind(c.kind) {
                        proof {
                            assert(first_extern_type(node.children@, i + 1) == Some(*c));
                            lemma_first_extern_type_stable(node.children@, i + 1, node.children@.len() as int);
                        }
                        return Some(SymbolKey(SyntaxNodePtr { kind: c.kind, range: c.range }));
                    }
                },
                SyntaxElement::Token(_) => {},
            }
            i = i + 1;
        }
        None
    } else {
        Some(SymbolKey(SyntaxNodePtr { kind: node.kind, range: node.range }))
    }
}

proof fn lemma_first_extern_type_stable(children: Seq<SyntaxElement>, a: int, n: int)
    requires
        0 <= a <= n,
        first_extern_type(children, a) is Some,
    ensures
        first_extern_type(children, n) == first_extern_type(children, a),
    decreases n - a,
{
    if n > a {
        lemma_first_extern_type_stable(children, a, n - 1);
    }
}

fn unquote_exec(s: &str) -> (r: Option<String>)
    ensures
        match unquote(s@) {
            Some(t) => r matches Some(x) && x@ == t,
            None => r is None,
        },
{
    let n = s.unicode_len();
    if n >= 2 && s.get_char(0) == '"' && s.get_char(n - 1) == '"' {
        Some(String::from_str(s.substring_char(1, n - 1)))
    } else {
        None
    }
}

fn opens_deprecated_exec(t: &SyntaxToken) -> (r: bool)
    ensures
        r == opens_deprecated(*t),
{
    if t.kind != SyntaxKind::ANNOT_START {
        return false;
    }
    let text = t.text.as_str();
    let n = text.unicode_len();
    if !(n >= 2 && text.get_char(0) == '(' && text.get_char(1) == '@') {
        return false;
    }
    let name = text.substring_char(2, n);
    match unquote_exec(name) {
        Some(inner) => str_eq(inner.as_str(), "deprecated"),
        None => str_eq(name, "deprecated"),
    }
}

fn is_trivia_element(e: &SyntaxElement) -> (r: bool)
    ensures
        r == is_trivia_token(*e),
{
    match e {
        SyntaxElement::Token(t) => t.kind.is_trivia(),
        SyntaxElement::Node(_) => false,
    }
}

proof fn lemma_annotation_before_range(children: Seq<SyntaxElement>, j: int)
    ensures
        annotation_before(children, j) matches Some(a) ==> 0 <= a <= j && a < children.len(),
    decreases j + 1,
{
    if 0 <= j < children.len() {
        lemma_annotation_before_range(children, j - 1);
    }
}

/// Position of the nearest `deprecated` annotation in the trivia right
/// before child `i`.
fn annotation_before_exec(children: &Vec<SyntaxElement>, i: usize) -> (r: Option<usize>)
    requires
        i <= children@.len(),
    ensures
        match annotation_before(children@, i - 1) {
            Some(a) => r == Some(a as usize),
            None => r is None,
        },
{
    let mut j = i;
    while j > 0
        invariant
            j <= i <= children@.len(),
            annotation_before(children@, i - 1) == annotation_before(children@, j - 1),
        decreases j,
    {
        let e = &children[j - 1];
        if !is_trivia_element(e) {
            return None;
        }
        match e {
            SyntaxElement::Token(t) => {
                if opens_deprecated_exec(t) {
                    return Some(j - 1);
                }
            },
            SyntaxElement::Node(_) => {},
        }
        j = j - 1;
    }
    None
}

/// The first quoted annotation element in the trivia from child `k` on.
fn reason_after_exec(children: &Vec<SyntaxElement>, k: usize) -> (r: Option<String>)
    ensures
        match reason_after(children@, k as int) {
            Some(t) => r matches Some(x) && x@ == t,
            None => r is None,
        },
{
    let mut j = k;
    while j < children.len()
        invariant
            k <= j,
            reason_after(children@, k as int) == reason_after(children@, j as int),
        decreases children@.len() - j,
    {
        let e = &children[j];
        if !is_trivia_element(e) {
            return None;
        }
        match e {
            SyntaxElement::Token(t) => {
                if t.kind == SyntaxKind::ANNOT_ELEM {
                    match unquote_exec(t.text.as_str()) {
                        Some(reason) => return Some(reason),
                        None => {},
                    }
                }
            },
            SyntaxElement::Node(_) => {},
        }
        j = j + 1;
    }
    None
}

/// The deprecation of child `i` of a node.
fn deprecation_entry_of(parent: &SyntaxNode, i: usize) -> (r: Option<(SymbolKey, Option<String>)>)
    requires
        i < parent.children@.len(),
    ensures
        entry_views(match r {
            Some(x) => seq![x],
            None => Seq::empty(),
        }) == entry_seq(deprecation_entry(*parent, i as int)),
{
    match &parent.children[i] {
        SyntaxElement::Node(node) => {
            let key = match deprecation_key_of(node) {
                Some(k) => k,
                None => {
                    assert(entry_views(Seq::<(SymbolKey, Option<String>)>::empty()) =~= Seq::empty());
                    return None;
                },
            };
            proof {
                lemma_annotation_before_range(parent.children@, i - 1);
            }
            match annotation_before_exec(&parent.children, i) {
                Some(a) => {
                    let reason = reason_after_exec(&parent.children, a + 1);
                    let ghost rv = match &reason {
                        Some(x) => Some(x@),
                        None => None,
                    };
                    assert(rv == reason_after(parent.children@, a + 1));
                    let e = (key, reason);
                    assert(deprecation_entry(*parent, i as int) == Some((key, rv)));
                    assert(entry_views(seq![e]) =~= seq![(key, rv)]);
                    Some(e)
                },
                None => {
                    assert(entry_views(Seq::<(SymbolKey, Option<String>)>::empty()) =~= Seq::empty());
                    None
                },
            }
        },
        SyntaxElement::Token(_) => {
            assert(entry_views(Seq::<(SymbolKey, Option<String>)>::empty()) =~= Seq::empty());
            None
        },
    }
}

fn push_entry(out: &mut Vec<(SymbolKey, Option<String>)>, parent: &SyntaxNode, i: usize)
    requires
        i < parent.children@.len(),
    ensures
        entry_views(final(out)@) == entry_views(old(out)@) + entry_seq(deprecation_entry(*parent, i as int)),
{
    let ghost before = out@;
    match deprecation_entry_of(parent, i) {
        Some(e) => {
            out.push(e);
            assert(entry_views(out@) =~= entry_views(before) + entry_views(seq![e]));
        },
        None => {
            assert(entry_views(before) + Seq::<(SymbolKey, Option<Seq<char>>)>::empty() =~= entry_views(before));
        },
    }
}

fn push_field_entries(out: &mut Vec<(SymbolKey, Option<String>)>, module: &SyntaxNode)
    ensures
        entry_views(final(out)@) == entry_views(old(out)@) + field_entries(*module, module.children@.len() as int),
{
    let mut i: usize = 0;
    while i < module.children.len()
        invariant
            i <= module.children@.len(),
            entry_views(out@) == entry_views(old(out)@) + field_entries(*module, i as int),
        decreases module.children@.len() - i,
    {
        let ghost before = entry_views(out@);
        match &module.children[i] {
            SyntaxElement::Node(c) => {
                if is_deprecatable_field(c.kind) {
                    push_entry(out, module, i);
                }
            },
            SyntaxElement::Token(_) => {},
        }
        assert(entry_views(out@) =~= entry_views(old(out)@) + field_entries(*module, i + 1));
        i = i + 1;
    }
}

fn push_rec_members(out: &mut Vec<(SymbolKey, Option<String>)>, rec: &SyntaxNode)
    ensures
        entry_views(final(out)@) == entry_views(old(out)@) + rec_member_entries(*rec, rec.children@.len() as int),
{
    let mut i: usize = 0;
    while i < rec.children.len()
        invariant
            i <= rec.children@.len(),
            entry_views(out@) == entry_views(old(out)@) + rec_member_entries(*rec, i as int),
        decreases rec.children@.len() - i,
    {
        match &rec.children[i] {
            SyntaxElement::Node(_) => {
                push_entry(out, rec, i);
            },
            SyntaxElement::Token(_) => {},
        }
        assert(entry_views(out@) =~= entry_views(old(out)@) + rec_member_entries(*rec, i + 1));
        i = i + 1;
    }
}

fn push_rec_entries(out: &mut Vec<(SymbolKey, Option<String>)>, module: &SyntaxNode)
    ensures
        entry_views(final(out)@) == entry_views(old(out)@) + rec_entries(*module, module.children@.len() as int),
{
    let mut i: usize = 0;
    while i < module.children.len()
        invariant
            i <= module.children@.len(),
            entry_views(out@) == entry_views(old(out)@) + rec_entries(*module, i as int),
        decreases module.children@.len() - i,
    {
        match &module.children[i] {
            SyntaxElement::Node(c) => {
                if c.kind == SyntaxKind::REC_TYPE {
                    push_rec_members(out, c);
                }
            },
            SyntaxElement::Token(_) => {},
        }
        assert(entry_views(out@) =~= entry_views(old(out)@) + rec_entries(*module, i + 1));
        i = i + 1;
    }
}

fn push_root_entries(out: &mut Vec<(SymbolKey, Option<String>)>, root: &SyntaxNode, fields: bool)
    ensures
        entry_views(final(out)@) == entry_views(old(out)@) + root_entries(*root, fields, root.children@.len() as int),
{
    let mut i: usize = 0;
    while i < root.children.len()
        invariant
            i <= root.children@.len(),
            entry_views(out@) == entry_views(old(out)@) + root_entries(*root, fields, i as int),
        decreases root.children@.len() - i,
    {
        match &root.children[i] {
            SyntaxElement::Node(m) => {
                if fields {
                    push_field_entries(out, m);
                } else {
                    push_rec_entries(out, m);
                }
            },
            SyntaxElement::Token(_) => {},
        }
        assert(entry_views(out@) =~= entry_views(old(out)@) + root_entries(*root, fields, i + 1));
        i = i + 1;
    }
}

/// The deprecated definitions of a document with the reason given for each,
/// in order: module fields, then members of recursive type groups (see
/// `deprecations`).
pub fn get_deprecation(root: &SyntaxNode) -> (r: Vec<(SymbolKey, Option<String>)>)
    ensures
        entry_views(r@) == deprecations(*root),
{
    let mut out: Vec<(SymbolKey, Option<String>)> = Vec::new();
    assert(entry_views(out@) =~= Seq::empty());
    push_root_entries(&mut out, root, true);
    push_root_entries(&mut out, root, false);
    assert(entry_views(out@) =~= deprecations(*root));
    out
}

} // verus!

