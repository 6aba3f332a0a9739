//! Expressions that must be constant: global initializers, offsets and
//! element expressions.

use super::unreachable::{cover, first_instr, is_instr_kind};
use super::{plain_diag, Diagnostic, DiagnosticSeverity, DiagnosticView};
use crate::syntax::{child_token_of, SyntaxElement, SyntaxKind, SyntaxNode, TextRange};
use crate::text::str_eq;
use vstd::prelude::*;

verus! {

/// The texts of a list of names.
pub open spec fn name_texts(names: Seq<String>) -> Seq<Seq<char>> {
    names.map_values(|s: String| s@)
}

/// Whether an instruction is constant: its name is one of `consts`, and so
/// are those of the instructions nested directly in it, recursively.
pub open spec fn is_const_instr(instr: SyntaxNode, consts: Seq<Seq<char>>) -> bool
    decreases instr, 1int,
{
    (child_token_of(instr, SyntaxKind::INSTR_NAME) matches Some(t) && consts.contains(t.text@)) && children_const(
        instr.children@,
        instr.children@.len() as int,
        consts,
    )
}

/// Whether the instructions among the first `n` children are constant.
pub open spec fn children_const(children: Seq<SyntaxElement>, n: int, consts: Seq<Seq<char>>) -> bool
    decreases children, n,
{
    if n <= 0 || n > children.len() {
        true
    } else {
        children_const(children, n - 1, consts) && match children[n - 1] {
            SyntaxElement::Node(c) => is_instr_kind(c.kind) ==> is_const_instr(c, consts),
            SyntaxElement::Token(_) => true,
        }
    }
}

/// The last instruction among the first `n` children.
pub open spec fn last_instr(children: Seq<SyntaxElement>, n: int) -> Option<SyntaxNode>
    decreases n,
{
    if n <= 0 {
        None
    } else {
        match children[n - 1] {
            SyntaxElement::Node(c) => if is_instr_kind(c.kind) {
                Some(c)
            } else {
                last_instr(children, n - 1)
            },
            _ => last_instr(children, n - 1),
        }
    }
}

/// The report on an expression with an instruction that is not constant,
/// covering its instructions from the first to the last.
pub open spec fn const_expr_diag(node: SyntaxNode, consts: Seq<Seq<char>>) -> Option<DiagnosticView> {
    let n = node.children@.len() as int;
    if !children_const(node.children@, n, consts) {
        match (first_instr(node.children@, n), last_instr(node.children@, n)) {
            (Some(f), Some(l)) => Some(
                plain_diag(cover(f.range, l.range), DiagnosticSeverity::Error, "const-expr"@, "expression must be constant"@),
            ),
            _ => None,
        }
    } else {
        None
    }
}

proof fn lemma_children_const_prefix(children: Seq<SyntaxElement>, m: int, n: int, consts: Seq<Seq<char>>)
    requires
        0 <= m <= n <= children.len(),
        children_const(children, n, consts),
    ensures
        children_const(children, m, consts),
    decreases n - m,
{
    if m < n {
        lemma_children_const_prefix(children, m, n - 1, consts);
    }
}

fn contains_name(names: &Vec<String>, name: &str) -> (r: bool)
    ensures
        r == name_texts(names@).contains(name@),
{
    let mut i: usize = 0;
    while i < names.len()
        invariant
            i <= names@.len(),
            forall|j: int| 0 <= j < i ==> names@[j]@ != name@,
        decreases names@.len() - i,
    {
        if str_eq(names[i].as_str(), name) {
            assert(name_texts(names@)[i as int] == name@);
            return true;
        }
        i = i + 1;
    }
    assert forall|j: int| 0 <= j < name_texts(names@).len() implies name_texts(names@)[j] != name@ by {
        assert(name_texts(names@)[j] == names@[j]@);
    }
    false
}

fn instr_kind(kind: SyntaxKind) -> (r: bool)
    ensures
        r == is_instr_kind(kind),
{
    match kind {
        SyntaxKind::PLAIN_INSTR | SyntaxKind::BLOCK_BLOCK | SyntaxKind::BLOCK_LOOP | SyntaxKind::BLOCK_IF
        | SyntaxKind::BLOCK_TRY_TABLE => true,
        _ => false,
    }
}

/// Whether an instruction and those nested in it are all constant, given
/// the names of the constant instructions.
pub fn const_instr(instr: &SyntaxNode, const_instrs: &Vec<String>) -> (r: bool)
    ensures
        r == is_const_instr(*instr, name_texts(const_instrs@)),
    decreases instr, 1int,
{
    let named = match instr.token_of_kind(SyntaxKind::INSTR_NAME) {
        Some(t) => contains_name(const_instrs, t.text.as_str()),
        None => false,
    };
    if !named {
        return false;
    }
    let mut i: usize = 0;
    while i < instr.children.len()
        invariant
            i <= instr.children@.len(),
            children_const(instr.children@, i as int, name_texts(const_instrs@)),
        decreases instr.children@.len() - i,
    {
        match &instr.children[i] {
            SyntaxElement::Node(c) => {
                if instr_kind(c.kind) && !const_instr(c, const_instrs) {
                    proof {
                        if children_const(instr.children@, instr.children@.len() as int, name_texts(const_instrs@)) {
                            lemma_children_const_prefix(
                                instr.children@,
                                i + 1,
                                instr.children@.len() as int,
                                name_texts(const_instrs@),
                            );
                        }
                    }
                    return false;
                }
            },
            SyntaxElement::Token(_) => {},
        }
        i = i + 1;
    }
    true
}

/// Checks that every instruction of an expression is constant, given the
/// names of the constant instructions; the report covers the expression's
/// instructions from the first to the last.
pub fn check(node: &SyntaxNode, const_instrs: &Vec<String>) -> (r: Option<Diagnostic>)
    ensures
        match const_expr_diag(*node, name_texts(const_instrs@)) {
            Some(d) => r matches Some(x) && x@ == d,
            None => r is None,
        },
{
    let ghost consts = name_texts(const_instrs@);
    let mut first: Option<TextRange> = None;
    let mut last: Option<TextRange> = None;
    let mut is_const = true;
    let mut i: usize = 0;
    while i < node.children.len()
        invariant
            i <= node.children@.len(),
            consts == name_texts(const_instrs@),
            is_const == children_const(node.children@, i as int, consts),
            match first_instr(node.children@, i as int) {
                Some(f) => first == Some(f.range),
                None => first is None,
            },
            match last_instr(node.children@, i as int) {
                Some(l) => last == Some(l.range),
                None => last is None,
            },
        decreases node.children@.len() - i,
    {
        match &node.children[i] {
            SyntaxElement::Node(c) => {
                if instr_kind(c.kind) {
                    if first.is_none() {
                        first = Some(c.range);
                    }
                    last = Some(c.range);
                    let c_const = const_instr(c, const_instrs);
                    is_const = is_const && c_const;
                }
            },
            SyntaxElement::Token(_) => {},
        }
        i = i + 1;
    }
    if !is_const {
        match (first, last) {
            (Some(f), Some(l)) => Some(
                Diagnostic::plain(
                    f.cover(&l),
                    DiagnosticSeverity::Error,
                    "const-expr",
                    String::from_str("expression must be constant"),
                ),
            ),
            _ => None,
        }
    } else {
        None
    }
}

} // verus!
