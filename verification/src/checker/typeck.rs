//! Checking the operand stack against the types an instruction or a block
//! expects.
//!
//! Whether a received operand type matches an expected one, and how types
//! read in messages, are decided by the type analysis; the functions here
//! take those answers as arguments.

use super::{diag_views, Diagnostic, DiagnosticSeverity, DiagnosticView, RelatedInformation};
use super::import_occur::contains_key;
use super::unreachable::{find_first_instr, first_instr, is_instr_kind};
use crate::binder::SymbolKey;
use crate::syntax::{
    child_nodes_of, child_token_of, children_inside, element_span, lemma_first_token_is_child, lemma_nodes_of_are_children,
    range_covers, tree_wf, SyntaxElement, SyntaxNodePtr, SyntaxKind, SyntaxNode, TextRange,
};
use vstd::prelude::*;

verus! {

/// Where a type error is reported on a node.
#[derive(Clone, Copy, Debug, PartialEq, Eq, Structural)]
pub enum ReportRange {
    /// The instruction; for a block instruction, its type use when it has one.
    Instr,
    /// The node's first keyword.
    Keyword,
    /// The node's last child.
    Last,
}

/// Kinds of the block instructions.
pub open spec fn is_block_instr_kind(kind: SyntaxKind) -> bool {
    kind == SyntaxKind::BLOCK_BLOCK || kind == SyntaxKind::BLOCK_LOOP || kind == SyntaxKind::BLOCK_IF || kind
        == SyntaxKind::BLOCK_TRY_TABLE
}

/// The range of a child, node or token.
pub open spec fn element_range(e: SyntaxElement) -> TextRange {
    match e {
        SyntaxElement::Node(n) => n.range,
        SyntaxElement::Token(t) => t.range,
    }
}

/// The range a report takes on a node.
pub open spec fn pick_range(report: ReportRange, node: SyntaxNode) -> TextRange {
    match report {
        ReportRange::Instr => if is_block_instr_kind(node.kind) && child_nodes_of(node, SyntaxKind::TYPE_USE).len()
            > 0 {
            child_nodes_of(node, SyntaxKind::TYPE_USE)[0].range
        } else {
            node.range
        },
        ReportRange::Keyword => match child_token_of(node, SyntaxKind::KEYWORD) {
            Some(t) => t.range,
            None => node.range,
        },
        ReportRange::Last => if node.children@.len() > 0 {
            element_range(node.children@[node.children@.len() - 1])
        } else {
            node.range
        },
    }
}

impl ReportRange {
    /// The range this report takes on a node.
    pub fn pick(&self, node: &SyntaxNode) -> (r: TextRange)
        ensures
            r == pick_range(*self, *node),
            tree_wf(*node) ==> range_covers(node.range, r),
    {
        proof {
            lemma_pick_inside(*self, *node);
        }
        match self {
            ReportRange::Instr => {
                let block = match node.kind {
                    SyntaxKind::BLOCK_BLOCK | SyntaxKind::BLOCK_LOOP | SyntaxKind::BLOCK_IF
                    | SyntaxKind::BLOCK_TRY_TABLE => true,
                    _ => false,
                };
                if block {
                    match node.child_of_kind(SyntaxKind::TYPE_USE) {
                        Some(t) => t.range,
                        None => node.range,
                    }
                } else {
                    node.range
                }
            },
            ReportRange::Keyword => match node.token_of_kind(SyntaxKind::KEYWORD) {
                Some(t) => t.range,
                None => node.range,
            },
            ReportRange::Last => {
                let n = node.children.len();
                if n > 0 {
                    match &node.children[n - 1] {
                        SyntaxElement::Node(c) => c.range,
                        SyntaxElement::Token(t) => t.range,
                    }
                } else {
                    node.range
                }
            },
        }
    }
}

/// The range a report takes lies inside the node, when the node's children lie inside it.
pub proof fn lemma_pick_inside(report: ReportRange, node: SyntaxNode)
    ensures
        children_inside(node) ==> range_covers(node.range, pick_range(report, node)),
{
    if children_inside(node) {
        let ch = node.children@;
        let n = ch.len() as int;
        match report {
            ReportRange::Instr => {
                if is_block_instr_kind(node.kind) && child_nodes_of(node, SyntaxKind::TYPE_USE).len() > 0 {
                    lemma_nodes_of_are_children(ch, SyntaxKind::TYPE_USE, n, 0);
                    let i = choose|i: int|
                        0 <= i < n && ch[i] == SyntaxElement::Node(child_nodes_of(node, SyntaxKind::TYPE_USE)[0]);
                    assert(range_covers(node.range, element_span(ch[i])));
                }
            },
            ReportRange::Keyword => {
                if child_token_of(node, SyntaxKind::KEYWORD) is Some {
                    lemma_first_token_is_child(ch, SyntaxKind::KEYWORD, n);
                    let i = choose|i: int|
                        0 <= i < n && ch[i] == SyntaxElement::Token(child_token_of(node, SyntaxKind::KEYWORD).unwrap());
                    assert(range_covers(node.range, element_span(ch[i])));
                }
            },
            ReportRange::Last => {
                if n > 0 {
                    assert(range_covers(node.range, element_span(ch[n - 1])));
                    assert(element_span(ch[n - 1]) == element_range(ch[n - 1]));
                }
            },
        }
    }
}

/// The note on one mismatching pair.
pub open spec fn mismatch_note(expected: Seq<char>, found: Seq<char>) -> Seq<char> {
    "expected type `"@ + expected + "`, found `"@ + found + "`"@
}

/// The notes on the first `n` pairs, counted from the top of the stack
/// (pair `k` is the `k`-th expected type from the end against the `k`-th
/// operand from the top): one per pair that does not match and whose operand
/// has a producer, at the producer's range.
pub open spec fn pair_notes(
    producers: Seq<Option<TextRange>>,
    matched: Seq<bool>,
    expected_names: Seq<Seq<char>>,
    stack_names: Seq<Seq<char>>,
    n: int,
) -> Seq<(TextRange, Seq<char>)>
    decreases n,
{
    if n <= 0 {
        Seq::empty()
    } else {
        let rest = pair_notes(producers, matched, expected_names, stack_names, n - 1);
        let k = n - 1;
        let e = expected_names.len() - 1 - k;
        let s = stack_names.len() - 1 - k;
        if !matched[k] && producers[s] is Some {
            rest.push((producers[s].unwrap(), mismatch_note(expected_names[e], stack_names[s])))
        } else {
            rest
        }
    }
}

/// Whether one of the first `n` pairs does not match.
pub open spec fn some_mismatch(matched: Seq<bool>, n: int) -> bool {
    exists|k: int| 0 <= k < n && !matched[k]
}

/// The report of a stack check, when it fails.
pub open spec fn stack_diag(
    failed: bool,
    range: TextRange,
    message: Seq<char>,
    notes: Seq<(TextRange, Seq<char>)>,
    data: Option<Seq<Seq<char>>>,
) -> Option<DiagnosticView> {
    if failed {
        Some(
            DiagnosticView {
                range,
                severity: DiagnosticSeverity::Error,
                code: "type-check"@,
                message,
                tags: None,
                data,
                related_information: if notes.len() == 0 {
                    None
                } else {
                    Some(notes)
                },
            },
        )
    } else {
        None
    }
}

/// What a report on the whole stack carries for a fix: the types left on
/// the stack, when nothing is expected and every type on it is known.
pub open spec fn leftover_data(expected_len: int, all_known: bool, stack: Seq<Seq<char>>) -> Option<Seq<Seq<char>>> {
    if expected_len == 0 && all_known {
        Some(stack)
    } else {
        None
    }
}

/// The texts of a list of strings.
pub open spec fn texts(s: Seq<String>) -> Seq<Seq<char>> {
    s.map_values(|x: String| x@)
}

fn push_note(
    notes: &mut Vec<RelatedInformation>,
    range: TextRange,
    expected: &String,
    found: &String,
)
    ensures
        final(notes)@.map_values(|x: RelatedInformation| x@) == old(notes)@.map_values(|x: RelatedInformation| x@).push(
            (range, mismatch_note(expected@, found@)),
        ),
{
    let mut message = String::from_str("expected type `");
    message.append(expected.as_str());
    message.append("`, found `");
    message.append(found.as_str());
    message.append("`");
    let ghost before = notes@;
    notes.push(RelatedInformation { range, message });
    assert(notes@.map_values(|x: RelatedInformation| x@) =~= before.map_values(|x: RelatedInformation| x@).push(
        (range, mismatch_note(expected@, found@)),
    ));
}

/// Walks the first `pairs` pairs from the top of the stack: whether one does
/// not match, and the notes on them.
fn walk_pairs(
    producers: &Vec<Option<TextRange>>,
    matched: &Vec<bool>,
    expected_names: &Vec<String>,
    stack_names: &Vec<String>,
    pairs: usize,
) -> (r: (bool, Vec<RelatedInformation>))
    requires
        pairs <= matched@.len(),
        pairs <= expected_names@.len(),
        pairs <= stack_names@.len(),
        stack_names@.len() == producers@.len(),
    ensures
        r.0 == some_mismatch(matched@, pairs as int),
        r.1@.map_values(|x: RelatedInformation| x@) == pair_notes(
            producers@,
            matched@,
            texts(expected_names@),
            texts(stack_names@),
            pairs as int,
        ),
{
    let mut mismatch = false;
    let mut notes: Vec<RelatedInformation> = Vec::new();
    let ne = expected_names.len();
    let ns = stack_names.len();
    let mut k: usize = 0;
    while k < pairs
        invariant
            k <= pairs,
            pairs <= matched@.len(),
            pairs <= ne,
            pairs <= ns,
            ne == expected_names@.len(),
            ns == stack_names@.len(),
            ns == producers@.len(),
            mismatch == some_mismatch(matched@, k as int),
            notes@.map_values(|x: RelatedInformation| x@) == pair_notes(
                producers@,
                matched@,
                texts(expected_names@),
                texts(stack_names@),
                k as int,
            ),
        decreases pairs - k,
    {
        if !matched[k] {
            mismatch = true;
            let s = ns - 1 - k;
            if let Some(range) = producers[s] {
                push_note(&mut notes, range, &expected_names[ne - 1 - k], &stack_names[s]);
            }
        }
        proof {
            if !mismatch {
                assert forall|j: int| 0 <= j < k + 1 implies matched@[j] by {
                    if j < k {
                        assert(!(0 <= j < k && !matched@[j]));
                    }
                }
            } else if matched@[k as int] {
                let j = choose|j: int| 0 <= j < k && !matched@[j];
                assert(0 <= j < k + 1 && !matched@[j]);
            }
        }
        k = k + 1;
    }
    (mismatch, notes)
}

/// The number of operands a check takes off the stack: as many as expected,
/// or all of them when there are fewer.
pub open spec fn rest_len(stack_len: int, expected_len: int) -> int {
    if stack_len >= expected_len {
        stack_len - expected_len
    } else {
        0
    }
}

/// Whether checking the top of the stack against the expected types fails: a
/// pair that does not match, or fewer operands than expected on a stack that
/// can still end normally.
pub open spec fn check_fails(stack_len: int, expected_len: int, has_never: bool, matched: Seq<bool>) -> bool {
    let pairs = stack_len - rest_len(stack_len, expected_len);
    some_mismatch(matched, pairs) || (expected_len > stack_len && !has_never)
}

/// Checks the operands on top of the stack against the expected types and
/// takes them off; reports when they do not fit.
///
/// Pair `k` sets the `k`-th expected type from the end against the `k`-th
/// operand from the top; `matched[k]` tells whether it matches. Each type
/// reads as `expected_names[i]` or `stack_names[i]`; `expected_text` and
/// `found_text` are the lists of the expected and of the taken types as
/// messages show them. `producers` holds, for each operand, the range of the
/// instruction that produced it, when known.
pub fn type_stack_check<T>(
    stack: &mut Vec<T>,
    producers: &mut Vec<Option<TextRange>>,
    has_never: bool,
    expected_names: &Vec<String>,
    stack_names: &Vec<String>,
    matched: &Vec<bool>,
    expected_text: &str,
    found_text: &str,
    report_range: TextRange,
) -> (r: Option<Diagnostic>)
    requires
        old(stack)@.len() == old(producers)@.len(),
        stack_names@.len() == old(stack)@.len(),
        matched@.len() == old(stack)@.len() - rest_len(old(stack)@.len() as int, expected_names@.len() as int),
    ensures
        ({
            let n = old(stack)@.len() as int;
            let rest = rest_len(n, expected_names@.len() as int);
            &&& final(stack)@ == old(stack)@.take(rest)
            &&& final(producers)@ == old(producers)@.take(rest)
            &&& match stack_diag(
                check_fails(n, expected_names@.len() as int, has_never, matched@),
                report_range,
                "expected types "@ + expected_text@ + ", found "@ + found_text@,
                pair_notes(old(producers)@, matched@, texts(expected_names@), texts(stack_names@), n - rest),
                None,
            ) {
                Some(d) => r matches Some(x) && x@ == d,
                None => r is None,
            }
        }),
{
    let n = stack.len();
    let e = expected_names.len();
    let rest = if n >= e {
        n - e
    } else {
        0
    };
    let pairs = n - rest;
    let (mismatch, notes) = walk_pairs(producers, matched, expected_names, stack_names, pairs);
    let failed = mismatch || (e > n && !has_never);
    stack.truncate(rest);
    producers.truncate(rest);
    if failed {
        let mut message = String::from_str("expected types ");
        message.append(expected_text);
        message.append(", found ");
        message.append(found_text);
        let related = if notes.len() == 0 {
            None
        } else {
            Some(notes)
        };
        Some(
            Diagnostic {
                range: report_range,
                severity: DiagnosticSeverity::Error,
                code: String::from_str("type-check"),
                message,
                tags: None,
                data: None,
                related_information: related,
            },
        )
    } else {
        None
    }
}

/// Whether checking the whole stack against the expected types fails: a pair
/// that does not match, fewer operands than expected on a stack that can
/// still end normally, or more operands than expected.
pub open spec fn check_to_bottom_fails(stack_len: int, expected_len: int, has_never: bool, matched: Seq<bool>) -> bool {
    let pairs = if stack_len <= expected_len {
        stack_len
    } else {
        expected_len
    };
    some_mismatch(matched, pairs) || (expected_len > stack_len && !has_never) || stack_len > expected_len
}

/// Checks the whole stack against the expected types, as at the end of a
/// block or function, and reports when they do not fit; the stack stays as
/// it is. Pairs, names and texts are as for `type_stack_check`; `found_text`
/// lists the whole stack. With `at_end`, the message says that the mismatch
/// is at the end.
pub fn type_stack_check_to_bottom<T>(
    stack: &Vec<T>,
    producers: &Vec<Option<TextRange>>,
    has_never: bool,
    expected_names: &Vec<String>,
    stack_names: &Vec<String>,
    matched: &Vec<bool>,
    expected_text: &str,
    found_text: &str,
    report_range: TextRange,
    at_end: bool,
    all_known: bool,
) -> (r: Option<Diagnostic>)
    requires
        stack@.len() == producers@.len(),
        stack_names@.len() == stack@.len(),
        matched@.len() == if stack@.len() <= expected_names@.len() {
            stack@.len() as int
        } else {
            expected_names@.len() as int
        },
    ensures
        match stack_diag(
            check_to_bottom_fails(stack@.len() as int, expected_names@.len() as int, has_never, matched@),
            report_range,
            "expected types "@ + expected_text@ + ", found "@ + found_text@ + if at_end {
                " at the end"@
            } else {
                ""@
            },
            pair_notes(producers@, matched@, texts(expected_names@), texts(stack_names@), matched@.len() as int),
            leftover_data(expected_names@.len() as int, all_known, texts(stack_names@)),
        ) {
            Some(d) => r matches Some(x) && x@ == d,
            None => r is None,
        },
{
    let n = stack.len();
    let e = expected_names.len();
    let pairs = if n <= e {
        n
    } else {
        e
    };
    let (mismatch, notes) = walk_pairs(producers, matched, expected_names, stack_names, pairs);
    let failed = mismatch || (e > n && !has_never) || n > e;
    if failed {
        let mut message = String::from_str("expected types ");
        message.append(expected_text);
        message.append(", found ");
        message.append(found_text);
        if at_end {
            message.append(" at the end");
        } else {
            proof {
                reveal_strlit("");
            }
            assert(message@ =~= message@ + ""@);
        }
        let related = if notes.len() == 0 {
            None
        } else {
            Some(notes)
        };
        Some(
            Diagnostic {
                range: report_range,
                severity: DiagnosticSeverity::Error,
                code: String::from_str("type-check"),
                message,
                tags: None,
                data: if e == 0 && all_known {
                    Some(clone_names(stack_names))
                } else {
                    None
                },
                related_information: related,
            },
        )
    } else {
        None
    }
}


/// What the type analysis answers for one check of the stack: whether each
/// pair matches (pair `k` counted from the top, as for `type_stack_check`;
/// a pair without an answer counts as matching), and how the expected types
/// and the types found read in the message.
pub struct CheckAnswer {
    pub matched: Vec<bool>,
    pub expected_text: String,
    pub found_text: String,
    pub all_known: bool,
}

/// The plain view of a check answer.
pub struct CheckAnswerView {
    pub matched: Seq<bool>,
    pub expected_text: Seq<char>,
    pub found_text: Seq<char>,
    pub all_known: bool,
}

impl View for CheckAnswer {
    type V = CheckAnswerView;

    open spec fn view(&self) -> CheckAnswerView {
        CheckAnswerView {
            matched: self.matched@,
            expected_text: self.expected_text@,
            found_text: self.found_text@,
            all_known: self.all_known,
        }
    }
}

/// What the type analysis answers for one instruction: its param and result
/// types, as they read; whether it makes the stack polymorphic; and the
/// answers for the checks it makes itself, in this order. A plain
/// instruction checks its params. `block`, `loop` and `try_table` check
/// their params, then the stack at their end. `if` checks its condition,
/// its params, the stack at the end of `then`, and the stack at the end of
/// `else` (or, without `else`, the params against the results); the
/// expected text of the last two also reads in the reports on a missing
/// branch.
pub struct InstrTypes {
    pub params: Vec<String>,
    pub results: Vec<String>,
    pub polymorphic: bool,
    pub checks: Vec<CheckAnswer>,
}

/// The plain view of an instruction's answers.
pub struct InstrTypesView {
    pub params: Seq<Seq<char>>,
    pub results: Seq<Seq<char>>,
    pub polymorphic: bool,
    pub checks: Seq<CheckAnswerView>,
}

impl View for InstrTypes {
    type V = InstrTypesView;

    open spec fn view(&self) -> InstrTypesView {
        InstrTypesView {
            params: texts(self.params@),
            results: texts(self.results@),
            polymorphic: self.polymorphic,
            checks: self.checks@.map_values(|c: CheckAnswer| c@),
        }
    }
}

/// The answers for a walk, one per instruction, in the order the walk
/// visits them.
pub open spec fn answer_views(answers: Seq<InstrTypes>) -> Seq<InstrTypesView> {
    answers.map_values(|a: InstrTypes| a@)
}

/// The operand stack: the types on it, as they read, the range of the
/// instruction that produced each (when known), and whether the code is
/// unreachable, so that missing operands are not reported.
pub struct TypeStack {
    pub stack: Vec<String>,
    pub producers: Vec<Option<TextRange>>,
    pub has_never: bool,
}

/// The plain view of a stack.
pub struct TypeStackView {
    pub stack: Seq<Seq<char>>,
    pub producers: Seq<Option<TextRange>>,
    pub has_never: bool,
}

impl View for TypeStack {
    type V = TypeStackView;

    open spec fn view(&self) -> TypeStackView {
        TypeStackView { stack: texts(self.stack@), producers: self.producers@, has_never: self.has_never }
    }
}

impl TypeStack {
    /// Each operand has one producer entry.
    pub open spec fn wf(&self) -> bool {
        self.stack@.len() == self.producers@.len()
    }
}

/// The answer for the `k`-th check of an instruction; an empty one when
/// missing.
pub open spec fn check_at(checks: Seq<CheckAnswerView>, k: int) -> CheckAnswerView {
    if 0 <= k < checks.len() {
        checks[k]
    } else {
        CheckAnswerView { matched: Seq::empty(), expected_text: Seq::empty(), found_text: Seq::empty(), all_known: false }
    }
}

/// The answer for the instruction at `cur`; an empty one when missing.
pub open spec fn answer_at(answers: Seq<InstrTypesView>, cur: int) -> InstrTypesView {
    if 0 <= cur < answers.len() {
        answers[cur]
    } else {
        InstrTypesView { params: Seq::empty(), results: Seq::empty(), polymorphic: false, checks: Seq::empty() }
    }
}

/// The position after `cur`, staying at the end once there.
pub open spec fn next_at(answers: Seq<InstrTypesView>, cur: int) -> int {
    if cur < answers.len() {
        cur + 1
    } else {
        cur
    }
}

/// The first `n` pair answers, a missing one counting as a match.
pub open spec fn fit(matched: Seq<bool>, n: int) -> Seq<bool> {
    Seq::new(n as nat, |k: int| if k < matched.len() { matched[k] } else { true })
}

/// Checking the top of the stack against the expected types and taking
/// them off: the stack after, and the report. `suffix` ends the message.
pub open spec fn pop_step(
    st: TypeStackView,
    expected: Seq<Seq<char>>,
    a: CheckAnswerView,
    range: TextRange,
    suffix: Seq<char>,
) -> (TypeStackView, Option<DiagnosticView>) {
    let n = st.stack.len() as int;
    let rest = rest_len(n, expected.len() as int);
    let m = fit(a.matched, n - rest);
    (
        TypeStackView { stack: st.stack.take(rest), producers: st.producers.take(rest), has_never: st.has_never },
        stack_diag(
            check_fails(n, expected.len() as int, st.has_never, m),
            range,
            "expected types "@ + a.expected_text + ", found "@ + a.found_text + suffix,
            pair_notes(st.producers, m, expected, st.stack, n - rest),
            None,
        ),
    )
}

/// Checking the whole stack against the expected types, as at the end of a
/// block: the report.
pub open spec fn bottom_step(
    st: TypeStackView,
    expected: Seq<Seq<char>>,
    a: CheckAnswerView,
    range: TextRange,
    at_end: bool,
) -> Option<DiagnosticView> {
    let n = st.stack.len() as int;
    let pairs = if n <= expected.len() {
        n
    } else {
        expected.len() as int
    };
    let m = fit(a.matched, pairs);
    stack_diag(
        check_to_bottom_fails(n, expected.len() as int, st.has_never, m),
        range,
        "expected types "@ + a.expected_text + ", found "@ + a.found_text + if at_end {
            " at the end"@
        } else {
            ""@
        },
        pair_notes(st.producers, m, expected, st.stack, pairs),
        leftover_data(expected.len() as int, a.all_known, st.stack),
    )
}

/// The stack after pushing the results of the instruction at `at`.
pub open spec fn push_results(st: TypeStackView, results: Seq<Seq<char>>, at: TextRange) -> TypeStackView {
    TypeStackView {
        stack: st.stack + results,
        producers: st.producers + Seq::new(results.len(), |k: int| Some(at)),
        has_never: st.has_never,
    }
}

/// The stack a block starts with: its params, produced by the block.
pub open spec fn block_start(params: Seq<Seq<char>>, at: TextRange) -> TypeStackView {
    TypeStackView { stack: params, producers: Seq::new(params.len(), |k: int| Some(at)), has_never: false }
}

/// Where the walk stands: the stack, the position in the answers, and the
/// reports so far.
pub type WalkState = (TypeStackView, int, Seq<DiagnosticView>);

/// Position of the first child node of the kind among children `from..n`.
pub open spec fn first_kind_from(children: Seq<SyntaxElement>, kind: SyntaxKind, from: int, n: int) -> Option<int>
    decreases n - from,
{
    if from >= n || from < 0 {
        None
    } else if children[from] matches SyntaxElement::Node(c) && c.kind == kind {
        Some(from)
    } else {
        first_kind_from(children, kind, from + 1, n)
    }
}

/// Visits the instruction children among the first `n` children, in order.
pub open spec fn walk_instrs(
    children: Seq<SyntaxElement>,
    n: int,
    answers: Seq<InstrTypesView>,
    st: TypeStackView,
    cur: int,
) -> WalkState
    decreases children, n,
{
    if n <= 0 || n > children.len() {
        (st, cur, Seq::empty())
    } else {
        let (st1, c1, d1) = walk_instrs(children, n - 1, answers, st, cur);
        match children[n - 1] {
            SyntaxElement::Node(c) => if is_instr_kind(c.kind) {
                let (st2, c2, d2) = unfold_instr(c, answers, st1, c1);
                (st2, c2, d1 + d2)
            } else {
                (st1, c1, d1)
            },
            _ => (st1, c1, d1),
        }
    }
}

/// Visits an instruction: first the instructions folded into a plain
/// instruction or into the condition of `if`, then the instruction itself.
pub open spec fn unfold_instr(node: SyntaxNode, answers: Seq<InstrTypesView>, st: TypeStackView, cur: int) -> WalkState
    decreases node, 3int,
{
    let (st1, c1, d1) = if node.kind == SyntaxKind::PLAIN_INSTR || node.kind == SyntaxKind::BLOCK_IF {
        walk_instrs(node.children@, node.children@.len() as int, answers, st, cur)
    } else {
        (st, cur, Seq::empty())
    };
    let (st2, c2, d2) = instr_step(node, answers, st1, c1);
    (st2, c2, d1 + d2)
}

/// Walks the instructions of a block-like node from the given stack, then
/// checks the stack at its end against the expected types: the position in
/// the answers after, and the reports.
pub open spec fn block_like(
    node: SyntaxNode,
    answers: Seq<InstrTypesView>,
    init: TypeStackView,
    cur: int,
    expected: Seq<Seq<char>>,
    end: CheckAnswerView,
) -> (int, Seq<DiagnosticView>)
    decreases node, 1int,
{
    let (st1, c1, d1) = walk_instrs(node.children@, node.children@.len() as int, answers, init, cur);
    (c1, d1 + opt_diag(bottom_step(st1, expected, end, pick_range(ReportRange::Last, node), true)))
}

/// A report, as a sequence of at most one.
pub open spec fn opt_diag(d: Option<DiagnosticView>) -> Seq<DiagnosticView> {
    match d {
        Some(x) => seq![x],
        None => Seq::empty(),
    }
}

/// A type-check report with no notes.
pub open spec fn branch_diag(range: TextRange, message: Seq<char>) -> DiagnosticView {
    DiagnosticView {
        range,
        severity: DiagnosticSeverity::Error,
        code: "type-check"@,
        message,
        tags: None,
        data: None,
        related_information: None,
    }
}

/// The branches of `if`: `then` walked as a block, or a report on its
/// absence; then `else`, after `then`, walked as a block, or, without it,
/// a report when the params do not give the results.
pub open spec fn if_branches(
    ch: Seq<SyntaxElement>,
    range: TextRange,
    at: TextRange,
    answers: Seq<InstrTypesView>,
    a: InstrTypesView,
    cur: int,
) -> (int, Seq<DiagnosticView>)
    decreases ch, 0int,
{
    let n = ch.len() as int;
    let init = block_start(a.params, at);
    let then_at = first_kind_from(ch, SyntaxKind::BLOCK_IF_THEN, 0, n);
    let (c1, d1) = match then_at {
        Some(i) => if 0 <= i < n {
            match ch[i] {
                SyntaxElement::Node(t) => block_like(t, answers, init, cur, a.results, check_at(a.checks, 2)),
                _ => (cur, Seq::empty()),
            }
        } else {
            (cur, Seq::empty())
        },
        None => (
            cur,
            seq![branch_diag(range, "missing `then` branch with expected types "@ + check_at(a.checks, 2).expected_text)],
        ),
    };
    let else_at = match then_at {
        Some(i) => first_kind_from(ch, SyntaxKind::BLOCK_IF_ELSE, i + 1, n),
        None => None,
    };
    let (c2, d2) = match else_at {
        Some(j) => if 0 <= j < n {
            match ch[j] {
                SyntaxElement::Node(e) => block_like(e, answers, init, c1, a.results, check_at(a.checks, 3)),
                _ => (c1, Seq::empty()),
            }
        } else {
            (c1, Seq::empty())
        },
        None => (
            c1,
            if bottom_step(init, a.results, check_at(a.checks, 3), at, false) is Some {
                seq![branch_diag(range, "missing `else` branch with expected types "@ + check_at(a.checks, 3).expected_text)]
            } else {
                Seq::empty()
            },
        ),
    };
    (c2, d1 + d2)
}

/// Checks one instruction against the stack and applies it: a plain
/// instruction takes its params and pushes its results; a block
/// instruction takes its params, is walked as a block from them, and
/// pushes its results. `if` first takes its condition, an `i32`.
pub open spec fn instr_step(node: SyntaxNode, answers: Seq<InstrTypesView>, st: TypeStackView, cur: int) -> WalkState
    decreases node, 2int,
{
    let a = answer_at(answers, cur);
    let next = next_at(answers, cur);
    let at = pick_range(ReportRange::Instr, node);
    if node.kind == SyntaxKind::PLAIN_INSTR {
        if child_token_of(node, SyntaxKind::INSTR_NAME) is None {
            (st, next, Seq::empty())
        } else {
            let (st1, d1) = pop_step(st, a.params, check_at(a.checks, 0), at, ""@);
            let st2 = if a.polymorphic {
                TypeStackView { stack: Seq::empty(), producers: Seq::empty(), has_never: true }
            } else {
                st1
            };
            (push_results(st2, a.results, at), next, opt_diag(d1))
        }
    } else if node.kind == SyntaxKind::BLOCK_BLOCK || node.kind == SyntaxKind::BLOCK_LOOP || node.kind
        == SyntaxKind::BLOCK_TRY_TABLE {
        let (st1, d1) = pop_step(st, a.params, check_at(a.checks, 0), at, ""@);
        let (c2, d2) = block_like(node, answers, block_start(a.params, at), next, a.results, check_at(a.checks, 1));
        (push_results(st1, a.results, at), c2, opt_diag(d1) + d2)
    } else if node.kind == SyntaxKind::BLOCK_IF {
        let (st1, d1) = pop_step(
            st,
            seq!["i32"@],
            check_at(a.checks, 0),
            pick_range(ReportRange::Keyword, node),
            " for the condition of `if` block"@,
        );
        let (st2, d2) = pop_step(st1, a.params, check_at(a.checks, 1), at, ""@);
        let (c3, d3) = if_branches(node.children@, node.range, at, answers, a, next);
        (push_results(st2, a.results, at), c3, opt_diag(d1) + opt_diag(d2) + d3)
    } else {
        (st, cur, Seq::empty())
    }
}


fn clone_names(v: &Vec<String>) -> (r: Vec<String>)
    ensures
        texts(r@) == texts(v@),
{
    let mut r: Vec<String> = Vec::new();
    let mut k: usize = 0;
    while k < v.len()
        invariant
            k <= v@.len(),
            r@ == v@.take(k as int),
        decreases v@.len() - k,
    {
        let x = v[k].clone();
        r.push(x);
        assert(r@ =~= v@.take(k + 1));
        k = k + 1;
    }
    assert(v@.take(v@.len() as int) =~= v@);
    r
}

fn fit_answers(matched: &Vec<bool>, n: usize) -> (r: Vec<bool>)
    ensures
        r@ == fit(matched@, n as int),
{
    let mut r: Vec<bool> = Vec::new();
    let mut k: usize = 0;
    while k < n
        invariant
            k <= n,
            r@ =~= fit(matched@, n as int).take(k as int),
        decreases n - k,
    {
        if k < matched.len() {
            r.push(matched[k]);
        } else {
            r.push(true);
        }
        assert(r@ =~= fit(matched@, n as int).take(k + 1));
        k = k + 1;
    }
    r
}

fn type_check_report(range: TextRange, message: String, notes: Vec<RelatedInformation>, data: Option<Vec<String>>) -> (r:
    Diagnostic)
    ensures
        r@ == (DiagnosticView {
            range,
            severity: DiagnosticSeverity::Error,
            code: "type-check"@,
            message: message@,
            tags: None,
            data: match data {
                Some(d) => Some(texts(d@)),
                None => None,
            },
            related_information: if notes@.len() == 0 {
                None
            } else {
                Some(notes@.map_values(|x: RelatedInformation| x@))
            },
        }),
{
    let related = if notes.len() == 0 {
        None
    } else {
        Some(notes)
    };
    Diagnostic {
        range,
        severity: DiagnosticSeverity::Error,
        code: String::from_str("type-check"),
        message,
        tags: None,
        data,
        related_information: related,
    }
}

/// Checks the top of the stack against the expected types and takes them
/// off: see `pop_step`.
fn pop_check(st: &mut TypeStack, expected: &Vec<String>, a: &CheckAnswer, range: TextRange, suffix: &str) -> (r: Option<
    Diagnostic,
>)
    requires
        old(st).wf(),
    ensures
        final(st).wf(),
        final(st)@ == pop_step(old(st)@, texts(expected@), a@, range, suffix@).0,
        match pop_step(old(st)@, texts(expected@), a@, range, suffix@).1 {
            Some(d) => r matches Some(x) && x@ == d,
            None => r is None,
        },
{
    let n = st.stack.len();
    let e = expected.len();
    let rest = if n >= e {
        n - e
    } else {
        0
    };
    let pairs = n - rest;
    let m = fit_answers(&a.matched, pairs);
    let (mismatch, notes) = walk_pairs(&st.producers, &m, expected, &st.stack, pairs);
    let failed = mismatch || (e > n && !st.has_never);
    let ghost old_stack = st.stack@;
    st.stack.truncate(rest);
    st.producers.truncate(rest);
    assert(texts(st.stack@) =~= texts(old_stack).take(rest as int));
    if failed {
        let mut message = String::from_str("expected types ");
        message.append(a.expected_text.as_str());
        message.append(", found ");
        message.append(a.found_text.as_str());
        message.append(suffix);
        Some(type_check_report(range, message, notes, None))
    } else {
        None
    }
}

/// Checks the whole stack against the expected types: see `bottom_step`.
fn bottom_check(st: &TypeStack, expected: &Vec<String>, a: &CheckAnswer, range: TextRange, at_end: bool) -> (r: Option<
    Diagnostic,
>)
    requires
        st.wf(),
    ensures
        match bottom_step(st@, texts(expected@), a@, range, at_end) {
            Some(d) => r matches Some(x) && x@ == d,
            None => r is None,
        },
{
    let n = st.stack.len();
    let e = expected.len();
    let pairs = if n <= e {
        n
    } else {
        e
    };
    let m = fit_answers(&a.matched, pairs);
    let (mismatch, notes) = walk_pairs(&st.producers, &m, expected, &st.stack, pairs);
    let failed = mismatch || (e > n && !st.has_never) || n > e;
    if failed {
        let mut message = String::from_str("expected types ");
        message.append(a.expected_text.as_str());
        message.append(", found ");
        message.append(a.found_text.as_str());
        if at_end {
            message.append(" at the end");
        } else {
            proof {
                reveal_strlit("");
            }
            assert(message@ =~= message@ + ""@);
        }
        let data = if e == 0 && a.all_known {
            Some(clone_names(&st.stack))
        } else {
            None
        };
        Some(type_check_report(range, message, notes, data))
    } else {
        None
    }
}

/// Pushes the results of the instruction at `at`.
fn push_results_exec(st: &mut TypeStack, results: &Vec<String>, at: TextRange)
    requires
        old(st).wf(),
    ensures
        final(st).wf(),
        final(st)@ == push_results(old(st)@, texts(results@), at),
{
    let mut k: usize = 0;
    while k < results.len()
        invariant
            k <= results@.len(),
            st.stack@ == old(st).stack@ + results@.take(k as int),
            st.producers@ == old(st).producers@ + Seq::new(k as nat, |j: int| Some(at)),
            st.has_never == old(st).has_never,
            old(st).wf(),
        decreases results@.len() - k,
    {
        let x = results[k].clone();
        st.stack.push(x);
        st.producers.push(Some(at));
        assert(st.stack@ =~= old(st).stack@ + results@.take(k + 1));
        assert(st.producers@ =~= old(st).producers@ + Seq::new((k + 1) as nat, |j: int| Some(at)));
        k = k + 1;
    }
    assert(results@.take(results@.len() as int) =~= results@);
    assert(texts(st.stack@) =~= texts(old(st).stack@) + texts(results@));
    assert(st.producers@ =~= old(st).producers@ + Seq::new(texts(results@).len(), |j: int| Some(at)));
}

/// The stack a block starts with.
fn start_stack(params: &Vec<String>, at: TextRange) -> (r: TypeStack)
    ensures
        r.wf(),
        r@ == block_start(texts(params@), at),
{
    let mut r = TypeStack { stack: Vec::new(), producers: Vec::new(), has_never: false };
    push_results_exec(&mut r, params, at);
    assert(r@.stack =~= block_start(texts(params@), at).stack);
    assert(r@.producers =~= block_start(texts(params@), at).producers);
    r
}

fn push_opt(diagnostics: &mut Vec<Diagnostic>, d: Option<Diagnostic>)
    ensures
        diag_views(final(diagnostics)@) == diag_views(old(diagnostics)@) + opt_diag(
            match d {
                Some(x) => Some(x@),
                None => None,
            },
        ),
{
    match d {
        Some(x) => {
            diagnostics.push(x);
            assert(diag_views(diagnostics@) =~= diag_views(old(diagnostics)@) + seq![x@]);
        },
        None => {
            assert(diag_views(diagnostics@) =~= diag_views(old(diagnostics)@) + Seq::<DiagnosticView>::empty());
        },
    }
}

fn empty_check() -> (r: CheckAnswer)
    ensures
        r@ == check_at(Seq::empty(), 0),
{
    let r = CheckAnswer { matched: Vec::new(), expected_text: String::new(), found_text: String::new(), all_known: false };
    assert(r@.matched =~= Seq::<bool>::empty());
    r
}

fn check_ref<'a>(checks: &'a Vec<CheckAnswer>, k: usize, empty: &'a CheckAnswer) -> (r: &'a CheckAnswer)
    requires
        empty@ == check_at(Seq::empty(), 0),
    ensures
        r@ == check_at(checks@.map_values(|c: CheckAnswer| c@), k as int),
{
    if k < checks.len() {
        &checks[k]
    } else {
        empty
    }
}

fn find_kind_from(children: &Vec<SyntaxElement>, kind: SyntaxKind, from: usize) -> (r: Option<usize>)
    ensures
        match first_kind_from(children@, kind, from as int, children@.len() as int) {
            Some(i) => r matches Some(j) && j as int == i && from <= i < children@.len(),
            None => r is None,
        },
        r matches Some(i) ==> i < children@.len(),
    decreases children@.len() - from,
{
    if from >= children.len() {
        None
    } else {
        match &children[from] {
            SyntaxElement::Node(c) => {
                if c.kind == kind {
                    return Some(from);
                }
            },
            _ => {},
        }
        find_kind_from(children, kind, from + 1)
    }
}

/// The walk of `walk_instrs` over all children of a node.
fn walk_children(
    node: &SyntaxNode,
    answers: &Vec<InstrTypes>,
    st: &mut TypeStack,
    cur: usize,
    diagnostics: &mut Vec<Diagnostic>,
) -> (c: usize)
    requires
        old(st).wf(),
        cur <= answers@.len(),
    ensures
        final(st).wf(),
        c <= answers@.len(),
        ({
            let w = walk_instrs(node.children@, node.children@.len() as int, answer_views(answers@), old(st)@, cur as int);
            &&& final(st)@ == w.0
            &&& c as int == w.1
            &&& diag_views(final(diagnostics)@) == diag_views(old(diagnostics)@) + w.2
        }),
    decreases node, 0int,
{
    let mut c = cur;
    let mut i: usize = 0;
    while i < node.children.len()
        invariant
            i <= node.children@.len(),
            st.wf(),
            c <= answers@.len(),
            ({
                let w = walk_instrs(node.children@, i as int, answer_views(answers@), old(st)@, cur as int);
                &&& st@ == w.0
                &&& c as int == w.1
                &&& diag_views(diagnostics@) == diag_views(old(diagnostics)@) + w.2
            }),
        decreases node.children@.len() - i,
    {
        let ghost before = diag_views(diagnostics@);
        let ghost w = walk_instrs(node.children@, i as int, answer_views(answers@), old(st)@, cur as int);
        match &node.children[i] {
            SyntaxElement::Node(child) => {
                if child.kind == SyntaxKind::PLAIN_INSTR || child.kind == SyntaxKind::BLOCK_BLOCK || child.kind
                    == SyntaxKind::BLOCK_LOOP || child.kind == SyntaxKind::BLOCK_IF || child.kind
                    == SyntaxKind::BLOCK_TRY_TABLE {
                    c = unfold_exec(child, answers, st, c, diagnostics);
                    assert(diag_views(diagnostics@) =~= diag_views(old(diagnostics)@) + walk_instrs(
                        node.children@,
                        i + 1,
                        answer_views(answers@),
                        old(st)@,
                        cur as int,
                    ).2);
                }
            },
            _ => {},
        }
        i = i + 1;
    }
    c
}

/// Visits an instruction: see `unfold_instr`.
fn unfold_exec(
    node: &SyntaxNode,
    answers: &Vec<InstrTypes>,
    st: &mut TypeStack,
    cur: usize,
    diagnostics: &mut Vec<Diagnostic>,
) -> (c: usize)
    requires
        old(st).wf(),
        cur <= answers@.len(),
    ensures
        final(st).wf(),
        c <= answers@.len(),
        ({
            let w = unfold_instr(*node, answer_views(answers@), old(st)@, cur as int);
            &&& final(st)@ == w.0
            &&& c as int == w.1
            &&& diag_views(final(diagnostics)@) == diag_views(old(diagnostics)@) + w.2
        }),
    decreases node, 3int,
{
    let ghost d0 = diag_views(diagnostics@);
    let c1 = if node.kind == SyntaxKind::PLAIN_INSTR || node.kind == SyntaxKind::BLOCK_IF {
        walk_children(node, answers, st, cur, diagnostics)
    } else {
        assert(d0 =~= d0 + Seq::<DiagnosticView>::empty());
        cur
    };
    let ghost d1 = diag_views(diagnostics@);
    let c2 = instr_exec(node, answers, st, c1, diagnostics);
    assert(diag_views(diagnostics@) =~= d0 + unfold_instr(*node, answer_views(answers@), old(st)@, cur as int).2);
    c2
}

/// Walks a block-like node from the given stack and checks the stack at
/// its end: see `block_like`.
fn block_like_exec(
    node: &SyntaxNode,
    answers: &Vec<InstrTypes>,
    init: TypeStack,
    cur: usize,
    expected: &Vec<String>,
    end: &CheckAnswer,
    diagnostics: &mut Vec<Diagnostic>,
) -> (c: usize)
    requires
        init.wf(),
        cur <= answers@.len(),
    ensures
        c <= answers@.len(),
        ({
            let w = block_like(*node, answer_views(answers@), init@, cur as int, texts(expected@), end@);
            &&& c as int == w.0
            &&& diag_views(final(diagnostics)@) == diag_views(old(diagnostics)@) + w.1
        }),
    decreases node, 1int,
{
    let mut st = init;
    let c = walk_children(node, answers, &mut st, cur, diagnostics);
    let last = ReportRange::Last.pick(node);
    let d = bottom_check(&st, expected, end, last, true);
    let ghost mid = diag_views(diagnostics@);
    push_opt(diagnostics, d);
    assert(diag_views(diagnostics@) =~= diag_views(old(diagnostics)@) + block_like(
        *node,
        answer_views(answers@),
        init@,
        cur as int,
        texts(expected@),
        end@,
    ).1);
    c
}

fn branch_report(range: TextRange, head: &str, text: &String) -> (r: Diagnostic)
    ensures
        r@ == branch_diag(range, head@ + text@),
{
    let mut message = String::from_str(head);
    message.append(text.as_str());
    Diagnostic {
        range,
        severity: DiagnosticSeverity::Error,
        code: String::from_str("type-check"),
        message,
        tags: None,
        data: None,
        related_information: None,
    }
}

/// The branches of `if`: see `if_branches`.
fn if_exec(
    node: &SyntaxNode,
    answers: &Vec<InstrTypes>,
    a: &InstrTypes,
    at: TextRange,
    cur: usize,
    diagnostics: &mut Vec<Diagnostic>,
) -> (c: usize)
    requires
        cur <= answers@.len(),
    ensures
        c <= answers@.len(),
        ({
            let w = if_branches(node.children@, node.range, at, answer_views(answers@), a@, cur as int);
            &&& c as int == w.0
            &&& diag_views(final(diagnostics)@) == diag_views(old(diagnostics)@) + w.1
        }),
    decreases node, 0int,
{
    let ghost d0 = diag_views(diagnostics@);
    let ghost ch = node.children@;
    let ghost w = if_branches(node.children@, node.range, at, answer_views(answers@), a@, cur as int);
    let empty = empty_check();
    let then_end = check_ref(&a.checks, 2, &empty);
    let else_end = check_ref(&a.checks, 3, &empty);
    let then_at = find_kind_from(&node.children, SyntaxKind::BLOCK_IF_THEN, 0);
    let ghost n = ch.len() as int;
    let ghost init_s = block_start(a@.params, at);
    let ghost then_s = first_kind_from(ch, SyntaxKind::BLOCK_IF_THEN, 0, n);
    let ghost p1: (int, Seq<DiagnosticView>) = match then_s {
        Some(i) => if 0 <= i < n {
            match ch[i] {
                SyntaxElement::Node(t) => block_like(t, answer_views(answers@), init_s, cur as int, a@.results, check_at(a@.checks, 2)),
                _ => (cur as int, Seq::empty()),
            }
        } else {
            (cur as int, Seq::empty())
        },
        None => (
            cur as int,
            seq![branch_diag(node.range, "missing `then` branch with expected types "@ + check_at(a@.checks, 2).expected_text)],
        ),
    };
    let c1 = match then_at {
        Some(i) => match &node.children[i] {
            SyntaxElement::Node(t) => {
                let init = start_stack(&a.params, at);
                assert(then_s == Some(i as int));
                assert(init@ == init_s);
                let r = block_like_exec(t, answers, init, cur, &a.results, then_end, diagnostics);
                assert(r as int == p1.0 && diag_views(diagnostics@) == d0 + p1.1);
                r
            },
            _ => {
                assert(d0 =~= d0 + Seq::<DiagnosticView>::empty());
                cur
            },
        },
        None => {
            let d = branch_report(node.range, "missing `then` branch with expected types ", &then_end.expected_text);
            diagnostics.push(d);
            assert(diag_views(diagnostics@) =~= d0 + seq![d@]);
            cur
        },
    };
    let ghost d1 = diag_views(diagnostics@);
    assert(c1 as int == p1.0 && d1 == d0 + p1.1);
    let else_at = match then_at {
        Some(i) => {
            let len = node.children.len();
            assert(i < len);
            find_kind_from(&node.children, SyntaxKind::BLOCK_IF_ELSE, i + 1)
        },
        None => None,
    };
    let c2 = match else_at {
        Some(j) => match &node.children[j] {
            SyntaxElement::Node(e) => {
                let init = start_stack(&a.params, at);
                block_like_exec(e, answers, init, c1, &a.results, else_end, diagnostics)
            },
            _ => {
                assert(d1 =~= d1 + Seq::<DiagnosticView>::empty());
                c1
            },
        },
        None => {
            let init = start_stack(&a.params, at);
            let missing = bottom_check(&init, &a.results, else_end, at, false);
            if missing.is_some() {
                let d = branch_report(node.range, "missing `else` branch with expected types ", &else_end.expected_text);
                diagnostics.push(d);
                assert(diag_views(diagnostics@) =~= d1 + seq![d@]);
            } else {
                assert(diag_views(diagnostics@) =~= d1 + Seq::<DiagnosticView>::empty());
            }
            c1
        },
    };
    let ghost else_s = match then_s {
        Some(i) => first_kind_from(ch, SyntaxKind::BLOCK_IF_ELSE, i + 1, n),
        None => None,
    };
    let ghost p2: (int, Seq<DiagnosticView>) = match else_s {
        Some(j) => if 0 <= j < n {
            match ch[j] {
                SyntaxElement::Node(e) => block_like(e, answer_views(answers@), init_s, p1.0, a@.results, check_at(a@.checks, 3)),
                _ => (p1.0, Seq::empty()),
            }
        } else {
            (p1.0, Seq::empty())
        },
        None => (
            p1.0,
            if bottom_step(init_s, a@.results, check_at(a@.checks, 3), at, false) is Some {
                seq![branch_diag(node.range, "missing `else` branch with expected types "@ + check_at(a@.checks, 3).expected_text)]
            } else {
                Seq::empty()
            },
        ),
    };
    assert(c2 as int == p2.0 && diag_views(diagnostics@) == d1 + p2.1);
    assert(w == (p2.0, p1.1 + p2.1));
    assert(diag_views(diagnostics@) =~= d0 + w.1);
    c2
}

/// Checks one instruction against the stack and applies it: see
/// `instr_step`. `answers[cur]` holds what the type analysis answers for
/// it; the position after it is returned.
pub fn typeck_instr(
    node: &SyntaxNode,
    answers: &Vec<InstrTypes>,
    st: &mut TypeStack,
    cur: usize,
    diagnostics: &mut Vec<Diagnostic>,
) -> (c: usize)
    requires
        old(st).wf(),
        cur <= answers@.len(),
    ensures
        final(st).wf(),
        c <= answers@.len(),
        ({
            let w = instr_step(*node, answer_views(answers@), old(st)@, cur as int);
            &&& final(st)@ == w.0
            &&& c as int == w.1
            &&& diag_views(final(diagnostics)@) == diag_views(old(diagnostics)@) + w.2
        }),
    decreases node, 2int,
{
    instr_exec(node, answers, st, cur, diagnostics)
}

fn empty_instr() -> (r: InstrTypes)
    ensures
        r@ == answer_at(Seq::empty(), 0),
{
    let r = InstrTypes { params: Vec::new(), results: Vec::new(), polymorphic: false, checks: Vec::new() };
    assert(r@.params =~= Seq::<Seq<char>>::empty());
    assert(r@.results =~= Seq::<Seq<char>>::empty());
    assert(r@.checks =~= Seq::<CheckAnswerView>::empty());
    r
}

fn instr_exec(
    node: &SyntaxNode,
    answers: &Vec<InstrTypes>,
    st: &mut TypeStack,
    cur: usize,
    diagnostics: &mut Vec<Diagnostic>,
) -> (c: usize)
    requires
        old(st).wf(),
        cur <= answers@.len(),
    ensures
        final(st).wf(),
        c <= answers@.len(),
        ({
            let w = instr_step(*node, answer_views(answers@), old(st)@, cur as int);
            &&& final(st)@ == w.0
            &&& c as int == w.1
            &&& diag_views(final(diagnostics)@) == diag_views(old(diagnostics)@) + w.2
        }),
    decreases node, 2int,
{
    let ghost d0 = diag_views(diagnostics@);
    let ghost w = instr_step(*node, answer_views(answers@), old(st)@, cur as int);
    let empty = empty_instr();
    let a = if cur < answers.len() {
        &answers[cur]
    } else {
        &empty
    };
    assert(a@ == answer_at(answer_views(answers@), cur as int));
    let next = if cur < answers.len() {
        cur + 1
    } else {
        cur
    };
    let ec = empty_check();
    let at = ReportRange::Instr.pick(node);
    if node.kind == SyntaxKind::PLAIN_INSTR {
        if node.token_of_kind(SyntaxKind::INSTR_NAME).is_none() {
            assert(d0 =~= d0 + Seq::<DiagnosticView>::empty());
            return next;
        }
        let d = pop_check(st, &a.params, check_ref(&a.checks, 0, &ec), at, "");
        if a.polymorphic {
            st.stack = Vec::new();
            st.producers = Vec::new();
            st.has_never = true;
            assert(st@.stack =~= Seq::<Seq<char>>::empty());
        }
        push_results_exec(st, &a.results, at);
        push_opt(diagnostics, d);
        next
    } else if node.kind == SyntaxKind::BLOCK_BLOCK || node.kind == SyntaxKind::BLOCK_LOOP || node.kind
        == SyntaxKind::BLOCK_TRY_TABLE {
        let d = pop_check(st, &a.params, check_ref(&a.checks, 0, &ec), at, "");
        push_opt(diagnostics, d);
        let ghost d1 = diag_views(diagnostics@);
        let init = start_stack(&a.params, at);
        let c2 = block_like_exec(node, answers, init, next, &a.results, check_ref(&a.checks, 1, &ec), diagnostics);
        push_results_exec(st, &a.results, at);
        assert(diag_views(diagnostics@) =~= d0 + w.2);
        c2
    } else if node.kind == SyntaxKind::BLOCK_IF {
        let keyword = ReportRange::Keyword.pick(node);
        let cond = vec![String::from_str("i32")];
        assert(texts(cond@) =~= seq!["i32"@]);
        let d1 = pop_check(st, &cond, check_ref(&a.checks, 0, &ec), keyword, " for the condition of `if` block");
        let d2 = pop_check(st, &a.params, check_ref(&a.checks, 1, &ec), at, "");
        push_opt(diagnostics, d1);
        push_opt(diagnostics, d2);
        let c3 = if_exec(node, answers, a, at, next, diagnostics);
        push_results_exec(st, &a.results, at);
        assert(diag_views(diagnostics@) =~= d0 + w.2);
        c3
    } else {
        assert(d0 =~= d0 + Seq::<DiagnosticView>::empty());
        cur
    }
}


/// The stack a function, global or table starts with: its own result types
/// when it is imported, with no producers; else empty.
pub open spec fn field_start(imported: bool, types: Seq<Seq<char>>) -> TypeStackView {
    if imported {
        TypeStackView { stack: types, producers: Seq::new(types.len(), |k: int| None), has_never: false }
    } else {
        TypeStackView { stack: Seq::empty(), producers: Seq::empty(), has_never: false }
    }
}

/// The reports on the instructions of a function: walked from its start
/// stack, they must leave its result types.
pub open spec fn func_diags(
    node: SyntaxNode,
    imports: Seq<SymbolKey>,
    results: Seq<Seq<char>>,
    answers: Seq<InstrTypesView>,
    end: CheckAnswerView,
) -> Seq<DiagnosticView> {
    let imported = imports.contains(SymbolKey(SyntaxNodePtr { kind: node.kind, range: node.range }));
    block_like(node, answers, field_start(imported, results), 0, results, end).1
}

/// The reports on the initializer of a global or a table: it must leave
/// one value of the given type.
pub open spec fn init_diags(
    node: SyntaxNode,
    imports: Seq<SymbolKey>,
    ty: Seq<char>,
    answers: Seq<InstrTypesView>,
    end: CheckAnswerView,
) -> Seq<DiagnosticView> {
    let imported = imports.contains(SymbolKey(SyntaxNodePtr { kind: node.kind, range: node.range }));
    block_like(node, answers, field_start(imported, seq![ty]), 0, seq![ty], end).1
}

/// The reports on a table: with a known ref type, its initializer, unless
/// the type has a default and there is no initializer.
pub open spec fn table_diags(
    node: SyntaxNode,
    imports: Seq<SymbolKey>,
    ref_type: Option<Seq<char>>,
    defaultable: bool,
    answers: Seq<InstrTypesView>,
    end: CheckAnswerView,
) -> Seq<DiagnosticView> {
    match ref_type {
        None => Seq::empty(),
        Some(ty) => if defaultable && first_instr(node.children@, node.children@.len() as int) is None {
            Seq::empty()
        } else {
            init_diags(node, imports, ty, answers, end)
        },
    }
}

/// The reports on the element expressions among the first `n`, each of
/// which must leave one value of the list's ref type; `ends` holds the
/// answer for the end of each.
pub open spec fn elem_exprs_diags(
    exprs: Seq<SyntaxNode>,
    n: int,
    ty: Seq<char>,
    answers: Seq<InstrTypesView>,
    ends: Seq<CheckAnswerView>,
) -> (int, Seq<DiagnosticView>)
    decreases n,
{
    if n <= 0 || n > exprs.len() {
        (0, Seq::empty())
    } else {
        let (c1, d1) = elem_exprs_diags(exprs, n - 1, ty, answers, ends);
        let empty = TypeStackView { stack: Seq::empty(), producers: Seq::empty(), has_never: false };
        let (c2, d2) = block_like(exprs[n - 1], answers, empty, c1, seq![ty], check_at(ends, n - 1));
        (c2, d1 + d2)
    }
}

fn listed(keys: &Vec<SymbolKey>, node: &SyntaxNode) -> (r: bool)
    ensures
        r == keys@.contains(SymbolKey(SyntaxNodePtr { kind: node.kind, range: node.range })),
{
    contains_key(keys, SymbolKey(node.to_ptr()))
}

fn field_start_exec(imported: bool, types: &Vec<String>) -> (r: TypeStack)
    ensures
        r.wf(),
        r@ == field_start(imported, texts(types@)),
{
    if imported {
        let stack = clone_names(types);
        let mut producers: Vec<Option<TextRange>> = Vec::new();
        let mut k: usize = 0;
        while k < types.len()
            invariant
                k <= types@.len(),
                producers@ =~= Seq::new(k as nat, |j: int| None::<TextRange>),
            decreases types@.len() - k,
        {
            producers.push(None);
            k = k + 1;
        }
        let r = TypeStack { stack, producers, has_never: false };
        assert(r@.producers =~= field_start(imported, texts(types@)).producers);
        r
    } else {
        let r = TypeStack { stack: Vec::new(), producers: Vec::new(), has_never: false };
        assert(r@.stack =~= Seq::<Seq<char>>::empty());
        r
    }
}

/// Checks the instructions of a function against its signature: see
/// `func_diags`. `imports` lists the fields that are imported; `results`
/// gives the function's result types, `answers` what the type analysis
/// answers for each instruction in the order of the walk, and `end` for
/// the check at the end.
pub fn check_func(
    diagnostics: &mut Vec<Diagnostic>,
    node: &SyntaxNode,
    imports: &Vec<SymbolKey>,
    results: &Vec<String>,
    answers: &Vec<InstrTypes>,
    end: &CheckAnswer,
)
    ensures
        diag_views(final(diagnostics)@) == diag_views(old(diagnostics)@) + func_diags(
            *node,
            imports@,
            texts(results@),
            answer_views(answers@),
            end@,
        ),
{
    let init = field_start_exec(listed(imports, node), results);
    block_like_exec(node, answers, init, 0, results, end, diagnostics);
}

fn check_init(
    diagnostics: &mut Vec<Diagnostic>,
    node: &SyntaxNode,
    imports: &Vec<SymbolKey>,
    ty: &String,
    answers: &Vec<InstrTypes>,
    end: &CheckAnswer,
)
    ensures
        diag_views(final(diagnostics)@) == diag_views(old(diagnostics)@) + init_diags(
            *node,
            imports@,
            ty@,
            answers@.map_values(|a: InstrTypes| a@),
            end@,
        ),
{
    let types = vec![ty.clone()];
    assert(texts(types@) =~= seq![ty@]);
    let init = field_start_exec(listed(imports, node), &types);
    block_like_exec(node, answers, init, 0, &types, end, diagnostics);
}

/// Checks the initializer of a global against its type, `ty` as it reads
/// (the type analysis gives `any` when the type is unknown): see
/// `init_diags`.
pub fn check_global(
    diagnostics: &mut Vec<Diagnostic>,
    node: &SyntaxNode,
    imports: &Vec<SymbolKey>,
    ty: &String,
    answers: &Vec<InstrTypes>,
    end: &CheckAnswer,
)
    ensures
        diag_views(final(diagnostics)@) == diag_views(old(diagnostics)@) + init_diags(
            *node,
            imports@,
            ty@,
            answer_views(answers@),
            end@,
        ),
{
    check_init(diagnostics, node, imports, ty, answers, end);
}

/// Checks the initializer of a table against its ref type: see
/// `table_diags`. `ref_type` is the table's ref type as it reads (`None`
/// when unknown), and `defaultable` whether that type has a default value.
pub fn check_table(
    diagnostics: &mut Vec<Diagnostic>,
    node: &SyntaxNode,
    imports: &Vec<SymbolKey>,
    ref_type: &Option<String>,
    defaultable: bool,
    answers: &Vec<InstrTypes>,
    end: &CheckAnswer,
)
    ensures
        diag_views(final(diagnostics)@) == diag_views(old(diagnostics)@) + table_diags(
            *node,
            imports@,
            match ref_type {
                Some(t) => Some(t@),
                None => None,
            },
            defaultable,
            answer_views(answers@),
            end@,
        ),
{
    match ref_type {
        None => {
            assert(diag_views(diagnostics@) =~= diag_views(old(diagnostics)@) + Seq::<DiagnosticView>::empty());
        },
        Some(ty) => {
            if defaultable && find_first_instr(node).is_none() {
                assert(diag_views(diagnostics@) =~= diag_views(old(diagnostics)@) + Seq::<DiagnosticView>::empty());
            } else {
                check_init(diagnostics, node, imports, ty, answers, end);
            }
        },
    }
}

/// Checks that an offset expression leaves one `i32`.
pub fn check_offset(diagnostics: &mut Vec<Diagnostic>, node: &SyntaxNode, answers: &Vec<InstrTypes>, end: &CheckAnswer)
    ensures
        diag_views(final(diagnostics)@) == diag_views(old(diagnostics)@) + block_like(
            *node,
            answer_views(answers@),
            field_start(false, Seq::empty()),
            0,
            seq!["i32"@],
            end@,
        ).1,
{
    let types = vec![String::from_str("i32")];
    assert(texts(types@) =~= seq!["i32"@]);
    let init = field_start_exec(false, &types);
    assert(init@ == field_start(false, Seq::empty()));
    block_like_exec(node, answers, init, 0, &types, end, diagnostics);
}

/// Checks that each element expression of an element list leaves one
/// value of the list's ref type, `ref_type` as it reads (`None` when the
/// list has no known ref type): see `elem_exprs_diags`. The walks share
/// `answers`, one after the other; `ends[k]` answers for the end of the
/// `k`-th expression.
pub fn check_elem_list(
    diagnostics: &mut Vec<Diagnostic>,
    node: &SyntaxNode,
    ref_type: &Option<String>,
    answers: &Vec<InstrTypes>,
    ends: &Vec<CheckAnswer>,
)
    ensures
        diag_views(final(diagnostics)@) == diag_views(old(diagnostics)@) + match ref_type {
            None => Seq::empty(),
            Some(ty) => elem_exprs_diags(
                child_nodes_of(*node, SyntaxKind::ELEM_EXPR),
                child_nodes_of(*node, SyntaxKind::ELEM_EXPR).len() as int,
                ty@,
                answer_views(answers@),
                ends@.map_values(|c: CheckAnswer| c@),
            ).1,
        },
{
    let ty = match ref_type {
        None => {
            assert(diag_views(diagnostics@) =~= diag_views(old(diagnostics)@) + Seq::<DiagnosticView>::empty());
            return;
        },
        Some(t) => t,
    };
    let exprs = node.children_of_kind(SyntaxKind::ELEM_EXPR);
    let ghost all = child_nodes_of(*node, SyntaxKind::ELEM_EXPR);
    let types = vec![ty.clone()];
    assert(texts(types@) =~= seq![ty@]);
    let empty = empty_check();
    let mut cur: usize = 0;
    let mut k: usize = 0;
    while k < exprs.len()
        invariant
            k <= exprs@.len(),
            exprs@.map_values(|n: &SyntaxNode| *n) == all,
            cur <= answers@.len(),
            texts(types@) == seq![ty@],
            empty@ == check_at(Seq::empty(), 0),
            ({
                let w = elem_exprs_diags(all, k as int, ty@, answer_views(answers@), ends@.map_values(|c: CheckAnswer| c@));
                &&& cur as int == w.0
                &&& diag_views(diagnostics@) == diag_views(old(diagnostics)@) + w.1
            }),
        decreases exprs@.len() - k,
    {
        let ghost before = diag_views(diagnostics@);
        let init = field_start_exec(false, &types);
        let end = check_ref(ends, k, &empty);
        assert(*exprs@[k as int] == all[k as int]);
        cur = block_like_exec(exprs[k], answers, init, cur, &types, end, diagnostics);
        assert(diag_views(diagnostics@) =~= diag_views(old(diagnostics)@) + elem_exprs_diags(
            all,
            k + 1,
            ty@,
            answer_views(answers@),
            ends@.map_values(|c: CheckAnswer| c@),
        ).1);
        k = k + 1;
    }
}

} // verus!
