//! The order in which diagnostics are reported: by code, then by range.

use super::{diag_views, Diagnostic, DiagnosticView};
use crate::syntax::TextRange;
use vstd::prelude::*;

verus! {

/// Whether one text comes before another, character by character, a
/// prefix first.
pub open spec fn text_lt(a: Seq<char>, b: Seq<char>) -> bool
    decreases a.len(),
{
    if a.len() == 0 {
        b.len() > 0
    } else if b.len() == 0 {
        false
    } else if a[0] != b[0] {
        (a[0] as int) < (b[0] as int)
    } else {
        text_lt(a.drop_first(), b.drop_first())
    }
}

/// Whether one range comes no later than another: by start, then by end.
pub open spec fn range_le(a: TextRange, b: TextRange) -> bool {
    a.start < b.start || (a.start == b.start && a.end <= b.end)
}

/// Whether one diagnostic may come before another: by code, then by range.
pub open spec fn diag_le(a: DiagnosticView, b: DiagnosticView) -> bool {
    text_lt(a.code, b.code) || (a.code == b.code && range_le(a.range, b.range))
}

/// Whether diagnostics are in order.
pub open spec fn in_order(s: Seq<DiagnosticView>) -> bool {
    forall|i: int, j: int| 0 <= i < j < s.len() ==> diag_le(#[trigger] s[i], #[trigger] s[j])
}

/// Of two different texts, one comes before the other.
pub proof fn lemma_text_total(a: Seq<char>, b: Seq<char>)
    ensures
        a == b || text_lt(a, b) || text_lt(b, a),
        !(text_lt(a, b) && text_lt(b, a)),
        !text_lt(a, a),
    decreases a.len(),
{
    if a.len() > 0 && b.len() > 0 && a[0] == b[0] {
        lemma_text_total(a.drop_first(), b.drop_first());
        if a.drop_first() == b.drop_first() {
            assert(a =~= seq![a[0]] + a.drop_first());
            assert(b =~= seq![b[0]] + b.drop_first());
        }
    } else if a.len() == 0 && b.len() == 0 {
        assert(a =~= b);
    }
    if a.len() > 0 {
        lemma_text_total(a.drop_first(), a.drop_first());
    }
}

/// The order of texts is transitive.
pub proof fn lemma_text_trans(a: Seq<char>, b: Seq<char>, c: Seq<char>)
    requires
        text_lt(a, b),
        text_lt(b, c),
    ensures
        text_lt(a, c),
    decreases a.len(),
{
    if a.len() > 0 && b.len() > 0 && c.len() > 0 && a[0] == b[0] && b[0] == c[0] {
        lemma_text_trans(a.drop_first(), b.drop_first(), c.drop_first());
    }
}

/// Two diagnostics are ordered one way or the other.
pub proof fn lemma_diag_total(a: DiagnosticView, b: DiagnosticView)
    ensures
        diag_le(a, b) || diag_le(b, a),
{
    lemma_text_total(a.code, b.code);
}

/// The order of diagnostics is transitive.
pub proof fn lemma_diag_trans(a: DiagnosticView, b: DiagnosticView, c: DiagnosticView)
    requires
        diag_le(a, b),
        diag_le(b, c),
    ensures
        diag_le(a, c),
{
    if text_lt(a.code, b.code) && text_lt(b.code, c.code) {
        lemma_text_trans(a.code, b.code, c.code);
    }
}

fn code_lt(a: &str, b: &str) -> (r: bool)
    ensures
        r == text_lt(a@, b@),
{
    let n = a.unicode_len();
    let m = b.unicode_len();
    let mut i: usize = 0;
    assert(a@.skip(0) =~= a@ && b@.skip(0) =~= b@);
    while i < n && i < m
        invariant
            n == a@.len(),
            m == b@.len(),
            i <= n,
            i <= m,
            text_lt(a@, b@) == text_lt(a@.skip(i as int), b@.skip(i as int)),
        decreases n - i,
    {
        let x = a.get_char(i);
        let y = b.get_char(i);
        assert(a@.skip(i as int)[0] == x && b@.skip(i as int)[0] == y);
        if x != y {
            return (x as u32) < (y as u32);
        }
        assert(a@.skip(i as int).drop_first() =~= a@.skip(i + 1));
        assert(b@.skip(i as int).drop_first() =~= b@.skip(i + 1));
        i = i + 1;
    }
    i < m && i == n
}

fn diag_before(a: &Diagnostic, b: &Diagnostic) -> (r: bool)
    ensures
        r == diag_le(a@, b@),
{
    if code_lt(a.code.as_str(), b.code.as_str()) {
        true
    } else if code_lt(b.code.as_str(), a.code.as_str()) {
        proof {
            lemma_text_total(a.code@, b.code@);
        }
        false
    } else {
        proof {
            lemma_text_total(a.code@, b.code@);
        }
        a.range.start < b.range.start || (a.range.start == b.range.start && a.range.end <= b.range.end)
    }
}

/// The diagnostics in order, by code and then by range; those that compare
/// the same keep no particular order.
pub fn sort_diagnostics(diags: Vec<Diagnostic>) -> (r: Vec<Diagnostic>)
    ensures
        diag_views(r@).to_multiset() == diag_views(diags@).to_multiset(),
        in_order(diag_views(r@)),
{
    let mut out: Vec<Diagnostic> = Vec::new();
    let mut rest = diags;
    let ghost all = diag_views(rest@);
    proof {
        assert(diag_views(out@) =~= Seq::<DiagnosticView>::empty());
        vstd::seq_lib::lemma_multiset_commutative(diag_views(out@), all);
        assert(diag_views(out@) + all =~= all);
    }
    while rest.len() > 0
        invariant
            in_order(diag_views(out@)),
            all.to_multiset() == diag_views(out@).to_multiset().add(diag_views(rest@).to_multiset()),
        decreases rest@.len(),
    {
        let ghost before_rest = diag_views(rest@);
        let x = rest.pop().unwrap();
        proof {
            assert(before_rest =~= diag_views(rest@) + seq![x@]);
            vstd::seq_lib::lemma_multiset_commutative(diag_views(rest@), seq![x@]);
        }
        let mut p: usize = 0;
        while p < out.len() && diag_before(&out[p as usize], &x)
            invariant
                p <= out@.len(),
                forall|k: int| 0 <= k < p ==> diag_le(#[trigger] diag_views(out@)[k], x@),
            decreases out@.len() - p,
        {
            p = p + 1;
        }
        let ghost before = diag_views(out@);
        proof {
            if p < out@.len() {
                lemma_diag_total(before[p as int], x@);
            }
        }
        out.insert(p, x);
        proof {
            let now = diag_views(out@);
            assert(now =~= before.take(p as int) + seq![x@] + before.skip(p as int));
            assert forall|i: int, j: int| 0 <= i < j < now.len() implies diag_le(#[trigger] now[i], #[trigger] now[j]) by {
                if j < p {
                    assert(now[i] == before[i] && now[j] == before[j]);
                } else if j == p {
                    assert(now[i] == before[i]);
                } else if i == p {
                    assert(now[j] == before[j - 1]);
                    if j - 1 > p {
                        assert(diag_le(before[p as int], before[j - 1]));
                        lemma_diag_trans(x@, before[p as int], before[j - 1]);
                    }
                } else if i < p {
                    assert(now[i] == before[i] && now[j] == before[j - 1]);
                } else {
                    assert(now[i] == before[i - 1] && now[j] == before[j - 1]);
                }
            }
            vstd::seq_lib::lemma_multiset_commutative(before.take(p as int) + seq![x@], before.skip(p as int));
            vstd::seq_lib::lemma_multiset_commutative(before.take(p as int), seq![x@]);
            vstd::seq_lib::lemma_multiset_commutative(before.take(p as int), before.skip(p as int));
            assert(before =~= before.take(p as int) + before.skip(p as int));
            assert(now.to_multiset() =~= before.to_multiset().add(seq![x@].to_multiset()));
            assert(all.to_multiset() =~= now.to_multiset().add(diag_views(rest@).to_multiset()));
        }
    }
    proof {
        assert(diag_views(rest@) =~= Seq::<DiagnosticView>::empty());
        vstd::seq_lib::lemma_multiset_commutative(diag_views(out@), diag_views(rest@));
        assert(diag_views(out@) + diag_views(rest@) =~= diag_views(out@));
    }
    out
}

} // verus!
