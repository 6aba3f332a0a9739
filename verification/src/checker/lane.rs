//! Lane indices of vector instructions.

use super::{diag_views, plain_diag, Diagnostic, DiagnosticSeverity, DiagnosticView};
use crate::syntax::{child_nodes_of, child_token_of, SyntaxKind, SyntaxNode};
use crate::text::{decimal, parse_digits, parse_digits_from, parse_uint, parse_uint_spec, push_decimal, str_eq, ParsedUint};
use vstd::prelude::*;
use vstd::utf8::encode_utf8;

verus! {

/// Which immediates of an instruction hold lane indices.
#[derive(Clone, Copy, Debug, PartialEq, Eq, Structural)]
pub enum LanePick {
    /// The first immediate.
    First,
    /// The third immediate, else the second.
    Last,
    /// Every immediate.
    Every,
}

/// Position of the first `.` among the first `n` characters.
pub open spec fn first_dot(s: Seq<char>, n: int) -> Option<int>
    decreases n,
{
    if n <= 0 {
        None
    } else {
        match first_dot(s, n - 1) {
            Some(i) => Some(i),
            None => if s[n - 1] == '.' {
                Some(n - 1)
            } else {
                None
            },
        }
    }
}

/// The text after `prefix`, if it starts with it.
pub open spec fn strip_prefix(s: Seq<char>, prefix: Seq<char>) -> Option<Seq<char>> {
    if prefix.len() <= s.len() && s.subrange(0, prefix.len() as int) == prefix {
        Some(s.subrange(prefix.len() as int, s.len() as int))
    } else {
        None
    }
}

/// The text before `suffix`, if it ends with it.
pub open spec fn strip_suffix(s: Seq<char>, suffix: Seq<char>) -> Option<Seq<char>> {
    if suffix.len() <= s.len() && s.subrange(s.len() - suffix.len(), s.len() as int) == suffix {
        Some(s.subrange(0, s.len() - suffix.len()))
    } else {
        None
    }
}

/// The width in bits that a `v128.loadN_lane` or `v128.storeN_lane` name
/// gives after the dot, as std reads a `u32`.
pub open spec fn lane_width(right: Seq<char>) -> Option<u32> {
    let body = match strip_prefix(right, "load"@) {
        Some(b) => Some(b),
        None => strip_prefix(right, "store"@),
    };
    match body {
        Some(b) => match strip_suffix(b, "_lane"@) {
            Some(digits) => match parse_digits(encode_utf8(digits), 10, u32::MAX as nat) {
                ParsedUint::Value(n) => Some(n as u32),
                _ => None,
            },
            None => None,
        },
        None => None,
    }
}

/// Which immediates of an instruction with this name hold lane indices, and
/// the bound on them; `None` for instructions without lanes.
pub open spec fn lane_rule(name: Seq<char>) -> Option<(LanePick, u32)> {
    match first_dot(name, name.len() as int) {
        None => None,
        Some(i) => {
            let left = name.subrange(0, i);
            let right = name.subrange(i + 1, name.len() as int);
            if left == "v128"@ {
                match lane_width(right) {
                    Some(n) => if n == 0 {
                        None
                    } else {
                        Some((LanePick::Last, (128int / n as int) as u32))
                    },
                    None => None,
                }
            } else if (left == "i8x16"@) && (right == "extract_lane_s"@ || right == "extract_lane_u"@
                || right == "replace_lane"@) {
                Some((LanePick::First, 16))
            } else if (left == "i16x8"@) && (right == "extract_lane_s"@ || right == "extract_lane_u"@
                || right == "replace_lane"@) {
                Some((LanePick::First, 8))
            } else if (left == "i32x4"@ || left == "f32x4"@) && (right == "extract_lane"@ || right
                == "replace_lane"@) {
                Some((LanePick::First, 4))
            } else if (left == "i64x2"@ || left == "f64x2"@) && (right == "extract_lane"@ || right
                == "replace_lane"@) {
                Some((LanePick::First, 2))
            } else if left == "i8x16"@ && right == "shuffle"@ {
                Some((LanePick::Every, 32))
            } else {
                None
            }
        },
    }
}

/// Whether a `v128` lane instruction name gives a width of zero, on which
/// the bound would divide by zero.
pub open spec fn zero_lane_width(name: Seq<char>) -> bool {
    match first_dot(name, name.len() as int) {
        Some(i) => name.subrange(0, i) == "v128"@ && lane_width(name.subrange(i + 1, name.len() as int))
            == Some(0u32),
        None => false,
    }
}

/// The report on one lane index: above the bound, too large to read, or not
/// a number.
pub open spec fn lane_diag(immediate: SyntaxNode, max: u32) -> Option<DiagnosticView> {
    match child_token_of(immediate, SyntaxKind::INT) {
        None => None,
        Some(t) => match parse_uint_spec(encode_utf8(t.text@), u32::MAX as nat) {
            ParsedUint::Value(l) => if l < max {
                None
            } else {
                Some(
                    plain_diag(
                        immediate.range,
                        DiagnosticSeverity::Error,
                        "lane"@,
                        "lane index must be less than "@ + decimal(max as nat),
                    ),
                )
            },
            ParsedUint::Overflow => Some(
                plain_diag(
                    immediate.range,
                    DiagnosticSeverity::Error,
                    "lane"@,
                    "lane index must be less than "@ + decimal(max as nat),
                ),
            ),
            ParsedUint::Invalid => Some(
                plain_diag(immediate.range, DiagnosticSeverity::Error, "lane"@, "invalid lane index"@),
            ),
        },
    }
}

/// A report, as a sequence of at most one.
pub open spec fn opt_seq(d: Option<DiagnosticView>) -> Seq<DiagnosticView> {
    match d {
        Some(x) => seq![x],
        None => Seq::empty(),
    }
}

/// The reports on the first `n` immediates.
pub open spec fn every_lane_diag(imms: Seq<SyntaxNode>, max: u32, n: int) -> Seq<DiagnosticView>
    decreases n,
{
    if n <= 0 {
        Seq::empty()
    } else {
        every_lane_diag(imms, max, n - 1) + opt_seq(lane_diag(imms[n - 1], max))
    }
}

/// The reports on the lane indices of an instruction with the given name.
pub open spec fn lane_diags(node: SyntaxNode, name: Seq<char>) -> Seq<DiagnosticView> {
    let imms = child_nodes_of(node, SyntaxKind::IMMEDIATE);
    match lane_rule(name) {
        None => Seq::empty(),
        Some((LanePick::First, max)) => if imms.len() > 0 {
            opt_seq(lane_diag(imms[0], max))
        } else {
            Seq::empty()
        },
        Some((LanePick::Last, max)) => if imms.len() >= 3 {
            opt_seq(lane_diag(imms[2], max))
        } else if imms.len() == 2 {
            opt_seq(lane_diag(imms[1], max))
        } else {
            Seq::empty()
        },
        Some((LanePick::Every, max)) => every_lane_diag(imms, max, imms.len() as int),
    }
}

/// Checks one lane index against its bound.
pub fn check_immediate(immediate: &SyntaxNode, max: u32) -> (r: Option<Diagnostic>)
    ensures
        match lane_diag(*immediate, max) {
            Some(d) => r matches Some(x) && x@ == d,
            None => r is None,
        },
{
    let token = match immediate.token_of_kind(SyntaxKind::INT) {
        Some(t) => t,
        None => return None,
    };
    match parse_uint(token.text.as_str(), 0xffff_ffffu64) {
        ParsedUint::Value(l) => {
            if l < max as u64 {
                None
            } else {
                let mut message = String::from_str("lane index must be less than ");
                push_decimal(&mut message, max as u64);
                Some(Diagnostic::plain(immediate.range, DiagnosticSeverity::Error, "lane", message))
            }
        },
        ParsedUint::Overflow => {
            let mut message = String::from_str("lane index must be less than ");
            push_decimal(&mut message, max as u64);
            Some(Diagnostic::plain(immediate.range, DiagnosticSeverity::Error, "lane", message))
        },
        ParsedUint::Invalid => Some(
            Diagnostic::plain(
                immediate.range,
                DiagnosticSeverity::Error,
                "lane",
                String::from_str("invalid lane index"),
            ),
        ),
    }
}

fn find_dot(s: &str) -> (r: Option<usize>)
    ensures
        match first_dot(s@, s@.len() as int) {
            Some(i) => r == Some(i as usize),
            None => r is None,
        },
{
    let n = s.unicode_len();
    let mut i: usize = 0;
    while i < n
        invariant
            n == s@.len(),
            i <= n,
            first_dot(s@, i as int) is None,
        decreases n - i,
    {
        if s.get_char(i) == '.' {
            proof {
                lemma_first_dot_stable(s@, i + 1, n as int);
            }
            return Some(i);
        }
        i = i + 1;
    }
    None
}

proof fn lemma_first_dot_range(s: Seq<char>, n: int)
    ensures
        first_dot(s, n) matches Some(i) ==> 0 <= i < n && s[i] == '.',
    decreases n,
{
    if n > 0 {
        lemma_first_dot_range(s, n - 1);
    }
}

proof fn lemma_first_dot_stable(s: Seq<char>, a: int, n: int)
    requires
        0 <= a <= n,
        first_dot(s, a) is Some,
    ensures
        first_dot(s, n) == first_dot(s, a),
    decreases n - a,
{
    if n > a {
        lemma_first_dot_stable(s, a, n - 1);
    }
}

pub(crate) fn strip_prefix_exec<'a>(s: &'a str, prefix: &str) -> (r: Option<&'a str>)
    ensures
        match strip_prefix(s@, prefix@) {
            Some(t) => r matches Some(x) && x@ == t,
            None => r is None,
        },
{
    let n = s.unicode_len();
    let p = prefix.unicode_len();
    if p > n {
        return None;
    }
    let head = s.substring_char(0, p);
    if str_eq(head, prefix) {
        Some(s.substring_char(p, n))
    } else {
        None
    }
}

fn strip_suffix_exec<'a>(s: &'a str, suffix: &str) -> (r: Option<&'a str>)
    ensures
        match strip_suffix(s@, suffix@) {
            Some(t) => r matches Some(x) && x@ == t,
            None => r is None,
        },
{
    let n = s.unicode_len();
    let p = suffix.unicode_len();
    if p > n {
        return None;
    }
    let tail = s.substring_char(n - p, n);
    if str_eq(tail, suffix) {
        Some(s.substring_char(0, n - p))
    } else {
        None
    }
}

fn lane_width_exec(right: &str) -> (r: Option<u32>)
    ensures
        r == lane_width(right@),
{
    let body = match strip_prefix_exec(right, "load") {
        Some(b) => b,
        None => match strip_prefix_exec(right, "store") {
            Some(b) => b,
            None => return None,
        },
    };
    let digits = match strip_suffix_exec(body, "_lane") {
        Some(d) => d,
        None => return None,
    };
    let bytes = digits.as_bytes();
    assert(bytes@.subrange(0, bytes@.len() as int) == bytes@);
    match parse_digits_from(bytes, 0, 10, 0xffff_ffffu64) {
        ParsedUint::Value(n) => Some(n as u32),
        _ => None,
    }
}

fn is_one_of(s: &str, a: &str, b: &str, c: &str) -> (r: bool)
    ensures
        r == (s@ == a@ || s@ == b@ || s@ == c@),
{
    str_eq(s, a) || str_eq(s, b) || str_eq(s, c)
}

/// Whether a `v128` lane instruction name gives a width of zero.
pub fn has_zero_lane_width(name: &str) -> (r: bool)
    ensures
        r == zero_lane_width(name@),
{
    let i = match find_dot(name) {
        Some(i) => i,
        None => return false,
    };
    let n = name.unicode_len();
    proof {
        lemma_first_dot_range(name@, n as int);
    }
    let left = name.substring_char(0, i);
    let right = name.substring_char(i + 1, n);
    str_eq(left, "v128") && lane_width_exec(right) == Some(0u32)
}

/// Which immediates of an instruction with this name hold lane indices, and
/// the bound on them.
pub fn lane_rule_of(name: &str) -> (r: Option<(LanePick, u32)>)
    requires
        !zero_lane_width(name@),
    ensures
        r == lane_rule(name@),
{
    let i = match find_dot(name) {
        Some(i) => i,
        None => return None,
    };
    let n = name.unicode_len();
    proof {
        lemma_first_dot_range(name@, n as int);
    }
    let left = name.substring_char(0, i);
    let right = name.substring_char(i + 1, n);
    if str_eq(left, "v128") {
        match lane_width_exec(right) {
            Some(w) => {
                if w == 0 {
                    None
                } else {
                    Some((LanePick::Last, 128 / w))
                }
            },
            None => None,
        }
    } else if str_eq(left, "i8x16") && is_one_of(right, "extract_lane_s", "extract_lane_u", "replace_lane") {
        Some((LanePick::First, 16))
    } else if str_eq(left, "i16x8") && is_one_of(right, "extract_lane_s", "extract_lane_u", "replace_lane") {
        Some((LanePick::First, 8))
    } else if (str_eq(left, "i32x4") || str_eq(left, "f32x4")) && (str_eq(right, "extract_lane") || str_eq(
        right,
        "replace_lane",
    )) {
        Some((LanePick::First, 4))
    } else if (str_eq(left, "i64x2") || str_eq(left, "f64x2")) && (str_eq(right, "extract_lane") || str_eq(
        right,
        "replace_lane",
    )) {
        Some((LanePick::First, 2))
    } else if str_eq(left, "i8x16") && str_eq(right, "shuffle") {
        Some((LanePick::Every, 32))
    } else {
        None
    }
}

fn push_opt(diagnostics: &mut Vec<Diagnostic>, d: Option<Diagnostic>)
    ensures
        diag_views(final(diagnostics)@) == diag_views(old(diagnostics)@) + match d {
            Some(x) => seq![x@],
            None => Seq::<DiagnosticView>::empty(),
        },
{
    let ghost before = diagnostics@;
    match d {
        Some(x) => {
            diagnostics.push(x);
            assert(diag_views(diagnostics@) =~= diag_views(before) + seq![x@]);
        },
        None => {
            assert(diag_views(before) + Seq::<DiagnosticView>::empty() =~= diag_views(before));
        },
    }
}

/// Checks the lane indices of a vector instruction named `instr_name`.
pub fn check(diagnostics: &mut Vec<Diagnostic>, node: &SyntaxNode, instr_name: &str)
    requires
        !zero_lane_width(instr_name@),
    ensures
        diag_views(final(diagnostics)@) == diag_views(old(diagnostics)@) + lane_diags(*node, instr_name@),
{
    let imms = node.children_of_kind(SyntaxKind::IMMEDIATE);
    let ghost all = imms@.map_values(|n: &SyntaxNode| *n);
    match lane_rule_of(instr_name) {
        None => {
            assert(diag_views(diagnostics@) + Seq::<DiagnosticView>::empty() =~= diag_views(diagnostics@));
        },
        Some((LanePick::First, max)) => {
            if imms.len() > 0 {
                assert(all[0] == *imms@[0]);
                push_opt(diagnostics, check_immediate(imms[0], max));
            } else {
                assert(diag_views(diagnostics@) + Seq::<DiagnosticView>::empty() =~= diag_views(diagnostics@));
            }
        },
        Some((LanePick::Last, max)) => {
            if imms.len() >= 3 {
                assert(all[2] == *imms@[2]);
                push_opt(diagnostics, check_immediate(imms[2], max));
            } else if imms.len() == 2 {
                assert(all[1] == *imms@[1]);
                push_opt(diagnostics, check_immediate(imms[1], max));
            } else {
                assert(diag_views(diagnostics@) + Seq::<DiagnosticView>::empty() =~= diag_views(diagnostics@));
            }
        },
        Some((LanePick::Every, max)) => {
            let ghost d0 = diag_views(diagnostics@);
            let mut k: usize = 0;
            while k < imms.len()
                invariant
                    k <= imms@.len(),
                    all == imms@.map_values(|n: &SyntaxNode| *n),
                    diag_views(diagnostics@) == d0 + every_lane_diag(all, max, k as int),
                decreases imms@.len() - k,
            {
                assert(all[k as int] == *imms@[k as int]);
                let ghost before = diag_views(diagnostics@);
                push_opt(diagnostics, check_immediate(imms[k], max));
                proof {
                    assert(d0 + every_lane_diag(all, max, k + 1) =~= d0 + every_lane_diag(all, max, k as int)
                        + opt_seq(lane_diag(all[k as int], max)));
                }
                k = k + 1;
            }
        },
    }
}

} // verus!

