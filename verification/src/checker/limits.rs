//! Limits of memory and table types.

use super::{diag_views, plain_diag, Diagnostic, DiagnosticSeverity, DiagnosticView};
use crate::syntax::{child_nodes_of, child_tokens_of, SyntaxKind, SyntaxNode, SyntaxToken};
use crate::text::{decimal, parse_uint, parse_uint_spec, push_decimal, string_is, ParsedUint};
use vstd::prelude::*;
use vstd::utf8::encode_utf8;

verus! {

/// The address type of a memory or a table.
#[derive(Clone, Copy, Debug, PartialEq, Eq, Structural)]
pub enum AddrType {
    I32,
    I64,
}

/// The report on a limit above the bound.
pub open spec fn overflow_diag(token: SyntaxToken, code: Seq<char>, noun: Seq<char>, bound: u64) -> DiagnosticView {
    plain_diag(token.range, DiagnosticSeverity::Error, code, noun + " can't be greater than "@ + decimal(bound as nat))
}

/// A limit read from its token, with the reports on it: a value above the
/// bound is kept and reported; digits beyond `u64` are reported and read as
/// `overflow_value`; anything else stops the check (`None`).
pub open spec fn read_limit(token: SyntaxToken, bound: u64, overflow_value: u64, code: Seq<char>, noun: Seq<char>) -> Option<
    (u64, Seq<DiagnosticView>),
> {
    match parse_uint_spec(encode_utf8(token.text@), u64::MAX as nat) {
        ParsedUint::Value(v) => Some(
            (
                v,
                if v > bound {
                    seq![overflow_diag(token, code, noun, bound)]
                } else {
                    Seq::empty()
                },
            ),
        ),
        ParsedUint::Overflow => Some((overflow_value, seq![overflow_diag(token, code, noun, bound)])),
        ParsedUint::Invalid => None,
    }
}

/// The reports on the minimum and the maximum of a limits node: each above
/// the bound, a maximum below the minimum, and — when there is no maximum —
/// the `shared` keyword if one is given.
pub open spec fn limits_diags(
    limits: SyntaxNode,
    bound: u64,
    overflow_value: u64,
    code: Seq<char>,
    noun: Seq<char>,
    shared: Option<SyntaxToken>,
) -> Seq<DiagnosticView> {
    let uints = child_tokens_of(limits, SyntaxKind::UNSIGNED_INT);
    if uints.len() == 0 {
        Seq::empty()
    } else {
        match read_limit(uints[0], bound, overflow_value, code, noun) {
            None => Seq::empty(),
            Some((min, d1)) => if uints.len() >= 2 {
                match read_limit(uints[1], bound, overflow_value, code, noun) {
                    None => d1,
                    Some((max, d2)) => d1 + d2 + if max < min {
                        seq![
                            plain_diag(
                                uints[1].range,
                                DiagnosticSeverity::Error,
                                code,
                                "maximum size must be greater than minimum size"@,
                            ),
                        ]
                    } else {
                        Seq::empty()
                    },
                }
            } else {
                match shared {
                    Some(t) => d1.push(
                        plain_diag(
                            t.range,
                            DiagnosticSeverity::Error,
                            code,
                            "shared memory must have a maximum size"@,
                        ),
                    ),
                    None => d1,
                }
            },
        }
    }
}

fn push_overflow(diagnostics: &mut Vec<Diagnostic>, token: &SyntaxToken, code: &str, noun: &str, bound: u64)
    ensures
        diag_views(final(diagnostics)@) == diag_views(old(diagnostics)@).push(
            overflow_diag(*token, code@, noun@, bound),
        ),
{
    let mut message = String::from_str(noun);
    message.append(" can't be greater than ");
    push_decimal(&mut message, bound);
    let d = Diagnostic::plain(token.range, DiagnosticSeverity::Error, code, message);
    let ghost before = diagnostics@;
    diagnostics.push(d);
    assert(diag_views(diagnostics@) =~= diag_views(before).push(d@));
}

fn read_limit_exec(
    diagnostics: &mut Vec<Diagnostic>,
    token: &SyntaxToken,
    bound: u64,
    overflow_value: u64,
    code: &str,
    noun: &str,
) -> (r: Option<u64>)
    ensures
        match read_limit(*token, bound, overflow_value, code@, noun@) {
            Some((v, d)) => r == Some(v) && diag_views(final(diagnostics)@) == diag_views(old(diagnostics)@) + d,
            None => r is None && final(diagnostics)@ == old(diagnostics)@,
        },
{
    match parse_uint(token.text.as_str(), 0xffff_ffff_ffff_ffffu64) {
        ParsedUint::Value(v) => {
            if v > bound {
                push_overflow(diagnostics, token, code, noun, bound);
            }
            proof {
                assert(diag_views(old(diagnostics)@) + Seq::<DiagnosticView>::empty() =~= diag_views(old(diagnostics)@));
                assert(diag_views(old(diagnostics)@).push(overflow_diag(*token, code@, noun@, bound)) =~= diag_views(old(diagnostics)@) + seq![overflow_diag(*token, code@, noun@, bound)]);
            }
            Some(v)
        },
        ParsedUint::Overflow => {
            push_overflow(diagnostics, token, code, noun, bound);
            proof {
                assert(diag_views(old(diagnostics)@).push(overflow_diag(*token, code@, noun@, bound)) =~= diag_views(old(diagnostics)@) + seq![overflow_diag(*token, code@, noun@, bound)]);
            }
            Some(overflow_value)
        },
        ParsedUint::Invalid => None,
    }
}

fn check_limits(
    diagnostics: &mut Vec<Diagnostic>,
    limits: &SyntaxNode,
    bound: u64,
    overflow_value: u64,
    code: &str,
    noun: &str,
    shared: Option<&SyntaxToken>,
)
    ensures
        diag_views(final(diagnostics)@) == diag_views(old(diagnostics)@) + limits_diags(
            *limits,
            bound,
            overflow_value,
            code@,
            noun@,
            match shared {
                Some(t) => Some(*t),
                None => None,
            },
        ),
{
    let uints = limits.tokens_of_kind(SyntaxKind::UNSIGNED_INT);
    let ghost toks = uints@.map_values(|t: &SyntaxToken| *t);
    let ghost d0 = diag_views(diagnostics@);
    if uints.len() == 0 {
        assert(d0 + Seq::<DiagnosticView>::empty() =~= d0);
        return;
    }
    assert(toks[0] == *uints@[0]);
    let min = match read_limit_exec(diagnostics, uints[0], bound, overflow_value, code, noun) {
        Some(v) => v,
        None => {
            assert(d0 + Seq::<DiagnosticView>::empty() =~= d0);
            return;
        },
    };
    let ghost dd1 = read_limit(toks[0], bound, overflow_value, code@, noun@).unwrap().1;
    if uints.len() >= 2 {
        assert(toks[1] == *uints@[1]);
        let max = match read_limit_exec(diagnostics, uints[1], bound, overflow_value, code, noun) {
            Some(v) => v,
            None => {
                return;
            },
        };
        let ghost dd2 = read_limit(toks[1], bound, overflow_value, code@, noun@).unwrap().1;
        let ghost d2 = diag_views(diagnostics@);
        assert(d2 == d0 + dd1 + dd2);
        if max < min {
            let d = Diagnostic::plain(
                uints[1].range,
                DiagnosticSeverity::Error,
                code,
                String::from_str("maximum size must be greater than minimum size"),
            );
            diagnostics.push(d);
            proof {
                assert(diag_views(diagnostics@) =~= d2.push(d@));
                assert(d2.push(d@) =~= d0 + (dd1 + dd2 + seq![d@]));
            }
        } else {
            assert(d2 =~= d0 + (dd1 + dd2 + Seq::<DiagnosticView>::empty()));
        }
    } else {
        match shared {
            Some(t) => {
                let d = Diagnostic::plain(
                    t.range,
                    DiagnosticSeverity::Error,
                    code,
                    String::from_str("shared memory must have a maximum size"),
                );
                let ghost before = diagnostics@;
                diagnostics.push(d);
                proof {
                    assert(diag_views(diagnostics@) =~= diag_views(before).push(d@));
                    assert(diag_views(before).push(d@) =~= d0 + dd1.push(d@));
                }
            },
            None => {},
        }
    }
}

/// The page size a memory type gives, with the report on an invalid one: a
/// readable size other than 1 or 65536 is reported and taken as 1, and an
/// absent or unreadable size is 1.
pub open spec fn page_size_of(node: SyntaxNode) -> (u64, Seq<DiagnosticView>) {
    let sizes = child_nodes_of(node, SyntaxKind::MEM_PAGE_SIZE);
    if sizes.len() == 0 {
        (1, Seq::empty())
    } else {
        let uints = child_tokens_of(sizes[0], SyntaxKind::UNSIGNED_INT);
        if uints.len() == 0 {
            (1, Seq::empty())
        } else {
            match parse_uint_spec(encode_utf8(uints[0].text@), u32::MAX as nat) {
                ParsedUint::Value(v) => if v == 1 || v == 65536 {
                    (v, Seq::empty())
                } else {
                    (
                        1,
                        seq![
                            plain_diag(
                                uints[0].range,
                                DiagnosticSeverity::Error,
                                "mem-type"@,
                                "memory page size must be 1 or 65536"@,
                            ),
                        ],
                    )
                },
                _ => (1, Seq::empty()),
            }
        }
    }
}

/// The largest number of pages a memory can have: the address space divided
/// by the page size, capped at the largest address.
pub open spec fn memory_bound(addr_type: AddrType, page_size: u64) -> u64 {
    match addr_type {
        AddrType::I32 => if page_size == 1 {
            u32::MAX as u64
        } else {
            (0x1_0000_0000int / page_size as int) as u64
        },
        AddrType::I64 => if page_size == 1 {
            u64::MAX
        } else {
            (0x1_0000_0000_0000_0000int / page_size as int) as u64
        },
    }
}

/// The first `shared` keyword of a node.
pub open spec fn shared_keyword(keywords: Seq<SyntaxToken>, n: int) -> Option<SyntaxToken>
    decreases n,
{
    if n <= 0 {
        None
    } else {
        match shared_keyword(keywords, n - 1) {
            Some(t) => Some(t),
            None => if keywords[n - 1].text@ == "shared"@ {
                Some(keywords[n - 1])
            } else {
                None
            },
        }
    }
}

/// The reports on a memory type: an invalid page size, then its limits
/// against the bound its address type and page size allow (see
/// `limits_diags`); nothing without limits.
pub open spec fn mem_type_diags(node: SyntaxNode, addr_type: AddrType) -> Seq<DiagnosticView> {
    let limits = child_nodes_of(node, SyntaxKind::LIMITS);
    if limits.len() == 0 {
        Seq::empty()
    } else {
        let (page_size, d0) = page_size_of(node);
        let bound = memory_bound(addr_type, page_size);
        let keywords = child_tokens_of(node, SyntaxKind::KEYWORD);
        d0 + limits_diags(
            limits[0],
            bound,
            bound,
            "mem-type"@,
            "memory size"@,
            shared_keyword(keywords, keywords.len() as int),
        )
    }
}

fn page_size(diagnostics: &mut Vec<Diagnostic>, node: &SyntaxNode) -> (r: u64)
    ensures
        r == page_size_of(*node).0,
        r == 1 || r == 65536,
        diag_views(final(diagnostics)@) == diag_views(old(diagnostics)@) + page_size_of(*node).1,
{
    let size_node = match node.child_of_kind(SyntaxKind::MEM_PAGE_SIZE) {
        Some(n) => n,
        None => {
            assert(diag_views(diagnostics@) + Seq::<DiagnosticView>::empty() =~= diag_views(diagnostics@));
            return 1;
        },
    };
    let uints = size_node.tokens_of_kind(SyntaxKind::UNSIGNED_INT);
    if uints.len() == 0 {
        assert(diag_views(diagnostics@) + Seq::<DiagnosticView>::empty() =~= diag_views(diagnostics@));
        return 1;
    }
    let token = uints[0];
    assert(uints@.map_values(|t: &SyntaxToken| *t)[0] == *uints@[0]);
    match parse_uint(token.text.as_str(), 0xffff_ffffu64) {
        ParsedUint::Value(v) => {
            if v == 1 || v == 65536 {
                assert(diag_views(diagnostics@) + Seq::<DiagnosticView>::empty() =~= diag_views(diagnostics@));
                v
            } else {
                let d = Diagnostic::plain(
                    token.range,
                    DiagnosticSeverity::Error,
                    "mem-type",
                    String::from_str("memory page size must be 1 or 65536"),
                );
                let ghost before = diagnostics@;
                diagnostics.push(d);
                proof {
                    assert(diag_views(diagnostics@) =~= diag_views(before) + seq![d@]);
                }
                1
            }
        },
        _ => {
            assert(diag_views(diagnostics@) + Seq::<DiagnosticView>::empty() =~= diag_views(diagnostics@));
            1
        },
    }
}

/// Checks the page size and the limits of a memory type.
///
/// `addr_type` is the address type the memory is declared with.
pub fn check_mem_type(diagnostics: &mut Vec<Diagnostic>, node: &SyntaxNode, addr_type: AddrType)
    ensures
        diag_views(final(diagnostics)@) == diag_views(old(diagnostics)@) + mem_type_diags(*node, addr_type),
{
    let limits = match node.child_of_kind(SyntaxKind::LIMITS) {
        Some(l) => l,
        None => {
            assert(diag_views(diagnostics@) + Seq::<DiagnosticView>::empty() =~= diag_views(diagnostics@));
            return;
        },
    };
    let ghost d0 = diag_views(diagnostics@);
    let size = page_size(diagnostics, node);
    let ghost d1 = diag_views(diagnostics@);
    let bound = match addr_type {
        AddrType::I32 => if size == 1 {
            0xffff_ffffu64
        } else {
            0x1_0000_0000u64 / size
        },
        AddrType::I64 => if size == 1 {
            0xffff_ffff_ffff_ffffu64
        } else {
            (0x1_0000_0000_0000_0000u128 / size as u128) as u64
        },
    };
    assert(bound == memory_bound(addr_type, size)) by {
        if addr_type == AddrType::I64 && size != 1 {
            assert(size == 65536);
        }
    }
    let keywords = node.tokens_of_kind(SyntaxKind::KEYWORD);
    let shared = find_shared(&keywords);
    check_limits(diagnostics, limits, bound, bound, "mem-type", "memory size", shared);
    assert(diag_views(diagnostics@) =~= d0 + mem_type_diags(*node, addr_type));
}

fn find_shared<'a>(keywords: &Vec<&'a SyntaxToken>) -> (r: Option<&'a SyntaxToken>)
    ensures
        match shared_keyword(keywords@.map_values(|t: &SyntaxToken| *t), keywords@.len() as int) {
            Some(t) => r matches Some(x) && *x == t,
            None => r is None,
        },
{
    let ghost kws = keywords@.map_values(|t: &SyntaxToken| *t);
    let mut i: usize = 0;
    while i < keywords.len()
        invariant
            i <= keywords@.len(),
            kws == keywords@.map_values(|t: &SyntaxToken| *t),
            shared_keyword(kws, i as int) is None,
        decreases keywords@.len() - i,
    {
        assert(kws[i as int] == *keywords@[i as int]);
        if string_is(&keywords[i].text, "shared") {
            proof {
                lemma_shared_keyword_stable(kws, i + 1, kws.len() as int);
            }
            return Some(keywords[i]);
        }
        i = i + 1;
    }
    None
}

proof fn lemma_shared_keyword_stable(keywords: Seq<SyntaxToken>, a: int, n: int)
    requires
        0 <= a <= n,
        shared_keyword(keywords, a) is Some,
    ensures
        shared_keyword(keywords, n) == shared_keyword(keywords, a),
    decreases n - a,
{
    if n > a {
        lemma_shared_keyword_stable(keywords, a, n - 1);
    }
}

/// The reports on a table type: its limits against the largest address of
/// its address type (see `limits_diags`); nothing without limits.
pub open spec fn table_type_diags(node: SyntaxNode, addr_type: AddrType) -> Seq<DiagnosticView> {
    let limits = child_nodes_of(node, SyntaxKind::LIMITS);
    if limits.len() == 0 {
        Seq::empty()
    } else {
        let bound: u64 = match addr_type {
            AddrType::I32 => u32::MAX as u64,
            AddrType::I64 => u64::MAX,
        };
        limits_diags(limits[0], bound, u64::MAX, "table-type"@, "table limit"@, None)
    }
}

/// Checks the limits of a table type.
///
/// `addr_type` is the address type the table is declared with.
pub fn check_table_type(diagnostics: &mut Vec<Diagnostic>, node: &SyntaxNode, addr_type: AddrType)
    ensures
        diag_views(final(diagnostics)@) == diag_views(old(diagnostics)@) + table_type_diags(*node, addr_type),
{
    let bound = match addr_type {
        AddrType::I32 => 0xffff_ffffu64,
        AddrType::I64 => 0xffff_ffff_ffff_ffffu64,
    };
    match node.child_of_kind(SyntaxKind::LIMITS) {
        Some(limits) => check_limits(
            diagnostics,
            limits,
            bound,
            0xffff_ffff_ffff_ffffu64,
            "table-type",
            "table limit",
            None,
        ),
        None => {
            assert(diag_views(diagnostics@) + Seq::<DiagnosticView>::empty() =~= diag_views(diagnostics@));
        },
    }
}

} // verus!

