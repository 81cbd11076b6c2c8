//! Configuration values: the broker endpoint written as `a.b.c.d:port`, and topic names.
use vstd::prelude::*;

verus! {

/// Values at or above this bound are out of range for every part of an endpoint.
const PART_CAP: u64 = 65536;

/// An IPv4 address `a.b.c.d`, and a port.
#[derive(Debug, Clone, Copy, PartialEq, Eq, Structural)]
pub struct Endpoint {
    pub a: u8,
    pub b: u8,
    pub c: u8,
    pub d: u8,
    pub port: u16,
}

pub open spec fn is_digit(b: u8) -> bool {
    48 <= b && b <= 57
}

/// Whether `b` is the separator that ends part `idx`: `.` after each of the first three
/// octets, `:` after the fourth; nothing follows the port.
pub open spec fn ends_part(idx: int, b: u8) -> bool {
    (idx < 3 && b == 46) || (idx == 3 && b == 58)
}

/// Scanning state after a prefix of the text: index of the current part, the values of the
/// five parts (four octets and the port), and whether the current part has a digit yet.
/// `None` once the prefix cannot begin a well-formed endpoint.
pub open spec fn scan(s: Seq<u8>) -> Option<(int, Seq<int>, bool)>
    decreases s.len(),
{
    if s.len() == 0 {
        Some((0, seq![0int, 0, 0, 0, 0], false))
    } else {
        match scan(s.drop_last()) {
            None => None,
            Some((idx, parts, digits)) => {
                let b = s.last();
                if is_digit(b) {
                    Some((idx, parts.update(idx, parts[idx] * 10 + (b - 48)), true))
                } else if digits && ends_part(idx, b) {
                    Some((idx + 1, parts, false))
                } else {
                    None
                }
            },
        }
    }
}

/// The endpoint that the text describes, if it is well formed: four non-empty runs of
/// decimal digits separated by `.`, then `:` and a non-empty run of digits for the port,
/// with octets below 256 and a port below 65536. Anything else is malformed.
pub open spec fn endpoint_of(s: Seq<u8>) -> Option<Endpoint> {
    match scan(s) {
        Some((idx, p, digits)) => {
            if idx == 4 && digits && p[0] < 256 && p[1] < 256 && p[2] < 256 && p[3] < 256 && p[4]
                < 65536 {
                Some(
                    Endpoint {
                        a: p[0] as u8,
                        b: p[1] as u8,
                        c: p[2] as u8,
                        d: p[3] as u8,
                        port: p[4] as u16,
                    },
                )
            } else {
                None
            }
        },
        None => None,
    }
}

proof fn lemma_scan_shape(s: Seq<u8>)
    ensures
        scan(s) matches Some((idx, parts, _)) ==> 0 <= idx <= 4 && parts.len() == 5 && forall|
            k: int,
        | 0 <= k < 5 ==> parts[k] >= 0,
    decreases s.len(),
{
    if s.len() > 0 {
        lemma_scan_shape(s.drop_last());
    }
}

proof fn lemma_capped_step(v: int, c: int, d: int)
    requires
        v >= 0,
        0 <= d <= 9,
        c == (if v < PART_CAP { v } else { PART_CAP as int }),
    ensures
        (if c * 10 + d < PART_CAP { c * 10 + d } else { PART_CAP as int }) == (if v * 10 + d
            < PART_CAP {
            v * 10 + d
        } else {
            PART_CAP as int
        }),
{
    if v >= PART_CAP {
        assert(v * 10 + d >= PART_CAP) by (nonlinear_arith)
            requires
                v >= PART_CAP,
                d >= 0,
        ;
    }
}

/// Parses an endpoint written as `a.b.c.d:port`.
pub fn parse_endpoint(endpoint: &[u8]) -> (r: Option<Endpoint>)
    ensures
        r == endpoint_of(endpoint@),
{
    let mut parts: Vec<u64> = vec![0, 0, 0, 0, 0];
    let mut i: usize = 0;
    let mut part_idx: usize = 0;
    let mut has_digit = false;
    while i < endpoint.len()
        invariant
            0 <= i <= endpoint@.len(),
            parts@.len() == 5,
            scan(endpoint@.take(i as int)) matches Some((idx, sp, dg)) && idx == part_idx && dg
                == has_digit && sp.len() == 5 && forall|k: int|
                0 <= k < 5 ==> sp[k] >= 0 && parts@[k] == (if sp[k] < PART_CAP {
                    sp[k]
                } else {
                    PART_CAP as int
                }),
        decreases endpoint@.len() - i,
    {
        let b = endpoint[i];
        proof {
            assert(endpoint@.take(i + 1).drop_last() == endpoint@.take(i as int));
            assert(endpoint@.take(i + 1).last() == b);
            lemma_scan_shape(endpoint@.take(i as int));
        }
        if 48 <= b && b <= 57 {
            let cur = parts[part_idx];
            let d = (b - 48) as u64;
            let next: u64 = if cur * 10 + d < PART_CAP {
                cur * 10 + d
            } else {
                PART_CAP
            };
            proof {
                let ghost sp = scan(endpoint@.take(i as int))->Some_0.1;
                lemma_capped_step(sp[part_idx as int], cur as int, d as int);
            }
            parts.set(part_idx, next);
            has_digit = true;
        } else if has_digit && ((part_idx < 3 && b == 46) || (part_idx == 3 && b == 58)) {
            part_idx = part_idx + 1;
            has_digit = false;
        } else {
            assert(scan(endpoint@.take(i + 1)) is None);
            proof {
                lemma_none_stays(endpoint@, i + 1);
            }
            return None;
        }
        i = i + 1;
    }
    assert(endpoint@.take(i as int) == endpoint@);
    if part_idx == 4 && has_digit && parts[0] < 256 && parts[1] < 256 && parts[2] < 256
        && parts[3] < 256 && parts[4] < 65536 {
        Some(
            Endpoint {
                a: parts[0] as u8,
                b: parts[1] as u8,
                c: parts[2] as u8,
                d: parts[3] as u8,
                port: parts[4] as u16,
            },
        )
    } else {
        None
    }
}

/// A malformed prefix makes the whole text malformed.
proof fn lemma_none_stays(s: Seq<u8>, n: int)
    requires
        0 <= n <= s.len(),
        scan(s.take(n)) is None,
    ensures
        scan(s) is None,
    decreases s.len() - n,
{
    if n < s.len() {
        assert(s.take(n + 1).drop_last() == s.take(n));
        lemma_none_stays(s, n + 1);
    } else {
        assert(s.take(n) == s);
    }
}

} // verus!
