//! Chain-id handling: parsing the chain id given on the command line as a
//! positive decimal number, and checking it against the set of networks the
//! explorer client knows.

use vstd::prelude::*;

use crate::errors::EthliftError;

verus! {

/// `c` is a decimal digit.
pub open spec fn is_decimal_digit(c: char) -> bool {
    '0' as u32 <= c as u32 && c as u32 <= '9' as u32
}

/// Every character of `s` is a decimal digit.
pub open spec fn all_decimal_digits(s: Seq<char>) -> bool {
    forall|i: int| 0 <= i < s.len() ==> is_decimal_digit(s[i])
}

/// The number that the digit string `s` denotes in decimal.
pub open spec fn decimal_value(s: Seq<char>) -> int
    decreases s.len(),
{
    if s.len() == 0 {
        0
    } else {
        10 * decimal_value(s.drop_last()) + (s.last() as u32 - '0' as u32)
    }
}

/// The digit part of a decimal literal: the whole string, or what follows a
/// single leading `+` sign.
pub open spec fn spec_digits(s: Seq<char>) -> Seq<char> {
    if s.len() > 0 && s[0] == '+' {
        s.subrange(1, s.len() as int)
    } else {
        s
    }
}

/// `s` denotes a positive decimal number that fits in a `u64`.
pub open spec fn spec_positive_u64_text(s: Seq<char>) -> bool {
    let d = spec_digits(s);
    &&& d.len() > 0
    &&& all_decimal_digits(d)
    &&& 0 < decimal_value(d) <= u64::MAX
}

/// A digit string denotes a non-negative number.
pub proof fn lemma_decimal_value_nonneg(s: Seq<char>)
    requires
        all_decimal_digits(s),
    ensures
        decimal_value(s) >= 0,
    decreases s.len(),
{
    if s.len() > 0 {
        assert(forall|i: int| 0 <= i < s.len() - 1 ==> s.drop_last()[i] == s[i]);
        lemma_decimal_value_nonneg(s.drop_last());
        assert(is_decimal_digit(s.last()));
    }
}

/// A digit string denotes at least as much as any of its prefixes.
pub proof fn lemma_decimal_value_prefix_le(s: Seq<char>, j: int, k: int)
    requires
        all_decimal_digits(s),
        0 <= j <= k <= s.len(),
    ensures
        decimal_value(s.subrange(0, j)) <= decimal_value(s.subrange(0, k)),
    decreases k - j,
{
    if j < k {
        lemma_decimal_value_prefix_le(s, j, k - 1);
        let t = s.subrange(0, k);
        assert(t.drop_last() =~= s.subrange(0, k - 1));
        assert(forall|i: int| 0 <= i < t.len() ==> t[i] == s[i]);
        assert(all_decimal_digits(t));
        assert(forall|i: int| 0 <= i < t.len() - 1 ==> t.drop_last()[i] == t[i]);
        assert(all_decimal_digits(t.drop_last()));
        lemma_decimal_value_nonneg(t.drop_last());
        assert(is_decimal_digit(t.last()));
        assert(decimal_value(t) >= decimal_value(t.drop_last()));
    }
}

/// Parses a positive decimal integer, as the chain id on the command line is
/// given. Returns the number exactly when the text is a decimal literal
/// (optionally with a leading `+`) whose value is positive and fits in a
/// `u64`; any other text is rejected as an invalid chain id.
pub fn parse_positive_int(val: &str) -> (r: Result<u64, EthliftError>)
    ensures
        r is Ok <==> spec_positive_u64_text(val@),
        r matches Ok(n) ==> n == decimal_value(spec_digits(val@)),
        r matches Err(e) ==> e == EthliftError::InvalidChainId,
{
    let n = val.unicode_len();
    let mut start: usize = 0;
    if n > 0 && val.get_char(0) == '+' {
        start = 1;
    }
    let ghost d = spec_digits(val@);
    assert(d =~= val@.subrange(start as int, n as int));
    if start >= n {
        assert(d.len() == 0);
        return Err(EthliftError::InvalidChainId);
    }
    let mut acc: u64 = 0;
    let mut i: usize = start;
    while i < n
        invariant
            n == val@.len(),
            start <= i <= n,
            d == spec_digits(val@),
            d == val@.subrange(start as int, n as int),
            d.len() == n - start,
            forall|j: int| 0 <= j < i - start ==> is_decimal_digit(d[j]),
            acc as int == decimal_value(d.subrange(0, i - start)),
        decreases n - i,
    {
        let c = val.get_char(i);
        assert(c == d[i - start]);
        let cu: u32 = c as u32;
        if cu < '0' as u32 || cu > '9' as u32 {
            proof {
                assert(!is_decimal_digit(d[i as int - start as int]));
                assert(!all_decimal_digits(d));
            }
            return Err(EthliftError::InvalidChainId);
        }
        let dv: u64 = (cu - '0' as u32) as u64;
        let shifted = match acc.checked_mul(10) {
            Some(v) => v,
            None => {
                proof {
                    overflow_means_invalid(d, i as int - start as int, acc as int, dv as int);
                }
                return Err(EthliftError::InvalidChainId);
            },
        };
        let next = match shifted.checked_add(dv) {
            Some(v) => v,
            None => {
                proof {
                    overflow_means_invalid(d, i as int - start as int, acc as int, dv as int);
                }
                return Err(EthliftError::InvalidChainId);
            },
        };
        proof {
            let t = d.subrange(0, i - start + 1);
            assert(t.drop_last() =~= d.subrange(0, i - start));
            assert(t.last() == d[i - start]);
        }
        acc = next;
        i = i + 1;
    }
    assert(d.subrange(0, n as int - start as int) =~= d);
    if acc == 0 {
        return Err(EthliftError::InvalidChainId);
    }
    Ok(acc)
}

/// Whether the chain id names a network the explorer client knows. The
/// answer depends on the id alone.
pub uninterp spec fn known_chain_id(id: u64) -> bool;

/// Relies on `ethers_core::types::Chain`'s `TryFrom<u64>` impl (derived by
/// num_enum's `TryFromPrimitive`): it succeeds exactly when the id is one of
/// the enum's chain ids, a fixed table, so the outcome depends on the id
/// alone.
#[verifier::external_body]
fn chain_id_is_known(id: u64) -> (r: bool)
    ensures
        r == known_chain_id(id),
{
    ethers_core::types::Chain::try_from(id).is_ok()
}

/// Accepts a chain id exactly when it maps to a known network, and hands it
/// back unchanged; any other id is an invalid chain id.
pub fn validate_chain_id(chain_id: u64) -> (r: Result<u64, EthliftError>)
    ensures
        r is Ok <==> known_chain_id(chain_id),
        r matches Ok(v) ==> v == chain_id,
        r matches Err(e) ==> e == EthliftError::InvalidChainId,
{
    if chain_id_is_known(chain_id) {
        Ok(chain_id)
    } else {
        Err(EthliftError::InvalidChainId)
    }
}

/// If accumulating the next digit overflows a `u64`, the whole digit string
/// denotes more than `u64::MAX`, so the text is not a valid chain id.
proof fn overflow_means_invalid(d: Seq<char>, k: int, acc: int, dv: int)
    requires
        0 <= k < d.len(),
        forall|j: int| 0 <= j < k ==> is_decimal_digit(d[j]),
        is_decimal_digit(d[k]),
        acc == decimal_value(d.subrange(0, k)),
        dv == d[k] as u32 - '0' as u32,
        10 * acc + dv > u64::MAX,
    ensures
        !(decimal_value(d) <= u64::MAX) || !all_decimal_digits(d),
{
    if all_decimal_digits(d) {
        let t = d.subrange(0, k + 1);
        assert(t.drop_last() =~= d.subrange(0, k));
        assert(t.last() == d[k]);
        assert(decimal_value(t) == 10 * acc + dv);
        lemma_decimal_value_prefix_le(d, k + 1, d.len() as int);
        assert(d.subrange(0, d.len() as int) =~= d);
    }
}

} // verus!
