//! Value objects describing a target network: the chain descriptor, the retry
//! tuning for the retry-wrapped transport, and plain-value forms of the
//! client library's address and 256-bit integer types.

use vstd::prelude::*;
use vstd::string::StringSliceAdditionalSpecFns;

use crate::error::Error;

verus! {

/// Retry tuning for the retry-wrapped request/response transport: how often to
/// retry on rate limiting and on timeouts, and the initial backoff.
#[derive(Clone, Copy, Debug, PartialEq, Eq, Structural)]
pub struct RetryClientConfig {
    pub rate_limit_retries: u32,
    pub timeout_retries: u32,
    pub initial_backoff_ms: u64,
}

impl RetryClientConfig {
    /// The tuning applied when a chain descriptor carries no override.
    pub open spec fn spec_default() -> RetryClientConfig {
        RetryClientConfig { rate_limit_retries: 10, timeout_retries: 3, initial_backoff_ms: 500 }
    }
}

impl Default for RetryClientConfig {
    fn default() -> (r: RetryClientConfig)
        ensures
            r == RetryClientConfig::spec_default(),
    {
        RetryClientConfig { rate_limit_retries: 10, timeout_retries: 3, initial_backoff_ms: 500 }
    }
}

/// Identifies the target network by numeric id and carries per-chain policy:
/// whether to assert the reported chain id after connecting, and an optional
/// retry override. A bare `Chain::Id` asserts the chain id and uses the
/// default retry tuning.
#[derive(Clone, Copy, Debug, PartialEq, Eq)]
pub enum Chain {
    /// A chain known by numeric id alone; the chain-id assertion is on and the
    /// default retry tuning applies.
    Id(u64),
    /// A fully spelled-out descriptor.
    Custom { id: u64, assert_chain_id: bool, retry_config: Option<RetryClientConfig> },
}

impl Chain {
    /// The numeric chain identifier.
    pub open spec fn spec_id(self) -> u64 {
        match self {
            Chain::Id(id) => id,
            Chain::Custom { id, .. } => id,
        }
    }

    /// Whether a provider handle for this chain must have its reported chain
    /// id checked before it is handed out.
    pub open spec fn spec_assert_chain_id(self) -> bool {
        match self {
            Chain::Id(_) => true,
            Chain::Custom { assert_chain_id, .. } => assert_chain_id,
        }
    }

    /// The retry tuning for this chain: the override if present, otherwise the
    /// default.
    pub open spec fn spec_retry_client_config(self) -> RetryClientConfig {
        match self {
            Chain::Id(_) => RetryClientConfig::spec_default(),
            Chain::Custom { retry_config, .. } => match retry_config {
                Some(c) => c,
                None => RetryClientConfig::spec_default(),
            },
        }
    }

    pub fn id(&self) -> (r: u64)
        ensures
            r == self.spec_id(),
    {
        match *self {
            Chain::Id(id) => id,
            Chain::Custom { id, .. } => id,
        }
    }

    pub fn assert_chain_id(&self) -> (r: bool)
        ensures
            r == self.spec_assert_chain_id(),
    {
        match *self {
            Chain::Id(_) => true,
            Chain::Custom { assert_chain_id, .. } => assert_chain_id,
        }
    }

    pub fn retry_client_config(&self) -> (r: RetryClientConfig)
        ensures
            r == self.spec_retry_client_config(),
    {
        match *self {
            Chain::Id(_) => RetryClientConfig::default(),
            Chain::Custom { retry_config, .. } => match retry_config {
                Some(c) => c,
                None => RetryClientConfig::default(),
            },
        }
    }
}

/// A 160-bit account address, held as plain integers: the high 32 bits and the
/// low 128 bits of the big-endian value. Stands in for the client library's
/// 20-byte address type; callers that hold such a value convert it field for
/// field.
#[derive(Clone, Copy, Debug, PartialEq, Eq, Hash, Structural)]
pub struct Address {
    pub high: u32,
    pub low: u128,
}

impl Address {
    /// The 160-bit value this pair of limbs denotes.
    pub open spec fn as_nat(self) -> nat {
        (self.high as nat) * 0x100000000000000000000000000000000 + self.low as nat
    }
}

/// ASCII code points used by the hex address syntax.
pub const CHAR_0: u8 = 48;

pub const CHAR_9: u8 = 57;

pub const CHAR_UPPER_A: u8 = 65;

pub const CHAR_UPPER_F: u8 = 70;

pub const CHAR_LOWER_A: u8 = 97;

pub const CHAR_LOWER_F: u8 = 102;

pub const CHAR_LOWER_X: u8 = 120;

/// Whether `b` is an ASCII hex digit.
pub open spec fn is_hex_digit(b: u8) -> bool {
    (CHAR_0 <= b && b <= CHAR_9) || (CHAR_LOWER_A <= b && b <= CHAR_LOWER_F) || (CHAR_UPPER_A <= b && b <= CHAR_UPPER_F)
}

/// The value of an ASCII hex digit.
pub open spec fn hex_digit_value(b: u8) -> nat {
    if CHAR_0 <= b && b <= CHAR_9 {
        (b - CHAR_0) as nat
    } else if CHAR_LOWER_A <= b && b <= CHAR_LOWER_F {
        (b - CHAR_LOWER_A + 10) as nat
    } else {
        (b - CHAR_UPPER_A + 10) as nat
    }
}

pub open spec fn all_hex_digits(s: Seq<u8>) -> bool {
    forall|i: int| 0 <= i < s.len() ==> is_hex_digit(s[i])
}

/// 16 to the power `n`.
pub open spec fn pow16(n: nat) -> nat
    decreases n,
{
    if n == 0 {
        1
    } else {
        16 * pow16((n - 1) as nat)
    }
}

/// The value big-endian hex digits denote.
pub open spec fn hex_seq_value(s: Seq<u8>) -> nat
    decreases s.len(),
{
    if s.len() == 0 {
        0
    } else {
        hex_seq_value(s.drop_last()) * 16 + hex_digit_value(s.last())
    }
}

/// The digit part of a hex address string: the optional `0x` prefix stripped.
pub open spec fn hex_digits_of(s: Seq<u8>) -> Seq<u8> {
    if s.len() >= 2 && s[0] == CHAR_0 && s[1] == CHAR_LOWER_X {
        s.skip(2)
    } else {
        s
    }
}

/// Whether the bytes spell a 160-bit address: an optional `0x` prefix and
/// then exactly forty hex digits.
pub open spec fn valid_address_str(s: Seq<u8>) -> bool {
    hex_digits_of(s).len() == 40 && all_hex_digits(hex_digits_of(s))
}

proof fn lemma_pow16_values()
    ensures
        pow16(8) == 0x100000000,
        pow16(32) == 0x100000000000000000000000000000000,
{
    reveal_with_fuel(pow16, 33);
}

proof fn lemma_pow16_pos(n: nat)
    ensures
        pow16(n) >= 1,
    decreases n,
{
    if n > 0 {
        lemma_pow16_pos((n - 1) as nat);
    }
}

proof fn lemma_pow16_le(a: nat, b: nat)
    requires
        a <= b,
    ensures
        pow16(a) <= pow16(b),
        pow16(a) >= 1,
    decreases b,
{
    lemma_pow16_pos(a);
    if a < b {
        lemma_pow16_le(a, (b - 1) as nat);
        assert(pow16(b) == 16 * pow16((b - 1) as nat));
    }
}

fn hex_digit(b: u8) -> (r: Option<u8>)
    ensures
        r is Some <==> is_hex_digit(b),
        r matches Some(v) ==> v as nat == hex_digit_value(b) && v < 16,
{
    if CHAR_0 <= b && b <= CHAR_9 {
        Some(b - CHAR_0)
    } else if CHAR_LOWER_A <= b && b <= CHAR_LOWER_F {
        Some(b - CHAR_LOWER_A + 10)
    } else if CHAR_UPPER_A <= b && b <= CHAR_UPPER_F {
        Some(b - CHAR_UPPER_A + 10)
    } else {
        None
    }
}

/// Parse `count` big-endian hex digits of `bytes` starting at `start` into
/// one value; `None` when a byte there is no hex digit.
fn parse_hex_limb(bytes: &[u8], start: usize, count: usize) -> (r: Option<u128>)
    requires
        start + count <= bytes@.len(),
        count <= 32,
    ensures
        r is Some <==> all_hex_digits(bytes@.subrange(start as int, start + count)),
        r matches Some(v) ==> v as nat == hex_seq_value(bytes@.subrange(start as int, start + count))
            && (v as nat) < pow16(count as nat),
{
    let n = bytes.len();
    let mut acc: u128 = 0;
    let mut i: usize = 0;
    while i < count
        invariant
            n == bytes@.len(),
            start + count <= bytes@.len(),
            count <= 32,
            i <= count,
            all_hex_digits(bytes@.subrange(start as int, start + i)),
            acc as nat == hex_seq_value(bytes@.subrange(start as int, start + i)),
            (acc as nat) < pow16(i as nat),
        decreases count - i,
    {
        let b = bytes[start + i];
        match hex_digit(b) {
            Some(d) => {
                proof {
                    lemma_pow16_le((i + 1) as nat, 32);
                    lemma_pow16_values();
                    assert(pow16((i + 1) as nat) == 16 * pow16(i as nat));
                    assert((acc as nat) * 16 + 15 < pow16((i + 1) as nat)) by (nonlinear_arith)
                        requires
                            (acc as nat) < pow16(i as nat),
                            pow16((i + 1) as nat) == 16 * pow16(i as nat);
                }
                acc = acc * 16 + d as u128;
                i = i + 1;
                proof {
                    let s1 = bytes@.subrange(start as int, start + i);
                    assert(s1.drop_last() =~= bytes@.subrange(start as int, start + i - 1));
                    assert(s1.last() == b);
                }
            },
            None => {
                proof {
                    let s = bytes@.subrange(start as int, start + count);
                    assert(s[i as int] == b);
                }
                return None;
            },
        }
    }
    Some(acc)
}

proof fn lemma_hex_seq_value_concat(a: Seq<u8>, b: Seq<u8>)
    ensures
        hex_seq_value(a + b) == hex_seq_value(a) * pow16(b.len()) + hex_seq_value(b),
    decreases b.len(),
{
    if b.len() == 0 {
        assert(a + b =~= a);
        assert(pow16(b.len()) == 1);
        assert(hex_seq_value(b) == 0);
        assert(hex_seq_value(a + b) == hex_seq_value(a) * 1 + 0) by (nonlinear_arith)
            requires
                hex_seq_value(a + b) == hex_seq_value(a);
    } else {
        lemma_hex_seq_value_concat(a, b.drop_last());
        assert((a + b).drop_last() =~= a + b.drop_last());
        assert((a + b).last() == b.last());
        let p = pow16((b.len() - 1) as nat);
        let va = hex_seq_value(a);
        let vd = hex_seq_value(b.drop_last());
        let d = hex_digit_value(b.last());
        assert(pow16(b.len()) == 16 * p);
        assert(hex_seq_value(a + b)
            == hex_seq_value((a + b).drop_last()) * 16 + hex_digit_value((a + b).last()));
        assert(hex_seq_value(a + b) == (va * p + vd) * 16 + d);
        assert((va * p + vd) * 16 == va * (16 * p) + vd * 16) by (nonlinear_arith);
        assert(hex_seq_value(b) == vd * 16 + d);
        assert(va * pow16(b.len()) == va * (16 * p)) by (nonlinear_arith)
            requires
                pow16(b.len()) == 16 * p;
        assert(hex_seq_value(a + b) == va * pow16(b.len()) + hex_seq_value(b));
    }
}

/// The configuration error for a string that spells no address.
fn invalid_address_error() -> (e: Error)
    ensures
        e matches Error::Error(m) && m@ == "invalid address"@,
{
    Error::Error(String::from_str("invalid address"))
}

/// Parse a hex account address — an optional `0x` prefix and forty hex
/// digits — into an `Address` holding exactly the value the digits spell.
pub fn address_from(address: &str) -> (r: Result<Address, Error>)
    ensures
        r is Ok <==> valid_address_str(address.spec_bytes()),
        r matches Ok(a) ==> a.as_nat() == hex_seq_value(hex_digits_of(address.spec_bytes())),
        r matches Err(e) ==> e matches Error::Error(m) && m@ == "invalid address"@,
{
    let bytes = address.as_bytes();
    let n = bytes.len();
    let offset: usize = if n >= 2 && bytes[0] == CHAR_0 && bytes[1] == CHAR_LOWER_X {
        2
    } else {
        0
    };
    proof {
        assert(hex_digits_of(bytes@) =~= bytes@.subrange(offset as int, n as int));
    }
    if n - offset != 40 {
        return Err(invalid_address_error());
    }
    let ghost digits = bytes@.subrange(offset as int, n as int);
    let high = parse_hex_limb(bytes, offset, 8);
    let low = parse_hex_limb(bytes, offset + 8, 32);
    proof {
        assert(digits.take(8) =~= bytes@.subrange(offset as int, offset + 8));
        assert(digits.skip(8) =~= bytes@.subrange(offset + 8, offset + 40));
        assert(digits =~= digits.take(8) + digits.skip(8));
        assert forall|i: int| 0 <= i < digits.len() && all_hex_digits(digits.take(8))
            && all_hex_digits(digits.skip(8)) implies is_hex_digit(digits[i]) by {
            if i < 8 {
                assert(digits.take(8)[i] == digits[i]);
            } else {
                assert(digits.skip(8)[i - 8] == digits[i]);
            }
        }
        assert(all_hex_digits(digits) ==> all_hex_digits(digits.take(8)));
        assert(all_hex_digits(digits) ==> all_hex_digits(digits.skip(8)));
    }
    match (high, low) {
        (Some(h), Some(l)) => {
            proof {
                lemma_pow16_values();
                lemma_hex_seq_value_concat(digits.take(8), digits.skip(8));
            }
            Ok(Address { high: h as u32, low: l })
        },
        _ => Err(invalid_address_error()),
    }
}

/// A 256-bit unsigned value, held as plain integers: the high and low 128 bits
/// of the big-endian value. Stands in for the client library's 256-bit integer
/// type, in which nodes report their chain id.
#[derive(Clone, Copy, Debug, PartialEq, Eq, Structural)]
pub struct U256 {
    pub high: u128,
    pub low: u128,
}

impl U256 {
    /// The value this pair of limbs denotes.
    pub open spec fn as_nat(self) -> nat {
        (self.high as nat) * 0x100000000000000000000000000000000 + self.low as nat
    }

    pub fn from_u64(v: u64) -> (r: U256)
        ensures
            r.as_nat() == v as nat,
    {
        U256 { high: 0, low: v as u128 }
    }

    /// Whether this 256-bit value equals the 64-bit value `v`.
    pub fn equals_u64(&self, v: u64) -> (r: bool)
        ensures
            r <==> self.as_nat() == v as nat,
    {
        proof {
            if self.high >= 1 {
                assert(self.high * 0x100000000000000000000000000000000
                    >= 0x100000000000000000000000000000000) by (nonlinear_arith)
                    requires self.high >= 1;
            }
        }
        self.high == 0 && self.low == v as u128
    }
}

} // verus!
