//! The host's rent: the balance an account must hold to stay alive, by the
//! size of its data.

use vstd::prelude::*;

verus! {

/// Bytes that the host adds to an account's data length when it prices it.
pub const ACCOUNT_STORAGE_OVERHEAD: u64 = 128;

/// The longest account data that the host permits, 10 MiB.
pub const MAX_PERMITTED_DATA_LENGTH: u64 = 10485760;

/// The bits of the exemption threshold 1.0.
pub const THRESHOLD_ONE: u64 = 0x3ff0_0000_0000_0000;

/// The bits of the exemption threshold 2.0.
pub const THRESHOLD_TWO: u64 = 0x4000_0000_0000_0000;

/// The highest rate that the host prices with the threshold 1.0.
pub const MAX_LAMPORTS_PER_BYTE_ONE: u64 = 1_759_197_129_867;

/// The highest rate that the host prices with the threshold 2.0.
pub const MAX_LAMPORTS_PER_BYTE_TWO: u64 = 879_598_564_933;

/// What the host returns for a threshold other than 1.0 and 2.0: the base
/// price, scaled by the floating-point number whose bits are `threshold`.
pub uninterp spec fn scaled_balance(base: u64, threshold: u64) -> u64;

/// The host's rent parameters.
#[derive(Clone, Copy, Debug, PartialEq, Eq, Structural)]
pub struct Rent {
    /// Rental rate in lamports per byte.
    pub lamports_per_byte: u64,
    /// The bits of the 64-bit floating-point exemption threshold.
    pub exemption_threshold: u64,
    /// Carried for the host, not read here.
    pub burn_percent: u8,
}

/// The price of `data_len` bytes before the threshold is applied.
pub open spec fn base_balance(lamports_per_byte: u64, data_len: usize) -> int {
    (ACCOUNT_STORAGE_OVERHEAD + data_len) * lamports_per_byte
}

/// Whether the host refuses to price with this rate and threshold.
pub open spec fn rate_too_high(lamports_per_byte: u64, threshold: u64) -> bool {
    ||| lamports_per_byte > MAX_LAMPORTS_PER_BYTE_TWO && threshold == THRESHOLD_TWO
    ||| lamports_per_byte > MAX_LAMPORTS_PER_BYTE_ONE && threshold == THRESHOLD_ONE
}

/// The host's minimum balance for `data_len` bytes, where it gives one.
pub open spec fn host_minimum_balance(
    lamports_per_byte: u64,
    threshold: u64,
    data_len: usize,
) -> Option<u64> {
    if data_len > MAX_PERMITTED_DATA_LENGTH || rate_too_high(lamports_per_byte, threshold) {
        None
    } else if threshold == THRESHOLD_ONE {
        Some(base_balance(lamports_per_byte, data_len) as u64)
    } else if threshold == THRESHOLD_TWO {
        Some((2 * base_balance(lamports_per_byte, data_len)) as u64)
    } else {
        Some(scaled_balance(base_balance(lamports_per_byte, data_len) as u64, threshold))
    }
}

/// `solana_program::rent::Rent::try_minimum_balance`, on a `Rent` built from
/// the three fields. It gives nothing for data beyond the permitted length and
/// for a rate above the limit of the thresholds 1.0 and 2.0; with those two
/// thresholds it gives the base price once or twice; with any other it scales
/// the base price in floating point. The base price must fit in 64 bits in
/// that last case, where the host multiplies unchecked.
#[verifier::external_body]
#[allow(deprecated)]
fn host_try_minimum_balance(
    lamports_per_byte: u64,
    exemption_threshold: u64,
    burn_percent: u8,
    data_len: usize,
) -> (r: Option<u64>)
    requires
        exemption_threshold != THRESHOLD_ONE && exemption_threshold != THRESHOLD_TWO
            && data_len <= MAX_PERMITTED_DATA_LENGTH ==> base_balance(lamports_per_byte, data_len)
            <= u64::MAX,
    ensures
        r is Some <==> (data_len <= MAX_PERMITTED_DATA_LENGTH && !rate_too_high(
            lamports_per_byte,
            exemption_threshold,
        )),
        r is Some && exemption_threshold == THRESHOLD_ONE ==> r.unwrap() == base_balance(
            lamports_per_byte,
            data_len,
        ),
        r is Some && exemption_threshold == THRESHOLD_TWO ==> r.unwrap() == 2 * base_balance(
            lamports_per_byte,
            data_len,
        ),
        r is Some && exemption_threshold != THRESHOLD_ONE && exemption_threshold != THRESHOLD_TWO
            ==> r.unwrap() == scaled_balance(
            base_balance(lamports_per_byte, data_len) as u64,
            exemption_threshold,
        ),
{
    let rent = solana_program::rent::Rent {
        lamports_per_byte,
        exemption_threshold: exemption_threshold.to_le_bytes(),
        burn_percent,
    };
    rent.try_minimum_balance(data_len)
}

/// The price of an account by its minimum balance: that balance, or the
/// largest amount for an account that has none.
pub open spec fn spec_price(minimum_balance: Option<u64>) -> u64 {
    match minimum_balance {
        Some(balance) => balance,
        None => u64::MAX,
    }
}

/// Prices an account by its minimum balance. An account that the host gives
/// no minimum balance costs the largest amount, so that no limit covers it.
pub fn price(minimum_balance: Option<u64>) -> (r: u64)
    ensures
        r == spec_price(minimum_balance),
{
    match minimum_balance {
        Some(balance) => balance,
        None => u64::MAX,
    }
}

impl Rent {
    /// Whether the base price of `data_len` bytes fits in 64 bits wherever the
    /// host would scale it.
    pub open spec fn priceable(&self, data_len: usize) -> bool {
        self.exemption_threshold != THRESHOLD_ONE && self.exemption_threshold != THRESHOLD_TWO
            && data_len <= MAX_PERMITTED_DATA_LENGTH ==> base_balance(
            self.lamports_per_byte,
            data_len,
        ) <= u64::MAX
    }

    /// The minimum balance for `data_len` bytes: the host's, where it gives
    /// one and the base price fits in 64 bits.
    pub open spec fn spec_try_minimum_balance(&self, data_len: usize) -> Option<u64> {
        if self.priceable(data_len) {
            host_minimum_balance(self.lamports_per_byte, self.exemption_threshold, data_len)
        } else {
            None
        }
    }

    /// The price charged for `data_len` bytes: the minimum balance, or the
    /// largest amount where there is none.
    pub open spec fn spec_minimum_balance(&self, data_len: usize) -> u64 {
        spec_price(self.spec_try_minimum_balance(data_len))
    }

    /// The host's default parameters with the given rate.
    pub fn with_lamports_per_byte(lamports_per_byte: u64) -> (r: Rent)
        ensures
            r == (Rent { lamports_per_byte, exemption_threshold: THRESHOLD_ONE, burn_percent: 50 }),
    {
        Rent { lamports_per_byte, exemption_threshold: THRESHOLD_ONE, burn_percent: 50 }
    }

    /// The minimum balance for an account of `data_len` bytes, if the host
    /// prices it.
    pub fn try_minimum_balance(&self, data_len: usize) -> (r: Option<u64>)
        ensures
            r == self.spec_try_minimum_balance(data_len),
    {
        if self.exemption_threshold != THRESHOLD_ONE && self.exemption_threshold != THRESHOLD_TWO
            && data_len as u64 <= MAX_PERMITTED_DATA_LENGTH {
            let bytes: u64 = ACCOUNT_STORAGE_OVERHEAD + data_len as u64;
            if bytes.checked_mul(self.lamports_per_byte).is_none() {
                return None;
            }
        }
        host_try_minimum_balance(
            self.lamports_per_byte,
            self.exemption_threshold,
            self.burn_percent,
            data_len,
        )
    }

    /// The price of an account of `data_len` bytes. Data that the host does
    /// not price costs the largest amount.
    pub fn minimum_balance(&self, data_len: usize) -> (r: u64)
        ensures
            r == self.spec_minimum_balance(data_len),
    {
        price(self.try_minimum_balance(data_len))
    }
}

} // verus!
