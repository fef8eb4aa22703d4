//! The rent schedule, modeled as plain values so that the exemption
//! predicate that gates the executable flag is computed in verified code.
//!
//! The schedule stores its exemption threshold as the eight little-endian
//! bytes of a binary64 value. For the two well-known encodings — one and two
//! — the minimum balance is a pure integer formula, computed and verified
//! here; any other threshold falls back to the runtime's floating-point
//! formula behind a trusted wrapper.
use vstd::prelude::*;
use crate::account::MAX_PERMITTED_DATA_LENGTH;
use crate::env::general_rent_minimum;

verus! {

/// Lamports charged per byte of account data under the default schedule.
pub const DEFAULT_LAMPORTS_PER_BYTE: u64 = 6960;

/// Bytes added to an account's data length in the minimum-balance formula.
pub const ACCOUNT_STORAGE_OVERHEAD: u64 = 128;

/// Portion of collected rent that was formerly burned, kept for layout.
pub const DEFAULT_BURN_PERCENT: u8 = 50;

/// The threshold encoding (binary64 one) under which the minimum balance is
/// the storage cost itself.
pub const SIMPLE_EXEMPTION_THRESHOLD: [u8; 8] = [0, 0, 0, 0, 0, 0, 240, 63];

/// The threshold encoding (binary64 two) under which the minimum balance is
/// twice the storage cost.
pub const DOUBLED_EXEMPTION_THRESHOLD: [u8; 8] = [0, 0, 0, 0, 0, 0, 0, 64];

/// Largest per-byte rate whose product with the padded maximum data length
/// still fits in sixty-four bits.
pub const MAX_LAMPORTS_PER_BYTE_SIMPLE: u64 = 1759197129867;

/// Largest per-byte rate whose doubled product with the padded maximum data
/// length still fits in sixty-four bits.
pub const MAX_LAMPORTS_PER_BYTE_DOUBLED: u64 = 879598564933;

/// Mathematical image of a [`RentSchedule`].
#[verifier::ext_equal]
pub ghost struct RentView {
    pub lamports_per_byte: u64,
    pub exemption_threshold: Seq<u8>,
    pub burn_percent: u8,
}

/// A rent schedule: per-byte rate, exemption-threshold encoding, and the
/// legacy burn percentage.
#[derive(Clone, Copy, Debug, PartialEq, Eq)]
pub struct RentSchedule {
    pub lamports_per_byte: u64,
    pub exemption_threshold: [u8; 8],
    pub burn_percent: u8,
}

impl View for RentSchedule {
    type V = RentView;

    open spec fn view(&self) -> RentView {
        RentView {
            lamports_per_byte: self.lamports_per_byte,
            exemption_threshold: self.exemption_threshold@,
            burn_percent: self.burn_percent,
        }
    }
}

/// The threshold bytes that stand for one.
pub open spec fn spec_simple_threshold() -> Seq<u8> {
    seq![0u8, 0u8, 0u8, 0u8, 0u8, 0u8, 240u8, 63u8]
}

/// The threshold bytes that stand for two.
pub open spec fn spec_doubled_threshold() -> Seq<u8> {
    seq![0u8, 0u8, 0u8, 0u8, 0u8, 0u8, 0u8, 64u8]
}

/// The minimum balance for rent exemption at the given data length, or
/// nothing when the length exceeds the per-account maximum or the rate is
/// too large for the formula. The two well-known thresholds use the integer
/// formula; any other uses the runtime's general formula.
pub open spec fn spec_rent_minimum_balance(r: RentView, data_len: int) -> Option<u64> {
    if data_len > MAX_PERMITTED_DATA_LENGTH {
        None
    } else if (r.lamports_per_byte > MAX_LAMPORTS_PER_BYTE_DOUBLED
        && r.exemption_threshold == spec_doubled_threshold()) || (r.lamports_per_byte
        > MAX_LAMPORTS_PER_BYTE_SIMPLE && r.exemption_threshold == spec_simple_threshold()) {
        None
    } else if r.exemption_threshold == spec_simple_threshold() {
        Some((((ACCOUNT_STORAGE_OVERHEAD + data_len) * r.lamports_per_byte) as u64))
    } else if r.exemption_threshold == spec_doubled_threshold() {
        Some(((2 * (ACCOUNT_STORAGE_OVERHEAD + data_len) * r.lamports_per_byte) as u64))
    } else if r.lamports_per_byte <= MAX_LAMPORTS_PER_BYTE_SIMPLE {
        Some(general_rent_minimum(r.lamports_per_byte, r.exemption_threshold, data_len))
    } else {
        None
    }
}

/// Whether the balance keeps an account of the given data length rent
/// exempt; a length or rate out of bounds is never exempt.
pub open spec fn spec_rent_is_exempt(r: RentView, lamports: u64, data_len: int) -> bool {
    match spec_rent_minimum_balance(r, data_len) {
        Some(minimum_balance) => lamports >= minimum_balance,
        None => false,
    }
}

/// Bytewise equality of two threshold encodings.
fn threshold_eq(a: &[u8; 8], b: &[u8; 8]) -> (r: bool)
    ensures
        r == (a@ == b@),
{
    let mut i: usize = 0;
    while i < 8
        invariant
            i <= 8,
            forall|j: int| 0 <= j < i ==> a@[j] == b@[j],
        decreases 8 - i,
    {
        if a[i] != b[i] {
            return false;
        }
        i += 1;
    }
    proof {
        assert(a@ =~= b@);
    }
    true
}

impl RentSchedule {
    /// The minimum balance for rent exemption at the given data length.
    pub fn minimum_balance(&self, data_len: usize) -> (r: Option<u64>)
        ensures
            r == spec_rent_minimum_balance(self@, data_len as int),
    {
        if data_len as u64 > MAX_PERMITTED_DATA_LENGTH {
            return None;
        }
        let simple = threshold_eq(&self.exemption_threshold, &SIMPLE_EXEMPTION_THRESHOLD);
        let doubled = threshold_eq(&self.exemption_threshold, &DOUBLED_EXEMPTION_THRESHOLD);
        proof {
            assert(SIMPLE_EXEMPTION_THRESHOLD@ =~= spec_simple_threshold());
            assert(DOUBLED_EXEMPTION_THRESHOLD@ =~= spec_doubled_threshold());
        }
        if (self.lamports_per_byte > MAX_LAMPORTS_PER_BYTE_DOUBLED && doubled)
            || (self.lamports_per_byte > MAX_LAMPORTS_PER_BYTE_SIMPLE && simple) {
            return None;
        }
        let padded = ACCOUNT_STORAGE_OVERHEAD + (data_len as u64);
        if simple {
            proof {
                assert(padded * self.lamports_per_byte <= u64::MAX) by (nonlinear_arith)
                    requires
                        padded <= 128 + MAX_PERMITTED_DATA_LENGTH,
                        self.lamports_per_byte <= MAX_LAMPORTS_PER_BYTE_SIMPLE;
            }
            Some(padded * self.lamports_per_byte)
        } else if doubled {
            proof {
                assert(2 * padded * self.lamports_per_byte <= u64::MAX) by (nonlinear_arith)
                    requires
                        padded <= 128 + MAX_PERMITTED_DATA_LENGTH,
                        self.lamports_per_byte <= MAX_LAMPORTS_PER_BYTE_DOUBLED;
            }
            Some(2 * padded * self.lamports_per_byte)
        } else if self.lamports_per_byte <= MAX_LAMPORTS_PER_BYTE_SIMPLE {
            proof {
                assert(padded * self.lamports_per_byte <= u64::MAX) by (nonlinear_arith)
                    requires
                        padded <= 128 + MAX_PERMITTED_DATA_LENGTH,
                        self.lamports_per_byte <= MAX_LAMPORTS_PER_BYTE_SIMPLE;
            }
            Some(crate::env::general_rent_minimum_balance(
                self.lamports_per_byte,
                self.exemption_threshold,
                data_len,
            ))
        } else {
            None
        }
    }

    /// Whether the balance keeps an account of the given data length rent
    /// exempt.
    pub fn is_exempt(&self, lamports: u64, data_len: usize) -> (r: bool)
        ensures
            r == spec_rent_is_exempt(self@, lamports, data_len as int),
    {
        match self.minimum_balance(data_len) {
            Some(minimum_balance) => lamports >= minimum_balance,
            None => false,
        }
    }
}

impl Default for RentSchedule {
    /// The runtime's default schedule: the default per-byte rate under the
    /// threshold encoding for one.
    fn default() -> (r: RentSchedule)
        ensures
            r@.lamports_per_byte == DEFAULT_LAMPORTS_PER_BYTE,
            r@.exemption_threshold == spec_simple_threshold(),
            r@.burn_percent == DEFAULT_BURN_PERCENT,
    {
        let r = RentSchedule {
            lamports_per_byte: DEFAULT_LAMPORTS_PER_BYTE,
            exemption_threshold: SIMPLE_EXEMPTION_THRESHOLD,
            burn_percent: DEFAULT_BURN_PERCENT,
        };
        proof {
            assert(r@.exemption_threshold =~= spec_simple_threshold());
        }
        r
    }
}

} // verus!
