//! Comparison of two runs' measurements, bit for bit.

use vstd::prelude::*;

verus! {

/// The measured quantities of a field run that two identical runs must
/// reproduce exactly: the age, and the bit patterns of the energy ledger and
/// of the channel information.
#[derive(Clone, Copy)]
pub struct MeasurementBits {
    pub age: u64,
    pub introduced: u64,
    pub resident: u64,
    pub radiated: u64,
    pub dissipated: u64,
    pub accounting_error: u64,
    pub channel_information_bits: u64,
}

/// Two runs measured the same: every compared quantity has the same bits.
pub open spec fn spec_same_measurements(a: MeasurementBits, b: MeasurementBits) -> bool {
    &&& a.age == b.age
    &&& a.introduced == b.introduced
    &&& a.resident == b.resident
    &&& a.radiated == b.radiated
    &&& a.dissipated == b.dissipated
    &&& a.accounting_error == b.accounting_error
    &&& a.channel_information_bits == b.channel_information_bits
}

/// Whether two runs measured the same, bit for bit.
pub fn same_measurements(a: MeasurementBits, b: MeasurementBits) -> (r: bool)
    ensures
        r == spec_same_measurements(a, b),
{
    a.age == b.age
        && a.introduced == b.introduced
        && a.resident == b.resident
        && a.radiated == b.radiated
        && a.dissipated == b.dissipated
        && a.accounting_error == b.accounting_error
        && a.channel_information_bits == b.channel_information_bits
}

} // verus!
