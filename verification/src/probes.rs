//! Temperature probes on the one-wire bus: which discovered devices are
//! bound as probes.

use vstd::prelude::*;

verus! {

/// The error type of the one-wire bus. Nothing is read from it here.
#[verifier::external_type_specification]
#[verifier::external_body]
#[verifier::reject_recursive_types(E)]
pub struct ExOneWireError<E>(one_wire_bus::OneWireError<E>);

/// The family code of the supported probe model, the DS18B20.
pub const PROBE_FAMILY_CODE: u8 = 0x28;

/// Worst-case conversion time of a probe at twelve bits, in milliseconds.
pub const CONVERSION_TIME_MS: u16 = 750;

/// A bound temperature probe, identified by its 64-bit bus address.
#[derive(Clone, Copy, Debug, PartialEq, Eq, Structural)]
pub struct Probe {
    pub address: u64,
}

/// The family code that a device address carries: its least significant
/// byte.
pub open spec fn family_code_of(address: u64) -> u8 {
    (address % 256) as u8
}

/// The probe that a discovered address yields: one for an address of the
/// supported family, none for any other.
pub open spec fn accepted(address: u64) -> Option<Probe> {
    if family_code_of(address) == PROBE_FAMILY_CODE {
        Some(Probe { address })
    } else {
        None
    }
}

/// The probes that a run of discovered addresses yields, in discovery
/// order.
pub open spec fn bound_probes(addresses: Seq<u64>) -> Seq<Probe>
    decreases addresses.len(),
{
    if addresses.len() == 0 {
        seq![]
    } else {
        let before = bound_probes(addresses.drop_last());
        match accepted(addresses.last()) {
            Some(probe) => before.push(probe),
            None => before,
        }
    }
}

/// `one_wire_bus::Address::family_code`: the first byte of the address in
/// little-endian order.
#[verifier::external_body]
fn family_code(address: u64) -> (code: u8)
    ensures
        code == family_code_of(address),
{
    one_wire_bus::Address(address).family_code()
}

/// `ds18b20::FAMILY_CODE`: the family code that the probe driver accepts.
#[verifier::external_body]
fn supported_family_code() -> (code: u8)
    ensures
        code == PROBE_FAMILY_CODE,
{
    ds18b20::FAMILY_CODE
}

/// `ds18b20::Ds18b20::new`: builds a probe handle for an address. It
/// succeeds exactly for an address with the driver's family code, and the
/// handle then carries that address.
#[verifier::external_body]
fn bind(address: u64) -> (bound: Result<Probe, one_wire_bus::OneWireError<()>>)
    ensures
        bound is Ok <==> family_code_of(address) == PROBE_FAMILY_CODE,
        bound matches Ok(probe) ==> probe.address == address,
{
    match ds18b20::Ds18b20::new::<()>(one_wire_bus::Address(address)) {
        Ok(sensor) => Ok(Probe { address: sensor.address().0 }),
        Err(e) => Err(e),
    }
}

/// `ds18b20::Resolution::max_measurement_time_millis` for twelve bits: 750.
#[verifier::external_body]
fn twelve_bit_conversion_time() -> (millis: u16)
    ensures
        millis == CONVERSION_TIME_MS,
{
    ds18b20::Resolution::Bits12.max_measurement_time_millis()
}

/// Decides what a discovered device becomes: a device of another family
/// is passed over, one of the supported family is bound; a device that
/// cannot be bound is skipped.
pub fn accept_device(address: u64) -> (probe: Option<Probe>)
    ensures
        probe == accepted(address),
        probe matches Some(p) ==> family_code_of(p.address) == PROBE_FAMILY_CODE,
{
    if family_code(address) != supported_family_code() {
        return None;
    }
    match bind(address) {
        Ok(sensor) => Some(sensor),
        Err(_) => None,
    }
}

/// How long to wait after a broadcast "start conversion" before the
/// probes hold their results, in milliseconds.
pub fn conversion_delay() -> (millis: u32)
    ensures
        millis == CONVERSION_TIME_MS,
{
    twelve_bit_conversion_time() as u32
}

/// An address of another family never yields a probe.
pub proof fn lemma_other_family_is_passed_over(address: u64)
    requires
        family_code_of(address) != PROBE_FAMILY_CODE,
    ensures
        accepted(address) is None,
{
}

/// Every bound probe carries the supported family code and stems from one
/// of the discovered addresses.
pub proof fn lemma_bound_probes_are_of_the_family(addresses: Seq<u64>)
    ensures
        bound_probes(addresses).len() <= addresses.len(),
        forall|i: int|
            0 <= i < bound_probes(addresses).len() ==> {
                &&& family_code_of(#[trigger] bound_probes(addresses)[i].address)
                    == PROBE_FAMILY_CODE
                &&& addresses.contains(bound_probes(addresses)[i].address)
            },
    decreases addresses.len(),
{
    if addresses.len() > 0 {
        let front = addresses.drop_last();
        lemma_bound_probes_are_of_the_family(front);
        assert forall|i: int| 0 <= i < bound_probes(addresses).len() implies addresses.contains(
            #[trigger] bound_probes(addresses)[i].address,
        ) by {
            if i < bound_probes(front).len() {
                let a = bound_probes(front)[i].address;
                assert(front.contains(a));
                let k = choose|k: int| 0 <= k < front.len() && front[k] == a;
                assert(addresses[k] == a);
            } else {
                assert(addresses[addresses.len() - 1] == addresses.last());
            }
        }
    }
}

} // verus!
