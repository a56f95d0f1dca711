//! Device selection: pick the printer out of the enumerated USB devices by
//! its vendor/product identifier, first match first.

use vstd::prelude::*;
use crate::error::SetupError;
use crate::PRODUCT_ID;
use crate::VENDOR_ID;

verus! {

/// The identity a USB device reports in its device descriptor.
#[derive(Clone, Copy, Debug, PartialEq, Eq, Structural)]
pub struct DeviceId {
    /// The vendor identifier.
    pub vendor_id: u16,
    /// The product identifier.
    pub product_id: u16,
}

/// Whether a device identity is the supported printer's.
pub open spec fn spec_is_target(d: DeviceId) -> bool {
    d.vendor_id == VENDOR_ID && d.product_id == PRODUCT_ID
}

/// Whether this device identity matches the supported printer family.
pub fn is_target_device(d: &DeviceId) -> (r: bool)
    ensures
        r == spec_is_target(*d),
{
    d.vendor_id == VENDOR_ID && d.product_id == PRODUCT_ID
}

/// Find the first device at index `from` or later whose identity matches
/// the supported printer family; `None` when no device from there on
/// matches. Starting past the first match lets a caller move on to the
/// next candidate when a matching device cannot be opened.
pub fn first_target_device(ids: &Vec<DeviceId>, from: usize) -> (r: Option<usize>)
    ensures
        match r {
            Some(i) => {
                &&& from <= i < ids@.len()
                &&& spec_is_target(ids@[i as int])
                &&& forall|j: int| from <= j < i ==> !#[trigger] spec_is_target(ids@[j])
            },
            None => forall|j: int|
                from <= j < ids@.len() ==> !#[trigger] spec_is_target(ids@[j]),
        },
{
    let mut i: usize = from;
    while i < ids.len()
        invariant
            from <= i,
            i <= ids@.len() || i == from,
            forall|j: int| from <= j < i ==> !#[trigger] spec_is_target(ids@[j]),
        decreases ids@.len() - i,
    {
        if is_target_device(&ids[i]) {
            return Some(i);
        }
        i = i + 1;
    }
    None
}

/// Locate the printer among the enumerated device identities: the first
/// match wins, and when nothing matches the construction fails with
/// `DeviceNotFound` — in particular, no interface is claimed in that case,
/// since claiming only ever happens after a device has been located.
pub fn locate_target(ids: &Vec<DeviceId>) -> (r: Result<usize, SetupError>)
    ensures
        match r {
            Ok(i) => {
                &&& i < ids@.len()
                &&& spec_is_target(ids@[i as int])
                &&& forall|j: int| 0 <= j < i ==> !#[trigger] spec_is_target(ids@[j])
            },
            Err(e) => {
                &&& e == SetupError::DeviceNotFound
                &&& forall|j: int|
                    0 <= j < ids@.len() ==> !#[trigger] spec_is_target(ids@[j])
            },
        },
{
    match first_target_device(ids, 0) {
        Some(i) => Ok(i),
        None => Err(SetupError::DeviceNotFound),
    }
}

} // verus!
