//! Driver logic for a POS58 thermal receipt printer attached over USB.
//!
//! The printer is located by its fixed vendor/product identifier, the first
//! bulk-OUT endpoint in its descriptor tree is selected, and outgoing bytes
//! are split into chunks no larger than that endpoint's maximum packet size.
//! The modules here hold the decision logic — device selection, endpoint
//! resolution, chunking, and error classification — as verified functions
//! over plain descriptor data; the USB transport itself lives outside.

use vstd::prelude::*;

pub mod device;
pub mod endpoint;
pub mod error;
pub mod transfer;

verus! {

/// Vendor identifier of the supported printer family.
pub const VENDOR_ID: u16 = 0x0416;

/// Product identifier of the supported printer family.
pub const PRODUCT_ID: u16 = 0x5011;

/// Width of the paper roll, in millimetres.
pub const PAPER_WIDTH_MM: u32 = 58;

/// Width of the printable area, in millimetres.
pub const PRINTABLE_WIDTH_MM: u32 = 48;

/// Print resolution, in dots per millimetre.
pub const DOTS_PER_MM: u32 = 8;

} // verus!
