use vstd::prelude::*;

verus! {

/// The attribute bit that marks a boot entry as active (enabled).
pub const LOAD_OPTION_ACTIVE: u32 = 1;

/// One decoded boot entry (a UEFI load option), without its identifier.
pub struct BootEntryRecord {
    /// The attribute bits of the load option.
    pub attributes: u32,
    /// The human-readable label.
    pub description: String,
    /// The boot target, already rendered as text; `None` when absent or unparseable.
    pub file_path: Option<String>,
    /// Vendor-specific bytes carried by the entry.
    pub optional_data: Vec<u8>,
}

/// Whether the active/enabled bit is set in `attributes`.
pub open spec fn spec_enabled(attributes: u32) -> bool {
    attributes & LOAD_OPTION_ACTIVE != 0
}

/// Tells whether the active/enabled bit is set in `attributes`.
pub fn is_enabled(attributes: u32) -> (r: bool)
    ensures
        r == spec_enabled(attributes),
{
    attributes & LOAD_OPTION_ACTIVE != 0
}

/// The little-endian value of two bytes.
pub open spec fn le_u16(lo: u8, hi: u8) -> int {
    lo as int + 256 * (hi as int)
}

/// Decodes the active-entry indicator: exactly two bytes, little-endian.
pub fn decode_active_id(raw: &Vec<u8>) -> (r: Option<u16>)
    ensures
        raw@.len() == 2 <==> r.is_some(),
        r matches Some(id) ==> id as int == le_u16(raw@[0], raw@[1]),
{
    if raw.len() != 2 {
        return None;
    }
    let lo = raw[0] as u16;
    let hi = raw[1] as u16;
    Some(lo + 256 * hi)
}

} // verus!
