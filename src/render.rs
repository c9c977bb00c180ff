use vstd::prelude::*;
use vstd::string::*;

use crate::entry::{is_enabled, spec_enabled, BootEntryRecord};

verus! {

/// The sixteen lowercase hexadecimal digits.
pub open spec fn lower_digits() -> Seq<char> {
    seq!['0', '1', '2', '3', '4', '5', '6', '7', '8', '9', 'a', 'b', 'c', 'd', 'e', 'f']
}

/// The sixteen uppercase hexadecimal digits.
pub open spec fn upper_digits() -> Seq<char> {
    seq!['0', '1', '2', '3', '4', '5', '6', '7', '8', '9', 'A', 'B', 'C', 'D', 'E', 'F']
}

/// The digit of value `n` (below 16), upper- or lowercase.
pub open spec fn hex_digit(n: int, upper: bool) -> char {
    if upper {
        upper_digits()[n]
    } else {
        lower_digits()[n]
    }
}

fn digit_text(n: u8, upper: bool) -> (r: &'static str)
    requires
        n < 16,
    ensures
        r@ == seq![hex_digit(n as int, upper)],
{
    proof {
        reveal_strlit("0123456789abcdef");
        reveal_strlit("0123456789ABCDEF");
    }
    let n = n as usize;
    if upper {
        "0123456789ABCDEF".substring_char(n, n + 1)
    } else {
        "0123456789abcdef".substring_char(n, n + 1)
    }
}


/// Two lowercase hexadecimal digits for a byte.
pub open spec fn byte_hex(b: u8) -> Seq<char> {
    seq![hex_digit(b as int / 16, false), hex_digit(b as int % 16, false)]
}

/// The canonical display form of a boot identifier: four uppercase hexadecimal digits.
pub open spec fn id_text(id: u16) -> Seq<char> {
    seq![
        hex_digit(id as int / 4096, true),
        hex_digit((id as int / 256) % 16, true),
        hex_digit((id as int / 16) % 16, true),
        hex_digit(id as int % 16, true),
    ]
}

/// The bytes of `data` as two-digit hexadecimal values separated by single spaces.
pub open spec fn hex_list(data: Seq<u8>) -> Seq<char>
    decreases data.len(),
{
    if data.len() == 0 {
        seq![]
    } else if data.len() == 1 {
        byte_hex(data[0])
    } else {
        hex_list(data.drop_last()) + seq![' '] + byte_hex(data.last())
    }
}

/// Renders a byte as two lowercase hexadecimal digits.
pub fn format_byte(b: u8) -> (r: String)
    ensures
        r@ == byte_hex(b),
{
    let mut s = String::from_str(digit_text(b / 16, false));
    s.append(digit_text(b % 16, false));
    s
}

/// Renders a boot identifier as four uppercase hexadecimal digits.
pub fn format_id(id: u16) -> (r: String)
    ensures
        r@ == id_text(id),
{
    let mut s = String::from_str(digit_text((id / 4096) as u8, true));
    s.append(digit_text(((id / 256) % 16) as u8, true));
    s.append(digit_text(((id / 16) % 16) as u8, true));
    s.append(digit_text((id % 16) as u8, true));
    s
}

/// Renders bytes as space-separated two-digit lowercase hexadecimal values.
pub fn format_hex_list(data: &Vec<u8>) -> (r: String)
    ensures
        r@ == hex_list(data@),
{
    let mut s = String::new();
    let mut i: usize = 0;
    while i < data.len()
        invariant
            i <= data@.len(),
            s@ == hex_list(data@.take(i as int)),
        decreases data@.len() - i,
    {
        let b = format_byte(data[i]);
        if i > 0 {
            s.append(" ");
        }
        s.append(b.as_str());
        proof {
            assert(data@.take(i + 1).drop_last() =~= data@.take(i as int));
            reveal_strlit(" ");
        }
        i = i + 1;
    }
    assert(data@.take(data@.len() as int) =~= data@);
    s
}


/// What the attribute bits read as in flag names, as efivar renders them.
pub uninterp spec fn attribute_listing(bits: u32) -> Seq<char>;

/// Relies on efivar's `Display` for `BootEntryAttributes`, which writes the
/// bitflags listing (set flag names joined by " | ", then any unnamed bits in
/// hexadecimal): the text depends on the bits alone.
#[verifier::external_body]
fn attribute_names(bits: u32) -> (r: String)
    ensures
        r@ == attribute_listing(bits),
{
    efivar::boot::BootEntryAttributes::from_bits_retain(bits).to_string()
}

/// The text form of a boolean.
pub open spec fn bool_text(b: bool) -> Seq<char> {
    if b {
        "true"@
    } else {
        "false"@
    }
}

/// The boot target, or the sentinel when there is none.
pub open spec fn file_text(p: Option<String>) -> Seq<char> {
    match p {
        Some(s) => s@,
        None => "None/Invalid"@,
    }
}

/// The optional data as hexadecimal, or "None" when empty.
pub open spec fn optional_data_text(d: Seq<u8>) -> Seq<char> {
    if d.len() == 0 {
        "None"@
    } else {
        hex_list(d)
    }
}

/// The attribute listing, or "None" when no bit is set.
pub open spec fn attributes_text(bits: u32) -> Seq<char> {
    if bits == 0 {
        "None"@
    } else {
        attribute_listing(bits)
    }
}

/// The line that marks the active boot entry.
pub open spec fn active_line() -> Seq<char> {
    "Active boot entry: true"@
}

/// The text of each line in a sequence of strings.
pub open spec fn lines_view(v: Seq<String>) -> Seq<Seq<char>> {
    v.map_values(|s: String| s@)
}

/// The block of lines that renders one boot entry: a blank separator, the
/// identifier, description, enabled flag and boot file; in verbose mode the
/// optional data and the attributes; and the active marker when `id` is the
/// active identifier.
pub open spec fn entry_lines(id: u16, e: BootEntryRecord, verbose: bool, active_id: u16) -> Seq<Seq<char>> {
    let base = seq![
        Seq::<char>::empty(),
        "ID: "@ + id_text(id),
        "Description: "@ + e.description@,
        "Enabled: "@ + bool_text(spec_enabled(e.attributes)),
        "Boot file: "@ + file_text(e.file_path),
    ];
    let detail = if verbose {
        seq![
            "Optional data: "@ + optional_data_text(e.optional_data@),
            "Attributes: "@ + attributes_text(e.attributes),
        ]
    } else {
        seq![]
    };
    let marker = if id == active_id {
        seq![active_line()]
    } else {
        seq![]
    };
    base + detail + marker
}

pub(crate) fn labeled(label: &str, value: &str) -> (r: String)
    ensures
        r@ == label@ + value@,
{
    let mut s = String::from_str(label);
    s.append(value);
    s
}

pub(crate) fn push_line(out: &mut Vec<String>, line: String)
    ensures
        lines_view(final(out)@) == lines_view(old(out)@).push(line@),
{
    out.push(line);
    assert(lines_view(final(out)@) =~= lines_view(old(out)@).push(line@));
}

/// Appends to `out` the lines that render the boot entry `e` with identifier `id`.
pub fn render_entry(id: u16, e: &BootEntryRecord, verbose: bool, active_id: u16, out: &mut Vec<String>)
    ensures
        lines_view(final(out)@) == lines_view(old(out)@) + entry_lines(id, *e, verbose, active_id),
{
    let ghost start = lines_view(out@);
    push_line(out, String::new());
    push_line(out, labeled("ID: ", format_id(id).as_str()));
    push_line(out, labeled("Description: ", e.description.as_str()));
    let enabled = if is_enabled(e.attributes) {
        "true"
    } else {
        "false"
    };
    push_line(out, labeled("Enabled: ", enabled));
    match &e.file_path {
        Some(p) => push_line(out, labeled("Boot file: ", p.as_str())),
        None => push_line(out, labeled("Boot file: ", "None/Invalid")),
    }
    if verbose {
        if e.optional_data.len() == 0 {
            push_line(out, labeled("Optional data: ", "None"));
        } else {
            push_line(out, labeled("Optional data: ", format_hex_list(&e.optional_data).as_str()));
        }
        if e.attributes == 0 {
            push_line(out, labeled("Attributes: ", "None"));
        } else {
            push_line(out, labeled("Attributes: ", attribute_names(e.attributes).as_str()));
        }
    }
    if id == active_id {
        push_line(out, String::from_str("Active boot entry: true"));
    }
    assert(lines_view(out@) =~= start + entry_lines(id, *e, verbose, active_id));
}

} // verus!
