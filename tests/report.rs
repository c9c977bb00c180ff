use efivarcli::entry::{decode_active_id, is_enabled, BootEntryRecord};
use efivarcli::render::{format_byte, format_hex_list, format_id, render_entry};
use efivarcli::report::{
    build_report, leftover_indices, run_report, sequence_ids, ExitStatus, LogLevel, Report,
    SequenceSlot, VarRef,
};

fn record(description: &str, attributes: u32) -> BootEntryRecord {
    BootEntryRecord {
        attributes,
        description: description.to_string(),
        file_path: Some(format!("\\EFI\\{description}.efi")),
        optional_data: vec![0x01, 0xab],
    }
}

fn var(id: u16) -> VarRef {
    VarRef { id, name: format!("Boot{id:04X}-8be4df61-93ca-11d2-aa0d-00e098032b8c") }
}

fn ok_slot(id: u16, description: &str) -> SequenceSlot {
    SequenceSlot { var: var(id), entry: Ok(record(description, 1)) }
}

fn err_slot(id: u16, err: &str) -> SequenceSlot {
    SequenceSlot { var: var(id), entry: Err(err.to_string()) }
}

fn lines(r: &Report) -> Vec<&str> {
    r.lines.iter().map(|s| s.as_str()).collect()
}

fn scenario_report(verbose: bool) -> Report {
    let ordered = vec![ok_slot(1, "one"), err_slot(2, "parse error")];
    let listing = vec![var(1), var(2), var(3)];
    let left = leftover_indices(&ordered, &listing);
    assert_eq!(left, vec![2]);
    let decoded = vec![Ok(record("three", 0))];
    run_report(&Ok(ordered), &Ok(listing), &Ok(vec![3, 0]), &decoded, verbose)
}

#[test]
fn orphan_marked_active_and_failed_entry_logged() {
    let r = scenario_report(false);
    assert_eq!(r.status, ExitStatus::Success);
    assert_eq!(
        lines(&r),
        vec![
            "Boot entries in boot sequence (in boot order):",
            "",
            "ID: 0001",
            "Description: one",
            "Enabled: true",
            "Boot file: \\EFI\\one.efi",
            "",
            "Found boot entries not in boot sequence:",
            "",
            "ID: 0003",
            "Description: three",
            "Enabled: false",
            "Boot file: \\EFI\\three.efi",
            "Active boot entry: true",
        ]
    );
    assert!(r.lines.iter().all(|l| !l.contains("0002")));
    assert_eq!(r.log.len(), 1);
    assert_eq!(r.log[0].level, LogLevel::Error);
    assert_eq!(
        r.log[0].message,
        "Failed to get boot entry from variable Boot0002-8be4df61-93ca-11d2-aa0d-00e098032b8c: parse error"
    );
}

#[test]
fn verbose_adds_optional_data_and_attributes() {
    let r = scenario_report(true);
    assert_eq!(
        lines(&r)[2..9].to_vec(),
        vec![
            "ID: 0001",
            "Description: one",
            "Enabled: true",
            "Boot file: \\EFI\\one.efi",
            "Optional data: 01 ab",
            "Attributes: LOAD_OPTION_ACTIVE",
            "",
        ]
    );
    assert!(lines(&r).contains(&"Attributes: None"));
}

#[test]
fn non_verbose_hides_optional_data_and_attributes() {
    let mut out = Vec::new();
    let mut e = record("x", 0x109);
    e.optional_data = vec![];
    render_entry(0x10, &e, false, 0, &mut out);
    assert_eq!(out.len(), 5);
    assert!(out.iter().all(|l| !l.starts_with("Optional data") && !l.starts_with("Attributes")));
    let mut out = Vec::new();
    render_entry(0x10, &record("x", 0), false, 0, &mut out);
    assert!(out.iter().all(|l| !l.starts_with("Optional data") && !l.starts_with("Attributes")));
}

#[test]
fn empty_inputs_print_header_only() {
    let r = run_report(&Ok(vec![]), &Ok(vec![]), &Ok(vec![0, 0]), &vec![], true);
    assert_eq!(r.status, ExitStatus::Success);
    assert_eq!(lines(&r), vec!["Boot entries in boot sequence (in boot order):"]);
    assert!(r.log.is_empty());
}

#[test]
fn listing_failure_skips_orphan_section() {
    let ordered = vec![ok_slot(1, "one"), err_slot(2, "bad")];
    let failed = build_report(&ordered, &Err("no access".to_string()), &vec![], false, 1);
    assert_eq!(failed.log[0].level, LogLevel::Warning);
    assert_eq!(
        failed.log[0].message,
        "Failed to list EFI variables. You will not be able to see boot variables outside of boot order. Error: no access"
    );
    assert_eq!(failed.log.len(), 2);
    assert!(!lines(&failed).contains(&"Found boot entries not in boot sequence:"));
    let full = build_report(&ordered, &Ok(vec![var(5)]), &vec![Ok(record("five", 1))], false, 1);
    assert_eq!(lines(&full)[..failed.lines.len()].to_vec(), lines(&failed));
    assert!(lines(&full).contains(&"Found boot entries not in boot sequence:"));
}

#[test]
fn report_is_idempotent() {
    let a = scenario_report(true);
    let b = scenario_report(true);
    assert_eq!(a.lines, b.lines);
    assert_eq!(a.log.len(), b.log.len());
    for (x, y) in a.log.iter().zip(b.log.iter()) {
        assert_eq!(x.level, y.level);
        assert_eq!(x.message, y.message);
    }
}

#[test]
fn active_marker_only_on_matching_entries() {
    let ordered = vec![ok_slot(1, "a"), ok_slot(2, "b"), ok_slot(7, "c")];
    let r = build_report(&ordered, &Ok(vec![var(2), var(9)]), &vec![Ok(record("d", 1))], true, 2);
    let l = lines(&r);
    let marks: Vec<usize> =
        l.iter().enumerate().filter(|(_, s)| **s == "Active boot entry: true").map(|(i, _)| i).collect();
    assert_eq!(marks.len(), 1);
    assert_eq!(l[marks[0] - 6], "ID: 0002");
    let r = build_report(&ordered, &Ok(vec![var(9)]), &vec![Ok(record("d", 1))], false, 9);
    let l = lines(&r);
    assert_eq!(l.iter().filter(|s| **s == "Active boot entry: true").count(), 1);
    assert_eq!(*l.last().unwrap(), "Active boot entry: true");
    let r = build_report(&ordered, &Ok(vec![]), &vec![], false, 0x4242);
    assert!(r.lines.iter().all(|s| s != "Active boot entry: true"));
}

#[test]
fn sequence_ids_removed_once_whatever_the_decode() {
    let ordered = vec![err_slot(4, "bad"), ok_slot(1, "a"), err_slot(4, "again")];
    let listing = vec![var(1), var(2), var(4), var(3), var(2)];
    assert_eq!(leftover_indices(&ordered, &listing), vec![1, 3, 4]);
    let ids = sequence_ids(&ordered);
    assert_eq!(ids.len(), 2);
    assert!(ids.contains(&4) && ids.contains(&1));
    assert!(!ids.contains(&2));
}

#[test]
fn every_identifier_rendered_or_logged() {
    let ordered = vec![ok_slot(1, "a"), err_slot(2, "bad")];
    let listing = vec![var(2), var(3), var(4)];
    let left = leftover_indices(&ordered, &listing);
    assert_eq!(left, vec![1, 2]);
    let decoded = vec![Ok(record("c", 0)), Err("broken".to_string())];
    let r = build_report(&ordered, &Ok(listing), &decoded, false, 0);
    let l = lines(&r);
    assert!(l.contains(&"ID: 0001"));
    assert!(l.contains(&"ID: 0003"));
    assert_eq!(r.log.len(), 2);
    assert!(r.log[0].message.contains("Boot0002"));
    assert!(r.log[1].message.contains("Boot0004"));
    assert!(r.log[1].message.ends_with(": broken"));
}

#[test]
fn fatal_when_boot_order_unavailable() {
    let r = run_report(&Err("denied".to_string()), &Ok(vec![]), &Ok(vec![1, 0]), &vec![], false);
    assert_eq!(r.status, ExitStatus::Failure);
    assert!(r.lines.is_empty());
    assert_eq!(r.log.len(), 1);
    assert_eq!(r.log[0].message, "Failed to get boot entries: denied");
}

#[test]
fn fatal_when_indicator_missing_or_malformed() {
    let r = run_report(&Ok(vec![]), &Ok(vec![]), &Err("not found".to_string()), &vec![], false);
    assert_eq!(r.status, ExitStatus::Failure);
    assert!(r.lines.is_empty());
    assert_eq!(r.log[0].message, "Failed to read BootCurrent: not found");
    let r = run_report(&Ok(vec![]), &Ok(vec![]), &Ok(vec![1, 0, 0]), &vec![], false);
    assert_eq!(r.status, ExitStatus::Failure);
    assert_eq!(r.log[0].level, LogLevel::Error);
    assert_eq!(r.log[0].message, "BootCurrent does not hold a 16-bit little-endian value");
}

#[test]
fn active_indicator_is_little_endian() {
    assert_eq!(decode_active_id(&vec![0x01, 0x02]), Some(0x0201));
    assert_eq!(decode_active_id(&vec![0xff, 0xff]), Some(0xffff));
    assert_eq!(decode_active_id(&vec![3]), None);
    assert_eq!(decode_active_id(&vec![]), None);
    assert_eq!(decode_active_id(&vec![1, 2, 3]), None);
}

#[test]
fn identifiers_and_bytes_in_hex() {
    assert_eq!(format_id(0x1a2b), "1A2B");
    assert_eq!(format_id(0), "0000");
    assert_eq!(format_id(0xffff), "FFFF");
    assert_eq!(format_byte(0x0a), "0a");
    assert_eq!(format_byte(0xf0), "f0");
    assert_eq!(format_hex_list(&vec![]), "");
    assert_eq!(format_hex_list(&vec![0x00]), "00");
    assert_eq!(format_hex_list(&vec![0x0a, 0xff, 0x10]), "0a ff 10");
}

#[test]
fn enabled_flag_and_missing_boot_file() {
    assert!(is_enabled(1));
    assert!(is_enabled(0x109));
    assert!(!is_enabled(0x108));
    let mut e = record("x", 0x8);
    e.file_path = None;
    e.optional_data = vec![];
    let mut out = Vec::new();
    render_entry(0x2a, &e, true, 0x2a, &mut out);
    assert_eq!(
        out,
        vec![
            "",
            "ID: 002A",
            "Description: x",
            "Enabled: false",
            "Boot file: None/Invalid",
            "Optional data: None",
            "Attributes: LOAD_OPTION_HIDDEN",
            "Active boot entry: true",
        ]
    );
}

#[test]
fn attribute_listing_names_flags_and_unknown_bits() {
    let mut out = Vec::new();
    render_entry(1, &record("x", 0x9), true, 0, &mut out);
    assert_eq!(out[6], "Attributes: LOAD_OPTION_ACTIVE | LOAD_OPTION_HIDDEN");
    let mut out = Vec::new();
    render_entry(1, &record("x", 0x10), true, 0, &mut out);
    assert_eq!(out[6], "Attributes: 0x10");
    assert_eq!(out[3], "Enabled: false");
}
