use vstd::prelude::*;
use vstd::string::*;
use std::collections::HashSet;

use crate::entry::{decode_active_id, le_u16, BootEntryRecord};
use crate::render::{entry_lines, labeled, lines_view, push_line, render_entry};

verus! {

/// A persisted boot variable before decoding: its identifier and the name
/// under which it is reported.
pub struct VarRef {
    pub id: u16,
    pub name: String,
}

/// One position of the boot order: the variable and the outcome of decoding it.
pub struct SequenceSlot {
    pub var: VarRef,
    pub entry: Result<BootEntryRecord, String>,
}

/// Severity of a diagnostic.
#[derive(PartialEq, Eq, Structural, Clone, Copy, Debug)]
pub enum LogLevel {
    Warning,
    Error,
}

/// One diagnostic emitted while building a report.
pub struct LogRecord {
    pub level: LogLevel,
    pub message: String,
}

/// Outcome of a report.
#[derive(PartialEq, Eq, Structural, Clone, Copy, Debug)]
pub enum ExitStatus {
    Success,
    Failure,
}

/// The console lines of a report, its diagnostics, and its outcome.
pub struct Report {
    pub lines: Vec<String>,
    pub log: Vec<LogRecord>,
    pub status: ExitStatus,
}

/// The level and text of each diagnostic.
pub open spec fn log_view(v: Seq<LogRecord>) -> Seq<(LogLevel, Seq<char>)> {
    v.map_values(|r: LogRecord| (r.level, r.message@))
}

/// The first line of every report.
pub open spec fn header_line() -> Seq<char> {
    "Boot entries in boot sequence (in boot order):"@
}

/// The heading of the section of entries outside the boot order.
pub open spec fn orphan_header_line() -> Seq<char> {
    "Found boot entries not in boot sequence:"@
}

/// The diagnostic for a variable that failed to decode.
pub open spec fn decode_failure_message(name: Seq<char>, err: Seq<char>) -> Seq<char> {
    "Failed to get boot entry from variable "@ + name + ": "@ + err
}

/// The warning given when the full variable set cannot be listed.
pub open spec fn listing_warning(err: Seq<char>) -> Seq<char> {
    "Failed to list EFI variables. You will not be able to see boot variables outside of boot order. Error: "@
        + err
}

/// Whether some position of the boot order has identifier `id`.
pub open spec fn in_sequence(ordered: Seq<SequenceSlot>, id: u16) -> bool {
    exists|k: int| 0 <= k < ordered.len() && ordered[k].var.id == id
}

/// The positions in `listing`, in order, of the variables whose identifier
/// is not in the boot order.
pub open spec fn leftovers(ordered: Seq<SequenceSlot>, listing: Seq<VarRef>) -> Seq<usize>
    decreases listing.len(),
{
    if listing.len() == 0 {
        seq![]
    } else {
        let rest = leftovers(ordered, listing.drop_last());
        if in_sequence(ordered, listing.last().id) {
            rest
        } else {
            rest.push((listing.len() - 1) as usize)
        }
    }
}

/// The variables of the listing, or none when the listing failed.
pub open spec fn listed(listing: Result<Vec<VarRef>, String>) -> Seq<VarRef> {
    match listing {
        Ok(v) => v@,
        Err(_) => seq![],
    }
}

/// The lines of one decoded-or-failed entry.
pub open spec fn slot_lines(
    id: u16,
    entry: Result<BootEntryRecord, String>,
    verbose: bool,
    active_id: u16,
) -> Seq<Seq<char>> {
    match entry {
        Ok(e) => entry_lines(id, e, verbose, active_id),
        Err(_) => seq![],
    }
}

/// The diagnostics of one decoded-or-failed entry.
pub open spec fn slot_log(name: Seq<char>, entry: Result<BootEntryRecord, String>) -> Seq<
    (LogLevel, Seq<char>),
> {
    match entry {
        Ok(_) => seq![],
        Err(m) => seq![(LogLevel::Error, decode_failure_message(name, m@))],
    }
}

/// The lines of the in-sequence section, in boot order.
pub open spec fn sequence_lines(ordered: Seq<SequenceSlot>, verbose: bool, active_id: u16) -> Seq<
    Seq<char>,
>
    decreases ordered.len(),
{
    if ordered.len() == 0 {
        seq![]
    } else {
        sequence_lines(ordered.drop_last(), verbose, active_id) + slot_lines(
            ordered.last().var.id,
            ordered.last().entry,
            verbose,
            active_id,
        )
    }
}

/// The diagnostics of the in-sequence section, in boot order.
pub open spec fn sequence_log(ordered: Seq<SequenceSlot>) -> Seq<(LogLevel, Seq<char>)>
    decreases ordered.len(),
{
    if ordered.len() == 0 {
        seq![]
    } else {
        sequence_log(ordered.drop_last()) + slot_log(
            ordered.last().var.name@,
            ordered.last().entry,
        )
    }
}

/// The lines of the entries outside the boot order: the `k`-th decode
/// outcome belongs to the variable at position `left[k]` of `listing`.
pub open spec fn orphan_lines(
    listing: Seq<VarRef>,
    left: Seq<usize>,
    decoded: Seq<Result<BootEntryRecord, String>>,
    verbose: bool,
    active_id: u16,
) -> Seq<Seq<char>>
    decreases decoded.len(),
{
    if decoded.len() == 0 {
        seq![]
    } else {
        orphan_lines(listing, left, decoded.drop_last(), verbose, active_id) + slot_lines(
            listing[left[decoded.len() - 1] as int].id,
            decoded.last(),
            verbose,
            active_id,
        )
    }
}

/// The diagnostics of the entries outside the boot order.
pub open spec fn orphan_log(
    listing: Seq<VarRef>,
    left: Seq<usize>,
    decoded: Seq<Result<BootEntryRecord, String>>,
) -> Seq<(LogLevel, Seq<char>)>
    decreases decoded.len(),
{
    if decoded.len() == 0 {
        seq![]
    } else {
        orphan_log(listing, left, decoded.drop_last()) + slot_log(
            listing[left[decoded.len() - 1] as int].name@,
            decoded.last(),
        )
    }
}

/// The lines of the section of entries outside the boot order; absent when
/// no such entry is known.
pub open spec fn orphan_section(
    ordered: Seq<SequenceSlot>,
    listing: Result<Vec<VarRef>, String>,
    decoded: Seq<Result<BootEntryRecord, String>>,
    verbose: bool,
    active_id: u16,
) -> Seq<Seq<char>> {
    let left = leftovers(ordered, listed(listing));
    if left.len() == 0 {
        seq![]
    } else {
        seq![Seq::<char>::empty(), orphan_header_line()] + orphan_lines(
            listed(listing),
            left,
            decoded,
            verbose,
            active_id,
        )
    }
}

/// All console lines of a report whose two hard fetches succeeded.
pub open spec fn report_lines(
    ordered: Seq<SequenceSlot>,
    listing: Result<Vec<VarRef>, String>,
    decoded: Seq<Result<BootEntryRecord, String>>,
    verbose: bool,
    active_id: u16,
) -> Seq<Seq<char>> {
    seq![header_line()] + sequence_lines(ordered, verbose, active_id) + orphan_section(
        ordered,
        listing,
        decoded,
        verbose,
        active_id,
    )
}

/// All diagnostics of a report whose two hard fetches succeeded.
pub open spec fn report_log(
    ordered: Seq<SequenceSlot>,
    listing: Result<Vec<VarRef>, String>,
    decoded: Seq<Result<BootEntryRecord, String>>,
) -> Seq<(LogLevel, Seq<char>)> {
    let warning = match listing {
        Ok(_) => seq![],
        Err(m) => seq![(LogLevel::Warning, listing_warning(m@))],
    };
    let left = leftovers(ordered, listed(listing));
    warning + sequence_log(ordered) + orphan_log(listed(listing), left, decoded)
}

/// `r` is the report of the given inputs.
pub open spec fn is_report_of(
    r: Report,
    ordered: Seq<SequenceSlot>,
    listing: Result<Vec<VarRef>, String>,
    decoded: Seq<Result<BootEntryRecord, String>>,
    verbose: bool,
    active_id: u16,
) -> bool {
    &&& lines_view(r.lines@) == report_lines(ordered, listing, decoded, verbose, active_id)
    &&& log_view(r.log@) == report_log(ordered, listing, decoded)
    &&& r.status == ExitStatus::Success
}

/// The identifiers of the boot order, as a set keyed by identifier.
pub fn sequence_ids(ordered: &Vec<SequenceSlot>) -> (r: HashSet<u16>)
    ensures
        forall|id: u16| r@.contains(id) <==> in_sequence(ordered@, id),
{
    broadcast use vstd::std_specs::hash::group_hash_axioms;

    let mut seen: HashSet<u16> = HashSet::new();
    let mut k: usize = 0;
    while k < ordered.len()
        invariant
            k <= ordered@.len(),
            forall|id: u16|
                seen@.contains(id) <==> exists|j: int| 0 <= j < k && ordered@[j].var.id == id,
        decreases ordered@.len() - k,
    {
        seen.insert(ordered[k].var.id);
        proof {
            assert forall|id: u16|
                seen@.contains(id) <==> exists|j: int| 0 <= j < k + 1 && ordered@[j].var.id == id by {
                if id == ordered@[k as int].var.id {
                    assert(exists|j: int| 0 <= j < k + 1 && ordered@[j].var.id == id);
                }
            }
        }
        k = k + 1;
    }
    seen
}

/// The positions in `listing`, in order, of the variables whose identifier
/// does not occur in the boot order.
pub fn leftover_indices(ordered: &Vec<SequenceSlot>, listing: &Vec<VarRef>) -> (r: Vec<usize>)
    ensures
        r@ == leftovers(ordered@, listing@),
{
    let seen = sequence_ids(ordered);
    let mut r: Vec<usize> = Vec::new();
    let mut i: usize = 0;
    while i < listing.len()
        invariant
            i <= listing@.len(),
            forall|id: u16| seen@.contains(id) <==> in_sequence(ordered@, id),
            r@ == leftovers(ordered@, listing@.take(i as int)),
        decreases listing@.len() - i,
    {
        assert(listing@.take(i + 1).drop_last() =~= listing@.take(i as int));
        if !seen.contains(&listing[i].id) {
            r.push(i);
        }
        i = i + 1;
    }
    assert(listing@.take(listing@.len() as int) =~= listing@);
    r
}


fn push_log(log: &mut Vec<LogRecord>, level: LogLevel, message: String)
    ensures
        log_view(final(log)@) == log_view(old(log)@).push((level, message@)),
{
    log.push(LogRecord { level, message });
    assert(log_view(final(log)@) =~= log_view(old(log)@).push((level, message@)));
}

/// Renders one decoded-or-failed entry: its lines when it decoded, a
/// diagnostic naming the variable when it did not.
fn render_slot(
    var: &VarRef,
    entry: &Result<BootEntryRecord, String>,
    verbose: bool,
    active_id: u16,
    lines: &mut Vec<String>,
    log: &mut Vec<LogRecord>,
)
    ensures
        lines_view(final(lines)@) == lines_view(old(lines)@) + slot_lines(
            var.id,
            *entry,
            verbose,
            active_id,
        ),
        log_view(final(log)@) == log_view(old(log)@) + slot_log(var.name@, *entry),
{
    match entry {
        Ok(e) => {
            render_entry(var.id, e, verbose, active_id, lines);
            assert(log_view(log@) =~= log_view(log@) + slot_log(var.name@, *entry));
        },
        Err(m) => {
            let mut msg = labeled("Failed to get boot entry from variable ", var.name.as_str());
            msg.append(": ");
            msg.append(m.as_str());
            push_log(log, LogLevel::Error, msg);
            assert(lines_view(lines@) =~= lines_view(lines@) + slot_lines(var.id, *entry, verbose, active_id));
        },
    }
}

/// Builds the report from the boot order, the full listing of boot
/// variables (or the error that listing it gave), and the decode outcome of
/// each listed variable outside the boot order, in listing order.
pub fn build_report(
    ordered: &Vec<SequenceSlot>,
    listing: &Result<Vec<VarRef>, String>,
    decoded: &Vec<Result<BootEntryRecord, String>>,
    verbose: bool,
    active_id: u16,
) -> (r: Report)
    requires
        decoded@.len() == leftovers(ordered@, listed(*listing)).len(),
    ensures
        is_report_of(r, ordered@, *listing, decoded@, verbose, active_id),
{
    let mut lines: Vec<String> = Vec::new();
    let mut log: Vec<LogRecord> = Vec::new();
    push_line(&mut lines, String::from_str("Boot entries in boot sequence (in boot order):"));
    if let Err(m) = listing {
        push_log(
            &mut log,
            LogLevel::Warning,
            labeled(
                "Failed to list EFI variables. You will not be able to see boot variables outside of boot order. Error: ",
                m.as_str(),
            ),
        );
    }
    let ghost lines0 = lines_view(lines@);
    let ghost log0 = log_view(log@);
    assert(lines0 == seq![header_line()]);
    let mut i: usize = 0;
    while i < ordered.len()
        invariant
            i <= ordered@.len(),
            lines_view(lines@) == lines0 + sequence_lines(ordered@.take(i as int), verbose, active_id),
            log_view(log@) == log0 + sequence_log(ordered@.take(i as int)),
        decreases ordered@.len() - i,
    {
        assert(ordered@.take(i + 1).drop_last() =~= ordered@.take(i as int));
        render_slot(&ordered[i].var, &ordered[i].entry, verbose, active_id, &mut lines, &mut log);
        proof {
            assert(lines_view(lines@) =~= lines0 + sequence_lines(ordered@.take(i + 1), verbose, active_id));
            assert(log_view(log@) =~= log0 + sequence_log(ordered@.take(i + 1)));
        }
        i = i + 1;
    }
    assert(ordered@.take(ordered@.len() as int) =~= ordered@);
    let ghost lines1 = lines_view(lines@);
    let ghost log1 = log_view(log@);
    match listing {
        Ok(vars) => {
            let left = leftover_indices(ordered, vars);
            if left.len() > 0 {
                push_line(&mut lines, String::new());
                push_line(&mut lines, String::from_str("Found boot entries not in boot sequence:"));
                let ghost lines2 = lines_view(lines@);
                let n_vars: usize = vars.len();
                proof {
                    assert(vars@.len() == n_vars as int);
                    leftovers_in_range(ordered@, vars@);
                }
                let mut k: usize = 0;
                while k < decoded.len()
                    invariant
                        k <= decoded@.len(),
                        decoded@.len() == left@.len(),
                        left@ == leftovers(ordered@, vars@),
                        forall|j: int| 0 <= j < left@.len() ==> left@[j] < vars@.len(),
                        lines_view(lines@) == lines2 + orphan_lines(
                            vars@,
                            left@,
                            decoded@.take(k as int),
                            verbose,
                            active_id,
                        ),
                        log_view(log@) == log1 + orphan_log(vars@, left@, decoded@.take(k as int)),
                    decreases decoded@.len() - k,
                {
                    assert(decoded@.take(k + 1).drop_last() =~= decoded@.take(k as int));
                    let var = &vars[left[k]];
                    render_slot(var, &decoded[k], verbose, active_id, &mut lines, &mut log);
                    proof {
                        assert(lines_view(lines@) =~= lines2 + orphan_lines(
                            vars@,
                            left@,
                            decoded@.take(k + 1),
                            verbose,
                            active_id,
                        ));
                        assert(log_view(log@) =~= log1 + orphan_log(vars@, left@, decoded@.take(k + 1)));
                    }
                    k = k + 1;
                }
                assert(decoded@.take(decoded@.len() as int) =~= decoded@);
                assert(lines_view(lines@) =~= report_lines(ordered@, *listing, decoded@, verbose, active_id));
            } else {
                assert(decoded@ =~= seq![]);
                assert(lines_view(lines@) =~= report_lines(ordered@, *listing, decoded@, verbose, active_id));
            }
            assert(log_view(log@) =~= report_log(ordered@, *listing, decoded@));
        },
        Err(_) => {
            assert(decoded@ =~= seq![]);
            assert(lines_view(lines@) =~= report_lines(ordered@, *listing, decoded@, verbose, active_id));
            assert(log_view(log@) =~= report_log(ordered@, *listing, decoded@));
        },
    }
    Report { lines, log, status: ExitStatus::Success }
}

/// Every position that `leftovers` gives lies inside the listing.
proof fn leftovers_in_range(ordered: Seq<SequenceSlot>, listing: Seq<VarRef>)
    requires
        listing.len() <= usize::MAX,
    ensures
        forall|j: int|
            0 <= j < leftovers(ordered, listing).len() ==> leftovers(ordered, listing)[j]
                < listing.len(),
    decreases listing.len(),
{
    if listing.len() > 0 {
        leftovers_in_range(ordered, listing.drop_last());
        let rest = leftovers(ordered, listing.drop_last());
        assert forall|j: int| 0 <= j < leftovers(ordered, listing).len() implies leftovers(ordered, listing)[j]
            < listing.len() by {
            if j < rest.len() {
                assert(rest[j] < listing.len() - 1);
            }
        }
    }
}


/// The active identifier that an indicator read gives, if it is well formed.
pub open spec fn active_of(active_raw: Result<Vec<u8>, String>) -> Option<u16> {
    match active_raw {
        Ok(raw) => if raw@.len() == 2 {
            Some(le_u16(raw@[0], raw@[1]) as u16)
        } else {
            None
        },
        Err(_) => None,
    }
}

/// The diagnostic when the boot order cannot be read.
pub open spec fn order_failure_message(err: Seq<char>) -> Seq<char> {
    "Failed to get boot entries: "@ + err
}

/// The diagnostic when the active-entry indicator cannot be read.
pub open spec fn indicator_failure_message(err: Seq<char>) -> Seq<char> {
    "Failed to read BootCurrent: "@ + err
}

/// The diagnostic when the active-entry indicator is not two bytes long.
pub open spec fn indicator_malformed_message() -> Seq<char> {
    "BootCurrent does not hold a 16-bit little-endian value"@
}

/// `r` reports a fatal error with message `msg`: no console lines, one error.
pub open spec fn is_fatal(r: Report, msg: Seq<char>) -> bool {
    &&& r.lines@.len() == 0
    &&& log_view(r.log@) == seq![(LogLevel::Error, msg)]
    &&& r.status == ExitStatus::Failure
}

fn fatal(msg: String) -> (r: Report)
    ensures
        is_fatal(r, msg@),
{
    let mut log: Vec<LogRecord> = Vec::new();
    push_log(&mut log, LogLevel::Error, msg);
    assert(log_view(log@) =~= seq![(LogLevel::Error, msg@)]);
    Report { lines: Vec::new(), log, status: ExitStatus::Failure }
}

/// Runs the report on the outcome of the three fetches: the boot order, the
/// listing of all boot variables and the active-entry indicator, together
/// with the decode outcome of each listed variable outside the boot order.
/// A failure to read the boot order or the indicator, or an indicator that
/// is not two bytes long, is fatal; everything else yields a report.
pub fn run_report(
    ordered: &Result<Vec<SequenceSlot>, String>,
    listing: &Result<Vec<VarRef>, String>,
    active_raw: &Result<Vec<u8>, String>,
    decoded: &Vec<Result<BootEntryRecord, String>>,
    verbose: bool,
) -> (r: Report)
    requires
        ordered matches Ok(o) ==> (active_of(*active_raw) is Some ==> decoded@.len() == leftovers(
            o@,
            listed(*listing),
        ).len()),
    ensures
        ordered matches Err(m) ==> is_fatal(r, order_failure_message(m@)),
        ordered is Ok ==> (active_raw matches Err(m) ==> is_fatal(
            r,
            indicator_failure_message(m@),
        )),
        ordered is Ok ==> (active_raw matches Ok(raw) ==> (raw@.len() != 2 ==> is_fatal(
            r,
            indicator_malformed_message(),
        ))),
        ordered matches Ok(o) ==> (active_of(*active_raw) matches Some(id) ==> is_report_of(
            r,
            o@,
            *listing,
            decoded@,
            verbose,
            id,
        )),
{
    match ordered {
        Err(m) => fatal(labeled("Failed to get boot entries: ", m.as_str())),
        Ok(o) => match active_raw {
            Err(m) => fatal(labeled("Failed to read BootCurrent: ", m.as_str())),
            Ok(raw) => match decode_active_id(raw) {
                None => fatal(String::from_str("BootCurrent does not hold a 16-bit little-endian value")),
                Some(active_id) => build_report(o, listing, decoded, verbose, active_id),
            },
        },
    }
}

} // verus!
