use vstd::prelude::*;

use crate::entry::BootEntryRecord;
use crate::render::{active_line, entry_lines, lines_view};
use crate::report::{
    header_line, in_sequence, is_report_of, leftovers, listing_warning, log_view, orphan_section,
    report_lines, report_log, sequence_lines, LogLevel, Report, SequenceSlot, VarRef,
};

verus! {

/// The variables left for the section outside the boot order are exactly
/// those whose identifier does not occur in the boot order, whether or not
/// the boot-order entry with that identifier decoded; each is kept once, in
/// listing order.
pub proof fn lemma_sequence_ids_removed(ordered: Seq<SequenceSlot>, listing: Seq<VarRef>)
    requires
        listing.len() <= usize::MAX,
    ensures
        forall|k: int|
            #![trigger leftovers(ordered, listing)[k]]
            0 <= k < leftovers(ordered, listing).len() ==> {
                &&& leftovers(ordered, listing)[k] < listing.len()
                &&& !in_sequence(ordered, listing[leftovers(ordered, listing)[k] as int].id)
            },
        forall|j: int|
            0 <= j < listing.len() && !in_sequence(ordered, #[trigger] listing[j].id) ==> leftovers(
                ordered,
                listing,
            ).contains(j as usize),
        forall|a: int, b: int|
            0 <= a < b < leftovers(ordered, listing).len() ==> leftovers(ordered, listing)[a]
                < leftovers(ordered, listing)[b],
    decreases listing.len(),
{
    if listing.len() > 0 {
        let prev = listing.drop_last();
        lemma_sequence_ids_removed(ordered, prev);
        let rest = leftovers(ordered, prev);
        let left = leftovers(ordered, listing);
        assert forall|k: int| 0 <= k < left.len() implies left[k] < listing.len() && !in_sequence(
            ordered,
            listing[left[k] as int].id,
        ) by {
            if k < rest.len() {
                assert(rest[k] < prev.len());
                assert(listing[rest[k] as int] == prev[rest[k] as int]);
            }
        }
        assert forall|j: int|
            0 <= j < listing.len() && !in_sequence(ordered, #[trigger] listing[j].id) implies left.contains(
            j as usize,
        ) by {
            if j < prev.len() {
                assert(prev[j] == listing[j]);
                let w = choose|w: int| 0 <= w < rest.len() && rest[w] == j as usize;
                assert(left[w] == j as usize);
            } else {
                assert(left[left.len() - 1] == j as usize);
            }
        }
        assert forall|a: int, b: int| 0 <= a < b < left.len() implies left[a] < left[b] by {
            if b < rest.len() {
            } else {
                assert(rest[a] < prev.len());
            }
        }
    }
}

/// Whether the boot-order position with identifier `id` is rendered.
pub open spec fn shown_in_sequence(ordered: Seq<SequenceSlot>, id: u16) -> bool {
    exists|k: int| 0 <= k < ordered.len() && ordered[k].var.id == id && ordered[k].entry is Ok
}

/// Whether a boot-order position with identifier `id` failed to decode and is logged.
pub open spec fn failed_in_sequence(ordered: Seq<SequenceSlot>, id: u16) -> bool {
    exists|k: int| 0 <= k < ordered.len() && ordered[k].var.id == id && ordered[k].entry is Err
}

/// Whether a variable outside the boot order with identifier `id` is
/// rendered (`ok`) or logged as failed (`!ok`).
pub open spec fn handled_outside(
    ordered: Seq<SequenceSlot>,
    listing: Seq<VarRef>,
    decoded: Seq<Result<BootEntryRecord, String>>,
    id: u16,
    ok: bool,
) -> bool {
    let left = leftovers(ordered, listing);
    exists|k: int|
        0 <= k < left.len() && listing[left[k] as int].id == id && (decoded[k] is Ok) == ok
}

/// No identifier is dropped silently: an identifier occurs in the boot order
/// or in the listing exactly when it is rendered in the boot-order section,
/// logged as failed there, rendered outside the boot order, or logged as
/// failed there.
pub proof fn lemma_no_identifier_dropped(
    ordered: Seq<SequenceSlot>,
    listing: Seq<VarRef>,
    decoded: Seq<Result<BootEntryRecord, String>>,
    id: u16,
)
    requires
        listing.len() <= usize::MAX,
        decoded.len() == leftovers(ordered, listing).len(),
    ensures
        (in_sequence(ordered, id) || exists|j: int| 0 <= j < listing.len() && listing[j].id == id)
            <==> (shown_in_sequence(ordered, id) || failed_in_sequence(ordered, id)
            || handled_outside(ordered, listing, decoded, id, true) || handled_outside(
            ordered,
            listing,
            decoded,
            id,
            false,
        )),
{
    lemma_sequence_ids_removed(ordered, listing);
    let left = leftovers(ordered, listing);
    if in_sequence(ordered, id) {
        let k = choose|k: int| 0 <= k < ordered.len() && ordered[k].var.id == id;
        assert(ordered[k].entry is Ok ==> shown_in_sequence(ordered, id));
        assert(ordered[k].entry is Err ==> failed_in_sequence(ordered, id));
    } else if exists|j: int| 0 <= j < listing.len() && listing[j].id == id {
        let j = choose|j: int| 0 <= j < listing.len() && listing[j].id == id;
        assert(left.contains(j as usize));
        let w = choose|w: int| 0 <= w < left.len() && left[w] == j as usize;
        assert(decoded[w] is Ok ==> handled_outside(ordered, listing, decoded, id, true));
        assert(decoded[w] is Err ==> handled_outside(ordered, listing, decoded, id, false));
    }
    if handled_outside(ordered, listing, decoded, id, true) || handled_outside(
        ordered,
        listing,
        decoded,
        id,
        false,
    ) {
        let k = choose|k: int|
            0 <= k < left.len() && listing[left[k] as int].id == id && (decoded[k] is Ok) == (
            decoded[k] is Ok);
        assert(left[k] < listing.len());
    }
}

/// Reports of the same inputs are identical, line for line and diagnostic
/// for diagnostic.
pub proof fn lemma_report_deterministic(
    r1: Report,
    r2: Report,
    ordered: Seq<SequenceSlot>,
    listing: Result<Vec<VarRef>, String>,
    decoded: Seq<Result<BootEntryRecord, String>>,
    verbose: bool,
    active_id: u16,
)
    requires
        is_report_of(r1, ordered, listing, decoded, verbose, active_id),
        is_report_of(r2, ordered, listing, decoded, verbose, active_id),
    ensures
        lines_view(r1.lines@) == lines_view(r2.lines@),
        log_view(r1.log@) == log_view(r2.log@),
        r1.status == r2.status,
{
}

/// When the listing fails, the report holds the header and the boot-order
/// section only, its first diagnostic is the listing warning, and its lines
/// are exactly those that a successful listing would print before the
/// section of entries outside the boot order.
pub proof fn lemma_listing_failure(
    ordered: Seq<SequenceSlot>,
    err: String,
    vars: Vec<VarRef>,
    decoded: Seq<Result<BootEntryRecord, String>>,
    verbose: bool,
    active_id: u16,
)
    ensures
        report_lines(ordered, Err(err), seq![], verbose, active_id) == seq![header_line()]
            + sequence_lines(ordered, verbose, active_id),
        report_log(ordered, Err(err), seq![])[0] == (LogLevel::Warning, listing_warning(err@)),
        report_lines(ordered, Ok(vars), decoded, verbose, active_id) == report_lines(
            ordered,
            Err(err),
            seq![],
            verbose,
            active_id,
        ) + orphan_section(ordered, Ok(vars), decoded, verbose, active_id),
{
    assert(leftovers(ordered, seq![]) =~= seq![]);
    assert(orphan_section(ordered, Err(err), seq![], verbose, active_id) =~= seq![]);
    assert(report_lines(ordered, Err(err), seq![], verbose, active_id) =~= seq![header_line()]
        + sequence_lines(ordered, verbose, active_id));
}

/// The block of an entry holds the active marker exactly when its identifier
/// is the active one. Entries in the boot order and outside it are rendered
/// by the same block.
pub proof fn lemma_active_marking(id: u16, e: BootEntryRecord, verbose: bool, active_id: u16)
    ensures
        entry_lines(id, e, verbose, active_id).contains(active_line()) <==> id == active_id,
{
    let lines = entry_lines(id, e, verbose, active_id);
    reveal_strlit("Active boot entry: true");
    reveal_strlit("ID: ");
    reveal_strlit("Description: ");
    reveal_strlit("Enabled: ");
    reveal_strlit("Boot file: ");
    reveal_strlit("Optional data: ");
    reveal_strlit("Attributes: ");
    if id == active_id {
        assert(lines[lines.len() - 1] == active_line());
    } else {
        assert forall|k: int| 0 <= k < lines.len() implies lines[k] != active_line() by {
            if k == 0 {
                assert(lines[k].len() == 0);
            } else if k == 6 {
                assert(lines[k][1] != active_line()[1]);
            } else {
                assert(lines[k][0] != active_line()[0]);
            }
        }
    }
}

} // verus!
