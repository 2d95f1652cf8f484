//! The decision pipeline: filter, scan, and launch.
//!
//! Each enumerated handle is probed for its partition information; the
//! probe's outcome is one of four observable shapes. The scan accepts
//! the first probe that is modern-partitioned and carries the target
//! identifier, skipping every other shape, and reports "not found" when
//! none matches. After the single accepted handle, the pipeline turns
//! fatal: a failure to read its addressing path, to fit the synthesized
//! path, to load or to start the image each ends the run with the
//! corresponding status code, and a later step is never taken once an
//! earlier one has failed.

use vstd::prelude::*;

use crate::devpath::PathNode;
use crate::devpath::TargetPath;
use crate::devpath::nodes_size;
use crate::devpath::synthesize_path;
use crate::devpath::synthesized;
use crate::guid::Guid;
use crate::status::LOAD_ERROR;
use crate::status::NOT_FOUND;
use crate::status::SUCCESS;

verus! {

/// What probing one handle for partition information revealed.
pub enum PartitionProbe {
    /// The partition-information capability could not be opened.
    Unavailable,
    /// The partition-table format tag is not the modern scheme.
    NotGpt,
    /// The format tag is modern but the table entry is unreadable.
    NoEntry,
    /// A modern-partitioned entry carrying its unique identifier.
    Gpt { guid: Guid },
}

/// The filter accepts exactly a modern-partitioned probe whose
/// identifier equals the target, byte for byte.
pub open spec fn accepts(p: PartitionProbe, target: Guid) -> bool {
    p matches PartitionProbe::Gpt { guid } && guid.bytes@ == target.bytes@
}

/// Index `i` holds the first accepted probe of the sequence.
pub open spec fn is_first_match(ps: Seq<PartitionProbe>, target: Guid, i: int) -> bool {
    &&& 0 <= i < ps.len()
    &&& accepts(ps[i], target)
    &&& forall|j: int| 0 <= j < i ==> !accepts(#[trigger] ps[j], target)
}

/// Byte-wise identifier equality.
pub fn guid_eq(a: &Guid, b: &Guid) -> (r: bool)
    ensures
        r <==> a.bytes@ == b.bytes@,
{
    if a.bytes.len() != b.bytes.len() {
        return false;
    }
    let mut i: usize = 0;
    while i < a.bytes.len()
        invariant
            i <= a.bytes@.len(),
            a.bytes@.len() == b.bytes@.len(),
            forall|j: int| 0 <= j < i ==> a.bytes@[j] == b.bytes@[j],
        decreases a.bytes@.len() - i,
    {
        if a.bytes[i] != b.bytes[i] {
            return false;
        }
        i += 1;
    }
    proof {
        assert(a.bytes@ =~= b.bytes@);
    }
    true
}

/// Decide one candidate: accept exactly the modern-partitioned probe
/// whose identifier matches the target.
pub fn filter_probe(p: &PartitionProbe, target: &Guid) -> (r: bool)
    ensures
        r <==> accepts(*p, *target),
{
    match p {
        PartitionProbe::Gpt { guid } => guid_eq(guid, target),
        _ => false,
    }
}

/// Scan the probes in enumeration order and return the index of the
/// first accepted one, or `None` when no probe is accepted.
pub fn scan(probes: &Vec<PartitionProbe>, target: &Guid) -> (r: Option<usize>)
    ensures
        r matches Some(i) ==> is_first_match(probes@, *target, i as int),
        r is None ==> forall|j: int| 0 <= j < probes@.len() ==> !accepts(
            #[trigger] probes@[j],
            *target,
        ),
{
    let mut i: usize = 0;
    while i < probes.len()
        invariant
            i <= probes@.len(),
            forall|j: int| 0 <= j < i ==> !accepts(#[trigger] probes@[j], *target),
        decreases probes@.len() - i,
    {
        if filter_probe(&probes[i], target) {
            return Some(i);
        }
        i += 1;
    }
    None
}

/// With exactly one accepted probe in the set, the first match is that
/// probe, wherever the enumeration placed it.
pub proof fn lemma_unique_match(ps: Seq<PartitionProbe>, target: Guid, i: int, k: int)
    requires
        0 <= i < ps.len(),
        accepts(ps[i], target),
        forall|j: int| 0 <= j < ps.len() && j != i ==> !accepts(#[trigger] ps[j], target),
        is_first_match(ps, target, k),
    ensures
        k == i,
{
}

/// A probe whose capability open failed is never the accepted one:
/// scanning passes over it.
pub proof fn lemma_unavailable_skipped(ps: Seq<PartitionProbe>, target: Guid, j: int, k: int)
    requires
        0 <= j < ps.len(),
        ps[j] is Unavailable,
        is_first_match(ps, target, k),
    ensures
        k != j,
{
}

/// What one whole run decided, over the outcomes the firmware reported.
pub struct RunReport {
    /// The program's final status code.
    pub status: u64,
    /// The index of the accepted handle, if any.
    pub accepted: Option<usize>,
    /// Whether the run reached the image-load request.
    pub load_issued: bool,
    /// Whether the run reached the image-start request.
    pub start_issued: bool,
    /// The synthesized path handed to the loader, if the run got there.
    pub path: Option<TargetPath>,
}

/// Decide one whole run of the pipeline from the outcomes the firmware
/// reported: the per-handle probes, the accepted handle's addressing
/// path (or the code its read failed with), and the status codes of the
/// load and start requests, had they been issued.
///
/// The report records which of the two mutating requests the run
/// issues; the surrounding program performs them under exactly the
/// conditions stated here.
pub fn run_pipeline(
    enumeration_ok: bool,
    probes: &Vec<PartitionProbe>,
    target: &Guid,
    source_path: &Result<Vec<PathNode>, u64>,
    file_path: &Vec<u16>,
    capacity: usize,
    load_status: u64,
    start_status: u64,
) -> (r: RunReport)
    requires
        source_path matches Ok(nodes) ==> forall|i: int|
            0 <= i < nodes@.len() ==> (#[trigger] nodes@[i]).wf(),
        2 * file_path@.len() + 6 <= 0xFFFF,
    ensures
        !enumeration_ok ==> r.status == NOT_FOUND && r.accepted is None,
        r.accepted matches Some(i) ==> enumeration_ok && is_first_match(
            probes@,
            *target,
            i as int,
        ),
        enumeration_ok && r.accepted is None ==> forall|j: int|
            0 <= j < probes@.len() ==> !accepts(#[trigger] probes@[j], *target),
        r.accepted is None ==> r.status == NOT_FOUND && !r.load_issued && !r.start_issued
            && r.path is None,
        source_path matches Err(e) ==> (r.accepted is Some ==> r.status == e && !r.load_issued
            && !r.start_issued && r.path is None),
        source_path matches Ok(nodes) ==> (r.accepted is Some && nodes_size(nodes@) + 2
            * file_path@.len() + 10 > capacity ==> r.status == LOAD_ERROR && !r.load_issued
            && !r.start_issued && r.path is None),
        source_path matches Ok(nodes) ==> (r.accepted is Some && nodes_size(nodes@) + 2
            * file_path@.len() + 10 <= capacity ==> r.load_issued && (r.path matches Some(p)
            && synthesized(p, nodes@, file_path@))),
        r.load_issued && load_status != SUCCESS ==> !r.start_issued && r.status == load_status,
        r.load_issued && load_status == SUCCESS ==> r.start_issued && r.status == start_status,
        r.start_issued ==> r.load_issued && load_status == SUCCESS,
        r.load_issued ==> r.accepted is Some,
{
    if !enumeration_ok {
        return RunReport {
            status: NOT_FOUND,
            accepted: None,
            load_issued: false,
            start_issued: false,
            path: None,
        };
    }
    let accepted = scan(probes, target);
    let idx: usize = match accepted {
        None => {
            return RunReport {
                status: NOT_FOUND,
                accepted: None,
                load_issued: false,
                start_issued: false,
                path: None,
            };
        },
        Some(idx) => idx,
    };
    let nodes = match source_path {
        Err(e) => {
            return RunReport {
                status: *e,
                accepted: Some(idx),
                load_issued: false,
                start_issued: false,
                path: None,
            };
        },
        Ok(nodes) => nodes,
    };
    let path = match synthesize_path(nodes, file_path, capacity) {
        Err(_) => {
            return RunReport {
                status: LOAD_ERROR,
                accepted: Some(idx),
                load_issued: false,
                start_issued: false,
                path: None,
            };
        },
        Ok(path) => path,
    };
    if load_status != SUCCESS {
        return RunReport {
            status: load_status,
            accepted: Some(idx),
            load_issued: true,
            start_issued: false,
            path: Some(path),
        };
    }
    RunReport {
        status: start_status,
        accepted: Some(idx),
        load_issued: true,
        start_issued: true,
        path: Some(path),
    }
}

} // verus!
