use winchain::devpath::PathNode;
use winchain::guid::Guid;
use winchain::pipeline::PartitionProbe;
use winchain::pipeline::RunReport;
use winchain::pipeline::filter_probe;
use winchain::pipeline::run_pipeline;
use winchain::pipeline::scan;
use winchain::status::LOAD_ERROR;
use winchain::status::NOT_FOUND;
use winchain::status::SUCCESS;

fn target() -> Guid {
    Guid::parse(b"01020304-0506-0708-090a-0b0c0d0e0f10").unwrap()
}

fn other() -> Guid {
    Guid::parse(b"ffffffff-ffff-ffff-ffff-ffffffffffff").unwrap()
}

fn source_nodes() -> Vec<PathNode> {
    vec![
        PathNode { node_type: 2, sub_type: 1, data: vec![1, 2, 3, 4] },
        PathNode { node_type: 4, sub_type: 1, data: vec![5, 6] },
    ]
}

fn boot_file() -> Vec<u16> {
    // "\B" in wide characters.
    vec![0x5c, 0x42]
}

fn run(
    probes: &Vec<PartitionProbe>,
    source_path: &Result<Vec<PathNode>, u64>,
    capacity: usize,
    load_status: u64,
    start_status: u64,
) -> RunReport {
    run_pipeline(
        true,
        probes,
        &target(),
        source_path,
        &boot_file(),
        capacity,
        load_status,
        start_status,
    )
}

#[test]
fn filter_accepts_only_matching_gpt() {
    let t = target();
    assert!(filter_probe(&PartitionProbe::Gpt { guid: target() }, &t));
    assert!(!filter_probe(&PartitionProbe::Gpt { guid: other() }, &t));
    assert!(!filter_probe(&PartitionProbe::Unavailable, &t));
    assert!(!filter_probe(&PartitionProbe::NotGpt, &t));
    assert!(!filter_probe(&PartitionProbe::NoEntry, &t));
}

#[test]
fn unique_match_accepted_regardless_of_order() {
    let mixed = vec![
        PartitionProbe::NotGpt,
        PartitionProbe::Unavailable,
        PartitionProbe::Gpt { guid: other() },
        PartitionProbe::Gpt { guid: target() },
        PartitionProbe::NoEntry,
    ];
    assert_eq!(scan(&mixed, &target()), Some(3));
    let reordered = vec![
        PartitionProbe::Gpt { guid: target() },
        PartitionProbe::NotGpt,
        PartitionProbe::Gpt { guid: other() },
    ];
    assert_eq!(scan(&reordered, &target()), Some(0));
}

#[test]
fn first_of_two_matches_wins() {
    let probes = vec![
        PartitionProbe::NotGpt,
        PartitionProbe::Gpt { guid: target() },
        PartitionProbe::Gpt { guid: target() },
    ];
    assert_eq!(scan(&probes, &target()), Some(1));
}

#[test]
fn no_match_terminates_not_found() {
    let probes = vec![
        PartitionProbe::NotGpt,
        PartitionProbe::Gpt { guid: other() },
        PartitionProbe::NoEntry,
    ];
    let report = run(&probes, &Ok(source_nodes()), 128, SUCCESS, SUCCESS);
    assert_eq!(report.status, NOT_FOUND);
    assert_eq!(report.accepted, None);
    assert!(!report.load_issued);
    assert!(!report.start_issued);
    assert!(report.path.is_none());
}

#[test]
fn enumeration_failure_is_not_found() {
    let probes = vec![PartitionProbe::Gpt { guid: target() }];
    let report = run_pipeline(
        false,
        &probes,
        &target(),
        &Ok(source_nodes()),
        &boot_file(),
        128,
        SUCCESS,
        SUCCESS,
    );
    assert_eq!(report.status, NOT_FOUND);
    assert_eq!(report.accepted, None);
    assert!(!report.load_issued);
    assert!(!report.start_issued);
}

#[test]
fn successful_run_loads_and_starts() {
    let probes = vec![
        PartitionProbe::NotGpt,
        PartitionProbe::Gpt { guid: target() },
    ];
    let report = run(&probes, &Ok(source_nodes()), 128, SUCCESS, SUCCESS);
    assert_eq!(report.status, SUCCESS);
    assert_eq!(report.accepted, Some(1));
    assert!(report.load_issued);
    assert!(report.start_issued);
    let path = report.path.unwrap();
    assert_eq!(path.nodes.len(), source_nodes().len() + 2);
}

#[test]
fn transient_open_failure_skips_to_next_handle() {
    let probes = vec![
        PartitionProbe::Unavailable,
        PartitionProbe::Gpt { guid: target() },
    ];
    let report = run(&probes, &Ok(source_nodes()), 128, SUCCESS, SUCCESS);
    assert_eq!(report.accepted, Some(1));
    assert_eq!(report.status, SUCCESS);
}

#[test]
fn path_open_failure_on_accepted_handle_aborts() {
    let probes = vec![
        PartitionProbe::Unavailable,
        PartitionProbe::Gpt { guid: target() },
    ];
    let firmware_code: u64 = 0x8000_0000_0000_0007;
    let report = run(&probes, &Err(firmware_code), 128, SUCCESS, SUCCESS);
    assert_eq!(report.accepted, Some(1));
    assert_eq!(report.status, firmware_code);
    assert!(!report.load_issued);
    assert!(!report.start_issued);
}

#[test]
fn oversized_path_aborts_before_load() {
    let probes = vec![PartitionProbe::Gpt { guid: target() }];
    let report = run(&probes, &Ok(source_nodes()), 12, SUCCESS, SUCCESS);
    assert_eq!(report.status, LOAD_ERROR);
    assert!(!report.load_issued);
    assert!(!report.start_issued);
    assert!(report.path.is_none());
}

#[test]
fn load_failure_propagates_and_skips_start() {
    let probes = vec![PartitionProbe::Gpt { guid: target() }];
    let load_code: u64 = 0x8000_0000_0000_0001;
    let report = run(&probes, &Ok(source_nodes()), 128, load_code, SUCCESS);
    assert!(report.load_issued);
    assert!(!report.start_issued);
    assert_eq!(report.status, load_code);
}

#[test]
fn start_failure_propagates() {
    let probes = vec![PartitionProbe::Gpt { guid: target() }];
    let start_code: u64 = 0x8000_0000_0000_0003;
    let report = run(&probes, &Ok(source_nodes()), 128, SUCCESS, start_code);
    assert!(report.load_issued);
    assert!(report.start_issued);
    assert_eq!(report.status, start_code);
}
