use emt::attribution::{ProcessSample, ProcessStats};
use emt::collectors::dummy::DummyEnergyGroup;
use emt::collectors::nvidia_gpu::NvidiaGpu;
use emt::collectors::rapl::{
    any_name_contains, classify_entry, component_is, DeltaReader, EntryKind, PowercapEntry, Rapl,
};
use emt::energy_group::{EnergyCollector, EnergyRecord, HostProbe};
use emt::sample::{find_counter, CounterFile, TickSample};

fn entry(name: &str, has_energy: bool, component: Option<&str>) -> PowercapEntry {
    PowercapEntry {
        name: name.to_string(),
        path: format!("/sys/class/powercap/{}", name),
        has_energy,
        component: component.map(|c| c.to_string()),
    }
}

fn counter(name: &str, value: &str) -> CounterFile {
    CounterFile {
        path: format!("/sys/class/powercap/{}/energy_uj", name),
        content: Ok(value.to_string()),
    }
}

fn stats(system_cpu: u32, cpu_count: usize, processes: Vec<(u32, u32, u64)>) -> ProcessStats {
    ProcessStats {
        system_cpu,
        cpu_count,
        total_memory: 16_000_000,
        processes: processes
            .into_iter()
            .map(|(pid, cpu_usage, memory)| ProcessSample { pid, cpu_usage, memory })
            .collect(),
    }
}

fn flat(records: &[EnergyRecord]) -> Vec<(u32, i64, String, u64)> {
    records
        .iter()
        .map(|r| (r.pid, r.timestamp, r.device.clone(), r.energy))
        .collect()
}

#[test]
fn first_reading_gives_zero_and_sets_the_baseline() {
    for text in ["0", "1", "262143999999\n", " 77 ", "-5", "9223372036854775807"] {
        let mut reader = DeltaReader::new("/sys/class/powercap/intel-rapl:0".to_string());
        assert_eq!(reader.read_delta(&Ok(text.to_string())), Ok(0));
        assert_eq!(reader.previous_value, Some(text.trim().parse::<i64>().unwrap()));
    }
}

#[test]
fn later_readings_give_the_difference_in_microjoules() {
    let mut reader = DeltaReader::new("d".to_string());
    assert_eq!(reader.read_delta(&Ok("1000\n".to_string())), Ok(0));
    assert_eq!(reader.read_delta(&Ok("11001000\n".to_string())), Ok(11_000_000));
    let joules = 11_000_000f64 * 1e-6;
    assert!((joules - 11.0).abs() < 1e-9);
    assert_eq!(reader.read_delta(&Ok("11001000\n".to_string())), Ok(0));
    assert_eq!(reader.previous_value, Some(11_001_000));
    assert_eq!(reader.observe(11_001_007), 7);
}

#[test]
fn a_wrapped_counter_gives_zero_and_rebaselines() {
    for (previous, next) in [(5_000i64, 4_999i64), (262_143_999_999, 12), (0, -1), (i64::MAX, i64::MIN)] {
        let mut reader = DeltaReader::new("d".to_string());
        assert_eq!(reader.observe(previous), 0);
        assert_eq!(reader.read_delta(&Ok(next.to_string())), Ok(0));
        assert_eq!(reader.previous_value, Some(next));
        assert_eq!(reader.observe(next), 0);
    }
}

#[test]
fn the_largest_difference_fits() {
    let mut reader = DeltaReader::new("d".to_string());
    reader.observe(i64::MIN);
    assert_eq!(reader.observe(i64::MAX), u64::MAX);
}

#[test]
fn unreadable_and_malformed_files_are_errors_that_change_nothing() {
    let mut reader = DeltaReader::new("d".to_string());
    reader.observe(10);
    assert_eq!(
        reader.read_delta(&Err("No such file or directory (os error 2)".to_string())),
        Err("Failed to read energy file: No such file or directory (os error 2)".to_string())
    );
    assert_eq!(
        reader.read_delta(&Ok("12x".to_string())),
        Err("Failed to parse energy value: invalid digit found in string".to_string())
    );
    assert_eq!(
        reader.read_delta(&Ok("   ".to_string())),
        Err("Failed to parse energy value: cannot parse integer from empty string".to_string())
    );
    assert_eq!(
        reader.read_delta(&Ok("9223372036854775808".to_string())),
        Err("Failed to parse energy value: number too large to fit in target type".to_string())
    );
    assert_eq!(
        reader.read_delta(&Ok("-9223372036854775809".to_string())),
        Err("Failed to parse energy value: number too small to fit in target type".to_string())
    );
    assert_eq!(reader.previous_value, Some(10));
}

#[test]
fn the_counter_file_lies_in_the_domain_directory() {
    let reader = DeltaReader::new("/sys/class/powercap/intel-rapl:0".to_string());
    assert_eq!(reader.energy_file(), "/sys/class/powercap/intel-rapl:0/energy_uj");
    assert_eq!(reader.file_path, "/sys/class/powercap/intel-rapl:0");
    assert_eq!(reader.previous_value, None);
}

#[test]
fn socket_numbers_are_read_from_names() {
    assert_eq!(Rapl::parse_socket_id("intel-rapl:0"), Some(0));
    assert_eq!(Rapl::parse_socket_id("intel-rapl:12:3"), Some(12));
    assert_eq!(Rapl::parse_socket_id("amd-rapl:+4"), Some(4));
    assert_eq!(Rapl::parse_socket_id("intel-rapl"), None);
    assert_eq!(Rapl::parse_socket_id("intel-rapl:"), None);
    assert_eq!(Rapl::parse_socket_id("intel-rapl:x"), None);
    assert_eq!(Rapl::parse_socket_id("intel-rapl:-1"), None);
    assert_eq!(Rapl::parse_socket_id("intel-rapl:4294967296"), None);
}

#[test]
fn entries_are_classified_by_name() {
    assert_eq!(classify_entry("intel-rapl:0"), EntryKind::SocketRoot(0));
    assert_eq!(classify_entry("intel-rapl:1:0"), EntryKind::SocketPart(1));
    assert_eq!(classify_entry("intel-rapl:x:0"), EntryKind::SystemPart);
    assert_eq!(classify_entry("intel-rapl:x"), EntryKind::Ignored);
    assert_eq!(classify_entry("intel-rapl"), EntryKind::Ignored);
    assert_eq!(classify_entry("intel-rapl:0:0:0"), EntryKind::Ignored);
    assert_eq!(classify_entry("dtpm:0"), EntryKind::Ignored);
    assert_eq!(classify_entry("intel-rapl-psys:0"), EntryKind::Platform);
    assert_eq!(classify_entry("psys"), EntryKind::Ignored);
    assert_eq!(classify_entry("amd-rapl:3"), EntryKind::SocketRoot(3));
}

#[test]
fn domain_names_are_matched_leniently() {
    assert!(component_is("core\n", "core"));
    assert!(component_is("  CORE ", "core"));
    assert!(component_is("Uncore", "uncore"));
    assert!(!component_is("cores", "core"));
    assert!(!component_is("package-0", "core"));
}

#[test]
fn discovery_sorts_domains_into_sockets() {
    let entries = vec![
        entry("intel-rapl:1:0", true, Some("core\n")),
        entry("intel-rapl", true, None),
        entry("intel-rapl:1", true, Some("package-1\n")),
        entry("intel-rapl:0:1", true, Some("UNCORE\n")),
        entry("intel-rapl:0:0", true, Some("Cores\n")),
        entry("intel-rapl:x:0", true, Some("ram\n")),
        entry("intel-rapl:0", true, Some("package-0\n")),
        entry("intel-rapl:0:2", true, Some("dram\n")),
        entry("intel-rapl:2", false, Some("package-2\n")),
        entry("intel-rapl:3:0", true, None),
        entry("intel-rapl:4:0", false, Some("core\n")),
        entry("intel-rapl-psys:0", true, Some("psys\n")),
        entry("dtpm", true, Some("core\n")),
    ];
    let (sockets, dram, psys) = Rapl::scan_powercap_entries(&entries);
    let ids: Vec<u32> = sockets.iter().map(|s| s.socket_id).collect();
    assert_eq!(ids, vec![0, 1, 3]);
    let paths = |r: &Option<DeltaReader>| r.as_ref().map(|d| d.file_path.clone());
    assert_eq!(paths(&sockets[0].package_reader), Some("/sys/class/powercap/intel-rapl:0".to_string()));
    assert_eq!(paths(&sockets[0].core_reader), Some("/sys/class/powercap/intel-rapl:0:0".to_string()));
    assert_eq!(paths(&sockets[0].uncore_reader), Some("/sys/class/powercap/intel-rapl:0:1".to_string()));
    assert_eq!(paths(&sockets[1].package_reader), Some("/sys/class/powercap/intel-rapl:1".to_string()));
    assert_eq!(paths(&sockets[1].core_reader), Some("/sys/class/powercap/intel-rapl:1:0".to_string()));
    assert_eq!(paths(&sockets[1].uncore_reader), None);
    assert_eq!(paths(&sockets[3 - 1].package_reader), None);
    assert_eq!(paths(&sockets[2].core_reader), None);
    assert_eq!(paths(&dram), Some("/sys/class/powercap/intel-rapl:0:2".to_string()));
    assert_eq!(paths(&psys), Some("/sys/class/powercap/intel-rapl-psys:0".to_string()));
    for socket in &sockets {
        for reader in [&socket.package_reader, &socket.core_reader, &socket.uncore_reader] {
            if let Some(r) = reader {
                assert_eq!(r.previous_value, None);
                assert_ne!(r.file_path, "/sys/class/powercap/intel-rapl:0:2");
            }
        }
    }
}

#[test]
fn a_part_of_a_socket_named_dram_is_the_memory_reader() {
    for label in ["dram", "DRAM\n", " Dram ", "ram", "RAM\n"] {
        let entries = vec![entry("intel-rapl:0:2", true, Some(label))];
        let (sockets, dram, psys) = Rapl::scan_powercap_entries(&entries);
        assert!(sockets.is_empty());
        assert!(psys.is_none());
        let dram = dram.expect("the memory reader");
        assert_eq!(dram.file_path, "/sys/class/powercap/intel-rapl:0:2");
        assert_eq!(dram.previous_value, None);
    }
    assert!(Rapl::component_names_memory(&Some("dram\n".to_string())));
    assert!(!Rapl::component_names_memory(&Some("drams".to_string())));
    assert!(!Rapl::component_names_memory(&Some("core".to_string())));
    assert!(!Rapl::component_names_memory(&None));
}

#[test]
fn a_memory_part_beside_the_other_parts_of_its_socket() {
    let entries = vec![
        entry("intel-rapl:0", true, Some("package-0\n")),
        entry("intel-rapl:0:0", true, Some("core\n")),
        entry("intel-rapl:0:2", true, Some("dram\n")),
    ];
    let mut rapl = Rapl::new(None, &entries);
    assert_eq!(rapl.socket_readers.len(), 1);
    assert!(rapl.socket_readers[0].uncore_reader.is_none());
    assert_eq!(
        rapl.dram_reader.as_ref().map(|r| r.file_path.clone()),
        Some("/sys/class/powercap/intel-rapl:0:2".to_string())
    );
    assert_eq!(
        rapl.counter_files(),
        vec![
            "/sys/class/powercap/intel-rapl:0/energy_uj".to_string(),
            "/sys/class/powercap/intel-rapl:0:0/energy_uj".to_string(),
            "/sys/class/powercap/intel-rapl:0:2/energy_uj".to_string(),
        ]
    );
    rapl.set_tracked_pids(vec![10, 20]);
    let processes = vec![(10, 30_000, 300), (20, 10_000, 100)];
    let first = TickSample::at(
        1,
        vec![counter("intel-rapl:0", "0"), counter("intel-rapl:0:0", "0"), counter("intel-rapl:0:2", "0")],
        stats(40_000, 1, processes.clone()),
    );
    rapl.get_energy_trace(&first).unwrap();
    let second = TickSample::at(
        2,
        vec![
            counter("intel-rapl:0", "0"),
            counter("intel-rapl:0:0", "0"),
            counter("intel-rapl:0:2", "8000000"),
        ],
        stats(40_000, 1, processes),
    );
    let records = rapl.get_energy_trace(&second).unwrap();
    let memory: Vec<(u32, u64)> = records
        .iter()
        .filter(|r| r.device == "rapl:system:dram")
        .map(|r| (r.pid, r.energy))
        .collect();
    assert_eq!(memory, vec![(10, 6_000_000), (20, 2_000_000)]);
}

#[test]
fn a_part_of_a_socket_with_an_unknown_name_reads_nothing() {
    let entries = vec![entry("intel-rapl:5:0", true, Some("package-5\n"))];
    let (sockets, dram, psys) = Rapl::scan_powercap_entries(&entries);
    assert_eq!(sockets.len(), 1);
    assert_eq!(sockets[0].socket_id, 5);
    assert!(sockets[0].package_reader.is_none());
    assert!(sockets[0].core_reader.is_none());
    assert!(sockets[0].uncore_reader.is_none());
    assert!(dram.is_none());
    assert!(psys.is_none());
}

#[test]
fn discovery_of_nothing_finds_nothing() {
    let (sockets, dram, psys) = Rapl::scan_powercap_entries(&Vec::new());
    assert!(sockets.is_empty());
    assert!(dram.is_none());
    assert!(psys.is_none());
    let rapl = Rapl::new(None, &Vec::new());
    assert_eq!(rapl.rapl_dir, "/sys/class/powercap");
    assert!(rapl.socket_readers.is_empty());
    assert!(rapl.dram_reader.is_none());
    assert!(rapl.psys_reader.is_none());
    assert!(rapl.tracked_pids.is_empty());
    assert_eq!(Rapl::new(Some("/tmp/powercap".to_string()), &Vec::new()).rapl_dir, "/tmp/powercap");
    let found = Rapl::new(Some("/x".to_string()), &vec![entry("intel-rapl:7", true, None)]);
    assert_eq!(found.rapl_dir, "/x");
    assert_eq!(found.socket_readers.len(), 1);
    assert_eq!(found.socket_readers[0].socket_id, 7);
}

#[test]
fn two_sockets_with_package_and_core_readers() {
    let entries = vec![
        entry("intel-rapl:0", true, Some("package-0\n")),
        entry("intel-rapl:0:0", true, Some("core\n")),
        entry("intel-rapl:1", true, Some("package-1\n")),
        entry("intel-rapl:1:0", true, Some("core\n")),
    ];
    let mut rapl = Rapl::new(None, &entries);
    rapl.set_tracked_pids(vec![10, 20]);
    // two cores, half busy; the two processes use 60 % and 40 % of what is in use
    let processes = vec![(10, 60_000, 3_000), (20, 40_000, 1_000)];
    let first = TickSample::at(
        1_000,
        vec![
            counter("intel-rapl:0", "5000000\n"),
            counter("intel-rapl:0:0", "700000\n"),
            counter("intel-rapl:1", "900\n"),
            counter("intel-rapl:1:0", "0\n"),
        ],
        stats(50_000, 2, processes.clone()),
    );
    let baseline = rapl.get_energy_trace(&first).unwrap();
    assert_eq!(baseline.len(), 8);
    assert!(baseline.iter().all(|r| r.energy == 0 && r.timestamp == 1_000));
    let second = TickSample::at(
        2_000,
        vec![
            counter("intel-rapl:0", "15000000\n"),
            counter("intel-rapl:0:0", "4700000\n"),
            counter("intel-rapl:1", "10000900\n"),
            counter("intel-rapl:1:0", "4000000\n"),
        ],
        stats(50_000, 2, processes),
    );
    let records = rapl.get_energy_trace(&second).unwrap();
    let expected: Vec<(u32, i64, String, u64)> = vec![
        (10, 2_000, "rapl:socket:0:package".to_string(), 6_000_000),
        (10, 2_000, "rapl:socket:0:core".to_string(), 2_400_000),
        (20, 2_000, "rapl:socket:0:package".to_string(), 4_000_000),
        (20, 2_000, "rapl:socket:0:core".to_string(), 1_600_000),
        (10, 2_000, "rapl:socket:1:package".to_string(), 6_000_000),
        (10, 2_000, "rapl:socket:1:core".to_string(), 2_400_000),
        (20, 2_000, "rapl:socket:1:package".to_string(), 4_000_000),
        (20, 2_000, "rapl:socket:1:core".to_string(), 1_600_000),
    ];
    assert_eq!(flat(&records), expected);
    let joules: Vec<f64> = records.iter().map(|r| r.energy as f64 * 1e-6).collect();
    for (got, want) in joules.iter().zip([6.0, 2.4, 4.0, 1.6, 6.0, 2.4, 4.0, 1.6]) {
        assert!((got - want).abs() < 1e-9);
    }
    assert!(records.iter().all(|r| !r.device.contains("dram") && !r.device.contains("psys")));
}

#[test]
fn memory_and_platform_energy_are_divided_by_memory_and_evenly() {
    let entries = vec![
        entry("intel-rapl:0", true, Some("package-0\n")),
        entry("intel-rapl:0:0", true, Some("uncore\n")),
        entry("intel-rapl:x:0", true, Some("Ram\n")),
        entry("intel-rapl-psys", true, None),
    ];
    let mut rapl = Rapl::new(None, &entries);
    rapl.set_tracked_pids(vec![1, 2, 3]);
    let processes = vec![(1, 10_000, 3_000), (2, 10_000, 1_000)];
    let zero = TickSample::at(
        5,
        vec![
            counter("intel-rapl:0", "0"),
            counter("intel-rapl:0:0", "0"),
            counter("intel-rapl:x:0", "0"),
            counter("intel-rapl-psys", "0"),
        ],
        stats(100_000, 1, processes.clone()),
    );
    rapl.get_energy_trace(&zero).unwrap();
    let tick = TickSample::at(
        6,
        vec![
            counter("intel-rapl:0", "1000"),
            counter("intel-rapl:0:0", "100"),
            counter("intel-rapl:x:0", "8000"),
            counter("intel-rapl-psys", "10"),
        ],
        stats(100_000, 1, processes),
    );
    let records = rapl.get_energy_trace(&tick).unwrap();
    let expected: Vec<(u32, i64, String, u64)> = vec![
        (1, 6, "rapl:socket:0:package".to_string(), 100),
        (1, 6, "rapl:socket:0:uncore".to_string(), 33),
        (2, 6, "rapl:socket:0:package".to_string(), 100),
        (2, 6, "rapl:socket:0:uncore".to_string(), 33),
        (3, 6, "rapl:socket:0:package".to_string(), 0),
        (3, 6, "rapl:socket:0:uncore".to_string(), 33),
        (1, 6, "rapl:system:dram".to_string(), 6_000),
        (1, 6, "rapl:system:psys".to_string(), 3),
        (2, 6, "rapl:system:dram".to_string(), 2_000),
        (2, 6, "rapl:system:psys".to_string(), 3),
        (3, 6, "rapl:system:dram".to_string(), 0),
        (3, 6, "rapl:system:psys".to_string(), 3),
    ];
    assert_eq!(flat(&records), expected);
}

#[test]
fn a_failed_reading_counts_as_zero_for_that_domain_only() {
    let entries = vec![
        entry("intel-rapl:0", true, None),
        entry("intel-rapl:0:0", true, Some("core")),
    ];
    let mut rapl = Rapl::new(None, &entries);
    rapl.set_tracked_pids(vec![1]);
    let processes = vec![(1, 100_000, 1)];
    let first = TickSample::at(
        1,
        vec![counter("intel-rapl:0", "100"), counter("intel-rapl:0:0", "100")],
        stats(100_000, 1, processes.clone()),
    );
    rapl.get_energy_trace(&first).unwrap();
    let second = TickSample::at(
        2,
        vec![
            CounterFile {
                path: "/sys/class/powercap/intel-rapl:0/energy_uj".to_string(),
                content: Err("Permission denied".to_string()),
            },
            counter("intel-rapl:0:0", "350"),
        ],
        stats(100_000, 1, processes.clone()),
    );
    let records = rapl.get_energy_trace(&second).unwrap();
    assert_eq!(
        flat(&records),
        vec![
            (1, 2, "rapl:socket:0:package".to_string(), 0),
            (1, 2, "rapl:socket:0:core".to_string(), 250),
        ]
    );
    // the failed domain kept its baseline; a file that was not read at all counts as failed too
    let third = TickSample::at(
        3,
        vec![counter("intel-rapl:0", "1100")],
        stats(100_000, 1, processes),
    );
    let records = rapl.get_energy_trace(&third).unwrap();
    assert_eq!(
        flat(&records),
        vec![
            (1, 3, "rapl:socket:0:package".to_string(), 1_000),
            (1, 3, "rapl:socket:0:core".to_string(), 0),
        ]
    );
}

#[test]
fn no_tracked_process_gives_no_record_and_reads_nothing() {
    let entries = vec![entry("intel-rapl:0", true, None), entry("intel-rapl-psys", true, None)];
    let mut rapl = Rapl::new(None, &entries);
    let tick = TickSample::at(
        1,
        vec![counter("intel-rapl:0", "100"), counter("intel-rapl-psys", "100")],
        stats(100_000, 1, vec![(1, 100_000, 1)]),
    );
    assert_eq!(rapl.get_energy_trace(&tick).unwrap().len(), 0);
    assert_eq!(rapl.get_utilization_trace(&tick).unwrap().len(), 0);
    assert_eq!(rapl.socket_readers[0].package_reader.as_ref().unwrap().previous_value, None);
    assert_eq!(rapl.psys_reader.as_ref().unwrap().previous_value, None);
    let mut blank = Rapl::new(None, &Vec::new());
    blank.set_tracked_pids(vec![1]);
    assert_eq!(blank.get_energy_trace(&tick).unwrap().len(), 0);
    let mut gpu = NvidiaGpu::new(vec![0, 1]);
    gpu.set_tracked_pids(vec![1]);
    assert_eq!(gpu.get_energy_trace(&tick).unwrap().len(), 0);
    assert_eq!(gpu.get_utilization_trace(&tick).unwrap().len(), 0);
    assert_eq!(gpu.device_ids, vec![0, 1]);
    assert_eq!(NvidiaGpu::default().device_ids, vec![0]);
    let mut dummy = DummyEnergyGroup::new().unwrap();
    dummy.set_tracked_pids(vec![1]);
    assert_eq!(dummy.get_energy_trace(&tick).unwrap().len(), 0);
    assert_eq!(dummy.get_utilization_trace(&tick).unwrap().len(), 0);
    assert_eq!(DummyEnergyGroup::default(), DummyEnergyGroup::new().unwrap());
}

#[test]
fn utilization_is_the_cpu_share_in_percent() {
    let mut rapl = Rapl::new(None, &Vec::new());
    rapl.set_tracked_pids(vec![10, 20, 30]);
    let tick = TickSample::at(
        42,
        Vec::new(),
        stats(50_000, 2, vec![(10, 60_000, 1), (20, 33_333, 1)]),
    );
    let records = rapl.get_utilization_trace(&tick).unwrap();
    let flat: Vec<(u32, i64, String, u64)> = records
        .iter()
        .map(|r| (r.pid, r.timestamp, r.device.clone(), r.utilization))
        .collect();
    assert_eq!(
        flat,
        vec![
            (10, 42, "rapl:cpu".to_string(), 60_000),
            (20, 42, "rapl:cpu".to_string(), 33_333),
            (30, 42, "rapl:cpu".to_string(), 0),
        ]
    );
    assert!((records[0].utilization as f64 / 1000.0 - 60.0).abs() < 1e-9);
}

#[test]
fn collectors_are_available_where_the_probe_says_so() {
    let none = HostProbe { powercap_entries: None, nvidia_smi: false };
    let empty = HostProbe { powercap_entries: Some(Vec::new()), nvidia_smi: true };
    let other = HostProbe { powercap_entries: Some(vec!["dtpm".to_string()]), nvidia_smi: false };
    let intel = HostProbe {
        powercap_entries: Some(vec!["dtpm".to_string(), "intel-rapl:0".to_string()]),
        nvidia_smi: false,
    };
    assert!(!Rapl::is_available(&none));
    assert!(!Rapl::is_available(&empty));
    assert!(!Rapl::is_available(&other));
    assert!(Rapl::is_available(&intel));
    assert!(!NvidiaGpu::is_available(&none));
    assert!(NvidiaGpu::is_available(&empty));
    assert!(DummyEnergyGroup::is_available(&none));
    assert!(any_name_contains(&vec!["a".to_string(), "xrapl".to_string()], "rapl"));
    assert!(!any_name_contains(&vec!["a".to_string()], "rapl"));
}

#[test]
fn a_sample_holds_what_the_tick_read() {
    let sample = TickSample::at(1_700_000_000_123, vec![counter("a", "1")], stats(1, 1, Vec::new()));
    assert_eq!(sample.timestamp, 1_700_000_000_123);
    assert_eq!(sample.counters.len(), 1);
    assert_eq!(sample.stats.system_cpu, 1);
    assert_eq!(
        find_counter(&sample.counters, &"/sys/class/powercap/a/energy_uj".to_string()),
        Some(&Ok("1".to_string()))
    );
    assert!(find_counter(&sample.counters, &"/sys/class/powercap/b/energy_uj".to_string()).is_none());
}

#[test]
fn a_tick_reads_the_counter_file_of_every_reader() {
    let entries = vec![
        entry("intel-rapl:1", true, None),
        entry("intel-rapl:0:0", true, Some("core")),
        entry("intel-rapl:0:1", true, Some("uncore")),
        entry("intel-rapl:0", true, None),
        entry("intel-rapl:x:0", true, Some("dram")),
        entry("intel-rapl-psys", true, None),
    ];
    let rapl = Rapl::new(None, &entries);
    assert_eq!(
        rapl.counter_files(),
        vec![
            "/sys/class/powercap/intel-rapl:0/energy_uj",
            "/sys/class/powercap/intel-rapl:0:0/energy_uj",
            "/sys/class/powercap/intel-rapl:0:1/energy_uj",
            "/sys/class/powercap/intel-rapl:1/energy_uj",
            "/sys/class/powercap/intel-rapl:x:0/energy_uj",
            "/sys/class/powercap/intel-rapl-psys/energy_uj",
        ]
    );
    assert!(Rapl::new(None, &Vec::new()).counter_files().is_empty());
    assert!(NvidiaGpu::default().counter_files().is_empty());
    assert!(DummyEnergyGroup::default().counter_files().is_empty());
}

#[test]
fn domain_names_match_as_lowercasing_would() {
    let texts = [
        "core", "Core\n", "CORES", " cores ", "uncore", "UnCore\t", "dram", "DRAM\n", "Ram", "ram ",
        "package-0", "psys", "", " ", "c\u{f6}re", "cor\u{212a}", "\u{130}ram", "dr\u{c5}m",
        "CORE\u{a0}", "\u{2003}uncore\u{3000}", "core s", "co re", "DRAMM", "\u{1e9e}",
    ];
    for text in texts {
        for label in ["core", "cores", "uncore", "dram", "ram"] {
            assert_eq!(
                component_is(text, label),
                text.trim().to_lowercase() == label,
                "{:?} against {:?}",
                text,
                label
            );
        }
    }
}
