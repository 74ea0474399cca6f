use emt::attribution::{ProcessSample, ProcessStats};
use emt::collectors::dummy::DummyEnergyGroup;
use emt::collectors::nvidia_gpu::NvidiaGpu;
use emt::collectors::rapl::{PowercapEntry, Rapl};
use emt::energy_group::{
    energy_records_table, join_batches, process_groups_table, utilization_records_table,
    Commenced, EnergyCollector, EnergyCollectorType, EnergyGroup, EnergyRecord, HostProbe,
    LoopStep, MonitoringLoop, ProcessGroup, UtilizationRecord, CHANNEL_CAPACITY,
};
use emt::errors::MonitoringError;
use emt::sample::{CounterFile, TickSample};
use emt::table::{ColumnData, Table};
use emt::utils::psutils::{resolve_username, ProcessInfo};
use std::collections::HashMap;
use sysinfo::System;
use users::{Users, UsersCache};

fn info(pid: usize, uid: Option<u32>, user: Option<&str>, name: &str) -> ProcessInfo {
    ProcessInfo { pid, uid, user_name: user.map(|u| u.to_string()), name: name.to_string() }
}

/// The processes of a small host, with process 1 among them.
fn host() -> Vec<ProcessInfo> {
    vec![
        info(1, Some(0), Some("root"), "systemd"),
        info(40, Some(1000), Some("ada"), "firefox"),
        info(41, Some(1000), Some("ada"), "firefox"),
        info(50, Some(1001), None, "bash"),
        info(60, None, None, "kworker/0:1"),
        info(61, Some(0), Some("root"), "systemd"),
    ]
}

fn anywhere() -> HostProbe {
    HostProbe { powercap_entries: None, nvidia_smi: false }
}

fn quiet() -> TickSample {
    TickSample::at(
        0,
        Vec::new(),
        ProcessStats { system_cpu: 0, cpu_count: 1, total_memory: 0, processes: Vec::new() },
    )
}

fn u32s(table: &Table, name: &str) -> Vec<u32> {
    match &table.column(name).unwrap().data {
        ColumnData::UInt32(values) => values.clone(),
        _ => panic!("wrong type"),
    }
}

fn u64s(table: &Table, name: &str) -> Vec<u64> {
    match &table.column(name).unwrap().data {
        ColumnData::UInt64(values) => values.clone(),
        _ => panic!("wrong type"),
    }
}

fn i64s(table: &Table, name: &str) -> Vec<i64> {
    match &table.column(name).unwrap().data {
        ColumnData::Int64(values) => values.clone(),
        _ => panic!("wrong type"),
    }
}

fn texts(table: &Table, name: &str) -> Vec<String> {
    match &table.column(name).unwrap().data {
        ColumnData::Text(values) => values.clone(),
        _ => panic!("wrong type"),
    }
}

fn energy(pid: u32, timestamp: i64, device: &str, energy: u64) -> EnergyRecord {
    EnergyRecord { pid, timestamp, device: device.to_string(), energy }
}

fn utilization(pid: u32, timestamp: i64, utilization: u64) -> UtilizationRecord {
    UtilizationRecord { pid, timestamp, device: "cpu".to_string(), utilization }
}

#[test]
fn energy_group_test_tracker_empty() {
    // Empty process list should return an error, not succeed
    let result = EnergyGroup::<DummyEnergyGroup>::new(1000, Some(vec![]), &host());
    assert!(result.is_err());

    match result {
        Err(MonitoringError::ProcessDiscoveryError(msg)) => {
            assert!(msg.contains("No process"));
        }
        _ => panic!("Expected ProcessDiscoveryError"),
    }
}

#[test]
fn energy_group_test_tracker_with_nonexistent_pid() {
    // Use a realistic but likely non-existent PID, but the test should handle the case
    // where process discovery might not find any valid process groups
    let result = EnergyGroup::<DummyEnergyGroup>::new(1000, Some(vec![999999]), &host());

    match result {
        Ok(tracker) => {
            let df = tracker.processes();
            let user = texts(df, "user");
            let task = texts(df, "task");
            assert!(user
                .into_iter()
                .zip(task.into_iter())
                .any(|(u, t)| u == "unknown" && t == "unknown"));
        }
        Err(MonitoringError::ProcessDiscoveryError(_)) => {
            // This is also acceptable - no valid process groups found
            assert!(true);
        }
        Err(e) => panic!("Unexpected error: {:?}", e),
    }
}

#[test]
fn energy_group_test_tracker_with_pid_1() {
    let tracker: EnergyGroup<DummyEnergyGroup> =
        EnergyGroup::new(1000, Some(vec![1]), &host()).unwrap();
    let df = tracker.processes();
    let pids = u32s(df, "pid");
    assert!(pids.into_iter().any(|pid| pid == 1));
}

#[test]
fn energy_group_test_tracker_all_processes_not_empty() {
    let tracker: EnergyGroup<DummyEnergyGroup> = EnergyGroup::new(1000, None, &host()).unwrap();
    assert!(tracker.processes().height() > 0);
}

#[test]
fn energy_group_test_tracker_pid_grouping() {
    let tracker: EnergyGroup<DummyEnergyGroup> = EnergyGroup::new(1000, None, &host()).unwrap();
    let df = tracker.processes();
    let mut all_pids: Vec<u32> = u32s(df, "pid");
    all_pids.sort();
    all_pids.dedup();
    assert_eq!(all_pids.len(), tracker.processes().height());
}

#[test]
// Test to debug what users we actually see
fn energy_group_test_debug_users() {
    let system = System::new_all();
    let users_cache = UsersCache::new();
    let mut user_counts: HashMap<String, usize> = HashMap::new();

    // Count processes by user
    for (_pid, process) in system.processes().into_iter().take(100) {
        let user = process
            .user_id()
            .map(|uid| {
                resolve_username(
                    **uid,
                    users_cache
                        .get_user_by_uid(**uid)
                        .map(|user| user.name().to_string_lossy().to_string()),
                )
            })
            .unwrap_or_else(|| "unknown".to_string());

        *user_counts.entry(user).or_insert(0) += 1;
    }

    // Print results
    let mut users: Vec<(String, usize)> = user_counts.into_iter().collect();
    users.sort_by(|a, b| b.1.cmp(&a.1));

    println!("Users found (first 10):");
    for (user, count) in users.iter().take(10) {
        println!("  {}: {} processes", user, count);
    }

    // The test should pass - we just want to see the debug output
    assert!(!users.is_empty());
}

#[test]
fn test_collector_availability_check() {
    // Test that dummy collector is available
    assert!(EnergyGroup::<DummyEnergyGroup>::is_available(&anywhere()));

    // Create a tracker and test commence with availability check (use PID 1 which should exist)
    let mut tracker: EnergyGroup<DummyEnergyGroup> =
        EnergyGroup::new(1000, Some(vec![1]), &host()).unwrap();

    // Since DummyEnergyGroup::is_available() returns true, commence should work
    assert!(tracker.commence(&anywhere(), &quiet()).is_ok());

    // Test shutdown
    assert!(tracker.shutdown().is_ok());
}

#[test]
// Test availability checks
fn energy_group_test_availability() {
    // Test dummy availability - should always be available since it's just for testing
    assert!(EnergyGroup::<DummyEnergyGroup>::is_available(&anywhere()));
}

#[test]
fn the_table_of_processes_has_one_row_per_process() {
    let tracker: EnergyGroup<DummyEnergyGroup> = EnergyGroup::new(2500, None, &host()).unwrap();
    let table = tracker.processes();
    assert_eq!(table.get_column_names(), vec!["user", "task", "pid"]);
    assert_eq!(texts(table, "user"), vec!["root", "root", "ada", "ada", "1001", "unknown"]);
    assert_eq!(
        texts(table, "task"),
        vec!["systemd", "systemd", "firefox", "firefox", "bash", "kworker"]
    );
    assert_eq!(u32s(table, "pid"), vec![1, 61, 40, 41, 50, 60]);
    assert_eq!(tracker.rate, 2500);
    assert_eq!(tracker.batch_size, 1);
    assert!(!tracker.is_running());
    assert_eq!(tracker.energy_trace().height(), 0);
    assert_eq!(
        tracker.energy_trace().get_column_names(),
        vec!["pid", "device", "energy", "timestamp"]
    );
    assert_eq!(
        tracker.utilization_trace().get_column_names(),
        vec!["pid", "device", "utilization", "timestamp"]
    );
    let groups = vec![ProcessGroup {
        user: "u".to_string(),
        task: "t".to_string(),
        pids: vec![7, 4_294_967_296 + 9],
    }];
    let table = process_groups_table(&groups);
    assert_eq!(texts(&table, "user"), vec!["u", "u"]);
    assert_eq!(texts(&table, "task"), vec!["t", "t"]);
    assert_eq!(u32s(&table, "pid"), vec![7, 9]);
}

#[test]
fn records_become_rows() {
    let table = energy_records_table(&vec![energy(1, 10, "a", 5), energy(2, 11, "b", 6)]);
    assert_eq!(u32s(&table, "pid"), vec![1, 2]);
    assert_eq!(texts(&table, "device"), vec!["a", "b"]);
    assert_eq!(u64s(&table, "energy"), vec![5, 6]);
    assert_eq!(i64s(&table, "timestamp"), vec![10, 11]);
    let table = utilization_records_table(&vec![utilization(3, 12, 50_000)]);
    assert_eq!(u32s(&table, "pid"), vec![3]);
    assert_eq!(texts(&table, "device"), vec!["cpu"]);
    assert_eq!(u64s(&table, "utilization"), vec![50_000]);
    assert_eq!(i64s(&table, "timestamp"), vec![12]);
}

#[test]
fn appended_records_are_kept_in_order() {
    let mut group: EnergyGroup<DummyEnergyGroup> =
        EnergyGroup::create_with_collector(DummyEnergyGroup::default(), 1000, None, Some(4), &host())
            .unwrap();
    assert_eq!(group.batch_size, 4);
    group.append_energy_records(vec![energy(1, 10, "a", 5)]).unwrap();
    group.append_energy_records(Vec::new()).unwrap();
    group.append_energy_records(vec![energy(2, 11, "b", 6), energy(3, 12, "c", 7)]).unwrap();
    group.append_utilization_records(vec![utilization(1, 10, 99)]).unwrap();
    assert_eq!(u32s(group.energy_trace(), "pid"), vec![1, 2, 3]);
    assert_eq!(u64s(group.energy_trace(), "energy"), vec![5, 6, 7]);
    assert_eq!(texts(group.energy_trace(), "device"), vec!["a", "b", "c"]);
    assert_eq!(u64s(group.utilization_trace(), "utilization"), vec![99]);
    group
        .absorb(vec![energy(4, 13, "d", 8)], vec![utilization(2, 13, 1), utilization(3, 13, 2)])
        .unwrap();
    assert_eq!(i64s(group.energy_trace(), "timestamp"), vec![10, 11, 12, 13]);
    assert_eq!(u32s(group.utilization_trace(), "pid"), vec![1, 2, 3]);
}

#[test]
fn commence_on_a_running_orchestrator_changes_nothing() {
    let mut group: EnergyGroup<DummyEnergyGroup> = EnergyGroup::new(1000, None, &host()).unwrap();
    assert!(matches!(group.commence(&anywhere(), &quiet()), Ok(Commenced::Started(_))));
    assert!(group.is_running());
    assert!(group.data_receiver.is_some());
    group.append_energy_records(vec![energy(1, 10, "a", 5)]).unwrap();
    assert!(matches!(group.commence(&anywhere(), &quiet()), Ok(Commenced::AlreadyRunning)));
    assert!(group.is_running());
    assert!(group.data_receiver.is_some());
    assert!(group.task_handle.is_none());
    assert_eq!(group.energy_trace().height(), 1);
    group.shutdown().unwrap();
    assert!(!group.is_running());
    assert!(group.data_receiver.is_none());
    assert!(matches!(group.commence(&anywhere(), &quiet()), Ok(Commenced::Started(_))));
}

#[test]
fn commence_fails_where_the_collector_cannot_work() {
    let mut gpu: EnergyGroup<NvidiaGpu> = EnergyGroup::new(1000, None, &host()).unwrap();
    match gpu.commence(&anywhere(), &quiet()) {
        Err(MonitoringError::Other(text)) => {
            assert_eq!(text, "Collector type is not available on this system")
        }
        _ => panic!("expected an error"),
    }
    assert!(!gpu.is_running());
    assert!(gpu.data_receiver.is_none());
    let mut rapl: EnergyGroup<Rapl> =
        EnergyGroup::create_with_collector(Rapl::new(None, &Vec::new()), 1000, None, None, &host())
            .unwrap();
    assert!(rapl.commence(&anywhere(), &quiet()).is_err());
    assert!(!rapl.is_running());
    assert!(!EnergyGroup::<Rapl>::is_available(&anywhere()));
}

#[test]
fn commence_takes_the_first_sample_into_the_traces() {
    let entries = vec![PowercapEntry {
        name: "intel-rapl:0".to_string(),
        path: "/p/intel-rapl:0".to_string(),
        has_energy: true,
        component: None,
    }];
    let mut rapl = Rapl::new(None, &entries);
    rapl.set_tracked_pids(vec![40, 41]);
    let mut group =
        EnergyGroup::create_with_collector(rapl, 1000, Some(vec![40, 41]), None, &host()).unwrap();
    let probe = HostProbe { powercap_entries: Some(vec!["intel-rapl:0".to_string()]), nvidia_smi: false };
    let sample = TickSample::at(
        77,
        vec![CounterFile { path: "/p/intel-rapl:0/energy_uj".to_string(), content: Ok("5".to_string()) }],
        ProcessStats {
            system_cpu: 100_000,
            cpu_count: 1,
            total_memory: 1,
            processes: vec![ProcessSample { pid: 40, cpu_usage: 25_000, memory: 1 }],
        },
    );
    assert!(matches!(group.commence(&probe, &sample), Ok(Commenced::Started(_))));
    assert_eq!(u32s(group.energy_trace(), "pid"), vec![40, 41]);
    assert_eq!(u64s(group.energy_trace(), "energy"), vec![0, 0]);
    assert_eq!(i64s(group.energy_trace(), "timestamp"), vec![77, 77]);
    assert_eq!(texts(group.energy_trace(), "device"), vec!["rapl:socket:0:package"; 2]);
    assert_eq!(u64s(group.utilization_trace(), "utilization"), vec![25_000, 0]);
    assert_eq!(
        group.energy_collector.socket_readers[0].package_reader.as_ref().unwrap().previous_value,
        Some(5)
    );
}

#[test]
fn a_failed_first_collection_fails_the_start() {
    let mut group: EnergyGroup<DummyEnergyGroup> = EnergyGroup::new(1000, None, &host()).unwrap();
    match group.start_with(Err("no counters".to_string()), Ok(Vec::new())) {
        Err(MonitoringError::Other(text)) => {
            assert_eq!(text, "Failed to get energy trace: no counters")
        }
        _ => panic!("expected an error"),
    }
    match group.start_with(Ok(vec![energy(1, 1, "a", 1)]), Err("no stats".to_string())) {
        Err(MonitoringError::Other(text)) => {
            assert_eq!(text, "Failed to get utilization trace: no stats")
        }
        _ => panic!("expected an error"),
    }
    assert_eq!(group.energy_trace().height(), 0);
    assert_eq!(group.utilization_trace().height(), 0);
    assert!(group.data_receiver.is_none());
    assert!(!group.is_running());
    assert!(group.start_with(Ok(vec![energy(1, 1, "a", 1)]), Ok(Vec::new())).is_ok());
    assert_eq!(group.energy_trace().height(), 1);
    assert!(group.data_receiver.is_some());
    assert!(group.is_running());
}

#[test]
fn a_start_that_fails_leaves_the_orchestrator_idle() {
    let mut group: EnergyGroup<DummyEnergyGroup> = EnergyGroup::new(1000, None, &host()).unwrap();
    assert!(group.start_with(Err("counter stuck".to_string()), Ok(Vec::new())).is_err());
    assert!(!group.is_running());
    assert!(group.data_receiver.is_none());
    assert!(group.task_handle.is_none());
    assert!(group
        .start_with(Ok(vec![energy(7, 1, "a", 3)]), Err("no figures".to_string()))
        .is_err());
    assert!(!group.is_running());
    assert!(group.data_receiver.is_none());
    assert_eq!(group.energy_trace().height(), 0);
    assert_eq!(group.utilization_trace().height(), 0);
    // the next start is a start, not a second one of a running orchestrator
    assert!(matches!(group.commence(&anywhere(), &quiet()), Ok(Commenced::Started(_))));
    assert!(group.is_running());
    assert!(group.data_receiver.is_some());
    assert!(matches!(group.commence(&anywhere(), &quiet()), Ok(Commenced::AlreadyRunning)));
    group.shutdown().unwrap();
    assert!(!group.is_running());
    // a start that is refused for want of the hardware leaves it idle too
    let mut gpu: EnergyGroup<NvidiaGpu> = EnergyGroup::new(1000, None, &host()).unwrap();
    assert!(gpu.commence(&anywhere(), &quiet()).is_err());
    assert!(!gpu.is_running());
}

#[test]
fn a_full_channel_holds_the_sender_back_and_loses_nothing() {
    let mut group: EnergyGroup<DummyEnergyGroup> = EnergyGroup::new(1000, None, &host()).unwrap();
    let sender = match group.commence(&anywhere(), &quiet()).unwrap() {
        Commenced::Started(sender) => sender,
        Commenced::AlreadyRunning => panic!("was not running"),
    };
    assert_eq!(CHANNEL_CAPACITY, 10);
    assert_eq!(sender.max_capacity(), 10);
    let mut sent = 0u32;
    for round in 0..3 {
        // the sampling side runs ahead of the foreground
        loop {
            let batch = (
                vec![energy(sent, sent as i64, "a", sent as u64)],
                vec![utilization(sent, sent as i64, 1), utilization(sent, sent as i64, 2)],
            );
            match sender.try_send(batch) {
                Ok(()) => sent += 1,
                Err(tokio::sync::mpsc::error::TrySendError::Full(_)) => break,
                Err(_) => panic!("receiver is gone"),
            }
        }
        assert_eq!(sent, 10 * (round + 1));
        assert_eq!(sender.capacity(), 0);
        group.poll_data().unwrap();
        assert_eq!(sender.capacity(), 10);
        assert_eq!(group.energy_trace().height(), sent as usize);
        assert_eq!(group.utilization_trace().height(), 2 * sent as usize);
    }
    assert_eq!(u32s(group.energy_trace(), "pid"), (0..30).collect::<Vec<u32>>());
    // polling an empty channel changes nothing
    group.poll_data().unwrap();
    assert_eq!(group.energy_trace().height(), 30);
    // what was delivered before shutdown is taken in
    sender.try_send((vec![energy(99, 99, "z", 99)], Vec::new())).unwrap();
    group.shutdown().unwrap();
    assert_eq!(group.energy_trace().height(), 31);
    assert!(!group.is_running());
    assert!(sender.try_send((Vec::new(), Vec::new())).is_err());
    // polling without a channel changes nothing
    group.poll_data().unwrap();
    assert_eq!(group.energy_trace().height(), 31);
}

#[test]
fn shutdown_cancels_the_sampling_task() {
    let runtime = tokio::runtime::Builder::new_current_thread().enable_time().build().unwrap();
    let mut group: EnergyGroup<DummyEnergyGroup> = EnergyGroup::new(1000, None, &host()).unwrap();
    group.commence(&anywhere(), &quiet()).unwrap();
    let handle = runtime.spawn(async {
        tokio::time::sleep(std::time::Duration::from_secs(3600)).await;
    });
    let watcher = handle.abort_handle();
    group.attach_task(handle);
    assert!(group.task_handle.is_some());
    group.shutdown().unwrap();
    assert!(group.task_handle.is_none());
    runtime.block_on(async {
        tokio::task::yield_now().await;
    });
    assert!(watcher.is_finished());
}

#[test]
fn the_sampling_loop_sends_every_full_batch() {
    let mut state = MonitoringLoop::new(3);
    assert_eq!(MonitoringLoop::interval_micros(1000), 1_000_000);
    assert_eq!(MonitoringLoop::interval_micros(2500), 400_000);
    let mut delivered: Vec<u32> = Vec::new();
    let mut sends = 0;
    for tick in 0..10u32 {
        let step = if tick == 4 {
            // a failed collection still counts as a tick, and its records are dropped
            state.record(Err("stuck".to_string()), Ok(vec![utilization(tick, 0, 0)]))
        } else {
            state.record(Ok(vec![energy(tick, 0, "a", 0)]), Ok(vec![utilization(tick, 0, 0)]))
        };
        match step {
            LoopStep::Sleep => assert!((tick + 1) % 3 != 0),
            LoopStep::Send(energy_records, utilization_records) => {
                assert_eq!((tick + 1) % 3, 0);
                assert_eq!(energy_records.len(), utilization_records.len());
                delivered.extend(energy_records.iter().map(|r| r.pid));
                sends += 1;
            }
        }
    }
    assert_eq!(sends, 3);
    assert_eq!(delivered, vec![0, 1, 2, 3, 5, 6, 7, 8]);
    assert_eq!(state.iterations, 10);
    assert_eq!(state.phase, 1);
    // what is left is flushed at the end
    let (rest, _) = state.finish().unwrap();
    assert_eq!(rest.iter().map(|r| r.pid).collect::<Vec<u32>>(), vec![9]);
    assert!(MonitoringLoop::new(1).finish().is_none());
}

#[test]
fn a_failed_tick_at_the_end_of_a_batch_sends_nothing() {
    let mut state = MonitoringLoop::new(2);
    assert!(matches!(state.record(Ok(vec![energy(1, 0, "a", 0)]), Ok(Vec::new())), LoopStep::Sleep));
    assert!(matches!(state.record(Ok(Vec::new()), Err("x".to_string())), LoopStep::Sleep));
    assert!(matches!(state.record(Ok(vec![energy(2, 0, "a", 0)]), Ok(Vec::new())), LoopStep::Sleep));
    match state.record(Ok(vec![energy(3, 0, "a", 0)]), Ok(Vec::new())) {
        LoopStep::Send(records, _) => {
            assert_eq!(records.iter().map(|r| r.pid).collect::<Vec<u32>>(), vec![1, 2, 3])
        }
        LoopStep::Sleep => panic!("expected a batch"),
    }
}

#[test]
fn a_batch_that_could_not_be_sent_is_kept_for_the_end() {
    let mut state = MonitoringLoop::new(1);
    let (e, u) = match state.record(Ok(vec![energy(1, 0, "a", 0)]), Ok(vec![utilization(1, 0, 0)])) {
        LoopStep::Send(e, u) => (e, u),
        LoopStep::Sleep => panic!("expected a batch"),
    };
    state.restore(e, u);
    let (e, u) = state.finish().unwrap();
    assert_eq!(e.len(), 1);
    assert_eq!(u.len(), 1);
}

#[test]
fn collector_types_are_told_apart() {
    assert_ne!(EnergyCollectorType::Rapl, EnergyCollectorType::NvidiaGpu);
    assert_ne!(EnergyCollectorType::NvidiaGpu, EnergyCollectorType::Dummy);
    assert_eq!(EnergyCollectorType::Dummy, EnergyCollectorType::Dummy);
}

#[test]
fn a_send_is_slow_above_the_threshold() {
    assert!(!MonitoringLoop::send_was_slow(0));
    assert!(!MonitoringLoop::send_was_slow(100));
    assert!(MonitoringLoop::send_was_slow(101));
}

#[test]
fn batches_are_joined_in_their_order() {
    let (no_energy, no_utilization) = join_batches(Vec::new());
    assert!(no_energy.is_empty());
    assert!(no_utilization.is_empty());
    let batches = vec![
        (vec![energy(1, 10, "a", 5), energy(2, 10, "b", 6)], vec![utilization(1, 10, 50)]),
        (Vec::new(), Vec::new()),
        (vec![energy(3, 11, "c", 7)], vec![utilization(2, 11, 60), utilization(3, 11, 70)]),
        (Vec::new(), vec![utilization(4, 12, 80)]),
    ];
    let (joined_energy, joined_utilization) = join_batches(batches);
    assert_eq!(joined_energy.iter().map(|r| r.pid).collect::<Vec<u32>>(), vec![1, 2, 3]);
    assert_eq!(joined_energy.iter().map(|r| r.energy).collect::<Vec<u64>>(), vec![5, 6, 7]);
    assert_eq!(
        joined_energy.iter().map(|r| r.device.clone()).collect::<Vec<String>>(),
        vec!["a", "b", "c"]
    );
    assert_eq!(joined_utilization.iter().map(|r| r.pid).collect::<Vec<u32>>(), vec![1, 2, 3, 4]);
    assert_eq!(
        joined_utilization.iter().map(|r| r.utilization).collect::<Vec<u64>>(),
        vec![50, 60, 70, 80]
    );
}

#[test]
fn batches_are_taken_in_one_after_the_other() {
    let mut group: EnergyGroup<DummyEnergyGroup> = EnergyGroup::new(1000, None, &host()).unwrap();
    group.take_in(Vec::new()).unwrap();
    group.take_in(vec![(Vec::new(), Vec::new())]).unwrap();
    assert_eq!(group.energy_trace().height(), 0);
    assert_eq!(group.utilization_trace().height(), 0);
    group
        .take_in(vec![
            (vec![energy(1, 10, "a", 5)], vec![utilization(1, 10, 50)]),
            (vec![energy(2, 11, "b", 6), energy(3, 11, "c", 7)], Vec::new()),
        ])
        .unwrap();
    group.take_in(vec![(vec![energy(4, 12, "d", 8)], vec![utilization(2, 12, 60)])]).unwrap();
    assert_eq!(u32s(group.energy_trace(), "pid"), vec![1, 2, 3, 4]);
    assert_eq!(u64s(group.energy_trace(), "energy"), vec![5, 6, 7, 8]);
    assert_eq!(i64s(group.energy_trace(), "timestamp"), vec![10, 11, 11, 12]);
    assert_eq!(u32s(group.utilization_trace(), "pid"), vec![1, 2]);
    assert_eq!(u64s(group.utilization_trace(), "utilization"), vec![50, 60]);
}

#[test]
fn polling_takes_the_delivered_batches_in_order() {
    let mut group: EnergyGroup<DummyEnergyGroup> = EnergyGroup::new(1000, None, &host()).unwrap();
    let sender = match group.commence(&anywhere(), &quiet()).unwrap() {
        Commenced::Started(sender) => sender,
        Commenced::AlreadyRunning => panic!("was not running"),
    };
    group.poll_data().unwrap();
    assert_eq!(group.energy_trace().height(), 0);
    sender.try_send((vec![energy(1, 1, "a", 1), energy(2, 1, "a", 2)], vec![utilization(1, 1, 10)])).unwrap();
    sender.try_send((Vec::new(), vec![utilization(2, 2, 20)])).unwrap();
    sender.try_send((vec![energy(3, 3, "a", 3)], Vec::new())).unwrap();
    group.poll_data().unwrap();
    assert_eq!(u32s(group.energy_trace(), "pid"), vec![1, 2, 3]);
    assert_eq!(u64s(group.utilization_trace(), "utilization"), vec![10, 20]);
    sender.try_send((vec![energy(4, 4, "a", 4)], vec![utilization(3, 4, 30)])).unwrap();
    sender.try_send((vec![energy(5, 5, "a", 5)], Vec::new())).unwrap();
    group.shutdown().unwrap();
    assert_eq!(u32s(group.energy_trace(), "pid"), vec![1, 2, 3, 4, 5]);
    assert_eq!(u64s(group.utilization_trace(), "utilization"), vec![10, 20, 30]);
    assert!(group.data_receiver.is_none());
}

#[test]
fn shutdown_of_an_idle_orchestrator_changes_nothing() {
    let mut group: EnergyGroup<DummyEnergyGroup> =
        EnergyGroup::create_with_collector(DummyEnergyGroup::default(), 2000, None, Some(3), &host())
            .unwrap();
    group.append_energy_records(vec![energy(1, 10, "a", 5)]).unwrap();
    group.append_utilization_records(vec![utilization(1, 10, 99)]).unwrap();
    let processes = group.processes().height();
    group.shutdown().unwrap();
    group.poll_data().unwrap();
    assert!(!group.is_running());
    assert!(group.task_handle.is_none());
    assert!(group.data_receiver.is_none());
    assert_eq!(group.rate, 2000);
    assert_eq!(group.batch_size, 3);
    assert_eq!(group.processes().height(), processes);
    assert_eq!(u64s(group.energy_trace(), "energy"), vec![5]);
    assert_eq!(u64s(group.utilization_trace(), "utilization"), vec![99]);
}

#[test]
fn any_batch_size_is_taken() {
    for size in [0usize, 1, 7, usize::MAX] {
        let mut group: EnergyGroup<DummyEnergyGroup> = EnergyGroup::create_with_collector(
            DummyEnergyGroup::default(),
            1000,
            None,
            Some(size),
            &host(),
        )
        .unwrap();
        assert_eq!(group.batch_size, size);
        assert!(!group.is_running());
        assert_eq!(group.energy_trace().height(), 0);
        assert_eq!(group.utilization_trace().height(), 0);
        group.absorb(vec![energy(1, 1, "a", 1)], vec![utilization(1, 1, 1)]).unwrap();
        group.poll_data().unwrap();
        group.shutdown().unwrap();
        assert_eq!(group.energy_trace().height(), 1);
    }
}
