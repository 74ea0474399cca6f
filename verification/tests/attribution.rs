use emt::attribution::{find_sample, scale, share_equally, ProcessSample, ProcessStats, Ratio};
use emt::collectors::rapl::{ratio_for, Rapl};

fn stats(system_cpu: u32, cpu_count: usize, total_memory: u64, processes: Vec<(u32, u32, u64)>) -> ProcessStats {
    ProcessStats {
        system_cpu,
        cpu_count,
        total_memory,
        processes: processes
            .into_iter()
            .map(|(pid, cpu_usage, memory)| ProcessSample { pid, cpu_usage, memory })
            .collect(),
    }
}

fn value(ratio: &Ratio) -> f64 {
    if ratio.den == 0 {
        0.0
    } else {
        ratio.num as f64 / ratio.den as f64
    }
}

#[test]
fn scale_rounds_down() {
    assert_eq!(scale(10_000_000, Ratio { num: 6, den: 10 }), 6_000_000);
    assert_eq!(scale(4_000_000, Ratio { num: 4, den: 10 }), 1_600_000);
    assert_eq!(scale(10, Ratio { num: 1, den: 3 }), 3);
    assert_eq!(scale(2, Ratio { num: 1, den: 3 }), 0);
    assert_eq!(scale(7, Ratio { num: 0, den: 1 }), 0);
    assert_eq!(scale(7, Ratio { num: 5, den: 0 }), 0);
    assert_eq!(scale(u64::MAX, Ratio { num: u64::MAX, den: 1 }), u64::MAX);
    assert_eq!(scale(u64::MAX, Ratio { num: u64::MAX, den: u64::MAX as u128 }), u64::MAX);
}

#[test]
fn equal_shares_round_down() {
    assert_eq!(share_equally(10, 3), 3);
    assert_eq!(share_equally(9, 3), 3);
    assert_eq!(share_equally(9, 0), 0);
    assert_eq!(share_equally(0, 5), 0);
}

#[test]
fn the_first_sample_of_a_process_counts() {
    let s = stats(1, 1, 1, vec![(1, 10, 100), (2, 20, 200), (1, 30, 300)]);
    assert_eq!(find_sample(&s.processes, 1).unwrap().cpu_usage, 10);
    assert_eq!(find_sample(&s.processes, 2).unwrap().memory, 200);
    assert!(find_sample(&s.processes, 3).is_none());
}

#[test]
fn cpu_ratio_is_usage_per_core_over_machine_usage() {
    let rapl = Rapl::new(None, &Vec::new());
    // two cores, the machine half busy: capacity in use is 2 x 50 %
    let s = stats(50_000, 2, 1_000, vec![(10, 60_000, 300), (20, 40_000, 100)]);
    let (cpu, mem) = rapl.get_utilization(&vec![10, 20, 30], &s).unwrap();
    assert_eq!(cpu.len(), 3);
    assert_eq!(cpu[0], (10, Ratio { num: 60_000, den: 100_000 }));
    assert_eq!(cpu[1], (20, Ratio { num: 40_000, den: 100_000 }));
    assert_eq!(cpu[2], (30, Ratio { num: 0, den: 100_000 }));
    assert!((value(&cpu[0].1) - 0.6).abs() < 1e-12);
    assert!((value(&cpu[1].1) - 0.4).abs() < 1e-12);
    assert_eq!(mem[0], (10, Ratio { num: 300, den: 400 }));
    assert_eq!(mem[1], (20, Ratio { num: 100, den: 400 }));
    assert_eq!(mem[2], (30, Ratio { num: 0, den: 400 }));
    assert_eq!(ratio_for(&cpu, 20), Ratio { num: 40_000, den: 100_000 });
    assert_eq!(ratio_for(&cpu, 99), Ratio { num: 0, den: 1 });
}

#[test]
fn all_cpu_ratios_are_zero_on_an_idle_machine() {
    let rapl = Rapl::new(None, &Vec::new());
    let s = stats(0, 4, 1_000, vec![(10, 60_000, 300), (20, 40_000, 100)]);
    let (cpu, _) = rapl.get_utilization(&vec![10, 20, 30], &s).unwrap();
    for (_, ratio) in &cpu {
        assert_eq!(*ratio, Ratio { num: 0, den: 1 });
        assert_eq!(value(ratio), 0.0);
        assert_eq!(scale(123_456, *ratio), 0);
    }
}

#[test]
fn memory_ratios_are_zero_without_memory() {
    let rapl = Rapl::new(None, &Vec::new());
    let no_total = stats(50_000, 2, 0, vec![(10, 1, 300)]);
    let (_, mem) = rapl.get_utilization(&vec![10], &no_total).unwrap();
    assert_eq!(mem[0].1, Ratio { num: 0, den: 1 });
    let no_use = stats(50_000, 2, 1_000, vec![(10, 1, 0)]);
    let (_, mem) = rapl.get_utilization(&vec![10, 11], &no_use).unwrap();
    assert_eq!(mem[0].1, Ratio { num: 0, den: 1 });
    assert_eq!(mem[1].1, Ratio { num: 0, den: 1 });
}

#[test]
fn a_machine_that_reports_no_core_counts_as_one_core() {
    let rapl = Rapl::new(None, &Vec::new());
    let s = stats(80_000, 0, 1_000, vec![(10, 40_000, 1)]);
    let (cpu, _) = rapl.get_utilization(&vec![10], &s).unwrap();
    assert_eq!(cpu[0].1, Ratio { num: 40_000, den: 80_000 });
}

#[test]
fn cpu_ratios_add_up_to_at_most_one() {
    let rapl = Rapl::new(None, &Vec::new());
    // four cores at 75 %: the tracked processes use less than the machine does
    let s = stats(
        75_000,
        4,
        1_000,
        vec![(1, 100_000, 1), (2, 99_999, 1), (3, 33_333, 1), (4, 1, 1), (5, 66_666, 1)],
    );
    let pids = vec![1, 2, 3, 4, 5, 6];
    let (cpu, mem) = rapl.get_utilization(&pids, &s).unwrap();
    let total: f64 = cpu.iter().map(|(_, r)| value(r)).sum();
    assert!(total <= 1.0 + 1e-9);
    let numerators: u128 = cpu.iter().map(|(_, r)| r.num as u128).sum();
    assert!(numerators <= cpu[0].1.den);
    let parts: u64 = cpu.iter().map(|(_, r)| scale(1_000_003, *r)).sum();
    assert!(parts <= 1_000_003);
    let percent: u64 = cpu.iter().map(|(_, r)| scale(100_000, *r)).sum();
    assert!(percent <= 100_000);
    let memory_parts: u64 = mem.iter().map(|(_, r)| scale(1_000_003, *r)).sum();
    assert!(memory_parts <= 1_000_003);
}
