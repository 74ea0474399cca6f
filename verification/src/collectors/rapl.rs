//! The collector for the hardware energy counters of the processor packages.
//!
//! A counter is a file that holds a running total in microjoules. A reader
//! turns successive totals into deltas; the collector divides each delta
//! among the tracked processes: package and core energy by processor share,
//! memory energy by memory share, and uncore and platform energy evenly.

use crate::attribution::{
    cpu_capacity, cpu_ratio, equal_share, find_sample, memory_ratio, percentage, scale, scaled,
    share_equally, tracked_memory, zero_ratio, ProcessStats, Ratio, FULL_SCALE,
};
use crate::energy_group::{
    EnergyCollector, EnergyRecord, EnergyRecordView, HostProbe, UtilizationRecord,
    UtilizationRecordView,
};
use crate::sample::{content_view, counter_content, find_counter, CounterFile, TickSample};
use crate::text::{
    contains, contains_text, count_char, count_of, decimal_digits, describe_parse_error,
    eq_ignore_ascii_case, equals_ignore_ascii_case, parse_i64, parse_i64_spec, parse_u32,
    parse_u32_spec, second_field, second_field_of, text_view, to_chars, trim, trim_chars,
    u32_to_string,
};
use vstd::prelude::*;
use vstd::string::*;

verus! {

/// Turns the successive totals of one counter file into deltas.
#[derive(Debug)]
pub struct DeltaReader {
    /// The directory of the domain; the counter file lies in it.
    pub file_path: String,
    /// The total at the last reading, if there was one.
    pub previous_value: Option<i64>,
}

impl DeltaReader {
    /// A reader for the domain in the directory `file_path`, with no reading yet.
    pub fn new(file_path: String) -> (reader: Self)
        ensures
            reader.file_path == file_path,
            reader.previous_value is None,
    {
        DeltaReader { file_path, previous_value: None }
    }

    /// The path of the counter file.
    pub open spec fn energy_file_spec(&self) -> Seq<char> {
        self.file_path@ + "/energy_uj"@
    }

    /// The path of the counter file.
    pub fn energy_file(&self) -> (path: String)
        ensures
            path@ == self.energy_file_spec(),
    {
        let mut path = self.file_path.clone();
        path.append("/energy_uj");
        path
    }

    /// The energy in microjoules since the last reading, given the new total
    /// `value`: nothing at the first reading, nothing where the counter has
    /// wrapped around.
    pub open spec fn delta_after(&self, value: i64) -> u64 {
        match self.previous_value {
            None => 0,
            Some(previous) => if value >= previous {
                (value - previous) as u64
            } else {
                0
            },
        }
    }

    /// The reader with `value` as its last reading.
    pub open spec fn rebased(&self, value: i64) -> DeltaReader {
        DeltaReader { file_path: self.file_path, previous_value: Some(value) }
    }

    /// Takes the new total `value` and returns the energy in microjoules since
    /// the last reading. The first reading and a reading below the last one
    /// give zero; every reading becomes the new baseline.
    pub fn observe(&mut self, value: i64) -> (delta: u64)
        ensures
            delta == old(self).delta_after(value),
            *final(self) == old(self).rebased(value),
            old(self).previous_value is None ==> delta == 0,
            old(self).previous_value matches Some(previous) ==> (value < previous ==> delta == 0),
            old(self).previous_value matches Some(previous) ==> (value >= previous ==> delta
                == value - previous),
    {
        let delta: u64 = match self.previous_value {
            None => 0,
            Some(previous) => {
                if value >= previous {
                    ((value as i128) - (previous as i128)) as u64
                } else {
                    0
                }
            },
        };
        self.previous_value = Some(value);
        delta
    }

    /// What the text of a counter file says: the total, or why there is none.
    pub open spec fn reading(content: Result<Seq<char>, Seq<char>>) -> Result<i64, Seq<char>> {
        match content {
            Err(reason) => Err("Failed to read energy file: "@ + reason),
            Ok(text) => match parse_i64_spec(trim(text)) {
                Ok(value) => Ok(value as i64),
                Err(kind) => Err("Failed to parse energy value: "@ + describe_parse_error(kind)),
            },
        }
    }

    /// Takes what reading the counter file gave and returns the energy in
    /// microjoules since the last reading. A file that could not be read, or
    /// that holds no integer, is an error and leaves the reader as it was.
    pub fn read_delta(&mut self, content: &Result<String, String>) -> (result: Result<u64, String>)
        ensures
            match Self::reading(content_view(*content)) {
                Ok(value) => result == Ok::<u64, String>(old(self).delta_after(value))
                    && *final(self) == old(self).rebased(value),
                Err(message) => (result matches Err(text) && text@ == message) && *final(self)
                    == *old(self),
            },
            Self::reading(content_view(*content)) is Ok && old(self).previous_value is None
                ==> result == Ok::<u64, String>(0),
            Self::reading(content_view(*content)) matches Ok(value) ==> (old(
                self,
            ).previous_value matches Some(previous) ==> (value < previous ==> result == Ok::<
                u64,
                String,
            >(0) && final(self).previous_value == Some(value))),
    {
        match content {
            Err(reason) => {
                let mut message = String::from_str("Failed to read energy file: ");
                message.append(reason.as_str());
                Err(message)
            },
            Ok(text) => {
                let chars = to_chars(text.as_str());
                let number = trim_chars(&chars);
                match parse_i64(&number) {
                    Ok(value) => Ok(self.observe(value)),
                    Err(kind) => {
                        let mut message = String::from_str("Failed to parse energy value: ");
                        message.append(kind.describe());
                        Err(message)
                    },
                }
            },
        }
    }
}

/// The readers of one processor package.
#[derive(Debug)]
pub struct SocketReaders {
    /// The number of the package.
    pub socket_id: u32,
    /// The whole package.
    pub package_reader: Option<DeltaReader>,
    /// The cores with their private caches.
    pub core_reader: Option<DeltaReader>,
    /// What lies on the package beside the cores.
    pub uncore_reader: Option<DeltaReader>,
}

/// The energy in microjoules that the domains of one package gave at one
/// tick; `None` for a domain without a reader.
#[derive(Clone, Copy, Debug)]
pub struct SocketEnergy {
    pub socket_id: u32,
    pub package: Option<u64>,
    pub core: Option<u64>,
    pub uncore: Option<u64>,
}

/// The collector for the hardware energy counters.
#[derive(Debug)]
pub struct Rapl {
    /// The power-capping directory that the domains were found in.
    pub rapl_dir: String,
    /// The readers of each package, by ascending package number.
    pub socket_readers: Vec<SocketReaders>,
    /// The reader of the memory outside the packages.
    pub dram_reader: Option<DeltaReader>,
    /// The reader of the whole platform.
    pub psys_reader: Option<DeltaReader>,
    /// The processes that energy is attributed to.
    pub tracked_pids: Vec<u32>,
}

/// The energy in microjoules that `reader` gives at a tick that read
/// `counters`. A file that was not read, could not be read or holds no integer
/// gives nothing.
pub open spec fn reader_energy(reader: DeltaReader, counters: Seq<CounterFile>) -> u64 {
    match counter_content(counters, reader.energy_file_spec()) {
        Some(content) => match DeltaReader::reading(content) {
            Ok(value) => reader.delta_after(value),
            Err(_) => 0,
        },
        None => 0,
    }
}

/// The reader as a tick that read `counters` leaves it: with the new total as
/// its baseline where there is one, else unchanged.
pub open spec fn reader_after(reader: DeltaReader, counters: Seq<CounterFile>) -> DeltaReader {
    match counter_content(counters, reader.energy_file_spec()) {
        Some(content) => match DeltaReader::reading(content) {
            Ok(value) => reader.rebased(value),
            Err(_) => reader,
        },
        None => reader,
    }
}

/// The energy of a domain that may have no reader.
pub open spec fn domain_energy(reader: Option<DeltaReader>, counters: Seq<CounterFile>) -> Option<
    u64,
> {
    match reader {
        Some(r) => Some(reader_energy(r, counters)),
        None => None,
    }
}

/// The reader of a domain, if it has one, after the tick.
pub open spec fn domain_after(reader: Option<DeltaReader>, counters: Seq<CounterFile>) -> Option<
    DeltaReader,
> {
    match reader {
        Some(r) => Some(reader_after(r, counters)),
        None => None,
    }
}

/// The energy of the domains of one package at a tick.
pub open spec fn socket_energy(socket: SocketReaders, counters: Seq<CounterFile>) -> SocketEnergy {
    SocketEnergy {
        socket_id: socket.socket_id,
        package: domain_energy(socket.package_reader, counters),
        core: domain_energy(socket.core_reader, counters),
        uncore: domain_energy(socket.uncore_reader, counters),
    }
}

/// The readers of one package after a tick.
pub open spec fn socket_after(socket: SocketReaders, counters: Seq<CounterFile>) -> SocketReaders {
    SocketReaders {
        socket_id: socket.socket_id,
        package_reader: domain_after(socket.package_reader, counters),
        core_reader: domain_after(socket.core_reader, counters),
        uncore_reader: domain_after(socket.uncore_reader, counters),
    }
}

/// The counter file of a domain, if the domain has a reader.
pub open spec fn domain_files(reader: Option<DeltaReader>) -> Seq<Seq<char>> {
    match reader {
        Some(r) => seq![r.energy_file_spec()],
        None => Seq::empty(),
    }
}

/// The counter files of one package: package, cores, uncore.
pub open spec fn socket_files(socket: SocketReaders) -> Seq<Seq<char>> {
    domain_files(socket.package_reader) + domain_files(socket.core_reader) + domain_files(
        socket.uncore_reader,
    )
}

/// The counter files of the first `upto` packages.
pub open spec fn sockets_files(sockets: Seq<SocketReaders>, upto: int) -> Seq<Seq<char>>
    decreases upto,
{
    if upto <= 0 {
        Seq::empty()
    } else {
        sockets_files(sockets, upto - 1) + socket_files(sockets[upto - 1])
    }
}

/// The label of a domain of a package: `rapl:socket:`, the package number, a
/// colon and the domain's name.
pub open spec fn socket_device(socket_id: u32, domain: Seq<char>) -> Seq<char> {
    "rapl:socket:"@ + decimal_digits(socket_id as nat) + ":"@ + domain
}

/// One energy record.
pub open spec fn energy_record(pid: u32, timestamp: i64, device: Seq<char>, energy: u64)
    -> EnergyRecordView {
    EnergyRecordView { pid, timestamp, device, energy }
}

/// The record of a domain with a reader; nothing for a domain without one.
pub open spec fn domain_record(
    energy: Option<u64>,
    pid: u32,
    timestamp: i64,
    device: Seq<char>,
    share: Ratio,
) -> Seq<EnergyRecordView> {
    match energy {
        Some(amount) => seq![energy_record(pid, timestamp, device, scaled(amount, share))],
        None => Seq::empty(),
    }
}

/// The record of a domain whose energy is divided evenly among `count`
/// processes; nothing for a domain without a reader.
pub open spec fn even_record(
    energy: Option<u64>,
    pid: u32,
    timestamp: i64,
    device: Seq<char>,
    count: nat,
) -> Seq<EnergyRecordView> {
    match energy {
        Some(amount) => seq![energy_record(pid, timestamp, device, equal_share(amount, count))],
        None => Seq::empty(),
    }
}

/// The records of one process for one package: package and core by the
/// processor share, uncore as an even part, in this order.
pub open spec fn socket_pid_records(
    energy: SocketEnergy,
    timestamp: i64,
    pid: u32,
    share: Ratio,
    count: nat,
) -> Seq<EnergyRecordView> {
    domain_record(
        energy.package,
        pid,
        timestamp,
        socket_device(energy.socket_id, "package"@),
        share,
    ) + domain_record(energy.core, pid, timestamp, socket_device(energy.socket_id, "core"@), share)
        + even_record(
        energy.uncore,
        pid,
        timestamp,
        socket_device(energy.socket_id, "uncore"@),
        count,
    )
}

/// The records of the first `upto` processes of `pids` for one package.
pub open spec fn socket_records(
    energy: SocketEnergy,
    timestamp: i64,
    stats: ProcessStats,
    pids: Seq<u32>,
    upto: int,
) -> Seq<EnergyRecordView>
    decreases upto,
{
    if upto <= 0 {
        Seq::empty()
    } else {
        socket_records(energy, timestamp, stats, pids, upto - 1) + socket_pid_records(
            energy,
            timestamp,
            pids[upto - 1],
            cpu_ratio(stats, pids[upto - 1]),
            pids.len(),
        )
    }
}

/// The records of the first `upto` packages, package after package.
pub open spec fn sockets_records(
    sockets: Seq<SocketReaders>,
    sample: TickSample,
    pids: Seq<u32>,
    upto: int,
) -> Seq<EnergyRecordView>
    decreases upto,
{
    if upto <= 0 {
        Seq::empty()
    } else {
        sockets_records(sockets, sample, pids, upto - 1) + socket_records(
            socket_energy(sockets[upto - 1], sample.counters@),
            sample.timestamp,
            sample.stats,
            pids,
            pids.len() as int,
        )
    }
}

/// The records of one process for the domains outside the packages: memory
/// by the memory share, the platform as an even part, in this order.
pub open spec fn system_pid_records(
    dram: Option<u64>,
    psys: Option<u64>,
    timestamp: i64,
    pid: u32,
    share: Ratio,
    count: nat,
) -> Seq<EnergyRecordView> {
    domain_record(dram, pid, timestamp, "rapl:system:dram"@, share) + even_record(
        psys,
        pid,
        timestamp,
        "rapl:system:psys"@,
        count,
    )
}

/// The records of the first `upto` processes of `pids` for the domains outside
/// the packages.
pub open spec fn system_records(
    dram: Option<u64>,
    psys: Option<u64>,
    timestamp: i64,
    stats: ProcessStats,
    pids: Seq<u32>,
    upto: int,
) -> Seq<EnergyRecordView>
    decreases upto,
{
    if upto <= 0 {
        Seq::empty()
    } else {
        system_records(dram, psys, timestamp, stats, pids, upto - 1) + system_pid_records(
            dram,
            psys,
            timestamp,
            pids[upto - 1],
            memory_ratio(stats, pids, pids[upto - 1]),
            pids.len(),
        )
    }
}

/// Domains without readers give no record, whatever is tracked.
pub proof fn lemma_no_reader_no_record(
    timestamp: i64,
    stats: ProcessStats,
    pids: Seq<u32>,
    upto: int,
)
    ensures
        system_records(None, None, timestamp, stats, pids, upto).len() == 0,
    decreases upto,
{
    if upto > 0 {
        lemma_no_reader_no_record(timestamp, stats, pids, upto - 1);
    }
}

/// One utilization record: the processor share of a process as a percentage.
pub open spec fn utilization_record(timestamp: i64, stats: ProcessStats, pid: u32)
    -> UtilizationRecordView {
    UtilizationRecordView {
        pid,
        timestamp,
        device: "rapl:cpu"@,
        utilization: percentage(cpu_ratio(stats, pid)),
    }
}

/// The share listed for `pid` in `table`: that of the first entry under that
/// identifier, or nothing.
pub open spec fn lookup_ratio(table: Seq<(u32, Ratio)>, pid: u32) -> Ratio
    decreases table.len(),
{
    if table.len() == 0 {
        zero_ratio()
    } else if table[0].0 == pid {
        table[0].1
    } else {
        lookup_ratio(table.drop_first(), pid)
    }
}

/// Whether `table` lists each of `pids`, in order, with its processor share.
pub open spec fn is_cpu_table(table: Seq<(u32, Ratio)>, pids: Seq<u32>, stats: ProcessStats)
    -> bool {
    &&& table.len() == pids.len()
    &&& forall|i: int|
        0 <= i < pids.len() ==> #[trigger] table[i] == (pids[i], cpu_ratio(stats, pids[i]))
}

/// Whether `table` lists each of `pids`, in order, with its memory share among them.
pub open spec fn is_memory_table(table: Seq<(u32, Ratio)>, pids: Seq<u32>, stats: ProcessStats)
    -> bool {
    &&& table.len() == pids.len()
    &&& forall|i: int|
        0 <= i < pids.len() ==> #[trigger] table[i] == (pids[i], memory_ratio(stats, pids, pids[i]))
}

/// In a table that gives equal identifiers equal shares, looking up the
/// identifier of any entry finds that entry's share.
pub proof fn lemma_lookup_ratio(table: Seq<(u32, Ratio)>, j: int)
    requires
        0 <= j < table.len(),
        forall|i: int, k: int|
            0 <= i < table.len() && 0 <= k < table.len() && (#[trigger] table[i]).0 == (
            #[trigger] table[k]).0 ==> table[i].1 == table[k].1,
    ensures
        lookup_ratio(table, table[j].0) == table[j].1,
    decreases table.len(),
{
    if table[0].0 != table[j].0 {
        let rest = table.drop_first();
        assert forall|i: int, k: int|
            0 <= i < rest.len() && 0 <= k < rest.len() && (#[trigger] rest[i]).0 == (
            #[trigger] rest[k]).0 implies rest[i].1 == rest[k].1 by {
            assert(rest[i] == table[i + 1]);
            assert(rest[k] == table[k + 1]);
        }
        lemma_lookup_ratio(rest, j - 1);
        assert(rest[j - 1] == table[j]);
    } else {
        assert(table[0].1 == table[j].1);
    }
}

/// Looks up the share listed for `pid`.
pub fn ratio_for(table: &Vec<(u32, Ratio)>, pid: u32) -> (share: Ratio)
    ensures
        share == lookup_ratio(table@, pid),
{
    let n = table.len();
    let mut i: usize = 0;
    assert(table@.subrange(0, n as int) =~= table@);
    while i < n
        invariant
            i <= n == table.len(),
            lookup_ratio(table@, pid) == lookup_ratio(table@.subrange(i as int, n as int), pid),
        decreases n - i,
    {
        if table[i].0 == pid {
            return table[i].1;
        }
        assert(table@.subrange(i as int, n as int).drop_first() =~= table@.subrange(
            i + 1,
            n as int,
        ));
        i += 1;
    }
    Ratio { num: 0, den: 1 }
}

/// Adds one record at the end of `records`.
fn push_record(
    records: &mut Vec<EnergyRecord>,
    pid: u32,
    timestamp: i64,
    device: String,
    energy: u64,
)
    ensures
        final(records).deep_view() == old(records).deep_view().push(
            energy_record(pid, timestamp, device@, energy),
        ),
{
    records.push(EnergyRecord { pid, timestamp, device, energy });
    assert(records.deep_view() =~= old(records).deep_view().push(
        energy_record(pid, timestamp, device@, energy),
    ));
}

/// Writes the label of a domain of a package.
fn socket_label(socket_id: u32, domain: &str) -> (label: String)
    ensures
        label@ == socket_device(socket_id, domain@),
{
    let mut label = String::from_str("rapl:socket:");
    let number = u32_to_string(socket_id);
    label.append(number.as_str());
    label.append(":");
    label.append(domain);
    label
}

/// Adds the counter file of a domain, if the domain has a reader.
fn push_domain_file(files: &mut Vec<String>, reader: &Option<DeltaReader>)
    ensures
        final(files).deep_view() == old(files).deep_view() + domain_files(*reader),
{
    match reader {
        Some(r) => {
            let path = r.energy_file();
            files.push(path);
            assert(files.deep_view() =~= old(files).deep_view().push(r.energy_file_spec()));
            assert(files.deep_view() =~= old(files).deep_view() + domain_files(*reader));
        },
        None => {
            assert(files.deep_view() =~= old(files).deep_view() + domain_files(*reader));
        },
    }
}

/// Reads the domain's counter for this tick, where the domain has a reader.
/// A failed reading counts as no energy.
fn sample_domain(reader: &mut Option<DeltaReader>, counters: &Vec<CounterFile>) -> (energy: Option<
    u64,
>)
    ensures
        energy == domain_energy(*old(reader), counters@),
        *final(reader) == domain_after(*old(reader), counters@),
{
    match reader {
        None => None,
        Some(r) => {
            let path = r.energy_file();
            match find_counter(counters, &path) {
                None => Some(0),
                Some(content) => match r.read_delta(content) {
                    Ok(delta) => Some(delta),
                    Err(_) => Some(0),
                },
            }
        },
    }
}

/// Reads the counters of one package for this tick.
fn sample_socket(socket: &mut SocketReaders, counters: &Vec<CounterFile>) -> (energy: SocketEnergy)
    ensures
        energy == socket_energy(*old(socket), counters@),
        *final(socket) == socket_after(*old(socket), counters@),
{
    let package = sample_domain(&mut socket.package_reader, counters);
    let core = sample_domain(&mut socket.core_reader, counters);
    let uncore = sample_domain(&mut socket.uncore_reader, counters);
    SocketEnergy { socket_id: socket.socket_id, package, core, uncore }
}

/// Whether one of `names` holds the text `pattern`.
pub open spec fn any_name_holds(names: Seq<String>, pattern: Seq<char>) -> bool {
    exists|i: int| 0 <= i < names.len() && contains_text(#[trigger] names[i]@, pattern)
}

/// Tells whether one of `names` holds the text `pattern`.
pub fn any_name_contains(names: &Vec<String>, pattern: &str) -> (found: bool)
    ensures
        found == any_name_holds(names@, pattern@),
{
    let wanted = to_chars(pattern);
    let n = names.len();
    let mut i: usize = 0;
    while i < n
        invariant
            i <= n == names.len(),
            wanted@ == pattern@,
            forall|k: int| 0 <= k < i ==> !contains_text(#[trigger] names@[k]@, pattern@),
        decreases n - i,
    {
        let name = to_chars(names[i].as_str());
        if contains(&name, &wanted) {
            assert(contains_text(names@[i as int]@, pattern@));
            return true;
        }
        i += 1;
    }
    false
}

impl Rapl {
    /// The power-capping directory that is scanned where none is named.
    pub open spec fn default_dir() -> Seq<char> {
        "/sys/class/powercap"@
    }

    /// The processor share and the memory share of each of `pids`, in their
    /// order. The processor share is the usage of the process per core,
    /// relative to the usage of the whole machine; the memory share is its
    /// resident memory relative to that of all of `pids`. A process that the
    /// host does not know has no share. The call never fails.
    pub fn get_utilization(&self, pids: &Vec<u32>, stats: &ProcessStats) -> (result: Result<
        (Vec<(u32, Ratio)>, Vec<(u32, Ratio)>),
        String,
    >)
        ensures
            result matches Ok(tables) && is_cpu_table(tables.0@, pids@, *stats) && is_memory_table(
                tables.1@,
                pids@,
                *stats,
            ),
            stats.system_cpu == 0 ==> (result matches Ok(tables) && forall|i: int|
                0 <= i < pids@.len() ==> (#[trigger] tables.0@[i]).1 == zero_ratio()),
    {
        let n = pids.len();
        let cores: u128 = if stats.cpu_count == 0 {
            1
        } else {
            stats.cpu_count as u128
        };
        assert(cores * stats.system_cpu <= 0xffff_ffff_ffff_ffff * 0xffff_ffff) by (nonlinear_arith)
            requires
                0 <= cores <= 0xffff_ffff_ffff_ffff,
                0 <= stats.system_cpu <= 0xffff_ffff,
        ;
        let capacity: u128 = cores * (stats.system_cpu as u128);
        let mut total: u128 = 0;
        let mut i: usize = 0;
        while i < n
            invariant
                i <= n == pids.len(),
                total == tracked_memory(stats.processes@, pids@.subrange(0, i as int)),
                total <= i * u64::MAX,
            decreases n - i,
        {
            assert(pids@.subrange(0, i + 1).drop_last() =~= pids@.subrange(0, i as int));
            assert((i + 1) * u64::MAX == i * u64::MAX + u64::MAX) by (nonlinear_arith);
            assert(i * u64::MAX + u64::MAX <= u128::MAX) by (nonlinear_arith)
                requires
                    i < 0xffff_ffff_ffff_ffff,
            ;
            let memory: u64 = match find_sample(&stats.processes, pids[i]) {
                Some(process) => process.memory,
                None => 0,
            };
            total = total + (memory as u128);
            i += 1;
        }
        assert(pids@.subrange(0, n as int) =~= pids@);
        let mut cpu_table: Vec<(u32, Ratio)> = Vec::new();
        let mut memory_table: Vec<(u32, Ratio)> = Vec::new();
        let mut j: usize = 0;
        while j < n
            invariant
                j <= n == pids.len(),
                total == tracked_memory(stats.processes@, pids@),
                capacity == cpu_capacity(*stats),
                cpu_table@.len() == j,
                memory_table@.len() == j,
                forall|k: int|
                    0 <= k < j ==> #[trigger] cpu_table@[k] == (
                        pids@[k],
                        cpu_ratio(*stats, pids@[k]),
                    ),
                forall|k: int|
                    0 <= k < j ==> #[trigger] memory_table@[k] == (
                        pids@[k],
                        memory_ratio(*stats, pids@, pids@[k]),
                    ),
            decreases n - j,
        {
            let pid = pids[j];
            let (usage, memory): (u32, u64) = match find_sample(&stats.processes, pid) {
                Some(process) => (process.cpu_usage, process.memory),
                None => (0, 0),
            };
            let cpu_share = if stats.system_cpu > 0 {
                Ratio { num: usage as u64, den: capacity }
            } else {
                Ratio { num: 0, den: 1 }
            };
            let memory_share = if stats.total_memory > 0 && total > 0 {
                Ratio { num: memory, den: total }
            } else {
                Ratio { num: 0, den: 1 }
            };
            cpu_table.push((pid, cpu_share));
            memory_table.push((pid, memory_share));
            j += 1;
        }
        Ok((cpu_table, memory_table))
    }
}

impl EnergyCollector for Rapl {
    open spec fn tracked_pids(&self) -> Seq<u32> {
        self.tracked_pids@
    }

    /// Nothing where no process is tracked. Else, for each package in turn
    /// and each tracked process in turn, the records of the package's
    /// domains; then, for each tracked process in turn, the records of the
    /// domains outside the packages.
    open spec fn energy_records(&self, sample: &TickSample) -> Seq<EnergyRecordView> {
        let pids = self.tracked_pids@;
        if pids.len() == 0 {
            Seq::empty()
        } else {
            sockets_records(
                self.socket_readers@,
                *sample,
                pids,
                self.socket_readers@.len() as int,
            ) + system_records(
                domain_energy(self.dram_reader, sample.counters@),
                domain_energy(self.psys_reader, sample.counters@),
                sample.timestamp,
                sample.stats,
                pids,
                pids.len() as int,
            )
        }
    }

    /// One record per tracked process, in their order.
    open spec fn utilization_records(&self, sample: &TickSample) -> Seq<UtilizationRecordView> {
        Seq::new(
            self.tracked_pids@.len(),
            |i: int| utilization_record(sample.timestamp, sample.stats, self.tracked_pids@[i]),
        )
    }

    /// With no tracked process nothing is read and nothing changes. Else
    /// every reader has taken its reading of this tick, and nothing else
    /// has changed.
    open spec fn energy_step(&self, sample: &TickSample, next: &Self) -> bool {
        let counters = sample.counters@;
        &&& next.rapl_dir == self.rapl_dir
        &&& next.tracked_pids@ == self.tracked_pids@
        &&& next.socket_readers@.len() == self.socket_readers@.len()
        &&& if self.tracked_pids@.len() == 0 {
            &&& next.socket_readers@ == self.socket_readers@
            &&& next.dram_reader == self.dram_reader
            &&& next.psys_reader == self.psys_reader
        } else {
            &&& forall|k: int|
                0 <= k < self.socket_readers@.len() ==> #[trigger] next.socket_readers@[k]
                    == socket_after(self.socket_readers@[k], counters)
            &&& next.dram_reader == domain_after(self.dram_reader, counters)
            &&& next.psys_reader == domain_after(self.psys_reader, counters)
        }
    }

    /// A reading that fails counts as no energy; the collection itself succeeds.
    open spec fn never_fails() -> bool {
        true
    }

    /// The counter files of the packages in their order, then that of the
    /// memory and that of the platform.
    open spec fn wanted_files(&self) -> Seq<Seq<char>> {
        sockets_files(self.socket_readers@, self.socket_readers@.len() as int) + domain_files(
            self.dram_reader,
        ) + domain_files(self.psys_reader)
    }

    /// There is an entry in the power-capping directory whose name holds `rapl`.
    open spec fn available(probe: &HostProbe) -> bool {
        match probe.powercap_entries {
            Some(names) => any_name_holds(names@, "rapl"@),
            None => false,
        }
    }

    fn set_tracked_pids(&mut self, pids: Vec<u32>)
        ensures
            final(self).tracked_pids == pids,
            final(self).rapl_dir == old(self).rapl_dir,
            final(self).socket_readers == old(self).socket_readers,
            final(self).dram_reader == old(self).dram_reader,
            final(self).psys_reader == old(self).psys_reader,
    {
        self.tracked_pids = pids;
    }

    fn get_energy_trace(&mut self, sample: &TickSample) -> (result: Result<
        Vec<EnergyRecord>,
        String,
    >)
        ensures
            result matches Ok(records) && records.deep_view() == old(self).energy_records(sample),
            old(self).socket_readers@.len() == 0 && old(self).dram_reader is None && old(
                self,
            ).psys_reader is None ==> (result matches Ok(records) && records@.len() == 0),
    {
        proof {
            lemma_no_reader_no_record(
                sample.timestamp,
                sample.stats,
                self.tracked_pids@,
                self.tracked_pids@.len() as int,
            );
        }
        let timestamp = sample.timestamp;
        let mut records: Vec<EnergyRecord> = Vec::new();
        assert(records.deep_view() =~= Seq::empty());
        let count = self.tracked_pids.len();
        if count == 0 {
            return Ok(records);
        }
        let (cpu_table, memory_table) = match self.get_utilization(
            &self.tracked_pids,
            &sample.stats,
        ) {
            Ok(tables) => tables,
            Err(reason) => {
                return Err(reason);
            },
        };
        let ghost pids = self.tracked_pids@;
        let ghost counters = sample.counters@;
        let n = self.socket_readers.len();
        let mut i: usize = 0;
        while i < n
            invariant
                i <= n,
                n == self.socket_readers@.len(),
                n == old(self).socket_readers@.len(),
                count == pids.len(),
                count > 0,
                pids == old(self).tracked_pids@,
                self.tracked_pids@ == pids,
                counters == sample.counters@,
                timestamp == sample.timestamp,
                self.rapl_dir == old(self).rapl_dir,
                self.dram_reader == old(self).dram_reader,
                self.psys_reader == old(self).psys_reader,
                is_cpu_table(cpu_table@, pids, sample.stats),
                forall|k: int|
                    0 <= k < i ==> #[trigger] self.socket_readers@[k] == socket_after(
                        old(self).socket_readers@[k],
                        counters,
                    ),
                forall|k: int|
                    i <= k < n ==> #[trigger] self.socket_readers@[k] == old(self).socket_readers@[k],
                records.deep_view() == sockets_records(
                    old(self).socket_readers@,
                    *sample,
                    pids,
                    i as int,
                ),
            decreases n - i,
        {
            let energy = sample_socket(&mut self.socket_readers[i], &sample.counters);
            let ghost base = records.deep_view();
            let mut j: usize = 0;
            while j < count
                invariant
                    j <= count,
                    count == pids.len(),
                    self.tracked_pids@ == pids,
                    timestamp == sample.timestamp,
                    is_cpu_table(cpu_table@, pids, sample.stats),
                    records.deep_view() == base + socket_records(
                        energy,
                        timestamp,
                        sample.stats,
                        pids,
                        j as int,
                    ),
                decreases count - j,
            {
                let pid = self.tracked_pids[j];
                let share = ratio_for(&cpu_table, pid);
                proof {
                    assert(cpu_table@[j as int] == (pid, cpu_ratio(sample.stats, pid)));
                    lemma_lookup_ratio(cpu_table@, j as int);
                }
                let ghost before = records.deep_view();
                if let Some(amount) = energy.package {
                    let label = socket_label(energy.socket_id, "package");
                    push_record(&mut records, pid, timestamp, label, scale(amount, share));
                }
                if let Some(amount) = energy.core {
                    let label = socket_label(energy.socket_id, "core");
                    push_record(&mut records, pid, timestamp, label, scale(amount, share));
                }
                if let Some(amount) = energy.uncore {
                    let label = socket_label(energy.socket_id, "uncore");
                    push_record(&mut records, pid, timestamp, label, share_equally(amount, count));
                }
                assert(records.deep_view() =~= before + socket_pid_records(
                    energy,
                    timestamp,
                    pid,
                    share,
                    count as nat,
                ));
                assert(records.deep_view() =~= base + socket_records(
                    energy,
                    timestamp,
                    sample.stats,
                    pids,
                    j + 1,
                ));
                j += 1;
            }
            i += 1;
        }
        let dram = sample_domain(&mut self.dram_reader, &sample.counters);
        let psys = sample_domain(&mut self.psys_reader, &sample.counters);
        let ghost base = records.deep_view();
        let mut j: usize = 0;
        while j < count
            invariant
                j <= count,
                count == pids.len(),
                self.tracked_pids@ == pids,
                timestamp == sample.timestamp,
                is_memory_table(memory_table@, pids, sample.stats),
                records.deep_view() == base + system_records(
                    dram,
                    psys,
                    timestamp,
                    sample.stats,
                    pids,
                    j as int,
                ),
            decreases count - j,
        {
            let pid = self.tracked_pids[j];
            let share = ratio_for(&memory_table, pid);
            proof {
                assert(memory_table@[j as int] == (pid, memory_ratio(sample.stats, pids, pid)));
                lemma_lookup_ratio(memory_table@, j as int);
            }
            let ghost before = records.deep_view();
            if let Some(amount) = dram {
                let label = String::from_str("rapl:system:dram");
                push_record(&mut records, pid, timestamp, label, scale(amount, share));
            }
            if let Some(amount) = psys {
                let label = String::from_str("rapl:system:psys");
                push_record(&mut records, pid, timestamp, label, share_equally(amount, count));
            }
            assert(records.deep_view() =~= before + system_pid_records(
                dram,
                psys,
                timestamp,
                pid,
                share,
                count as nat,
            ));
            assert(records.deep_view() =~= base + system_records(
                dram,
                psys,
                timestamp,
                sample.stats,
                pids,
                j + 1,
            ));
            j += 1;
        }
        Ok(records)
    }

    fn get_utilization_trace(&self, sample: &TickSample) -> (result: Result<
        Vec<UtilizationRecord>,
        String,
    >)
        ensures
            result matches Ok(records) && records.deep_view() == self.utilization_records(sample),
    {
        let mut records: Vec<UtilizationRecord> = Vec::new();
        let count = self.tracked_pids.len();
        if count == 0 {
            assert(records.deep_view() =~= self.utilization_records(sample));
            return Ok(records);
        }
        let (cpu_table, _) = match self.get_utilization(&self.tracked_pids, &sample.stats) {
            Ok(tables) => tables,
            Err(reason) => {
                return Err(reason);
            },
        };
        let mut j: usize = 0;
        while j < count
            invariant
                j <= count,
                count == self.tracked_pids@.len(),
                is_cpu_table(cpu_table@, self.tracked_pids@, sample.stats),
                records@.len() == j,
                forall|k: int|
                    0 <= k < j ==> (#[trigger] records@[k])@ == utilization_record(
                        sample.timestamp,
                        sample.stats,
                        self.tracked_pids@[k],
                    ),
            decreases count - j,
        {
            let pid = self.tracked_pids[j];
            let share = ratio_for(&cpu_table, pid);
            proof {
                assert(cpu_table@[j as int] == (pid, cpu_ratio(sample.stats, pid)));
                lemma_lookup_ratio(cpu_table@, j as int);
            }
            records.push(
                UtilizationRecord {
                    pid,
                    timestamp: sample.timestamp,
                    device: String::from_str("rapl:cpu"),
                    utilization: scale(FULL_SCALE, share),
                },
            );
            j += 1;
        }
        assert(records.deep_view() =~= self.utilization_records(sample));
        Ok(records)
    }

    fn is_available(probe: &HostProbe) -> (available: bool) {
        match &probe.powercap_entries {
            None => false,
            Some(names) => any_name_contains(names, "rapl"),
        }
    }

    fn counter_files(&self) -> (files: Vec<String>) {
        let mut files: Vec<String> = Vec::new();
        assert(files.deep_view() =~= Seq::empty());
        let n = self.socket_readers.len();
        let mut i: usize = 0;
        while i < n
            invariant
                i <= n == self.socket_readers@.len(),
                files.deep_view() == sockets_files(self.socket_readers@, i as int),
            decreases n - i,
        {
            let socket = &self.socket_readers[i];
            let ghost before = files.deep_view();
            push_domain_file(&mut files, &socket.package_reader);
            push_domain_file(&mut files, &socket.core_reader);
            push_domain_file(&mut files, &socket.uncore_reader);
            assert(files.deep_view() =~= before + socket_files(*socket));
            i += 1;
        }
        let ghost before = files.deep_view();
        push_domain_file(&mut files, &self.dram_reader);
        push_domain_file(&mut files, &self.psys_reader);
        assert(files.deep_view() =~= before + domain_files(self.dram_reader) + domain_files(
            self.psys_reader,
        ));
        files
    }
}

/// What listing the power-capping directory found about one of its entries.
#[derive(Debug)]
pub struct PowercapEntry {
    /// The name of the entry.
    pub name: String,
    /// The path of the entry's directory.
    pub path: String,
    /// Whether the directory holds a counter file.
    pub has_energy: bool,
    /// The text of the file that names the domain, or `None` where it could
    /// not be read.
    pub component: Option<String>,
}

/// What the name of an entry says the entry is.
#[derive(Clone, Copy, Debug, PartialEq, Eq, Structural)]
pub enum EntryKind {
    /// Not a domain that the collector reads.
    Ignored,
    /// The domain of the whole platform.
    Platform,
    /// The root of the package with the given number.
    SocketRoot(u32),
    /// A part of the package with the given number.
    SocketPart(u32),
    /// A part that belongs to no package.
    SystemPart,
}

/// The domains that were found: the packages by ascending number, the memory
/// outside the packages, and the platform.
pub struct Topology {
    pub sockets: Seq<SocketReaders>,
    pub dram: Option<DeltaReader>,
    pub psys: Option<DeltaReader>,
}

/// The package number in the name of an entry: the number between the first
/// colon and the next one, or the end.
pub open spec fn socket_id_of(name: Seq<char>) -> Option<u32> {
    match second_field(name, ':') {
        Some(field) => match parse_u32_spec(field) {
            Ok(value) => Some(value as u32),
            Err(_) => None,
        },
        None => None,
    }
}

/// What the name of an entry says the entry is. Only names that hold `rapl`
/// count. One that holds `psys` is the platform. Else one colon marks the
/// root of a package and two colons a part: of the package whose number the
/// name gives, or of no package where it gives none.
pub open spec fn classify(name: Seq<char>) -> EntryKind {
    if !contains_text(name, "rapl"@) {
        EntryKind::Ignored
    } else if contains_text(name, "psys"@) {
        EntryKind::Platform
    } else if count_char(name, ':') == 1 {
        match socket_id_of(name) {
            Some(id) => EntryKind::SocketRoot(id),
            None => EntryKind::Ignored,
        }
    } else if count_char(name, ':') == 2 {
        match socket_id_of(name) {
            Some(id) => EntryKind::SocketPart(id),
            None => EntryKind::SystemPart,
        }
    } else {
        EntryKind::Ignored
    }
}

/// Whether the text of a domain's name file is `label`, white space at its
/// ends and the case of ASCII letters set aside.
pub open spec fn names_domain(component: Seq<char>, label: Seq<char>) -> bool {
    eq_ignore_ascii_case(trim(component), label)
}

/// Whether a domain's name file names the cores.
pub open spec fn is_core_label(component: Seq<char>) -> bool {
    names_domain(component, "core"@) || names_domain(component, "cores"@)
}

/// Whether a domain's name file names the uncore.
pub open spec fn is_uncore_label(component: Seq<char>) -> bool {
    names_domain(component, "uncore"@)
}

/// Whether a domain's name file names the memory.
pub open spec fn is_dram_label(component: Seq<char>) -> bool {
    names_domain(component, "dram"@) || names_domain(component, "ram"@)
}

/// A package without any reader.
pub open spec fn blank_socket(socket_id: u32) -> SocketReaders {
    SocketReaders { socket_id, package_reader: None, core_reader: None, uncore_reader: None }
}

/// Whether the packages stand by ascending number, none of them twice.
pub open spec fn ascending(sockets: Seq<SocketReaders>) -> bool {
    forall|i: int, j: int|
        0 <= i < j < sockets.len() ==> (#[trigger] sockets[i]).socket_id < (
        #[trigger] sockets[j]).socket_id
}

/// The place of package `socket_id` among `sockets`: the number of packages
/// in front whose number is smaller.
pub open spec fn slot_of(sockets: Seq<SocketReaders>, socket_id: u32) -> int
    decreases sockets.len(),
{
    if sockets.len() == 0 || sockets[0].socket_id >= socket_id {
        0
    } else {
        1 + slot_of(sockets.drop_first(), socket_id)
    }
}

/// `sockets` with package `socket_id` in it: unchanged where it is there, else
/// with a blank package in its place.
pub open spec fn with_socket(sockets: Seq<SocketReaders>, socket_id: u32) -> Seq<SocketReaders> {
    let k = slot_of(sockets, socket_id);
    if k < sockets.len() && sockets[k].socket_id == socket_id {
        sockets
    } else {
        sockets.insert(k, blank_socket(socket_id))
    }
}

/// The package with `reader` for the domain that `component` names: the cores
/// or the uncore. Any other name, or none, leaves the package as it is.
pub open spec fn socket_with_component(
    socket: SocketReaders,
    reader: DeltaReader,
    component: Option<Seq<char>>,
) -> SocketReaders {
    match component {
        None => socket,
        Some(text) => if is_core_label(text) {
            SocketReaders { core_reader: Some(reader), ..socket }
        } else if is_uncore_label(text) {
            SocketReaders { uncore_reader: Some(reader), ..socket }
        } else {
            socket
        },
    }
}

/// Whether the name file of a part, where it could be read, names the memory.
pub open spec fn names_memory(component: Option<Seq<char>>) -> bool {
    match component {
        Some(text) => is_dram_label(text),
        None => false,
    }
}

/// The memory reader after a part was found: `reader` where `component`
/// names the memory, else what it was.
pub open spec fn dram_with_component(
    dram: Option<DeltaReader>,
    reader: DeltaReader,
    component: Option<Seq<char>>,
) -> Option<DeltaReader> {
    match component {
        None => dram,
        Some(text) => if is_dram_label(text) {
            Some(reader)
        } else {
            dram
        },
    }
}

/// A reader for the domain of `entry` that has read nothing yet.
pub open spec fn fresh_reader(entry: PowercapEntry) -> DeltaReader {
    DeltaReader { file_path: entry.path, previous_value: None }
}

/// The domains after `entry` was looked at. An entry without a counter file
/// changes nothing. The platform entry sets the platform reader. The root of
/// a package sets that package's reader and makes the package known. A part
/// whose name file names the memory sets the memory reader, which belongs to
/// no package, whether the part's name gives a package number or not. Any
/// other part of a package makes the package known and sets the reader that
/// its name file calls for; any other part of no package changes nothing.
pub open spec fn after_entry(found: Topology, entry: PowercapEntry) -> Topology {
    if !entry.has_energy {
        found
    } else {
        match classify(entry.name@) {
            EntryKind::Ignored => found,
            EntryKind::Platform => Topology { psys: Some(fresh_reader(entry)), ..found },
            EntryKind::SocketRoot(id) => {
                let sockets = with_socket(found.sockets, id);
                let k = slot_of(found.sockets, id);
                Topology {
                    sockets: sockets.update(
                        k,
                        SocketReaders { package_reader: Some(fresh_reader(entry)), ..sockets[k] },
                    ),
                    ..found
                }
            },
            EntryKind::SocketPart(id) => if names_memory(text_view(entry.component)) {
                Topology { dram: Some(fresh_reader(entry)), ..found }
            } else {
                let sockets = with_socket(found.sockets, id);
                let k = slot_of(found.sockets, id);
                Topology {
                    sockets: sockets.update(
                        k,
                        socket_with_component(
                            sockets[k],
                            fresh_reader(entry),
                            text_view(entry.component),
                        ),
                    ),
                    ..found
                }
            },
            EntryKind::SystemPart => Topology {
                dram: dram_with_component(
                    found.dram,
                    fresh_reader(entry),
                    text_view(entry.component),
                ),
                ..found
            },
        }
    }
}

/// The domains that the first `upto` of `entries` give, looked at in order.
pub open spec fn discovered(entries: Seq<PowercapEntry>, upto: int) -> Topology
    decreases upto,
{
    if upto <= 0 {
        Topology { sockets: Seq::empty(), dram: None, psys: None }
    } else {
        after_entry(discovered(entries, upto - 1), entries[upto - 1])
    }
}

/// Where the `k` packages in front have smaller numbers than `socket_id` and
/// the one at `k`, if any, has not, the place of `socket_id` is `k`.
pub proof fn lemma_slot_of(sockets: Seq<SocketReaders>, socket_id: u32, k: int)
    requires
        0 <= k <= sockets.len(),
        forall|i: int| 0 <= i < k ==> (#[trigger] sockets[i]).socket_id < socket_id,
        k == sockets.len() || sockets[k].socket_id >= socket_id,
    ensures
        slot_of(sockets, socket_id) == k,
    decreases sockets.len(),
{
    if k > 0 {
        let rest = sockets.drop_first();
        assert(sockets[0].socket_id < socket_id);
        assert forall|i: int| 0 <= i < k - 1 implies (#[trigger] rest[i]).socket_id
            < socket_id by {
            assert(rest[i] == sockets[i + 1]);
        }
        lemma_slot_of(rest, socket_id, k - 1);
    }
}

/// In packages that stand by ascending number, the place of `socket_id` has
/// smaller numbers in front of it and no smaller number from it on.
pub proof fn lemma_slot_of_ascending(sockets: Seq<SocketReaders>, socket_id: u32)
    requires
        ascending(sockets),
    ensures
        0 <= slot_of(sockets, socket_id) <= sockets.len(),
        forall|i: int|
            0 <= i < slot_of(sockets, socket_id) ==> (#[trigger] sockets[i]).socket_id < socket_id,
        forall|i: int|
            slot_of(sockets, socket_id) <= i < sockets.len() ==> (#[trigger] sockets[i]).socket_id
                >= socket_id,
    decreases sockets.len(),
{
    if sockets.len() > 0 {
        let rest = sockets.drop_first();
        assert forall|i: int, j: int| 0 <= i < j < rest.len() implies (#[trigger] rest[i]).socket_id
            < (#[trigger] rest[j]).socket_id by {
            assert(rest[i] == sockets[i + 1]);
            assert(rest[j] == sockets[j + 1]);
        }
        if sockets[0].socket_id >= socket_id {
            assert forall|i: int| 0 <= i < sockets.len() implies (#[trigger] sockets[i]).socket_id
                >= socket_id by {
                if i > 0 {
                    assert(sockets[0].socket_id < sockets[i].socket_id);
                }
            }
        } else {
            lemma_slot_of_ascending(rest, socket_id);
            let k = slot_of(rest, socket_id);
            assert forall|i: int| 0 <= i < k + 1 implies (#[trigger] sockets[i]).socket_id
                < socket_id by {
                if i > 0 {
                    assert(sockets[i] == rest[i - 1]);
                }
            }
            assert forall|i: int| k + 1 <= i < sockets.len() implies (
            #[trigger] sockets[i]).socket_id >= socket_id by {
                assert(sockets[i] == rest[i - 1]);
            }
        }
    }
}

/// Looking at one more entry keeps the packages in ascending order.
pub proof fn lemma_after_entry_ascending(found: Topology, entry: PowercapEntry)
    requires
        ascending(found.sockets),
    ensures
        ascending(after_entry(found, entry).sockets),
{
    if entry.has_energy {
        match classify(entry.name@) {
            EntryKind::SocketRoot(id) => {
                lemma_with_socket(found.sockets, id);
            },
            EntryKind::SocketPart(id) => {
                if !names_memory(text_view(entry.component)) {
                    lemma_with_socket(found.sockets, id);
                }
            },
            _ => {},
        }
    }
}

/// Making a package known keeps the order, and the package then stands at its place.
pub proof fn lemma_with_socket(sockets: Seq<SocketReaders>, socket_id: u32)
    requires
        ascending(sockets),
    ensures
        ascending(with_socket(sockets, socket_id)),
        0 <= slot_of(sockets, socket_id) < with_socket(sockets, socket_id).len(),
        with_socket(sockets, socket_id)[slot_of(sockets, socket_id)].socket_id == socket_id,
        forall|replacement: SocketReaders|
            replacement.socket_id == socket_id ==> ascending(
                #[trigger] with_socket(sockets, socket_id).update(
                    slot_of(sockets, socket_id),
                    replacement,
                ),
            ),
{
    lemma_slot_of_ascending(sockets, socket_id);
    let k = slot_of(sockets, socket_id);
    let known = with_socket(sockets, socket_id);
    assert(ascending(known)) by {
        assert forall|i: int, j: int| 0 <= i < j < known.len() implies (
        #[trigger] known[i]).socket_id < (#[trigger] known[j]).socket_id by {
            if !(k < sockets.len() && sockets[k].socket_id == socket_id) {
                if i < k {
                    assert(known[i] == sockets[i]);
                } else if i > k {
                    assert(known[i] == sockets[i - 1]);
                }
                if j < k {
                    assert(known[j] == sockets[j]);
                } else if j > k {
                    assert(known[j] == sockets[j - 1]);
                }
            }
        }
    }
    assert forall|replacement: SocketReaders| replacement.socket_id == socket_id implies ascending(
        #[trigger] known.update(k, replacement),
    ) by {
        let changed = known.update(k, replacement);
        assert forall|i: int, j: int| 0 <= i < j < changed.len() implies (
        #[trigger] changed[i]).socket_id < (#[trigger] changed[j]).socket_id by {
            assert(changed[i].socket_id == known[i].socket_id);
            assert(changed[j].socket_id == known[j].socket_id);
        }
    }
}

/// Tells what the name of an entry says the entry is.
pub fn classify_entry(name: &str) -> (kind: EntryKind)
    ensures
        kind == classify(name@),
{
    let chars = to_chars(name);
    let rapl = to_chars("rapl");
    let psys = to_chars("psys");
    if !contains(&chars, &rapl) {
        return EntryKind::Ignored;
    }
    if contains(&chars, &psys) {
        return EntryKind::Platform;
    }
    let colons = count_of(&chars, ':');
    if colons == 1 {
        match Rapl::parse_socket_id(name) {
            Some(id) => EntryKind::SocketRoot(id),
            None => EntryKind::Ignored,
        }
    } else if colons == 2 {
        match Rapl::parse_socket_id(name) {
            Some(id) => EntryKind::SocketPart(id),
            None => EntryKind::SystemPart,
        }
    } else {
        EntryKind::Ignored
    }
}

/// Tells whether the text of a domain's name file is `label`, white space at
/// its ends and the case of ASCII letters set aside.
pub fn component_is(component: &str, label: &str) -> (same: bool)
    ensures
        same == names_domain(component@, label@),
{
    let chars = to_chars(component);
    let trimmed = trim_chars(&chars);
    let wanted = to_chars(label);
    equals_ignore_ascii_case(&trimmed, &wanted)
}

/// Finds the place of package `socket_id` and makes the package known where
/// it is not.
fn ensure_socket(sockets: &mut Vec<SocketReaders>, socket_id: u32) -> (k: usize)
    requires
        ascending(old(sockets)@),
    ensures
        final(sockets)@ == with_socket(old(sockets)@, socket_id),
        k == slot_of(old(sockets)@, socket_id),
        k < final(sockets)@.len(),
        final(sockets)@[k as int].socket_id == socket_id,
{
    let n = sockets.len();
    let mut k: usize = 0;
    while k < n && sockets[k].socket_id < socket_id
        invariant
            k <= n == sockets@.len(),
            sockets@ == old(sockets)@,
            forall|i: int| 0 <= i < k ==> (#[trigger] sockets@[i]).socket_id < socket_id,
        decreases n - k,
    {
        k += 1;
    }
    proof {
        lemma_slot_of(sockets@, socket_id, k as int);
        lemma_with_socket(sockets@, socket_id);
    }
    if k == n || sockets[k].socket_id != socket_id {
        sockets.insert(
            k,
            SocketReaders {
                socket_id,
                package_reader: None,
                core_reader: None,
                uncore_reader: None,
            },
        );
    }
    k
}

/// Gives the package `reader` as the reader of the whole package.
fn assign_package(socket: &mut SocketReaders, reader: DeltaReader)
    ensures
        *final(socket) == (SocketReaders { package_reader: Some(reader), ..*old(socket) }),
{
    socket.package_reader = Some(reader);
}

impl Rapl {
    /// Reads the package number from the name of an entry, such as the 0 in
    /// `intel-rapl:0`.
    pub fn parse_socket_id(name: &str) -> (id: Option<u32>)
        ensures
            id == socket_id_of(name@),
    {
        let chars = to_chars(name);
        match second_field_of(&chars, ':') {
            None => None,
            Some(field) => match parse_u32(&field) {
                Ok(value) => Some(value),
                Err(_) => None,
            },
        }
    }

    /// A reader for the domain in the directory `path`, where the directory
    /// holds a counter file.
    pub fn parse_component(path: &String, has_energy: bool) -> (reader: Option<DeltaReader>)
        ensures
            has_energy ==> reader == Some(
                DeltaReader { file_path: *path, previous_value: None },
            ),
            !has_energy ==> reader is None,
    {
        if !has_energy {
            return None;
        }
        Some(DeltaReader::new(path.clone()))
    }

    /// Gives the package `reader` for the domain that `component` names: the
    /// cores or the uncore. Any other name, or none, leaves the package as it is.
    pub fn assign_socket_component(
        socket: &mut SocketReaders,
        reader: DeltaReader,
        component: &Option<String>,
    )
        ensures
            *final(socket) == socket_with_component(*old(socket), reader, text_view(*component)),
    {
        match component {
            None => {},
            Some(text) => {
                if component_is(text.as_str(), "core") || component_is(text.as_str(), "cores") {
                    socket.core_reader = Some(reader);
                } else if component_is(text.as_str(), "uncore") {
                    socket.uncore_reader = Some(reader);
                }
            },
        }
    }

    /// Tells whether the name file of a part, where it could be read, names
    /// the memory.
    pub fn component_names_memory(component: &Option<String>) -> (memory: bool)
        ensures
            memory == names_memory(text_view(*component)),
    {
        match component {
            None => false,
            Some(text) => component_is(text.as_str(), "dram") || component_is(text.as_str(), "ram"),
        }
    }

    /// Makes `reader` the memory reader where `component` names the memory.
    pub fn assign_system_component(
        dram_reader: &mut Option<DeltaReader>,
        reader: DeltaReader,
        component: &Option<String>,
    )
        ensures
            *final(dram_reader) == dram_with_component(
                *old(dram_reader),
                reader,
                text_view(*component),
            ),
            names_memory(text_view(*component)) ==> *final(dram_reader) == Some(reader),
    {
        if Self::component_names_memory(component) {
            *dram_reader = Some(reader);
        }
    }

    /// Sorts the entries of the power-capping directory into domains: the
    /// readers of each package by ascending package number, the memory reader
    /// and the platform reader. Entries are looked at in the order given; a
    /// later entry for the same domain replaces an earlier one. The memory
    /// reader belongs to no package, also where the entry that gives it is
    /// named as a part of one.
    pub fn scan_powercap_entries(entries: &Vec<PowercapEntry>) -> (found: (
        Vec<SocketReaders>,
        Option<DeltaReader>,
        Option<DeltaReader>,
    ))
        ensures
            found.0@ == discovered(entries@, entries@.len() as int).sockets,
            found.1 == discovered(entries@, entries@.len() as int).dram,
            found.2 == discovered(entries@, entries@.len() as int).psys,
            ascending(found.0@),
    {
        let mut sockets: Vec<SocketReaders> = Vec::new();
        let mut dram: Option<DeltaReader> = None;
        let mut psys: Option<DeltaReader> = None;
        let n = entries.len();
        let mut i: usize = 0;
        while i < n
            invariant
                i <= n == entries.len(),
                ascending(sockets@),
                discovered(entries@, i as int) == (Topology { sockets: sockets@, dram, psys }),
            decreases n - i,
        {
            let entry = &entries[i];
            let ghost before = Topology { sockets: sockets@, dram, psys };
            proof {
                lemma_after_entry_ascending(before, *entry);
            }
            match Self::parse_component(&entry.path, entry.has_energy) {
                None => {},
                Some(reader) => {
                    match classify_entry(entry.name.as_str()) {
                        EntryKind::Ignored => {},
                        EntryKind::Platform => {
                            psys = Some(reader);
                        },
                        EntryKind::SocketRoot(id) => {
                            let k = ensure_socket(&mut sockets, id);
                            assign_package(&mut sockets[k], reader);
                        },
                        EntryKind::SocketPart(id) => {
                            if Self::component_names_memory(&entry.component) {
                                Self::assign_system_component(&mut dram, reader, &entry.component);
                            } else {
                                let k = ensure_socket(&mut sockets, id);
                                Self::assign_socket_component(
                                    &mut sockets[k],
                                    reader,
                                    &entry.component,
                                );
                            }
                        },
                        EntryKind::SystemPart => {
                            Self::assign_system_component(&mut dram, reader, &entry.component);
                        },
                    }
                },
            }
            assert((Topology { sockets: sockets@, dram, psys }) == after_entry(before, *entry)) by {
                assert(sockets@ =~= after_entry(before, *entry).sockets);
            }
            i += 1;
        }
        (sockets, dram, psys)
    }

    /// A collector for the power-capping directory `rapl_path`, or for the
    /// usual one where none is named, with the domains that the listed
    /// entries of that directory give. It tracks no process yet, so that a
    /// tick right after yields no record.
    pub fn new(rapl_path: Option<String>, entries: &Vec<PowercapEntry>) -> (rapl: Self)
        ensures
            rapl.socket_readers@ == discovered(entries@, entries@.len() as int).sockets,
            rapl.dram_reader == discovered(entries@, entries@.len() as int).dram,
            rapl.psys_reader == discovered(entries@, entries@.len() as int).psys,
            rapl.tracked_pids@.len() == 0,
            rapl.wf(),
            match rapl_path {
                Some(path) => rapl.rapl_dir == path,
                None => rapl.rapl_dir@ == Self::default_dir(),
            },
    {
        let rapl_dir = match rapl_path {
            Some(path) => path,
            None => String::from_str("/sys/class/powercap"),
        };
        let (socket_readers, dram_reader, psys_reader) = Self::scan_powercap_entries(entries);
        Rapl { rapl_dir, socket_readers, dram_reader, psys_reader, tracked_pids: Vec::new() }
    }

    /// Whether the packages stand by ascending number, none of them twice.
    pub open spec fn wf(&self) -> bool {
        ascending(self.socket_readers@)
    }
}

} // verus!
