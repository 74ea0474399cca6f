//! The records that a collector produces, the capability that every collector
//! offers, and the orchestrator that samples on a schedule.

use crate::errors::MonitoringError;
use crate::sample::TickSample;
use crate::table::{
    columns_view, same_schema, stacked, table_wf, Column, ColumnData, ColumnValues, ColumnView,
    Table,
};
use crate::utils::psutils::{collect_process_groups, collected, ProcessGroupView, ProcessInfo};
use tokio::sync::mpsc::{Receiver, Sender};
use tokio::task::JoinHandle;
use vstd::prelude::*;
use vstd::string::*;

verus! {

/// The kinds of collector that the library knows.
#[derive(Clone, Copy, Debug, PartialEq, Eq, Structural)]
pub enum EnergyCollectorType {
    /// Hardware energy counters of the processor packages.
    Rapl,
    /// Graphics processors.
    NvidiaGpu,
    /// A collector that measures nothing.
    Dummy,
}

/// The processes of one user that run one application.
#[derive(Debug)]
pub struct ProcessGroup {
    /// The owning user.
    pub user: String,
    /// The application's name.
    pub task: String,
    /// The identifiers of the processes.
    pub pids: Vec<usize>,
}

/// The energy of one domain that one tick attributes to one process.
#[derive(Debug, Clone)]
pub struct EnergyRecord {
    /// The process; zero for a record of the whole system.
    pub pid: u32,
    /// When the tick was taken, in milliseconds since the Unix epoch.
    pub timestamp: i64,
    /// The label of the domain.
    pub device: String,
    /// The attributed energy in microjoules.
    pub energy: u64,
}

/// The utilization of one device that one tick attributes to one process.
#[derive(Debug, Clone)]
pub struct UtilizationRecord {
    /// The process.
    pub pid: u32,
    /// When the tick was taken, in milliseconds since the Unix epoch.
    pub timestamp: i64,
    /// The label of the device.
    pub device: String,
    /// The utilization in thousandths of a percent.
    pub utilization: u64,
}

/// An energy record as a mathematical value.
pub struct EnergyRecordView {
    pub pid: u32,
    pub timestamp: i64,
    pub device: Seq<char>,
    pub energy: u64,
}

/// A utilization record as a mathematical value.
pub struct UtilizationRecordView {
    pub pid: u32,
    pub timestamp: i64,
    pub device: Seq<char>,
    pub utilization: u64,
}

impl View for EnergyRecord {
    type V = EnergyRecordView;

    open spec fn view(&self) -> EnergyRecordView {
        EnergyRecordView {
            pid: self.pid,
            timestamp: self.timestamp,
            device: self.device@,
            energy: self.energy,
        }
    }
}

impl DeepView for EnergyRecord {
    type V = EnergyRecordView;

    open spec fn deep_view(&self) -> EnergyRecordView {
        self@
    }
}

impl View for UtilizationRecord {
    type V = UtilizationRecordView;

    open spec fn view(&self) -> UtilizationRecordView {
        UtilizationRecordView {
            pid: self.pid,
            timestamp: self.timestamp,
            device: self.device@,
            utilization: self.utilization,
        }
    }
}

impl DeepView for UtilizationRecord {
    type V = UtilizationRecordView;

    open spec fn deep_view(&self) -> UtilizationRecordView {
        self@
    }
}

/// What a probe of the host found, for the collectors to judge whether they
/// can work there.
#[derive(Debug)]
pub struct HostProbe {
    /// The names of the entries of the power-capping directory, or `None`
    /// where the directory is missing or cannot be listed.
    pub powercap_entries: Option<Vec<String>>,
    /// Whether the graphics driver's query tool ran and reported success.
    pub nvidia_smi: bool,
}

/// What every collector offers to the orchestrator.
pub trait EnergyCollector: Sized {
    /// The processes that the collector attributes energy to.
    spec fn tracked_pids(&self) -> Seq<u32>;

    /// The energy records that a tick with the readings `sample` yields.
    spec fn energy_records(&self, sample: &TickSample) -> Seq<EnergyRecordView>;

    /// The utilization records that a tick with the readings `sample` yields.
    spec fn utilization_records(&self, sample: &TickSample) -> Seq<UtilizationRecordView>;

    /// Whether `next` is the collector as an energy tick with the readings
    /// `sample` leaves it.
    spec fn energy_step(&self, sample: &TickSample, next: &Self) -> bool;

    /// Whether a collector of this type can work on the probed host.
    spec fn available(probe: &HostProbe) -> bool;

    /// The paths of the counter files that a tick has to read for this collector.
    spec fn wanted_files(&self) -> Seq<Seq<char>>;

    /// Whether a collector of this type reports every tick without error.
    spec fn never_fails() -> bool;

    /// Replaces the tracked processes.
    fn set_tracked_pids(&mut self, pids: Vec<u32>);

    /// One attribution pass over all the domains for the tracked processes.
    /// With no tracked process the result is empty, and never an error.
    fn get_energy_trace(&mut self, sample: &TickSample) -> (result: Result<
        Vec<EnergyRecord>,
        String,
    >)
        ensures
            old(self).tracked_pids().len() == 0 ==> (result matches Ok(records) && records@.len() == 0),
            Self::never_fails() ==> result is Ok,
            result matches Ok(records) ==> records.deep_view() == old(self).energy_records(sample),
            old(self).energy_step(sample, final(self)),
            final(self).tracked_pids() == old(self).tracked_pids(),
    ;

    /// The utilization of each tracked process. With no tracked process the
    /// result is empty, and never an error.
    fn get_utilization_trace(&self, sample: &TickSample) -> (result: Result<
        Vec<UtilizationRecord>,
        String,
    >)
        ensures
            self.tracked_pids().len() == 0 ==> (result matches Ok(records) && records@.len() == 0),
            Self::never_fails() ==> result is Ok,
            result matches Ok(records) ==> records.deep_view() == self.utilization_records(sample),
    ;

    /// Tells whether a collector of this type can work on the probed host.
    fn is_available(probe: &HostProbe) -> (available: bool)
        ensures
            available == Self::available(probe),
    ;

    /// The paths of the counter files that a tick has to read for this collector.
    fn counter_files(&self) -> (files: Vec<String>)
        ensures
            files.deep_view() == self.wanted_files(),
    ;
}

/// The receiving end of a `tokio::sync::mpsc` channel. Nothing is known of
/// what it holds.
#[verifier::external_type_specification]
#[verifier::external_body]
#[verifier::reject_recursive_types(T)]
pub struct ExReceiver<T>(Receiver<T>);

/// The sending end of a `tokio::sync::mpsc` channel. Nothing is known of it.
#[verifier::external_type_specification]
#[verifier::external_body]
#[verifier::reject_recursive_types(T)]
pub struct ExSender<T>(Sender<T>);

/// The handle of a task of the `tokio` runtime. Nothing is known of the task.
#[verifier::external_type_specification]
#[verifier::external_body]
#[verifier::reject_recursive_types(T)]
pub struct ExJoinHandle<T>(JoinHandle<T>);

/// The failure of a task of the `tokio` runtime, which awaiting its handle
/// can give. The library never looks at one.
#[verifier::external_type_specification]
#[verifier::external_body]
pub struct ExJoinError(tokio::task::JoinError);

/// The number of batches that the channel between the sampling task and the
/// foreground holds before sending waits.
pub const CHANNEL_CAPACITY: usize = 10;

/// Opens a bounded channel for batches, with `tokio::sync::mpsc::channel`.
/// The outside function stops the program for a capacity of zero or of more
/// than an eighth of `usize::MAX`; nothing is claimed of the two ends.
#[verifier::external_body]
fn open_channel(capacity: usize) -> (ends: (
    Sender<(Vec<EnergyRecord>, Vec<UtilizationRecord>)>,
    Receiver<(Vec<EnergyRecord>, Vec<UtilizationRecord>)>,
))
    requires
        0 < capacity <= usize::MAX / 8,
{
    tokio::sync::mpsc::channel(capacity)
}

/// Takes the next batch from the channel if one is waiting, with
/// `Receiver::try_recv`. What comes back depends on what the sampling task
/// has sent: nothing is claimed of it.
#[verifier::external_body]
fn try_receive(receiver: &mut Receiver<(Vec<EnergyRecord>, Vec<UtilizationRecord>)>) -> (batch:
    Option<(Vec<EnergyRecord>, Vec<UtilizationRecord>)>) {
    receiver.try_recv().ok()
}

/// Asks the runtime to cancel the task, with `JoinHandle::abort`.
#[verifier::external_body]
fn abort_task(handle: &JoinHandle<()>) {
    handle.abort()
}

/// Splits rows into their three columns, with `itertools::multiunzip`: each
/// column holds, row by row, the row's entry for it.
#[verifier::external_body]
fn unzip_rows(rows: Vec<(String, String, u32)>) -> (columns: (Vec<String>, Vec<String>, Vec<u32>))
    ensures
        columns.0@.len() == rows@.len(),
        columns.1@.len() == rows@.len(),
        columns.2@.len() == rows@.len(),
        forall|i: int| 0 <= i < rows@.len() ==> columns.0@[i] == (#[trigger] rows@[i]).0,
        forall|i: int| 0 <= i < rows@.len() ==> columns.1@[i] == (#[trigger] rows@[i]).1,
        forall|i: int| 0 <= i < rows@.len() ==> columns.2@[i] == (#[trigger] rows@[i]).2,
{
    itertools::multiunzip(rows)
}

/// The table of energy records: the columns `pid`, `device`, `energy` and
/// `timestamp`, with one row per record.
pub open spec fn energy_table(records: Seq<EnergyRecordView>) -> Seq<ColumnView> {
    seq![
        ColumnView {
            name: "pid"@,
            values: ColumnValues::UInt32(records.map_values(|r: EnergyRecordView| r.pid)),
        },
        ColumnView {
            name: "device"@,
            values: ColumnValues::Text(records.map_values(|r: EnergyRecordView| r.device)),
        },
        ColumnView {
            name: "energy"@,
            values: ColumnValues::UInt64(records.map_values(|r: EnergyRecordView| r.energy)),
        },
        ColumnView {
            name: "timestamp"@,
            values: ColumnValues::Int64(records.map_values(|r: EnergyRecordView| r.timestamp)),
        },
    ]
}

/// The table of utilization records: the columns `pid`, `device`,
/// `utilization` and `timestamp`, with one row per record.
pub open spec fn utilization_table(records: Seq<UtilizationRecordView>) -> Seq<ColumnView> {
    seq![
        ColumnView {
            name: "pid"@,
            values: ColumnValues::UInt32(records.map_values(|r: UtilizationRecordView| r.pid)),
        },
        ColumnView {
            name: "device"@,
            values: ColumnValues::Text(records.map_values(|r: UtilizationRecordView| r.device)),
        },
        ColumnView {
            name: "utilization"@,
            values: ColumnValues::UInt64(
                records.map_values(|r: UtilizationRecordView| r.utilization),
            ),
        },
        ColumnView {
            name: "timestamp"@,
            values: ColumnValues::Int64(records.map_values(|r: UtilizationRecordView| r.timestamp)),
        },
    ]
}

/// The process identifier as the table of processes holds it: its lowest 32 bits.
pub open spec fn row_pid(pid: usize) -> u32 {
    (pid as int % 0x1_0000_0000) as u32
}

/// One row per process of the groups, group after group: the user, the
/// application and the process identifier.
pub open spec fn group_rows(groups: Seq<ProcessGroupView>) -> Seq<(Seq<char>, Seq<char>, u32)>
    decreases groups.len(),
{
    if groups.len() == 0 {
        Seq::empty()
    } else {
        let last = groups.last();
        group_rows(groups.drop_last()) + last.pids.map_values(
            |pid: usize| (last.user, last.task, row_pid(pid)),
        )
    }
}

/// The table of tracked processes: the columns `user`, `task` and `pid`, with
/// one row per process.
pub open spec fn process_table(rows: Seq<(Seq<char>, Seq<char>, u32)>) -> Seq<ColumnView> {
    seq![
        ColumnView {
            name: "user"@,
            values: ColumnValues::Text(rows.map_values(|r: (Seq<char>, Seq<char>, u32)| r.0)),
        },
        ColumnView {
            name: "task"@,
            values: ColumnValues::Text(rows.map_values(|r: (Seq<char>, Seq<char>, u32)| r.1)),
        },
        ColumnView {
            name: "pid"@,
            values: ColumnValues::UInt32(rows.map_values(|r: (Seq<char>, Seq<char>, u32)| r.2)),
        },
    ]
}

/// Whether a table has the columns of a trace of energy records.
pub open spec fn is_energy_trace(table: Seq<ColumnView>) -> bool {
    same_schema(table, energy_table(Seq::empty()))
}

/// Whether a table has the columns of a trace of utilization records.
pub open spec fn is_utilization_trace(table: Seq<ColumnView>) -> bool {
    same_schema(table, utilization_table(Seq::empty()))
}

/// The trace with the records under it; unchanged where there is no record.
pub open spec fn with_energy(trace: Seq<ColumnView>, records: Seq<EnergyRecordView>) -> Seq<
    ColumnView,
> {
    if records.len() == 0 {
        trace
    } else {
        stacked(trace, energy_table(records))
    }
}

/// The trace with the records under it; unchanged where there is no record.
pub open spec fn with_utilization(trace: Seq<ColumnView>, records: Seq<UtilizationRecordView>)
    -> Seq<ColumnView> {
    if records.len() == 0 {
        trace
    } else {
        stacked(trace, utilization_table(records))
    }
}

/// The names of the columns of the traces are all different.
proof fn lemma_column_names()
    ensures
        "pid"@ != "device"@,
        "pid"@ != "energy"@,
        "pid"@ != "utilization"@,
        "pid"@ != "timestamp"@,
        "device"@ != "energy"@,
        "device"@ != "utilization"@,
        "device"@ != "timestamp"@,
        "energy"@ != "timestamp"@,
        "utilization"@ != "timestamp"@,
        "user"@ != "task"@,
        "user"@ != "pid"@,
        "task"@ != "pid"@,
{
    reveal_strlit("pid");
    reveal_strlit("device");
    reveal_strlit("energy");
    reveal_strlit("utilization");
    reveal_strlit("timestamp");
    reveal_strlit("user");
    reveal_strlit("task");
    assert("pid"@.len() == 3 && "device"@.len() == 6 && "energy"@.len() == 6 && "timestamp"@.len()
        == 9 && "utilization"@.len() == 11 && "user"@.len() == 4 && "task"@.len() == 4);
    assert("device"@[0] == 'd' && "energy"@[0] == 'e');
    assert("user"@[0] == 'u' && "task"@[0] == 't');
}

/// Tables of energy records are tables, and all have the same columns.
pub proof fn lemma_energy_table(records: Seq<EnergyRecordView>)
    ensures
        table_wf(energy_table(records)),
        is_energy_trace(energy_table(records)),
{
    lemma_column_names();
}

/// Tables of utilization records are tables, and all have the same columns.
pub proof fn lemma_utilization_table(records: Seq<UtilizationRecordView>)
    ensures
        table_wf(utilization_table(records)),
        is_utilization_trace(utilization_table(records)),
{
    lemma_column_names();
}

/// The table of the given energy records.
pub fn energy_records_table(records: &Vec<EnergyRecord>) -> (table: Table)
    ensures
        table@ == energy_table(records.deep_view()),
{
    let n = records.len();
    let mut pids: Vec<u32> = Vec::new();
    let mut devices: Vec<String> = Vec::new();
    let mut energies: Vec<u64> = Vec::new();
    let mut timestamps: Vec<i64> = Vec::new();
    let mut i: usize = 0;
    while i < n
        invariant
            i <= n == records.len(),
            pids@.len() == i,
            devices@.len() == i,
            energies@.len() == i,
            timestamps@.len() == i,
            forall|k: int| 0 <= k < i ==> pids@[k] == records@[k].pid,
            forall|k: int| 0 <= k < i ==> devices@[k]@ == records@[k].device@,
            forall|k: int| 0 <= k < i ==> energies@[k] == records@[k].energy,
            forall|k: int| 0 <= k < i ==> timestamps@[k] == records@[k].timestamp,
        decreases n - i,
    {
        pids.push(records[i].pid);
        devices.push(records[i].device.clone());
        energies.push(records[i].energy);
        timestamps.push(records[i].timestamp);
        i += 1;
    }
    let mut columns: Vec<Column> = Vec::new();
    columns.push(Column::new("pid", ColumnData::UInt32(pids)));
    columns.push(Column::new("device", ColumnData::Text(devices)));
    columns.push(Column::new("energy", ColumnData::UInt64(energies)));
    columns.push(Column::new("timestamp", ColumnData::Int64(timestamps)));
    proof {
        let view = columns_view(columns@);
        let wanted = energy_table(records.deep_view());
        assert(view.len() == 4);
        assert(view[0].values =~= wanted[0].values) by {
            assert(pids@ =~= records.deep_view().map_values(|r: EnergyRecordView| r.pid));
        }
        assert(view[1].values =~= wanted[1].values) by {
            assert(devices.deep_view() =~= records.deep_view().map_values(
                |r: EnergyRecordView| r.device,
            ));
        }
        assert(view[2].values =~= wanted[2].values) by {
            assert(energies@ =~= records.deep_view().map_values(|r: EnergyRecordView| r.energy));
        }
        assert(view[3].values =~= wanted[3].values) by {
            assert(timestamps@ =~= records.deep_view().map_values(
                |r: EnergyRecordView| r.timestamp,
            ));
        }
        assert(view =~= wanted);
        lemma_energy_table(records.deep_view());
    }
    Table::from_columns(columns)
}

/// The table of the given utilization records.
pub fn utilization_records_table(records: &Vec<UtilizationRecord>) -> (table: Table)
    ensures
        table@ == utilization_table(records.deep_view()),
{
    let n = records.len();
    let mut pids: Vec<u32> = Vec::new();
    let mut devices: Vec<String> = Vec::new();
    let mut utilizations: Vec<u64> = Vec::new();
    let mut timestamps: Vec<i64> = Vec::new();
    let mut i: usize = 0;
    while i < n
        invariant
            i <= n == records.len(),
            pids@.len() == i,
            devices@.len() == i,
            utilizations@.len() == i,
            timestamps@.len() == i,
            forall|k: int| 0 <= k < i ==> pids@[k] == records@[k].pid,
            forall|k: int| 0 <= k < i ==> devices@[k]@ == records@[k].device@,
            forall|k: int| 0 <= k < i ==> utilizations@[k] == records@[k].utilization,
            forall|k: int| 0 <= k < i ==> timestamps@[k] == records@[k].timestamp,
        decreases n - i,
    {
        pids.push(records[i].pid);
        devices.push(records[i].device.clone());
        utilizations.push(records[i].utilization);
        timestamps.push(records[i].timestamp);
        i += 1;
    }
    let mut columns: Vec<Column> = Vec::new();
    columns.push(Column::new("pid", ColumnData::UInt32(pids)));
    columns.push(Column::new("device", ColumnData::Text(devices)));
    columns.push(Column::new("utilization", ColumnData::UInt64(utilizations)));
    columns.push(Column::new("timestamp", ColumnData::Int64(timestamps)));
    proof {
        let view = columns_view(columns@);
        let wanted = utilization_table(records.deep_view());
        assert(view.len() == 4);
        assert(view[0].values =~= wanted[0].values) by {
            assert(pids@ =~= records.deep_view().map_values(|r: UtilizationRecordView| r.pid));
        }
        assert(view[1].values =~= wanted[1].values) by {
            assert(devices.deep_view() =~= records.deep_view().map_values(
                |r: UtilizationRecordView| r.device,
            ));
        }
        assert(view[2].values =~= wanted[2].values) by {
            assert(utilizations@ =~= records.deep_view().map_values(
                |r: UtilizationRecordView| r.utilization,
            ));
        }
        assert(view[3].values =~= wanted[3].values) by {
            assert(timestamps@ =~= records.deep_view().map_values(
                |r: UtilizationRecordView| r.timestamp,
            ));
        }
        assert(view =~= wanted);
        lemma_utilization_table(records.deep_view());
    }
    Table::from_columns(columns)
}

/// The rows as mathematical values.
pub open spec fn rows_view(rows: Seq<(String, String, u32)>) -> Seq<(Seq<char>, Seq<char>, u32)> {
    rows.map_values(|r: (String, String, u32)| (r.0@, r.1@, r.2))
}

/// The table of tracked processes is a table.
pub proof fn lemma_process_table(rows: Seq<(Seq<char>, Seq<char>, u32)>)
    ensures
        table_wf(process_table(rows)),
{
    lemma_column_names();
}

/// One row per process of the groups, group after group.
fn flatten_groups(groups: &Vec<ProcessGroup>) -> (rows: Vec<(String, String, u32)>)
    ensures
        rows_view(rows@) == group_rows(groups.deep_view()),
{
    let n = groups.len();
    let mut rows: Vec<(String, String, u32)> = Vec::new();
    let mut i: usize = 0;
    assert(rows_view(rows@) =~= Seq::empty());
    while i < n
        invariant
            i <= n == groups.len(),
            rows_view(rows@) == group_rows(groups.deep_view().subrange(0, i as int)),
        decreases n - i,
    {
        let group = &groups[i];
        let ghost before = rows_view(rows@);
        let ghost view = group@;
        let m = group.pids.len();
        let mut j: usize = 0;
        while j < m
            invariant
                j <= m == group.pids.len(),
                view == group@,
                rows_view(rows@) == before + group.pids@.subrange(0, j as int).map_values(
                    |pid: usize| (view.user, view.task, row_pid(pid)),
                ),
            decreases m - j,
        {
            let pid = group.pids[j];
            let low: u32 = ((pid as u64) % 0x1_0000_0000u64) as u32;
            let ghost rows_before = rows_view(rows@);
            rows.push((group.user.clone(), group.task.clone(), low));
            assert(rows_view(rows@) =~= rows_before.push((view.user, view.task, row_pid(pid))));
            j += 1;
            assert(rows_view(rows@) =~= before + group.pids@.subrange(0, j as int).map_values(
                |pid: usize| (view.user, view.task, row_pid(pid)),
            ));
        }
        assert(group.pids@.subrange(0, m as int) =~= group.pids@);
        assert(groups.deep_view().subrange(0, i + 1).drop_last() =~= groups.deep_view().subrange(
            0,
            i as int,
        ));
        assert(groups.deep_view().subrange(0, i + 1).last() == view);
        i += 1;
    }
    assert(groups.deep_view().subrange(0, n as int) =~= groups.deep_view());
    rows
}

/// The table of the processes of the given groups.
pub fn process_groups_table(groups: &Vec<ProcessGroup>) -> (table: Table)
    ensures
        table@ == process_table(group_rows(groups.deep_view())),
{
    let rows = flatten_groups(groups);
    let ghost wanted = process_table(group_rows(groups.deep_view()));
    let ghost row_views = rows_view(rows@);
    let (users, tasks, pids) = unzip_rows(rows);
    let mut columns: Vec<Column> = Vec::new();
    columns.push(Column::new("user", ColumnData::Text(users)));
    columns.push(Column::new("task", ColumnData::Text(tasks)));
    columns.push(Column::new("pid", ColumnData::UInt32(pids)));
    proof {
        let view = columns_view(columns@);
        assert(view.len() == 3);
        assert(view[0].values =~= wanted[0].values) by {
            assert(users.deep_view() =~= row_views.map_values(
                |r: (Seq<char>, Seq<char>, u32)| r.0,
            ));
        }
        assert(view[1].values =~= wanted[1].values) by {
            assert(tasks.deep_view() =~= row_views.map_values(
                |r: (Seq<char>, Seq<char>, u32)| r.1,
            ));
        }
        assert(view[2].values =~= wanted[2].values) by {
            assert(pids@ =~= row_views.map_values(|r: (Seq<char>, Seq<char>, u32)| r.2));
        }
        assert(view =~= wanted);
        lemma_process_table(group_rows(groups.deep_view()));
    }
    Table::from_columns(columns)
}

/// What a call of `commence` did.
pub enum Commenced {
    /// Monitoring was running already: nothing was done.
    AlreadyRunning,
    /// Monitoring has started. The sampling task sends its batches through
    /// the sender.
    Started(Sender<(Vec<EnergyRecord>, Vec<UtilizationRecord>)>),
}

/// The orchestrator: it knows the processes to monitor, holds the collector
/// and the two traces, and takes in what the sampling task delivers.
pub struct EnergyGroup<T: EnergyCollector> {
    /// The sampling rate in thousandths of a hertz.
    pub rate: u64,
    /// The number of ticks that the sampling task puts into one batch.
    pub batch_size: usize,
    /// The table of monitored processes: user, task, pid.
    pub tracked_processes: Table,
    /// The trace of energy records: pid, device, energy, timestamp.
    pub energy_trace: Table,
    /// The trace of utilization records: pid, device, utilization, timestamp.
    pub utilization_trace: Table,
    /// The collector.
    pub energy_collector: T,
    /// Whether monitoring is running.
    pub is_running: bool,
    /// The sampling task, while one is attached.
    pub task_handle: Option<JoinHandle<()>>,
    /// The end of the channel on which batches arrive, while monitoring runs.
    pub data_receiver: Option<Receiver<(Vec<EnergyRecord>, Vec<UtilizationRecord>)>>,
}

impl<T: EnergyCollector> EnergyGroup<T> {
    /// Whether the traces have their columns.
    pub open spec fn wf(&self) -> bool {
        &&& is_energy_trace(self.energy_trace@)
        &&& is_utilization_trace(self.utilization_trace@)
    }

    /// Whether the two agree in everything but the traces, the collector, the
    /// running state and the channel.
    pub open spec fn same_setup(&self, other: &Self) -> bool {
        &&& self.rate == other.rate
        &&& self.batch_size == other.batch_size
        &&& self.tracked_processes == other.tracked_processes
        &&& self.task_handle == other.task_handle
    }

    /// Whether `after` holds the traces that taking in the given records
    /// makes of the traces of this orchestrator, with `ok` telling whether
    /// taking them in succeeded.
    ///
    /// Energy records come first. Records of a kind are put under their
    /// trace; that fails where the trace does not have their columns, and
    /// what was taken in before the failure stays.
    pub open spec fn absorb_outcome(
        &self,
        energy: Seq<EnergyRecordView>,
        utilization: Seq<UtilizationRecordView>,
        after: &Self,
        ok: bool,
    ) -> bool {
        if energy.len() > 0 && !is_energy_trace(self.energy_trace@) {
            &&& !ok
            &&& after.energy_trace == self.energy_trace
            &&& after.utilization_trace == self.utilization_trace
        } else if utilization.len() > 0 && !is_utilization_trace(self.utilization_trace@) {
            &&& !ok
            &&& after.energy_trace@ == with_energy(self.energy_trace@, energy)
            &&& after.utilization_trace == self.utilization_trace
        } else {
            &&& ok
            &&& after.energy_trace@ == with_energy(self.energy_trace@, energy)
            &&& after.utilization_trace@ == with_utilization(self.utilization_trace@, utilization)
        }
    }

    /// Whether `after` holds the traces that taking in the given batches
    /// makes of the traces of this orchestrator: their records laid end to
    /// end, batch after batch, each once.
    pub open spec fn intake_outcome(
        &self,
        batches: Seq<(Seq<EnergyRecordView>, Seq<UtilizationRecordView>)>,
        after: &Self,
        ok: bool,
    ) -> bool {
        self.absorb_outcome(joined_energy(batches), joined_utilization(batches), after, ok)
    }

    /// An orchestrator for the processes among `processes` that `pids`
    /// selects, or for all of them where nothing is selected. It is not
    /// running, its traces are empty, and a batch holds `batch_size` ticks,
    /// or one where none is given. Any batch size is taken as it is; only a
    /// sampling task needs one that is not zero. The call fails where there
    /// is no process to monitor.
    pub fn create_with_collector(
        collector: T,
        rate: u64,
        pids: Option<Vec<usize>>,
        batch_size: Option<usize>,
        processes: &Vec<ProcessInfo>,
    ) -> (result: Result<Self, MonitoringError>)
        ensures
            match collected(
                match pids {
                    Some(selected) => Some(selected@),
                    None => None,
                },
                processes@,
            ) {
                Ok(groups) => {
                    &&& result matches Ok(group)
                    &&& group.tracked_processes@ == process_table(group_rows(groups))
                    &&& group.energy_trace@ == energy_table(Seq::empty())
                    &&& group.utilization_trace@ == utilization_table(Seq::empty())
                    &&& group.energy_collector == collector
                    &&& group.rate == rate
                    &&& group.batch_size == match batch_size {
                        Some(size) => size,
                        None => 1,
                    }
                    &&& !group.is_running
                    &&& group.task_handle is None
                    &&& group.data_receiver is None
                    &&& group.wf()
                },
                Err(reason) => result matches Err(MonitoringError::ProcessDiscoveryError(text))
                    && text@ == reason,
            },
    {
        let process_groups = match collect_process_groups(pids, processes) {
            Ok(groups) => groups,
            Err(error) => {
                return Err(error);
            },
        };
        if process_groups.len() == 0 {
            return Err(MonitoringError::ProcessDiscoveryError(String::from_str("No processes found")));
        }
        let tracked_processes = process_groups_table(&process_groups);
        let no_energy: Vec<EnergyRecord> = Vec::new();
        let no_utilization: Vec<UtilizationRecord> = Vec::new();
        assert(no_energy.deep_view() =~= Seq::empty());
        assert(no_utilization.deep_view() =~= Seq::empty());
        let energy_trace = energy_records_table(&no_energy);
        let utilization_trace = utilization_records_table(&no_utilization);
        proof {
            lemma_energy_table(Seq::empty());
            lemma_utilization_table(Seq::empty());
        }
        Ok(
            EnergyGroup {
                rate,
                batch_size: match batch_size {
                    Some(size) => size,
                    None => 1,
                },
                tracked_processes,
                energy_trace,
                utilization_trace,
                energy_collector: collector,
                is_running: false,
                task_handle: None,
                data_receiver: None,
            },
        )
    }

    /// The table of monitored processes.
    pub fn processes(&self) -> (table: &Table)
        ensures
            *table == self.tracked_processes,
    {
        &self.tracked_processes
    }

    /// The trace of energy records.
    pub fn energy_trace(&self) -> (table: &Table)
        ensures
            *table == self.energy_trace,
    {
        &self.energy_trace
    }

    /// The trace of utilization records.
    pub fn utilization_trace(&self) -> (table: &Table)
        ensures
            *table == self.utilization_trace,
    {
        &self.utilization_trace
    }

    /// Puts the records under the trace of energy records. No record changes
    /// nothing. The call fails, and changes nothing, where the trace does
    /// not have the columns of energy records.
    pub fn append_energy_records(&mut self, records: Vec<EnergyRecord>) -> (result: Result<
        (),
        MonitoringError,
    >)
        ensures
            old(self).same_setup(final(self)),
            final(self).energy_collector == old(self).energy_collector,
            final(self).is_running == old(self).is_running,
            final(self).data_receiver == old(self).data_receiver,
            final(self).utilization_trace == old(self).utilization_trace,
            if records@.len() == 0 {
                &&& result is Ok
                &&& final(self).energy_trace == old(self).energy_trace
            } else if is_energy_trace(old(self).energy_trace@) {
                &&& result is Ok
                &&& final(self).energy_trace@ == stacked(
                    old(self).energy_trace@,
                    energy_table(records.deep_view()),
                )
            } else {
                &&& result matches Err(MonitoringError::Other(_))
                &&& final(self).energy_trace == old(self).energy_trace
            },
            is_energy_trace(old(self).energy_trace@) ==> is_energy_trace(final(self).energy_trace@),
    {
        if records.len() == 0 {
            return Ok(());
        }
        let data = energy_records_table(&records);
        proof {
            lemma_energy_table(records.deep_view());
        }
        match self.energy_trace.vstack(&data) {
            Ok(table) => {
                self.energy_trace = table;
                Ok(())
            },
            Err(error) => Err(error),
        }
    }

    /// Puts the records under the trace of utilization records. No record
    /// changes nothing. The call fails, and changes nothing, where the trace
    /// does not have the columns of utilization records.
    pub fn append_utilization_records(&mut self, records: Vec<UtilizationRecord>) -> (result: Result<
        (),
        MonitoringError,
    >)
        ensures
            old(self).same_setup(final(self)),
            final(self).energy_collector == old(self).energy_collector,
            final(self).is_running == old(self).is_running,
            final(self).data_receiver == old(self).data_receiver,
            final(self).energy_trace == old(self).energy_trace,
            if records@.len() == 0 {
                &&& result is Ok
                &&& final(self).utilization_trace == old(self).utilization_trace
            } else if is_utilization_trace(old(self).utilization_trace@) {
                &&& result is Ok
                &&& final(self).utilization_trace@ == stacked(
                    old(self).utilization_trace@,
                    utilization_table(records.deep_view()),
                )
            } else {
                &&& result matches Err(MonitoringError::Other(_))
                &&& final(self).utilization_trace == old(self).utilization_trace
            },
            is_utilization_trace(old(self).utilization_trace@) ==> is_utilization_trace(
                final(self).utilization_trace@,
            ),
    {
        if records.len() == 0 {
            return Ok(());
        }
        let data = utilization_records_table(&records);
        proof {
            lemma_utilization_table(records.deep_view());
        }
        match self.utilization_trace.vstack(&data) {
            Ok(table) => {
                self.utilization_trace = table;
                Ok(())
            },
            Err(error) => Err(error),
        }
    }

    /// Tells whether a collector of this orchestrator's type can work on the
    /// probed host.
    pub fn is_available(probe: &HostProbe) -> (available: bool)
        ensures
            available == T::available(probe),
    {
        T::is_available(probe)
    }

    /// Tells whether monitoring is running.
    pub fn is_running(&self) -> (running: bool)
        ensures
            running == self.is_running,
    {
        self.is_running
    }

    /// Takes the given records into the traces, energy records first.
    pub fn absorb(&mut self, energy: Vec<EnergyRecord>, utilization: Vec<UtilizationRecord>) -> (result:
        Result<(), MonitoringError>)
        ensures
            old(self).absorb_outcome(
                energy.deep_view(),
                utilization.deep_view(),
                final(self),
                result is Ok,
            ),
            old(self).same_setup(final(self)),
            final(self).energy_collector == old(self).energy_collector,
            final(self).is_running == old(self).is_running,
            final(self).data_receiver == old(self).data_receiver,
            result matches Err(error) ==> error is Other,
            energy@.len() == 0 ==> final(self).energy_trace == old(self).energy_trace,
            utilization@.len() == 0 ==> final(self).utilization_trace == old(self).utilization_trace,
            old(self).wf() ==> result is Ok && final(self).wf(),
    {
        if energy.len() > 0 {
            match self.append_energy_records(energy) {
                Ok(()) => {},
                Err(error) => {
                    return Err(error);
                },
            }
        }
        if utilization.len() > 0 {
            match self.append_utilization_records(utilization) {
                Ok(()) => {},
                Err(error) => {
                    return Err(error);
                },
            }
        }
        Ok(())
    }
}

/// The energy records of the batches laid end to end, batch after batch.
pub open spec fn joined_energy(
    batches: Seq<(Seq<EnergyRecordView>, Seq<UtilizationRecordView>)>,
) -> Seq<EnergyRecordView>
    decreases batches.len(),
{
    if batches.len() == 0 {
        Seq::empty()
    } else {
        joined_energy(batches.drop_last()) + batches.last().0
    }
}

/// The utilization records of the batches laid end to end, batch after batch.
pub open spec fn joined_utilization(
    batches: Seq<(Seq<EnergyRecordView>, Seq<UtilizationRecordView>)>,
) -> Seq<UtilizationRecordView>
    decreases batches.len(),
{
    if batches.len() == 0 {
        Seq::empty()
    } else {
        joined_utilization(batches.drop_last()) + batches.last().1
    }
}

/// Lays the records of the batches end to end, in the order of the batches,
/// each record once.
pub fn join_batches(batches: Vec<(Vec<EnergyRecord>, Vec<UtilizationRecord>)>) -> (records: (
    Vec<EnergyRecord>,
    Vec<UtilizationRecord>,
))
    ensures
        records.0.deep_view() == joined_energy(batches.deep_view()),
        records.1.deep_view() == joined_utilization(batches.deep_view()),
{
    let ghost given = batches.deep_view();
    let mut batches = batches;
    let mut all_energy: Vec<EnergyRecord> = Vec::new();
    let mut all_utilization: Vec<UtilizationRecord> = Vec::new();
    let n = batches.len();
    let mut i: usize = 0;
    assert(all_energy.deep_view() =~= Seq::empty());
    assert(all_utilization.deep_view() =~= Seq::empty());
    while i < n
        invariant
            i <= n == batches.len() == given.len(),
            forall|k: int| i <= k < n ==> (#[trigger] batches@[k]).deep_view() == given[k],
            all_energy.deep_view() == joined_energy(given.subrange(0, i as int)),
            all_utilization.deep_view() == joined_utilization(given.subrange(0, i as int)),
        decreases n - i,
    {
        let ghost energy_before = all_energy.deep_view();
        let ghost utilization_before = all_utilization.deep_view();
        let ghost batch = batches@[i as int];
        assert(batch.deep_view() == given[i as int]);
        let slot = &mut batches[i];
        all_energy.append(&mut slot.0);
        all_utilization.append(&mut slot.1);
        assert(all_energy.deep_view() =~= energy_before + batch.0.deep_view());
        assert(all_utilization.deep_view() =~= utilization_before + batch.1.deep_view());
        assert(given.subrange(0, i + 1).drop_last() =~= given.subrange(0, i as int));
        assert(given.subrange(0, i + 1).last() == given[i as int]);
        i += 1;
    }
    assert(given.subrange(0, n as int) =~= given);
    (all_energy, all_utilization)
}

/// Takes every batch that is waiting on the channel, in the order of arrival.
/// The call does not wait; it ends at the first moment the channel has
/// nothing to give.
fn drain(receiver: &mut Receiver<(Vec<EnergyRecord>, Vec<UtilizationRecord>)>) -> (batches: Vec<
    (Vec<EnergyRecord>, Vec<UtilizationRecord>),
>) {
    let mut batches: Vec<(Vec<EnergyRecord>, Vec<UtilizationRecord>)> = Vec::new();
    let mut budget: u64 = u64::MAX;
    while budget > 0
        decreases budget,
    {
        match try_receive(receiver) {
            Some(batch) => {
                batches.push(batch);
            },
            None => {
                break ;
            },
        }
        budget -= 1;
    }
    batches
}

impl<T: EnergyCollector> EnergyGroup<T> {
    /// An orchestrator with a collector of its type as that type makes it by
    /// default, and with batches of one tick.
    pub fn new(rate: u64, pids: Option<Vec<usize>>, processes: &Vec<ProcessInfo>) -> (result: Result<
        Self,
        MonitoringError,
    >) where T: Default
        ensures
            match collected(
                match pids {
                    Some(selected) => Some(selected@),
                    None => None,
                },
                processes@,
            ) {
                Ok(groups) => {
                    &&& result matches Ok(group)
                    &&& group.tracked_processes@ == process_table(group_rows(groups))
                    &&& group.energy_trace@ == energy_table(Seq::empty())
                    &&& group.utilization_trace@ == utilization_table(Seq::empty())
                    &&& T::default.ensures((), group.energy_collector)
                    &&& group.rate == rate
                    &&& group.batch_size == 1
                    &&& !group.is_running
                    &&& group.task_handle is None
                    &&& group.data_receiver is None
                    &&& group.wf()
                },
                Err(reason) => result matches Err(MonitoringError::ProcessDiscoveryError(text))
                    && text@ == reason,
            },
    {
        Self::create_with_collector(T::default(), rate, pids, None, processes)
    }

    /// Remembers the sampling task, so that shutting down can cancel it.
    pub fn attach_task(&mut self, handle: JoinHandle<()>)
        ensures
            final(self).task_handle == Some(handle),
            final(self).rate == old(self).rate,
            final(self).batch_size == old(self).batch_size,
            final(self).tracked_processes == old(self).tracked_processes,
            final(self).energy_trace == old(self).energy_trace,
            final(self).utilization_trace == old(self).utilization_trace,
            final(self).energy_collector == old(self).energy_collector,
            final(self).is_running == old(self).is_running,
            final(self).data_receiver == old(self).data_receiver,
    {
        self.task_handle = Some(handle);
    }

    /// The second half of starting: takes what the first collection gave into
    /// the traces, opens the channel for the sampling task and marks
    /// monitoring as running.
    ///
    /// A failed collection fails the start, with the collector's reason in
    /// the description, and changes nothing. Else the records are taken in,
    /// energy records first; where that succeeds the channel is opened, its
    /// sending end returned, and monitoring runs from here on. A start that
    /// fails leaves the running state as it was.
    pub fn start_with(
        &mut self,
        energy: Result<Vec<EnergyRecord>, String>,
        utilization: Result<Vec<UtilizationRecord>, String>,
    ) -> (result: Result<Sender<(Vec<EnergyRecord>, Vec<UtilizationRecord>)>, MonitoringError>)
        ensures
            old(self).same_setup(final(self)),
            final(self).energy_collector == old(self).energy_collector,
            final(self).is_running == (old(self).is_running || result is Ok),
            result matches Err(error) ==> error is Other,
            match (energy, utilization) {
                (Err(reason), _) => {
                    &&& result matches Err(MonitoringError::Other(text)) && text@
                        == "Failed to get energy trace: "@ + reason@
                    &&& final(self).energy_trace == old(self).energy_trace
                    &&& final(self).utilization_trace == old(self).utilization_trace
                    &&& final(self).data_receiver == old(self).data_receiver
                },
                (Ok(_), Err(reason)) => {
                    &&& result matches Err(MonitoringError::Other(text)) && text@
                        == "Failed to get utilization trace: "@ + reason@
                    &&& final(self).energy_trace == old(self).energy_trace
                    &&& final(self).utilization_trace == old(self).utilization_trace
                    &&& final(self).data_receiver == old(self).data_receiver
                },
                (Ok(energy_records), Ok(utilization_records)) => {
                    &&& old(self).absorb_outcome(
                        energy_records.deep_view(),
                        utilization_records.deep_view(),
                        final(self),
                        result is Ok,
                    )
                    &&& result is Ok ==> final(self).data_receiver is Some
                    &&& result is Err ==> final(self).data_receiver == old(self).data_receiver
                    &&& old(self).wf() ==> result is Ok && final(self).wf()
                },
            },
    {
        let energy_records = match energy {
            Ok(records) => records,
            Err(reason) => {
                let mut text = String::from_str("Failed to get energy trace: ");
                text.append(reason.as_str());
                return Err(MonitoringError::Other(text));
            },
        };
        let utilization_records = match utilization {
            Ok(records) => records,
            Err(reason) => {
                let mut text = String::from_str("Failed to get utilization trace: ");
                text.append(reason.as_str());
                return Err(MonitoringError::Other(text));
            },
        };
        match self.absorb(energy_records, utilization_records) {
            Ok(()) => {},
            Err(error) => {
                return Err(error);
            },
        }
        let (sender, receiver) = open_channel(CHANNEL_CAPACITY);
        self.data_receiver = Some(receiver);
        self.is_running = true;
        Ok(sender)
    }

    /// Starts monitoring with the readings `sample` as the first sample.
    ///
    /// While monitoring runs the call changes nothing and says so. On a host
    /// where the collector cannot work the call fails and changes nothing.
    /// Else the collector takes one sample, energy first, and the start goes
    /// on as `start_with` says. Monitoring runs after the call exactly where
    /// the call succeeds: a start that fails leaves the orchestrator idle,
    /// with the channel as it was, and with traces that have their columns
    /// it leaves both traces as they were. With a collector that never fails
    /// and traces that have their columns the start succeeds.
    pub fn commence(&mut self, probe: &HostProbe, sample: &TickSample) -> (result: Result<
        Commenced,
        MonitoringError,
    >)
        ensures
            old(self).is_running ==> (result matches Ok(Commenced::AlreadyRunning)) && *final(self)
                == *old(self),
            !old(self).is_running && !T::available(probe) ==> (
            result matches Err(MonitoringError::Other(text)) && text@
                == "Collector type is not available on this system"@) && *final(self) == *old(self),
            !old(self).is_running && T::available(probe) ==> {
                &&& final(self).is_running == (result is Ok)
                &&& old(self).same_setup(final(self))
                &&& old(self).energy_collector.energy_step(sample, &final(self).energy_collector)
                &&& result matches Ok(started) ==> {
                    &&& started is Started
                    &&& final(self).data_receiver is Some
                    &&& final(self).energy_trace@ == with_energy(
                        old(self).energy_trace@,
                        old(self).energy_collector.energy_records(sample),
                    )
                    &&& final(self).utilization_trace@ == with_utilization(
                        old(self).utilization_trace@,
                        final(self).energy_collector.utilization_records(sample),
                    )
                }
                &&& result matches Err(error) ==> {
                    &&& error is Other
                    &&& final(self).data_receiver == old(self).data_receiver
                    &&& final(self).utilization_trace == old(self).utilization_trace
                    &&& old(self).wf() ==> final(self).energy_trace == old(self).energy_trace
                }
                &&& old(self).wf() ==> final(self).wf()
                &&& T::never_fails() && old(self).wf() ==> result is Ok
            },
    {
        if self.is_running {
            return Ok(Commenced::AlreadyRunning);
        }
        if !T::is_available(probe) {
            return Err(MonitoringError::other("Collector type is not available on this system"));
        }
        let energy = self.energy_collector.get_energy_trace(sample);
        let utilization = self.energy_collector.get_utilization_trace(sample);
        match self.start_with(energy, utilization) {
            Ok(sender) => Ok(Commenced::Started(sender)),
            Err(error) => Err(error),
        }
    }

    /// Takes the given batches into the traces: their records laid end to
    /// end, in the order of the batches, energy records first. No batch, or
    /// batches without records, change nothing.
    pub fn take_in(&mut self, batches: Vec<(Vec<EnergyRecord>, Vec<UtilizationRecord>)>) -> (result:
        Result<(), MonitoringError>)
        ensures
            old(self).intake_outcome(batches.deep_view(), final(self), result is Ok),
            old(self).same_setup(final(self)),
            final(self).energy_collector == old(self).energy_collector,
            final(self).is_running == old(self).is_running,
            final(self).data_receiver == old(self).data_receiver,
            result matches Err(error) ==> error is Other,
            batches@.len() == 0 ==> final(self).energy_trace == old(self).energy_trace
                && final(self).utilization_trace == old(self).utilization_trace,
            old(self).wf() ==> result is Ok && final(self).wf(),
    {
        let (energy, utilization) = join_batches(batches);
        self.absorb(energy, utilization)
    }

    /// Takes in every batch that the sampling task has delivered so far, in
    /// the order of delivery. The call does not wait. Without a channel
    /// there is nothing to take in.
    pub fn poll_data(&mut self) -> (result: Result<(), MonitoringError>)
        ensures
            old(self).same_setup(final(self)),
            final(self).energy_collector == old(self).energy_collector,
            final(self).is_running == old(self).is_running,
            final(self).data_receiver is Some == old(self).data_receiver is Some,
            exists|batches: Seq<(Seq<EnergyRecordView>, Seq<UtilizationRecordView>)>| #[trigger]
                old(self).intake_outcome(batches, final(self), result is Ok),
            old(self).data_receiver is None ==> result is Ok && *final(self) == *old(self),
            result matches Err(error) ==> error is Other,
            old(self).wf() ==> result is Ok && final(self).wf(),
    {
        match &mut self.data_receiver {
            Some(receiver) => {
                let batches = drain(receiver);
                let ghost taken = batches.deep_view();
                let result = self.take_in(batches);
                assert(old(self).intake_outcome(taken, self, result is Ok));
                result
            },
            None => {
                assert(old(self).intake_outcome(Seq::empty(), self, true));
                Ok(())
            },
        }
    }

    /// Stops monitoring: takes in what was delivered, in the order of
    /// delivery, cancels the sampling task and closes the channel. Monitoring
    /// counts as stopped even where taking in fails; the task and the channel
    /// are then left as they are. An orchestrator that is not running and has
    /// neither task nor channel stays as it is.
    pub fn shutdown(&mut self) -> (result: Result<(), MonitoringError>)
        ensures
            !final(self).is_running,
            final(self).rate == old(self).rate,
            final(self).batch_size == old(self).batch_size,
            final(self).tracked_processes == old(self).tracked_processes,
            final(self).energy_collector == old(self).energy_collector,
            exists|batches: Seq<(Seq<EnergyRecordView>, Seq<UtilizationRecordView>)>| #[trigger]
                old(self).intake_outcome(batches, final(self), result is Ok),
            old(self).data_receiver is None ==> result is Ok
                && final(self).energy_trace == old(self).energy_trace
                && final(self).utilization_trace == old(self).utilization_trace,
            !old(self).is_running && old(self).data_receiver is None && old(
                self,
            ).task_handle is None ==> *final(self) == *old(self),
            result is Ok ==> final(self).task_handle is None && final(self).data_receiver is None,
            result matches Err(error) ==> error is Other && final(self).task_handle == old(
                self,
            ).task_handle && final(self).data_receiver is Some,
            old(self).wf() ==> result is Ok && final(self).wf(),
    {
        self.is_running = false;
        let ghost stopped = *self;
        match self.poll_data() {
            Ok(()) => {},
            Err(error) => {
                proof {
                    let batches = choose|
                        batches: Seq<(Seq<EnergyRecordView>, Seq<UtilizationRecordView>)>,
                    | #[trigger] stopped.intake_outcome(batches, self, false);
                    assert(old(self).intake_outcome(batches, self, false));
                }
                return Err(error);
            },
        }
        let ghost taken = choose|
            batches: Seq<(Seq<EnergyRecordView>, Seq<UtilizationRecordView>)>,
        | #[trigger] stopped.intake_outcome(batches, self, true);
        let handle = self.task_handle.take();
        match handle {
            Some(task) => {
                abort_task(&task);
            },
            None => {},
        }
        self.data_receiver = None;
        assert(old(self).intake_outcome(taken, self, true));
        Ok(())
    }
}

/// What the sampling task does after it has taken one sample.
pub enum LoopStep {
    /// Wait for the next tick.
    Sleep,
    /// Send this batch to the foreground, then wait for the next tick.
    Send(Vec<EnergyRecord>, Vec<UtilizationRecord>),
}

/// The state of the sampling task: where it stands within a batch, and the
/// records that it has gathered and not yet handed over.
pub struct MonitoringLoop {
    /// The number of ticks in one batch.
    pub batch_size: usize,
    /// The number of ticks taken since the last full batch.
    pub phase: usize,
    /// The number of ticks taken in all; it stops counting at `u64::MAX`.
    pub iterations: u64,
    /// The energy records gathered since the last batch was handed over.
    pub batch_energy: Vec<EnergyRecord>,
    /// The utilization records gathered since the last batch was handed over.
    pub batch_utilization: Vec<UtilizationRecord>,
}

/// The number of milliseconds from which on a send counts as held back by a
/// slow receiver.
pub const SLOW_SEND_MILLIS: u64 = 100;

impl MonitoringLoop {
    /// Whether the position within the batch is one.
    pub open spec fn wf(&self) -> bool {
        0 <= self.phase < self.batch_size
    }

    /// Tells whether a send that took `waited_millis` milliseconds was held
    /// back by a slow receiver: whether it took longer than the threshold.
    pub fn send_was_slow(waited_millis: u64) -> (slow: bool)
        ensures
            slow == (waited_millis > SLOW_SEND_MILLIS),
    {
        waited_millis > SLOW_SEND_MILLIS
    }

    /// The time between two ticks in microseconds, at a rate given in
    /// thousandths of a hertz.
    pub fn interval_micros(rate: u64) -> (micros: u64)
        requires
            rate > 0,
        ensures
            micros == 1_000_000_000int / (rate as int),
    {
        1_000_000_000 / rate
    }

    /// A sampling task at its start, with batches of `batch_size` ticks.
    pub fn new(batch_size: usize) -> (state: Self)
        requires
            batch_size > 0,
        ensures
            state.wf(),
            state.batch_size == batch_size,
            state.phase == 0,
            state.iterations == 0,
            state.batch_energy@.len() == 0,
            state.batch_utilization@.len() == 0,
    {
        MonitoringLoop {
            batch_size,
            phase: 0,
            iterations: 0,
            batch_energy: Vec::new(),
            batch_utilization: Vec::new(),
        }
    }

    /// Takes what one tick collected and decides what to do next.
    ///
    /// Every tick counts, also one whose collection failed. The records of
    /// a tick that collected both kinds are added to the batch; those of a
    /// failed tick are dropped. Where such a tick is the last of its batch,
    /// the whole batch is handed out for sending and a new one begun.
    pub fn record(
        &mut self,
        energy: Result<Vec<EnergyRecord>, String>,
        utilization: Result<Vec<UtilizationRecord>, String>,
    ) -> (step: LoopStep)
        requires
            old(self).wf(),
        ensures
            final(self).wf(),
            final(self).batch_size == old(self).batch_size,
            final(self).phase == (old(self).phase + 1) % (old(self).batch_size as int),
            final(self).iterations == if old(self).iterations == u64::MAX {
                u64::MAX as int
            } else {
                old(self).iterations + 1
            },
            match (energy, utilization) {
                (Ok(energy_records), Ok(utilization_records)) => {
                    let all_energy = old(self).batch_energy.deep_view()
                        + energy_records.deep_view();
                    let all_utilization = old(self).batch_utilization.deep_view()
                        + utilization_records.deep_view();
                    if final(self).phase == 0 {
                        &&& step matches LoopStep::Send(sent_energy, sent_utilization)
                            && sent_energy.deep_view() == all_energy
                            && sent_utilization.deep_view() == all_utilization
                        &&& final(self).batch_energy@.len() == 0
                        &&& final(self).batch_utilization@.len() == 0
                    } else {
                        &&& step is Sleep
                        &&& final(self).batch_energy.deep_view() == all_energy
                        &&& final(self).batch_utilization.deep_view() == all_utilization
                    }
                },
                _ => {
                    &&& step is Sleep
                    &&& final(self).batch_energy == old(self).batch_energy
                    &&& final(self).batch_utilization == old(self).batch_utilization
                },
            },
    {
        if self.iterations < u64::MAX {
            self.iterations = self.iterations + 1;
        }
        if self.phase + 1 == self.batch_size {
            assert((self.phase + 1) % (self.batch_size as int) == 0) by {
                vstd::arithmetic::div_mod::lemma_mod_self_0(self.batch_size as int);
            }
            self.phase = 0;
        } else {
            assert((self.phase + 1) % (self.batch_size as int) == self.phase + 1) by {
                vstd::arithmetic::div_mod::lemma_small_mod(
                    (self.phase + 1) as nat,
                    self.batch_size as nat,
                );
            }
            self.phase = self.phase + 1;
        }
        match (energy, utilization) {
            (Ok(mut energy_records), Ok(mut utilization_records)) => {
                let ghost all_energy = self.batch_energy.deep_view() + energy_records.deep_view();
                let ghost all_utilization = self.batch_utilization.deep_view()
                    + utilization_records.deep_view();
                self.batch_energy.append(&mut energy_records);
                self.batch_utilization.append(&mut utilization_records);
                assert(self.batch_energy.deep_view() =~= all_energy);
                assert(self.batch_utilization.deep_view() =~= all_utilization);
                if self.phase == 0 {
                    let mut sent_energy: Vec<EnergyRecord> = Vec::new();
                    let mut sent_utilization: Vec<UtilizationRecord> = Vec::new();
                    sent_energy.append(&mut self.batch_energy);
                    sent_utilization.append(&mut self.batch_utilization);
                    assert(sent_energy.deep_view() =~= all_energy);
                    assert(sent_utilization.deep_view() =~= all_utilization);
                    LoopStep::Send(sent_energy, sent_utilization)
                } else {
                    LoopStep::Sleep
                }
            },
            _ => LoopStep::Sleep,
        }
    }

    /// Takes back a batch that could not be sent, in front of what has been
    /// gathered since. The sampling task ends after this.
    pub fn restore(&mut self, energy: Vec<EnergyRecord>, utilization: Vec<UtilizationRecord>)
        ensures
            final(self).batch_size == old(self).batch_size,
            final(self).phase == old(self).phase,
            final(self).iterations == old(self).iterations,
            final(self).batch_energy.deep_view() == energy.deep_view() + old(self).batch_energy.deep_view(),
            final(self).batch_utilization.deep_view() == utilization.deep_view()
                + old(self).batch_utilization.deep_view(),
    {
        let mut all_energy = energy;
        let mut all_utilization = utilization;
        all_energy.append(&mut self.batch_energy);
        all_utilization.append(&mut self.batch_utilization);
        assert(all_energy.deep_view() =~= energy.deep_view() + old(self).batch_energy.deep_view());
        assert(all_utilization.deep_view() =~= utilization.deep_view()
            + old(self).batch_utilization.deep_view());
        self.batch_energy = all_energy;
        self.batch_utilization = all_utilization;
    }

    /// What is left to send when the sampling task ends: the records gathered
    /// since the last batch, if there are any.
    pub fn finish(self) -> (rest: Option<(Vec<EnergyRecord>, Vec<UtilizationRecord>)>)
        ensures
            match rest {
                Some(batch) => batch.0 == self.batch_energy && batch.1 == self.batch_utilization
                    && (self.batch_energy@.len() > 0 || self.batch_utilization@.len() > 0),
                None => self.batch_energy@.len() == 0 && self.batch_utilization@.len() == 0,
            },
    {
        if self.batch_energy.len() > 0 || self.batch_utilization.len() > 0 {
            Some((self.batch_energy, self.batch_utilization))
        } else {
            None
        }
    }
}

} // verus!
