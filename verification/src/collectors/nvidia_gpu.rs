//! The collector for graphics processors. It knows its devices and reports
//! no record yet.

use crate::energy_group::{
    EnergyCollector, EnergyRecord, EnergyRecordView, HostProbe, UtilizationRecord,
    UtilizationRecordView,
};
use crate::sample::TickSample;
use vstd::prelude::*;

verus! {

/// A collector for the graphics processors with the given device numbers.
#[derive(Debug)]
pub struct NvidiaGpu {
    /// The numbers of the devices to watch.
    pub device_ids: Vec<u32>,
}

impl NvidiaGpu {
    /// A collector for the given devices.
    pub fn new(device_ids: Vec<u32>) -> (gpu: Self)
        ensures
            gpu.device_ids == device_ids,
    {
        NvidiaGpu { device_ids }
    }
}

impl Default for NvidiaGpu {
    /// A collector for device 0.
    fn default() -> (gpu: Self)
        ensures
            gpu.device_ids@ == seq![0u32],
    {
        let mut device_ids: Vec<u32> = Vec::new();
        device_ids.push(0);
        assert(device_ids@ =~= seq![0u32]);
        NvidiaGpu { device_ids }
    }
}

impl EnergyCollector for NvidiaGpu {
    open spec fn tracked_pids(&self) -> Seq<u32> {
        Seq::empty()
    }

    open spec fn energy_records(&self, sample: &TickSample) -> Seq<EnergyRecordView> {
        Seq::empty()
    }

    open spec fn utilization_records(&self, sample: &TickSample) -> Seq<UtilizationRecordView> {
        Seq::empty()
    }

    open spec fn energy_step(&self, sample: &TickSample, next: &Self) -> bool {
        *next == *self
    }

    open spec fn never_fails() -> bool {
        true
    }

    open spec fn wanted_files(&self) -> Seq<Seq<char>> {
        Seq::empty()
    }

    open spec fn available(probe: &HostProbe) -> bool {
        probe.nvidia_smi
    }

    /// This collector does not attribute by process: the call changes nothing.
    fn set_tracked_pids(&mut self, pids: Vec<u32>)
        ensures
            *final(self) == *old(self),
    {
    }

    fn get_energy_trace(&mut self, sample: &TickSample) -> (result: Result<
        Vec<EnergyRecord>,
        String,
    >)
        ensures
            result matches Ok(records) && records@.len() == 0,
            *final(self) == *old(self),
    {
        let records: Vec<EnergyRecord> = Vec::new();
        assert(records.deep_view() =~= Seq::empty());
        Ok(records)
    }

    fn get_utilization_trace(&self, sample: &TickSample) -> (result: Result<
        Vec<UtilizationRecord>,
        String,
    >)
        ensures
            result matches Ok(records) && records@.len() == 0,
    {
        let records: Vec<UtilizationRecord> = Vec::new();
        assert(records.deep_view() =~= Seq::empty());
        Ok(records)
    }

    fn is_available(probe: &HostProbe) -> (available: bool) {
        probe.nvidia_smi
    }

    fn counter_files(&self) -> (files: Vec<String>) {
        let files: Vec<String> = Vec::new();
        assert(files.deep_view() =~= Seq::empty());
        files
    }
}

} // verus!
