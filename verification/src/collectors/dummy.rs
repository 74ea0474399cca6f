//! A collector that is always available and measures nothing.

use crate::energy_group::{
    EnergyCollector, EnergyRecord, EnergyRecordView, HostProbe, UtilizationRecord,
    UtilizationRecordView,
};
use crate::errors::MonitoringError;
use crate::sample::TickSample;
use vstd::prelude::*;

verus! {

/// A collector for trying the orchestrator out: it is available on every
/// host and reports no record.
#[derive(Clone, Copy, Debug, PartialEq, Eq, Structural)]
pub struct DummyEnergyGroup {}

impl DummyEnergyGroup {
    /// The collector. Making it never fails.
    pub fn new() -> (result: Result<Self, MonitoringError>)
        ensures
            result is Ok,
    {
        Ok(DummyEnergyGroup {  })
    }
}

impl Default for DummyEnergyGroup {
    fn default() -> (group: Self) {
        DummyEnergyGroup {  }
    }
}

impl EnergyCollector for DummyEnergyGroup {
    open spec fn tracked_pids(&self) -> Seq<u32> {
        Seq::empty()
    }

    open spec fn energy_records(&self, sample: &TickSample) -> Seq<EnergyRecordView> {
        Seq::empty()
    }

    open spec fn utilization_records(&self, sample: &TickSample) -> Seq<UtilizationRecordView> {
        Seq::empty()
    }

    open spec fn energy_step(&self, sample: &TickSample, next: &Self) -> bool {
        *next == *self
    }

    open spec fn never_fails() -> bool {
        true
    }

    open spec fn wanted_files(&self) -> Seq<Seq<char>> {
        Seq::empty()
    }

    open spec fn available(probe: &HostProbe) -> bool {
        true
    }

    fn set_tracked_pids(&mut self, pids: Vec<u32>)
        ensures
            *final(self) == *old(self),
    {
    }

    fn get_energy_trace(&mut self, sample: &TickSample) -> (result: Result<
        Vec<EnergyRecord>,
        String,
    >)
        ensures
            result matches Ok(records) && records@.len() == 0,
            *final(self) == *old(self),
    {
        let records: Vec<EnergyRecord> = Vec::new();
        assert(records.deep_view() =~= Seq::empty());
        Ok(records)
    }

    fn get_utilization_trace(&self, sample: &TickSample) -> (result: Result<
        Vec<UtilizationRecord>,
        String,
    >)
        ensures
            result matches Ok(records) && records@.len() == 0,
    {
        let records: Vec<UtilizationRecord> = Vec::new();
        assert(records.deep_view() =~= Seq::empty());
        Ok(records)
    }

    fn is_available(probe: &HostProbe) -> (available: bool) {
        true
    }

    fn counter_files(&self) -> (files: Vec<String>) {
        let files: Vec<String> = Vec::new();
        assert(files.deep_view() =~= Seq::empty());
        files
    }
}

} // verus!
