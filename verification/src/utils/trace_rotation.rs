//! A trace buffer that keeps a limited history.
//!
//! Rows are appended in batches. Cleaning up removes every row whose
//! timestamp is not younger than the retention window; appending cleans up
//! by itself, at most once per throttle interval.

use crate::clock::current_timestamp_secs;
use crate::errors::MonitoringError;
use crate::table::{
    filtered, find_column, height_of, keep, lemma_find_column, lemma_keep_members, same_schema,
    stacked, table_wf, ColumnData, ColumnValues, ColumnView, Table,
};
use vstd::prelude::*;

verus! {

/// How a rotating trace treats its rows.
#[derive(Clone, Copy, Debug, PartialEq, Eq, Structural)]
pub struct RotationConfig {
    /// The retention window in seconds.
    pub retention_seconds: i64,
    /// Whether appending cleans up by itself.
    pub auto_cleanup: bool,
}

impl Default for RotationConfig {
    /// One hour of retention, with cleaning up on append.
    fn default() -> (config: Self)
        ensures
            config.retention_seconds == 3600,
            config.auto_cleanup,
    {
        RotationConfig { retention_seconds: 3600, auto_cleanup: true }
    }
}

impl RotationConfig {
    /// A configuration with the given retention window, with cleaning up on append.
    pub fn new(retention_seconds: i64) -> (config: Self)
        ensures
            config.retention_seconds == retention_seconds,
            config.auto_cleanup,
    {
        RotationConfig { retention_seconds, auto_cleanup: true }
    }

    /// The same configuration with cleaning up on append switched on or off.
    pub fn with_auto_cleanup(self, auto_cleanup: bool) -> (config: Self)
        ensures
            config.retention_seconds == self.retention_seconds,
            config.auto_cleanup == auto_cleanup,
    {
        RotationConfig { retention_seconds: self.retention_seconds, auto_cleanup }
    }
}

/// A trace buffer that keeps a limited history.
#[derive(Debug)]
pub struct RotatingTrace {
    /// The rows of the trace.
    pub data: Table,
    /// How the trace treats its rows.
    pub config: RotationConfig,
    /// When the trace was last cleaned up, in seconds since the Unix epoch.
    pub last_cleanup_time: i64,
    /// The least number of seconds between two cleanups on append.
    pub cleanup_interval_seconds: i64,
}

/// What is known about a trace at one moment.
#[derive(Clone, Copy, Debug, PartialEq, Eq, Structural)]
pub struct TraceStats {
    /// The number of rows.
    pub row_count: usize,
    /// The smallest timestamp among the rows.
    pub oldest_timestamp: Option<i64>,
    /// The largest timestamp among the rows.
    pub newest_timestamp: Option<i64>,
    /// The retention window in seconds.
    pub retention_seconds: i64,
}

/// The timestamps of a table: the values of its column `timestamp`, where it
/// has one and the column holds signed 64-bit integers.
pub open spec fn stamps_of(table: Seq<ColumnView>) -> Option<Seq<i64>> {
    match find_column(table, "timestamp"@) {
        Some(i) => match table[i].values {
            ColumnValues::Int64(stamps) => Some(stamps),
            _ => None,
        },
        None => None,
    }
}

/// One flag per timestamp: whether it is later than `cutoff`.
pub open spec fn retention_mask(stamps: Seq<i64>, cutoff: int) -> Seq<bool> {
    Seq::new(stamps.len(), |i: int| stamps[i] > cutoff)
}

/// The table after a cleanup at the time `now` with the retention window
/// `retention`: its rows with a timestamp later than `now - retention`. A table
/// without rows or without a column `timestamp` stays as it is. `None` where
/// the column `timestamp` does not hold signed 64-bit integers.
pub open spec fn cleaned(table: Seq<ColumnView>, now: i64, retention: i64) -> Option<
    Seq<ColumnView>,
> {
    if height_of(table) == 0 {
        Some(table)
    } else {
        match find_column(table, "timestamp"@) {
            None => Some(table),
            Some(i) => match table[i].values {
                ColumnValues::Int64(stamps) => Some(
                    filtered(table, retention_mask(stamps, now - retention)),
                ),
                _ => None,
            },
        }
    }
}

/// Whether every timestamp of the table is younger than the retention window
/// at the time `now`.
pub open spec fn rows_recent(table: Seq<ColumnView>, now: i64, retention: i64) -> bool {
    match stamps_of(table) {
        Some(stamps) => forall|j: int| 0 <= j < stamps.len() ==> now - #[trigger] stamps[j] < retention,
        None => true,
    }
}

/// The table with the rows of `batch` under it. A table without rows is
/// replaced by the batch. `None` where both have rows and differ in their columns.
pub open spec fn appended(table: Seq<ColumnView>, batch: Seq<ColumnView>) -> Option<
    Seq<ColumnView>,
> {
    if height_of(table) == 0 {
        Some(batch)
    } else if same_schema(table, batch) {
        Some(stacked(table, batch))
    } else {
        None
    }
}

/// Whether `m` is the smallest of `stamps`.
pub open spec fn is_oldest(stamps: Seq<i64>, m: i64) -> bool {
    &&& exists|i: int| 0 <= i < stamps.len() && stamps[i] == m
    &&& forall|i: int| 0 <= i < stamps.len() ==> m <= #[trigger] stamps[i]
}

/// Whether `m` is the largest of `stamps`.
pub open spec fn is_newest(stamps: Seq<i64>, m: i64) -> bool {
    &&& exists|i: int| 0 <= i < stamps.len() && stamps[i] == m
    &&& forall|i: int| 0 <= i < stamps.len() ==> m >= #[trigger] stamps[i]
}

/// Filtering a table leaves each column where it was.
pub proof fn lemma_find_column_filtered(table: Seq<ColumnView>, mask: Seq<bool>, name: Seq<char>)
    ensures
        find_column(filtered(table, mask), name) == find_column(table, name),
    decreases table.len(),
{
    if table.len() > 0 {
        assert(filtered(table, mask).drop_last() =~= filtered(table.drop_last(), mask));
        lemma_find_column_filtered(table.drop_last(), mask, name);
    }
}

/// After a cleanup every row that is left is younger than the retention
/// window: the time of the cleanup minus its timestamp is less than the window.
pub proof fn lemma_cleaned_rows_recent(table: Seq<ColumnView>, now: i64, retention: i64)
    requires
        table_wf(table),
    ensures
        cleaned(table, now, retention) matches Some(rest) ==> rows_recent(rest, now, retention),
{
    lemma_find_column(table, "timestamp"@);
    if height_of(table) == 0 {
        match stamps_of(table) {
            Some(stamps) => {
                assert(stamps.len() == 0);
            },
            None => {},
        }
    } else {
        match find_column(table, "timestamp"@) {
            None => {},
            Some(i) => match table[i].values {
                ColumnValues::Int64(stamps) => {
                    let mask = retention_mask(stamps, now - retention);
                    let rest = filtered(table, mask);
                    lemma_find_column_filtered(table, mask, "timestamp"@);
                    assert(stamps_of(rest) == Some(keep(stamps, mask)));
                    let kept = keep(stamps, mask);
                    assert forall|j: int| 0 <= j < kept.len() implies now - #[trigger] kept[j]
                        < retention by {
                        lemma_keep_members(stamps, mask, j);
                    }
                },
                _ => {},
            },
        }
    }
}

/// The smallest and the largest of `stamps`, which are not empty.
fn extremes(stamps: &Vec<i64>) -> (range: (i64, i64))
    requires
        stamps.len() > 0,
    ensures
        is_oldest(stamps@, range.0),
        is_newest(stamps@, range.1),
{
    let mut oldest = stamps[0];
    let mut newest = stamps[0];
    let ghost mut at_oldest: int = 0;
    let ghost mut at_newest: int = 0;
    let n = stamps.len();
    let mut i: usize = 1;
    while i < n
        invariant
            1 <= i <= n == stamps.len(),
            0 <= at_oldest < i,
            0 <= at_newest < i,
            stamps@[at_oldest] == oldest,
            stamps@[at_newest] == newest,
            forall|k: int| 0 <= k < i ==> oldest <= #[trigger] stamps@[k],
            forall|k: int| 0 <= k < i ==> newest >= #[trigger] stamps@[k],
        decreases n - i,
    {
        if stamps[i] < oldest {
            oldest = stamps[i];
            proof {
                at_oldest = i as int;
            }
        }
        if stamps[i] > newest {
            newest = stamps[i];
            proof {
                at_newest = i as int;
            }
        }
        i += 1;
    }
    (oldest, newest)
}

/// One flag per timestamp: whether it is later than `cutoff`.
fn mask_after(stamps: &Vec<i64>, cutoff: i128) -> (mask: Vec<bool>)
    ensures
        mask@ == retention_mask(stamps@, cutoff as int),
{
    let n = stamps.len();
    let mut mask: Vec<bool> = Vec::new();
    let mut i: usize = 0;
    while i < n
        invariant
            i <= n == stamps.len(),
            mask@.len() == i,
            forall|k: int| 0 <= k < i ==> mask@[k] == (stamps@[k] > cutoff),
        decreases n - i,
    {
        mask.push((stamps[i] as i128) > cutoff);
        i += 1;
    }
    assert(mask@ =~= retention_mask(stamps@, cutoff as int));
    mask
}

impl RotatingTrace {
    /// Whether the two traces agree in everything but their rows and the time
    /// of their last cleanup.
    pub open spec fn same_settings(&self, other: &RotatingTrace) -> bool {
        &&& self.config == other.config
        &&& self.cleanup_interval_seconds == other.cleanup_interval_seconds
    }

    /// Whether appending at the time `now` cleans up: cleaning up on append is
    /// switched on and the throttle interval has passed since the last cleanup.
    pub open spec fn cleanup_due(&self, now: i64) -> bool {
        self.config.auto_cleanup && now - self.last_cleanup_time >= self.cleanup_interval_seconds
    }

    /// Whether `after` is the trace that a cleanup at the time `now` makes of
    /// this one, with `ok` telling whether the cleanup succeeded.
    pub open spec fn cleanup_outcome(&self, now: i64, after: &RotatingTrace, ok: bool) -> bool {
        &&& self.same_settings(after)
        &&& match cleaned(self.data@, now, self.config.retention_seconds) {
            Some(rest) => ok && after.data@ == rest && after.last_cleanup_time == now,
            None => !ok && after.data@ == self.data@ && after.last_cleanup_time
                == self.last_cleanup_time,
        }
    }

    /// Whether `after` is the trace that appending `batch` at the time `now`
    /// makes of this one, with `ok` telling whether the call succeeded.
    ///
    /// A batch without a column `timestamp` changes nothing and fails,
    /// whether it has rows or not. A batch with the column and without rows
    /// changes nothing and succeeds. A batch with other columns than a trace
    /// that has rows changes nothing and fails. Else the rows are appended;
    /// where a cleanup is due it follows, and its failure is the failure of
    /// the call.
    pub open spec fn append_outcome(
        &self,
        batch: Seq<ColumnView>,
        now: i64,
        after: &RotatingTrace,
        ok: bool,
    ) -> bool {
        if find_column(batch, "timestamp"@) is None {
            !ok && *after == *self
        } else if height_of(batch) == 0 {
            ok && *after == *self
        } else {
            match appended(self.data@, batch) {
                None => !ok && *after == *self,
                Some(rows) => {
                    &&& self.same_settings(after)
                    &&& if self.cleanup_due(now) {
                        match cleaned(rows, now, self.config.retention_seconds) {
                            Some(rest) => ok && after.data@ == rest && after.last_cleanup_time
                                == now,
                            None => !ok && after.data@ == rows && after.last_cleanup_time
                                == self.last_cleanup_time,
                        }
                    } else {
                        ok && after.data@ == rows && after.last_cleanup_time
                            == self.last_cleanup_time
                    }
                },
            }
        }
    }

    /// An empty trace with the given retention window in seconds.
    pub fn new(retention_seconds: i64) -> (trace: Self)
        ensures
            trace.data@.len() == 0,
            trace.config == (RotationConfig { retention_seconds, auto_cleanup: true }),
            trace.last_cleanup_time >= 0,
            trace.cleanup_interval_seconds == 60,
    {
        Self::with_config(RotationConfig::new(retention_seconds))
    }

    /// An empty trace with the given configuration. It counts as cleaned up
    /// now, and cleans up on append at most every 60 seconds.
    pub fn with_config(config: RotationConfig) -> (trace: Self)
        ensures
            trace.data@.len() == 0,
            trace.config == config,
            trace.last_cleanup_time >= 0,
            trace.cleanup_interval_seconds == 60,
    {
        Self::with_config_at(config, current_timestamp_secs())
    }

    /// An empty trace with the given configuration that counts as cleaned up
    /// at the time `now`.
    pub fn with_config_at(config: RotationConfig, now: i64) -> (trace: Self)
        ensures
            trace.data@.len() == 0,
            trace.config == config,
            trace.last_cleanup_time == now,
            trace.cleanup_interval_seconds == 60,
    {
        RotatingTrace {
            data: Table::empty(),
            config,
            last_cleanup_time: now,
            cleanup_interval_seconds: 60,
        }
    }

    /// The rows of the trace.
    pub fn data(&self) -> (data: &Table)
        ensures
            *data == self.data,
    {
        &self.data
    }

    /// The rows of the trace, for changing them.
    pub fn data_mut(&mut self) -> (data: &mut Table)
        ensures
            *data == old(self).data,
            final(self).data == *final(data),
            final(self).config == old(self).config,
            final(self).last_cleanup_time == old(self).last_cleanup_time,
            final(self).cleanup_interval_seconds == old(self).cleanup_interval_seconds,
    {
        &mut self.data
    }

    /// The retention window in seconds.
    pub fn retention_seconds(&self) -> (seconds: i64)
        ensures
            seconds == self.config.retention_seconds,
    {
        self.config.retention_seconds
    }

    /// The number of rows.
    pub fn row_count(&self) -> (rows: usize)
        ensures
            rows == height_of(self.data@),
    {
        self.data.height()
    }

    /// Removes the rows that are not younger than the retention window at the
    /// time `now`: those whose timestamp is not later than `now` minus the
    /// window. A trace without rows or without a column `timestamp` stays as
    /// it is. The call fails, and changes nothing, where the column
    /// `timestamp` does not hold signed 64-bit integers.
    pub fn cleanup_at(&mut self, now: i64) -> (result: Result<(), MonitoringError>)
        ensures
            old(self).cleanup_outcome(now, final(self), result is Ok),
            result matches Err(error) ==> error is Other,
            result is Ok ==> rows_recent(final(self).data@, now, old(self).config.retention_seconds),
    {
        let rows = self.data.height();
        proof {
            lemma_cleaned_rows_recent(self.data@, now, self.config.retention_seconds);
        }
        if rows == 0 {
            self.last_cleanup_time = now;
            return Ok(());
        }
        let cutoff: i128 = (now as i128) - (self.config.retention_seconds as i128);
        let mask = match self.data.column("timestamp") {
            None => {
                self.last_cleanup_time = now;
                return Ok(());
            },
            Some(column) => match &column.data {
                ColumnData::Int64(stamps) => mask_after(stamps, cutoff),
                _ => {
                    return Err(MonitoringError::other("Timestamp column is not i64 type"));
                },
            },
        };
        match self.data.filter(&mask) {
            Ok(rest) => {
                self.data = rest;
                self.last_cleanup_time = now;
                Ok(())
            },
            Err(error) => Err(error),
        }
    }

    /// Removes the rows that are not younger than the retention window now.
    pub fn cleanup(&mut self) -> (result: Result<(), MonitoringError>)
        ensures
            exists|now: i64|
                now >= 0 && #[trigger] old(self).cleanup_outcome(now, final(self), result is Ok) && (
                result is Ok ==> rows_recent(
                    final(self).data@,
                    now,
                    old(self).config.retention_seconds,
                )),
            result matches Err(error) ==> error is Other,
    {
        let now = current_timestamp_secs();
        let result = self.cleanup_at(now);
        assert(now >= 0 && old(self).cleanup_outcome(now, self, result is Ok) && (result is Ok
            ==> rows_recent(self.data@, now, old(self).config.retention_seconds)));
        result
    }

    /// Cleans up now, whenever the last cleanup was.
    pub fn force_cleanup(&mut self) -> (result: Result<(), MonitoringError>)
        ensures
            exists|now: i64|
                now >= 0 && #[trigger] old(self).cleanup_outcome(now, final(self), result is Ok) && (
                result is Ok ==> rows_recent(
                    final(self).data@,
                    now,
                    old(self).config.retention_seconds,
                )),
            result matches Err(error) ==> error is Other,
    {
        self.cleanup()
    }

    /// Appends the rows of `batch` at the time `now`.
    ///
    /// The batch is checked first: one without a column `timestamp` is
    /// refused and changes nothing, whatever its height. A batch without rows
    /// then changes nothing. A batch whose columns differ from those of a
    /// trace that has rows is refused and changes nothing. After the rows are
    /// appended, and where cleaning up on append is switched on and the
    /// throttle interval has passed since the last cleanup, the trace is
    /// cleaned up.
    pub fn append_at(&mut self, batch: &Table, now: i64) -> (result: Result<(), MonitoringError>)
        ensures
            old(self).append_outcome(batch@, now, final(self), result is Ok),
            result matches Err(error) ==> error is Other,
            find_column(batch@, "timestamp"@) is None ==> (
            result matches Err(MonitoringError::Other(text)) && text@
                == "Table must contain a 'timestamp' column for rotation"@),
    {
        if !batch.has_column("timestamp") {
            return Err(
                MonitoringError::other("Table must contain a 'timestamp' column for rotation"),
            );
        }
        if batch.is_empty() {
            return Ok(());
        }
        if self.data.is_empty() {
            self.data = batch.copy();
        } else {
            match self.data.vstack(batch) {
                Ok(rows) => {
                    self.data = rows;
                },
                Err(_) => {
                    return Err(
                        MonitoringError::other(
                            "Failed to append trace data: the tables differ in their columns",
                        ),
                    );
                },
            }
        }
        if self.config.auto_cleanup {
            if (now as i128) - (self.last_cleanup_time as i128) >= (
            self.cleanup_interval_seconds as i128) {
                return self.cleanup_at(now);
            }
        }
        Ok(())
    }

    /// Appends the rows of `batch` now.
    pub fn append(&mut self, batch: &Table) -> (result: Result<(), MonitoringError>)
        ensures
            exists|now: i64|
                now >= 0 && #[trigger] old(self).append_outcome(
                    batch@,
                    now,
                    final(self),
                    result is Ok,
                ),
            result matches Err(error) ==> error is Other,
            find_column(batch@, "timestamp"@) is None ==> result is Err && *final(self) == *old(
                self,
            ),
            find_column(batch@, "timestamp"@) is Some && height_of(batch@) == 0 ==> result is Ok
                && *final(self) == *old(self),
    {
        let now = current_timestamp_secs();
        let result = self.append_at(batch, now);
        assert(now >= 0 && old(self).append_outcome(batch@, now, self, result is Ok));
        result
    }

    /// The number of rows, the smallest and the largest timestamp, and the
    /// retention window. There is no timestamp to report for a trace without
    /// rows or without a column `timestamp` of signed 64-bit integers.
    pub fn stats(&self) -> (stats: TraceStats)
        ensures
            stats.row_count == height_of(self.data@),
            stats.retention_seconds == self.config.retention_seconds,
            match stamps_of(self.data@) {
                Some(stamps) => if stamps.len() > 0 {
                    &&& stats.oldest_timestamp matches Some(oldest) && is_oldest(stamps, oldest)
                    &&& stats.newest_timestamp matches Some(newest) && is_newest(stamps, newest)
                } else {
                    stats.oldest_timestamp is None && stats.newest_timestamp is None
                },
                None => stats.oldest_timestamp is None && stats.newest_timestamp is None,
            },
    {
        let row_count = self.data.height();
        let range: Option<(i64, i64)> = match self.data.column("timestamp") {
            None => None,
            Some(column) => match &column.data {
                ColumnData::Int64(stamps) => {
                    if stamps.len() > 0 {
                        Some(extremes(stamps))
                    } else {
                        None
                    }
                },
                _ => None,
            },
        };
        match range {
            Some((oldest, newest)) => TraceStats {
                row_count,
                oldest_timestamp: Some(oldest),
                newest_timestamp: Some(newest),
                retention_seconds: self.config.retention_seconds,
            },
            None => TraceStats {
                row_count,
                oldest_timestamp: None,
                newest_timestamp: None,
                retention_seconds: self.config.retention_seconds,
            },
        }
    }

    /// Removes all rows. The trace counts as cleaned up now.
    pub fn clear(&mut self)
        ensures
            final(self).data@.len() == 0,
            final(self).last_cleanup_time >= 0,
            old(self).same_settings(final(self)),
    {
        self.data = Table::empty();
        self.last_cleanup_time = current_timestamp_secs();
    }

    /// Sets the retention window in seconds.
    pub fn set_retention_seconds(&mut self, seconds: i64)
        ensures
            final(self).config == (RotationConfig { retention_seconds: seconds, ..old(self).config }),
            final(self).data == old(self).data,
            final(self).last_cleanup_time == old(self).last_cleanup_time,
            final(self).cleanup_interval_seconds == old(self).cleanup_interval_seconds,
    {
        self.config.retention_seconds = seconds;
    }

    /// Sets the least number of seconds between two cleanups on append.
    pub fn set_cleanup_interval_seconds(&mut self, seconds: i64)
        ensures
            final(self).cleanup_interval_seconds == seconds,
            final(self).data == old(self).data,
            final(self).config == old(self).config,
            final(self).last_cleanup_time == old(self).last_cleanup_time,
    {
        self.cleanup_interval_seconds = seconds;
    }
}

impl TraceStats {
    /// The age of the oldest row at the time `now`, in seconds: `now` minus
    /// its timestamp.
    pub open spec fn age_at(&self, now: i64) -> Option<int> {
        match self.oldest_timestamp {
            Some(oldest) => Some(now - oldest),
            None => None,
        }
    }

    /// The age of the oldest row at the time `now`, in seconds.
    pub fn oldest_age_at(&self, now: i64) -> (age: Option<i64>)
        requires
            self.age_at(now) matches Some(seconds) ==> i64::MIN <= seconds <= i64::MAX,
        ensures
            match self.age_at(now) {
                Some(seconds) => age == Some(seconds as i64),
                None => age is None,
            },
    {
        match self.oldest_timestamp {
            Some(oldest) => Some(now - oldest),
            None => None,
        }
    }

    /// The age of the oldest row now, in seconds. `None` where there is no
    /// oldest row, or where the age does not fit the result; the age of a
    /// row from the epoch on always fits.
    pub fn oldest_age_seconds(&self) -> (age: Option<i64>)
        ensures
            self.oldest_timestamp is None ==> age is None,
            self.oldest_timestamp matches Some(oldest) && oldest >= 0 ==> age is Some,
            age matches Some(seconds) ==> exists|now: i64|
                now >= 0 && #[trigger] self.age_at(now) == Some(seconds as int),
    {
        let now = current_timestamp_secs();
        match self.oldest_timestamp {
            Some(oldest) => {
                let age: i128 = (now as i128) - (oldest as i128);
                if age < (i64::MIN as i128) || age > (i64::MAX as i128) {
                    None
                } else {
                    let seconds = self.oldest_age_at(now);
                    assert(seconds matches Some(s) && now >= 0 && self.age_at(now) == Some(s as int));
                    seconds
                }
            },
            None => None,
        }
    }

    /// The seconds between the oldest and the newest row.
    pub fn data_span_seconds(&self) -> (span: Option<i64>)
        requires
            self.oldest_timestamp matches Some(oldest) ==> (
            self.newest_timestamp matches Some(newest) ==> i64::MIN <= newest - oldest
                <= i64::MAX),
        ensures
            match (self.oldest_timestamp, self.newest_timestamp) {
                (Some(oldest), Some(newest)) => span == Some((newest - oldest) as i64),
                _ => span is None,
            },
    {
        match (self.oldest_timestamp, self.newest_timestamp) {
            (Some(oldest), Some(newest)) => Some(newest - oldest),
            _ => None,
        }
    }
}

} // verus!
