//! What one sampling tick has read from the host, as plain values: the time,
//! the text of the counter files, and the processor and memory figures.

use crate::attribution::ProcessStats;
use vstd::prelude::*;

verus! {

/// What reading one counter file gave: its text, or the description of the failure.
#[derive(Debug)]
pub struct CounterFile {
    /// The path of the file that was read.
    pub path: String,
    /// The text of the file, or why it could not be read.
    pub content: Result<String, String>,
}

/// Everything that one tick has read from the host.
#[derive(Debug)]
pub struct TickSample {
    /// When the tick was taken, in milliseconds since the Unix epoch.
    pub timestamp: i64,
    /// The counter files that were read at this tick.
    pub counters: Vec<CounterFile>,
    /// The processor and memory figures of the host and its processes.
    pub stats: ProcessStats,
}

/// The text that was read, or the failure, as sequences of characters.
pub open spec fn content_view(content: Result<String, String>) -> Result<Seq<char>, Seq<char>> {
    match content {
        Ok(text) => Ok(text@),
        Err(reason) => Err(reason@),
    }
}

/// What the tick read from the file at `path`: the first entry listed under
/// that path, or `None` where the file was not read at all.
pub open spec fn counter_content(counters: Seq<CounterFile>, path: Seq<char>) -> Option<
    Result<Seq<char>, Seq<char>>,
>
    decreases counters.len(),
{
    if counters.len() == 0 {
        None
    } else if counters[0].path@ == path {
        Some(content_view(counters[0].content))
    } else {
        counter_content(counters.drop_first(), path)
    }
}

impl TickSample {
    /// A sample of the given readings, taken at the given time.
    pub fn at(timestamp: i64, counters: Vec<CounterFile>, stats: ProcessStats) -> (sample: Self)
        ensures
            sample.timestamp == timestamp,
            sample.counters == counters,
            sample.stats == stats,
    {
        TickSample { timestamp, counters, stats }
    }
}

/// Looks up what the tick read from the file at `path`.
pub fn find_counter<'a>(counters: &'a Vec<CounterFile>, path: &String) -> (found: Option<
    &'a Result<String, String>,
>)
    ensures
        match found {
            Some(content) => counter_content(counters@, path@) == Some(content_view(*content)),
            None => counter_content(counters@, path@) is None,
        },
{
    let n = counters.len();
    let mut i: usize = 0;
    assert(counters@.subrange(0, n as int) =~= counters@);
    while i < n
        invariant
            i <= n == counters.len(),
            counter_content(counters@, path@) == counter_content(
                counters@.subrange(i as int, n as int),
                path@,
            ),
        decreases n - i,
    {
        if counters[i].path == *path {
            return Some(&counters[i].content);
        }
        assert(counters@.subrange(i as int, n as int).drop_first() =~= counters@.subrange(
            i + 1,
            n as int,
        ));
        i += 1;
    }
    None
}

} // verus!
