//! Logging settings and the timing statistics of operations.

use vstd::prelude::*;
use crate::text;
use crate::text::ViewEq;

verus! {

/// How detailed the log is, from most to least.
#[derive(Debug, Clone, Copy, PartialEq, Eq, Structural)]
pub enum LogLevel {
    Trace,
    Debug,
    Info,
    Warn,
    Error,
}

/// The name of a level, as the log filter writes it.
pub open spec fn level_name(l: LogLevel) -> Seq<char> {
    match l {
        LogLevel::Trace => "TRACE"@,
        LogLevel::Debug => "DEBUG"@,
        LogLevel::Info => "INFO"@,
        LogLevel::Warn => "WARN"@,
        LogLevel::Error => "ERROR"@,
    }
}

impl LogLevel {
    /// The name of the level; see `level_name`.
    pub fn as_str(&self) -> (r: &'static str)
        ensures
            r@ == level_name(*self),
    {
        match self {
            LogLevel::Trace => "TRACE",
            LogLevel::Debug => "DEBUG",
            LogLevel::Info => "INFO",
            LogLevel::Warn => "WARN",
            LogLevel::Error => "ERROR",
        }
    }
}

/// Where and how the program logs.
#[derive(Debug, Clone)]
pub struct DebugConfig {
    pub log_level: LogLevel,
    pub enable_file_logging: bool,
    pub log_directory: String,
    pub enable_console_logging: bool,
    pub use_json_format: bool,
    pub enable_performance_tracking: bool,
}

impl DebugConfig {
    /// Whether the settings are these.
    pub open spec fn is(&self, level: LogLevel, file: bool, dir: Seq<char>, console: bool, json: bool, perf: bool) -> bool {
        &&& self.log_level == level
        &&& self.enable_file_logging == file
        &&& self.log_directory@ == dir
        &&& self.enable_console_logging == console
        &&& self.use_json_format == json
        &&& self.enable_performance_tracking == perf
    }

    /// Development: debug level, files under `logs` and the console, timings kept.
    pub fn development() -> (c: Self)
        ensures
            c.is(LogLevel::Debug, true, "logs"@, true, false, true),
    {
        DebugConfig {
            log_level: LogLevel::Debug,
            enable_file_logging: true,
            log_directory: text::owned("logs"),
            enable_console_logging: true,
            use_json_format: false,
            enable_performance_tracking: true,
        }
    }

    /// Production: info level, JSON files under `/var/log/splatoon3-ghost-drawer`, no console.
    pub fn production() -> (c: Self)
        ensures
            c.is(LogLevel::Info, true, "/var/log/splatoon3-ghost-drawer"@, false, true, false),
    {
        DebugConfig {
            log_level: LogLevel::Info,
            enable_file_logging: true,
            log_directory: text::owned("/var/log/splatoon3-ghost-drawer"),
            enable_console_logging: false,
            use_json_format: true,
            enable_performance_tracking: false,
        }
    }

    /// Tests: warnings only, on the console.
    pub fn test() -> (c: Self)
        ensures
            c.is(LogLevel::Warn, false, "test_logs"@, true, false, false),
    {
        DebugConfig {
            log_level: LogLevel::Warn,
            enable_file_logging: false,
            log_directory: text::owned("test_logs"),
            enable_console_logging: true,
            use_json_format: false,
            enable_performance_tracking: false,
        }
    }

    /// The log filter used when the environment sets none:
    /// `splatoon3_ghost_drawer=LEVEL`.
    pub fn filter_directive(&self) -> (r: String)
        ensures
            r@ == "splatoon3_ghost_drawer="@ + level_name(self.log_level),
    {
        let mut s = text::owned("splatoon3_ghost_drawer=");
        text::push_str(&mut s, self.log_level.as_str());
        s
    }
}

impl Default for DebugConfig {
    /// Info level, files under `logs` and the console, timings kept.
    fn default() -> (c: Self)
        ensures
            c.is(LogLevel::Info, true, "logs"@, true, false, true),
    {
        DebugConfig {
            log_level: LogLevel::Info,
            enable_file_logging: true,
            log_directory: text::owned("logs"),
            enable_console_logging: true,
            use_json_format: false,
            enable_performance_tracking: true,
        }
    }
}

/// The sum of durations.
pub open spec fn total(s: Seq<u128>) -> int
    decreases s.len(),
{
    if s.len() == 0 { 0 } else { total(s.drop_last()) + s.last() }
}

/// The figures of one operation: how often it ran and its mean, shortest
/// and longest duration (the mean rounded down).
#[derive(Debug, Clone)]
pub struct OperationSummary {
    pub name: String,
    pub count: usize,
    pub avg_ms: u128,
    pub min_ms: u128,
    pub max_ms: u128,
}

/// The durations recorded for each operation, by name, in the order the
/// names were first recorded.
#[derive(Debug, Clone)]
pub struct PerformanceStats {
    pub operations: Vec<(String, Vec<u128>)>,
}

/// The names of the operations.
pub open spec fn operation_names(s: Seq<(String, Vec<u128>)>) -> Seq<Seq<char>> {
    s.map_values(|e: (String, Vec<u128>)| e.0@)
}

/// Whether `m` is the summary of `durations` under `name`.
pub open spec fn summarizes(m: OperationSummary, name: Seq<char>, durations: Seq<u128>) -> bool {
    &&& m.name@ == name
    &&& m.count == durations.len()
    &&& m.avg_ms == total(durations) / (durations.len() as int)
    &&& (exists|i: int| 0 <= i < durations.len() && durations[i] == m.min_ms)
    &&& (forall|i: int| 0 <= i < durations.len() ==> m.min_ms <= durations[i])
    &&& (exists|i: int| 0 <= i < durations.len() && durations[i] == m.max_ms)
    &&& (forall|i: int| 0 <= i < durations.len() ==> durations[i] <= m.max_ms)
}

/// Whether an operation has durations recorded.
pub open spec fn has_durations(e: (String, Vec<u128>)) -> bool {
    e.1@.len() > 0
}

impl PerformanceStats {
    /// Each name at most once.
    pub open spec fn wf(&self) -> bool {
        operation_names(self.operations@).no_duplicates()
    }

    /// Nothing recorded.
    pub fn new() -> (s: Self)
        ensures
            s.wf(),
            s.operations@.len() == 0,
    {
        PerformanceStats { operations: Vec::new() }
    }

    /// Records that `name` took `duration_ms`: appended to the name's
    /// durations, the name added after the others when it is new.
    pub fn record_operation(&mut self, name: &str, duration_ms: u128)
        requires
            old(self).wf(),
        ensures
            final(self).wf(),
            match operation_names(old(self).operations@).index_of_first(name@) {
                Some(i) => final(self).operations@.len() == old(self).operations@.len()
                    && final(self).operations@[i].0@ == name@
                    && final(self).operations@[i].1@ == old(self).operations@[i].1@.push(duration_ms)
                    && forall|j: int| 0 <= j < old(self).operations@.len() && j != i
                        ==> final(self).operations@[j] == old(self).operations@[j],
                None => final(self).operations@.len() == old(self).operations@.len() + 1
                    && final(self).operations@.last().0@ == name@
                    && final(self).operations@.last().1@ == seq![duration_ms]
                    && forall|j: int| 0 <= j < old(self).operations@.len()
                        ==> final(self).operations@[j] == old(self).operations@[j],
            },
    {
        let ghost names = operation_names(self.operations@);
        let mut i: usize = 0;
        while i < self.operations.len()
            invariant
                i <= self.operations@.len(),
                *self == *old(self),
                old(self).wf(),
                names == operation_names(self.operations@),
                forall|j: int| 0 <= j < i ==> names[j] != name@,
            decreases self.operations@.len() - i,
        {
            if self.operations[i].0.as_str().view_eq(name) {
                proof {
                    names.index_of_first_ensures(name@);
                    match names.index_of_first(name@) {
                        Some(k) => {
                            if k < i {
                                assert(names[k] != name@);
                            } else if k > i {
                                assert(names[i as int] == name@);
                            }
                        },
                        None => {
                            assert(names[i as int] == name@);
                        },
                    }
                }
                let mut entry = self.operations.remove(i);
                entry.1.push(duration_ms);
                self.operations.insert(i, entry);
                proof {
                    assert(operation_names(self.operations@) =~= names);
                }
                return;
            }
            i = i + 1;
        }
        proof {
            names.index_of_first_ensures(name@);
            if names.index_of_first(name@) is Some {
                let k = names.index_of_first(name@).unwrap();
                assert(names[k as int] == name@);
            }
        }
        let mut durations: Vec<u128> = Vec::new();
        durations.push(duration_ms);
        self.operations.push((text::owned(name), durations));
        proof {
            assert(operation_names(self.operations@) =~= names.push(name@));
            assert forall|a: int, b: int| 0 <= a < b < names.len() + 1 implies operation_names(self.operations@)[a]
                != operation_names(self.operations@)[b] by {
                if b == names.len() {
                    assert(names[a] != name@);
                }
            }
        }
    }

    /// Whether the durations of every operation add up without overflow.
    pub fn totals_fit(&self) -> (r: bool)
        ensures
            r == forall|i: int| 0 <= i < self.operations@.len() ==> total(#[trigger] self.operations@[i].1@) <= u128::MAX,
    {
        let mut i: usize = 0;
        while i < self.operations.len()
            invariant
                i <= self.operations@.len(),
                forall|j: int| 0 <= j < i ==> total(#[trigger] self.operations@[j].1@) <= u128::MAX,
            decreases self.operations@.len() - i,
        {
            if Self::sum_of(&self.operations[i].1).is_none() {
                return false;
            }
            i = i + 1;
        }
        true
    }

    fn sum_of(d: &Vec<u128>) -> (r: Option<u128>)
        ensures
            match r {
                Some(s) => s == total(d@),
                None => total(d@) > u128::MAX,
            },
    {
        let mut s: u128 = 0;
        let mut i: usize = 0;
        while i < d.len()
            invariant
                i <= d@.len(),
                s == total(d@.take(i as int)),
            decreases d@.len() - i,
        {
            assert(d@.take(i + 1).drop_last() =~= d@.take(i as int));
            match s.checked_add(d[i]) {
                Some(t) => s = t,
                None => {
                    proof {
                        lemma_total_prefix(d@, i + 1);
                    }
                    return None;
                },
            }
            i = i + 1;
        }
        assert(d@.take(i as int) =~= d@);
        Some(s)
    }

    /// The figures of each operation with durations, in order; see
    /// `summarizes`. The durations of each must add up without overflow.
    pub fn summaries(&self) -> (r: Vec<OperationSummary>)
        requires
            forall|i: int| 0 <= i < self.operations@.len() ==> total(#[trigger] self.operations@[i].1@) <= u128::MAX,
        ensures
            r@.len() == self.operations@.filter(|e: (String, Vec<u128>)| has_durations(e)).len(),
            forall|k: int| 0 <= k < r@.len() ==> summarizes(#[trigger] r@[k],
                self.operations@.filter(|e: (String, Vec<u128>)| has_durations(e))[k].0@,
                self.operations@.filter(|e: (String, Vec<u128>)| has_durations(e))[k].1@),
    {
        let mut r: Vec<OperationSummary> = Vec::new();
        let mut i: usize = 0;
        while i < self.operations.len()
            invariant
                i <= self.operations@.len(),
                forall|j: int| 0 <= j < self.operations@.len() ==> total(#[trigger] self.operations@[j].1@) <= u128::MAX,
                r@.len() == self.operations@.take(i as int).filter(|e: (String, Vec<u128>)| has_durations(e)).len(),
                forall|k: int| 0 <= k < r@.len() ==> summarizes(#[trigger] r@[k],
                    self.operations@.take(i as int).filter(|e: (String, Vec<u128>)| has_durations(e))[k].0@,
                    self.operations@.take(i as int).filter(|e: (String, Vec<u128>)| has_durations(e))[k].1@),
            decreases self.operations@.len() - i,
        {
            let ghost prev = self.operations@.take(i as int).filter(|e: (String, Vec<u128>)| has_durations(e));
            proof {
                assert(self.operations@.take(i + 1).drop_last() =~= self.operations@.take(i as int));
                reveal_with_fuel(Seq::filter, 1);
            }
            let d = &self.operations[i].1;
            if d.len() > 0 {
                let sum = match Self::sum_of(d) {
                    Some(s) => s,
                    None => 0,
                };
                let mut lo = d[0];
                let mut hi = d[0];
                let mut k: usize = 1;
                while k < d.len()
                    invariant
                        1 <= k <= d@.len(),
                        exists|j: int| 0 <= j < k && d@[j] == lo,
                        forall|j: int| 0 <= j < k ==> lo <= d@[j],
                        exists|j: int| 0 <= j < k && d@[j] == hi,
                        forall|j: int| 0 <= j < k ==> d@[j] <= hi,
                    decreases d@.len() - k,
                {
                    if d[k] < lo {
                        lo = d[k];
                    }
                    if d[k] > hi {
                        hi = d[k];
                    }
                    k = k + 1;
                }
                let m = OperationSummary {
                    name: self.operations[i].0.clone(),
                    count: d.len(),
                    avg_ms: sum / (d.len() as u128),
                    min_ms: lo,
                    max_ms: hi,
                };
                r.push(m);
                proof {
                    reveal_with_fuel(Seq::filter, 1);
                    let t = self.operations@.take(i + 1);
                    assert(t.drop_last() =~= self.operations@.take(i as int));
                    assert(t.last() == self.operations@[i as int]);
                    assert(has_durations(t.last()));
                    assert(t.filter(|e: (String, Vec<u128>)| has_durations(e)) == prev.push(self.operations@[i as int]));
                    assert forall|q: int| 0 <= q < r@.len() implies summarizes(#[trigger] r@[q],
                        self.operations@.take(i + 1).filter(|e: (String, Vec<u128>)| has_durations(e))[q].0@,
                        self.operations@.take(i + 1).filter(|e: (String, Vec<u128>)| has_durations(e))[q].1@) by {
                    }
                }
            } else {
                proof {
                    reveal_with_fuel(Seq::filter, 1);
                    let t = self.operations@.take(i + 1);
                    assert(t.drop_last() =~= self.operations@.take(i as int));
                    assert(t.last() == self.operations@[i as int]);
                    assert(!has_durations(t.last()));
                    assert(t.filter(|e: (String, Vec<u128>)| has_durations(e)) == prev);
                }
            }
            i = i + 1;
        }
        assert(self.operations@.take(i as int) =~= self.operations@);
        r
    }
}

proof fn lemma_total_prefix(s: Seq<u128>, n: int)
    requires
        0 <= n <= s.len(),
    ensures
        total(s.take(n)) <= total(s),
    decreases s.len(),
{
    if n < s.len() {
        lemma_total_prefix(s.drop_last(), n);
        assert(s.drop_last().take(n) =~= s.take(n));
    } else {
        assert(s.take(n) =~= s);
    }
}

impl Default for PerformanceStats {
    fn default() -> (s: Self)
        ensures
            s.wf(),
            s.operations@.len() == 0,
    {
        PerformanceStats::new()
    }
}

} // verus!
