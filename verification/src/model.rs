//! Process records and the sampling pass that builds them.
//!
//! The operating system is read elsewhere; this module receives the raw
//! figures of each process as plain values and turns them into records.

use crate::sparkline::empty_history;
use crate::sparkline::get_cpu_graph;
use crate::sparkline::graph;
use crate::sparkline::push_sample;
use crate::sparkline::pushed;
use crate::sparkline::HISTORY_LEN;
use std::collections::VecDeque;
use vstd::prelude::*;
use vstd::string::*;

verus! {

/// One process at sample time.
#[derive(Clone, Debug, PartialEq, Eq)]
pub struct BrtProcess {
    pub pid: i32,
    pub ppid: i32,
    pub program: String,
    pub command: String,
    pub number_of_threads: i64,
    pub user: String,
    pub resident_memory: u64,
    /// Recent CPU readings, oldest first, in hundredths of a percent.
    pub cpus: VecDeque<u64>,
    /// Glyph encoding of `cpus`.
    pub cpu_graph: String,
    /// Latest CPU reading, in hundredths of a percent.
    pub cpu: u64,
}

/// What a record holds, as mathematical values.
pub struct Record {
    pub pid: int,
    pub ppid: int,
    pub program: Seq<char>,
    pub command: Seq<char>,
    pub number_of_threads: int,
    pub user: Seq<char>,
    pub resident_memory: nat,
    pub cpus: Seq<u64>,
    pub cpu_graph: Seq<char>,
    pub cpu: u64,
}

impl View for BrtProcess {
    type V = Record;

    open spec fn view(&self) -> Record {
        Record {
            pid: self.pid as int,
            ppid: self.ppid as int,
            program: self.program@,
            command: self.command@,
            number_of_threads: self.number_of_threads as int,
            user: self.user@,
            resident_memory: self.resident_memory as nat,
            cpus: self.cpus@,
            cpu_graph: self.cpu_graph@,
            cpu: self.cpu,
        }
    }
}

/// The accounting counters of one process, as the operating system reports
/// them. Times are in clock ticks.
#[derive(Clone, Debug)]
pub struct RawStat {
    pub pid: i32,
    pub ppid: i32,
    pub comm: String,
    pub num_threads: i64,
    pub utime: u64,
    pub stime: u64,
    pub starttime: u64,
}

/// Everything read about one process. Each part that could not be read is
/// `None`.
#[derive(Clone, Debug)]
pub struct RawProcess {
    pub stat: Option<RawStat>,
    pub cmdline: Option<Vec<String>>,
    pub user: Option<String>,
    pub resident_pages: Option<u64>,
}

/// Machine-wide figures that a sampling pass reads once.
#[derive(Clone, Copy, Debug)]
pub struct SystemInfo {
    pub ticks_per_second: u64,
    pub uptime_seconds: u64,
    pub num_cores: u64,
    pub page_size: u64,
}

/// The views of a sequence of records.
pub open spec fn views(rows: Seq<BrtProcess>) -> Seq<Record> {
    rows.map_values(|p: BrtProcess| p@)
}

/// The command line of a process: every argument followed by one space.
pub open spec fn command_text(parts: Seq<String>) -> Seq<char>
    decreases parts.len(),
{
    if parts.len() == 0 {
        Seq::empty()
    } else {
        command_text(parts.drop_last()) + parts.last()@ + seq![' ']
    }
}

/// Resident memory in bytes: pages times page size, held at the largest
/// representable value when the product does not fit, and zero when the page
/// count could not be read.
pub open spec fn memory_bytes(resident_pages: Option<u64>, page_size: u64) -> nat {
    match resident_pages {
        Some(pages) => if pages * page_size <= u64::MAX {
            (pages * page_size) as nat
        } else {
            u64::MAX as nat
        },
        None => 0,
    }
}

/// CPU utilisation in hundredths of a percent: the processor seconds a
/// process has used, over the seconds it has existed, scaled to a percentage
/// and divided by the number of cores. Counters are converted to whole
/// seconds first. The result is zero when the clock rate or the core count is
/// zero, or when the process has existed for no time or a negative time, and
/// it is held at the largest representable value.
pub open spec fn cpu_usage(stat: RawStat, sys: SystemInfo) -> nat {
    if sys.ticks_per_second == 0 || sys.num_cores == 0 {
        0
    } else {
        let usage = stat.utime / sys.ticks_per_second + stat.stime / sys.ticks_per_second;
        let started = stat.starttime / sys.ticks_per_second;
        if sys.uptime_seconds <= started {
            0
        } else {
            let share = (usage * 10000) / ((sys.uptime_seconds - started) * sys.num_cores);
            if share <= u64::MAX {
                share as nat
            } else {
                u64::MAX as nat
            }
        }
    }
}

/// The history of a process seen for the first time: idle readings, then the
/// current one.
pub open spec fn first_history(cpu: u64) -> Seq<u64> {
    pushed(Seq::new(HISTORY_LEN as nat, |i: int| 0u64), cpu)
}

/// The record built from what was read about one process, or `None` when its
/// accounting counters could not be read. An unreadable command line becomes
/// `zombie`, an unresolved user `unknown`.
pub open spec fn record_of(process: RawProcess, sys: SystemInfo) -> Option<Record> {
    match process.stat {
        None => None,
        Some(stat) => {
            let cpu = cpu_usage(stat, sys) as u64;
            Some(
                Record {
                    pid: stat.pid as int,
                    ppid: stat.ppid as int,
                    program: stat.comm@,
                    command: match process.cmdline {
                        Some(parts) => command_text(parts@),
                        None => "zombie"@,
                    },
                    number_of_threads: stat.num_threads as int,
                    user: match process.user {
                        Some(name) => name@,
                        None => "unknown"@,
                    },
                    resident_memory: memory_bytes(process.resident_pages, sys.page_size),
                    cpus: first_history(cpu),
                    cpu_graph: graph(first_history(cpu)),
                    cpu: cpu,
                },
            )
        },
    }
}

/// Whether a record is in the shape that sampling gives it: the history has
/// its fixed length, ends with the latest reading, and the glyphs encode it.
pub open spec fn record_consistent(record: Record) -> bool {
    &&& record.cpus.len() == HISTORY_LEN
    &&& record.cpus.last() == record.cpu
    &&& record.cpu_graph == graph(record.cpus)
}

/// Every record that sampling builds is in that shape.
pub proof fn lemma_record_of_consistent(process: RawProcess, sys: SystemInfo)
    ensures
        match record_of(process, sys) {
            Some(record) => record_consistent(record),
            None => process.stat is None,
        },
{
}

/// The index of the first row with the given process id.
pub open spec fn first_with_pid(rows: Seq<Record>, pid: int) -> Option<int>
    decreases rows.len(),
{
    if rows.len() == 0 {
        None
    } else {
        match first_with_pid(rows.drop_last(), pid) {
            Some(index) => Some(index),
            None => if rows.last().pid == pid {
                Some(rows.len() - 1)
            } else {
                None
            },
        }
    }
}

/// Whether no two rows have the same process id.
pub open spec fn pids_distinct(rows: Seq<Record>) -> bool {
    forall|i: int, j: int| 0 <= i < j < rows.len() ==> rows[i].pid != rows[j].pid
}

/// The records of a pass with one more record: it takes the place of the
/// record with the same process id, if there is one, and goes to the end
/// otherwise.
pub open spec fn recorded(rows: Seq<Record>, record: Record) -> Seq<Record> {
    match first_with_pid(rows, record.pid) {
        Some(index) => rows.update(index, record),
        None => rows.push(record),
    }
}

/// The records of one sampling pass: one per process id whose counters could
/// be read, in the order in which the ids were first listed. A process that
/// could not be read is left out; of two listings of one id the later one
/// counts.
pub open spec fn sampled(raw: Seq<Option<RawProcess>>, sys: SystemInfo) -> Seq<Record>
    decreases raw.len(),
{
    if raw.len() == 0 {
        Seq::empty()
    } else {
        let before = sampled(raw.drop_last(), sys);
        match raw.last() {
            Some(process) => match record_of(process, sys) {
                Some(record) => recorded(before, record),
                None => before,
            },
            None => before,
        }
    }
}

/// What the first row with a process id is: a row with that id that no row
/// with that id precedes. There is none exactly when no row has the id.
pub proof fn lemma_first_with_pid(rows: Seq<Record>, pid: int)
    ensures
        match first_with_pid(rows, pid) {
            Some(index) => 0 <= index < rows.len() && rows[index].pid == pid && forall|k: int|
                0 <= k < index ==> rows[k].pid != pid,
            None => forall|k: int| 0 <= k < rows.len() ==> rows[k].pid != pid,
        },
    decreases rows.len(),
{
    if rows.len() > 0 {
        lemma_first_with_pid(rows.drop_last(), pid);
        match first_with_pid(rows.drop_last(), pid) {
            Some(index) => {
                assert(rows.drop_last()[index] == rows[index]);
                assert forall|k: int| 0 <= k < index implies rows[k].pid != pid by {
                    assert(rows.drop_last()[k] == rows[k]);
                }
            },
            None => {
                assert forall|k: int| 0 <= k < rows.len() - 1 implies rows[k].pid != pid by {
                    assert(rows.drop_last()[k] == rows[k]);
                }
            },
        }
    }
}

/// Recording keeps process ids distinct.
pub proof fn lemma_recorded_distinct(rows: Seq<Record>, record: Record)
    requires
        pids_distinct(rows),
    ensures
        pids_distinct(recorded(rows, record)),
{
    lemma_first_with_pid(rows, record.pid);
}

/// A sampling pass lists every process id at most once.
pub proof fn lemma_sampled_distinct(raw: Seq<Option<RawProcess>>, sys: SystemInfo)
    ensures
        pids_distinct(sampled(raw, sys)),
    decreases raw.len(),
{
    if raw.len() > 0 {
        lemma_sampled_distinct(raw.drop_last(), sys);
        let before = sampled(raw.drop_last(), sys);
        match raw.last() {
            Some(process) => match record_of(process, sys) {
                Some(record) => lemma_recorded_distinct(before, record),
                None => {},
            },
            None => {},
        }
    }
}

impl BrtProcess {
    /// A record with no identity and an idle history.
    pub fn new() -> (process: BrtProcess)
        ensures
            process@ == (Record {
                pid: 0,
                ppid: 0,
                program: Seq::empty(),
                command: Seq::empty(),
                number_of_threads: 0,
                user: Seq::empty(),
                resident_memory: 0,
                cpus: Seq::new(HISTORY_LEN as nat, |i: int| 0u64),
                cpu_graph: Seq::empty(),
                cpu: 0,
            }),
    {
        BrtProcess {
            pid: 0,
            ppid: 0,
            program: String::new(),
            command: String::new(),
            number_of_threads: 0,
            user: String::new(),
            resident_memory: 0,
            cpus: empty_history(),
            cpu_graph: String::new(),
            cpu: 0,
        }
    }
}

/// Joins the arguments of a command line, each followed by one space.
pub fn create_command(cmdline: &Vec<String>) -> (command: String)
    ensures
        command@ == command_text(cmdline@),
{
    let mut command = String::new();
    let mut i: usize = 0;
    while i < cmdline.len()
        invariant
            i <= cmdline@.len(),
            command@ == command_text(cmdline@.take(i as int)),
        decreases cmdline@.len() - i,
    {
        command.append(cmdline[i].as_str());
        command.append(" ");
        proof {
            reveal_strlit(" ");
            assert(cmdline@.take(i + 1).drop_last() =~= cmdline@.take(i as int));
            assert(command@ =~= command_text(cmdline@.take(i + 1)));
        }
        i = i + 1;
    }
    assert(cmdline@.take(i as int) =~= cmdline@);
    command
}

/// Resident memory of a process in bytes.
pub fn get_memory(resident_pages: Option<u64>, page_size: u64) -> (bytes: u64)
    ensures
        bytes == memory_bytes(resident_pages, page_size),
{
    match resident_pages {
        Some(pages) => match pages.checked_mul(page_size) {
            Some(bytes) => bytes,
            None => u64::MAX,
        },
        None => 0,
    }
}

/// Estimates the CPU utilisation of a process, in hundredths of a percent.
pub fn get_cpu(stat: &RawStat, sys: &SystemInfo) -> (cpu: u64)
    ensures
        cpu == cpu_usage(*stat, *sys),
{
    if sys.ticks_per_second == 0 || sys.num_cores == 0 {
        return 0;
    }
    let usage: u128 = (stat.utime / sys.ticks_per_second) as u128 + (stat.stime
        / sys.ticks_per_second) as u128;
    let started: u64 = stat.starttime / sys.ticks_per_second;
    if sys.uptime_seconds <= started {
        return 0;
    }
    let runtime: u64 = sys.uptime_seconds - started;
    assert(runtime * sys.num_cores <= u64::MAX * u64::MAX) by (nonlinear_arith)
        requires
            runtime <= u64::MAX,
            sys.num_cores <= u64::MAX,
    ;
    assert(runtime * sys.num_cores > 0) by (nonlinear_arith)
        requires
            runtime > 0,
            sys.num_cores > 0,
    ;
    let capacity: u128 = (runtime as u128) * (sys.num_cores as u128);
    let share: u128 = usage * 10000 / capacity;
    if share <= 0xffff_ffff_ffff_ffff {
        share as u64
    } else {
        u64::MAX
    }
}

/// Builds the record of one process from what was read about it. Returns
/// `None` exactly when the accounting counters are missing.
pub fn to_brt_process(process: &RawProcess, sys: &SystemInfo) -> (record: Option<BrtProcess>)
    ensures
        match record {
            Some(built) => record_of(*process, *sys) == Some(built@),
            None => record_of(*process, *sys) is None,
        },
{
    match &process.stat {
        None => None,
        Some(stat) => {
            let command = match &process.cmdline {
                Some(parts) => create_command(parts),
                None => String::from_str("zombie"),
            };
            let user = match &process.user {
                Some(name) => name.clone(),
                None => String::from_str("unknown"),
            };
            let resident_memory = get_memory(process.resident_pages, sys.page_size);
            let cpu = get_cpu(stat, sys);
            let mut cpus = empty_history();
            push_sample(&mut cpus, cpu);
            let cpu_graph = get_cpu_graph(&cpus);
            Some(
                BrtProcess {
                    pid: stat.pid,
                    ppid: stat.ppid,
                    program: stat.comm.clone(),
                    command,
                    number_of_threads: stat.num_threads,
                    user,
                    resident_memory,
                    cpus,
                    cpu_graph,
                    cpu,
                },
            )
        },
    }
}

/// Finds the first row with the given process id.
pub fn find_previous(rows: &Vec<BrtProcess>, pid: i32) -> (found: Option<usize>)
    ensures
        match found {
            Some(index) => first_with_pid(views(rows@), pid as int) == Some(index as int) && index
                < rows@.len(),
            None => first_with_pid(views(rows@), pid as int) is None,
        },
{
    let mut found: Option<usize> = None;
    let mut i: usize = 0;
    while i < rows.len()
        invariant
            i <= rows@.len(),
            match found {
                Some(index) => first_with_pid(views(rows@).take(i as int), pid as int) == Some(
                    index as int,
                ) && index < i,
                None => first_with_pid(views(rows@).take(i as int), pid as int) is None,
            },
        decreases rows@.len() - i,
    {
        proof {
            assert(views(rows@).take(i + 1).drop_last() =~= views(rows@).take(i as int));
        }
        if found.is_none() && rows[i].pid == pid {
            found = Some(i);
        }
        i = i + 1;
    }
    assert(views(rows@).take(i as int) =~= views(rows@));
    found
}

/// Runs one sampling pass over the listed processes. A process that could
/// not be read, or whose counters are missing, is skipped. The others
/// appear in the order in which their process ids were first listed, each id
/// once, with the figures of its last listing.
pub fn get_all_processes(raw: &Vec<Option<RawProcess>>, sys: &SystemInfo) -> (processes: Vec<
    BrtProcess,
>)
    ensures
        views(processes@) == sampled(raw@, *sys),
        pids_distinct(views(processes@)),
{
    let mut processes: Vec<BrtProcess> = Vec::new();
    let mut i: usize = 0;
    while i < raw.len()
        invariant
            i <= raw@.len(),
            views(processes@) == sampled(raw@.take(i as int), *sys),
        decreases raw@.len() - i,
    {
        let ghost before = processes@;
        proof {
            assert(raw@.take(i + 1).drop_last() =~= raw@.take(i as int));
        }
        match &raw[i] {
            Some(process) => match to_brt_process(process, sys) {
                Some(record) => {
                    match find_previous(&processes, record.pid) {
                        Some(index) => {
                            processes.set(index, record);
                            assert(views(processes@) =~= views(before).update(
                                index as int,
                                record@,
                            ));
                        },
                        None => {
                            processes.push(record);
                            assert(views(processes@) =~= views(before).push(record@));
                        },
                    }
                },
                None => {},
            },
            None => {},
        }
        i = i + 1;
    }
    proof {
        assert(raw@.take(i as int) =~= raw@);
        lemma_sampled_distinct(raw@, *sys);
    }
    processes
}

} // verus!
