use brt::channel::sample_once;
use brt::channel::RefreshChannel;
use brt::model::create_command;
use brt::model::find_previous;
use brt::model::get_all_processes;
use brt::model::get_cpu;
use brt::model::get_memory;
use brt::model::to_brt_process;
use brt::model::BrtProcess;
use brt::model::RawProcess;
use brt::model::RawStat;
use brt::model::SystemInfo;
use brt::process::carry_history;
use brt::process::merge_histories;
use brt::sparkline::get_cpu_graph;
use brt::sparkline::get_points;
use brt::sparkline::glyph_str;
use brt::sparkline::push_sample;
use std::collections::VecDeque;

fn system() -> SystemInfo {
    SystemInfo { ticks_per_second: 100, uptime_seconds: 110, num_cores: 2, page_size: 4096 }
}

fn stat(pid: i32, utime: u64, stime: u64, starttime: u64) -> RawStat {
    RawStat {
        pid,
        ppid: 1,
        comm: "worker".to_string(),
        num_threads: 3,
        utime,
        stime,
        starttime,
    }
}

fn raw(pid: i32) -> RawProcess {
    RawProcess {
        stat: Some(stat(pid, 500, 500, 1000)),
        cmdline: Some(vec!["worker".to_string(), "--fast".to_string()]),
        user: Some("root".to_string()),
        resident_pages: Some(3),
    }
}

#[test]
fn test_get_all_processes() {
    let all_processes = get_all_processes(&vec![Some(raw(1))], &system());
    assert_eq!(all_processes.is_empty(), false);
    assert_eq!(false, false)
}

#[test]
fn test_brt_process_new() {
    let process = BrtProcess::new();
    assert_eq!(process.pid, 0);
    assert_eq!(process.cpus, VecDeque::from(vec![0_u64; 10]));
}

#[test]
fn cpu_is_usage_over_runtime_per_core() {
    assert_eq!(get_cpu(&stat(1, 500, 500, 1000), &system()), 500);
    assert_eq!(get_cpu(&stat(1, 599, 199, 1099), &system()), 300);
    assert_eq!(get_cpu(&stat(1, 100, 0, 10900), &system()), 5000);
    let single = SystemInfo { num_cores: 1, ..system() };
    assert_eq!(get_cpu(&stat(1, 700, 0, 10000), &single), 7000);
    assert_eq!(get_cpu(&stat(1, 100, 0, 0), &single), 90);
}

#[test]
fn cpu_is_zero_without_runtime_clock_or_cores() {
    assert_eq!(get_cpu(&stat(1, 500, 500, 11000), &system()), 0);
    assert_eq!(get_cpu(&stat(1, 500, 500, 99900), &system()), 0);
    let no_clock = SystemInfo { ticks_per_second: 0, ..system() };
    assert_eq!(get_cpu(&stat(1, 500, 500, 1000), &no_clock), 0);
    let no_cores = SystemInfo { num_cores: 0, ..system() };
    assert_eq!(get_cpu(&stat(1, 500, 500, 1000), &no_cores), 0);
}

#[test]
fn cpu_is_held_at_the_largest_value() {
    let fast = SystemInfo { ticks_per_second: 1, uptime_seconds: 1, num_cores: 1, page_size: 1 };
    assert_eq!(get_cpu(&stat(1, u64::MAX, u64::MAX, 0), &fast), u64::MAX);
}

#[test]
fn memory_is_pages_times_page_size() {
    assert_eq!(get_memory(Some(3), 4096), 12288);
    assert_eq!(get_memory(Some(0), 4096), 0);
    assert_eq!(get_memory(None, 4096), 0);
    assert_eq!(get_memory(Some(u64::MAX), 2), u64::MAX);
}

#[test]
fn command_has_a_space_after_every_argument() {
    assert_eq!(create_command(&vec![]), "");
    assert_eq!(create_command(&vec!["ls".to_string()]), "ls ");
    assert_eq!(create_command(&vec!["ls".to_string(), "-l".to_string(), "/".to_string()]), "ls -l / ");
}

#[test]
fn record_is_built_from_what_was_read() {
    let record = to_brt_process(&raw(42), &system()).unwrap();
    assert_eq!(record.pid, 42);
    assert_eq!(record.ppid, 1);
    assert_eq!(record.program, "worker");
    assert_eq!(record.command, "worker --fast ");
    assert_eq!(record.number_of_threads, 3);
    assert_eq!(record.user, "root");
    assert_eq!(record.resident_memory, 12288);
    assert_eq!(record.cpu, 500);
    assert_eq!(record.cpus, VecDeque::from(vec![0, 0, 0, 0, 0, 0, 0, 0, 0, 500]));
    assert_eq!(record.cpu_graph, "    \u{2880}");
}

#[test]
fn unreadable_parts_become_sentinels() {
    let gone = RawProcess { stat: None, ..raw(5) };
    assert!(to_brt_process(&gone, &system()).is_none());
    let bare = RawProcess {
        stat: Some(stat(5, 0, 0, 0)),
        cmdline: None,
        user: None,
        resident_pages: None,
    };
    let record = to_brt_process(&bare, &system()).unwrap();
    assert_eq!(record.command, "zombie");
    assert_eq!(record.user, "unknown");
    assert_eq!(record.resident_memory, 0);
    assert_eq!(record.cpu, 0);
    assert_eq!(record.cpu_graph, "     ");
}

#[test]
fn a_failed_process_does_not_end_the_pass() {
    let listing = vec![
        Some(raw(3)),
        None,
        Some(RawProcess { stat: None, ..raw(4) }),
        Some(raw(1)),
    ];
    let records = get_all_processes(&listing, &system());
    let pids: Vec<i32> = records.iter().map(|p| p.pid).collect();
    assert_eq!(pids, vec![3, 1]);
    assert!(get_all_processes(&Vec::new(), &system()).is_empty());
}

#[test]
fn a_process_id_is_listed_once() {
    let mut later = raw(3);
    later.user = Some("daemon".to_string());
    let listing = vec![Some(raw(3)), Some(raw(1)), Some(later), Some(raw(2))];
    let records = get_all_processes(&listing, &system());
    let pids: Vec<i32> = records.iter().map(|p| p.pid).collect();
    assert_eq!(pids, vec![3, 1, 2]);
    assert_eq!(records[0].user, "daemon");
    assert_eq!(records[1].user, "root");
}

#[test]
fn failed_listing_keeps_the_last_snapshot() {
    let mut channel = RefreshChannel::new();
    assert!(sample_once(Some(&vec![Some(raw(1)), Some(raw(2))]), &system(), &mut channel));
    assert!(!sample_once(None, &system(), &mut channel));
    let kept = channel.poll().unwrap();
    assert_eq!(kept.len(), 2);
    assert!(!sample_once(None, &system(), &mut channel));
    assert!(channel.poll().is_none());
}

#[test]
fn channel_hands_out_only_the_latest_snapshot() {
    let mut channel = RefreshChannel::new();
    assert!(!channel.is_pending());
    assert!(channel.poll().is_none());
    channel.publish(vec![BrtProcess::new()]);
    channel.publish(vec![BrtProcess::new(), BrtProcess::new()]);
    assert!(channel.is_pending());
    assert_eq!(channel.poll().unwrap().len(), 2);
    assert!(channel.poll().is_none());
}

#[test]
fn levels_have_monotonic_bounds() {
    assert_eq!(get_points(0), 0);
    assert_eq!(get_points(9), 0);
    assert_eq!(get_points(10), 1);
    assert_eq!(get_points(1999), 1);
    assert_eq!(get_points(2000), 2);
    assert_eq!(get_points(4999), 2);
    assert_eq!(get_points(5000), 3);
    assert_eq!(get_points(6999), 3);
    assert_eq!(get_points(7000), 4);
    assert_eq!(get_points(10000), 4);
    assert_eq!(get_points(10001), 0);
    assert_eq!(get_points(u64::MAX), 0);
}

#[test]
fn glyphs_pair_two_levels() {
    assert_eq!(glyph_str(0, 0), " ");
    assert_eq!(glyph_str(0, 1), "\u{2880}");
    assert_eq!(glyph_str(1, 0), "\u{2840}");
    assert_eq!(glyph_str(2, 3), "\u{28f4}");
    assert_eq!(glyph_str(4, 0), "\u{2847}");
    assert_eq!(glyph_str(4, 4), "\u{28ff}");
}

#[test]
fn graph_has_one_glyph_per_pair() {
    let history = VecDeque::from(vec![0, 10, 2000, 5000, 7000, 0, 10000, 10000, 10001, 9]);
    assert_eq!(get_cpu_graph(&history), "\u{2880}\u{28f4}\u{2847}\u{28ff} ");
    assert_eq!(get_cpu_graph(&VecDeque::new()), "");
    assert_eq!(get_cpu_graph(&VecDeque::from(vec![7000])), "\u{2847}");
    assert_eq!(get_cpu_graph(&VecDeque::from(vec![0, 0, 2000])), " \u{2844}");
}

#[test]
fn history_keeps_the_most_recent_readings() {
    let mut history = VecDeque::from(vec![0_u64; 10]);
    for sample in 1..=25 {
        push_sample(&mut history, sample);
        assert_eq!(history.len(), 10);
    }
    assert_eq!(history, VecDeque::from(vec![16, 17, 18, 19, 20, 21, 22, 23, 24, 25]));
    let mut short = VecDeque::from(vec![1, 2, 3]);
    push_sample(&mut short, 4);
    assert_eq!(short, VecDeque::from(vec![2, 3, 4]));
    let mut none: VecDeque<u64> = VecDeque::new();
    push_sample(&mut none, 4);
    assert!(none.is_empty());
}

#[test]
fn histories_are_matched_by_process_id() {
    let mut known = BrtProcess::new();
    known.pid = 7;
    known.cpus = VecDeque::from(vec![1, 2, 3, 4, 5, 6, 7, 8, 9, 10]);
    let mut twin = BrtProcess::new();
    twin.pid = 7;
    let table = vec![BrtProcess::new(), known, twin];
    assert_eq!(find_previous(&table, 7), Some(1));
    assert_eq!(find_previous(&table, 0), Some(0));
    assert_eq!(find_previous(&table, 8), None);
    let mut fresh = BrtProcess::new();
    fresh.pid = 7;
    fresh.cpu = 6000;
    fresh.program = "new".to_string();
    let carried = carry_history(&table, fresh.clone());
    assert_eq!(carried.cpus, VecDeque::from(vec![2, 3, 4, 5, 6, 7, 8, 9, 10, 6000]));
    assert_eq!(carried.cpu_graph, "    \u{28f0}");
    assert_eq!(carried.program, "new");
    let mut stranger = BrtProcess::new();
    stranger.pid = 99;
    stranger.cpu = 1;
    let rows = merge_histories(&table, vec![stranger.clone(), fresh]);
    assert_eq!(rows.len(), 2);
    assert_eq!(rows[0], stranger);
    assert_eq!(rows[1], carried);
}
