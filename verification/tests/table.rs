use brt::action::Action;
use brt::channel::RefreshChannel;
use brt::model::BrtProcess;
use brt::order::Order;
use brt::process::wrap_index;
use brt::process::NavigationState;
use brt::process::Process;
use brt::processes::ProcessesComponent;
use std::collections::VecDeque;

fn record(pid: i32, program: &str, command: &str, threads: i64, cpu: u64) -> BrtProcess {
    let mut process = BrtProcess::new();
    process.pid = pid;
    process.program = program.to_string();
    process.command = command.to_string();
    process.number_of_threads = threads;
    process.cpu = cpu;
    process
}

fn numbered(count: i32) -> Vec<BrtProcess> {
    let mut rows = Vec::new();
    for pid in 1..=count {
        rows.push(record(pid, "program", "command ", 1, 0));
    }
    rows
}

fn pids(table: &Process) -> Vec<i32> {
    table.processes.iter().map(|p| p.pid).collect()
}

fn sample() -> Vec<BrtProcess> {
    vec![
        record(30, "cat", "cat /etc/hosts ", 1, 250),
        record(10, "zsh", "zsh ", 4, 0),
        record(20, "bash", "bash -l ", 1, 9000),
        record(40, "bash", "bash ", 2, 250),
    ]
}

#[test]
fn test_process_jump() {
    let mut process = Process::new(numbered(50));
    assert_eq!(process.state.selected, Some(0));
    process.jump(5);
    assert_eq!(process.state.selected, Some(5));
    process.jump(5);
    assert_eq!(process.state.selected, Some(10));
    process.jump(-15);
    assert_eq!(process.state.selected, Some(process.processes.len() - 5));
    process.jump(4);
    assert_eq!(process.state.selected, Some(process.processes.len() - 1));
    process.jump(1);
    assert_eq!(process.state.selected, Some(0));
    process.jump(1);
    assert_eq!(process.state.selected, Some(1));
}

#[test]
fn jump_wraps_forward_and_backward() {
    assert_eq!(wrap_index(10, 20, 50), 30);
    assert_eq!(wrap_index(10, -11, 50), 49);
    assert_eq!(wrap_index(40, 205, 50), 45);
    assert_eq!(wrap_index(0, -1, 1), 0);
    assert_eq!(wrap_index(0, i64::MIN, 7), 6);
    assert_eq!(wrap_index(6, i64::MAX, 7), 6);
}

#[test]
fn jump_moves_the_scroll_position_along() {
    let mut table = Process::new(numbered(50));
    table.jump(-1);
    assert_eq!(table.state, NavigationState { selected: Some(49), offset: 49 });
    table.jump(20);
    assert_eq!(table.state, NavigationState { selected: Some(19), offset: 19 });
}

#[test]
fn jump_on_an_empty_table_changes_nothing() {
    let mut table = Process::new(Vec::new());
    assert_eq!(table.state, NavigationState { selected: None, offset: 0 });
    table.jump(1);
    assert_eq!(table.state, NavigationState { selected: None, offset: 0 });
    table.jump(-20);
    assert_eq!(table.state, NavigationState { selected: None, offset: 0 });
    assert!(table.processes.is_empty());
    assert_eq!(table.position_string(), "1/0");
}

#[test]
fn new_table_is_sorted_by_pid() {
    let table = Process::new(sample());
    assert_eq!(table.order, Order::Pid);
    assert_eq!(pids(&table), vec![10, 20, 30, 40]);
    assert_eq!(table.state.selected, Some(0));
    assert_eq!(table.app_ticker, 0);
    assert_eq!(table.render_ticker, 0);
    assert!(!table.show_help);
}

#[test]
fn each_key_sorts_ascending_with_pid_as_tie_break() {
    let mut table = Process::new(sample());
    table.order_by_program();
    assert_eq!(table.order, Order::Name);
    assert_eq!(pids(&table), vec![20, 40, 30, 10]);
    table.order_by_command();
    assert_eq!(table.order, Order::Command);
    assert_eq!(pids(&table), vec![40, 20, 30, 10]);
    table.order_by_number_of_threads();
    assert_eq!(table.order, Order::NumberOfThreads);
    assert_eq!(pids(&table), vec![20, 30, 40, 10]);
    table.order_by_cpu();
    assert_eq!(table.order, Order::Cpu);
    assert_eq!(pids(&table), vec![10, 30, 40, 20]);
    table.order_by_pid();
    assert_eq!(table.order, Order::Pid);
    assert_eq!(pids(&table), vec![10, 20, 30, 40]);
}

#[test]
fn sorting_twice_is_sorting_once() {
    let mut table = Process::new(sample());
    table.set_order(Order::Cpu);
    let once = pids(&table);
    let selected = table.state.selected;
    table.set_order(Order::Cpu);
    assert_eq!(pids(&table), once);
    assert_eq!(table.state.selected, selected);
    table.order_by_enum();
    assert_eq!(pids(&table), once);
}

#[test]
fn selection_follows_its_process_through_a_reorder() {
    let mut table = Process::new(sample());
    table.jump(1);
    assert_eq!(table.processes[table.state.selected.unwrap()].pid, 20);
    table.set_order(Order::Cpu);
    assert_eq!(table.state.selected, Some(3));
    assert_eq!(table.state.offset, 3);
    assert_eq!(table.processes[3].pid, 20);
    table.set_order(Order::Name);
    assert_eq!(table.state.selected, Some(0));
    assert_eq!(table.processes[0].pid, 20);
}

#[test]
fn shrinking_snapshot_clamps_the_selection() {
    let mut table = Process::new(numbered(10));
    table.jump(9);
    assert_eq!(table.state.selected, Some(9));
    table.refresh(numbered(3));
    assert_eq!(table.processes.len(), 3);
    assert_eq!(table.state.selected, Some(2));
    assert_eq!(table.state.offset, 2);
    table.refresh(Vec::new());
    assert_eq!(table.state.selected, None);
    assert_eq!(table.state.offset, 0);
    table.refresh(numbered(4));
    assert_eq!(table.state.selected, Some(0));
}

#[test]
fn growing_snapshot_keeps_the_selected_index() {
    let mut table = Process::new(numbered(5));
    table.jump(3);
    table.refresh(numbered(8));
    assert_eq!(table.state.selected, Some(3));
    assert_eq!(table.processes.len(), 8);
}

#[test]
fn refresh_carries_histories_forward_and_sorts() {
    let mut table = Process::new(vec![record(7, "a", "a ", 1, 100), record(9, "b", "b ", 1, 0)]);
    table.set_order(Order::Cpu);
    table.refresh(vec![record(7, "a", "a ", 1, 8000), record(8, "c", "c ", 1, 10)]);
    assert_eq!(pids(&table), vec![8, 7]);
    let carried = &table.processes[1];
    assert_eq!(carried.cpu, 8000);
    assert_eq!(carried.cpus, VecDeque::from(vec![0, 0, 0, 0, 0, 0, 0, 0, 0, 8000]));
    assert_eq!(carried.cpu_graph, "    \u{28b8}");
    table.refresh(vec![record(7, "a2", "a ", 1, 3000)]);
    let again = &table.processes[0];
    assert_eq!(again.program, "a2");
    assert_eq!(again.cpus, VecDeque::from(vec![0, 0, 0, 0, 0, 0, 0, 0, 8000, 3000]));
    assert_eq!(again.cpu_graph, "    \u{28e7}");
    assert_eq!(table.processes.len(), 1);
}

#[test]
fn update_dispatches_navigation_commands() {
    let mut channel = RefreshChannel::new();
    let mut table = Process::new(numbered(50));
    table.update(Action::Down, &mut channel);
    assert_eq!(table.state.selected, Some(1));
    table.update(Action::PageDown, &mut channel);
    assert_eq!(table.state.selected, Some(21));
    table.update(Action::PageUp, &mut channel);
    table.update(Action::Up, &mut channel);
    assert_eq!(table.state.selected, Some(0));
    table.update(Action::Up, &mut channel);
    assert_eq!(table.state.selected, Some(49));
    table.update(Action::Right, &mut channel);
    assert_eq!(table.order, Order::Name);
    table.update(Action::Left, &mut channel);
    table.update(Action::Left, &mut channel);
    assert_eq!(table.order, Order::Cpu);
    table.update(Action::Render, &mut channel);
    assert_eq!(table.render_ticker, 1);
    table.update(Action::Update(16), &mut channel);
    assert_eq!(table.processes.len(), 50);
    channel.publish(numbered(50));
    table.update(Action::Update(16), &mut channel);
    assert!(!channel.is_pending());
    assert_eq!(table.state.selected, Some(49));
    table.update(Action::Quit, &mut channel);
    table.update(Action::Resize(80, 24), &mut channel);
    assert_eq!(table.processes.len(), 50);
    assert_eq!(table.app_ticker, 0);
}

#[test]
fn tick_takes_in_the_pending_snapshot_once() {
    let mut channel = RefreshChannel::new();
    let mut table = Process::new(numbered(5));
    table.update(Action::Tick, &mut channel);
    assert_eq!(table.app_ticker, 1);
    assert_eq!(table.processes.len(), 5);
    channel.publish(numbered(9));
    channel.publish(numbered(2));
    table.update(Action::Tick, &mut channel);
    assert_eq!(table.app_ticker, 2);
    assert_eq!(table.processes.len(), 2);
    assert!(!channel.is_pending());
    table.update(Action::Tick, &mut channel);
    assert_eq!(table.processes.len(), 2);
    table.app_ticker = usize::MAX;
    table.tick(None);
    assert_eq!(table.app_ticker, usize::MAX);
    table.render_ticker = usize::MAX;
    table.render_tick();
    assert_eq!(table.render_ticker, usize::MAX);
}

#[test]
fn labels_and_position_summary() {
    let mut table = Process::new(numbered(120));
    assert_eq!(table.order_string(), "< pid >");
    table.jump(2);
    assert_eq!(table.position_string(), "3/120");
    table.set_order(Order::NumberOfThreads);
    assert_eq!(table.order_string(), "< threads >");
}

#[test]
fn page_commands_follow_the_screen_height() {
    let mut channel = RefreshChannel::new();
    let mut component = ProcessesComponent::new(Process::new(numbered(50)), 0);
    component.update(Action::PageDown, &mut channel);
    assert_eq!(component.table.state.selected, Some(0));
    component.set_height(12);
    assert_eq!(component.height, 12);
    component.update(Action::PageDown, &mut channel);
    assert_eq!(component.table.state.selected, Some(12));
    component.update(Action::PageUp, &mut channel);
    component.update(Action::PageUp, &mut channel);
    assert_eq!(component.table.state.selected, Some(38));
    component.jump(13);
    assert_eq!(component.table.state.selected, Some(1));
    component.update(Action::Down, &mut channel);
    assert_eq!(component.table.state.selected, Some(2));
    component.update(Action::Right, &mut channel);
    assert_eq!(component.table.order, Order::Name);
    channel.publish(numbered(2));
    component.update(Action::Update(0), &mut channel);
    assert_eq!(component.table.processes.len(), 2);
    assert_eq!(component.table.state.selected, Some(1));
    assert_eq!(component.table.app_ticker, 0);
    component.set_height(u16::MAX);
    component.update(Action::PageUp, &mut channel);
    assert_eq!(component.table.state.selected, Some(0));
}

#[test]
fn a_selection_out_of_range_is_brought_back() {
    let mut table = Process::new(numbered(5));
    table.state = NavigationState { selected: Some(99), offset: 7 };
    assert_eq!(table.position_string(), "5/5");
    table.jump(1);
    assert_eq!(table.state, NavigationState { selected: Some(0), offset: 0 });
    table.state = NavigationState { selected: None, offset: 3 };
    table.jump(0);
    assert_eq!(table.state, NavigationState { selected: Some(0), offset: 0 });
    table.state = NavigationState { selected: Some(99), offset: 0 };
    table.set_order(Order::Name);
    assert_eq!(table.state, NavigationState { selected: Some(4), offset: 4 });
    let mut empty = Process::new(Vec::new());
    empty.state = NavigationState { selected: Some(3), offset: 3 };
    empty.jump(2);
    assert_eq!(empty.state, NavigationState { selected: None, offset: 0 });
    empty.state = NavigationState { selected: Some(3), offset: 3 };
    empty.order_by_cpu();
    assert_eq!(empty.state, NavigationState { selected: None, offset: 0 });
    assert_eq!(empty.position_string(), "1/0");
}
