//! The process table: sorted rows, the active sort key, and the user's place
//! in the table.
//!
//! The table owns the selection. It keeps the selection on the same process
//! when the rows are re-sorted, keeps it in range when a new snapshot has
//! fewer rows, and moves it with wrap-around on navigation commands.

use crate::action::Action;
use crate::channel::polled;
use crate::channel::RefreshChannel;
use crate::model::find_previous;
use crate::model::first_with_pid;
use crate::model::lemma_first_with_pid;
use crate::model::record_consistent;
use crate::model::views;
use crate::model::BrtProcess;
use crate::model::Record;
use crate::order::label_text;
use crate::order::predecessor;
use crate::order::successor;
use crate::order::Order;
use crate::sorting::is_sorted;
use crate::sorting::lemma_sort_idempotent;
use crate::sorting::sort_rows;
use crate::sorting::sorted_rows;
use crate::sparkline::get_cpu_graph;
use crate::sparkline::graph;
use crate::sparkline::push_sample;
use crate::sparkline::pushed;
use crate::text::decimal_digits;
use crate::text::format_u64;
use vstd::arithmetic::div_mod::lemma_add_mod_noop_right;
use vstd::arithmetic::div_mod::lemma_mod_add_multiples_vanish;
use vstd::arithmetic::div_mod::lemma_small_mod;
use vstd::arithmetic::div_mod::lemma_sub_mod_noop_right;
use vstd::prelude::*;
use vstd::string::*;

verus! {

/// Rows moved by a page command.
pub const PAGE_STEP: i64 = 20;

/// The user's place in the table.
#[derive(Clone, Copy, Debug, PartialEq, Eq)]
pub struct NavigationState {
    /// Index of the selected row, or `None` while the table has no rows.
    pub selected: Option<usize>,
    /// Position of the scroll indicator: the selected row, or 0 while the
    /// table has no rows.
    pub offset: usize,
}

/// The process table.
#[derive(Debug)]
pub struct Process {
    pub show_help: bool,
    pub app_ticker: usize,
    pub render_ticker: usize,
    pub processes: Vec<BrtProcess>,
    pub order: Order,
    pub state: NavigationState,
}

/// The row reached from `index` by `steps` rows in a table of `count` rows,
/// where the row after the last is the first and the row before the first is
/// the last.
pub open spec fn wrapped(index: int, steps: int, count: int) -> int
    recommends
        count > 0,
{
    ((index + steps) % count + count) % count
}

/// A selection brought into the range of a table of `count` rows: kept where
/// it is in range, moved to the last row where it is not, and absent exactly
/// when there are no rows.
pub open spec fn clamped(selected: Option<usize>, count: nat) -> Option<usize> {
    if count == 0 {
        None
    } else {
        match selected {
            Some(index) => if index < count {
                Some(index)
            } else {
                Some((count - 1) as usize)
            },
            None => Some(0),
        }
    }
}

/// The scroll position that goes with a selection.
pub open spec fn offset_of(selected: Option<usize>) -> usize {
    match selected {
        Some(index) => index,
        None => 0,
    }
}

/// A freshly sampled record with its history carried forward: where the
/// table already has a row for the process, the record takes that row's
/// history with the new reading pushed into it; otherwise it stays as it is.
pub open spec fn carried(known: Seq<Record>, fresh: Record) -> Record {
    match first_with_pid(known, fresh.pid) {
        Some(index) => {
            let cpus = pushed(known[index].cpus, fresh.cpu);
            Record { cpus: cpus, cpu_graph: graph(cpus), ..fresh }
        },
        None => fresh,
    }
}

/// A snapshot with every history carried forward from the known rows.
/// Processes that the snapshot does not list are gone.
pub open spec fn merged(known: Seq<Record>, snapshot: Seq<Record>) -> Seq<Record> {
    Seq::new(snapshot.len(), |k: int| carried(known, snapshot[k]))
}

/// What waits in the channel after an event: a tick and an update request
/// poll it, every other event leaves it alone.
pub open spec fn pending_after(action: Action, pending: Option<Vec<BrtProcess>>) -> Option<
    Vec<BrtProcess>,
> {
    match action {
        Action::Tick => polled(pending).1,
        Action::Update(_) => polled(pending).1,
        _ => pending,
    }
}

/// The sort key as it is shown: its name between a `<` and a `>`.
pub open spec fn order_text(order: Order) -> Seq<char> {
    seq!['<', ' '] + label_text(order) + seq![' ', '>']
}

/// The position summary: the number of the selected row, counted from one,
/// a slash, and the number of rows. A selection out of range counts as the
/// last row, and a table without rows shows `1/0`.
pub open spec fn position_text(selected: Option<usize>, count: nat) -> Seq<char> {
    decimal_digits((offset_of(clamped(selected, count)) + 1) as nat) + seq!['/'] + decimal_digits(
        count,
    )
}

impl Process {
    /// Whether the table is consistent: the rows are sorted by the active
    /// key, and the user's place is consistent with the rows. Every
    /// operation that sorts establishes this, and every other keeps it.
    pub open spec fn wf(&self) -> bool {
        &&& is_sorted(views(self.processes@), self.order)
        &&& self.selection_valid()
    }

    /// Whether the user's place is consistent with the rows: a row is
    /// selected exactly when there are rows, the selected index is in range,
    /// and the scroll position goes with it.
    pub open spec fn selection_valid(&self) -> bool {
        &&& match self.state.selected {
            Some(index) => index < self.processes@.len(),
            None => self.processes@.len() == 0,
        }
        &&& self.state.offset == offset_of(self.state.selected)
    }

    /// The selection as the table's operations read it: brought into range
    /// first. On a consistent table this is the stored selection.
    pub open spec fn selection(&self) -> Option<usize> {
        clamped(self.state.selected, self.processes@.len())
    }

    /// The process id of the selected row.
    pub open spec fn selected_pid(&self) -> Option<int> {
        match self.selection() {
            Some(index) => Some(self.processes@[index as int].pid as int),
            None => None,
        }
    }

    /// Whether `self` is `before` after a move of the selection by `steps`
    /// rows: nothing but the user's place changes, a table without rows has
    /// no selection, and otherwise the selection wraps around the ends.
    pub open spec fn is_jump_of(&self, before: Process, steps: int) -> bool {
        &&& self.processes == before.processes
        &&& self.order == before.order
        &&& self.show_help == before.show_help
        &&& self.app_ticker == before.app_ticker
        &&& self.render_ticker == before.render_ticker
        &&& self.state.offset == offset_of(self.state.selected)
        &&& self.state.selected == match before.selection() {
            Some(index) => Some(
                wrapped(index as int, steps, before.processes@.len() as int) as usize,
            ),
            None => None,
        }
    }

    /// Whether `self` is `before` re-sorted by `order`: the rows are those
    /// of `before` in sorted order, and the row that was selected is still
    /// selected, wherever it went.
    pub open spec fn is_resort_of(&self, before: Process, order: Order) -> bool {
        &&& views(self.processes@) == sorted_rows(views(before.processes@), order)
        &&& self.processes@.to_multiset() == before.processes@.to_multiset()
        &&& self.order == order
        &&& self.show_help == before.show_help
        &&& self.app_ticker == before.app_ticker
        &&& self.render_ticker == before.render_ticker
        &&& self.state.offset == offset_of(self.state.selected)
        &&& match before.selection() {
            Some(index) => self.state.selected is Some && self.state.selected->0
                < self.processes@.len() && self.processes@[self.state.selected->0 as int]
                == before.processes@[index as int],
            None => self.state.selected is None,
        }
    }

    /// Whether `self` is `before` after it took in `snapshot`: the rows are
    /// the snapshot's records with their histories carried forward, sorted
    /// by the active key, and the selected index is kept or, where the table
    /// shrank below it, moved to the last row.
    pub open spec fn is_refresh_of(&self, before: Process, snapshot: Seq<Record>) -> bool {
        &&& views(self.processes@) == sorted_rows(
            merged(views(before.processes@), snapshot),
            before.order,
        )
        &&& self.order == before.order
        &&& self.show_help == before.show_help
        &&& self.app_ticker == before.app_ticker
        &&& self.render_ticker == before.render_ticker
        &&& self.state.selected == clamped(before.state.selected, snapshot.len())
        &&& self.state.offset == offset_of(self.state.selected)
    }

    /// Whether `self` is `before` after it was offered what a poll of the
    /// channel gave: a snapshot is taken in, and without one nothing
    /// changes.
    pub open spec fn is_intake_of(&self, before: Process, snapshot: Option<Vec<BrtProcess>>) -> bool {
        match snapshot {
            Some(rows) => self.is_refresh_of(before, views(rows@)),
            None => *self == before,
        }
    }

    /// Whether `self` is `before` after a timer tick that may have brought a
    /// snapshot: the tick is counted, and a snapshot is taken in.
    pub open spec fn is_tick_of(&self, before: Process, snapshot: Option<Vec<BrtProcess>>) -> bool {
        self.is_intake_of(
            Process { app_ticker: before.app_ticker.saturating_add(1), ..before },
            snapshot,
        )
    }

    /// Whether `self` is `before` with one more rendered frame counted.
    pub open spec fn is_render_of(&self, before: Process) -> bool {
        *self == (Process { render_ticker: before.render_ticker.saturating_add(1), ..before })
    }

    /// Whether `self` is `before` after `action`, where `pending` is what
    /// waited in the channel.
    pub open spec fn is_update_of(
        &self,
        before: Process,
        action: Action,
        pending: Option<Vec<BrtProcess>>,
    ) -> bool {
        match action {
            Action::Tick => self.is_tick_of(before, polled(pending).0),
            Action::Update(_) => self.is_intake_of(before, polled(pending).0),
            Action::Render => self.is_render_of(before),
            Action::Up => self.is_jump_of(before, -1),
            Action::Down => self.is_jump_of(before, 1),
            Action::PageUp => self.is_jump_of(before, -PAGE_STEP),
            Action::PageDown => self.is_jump_of(before, PAGE_STEP as int),
            Action::Left => self.is_resort_of(before, predecessor(before.order))
                && self.selected_pid() == before.selected_pid(),
            Action::Right => self.is_resort_of(before, successor(before.order))
                && self.selected_pid() == before.selected_pid(),
            _ => *self == before,
        }
    }

    /// A table over the given records, sorted by process id, with the first
    /// row selected.
    pub fn new(processes: Vec<BrtProcess>) -> (table: Process)
        ensures
            table.wf(),
            views(table.processes@) == sorted_rows(views(processes@), Order::Pid),
            table.processes@.to_multiset() == processes@.to_multiset(),
            table.order == Order::Pid,
            table.state.selected == clamped(None, processes@.len()),
            !table.show_help,
            table.app_ticker == 0,
            table.render_ticker == 0,
    {
        let mut rows = processes;
        let _ = sort_rows(&mut rows, Order::Pid, 0);
        let selected = if rows.len() == 0 {
            None
        } else {
            Some(0)
        };
        Process {
            show_help: false,
            app_ticker: 0,
            render_ticker: 0,
            processes: rows,
            order: Order::Pid,
            state: NavigationState { selected, offset: 0 },
        }
    }

    /// Takes in a new snapshot. Each record inherits the history of the row
    /// with the same process id; rows whose process is not in the snapshot
    /// are dropped. The rows are sorted by the active key, and the selection
    /// is brought into range.
    pub fn refresh(&mut self, snapshot: Vec<BrtProcess>)
        ensures
            final(self).wf(),
            final(self).is_refresh_of(*old(self), views(snapshot@)),
    {
        let mut rows = merge_histories(&self.processes, snapshot);
        let _ = sort_rows(&mut rows, self.order, 0);
        let selected = clamp_selection(self.state.selected, rows.len());
        self.processes = rows;
        self.state = NavigationState { selected, offset: scroll_offset(selected) };
    }

    /// Counts a timer tick and takes in the snapshot that it brought, if
    /// any. Without a snapshot the rows stay as they are.
    pub fn tick(&mut self, snapshot: Option<Vec<BrtProcess>>)
        ensures
            old(self).wf() || snapshot is Some ==> final(self).wf(),
            final(self).is_tick_of(*old(self), snapshot),
    {
        self.app_ticker = self.app_ticker.saturating_add(1);
        self.intake(snapshot);
    }

    /// Takes in what a poll of the channel gave. Without a snapshot the
    /// table stays as it is.
    pub fn intake(&mut self, snapshot: Option<Vec<BrtProcess>>)
        ensures
            old(self).wf() || snapshot is Some ==> final(self).wf(),
            final(self).is_intake_of(*old(self), snapshot),
    {
        match snapshot {
            Some(rows) => self.refresh(rows),
            None => {},
        }
    }

    /// Counts a rendered frame.
    pub fn render_tick(&mut self)
        ensures
            final(self).is_render_of(*old(self)),
    {
        self.render_ticker = self.render_ticker.saturating_add(1);
    }

    /// The sort key as it is shown: its name between two markers.
    pub fn order_string(&self) -> (text: String)
        ensures
            text@ == order_text(self.order),
    {
        let mut text = String::from_str("< ");
        text.append(self.order.label());
        text.append(" >");
        proof {
            reveal_strlit("< ");
            reveal_strlit(" >");
            assert(text@ =~= order_text(self.order));
        }
        text
    }

    /// The position summary, as in `3/120` for the third of 120 rows.
    pub fn position_string(&self) -> (text: String)
        ensures
            text@ == position_text(self.state.selected, self.processes@.len()),
    {
        let count: usize = self.processes.len();
        let row: usize = match clamp_selection(self.state.selected, count) {
            Some(index) => index + 1,
            None => 1,
        };
        let mut text = format_u64(row as u64);
        text.append("/");
        let total = format_u64(count as u64);
        text.append(total.as_str());
        proof {
            reveal_strlit("/");
            assert(text@ =~= position_text(self.state.selected, self.processes@.len()));
        }
        text
    }

    /// Sorts the rows by `order` and makes it the active key. The selection
    /// follows the row it was on.
    pub fn set_order(&mut self, order: Order)
        ensures
            final(self).wf(),
            final(self).is_resort_of(*old(self), order),
            final(self).selected_pid() == old(self).selected_pid(),
    {
        let selected = clamp_selection(self.state.selected, self.processes.len());
        let moved = sort_rows(&mut self.processes, order, scroll_offset(selected));
        self.order = order;
        self.state = match selected {
            Some(_) => NavigationState { selected: Some(moved), offset: moved },
            None => NavigationState { selected: None, offset: 0 },
        };
    }

    /// Sorts the rows again by the active key. The selection follows the row
    /// it was on.
    pub fn order_by_enum(&mut self)
        ensures
            final(self).wf(),
            final(self).is_resort_of(*old(self), old(self).order),
            final(self).selected_pid() == old(self).selected_pid(),
    {
        match self.order {
            Order::Pid => self.order_by_pid(),
            Order::Name => self.order_by_program(),
            Order::Command => self.order_by_command(),
            Order::NumberOfThreads => self.order_by_number_of_threads(),
            Order::Cpu => self.order_by_cpu(),
        }
    }

    /// Makes the process id the active key and sorts by it, ascending.
    pub fn order_by_pid(&mut self)
        ensures
            final(self).wf(),
            final(self).is_resort_of(*old(self), Order::Pid),
            final(self).selected_pid() == old(self).selected_pid(),
    {
        self.set_order(Order::Pid)
    }

    /// Makes the program name the active key and sorts by it, then by
    /// process id.
    pub fn order_by_program(&mut self)
        ensures
            final(self).wf(),
            final(self).is_resort_of(*old(self), Order::Name),
            final(self).selected_pid() == old(self).selected_pid(),
    {
        self.set_order(Order::Name)
    }

    /// Makes the command line the active key and sorts by it, then by
    /// process id.
    pub fn order_by_command(&mut self)
        ensures
            final(self).wf(),
            final(self).is_resort_of(*old(self), Order::Command),
            final(self).selected_pid() == old(self).selected_pid(),
    {
        self.set_order(Order::Command)
    }

    /// Makes the thread count the active key and sorts by it, ascending,
    /// then by process id.
    pub fn order_by_number_of_threads(&mut self)
        ensures
            final(self).wf(),
            final(self).is_resort_of(*old(self), Order::NumberOfThreads),
            final(self).selected_pid() == old(self).selected_pid(),
    {
        self.set_order(Order::NumberOfThreads)
    }

    /// Makes the CPU utilisation the active key and sorts by it, ascending,
    /// then by process id.
    pub fn order_by_cpu(&mut self)
        ensures
            final(self).wf(),
            final(self).is_resort_of(*old(self), Order::Cpu),
            final(self).selected_pid() == old(self).selected_pid(),
    {
        self.set_order(Order::Cpu)
    }

    /// Moves the selection by `steps` rows, forward for positive and
    /// backward for negative values, wrapping around at both ends. On a
    /// table without rows nothing happens. A selection that is out of range
    /// is brought into range first.
    pub fn jump(&mut self, steps: i64)
        ensures
            final(self).is_jump_of(*old(self), steps as int),
            final(self).selection_valid(),
            old(self).wf() ==> final(self).wf(),
            old(self).wf() && old(self).processes@.len() == 0 ==> *final(self) == *old(self),
    {
        let count: usize = self.processes.len();
        let selected = match clamp_selection(self.state.selected, count) {
            Some(index) => Some(wrap_index(index, steps, count)),
            None => None,
        };
        self.state = NavigationState { selected, offset: scroll_offset(selected) };
    }

    /// Applies one event to the table. A tick is counted, polls the channel
    /// and takes in what the poll yields; an update request polls and takes
    /// in without counting; a rendered frame is counted; the arrow and page
    /// commands move the selection by one row or by a page; left and right
    /// step the sort key backward and forward. Any other event leaves the
    /// table and the channel as they are.
    pub fn update(&mut self, action: Action, channel: &mut RefreshChannel)
        ensures
            old(self).wf() ==> final(self).wf(),
            final(self).is_update_of(*old(self), action, old(channel).pending),
            final(channel).pending == pending_after(action, old(channel).pending),
    {
        match action {
            Action::Tick => {
                let snapshot = channel.poll();
                self.tick(snapshot);
            },
            Action::Update(_) => {
                let snapshot = channel.poll();
                self.intake(snapshot);
            },
            Action::Render => self.render_tick(),
            Action::Up => self.jump(-1),
            Action::Down => self.jump(1),
            Action::PageUp => self.jump(-PAGE_STEP),
            Action::PageDown => self.jump(PAGE_STEP),
            Action::Left => {
                let order = self.order.previous();
                self.set_order(order);
            },
            Action::Right => {
                let order = self.order.next();
                self.set_order(order);
            },
            _ => {},
        }
    }
}

/// Carrying a history forward keeps records in shape: where the known rows
/// and the fresh record have histories of the fixed length that end with
/// their latest reading and glyphs that encode them, so has the result.
pub proof fn lemma_carried_consistent(known: Seq<Record>, fresh: Record)
    requires
        forall|k: int| 0 <= k < known.len() ==> record_consistent(#[trigger] known[k]),
        record_consistent(fresh),
    ensures
        record_consistent(carried(known, fresh)),
{
    lemma_first_with_pid(known, fresh.pid);
}

/// Re-sorting a table by the key it was just sorted by changes neither the
/// rows nor the selected row.
pub proof fn lemma_resort_twice(before: Process, once: Process, twice: Process, order: Order)
    requires
        once.is_resort_of(before, order),
        twice.is_resort_of(once, order),
    ensures
        views(twice.processes@) == views(once.processes@),
        once.state.selected is Some ==> twice.state.selected is Some
            && twice.processes@[twice.state.selected->0 as int]@
            == once.processes@[once.state.selected->0 as int]@,
        once.state.selected is None ==> twice.state.selected is None,
{
    lemma_sort_idempotent(views(before.processes@), order);
}

/// A selection brought into range is a row of the table, and it is the old
/// selection wherever that was in range.
pub proof fn lemma_clamped_in_range(selected: Option<usize>, count: nat)
    ensures
        count > 0 ==> clamped(selected, count) is Some && clamped(selected, count)->0 < count,
        count == 0 ==> clamped(selected, count) is None,
        selected is Some && selected->0 < count ==> clamped(selected, count) == selected,
{
}

/// A wrapped index is a row of the table, and it differs from the plain sum
/// of index and steps by a whole number of table lengths.
pub proof fn lemma_wrapped_in_range(index: int, steps: int, count: int)
    requires
        count > 0,
    ensures
        0 <= wrapped(index, steps, count) < count,
        (index + steps - wrapped(index, steps, count)) % count == 0,
        0 <= index + steps < count ==> wrapped(index, steps, count) == index + steps,
{
    let landed = (index + steps) % count;
    lemma_mod_add_multiples_vanish(landed, count);
    lemma_small_mod(landed as nat, count as nat);
    vstd::arithmetic::div_mod::lemma_fundamental_div_mod(index + steps, count);
    vstd::arithmetic::div_mod::lemma_mod_multiples_basic((index + steps) / count, count);
    assert(index + steps - landed == count * ((index + steps) / count));
    assert(count * ((index + steps) / count) == ((index + steps) / count) * count)
        by (nonlinear_arith);
    if 0 <= index + steps < count {
        lemma_small_mod((index + steps) as nat, count as nat);
    }
}

/// Brings a selection into the range of a table of `count` rows.
pub fn clamp_selection(selected: Option<usize>, count: usize) -> (valid: Option<usize>)
    ensures
        valid == clamped(selected, count as nat),
{
    if count == 0 {
        None
    } else {
        match selected {
            Some(index) => if index < count {
                Some(index)
            } else {
                Some(count - 1)
            },
            None => Some(0),
        }
    }
}

/// The scroll position that goes with a selection.
pub fn scroll_offset(selected: Option<usize>) -> (offset: usize)
    ensures
        offset == offset_of(selected),
{
    match selected {
        Some(index) => index,
        None => 0,
    }
}

/// Computes the row reached from `index` by `steps` rows with wrap-around.
pub fn wrap_index(index: usize, steps: i64, count: usize) -> (target: usize)
    requires
        index < count,
    ensures
        target == wrapped(index as int, steps as int, count as int),
        target < count,
{
    let n: u64 = count as u64;
    let at: u128 = index as u128;
    let total: u128 = if steps >= 0 {
        let forward: u64 = (steps as u64) % n;
        proof {
            lemma_add_mod_noop_right(index as int, steps as int, count as int);
        }
        at + forward as u128
    } else {
        let magnitude: u64 = (-(steps + 1)) as u64 + 1;
        let backward: u64 = magnitude % n;
        proof {
            lemma_sub_mod_noop_right(index as int, magnitude as int, count as int);
            lemma_mod_add_multiples_vanish(index - backward, count as int);
        }
        at + (n - backward) as u128
    };
    let target: u128 = total % (n as u128);
    proof {
        let landed = (index + steps) % (count as int);
        assert(target == landed);
        lemma_mod_add_multiples_vanish(landed, count as int);
        lemma_small_mod(landed as nat, count as nat);
    }
    target as usize
}

/// Carries the history of a known row forward into a fresh record.
pub fn carry_history(known: &Vec<BrtProcess>, fresh: BrtProcess) -> (record: BrtProcess)
    ensures
        record@ == carried(views(known@), fresh@),
{
    match find_previous(known, fresh.pid) {
        None => fresh,
        Some(index) => {
            let mut cpus = known[index].cpus.clone();
            assert(cpus@ =~= known@[index as int].cpus@);
            push_sample(&mut cpus, fresh.cpu);
            let cpu_graph = get_cpu_graph(&cpus);
            BrtProcess {
                pid: fresh.pid,
                ppid: fresh.ppid,
                program: fresh.program,
                command: fresh.command,
                number_of_threads: fresh.number_of_threads,
                user: fresh.user,
                resident_memory: fresh.resident_memory,
                cpus,
                cpu_graph,
                cpu: fresh.cpu,
            }
        },
    }
}

/// Carries the histories of the known rows forward into a snapshot.
pub fn merge_histories(known: &Vec<BrtProcess>, snapshot: Vec<BrtProcess>) -> (rows: Vec<
    BrtProcess,
>)
    ensures
        views(rows@) == merged(views(known@), views(snapshot@)),
{
    let ghost fresh = snapshot@;
    let n: usize = snapshot.len();
    let mut rest = snapshot;
    let mut reversed: Vec<BrtProcess> = Vec::new();
    while rest.len() > 0
        invariant
            rest@.len() + reversed@.len() == n,
            n == fresh.len(),
            rest@ == fresh.take(rest@.len() as int),
            forall|k: int|
                0 <= k < reversed@.len() ==> (#[trigger] reversed@[k])@ == carried(
                    views(known@),
                    fresh[n - 1 - k]@,
                ),
        decreases rest@.len(),
    {
        let record = rest.pop().unwrap();
        reversed.push(carry_history(known, record));
    }
    let ghost turned = reversed@;
    let mut rows: Vec<BrtProcess> = Vec::new();
    while reversed.len() > 0
        invariant
            reversed@.len() + rows@.len() == n,
            n == fresh.len(),
            turned.len() == n,
            reversed@ == turned.take(reversed@.len() as int),
            forall|k: int|
                0 <= k < n ==> (#[trigger] turned[k])@ == carried(views(known@), fresh[n - 1 - k]@),
            forall|k: int|
                0 <= k < rows@.len() ==> (#[trigger] rows@[k])@ == carried(
                    views(known@),
                    fresh[k]@,
                ),
        decreases reversed@.len(),
    {
        let ghost at = reversed@.len() - 1;
        let record = reversed.pop().unwrap();
        assert(record == turned[at]);
        rows.push(record);
    }
    assert(views(rows@) =~= merged(views(known@), views(fresh)));
    rows
}

} // verus!
