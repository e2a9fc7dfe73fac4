//! The sort keys of the process table, arranged in a cycle.

use vstd::prelude::*;
use vstd::string::*;

verus! {

/// The key by which the table is sorted.
#[derive(Copy, Clone, PartialEq, Eq, Structural, Debug)]
pub enum Order {
    Pid,
    Name,
    Command,
    NumberOfThreads,
    Cpu,
}

/// The key that follows `order` in the cycle.
pub open spec fn successor(order: Order) -> Order {
    match order {
        Order::Pid => Order::Name,
        Order::Name => Order::Command,
        Order::Command => Order::NumberOfThreads,
        Order::NumberOfThreads => Order::Cpu,
        Order::Cpu => Order::Pid,
    }
}

/// The key that comes before `order` in the cycle.
pub open spec fn predecessor(order: Order) -> Order {
    match order {
        Order::Pid => Order::Cpu,
        Order::Cpu => Order::NumberOfThreads,
        Order::NumberOfThreads => Order::Command,
        Order::Command => Order::Name,
        Order::Name => Order::Pid,
    }
}

/// The key reached from `order` by `n` steps forward.
pub open spec fn advanced(order: Order, n: nat) -> Order
    decreases n,
{
    if n == 0 {
        order
    } else {
        successor(advanced(order, (n - 1) as nat))
    }
}

/// The name under which a key is shown.
pub open spec fn label_text(order: Order) -> Seq<char> {
    match order {
        Order::Pid => "pid"@,
        Order::Name => "name"@,
        Order::Command => "command"@,
        Order::NumberOfThreads => "threads"@,
        Order::Cpu => "cpu"@,
    }
}

impl Order {
    /// Steps forward in the cycle.
    pub fn next(&self) -> (order: Order)
        ensures
            order == successor(*self),
    {
        match *self {
            Order::Pid => Order::Name,
            Order::Name => Order::Command,
            Order::Command => Order::NumberOfThreads,
            Order::NumberOfThreads => Order::Cpu,
            Order::Cpu => Order::Pid,
        }
    }

    /// Steps backward in the cycle.
    pub fn previous(&self) -> (order: Order)
        ensures
            order == predecessor(*self),
    {
        match *self {
            Order::Pid => Order::Cpu,
            Order::Cpu => Order::NumberOfThreads,
            Order::NumberOfThreads => Order::Command,
            Order::Command => Order::Name,
            Order::Name => Order::Pid,
        }
    }

    /// The name under which the key is shown.
    pub fn label(&self) -> (label: &'static str)
        ensures
            label@ == label_text(*self),
    {
        match *self {
            Order::Pid => "pid",
            Order::Name => "name",
            Order::Command => "command",
            Order::NumberOfThreads => "threads",
            Order::Cpu => "cpu",
        }
    }
}

impl Default for Order {
    fn default() -> (order: Order)
        ensures
            order == Order::Pid,
    {
        Order::Pid
    }
}

/// Stepping forward and stepping backward undo each other.
pub proof fn lemma_next_previous_inverse(order: Order)
    ensures
        predecessor(successor(order)) == order,
        successor(predecessor(order)) == order,
{
}

/// The keys form one cycle of length five: five steps forward lead back to
/// the start, and fewer steps never do.
pub proof fn lemma_order_cycle(order: Order, n: nat)
    ensures
        advanced(order, 5) == order,
        0 < n < 5 ==> advanced(order, n) != order,
{
    reveal_with_fuel(advanced, 6);
}

} // verus!
