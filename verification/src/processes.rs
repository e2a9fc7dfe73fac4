//! The process table together with the height of the area it is shown in.

use crate::action::Action;
use crate::channel::RefreshChannel;
use crate::model::BrtProcess;
use crate::process::pending_after;
use crate::process::Process;
use vstd::prelude::*;

verus! {

/// The table as a screen component: page commands move the selection by as
/// many rows as the screen shows.
#[derive(Debug)]
pub struct ProcessesComponent {
    pub table: Process,
    /// Number of rows that fit on the screen.
    pub height: u16,
}

impl ProcessesComponent {
    /// Whether the table is consistent.
    pub open spec fn wf(&self) -> bool {
        self.table.wf()
    }

    /// Whether `self` is `before` after `action`, where `pending` is what
    /// waited in the channel: a page command moves the selection by the
    /// height of the screen, and every other event acts on the table as it
    /// does without a screen.
    pub open spec fn is_update_of(
        &self,
        before: ProcessesComponent,
        action: Action,
        pending: Option<Vec<BrtProcess>>,
    ) -> bool {
        &&& self.height == before.height
        &&& match action {
            Action::PageUp => self.table.is_jump_of(before.table, -(before.height as int)),
            Action::PageDown => self.table.is_jump_of(before.table, before.height as int),
            _ => self.table.is_update_of(before.table, action, pending),
        }
    }

    /// A component over a table, for a screen of `height` rows.
    pub fn new(table: Process, height: u16) -> (component: ProcessesComponent)
        ensures
            component.table == table,
            component.height == height,
    {
        ProcessesComponent { table, height }
    }

    /// Records the number of rows that fit on the screen.
    pub fn set_height(&mut self, height: u16)
        ensures
            final(self).table == old(self).table,
            final(self).height == height,
    {
        self.height = height;
    }

    /// Moves the selection by `steps` rows with wrap-around. On a table
    /// without rows nothing happens.
    pub fn jump(&mut self, steps: i64)
        ensures
            old(self).wf() ==> final(self).wf(),
            final(self).height == old(self).height,
            final(self).table.is_jump_of(old(self).table, steps as int),
            old(self).wf() && old(self).table.processes@.len() == 0 ==> *final(self) == *old(self),
    {
        self.table.jump(steps);
    }

    /// Applies one event to the component.
    pub fn update(&mut self, action: Action, channel: &mut RefreshChannel)
        ensures
            old(self).wf() ==> final(self).wf(),
            final(self).is_update_of(*old(self), action, old(channel).pending),
            final(channel).pending == pending_after(action, old(channel).pending),
    {
        match action {
            Action::PageUp => self.table.jump(-(self.height as i64)),
            Action::PageDown => self.table.jump(self.height as i64),
            other => self.table.update(other, channel),
        }
    }
}

} // verus!
