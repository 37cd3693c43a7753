//! The deletion confirmation workflow: a modal state machine that captures a
//! snapshot of the canonical collection together with the targeted record,
//! tracks a binary yes/no cursor, and on an explicit confirmation hands the
//! caller the collection with exactly that record removed, for persisting.
//! Cancelling or dismissing leaves the collection untouched.

use vstd::prelude::*;

use crate::searchable::{clone_items, SearchableItem};

verus! {

/// The key events that drive the workflow; the caller maps its real key
/// codes onto these.
#[derive(Clone, Copy, Debug)]
pub enum PopupKey {
    Enter,
    Esc,
    Left,
    Right,
    Other,
}

/// What the owning event loop should do with a key event after the popup saw
/// it: stop here, or keep processing it.
#[derive(Clone, Copy, Debug, PartialEq, Eq)]
pub enum AppKeyAction {
    Handled,
    Continue,
}

/// The state captured when the workflow is shown: a full snapshot of the
/// canonical collection, the canonical index targeted for deletion, and the
/// record at that index.  The workflow commits against this snapshot and
/// never re-reads the live collection.
pub struct ShowData<T> {
    hosts: Vec<T>,
    host_to_delete_index: usize,
    host_to_delete: T,
}

impl<T> ShowData<T> {
    /// The captured collection.
    pub closed spec fn snapshot(&self) -> Seq<T> {
        self.hosts@
    }

    /// The canonical index targeted for deletion, valid against the snapshot.
    pub closed spec fn target_index(&self) -> int {
        self.host_to_delete_index as int
    }

    /// The record targeted for deletion.
    pub closed spec fn target(&self) -> T {
        self.host_to_delete
    }

    /// The target index points into the snapshot, at the targeted record.
    pub open spec fn wf(&self) -> bool {
        0 <= self.target_index() < self.snapshot().len() && self.snapshot()[self.target_index()]
            == self.target()
    }

    /// Capture a deletion target; the index must be valid against the
    /// snapshot being captured, not against any later state.
    pub fn new(hosts: Vec<T>, host_to_delete_index: usize, host_to_delete: T) -> (r: Self)
        requires
            host_to_delete_index < hosts@.len(),
            hosts@[host_to_delete_index as int] == host_to_delete,
        ensures
            r.snapshot() == hosts@,
            r.target_index() == host_to_delete_index as int,
            r.target() == host_to_delete,
            r.wf(),
    {
        Self { hosts, host_to_delete_index, host_to_delete }
    }
}

/// The collection the key handler reads and, on a confirmed deletion,
/// overwrites with the new canonical collection.
pub struct OnKeyPressData<T> {
    pub hosts: Vec<T>,
}

impl<T> OnKeyPressData<T> {
    pub fn new(hosts: Vec<T>) -> (r: Self)
        ensures
            r.hosts == hosts,
    {
        Self { hosts }
    }
}

/// The modal confirmation popup.  Inactive until shown; while awaiting
/// confirmation it owns its snapshot and a cursor over the two buttons,
/// confirm (the default) and cancel.
pub struct DeletePopupWindow<T> {
    is_active: bool,
    selected_button_index: usize,
    show_data: Option<ShowData<T>>,
}

impl<T> DeletePopupWindow<T> {
    /// Whether the workflow is awaiting confirmation.
    pub closed spec fn active(&self) -> bool {
        self.is_active
    }

    /// Whether the cursor rests on the confirming button.
    pub closed spec fn confirm_selected(&self) -> bool {
        self.selected_button_index == 0
    }

    /// Whether a deletion target has been captured.
    pub closed spec fn has_target(&self) -> bool {
        self.show_data is Some
    }

    /// The captured snapshot of the canonical collection.
    pub closed spec fn snapshot(&self) -> Seq<T> {
        match self.show_data {
            Some(d) => d.snapshot(),
            None => Seq::empty(),
        }
    }

    /// The captured target index.
    pub closed spec fn target_index(&self) -> int {
        match self.show_data {
            Some(d) => d.target_index(),
            None => 0,
        }
    }

    /// The captured target record.
    pub closed spec fn target(&self) -> T {
        match self.show_data {
            Some(d) => d.target(),
            None => vstd::pervasive::arbitrary(),
        }
    }

    /// The cursor is one of the two buttons, and any captured target is valid
    /// against its snapshot.
    pub closed spec fn wf(&self) -> bool {
        self.selected_button_index <= 1 && (self.show_data matches Some(d) ==> d.wf())
    }

    pub fn is_active(&self) -> (r: bool)
        ensures
            r == self.active(),
    {
        self.is_active
    }

    /// Whether the cursor rests on the confirming button, for the renderer to
    /// highlight it.
    pub fn confirm_is_selected(&self) -> (r: bool)
        ensures
            r == self.confirm_selected(),
    {
        self.selected_button_index == 0
    }

    /// Enter the awaiting-confirmation state, capturing the snapshot and the
    /// target.  The cursor keeps its previous position.
    pub fn show(&mut self, data: ShowData<T>)
        requires
            data.wf(),
            old(self).wf(),
        ensures
            final(self).wf(),
            final(self).active(),
            final(self).has_target(),
            final(self).snapshot() == data.snapshot(),
            final(self).target_index() == data.target_index(),
            final(self).target() == data.target(),
            final(self).confirm_selected() == old(self).confirm_selected(),
    {
        self.show_data = Some(data);
        self.is_active = true;
    }

    /// Leave the awaiting-confirmation state; the captured data stays until
    /// the next `show`.
    pub fn deactivate(&mut self)
        ensures
            final(self).wf() == old(self).wf(),
            !final(self).active(),
            final(self).has_target() == old(self).has_target(),
            final(self).snapshot() == old(self).snapshot(),
            final(self).target_index() == old(self).target_index(),
            final(self).target() == old(self).target(),
            final(self).confirm_selected() == old(self).confirm_selected(),
    {
        self.is_active = false;
    }

    /// Flip between active and inactive without touching anything else.
    pub fn toggle(&mut self)
        ensures
            final(self).wf() == old(self).wf(),
            final(self).active() == !old(self).active(),
            final(self).has_target() == old(self).has_target(),
            final(self).snapshot() == old(self).snapshot(),
            final(self).target_index() == old(self).target_index(),
            final(self).target() == old(self).target(),
            final(self).confirm_selected() == old(self).confirm_selected(),
    {
        self.is_active = !self.is_active;
    }

    /// Move the cursor to the cancelling button.
    pub fn next(&mut self)
        ensures
            old(self).wf() ==> final(self).wf(),
            !final(self).confirm_selected(),
            final(self).active() == old(self).active(),
            final(self).has_target() == old(self).has_target(),
            final(self).snapshot() == old(self).snapshot(),
            final(self).target_index() == old(self).target_index(),
            final(self).target() == old(self).target(),
    {
        self.selected_button_index = 1;
    }

    /// Move the cursor to the confirming button.
    pub fn previous(&mut self)
        ensures
            old(self).wf() ==> final(self).wf(),
            final(self).confirm_selected(),
            final(self).active() == old(self).active(),
            final(self).has_target() == old(self).has_target(),
            final(self).snapshot() == old(self).snapshot(),
            final(self).target_index() == old(self).target_index(),
            final(self).target() == old(self).target(),
    {
        self.selected_button_index = 0;
    }
}

impl<T: SearchableItem> DeletePopupWindow<T> {
    /// Drive the workflow with one key event.
    ///
    /// Enter with the cursor on confirm removes exactly the captured target
    /// from the captured snapshot, preserving the order of every other
    /// record: the new collection overwrites `data.hosts` and a copy of it is
    /// returned for the caller to hand to the persistence collaborator.
    /// Enter with the cursor on cancel, and escape, deactivate the workflow
    /// and leave the collection untouched; left and right move the cursor
    /// while the workflow is active; any other key is passed through.
    pub fn on_key_press(&mut self, key: PopupKey, data: &mut OnKeyPressData<T>) -> (r: (
        AppKeyAction,
        Option<Vec<T>>,
    ))
        requires
            old(self).wf(),
            key is Enter && old(self).confirm_selected() ==> old(self).has_target(),
        ensures
            final(self).wf(),
            final(self).has_target() == old(self).has_target(),
            final(self).snapshot() == old(self).snapshot(),
            final(self).target_index() == old(self).target_index(),
            final(self).target() == old(self).target(),
            match key {
                PopupKey::Enter => (if old(self).confirm_selected() {
                    &&& !final(self).active()
                    &&& final(self).confirm_selected()
                    &&& final(data).hosts@ == old(self).snapshot().remove(old(self).target_index())
                    &&& r.0 == AppKeyAction::Handled
                    &&& r.1 matches Some(v) && v@ == old(self).snapshot().remove(
                        old(self).target_index(),
                    )
                } else {
                    &&& !final(self).active()
                    &&& final(self).confirm_selected() == old(self).confirm_selected()
                    &&& *final(data) == *old(data)
                    &&& r.0 == AppKeyAction::Continue
                    &&& r.1 is None
                }),
                PopupKey::Esc => {
                    &&& !final(self).active()
                    &&& final(self).confirm_selected() == old(self).confirm_selected()
                    &&& *final(data) == *old(data)
                    &&& r.0 == AppKeyAction::Handled
                    &&& r.1 is None
                },
                PopupKey::Left => {
                    &&& final(self).active() == old(self).active()
                    &&& final(self).confirm_selected() == (old(self).active()
                        || old(self).confirm_selected())
                    &&& *final(data) == *old(data)
                    &&& r.0 == AppKeyAction::Handled
                    &&& r.1 is None
                },
                PopupKey::Right => {
                    &&& final(self).active() == old(self).active()
                    &&& final(self).confirm_selected() == (!old(self).active()
                        && old(self).confirm_selected())
                    &&& *final(data) == *old(data)
                    &&& r.0 == AppKeyAction::Handled
                    &&& r.1 is None
                },
                PopupKey::Other => {
                    &&& *final(self) == *old(self)
                    &&& *final(data) == *old(data)
                    &&& r.0 == AppKeyAction::Continue
                    &&& r.1 is None
                },
            },
    {
        match key {
            PopupKey::Enter => {
                if self.selected_button_index == 1 {
                    self.deactivate();
                    return (AppKeyAction::Continue, None);
                }
                let show_data = self.show_data.as_ref().unwrap();
                let n = show_data.hosts.len();
                let target = show_data.host_to_delete_index;
                let mut new_hosts: Vec<T> = Vec::new();
                let mut i: usize = 0;
                while i < n
                    invariant
                        i <= n,
                        n == show_data.hosts@.len(),
                        target == show_data.host_to_delete_index,
                        target < n,
                        i <= target ==> new_hosts@ == show_data.hosts@.take(i as int),
                        i > target ==> new_hosts@ == show_data.hosts@.take(i as int).remove(
                            target as int,
                        ),
                    decreases n - i,
                {
                    if i != target {
                        new_hosts.push(show_data.hosts[i].duplicate());
                    }
                    proof {
                        let h = show_data.hosts@;
                        assert(h.take(i as int + 1) =~= h.take(i as int).push(h[i as int]));
                        if i == target {
                            assert(h.take(i as int + 1).remove(target as int) =~= h.take(i as int));
                        } else if i > target {
                            assert(h.take(i as int + 1).remove(target as int) =~= h.take(
                                i as int,
                            ).remove(target as int).push(h[i as int]));
                        }
                    }
                    i += 1;
                }
                proof {
                    assert(show_data.hosts@.take(n as int) =~= show_data.hosts@);
                }
                let to_save = clone_items(&new_hosts);
                data.hosts = new_hosts;
                self.deactivate();
                (AppKeyAction::Handled, Some(to_save))
            },
            PopupKey::Esc => {
                self.deactivate();
                (AppKeyAction::Handled, None)
            },
            PopupKey::Left => {
                if self.is_active() {
                    self.previous();
                }
                (AppKeyAction::Handled, None)
            },
            PopupKey::Right => {
                if self.is_active() {
                    self.next();
                }
                (AppKeyAction::Handled, None)
            },
            PopupKey::Other => (AppKeyAction::Continue, None),
        }
    }
}

impl<T> Default for DeletePopupWindow<T> {
    /// The workflow starts inactive, with no captured target, and with the
    /// cursor on the confirming button.
    fn default() -> (r: Self)
        ensures
            !r.active(),
            !r.has_target(),
            r.confirm_selected(),
            r.wf(),
    {
        DeletePopupWindow { is_active: false, selected_button_index: 0, show_data: None }
    }
}

} // verus!

