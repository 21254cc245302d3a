//! The application shell around the view model: the plain-value key inputs
//! the interactive loop understands, the signals they raise, the dispatch
//! of signals into state transitions, and the status labels the renderer
//! prints.
use vstd::prelude::*;

use crate::branch::BCBranch;
use crate::branch::PrStatus;
use crate::model::unique_names;
use crate::store::BranchStore;
use crate::view_model::delete_rel;
use crate::view_model::move_down_rel;
use crate::view_model::move_up_rel;
use crate::view_model::toggle_rel;
use crate::view_model::BranchViewModel;
use crate::view_model::ViewState;

verus! {

/// User actions that trigger state changes, one per key binding.
#[derive(Debug, Clone, Copy, PartialEq, Eq, Structural, Default)]
pub enum AppSignal {
    #[default]
    Noop,
    MoveUp,
    MoveDown,
    ToggleSelection,
    DeleteSelected,
}

/// A key press, reduced to the plain values the core decides on.
#[derive(Debug, Clone, Copy, PartialEq, Eq, Structural)]
pub enum InputKey {
    Up,
    Down,
    Char(char),
}

/// What the event loop does with one key press.
#[derive(Debug, Clone, Copy, PartialEq, Eq, Structural)]
pub enum KeyAction {
    /// Raise a signal against the state.
    Apply(AppSignal),
    /// Leave the main event loop.
    Exit,
    /// Not a binding of this application; hand the key on.
    Propagate,
}

/// The key bindings: arrows navigate, space toggles the mark, `d` deletes
/// the marked branches, `q` quits; everything else propagates.
pub open spec fn key_action(key: InputKey) -> KeyAction {
    match key {
        InputKey::Up => KeyAction::Apply(AppSignal::MoveUp),
        InputKey::Down => KeyAction::Apply(AppSignal::MoveDown),
        InputKey::Char(c) => if c == ' ' {
            KeyAction::Apply(AppSignal::ToggleSelection)
        } else if c == 'd' {
            KeyAction::Apply(AppSignal::DeleteSelected)
        } else if c == 'q' {
            KeyAction::Exit
        } else {
            KeyAction::Propagate
        },
    }
}

/// Decide what one key press means, exactly as `key_action` states it.
pub fn map_key(key: InputKey) -> (r: KeyAction)
    ensures
        r == key_action(key),
{
    match key {
        InputKey::Up => KeyAction::Apply(AppSignal::MoveUp),
        InputKey::Down => KeyAction::Apply(AppSignal::MoveDown),
        InputKey::Char(c) => {
            if c == ' ' {
                KeyAction::Apply(AppSignal::ToggleSelection)
            } else if c == 'd' {
                KeyAction::Apply(AppSignal::DeleteSelected)
            } else if c == 'q' {
                KeyAction::Exit
            } else {
                KeyAction::Propagate
            }
        },
    }
}

/// The display label of a status.
pub open spec fn status_label(status: PrStatus) -> Seq<char> {
    match status {
        PrStatus::OPEN => "OPEN"@,
        PrStatus::MERGED => "MERGED ✓"@,
        PrStatus::CLOSED => "CLOSED"@,
        PrStatus::NONE => "No PR"@,
        PrStatus::LOADING => "Loading..."@,
    }
}

/// Format a status for display in the interface.
pub fn format_status_for_display(status: PrStatus) -> (r: &'static str)
    ensures
        r@ == status_label(status),
{
    match status {
        PrStatus::OPEN => "OPEN",
        PrStatus::MERGED => "MERGED ✓",
        PrStatus::CLOSED => "CLOSED",
        PrStatus::NONE => "No PR",
        PrStatus::LOADING => "Loading...",
    }
}

/// The application: holds the view model and folds signals into the state.
#[derive(Debug)]
pub struct BranchCleanerApp<T: BranchStore> {
    view_model: BranchViewModel<T>,
}

impl<T: BranchStore> BranchCleanerApp<T> {
    /// The records the underlying store currently holds.
    pub closed spec fn store_branches(&self) -> Seq<BCBranch> {
        self.view_model.store_branches()
    }

    /// Whether the underlying store's deletions always succeed.
    pub closed spec fn store_deletes_never_fail(&self) -> bool {
        self.view_model.store_deletes_never_fail()
    }

    /// An application over the given view model.
    pub fn new(view_model: BranchViewModel<T>) -> (r: Self)
        ensures
            r.store_branches() == view_model.store_branches(),
            r.store_deletes_never_fail() == view_model.store_deletes_never_fail(),
    {
        BranchCleanerApp { view_model }
    }

    /// Fold one signal into the state: the dispatch the event loop performs
    /// on every signal it drains. For a delete, the names whose deletion
    /// failed come back so the loop can surface them; every other signal
    /// reports none.
    pub fn handle_signal(&mut self, state: &mut ViewState, signal: &AppSignal) -> (failed: Vec<
        String,
    >)
        ensures
            match *signal {
                AppSignal::Noop => *final(state) == *old(state) && final(self).store_branches()
                    == old(self).store_branches() && failed@.len() == 0,
                AppSignal::MoveUp => move_up_rel(*old(state), *final(state))
                    && final(self).store_branches() == old(self).store_branches() && failed@.len()
                    == 0,
                AppSignal::MoveDown => move_down_rel(*old(state), *final(state))
                    && final(self).store_branches() == old(self).store_branches() && failed@.len()
                    == 0,
                AppSignal::ToggleSelection => toggle_rel(*old(state), *final(state))
                    && final(self).store_branches() == old(self).store_branches() && failed@.len()
                    == 0,
                AppSignal::DeleteSelected => delete_rel(
                    old(self).store_branches(),
                    *old(state),
                    final(self).store_branches(),
                    *final(state),
                    failed.deep_view(),
                ) && (old(self).store_deletes_never_fail() ==> failed@.len() == 0)
                    && final(self).store_deletes_never_fail()
                    == old(self).store_deletes_never_fail(),
            },
            old(state).wf() && (signal is DeleteSelected ==> unique_names(
                old(self).store_branches(),
            )) ==> final(state).wf(),
    {
        match signal {
            AppSignal::Noop => Vec::new(),
            AppSignal::MoveUp => {
                self.view_model.move_up(state);
                Vec::new()
            },
            AppSignal::MoveDown => {
                self.view_model.move_down(state);
                Vec::new()
            },
            AppSignal::ToggleSelection => {
                self.view_model.toggle_selection(state);
                Vec::new()
            },
            AppSignal::DeleteSelected => self.view_model.delete_selected_branches(state),
        }
    }
}

} // verus!
