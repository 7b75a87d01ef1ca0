//! The first form of the controller: it keeps the next action and the dialog
//! that is shown.
use vstd::prelude::*;

verus! {

/// What the user asked for.
pub enum Action {
    Idle,
    ShowAbout,
    StartChangeFile,
    SwitchToKnownFile(usize),
    SwitchToNewFile(String),
    StartChangePassword,
    FinalizeChangePassword { old: String, new: String },
    SwitchToActionable,
    StartFilter,
    StartChangeLanguage,
    FinalizeChangeLanguage,
    StartAdd,
    FinalizeAdd,
    StartModify(usize, String),
    FinalizeModify,
    StartDelete(String),
    FinalizeDelete(String),
    Cancel,
}

/// The dialog that is shown.
#[derive(Debug, Clone, Copy, PartialEq, Eq, Structural)]
pub enum PlModal {
    Closed,
    CreateBundle,
    DeleteBundle,
    About,
    ChangePassword,
    ChangeFile,
    ChangeLanguage,
}

/// Keeps the next action to be taken and the dialog to be shown.
pub struct Controller {
    next_action: Action,
    current_modal: PlModal,
}

impl Controller {
    /// The action to be taken next.
    pub closed spec fn pending(&self) -> Action {
        self.next_action
    }

    /// The dialog to be shown.
    pub closed spec fn modal(&self) -> PlModal {
        self.current_modal
    }

    /// Nothing to do, no dialog.
    pub fn new() -> (c: Self)
        ensures
            c.pending() is Idle,
            c.modal() == PlModal::Closed,
    {
        Controller { next_action: Action::Idle, current_modal: PlModal::Closed }
    }

    /// Sets the action to be taken next.
    pub fn set_action(&mut self, action: Action)
        ensures
            final(self).pending() == action,
            final(self).modal() == old(self).modal(),
    {
        self.next_action = action;
    }

    /// The dialog to be shown.
    pub fn current_modal(&self) -> (r: &PlModal)
        ensures
            *r == self.modal(),
    {
        &self.current_modal
    }
}


/// The last action set wins: setting `first` and then `second` leaves the
/// controller as setting `second` alone does, and setting an action changes
/// nothing but the pending action.
pub proof fn law_last_action_wins(c: Controller, after_first: Controller, after_both: Controller, after_second: Controller, first: Action, second: Action)
    requires
        after_first.pending() == first && after_first.modal() == c.modal(),
        after_both.pending() == second && after_both.modal() == after_first.modal(),
        after_second.pending() == second && after_second.modal() == c.modal(),
    ensures
        after_both == after_second,
        after_both.modal() == c.modal(),
{
}
} // verus!
