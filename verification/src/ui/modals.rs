//! What the dialogs decide when the user confirms them: which action the
//! controller handles next, or which error the dialog shows.
use super::controller::{Action, Controller};
use super::viz::{FileSelection, Pw};
use vstd::prelude::*;

verus! {

/// Confirming the dialog that changes the password: where the new password
/// and its repetition agree, the change is requested with the current and the
/// new password; else the dialog shows `mismatch` and nothing is requested.
pub fn confirm_password_change(pw: &mut Pw, controller: &mut Controller, mismatch: String)
    ensures
        old(pw).pw2@ == old(pw).pw3@ ==> *final(pw) == *old(pw)
            && final(controller).pending() == (Action::FinalizeChangePassword {
                old: old(pw).pw1,
                new: old(pw).pw2,
            }),
        old(pw).pw2@ != old(pw).pw3@ ==> *final(pw) == (Pw { error: Some(mismatch), ..*old(pw) })
            && *final(controller) == *old(controller),
{
    if pw.pw2 == pw.pw3 {
        controller.set_action(Action::FinalizeChangePassword { old: pw.pw1.clone(), new: pw.pw2.clone() });
    } else {
        pw.error = Some(mismatch);
    }
}

/// Confirming the password that opens the file. On the first start, when the
/// file is still to be created, the password is entered twice: where the two
/// agree the file is opened, else the dialog shows `mismatch`. Otherwise the
/// file is opened with the password as entered.
pub fn confirm_password_to_open(is_first_start: bool, pw: &mut Pw, controller: &mut Controller, mismatch: String)
    ensures
        !is_first_start || old(pw).pw1@ == old(pw).pw2@ ==> *final(pw) == *old(pw)
            && final(controller).pending() == Action::SwitchToActionable,
        is_first_start && old(pw).pw1@ != old(pw).pw2@ ==> *final(pw) == (Pw {
            error: Some(mismatch),
            ..*old(pw)
        }) && *final(controller) == *old(controller),
{
    if !is_first_start || pw.pw1 == pw.pw2 {
        controller.set_action(Action::SwitchToActionable);
    } else {
        pw.error = Some(mismatch);
    }
}

/// Confirming the choice of file among `n_known` known files: a known file is
/// switched to by its index; the index past the known files stands for the
/// new path entered.
pub fn confirm_file_choice(selection: &FileSelection, n_known: usize, controller: &mut Controller)
    ensures
        selection.current < n_known ==> final(controller).pending() == Action::SwitchToKnownFile(
            selection.current,
        ),
        selection.current >= n_known ==> final(controller).pending() == Action::SwitchToNewFile(
            selection.new,
        ),
{
    if selection.current < n_known {
        controller.set_action(Action::SwitchToKnownFile(selection.current));
    } else {
        controller.set_action(Action::SwitchToNewFile(selection.new.clone()));
    }
}

} // verus!
