//! The code behind the password: what each judgement on one leads to.
use vstd::prelude::*;

use crate::app::locked::prompt;
use crate::app::state::{locked_with, menu, says, App, AppState, Screen, UnlockedState};
use crate::app::steps::{only_screen, went_to_menu};
use crate::i18n::Strings;
use crate::text::owned;
use crate::totp::{
    an_accepted_code_is_of_a_near_step, an_accepted_step_is_newer, check_code, checked, code_at, CodeCheck, LAST_SECOND,
    STEP_SECONDS,
};
use crate::tui::UnlockMode;

verus! {

/// The later of two steps.
pub open spec fn later_step(a: u64, b: u64) -> u64 {
    if a < b {
        b
    } else {
        a
    }
}

/// The later of two steps.
pub fn max_step(a: u64, b: u64) -> (r: u64)
    ensures
        r == later_step(a, b),
{
    if a < b {
        b
    } else {
        a
    }
}

/// Whether the prompt for the second factor says that the code is wrong.
pub open spec fn code_refused(before: UnlockedState, strings: Strings, after: UnlockedState) -> bool {
    match before.screen {
        Screen::TotpPrompt(_) => only_screen(before, after) && (after.screen matches Screen::TotpPrompt(p) && says(
            p.error,
            strings.err_totp_invalid_code@,
        )),
        _ => after == before,
    }
}

/// What a judged code does at the second factor. A fresh, valid one opens the
/// server list and is spent. A wrong one may be corrected. One that was already
/// accepted leads to the password. Without a second factor there is nothing to
/// judge.
pub open spec fn second_factor(before: App, check: CodeCheck, strings: Strings, after: App) -> bool {
    match before.state {
        AppState::Unlocked(u) => if u.config.totp is None {
            &&& after == (App { state: after.state, ..before })
            &&& after.state matches AppState::Unlocked(v) && went_to_menu(u, v)
        } else {
            match check {
                CodeCheck::Accepted(step) => {
                    &&& after == (App {
                        state: after.state,
                        last_code_step: later_step(before.last_code_step, step),
                        ..before
                    })
                    &&& after.state matches AppState::Unlocked(v) && went_to_menu(u, v)
                },
                CodeCheck::Invalid => {
                    &&& after == (App { state: after.state, ..before })
                    &&& after.state matches AppState::Unlocked(v) && code_refused(u, strings, v)
                },
                CodeCheck::Replayed => {
                    &&& after == (App { state: after.state, ..before })
                    &&& if u.screen is TotpPrompt {
                        locked_with(after.state, UnlockMode::Unlock, Some(strings.err_totp_replayed@))
                    } else {
                        after.state == before.state
                    }
                },
            }
        },
        _ => after == before,
    }
}

/// Whether a code for the second factor was judged, by the clock and by the last
/// code that was accepted, and what follows was done.
pub open spec fn code_submitted(before: App, code: Seq<char>, strings: Strings, after: App) -> bool {
    match before.state {
        AppState::Unlocked(u) => match u.config.totp {
            None => second_factor(before, CodeCheck::Invalid, strings, after),
            Some(totp) => exists|check: CodeCheck| #[trigger]
                second_factor(before, check, strings, after) && (check is Invalid || exists|now: u64|
                    now <= LAST_SECOND && check == #[trigger] checked(
                        totp.secret_base32@,
                        code,
                        before.last_code_step,
                        now,
                    )),
        },
        _ => after == before,
    }
}

impl App {
    /// Takes in the judgement on a code for the second factor.
    pub fn second_factor_judged(&mut self, check: CodeCheck, strings: &Strings)
        requires
            old(self).wf(),
        ensures
            final(self).wf(),
            second_factor(*old(self), check, *strings, *final(self)),
    {
        let mut replayed: bool = false;
        if let AppState::Unlocked(u) = &mut self.state {
            if u.config.totp.is_none() {
                u.screen = menu();
                return;
            }
            match check {
                CodeCheck::Accepted(step) => {
                    u.screen = menu();
                    self.last_code_step = max_step(self.last_code_step, step);
                },
                CodeCheck::Invalid => {
                    if let Screen::TotpPrompt(state) = &mut u.screen {
                        state.error = Some(owned(strings.err_totp_invalid_code));
                    }
                },
                CodeCheck::Replayed => {
                    if let Screen::TotpPrompt(_) = &u.screen {
                        replayed = true;
                    }
                },
            }
        }
        // A code that was already accepted is not a typo.
        if replayed {
            self.relocked(prompt(UnlockMode::Unlock, Some(owned(strings.err_totp_replayed))));
        }
    }

    /// Checks a code for the second factor.
    pub fn verify_totp_prompt(&mut self, code: &str, strings: &Strings)
        requires
            old(self).wf(),
        ensures
            final(self).wf(),
            code_submitted(*old(self), code@, *strings, *final(self)),
    {
        let check = match &self.state {
            AppState::Unlocked(u) => match &u.config.totp {
                Some(totp) => check_code(totp.secret_base32.as_str(), code, self.last_code_step),
                None => CodeCheck::Invalid,
            },
            _ => return,
        };
        self.second_factor_judged(check, strings);
    }
}

/// A wrong code leaves the second factor in place: the server list stays out of
/// reach.
pub proof fn a_wrong_code_stays_at_the_second_factor(before: App, strings: Strings, after: App)
    requires
        before.state matches AppState::Unlocked(u) && u.screen is TotpPrompt && u.config.totp is Some,
        second_factor(before, CodeCheck::Invalid, strings, after),
    ensures
        before.state matches AppState::Unlocked(u) && (after.state matches AppState::Unlocked(v) && v.screen is TotpPrompt
            && v.config == u.config),
        after.last_code_step == before.last_code_step,
{
}

/// A code is accepted once. After it let the user in, whatever is locked and
/// opened again in between, the same code does not open the server list at the
/// second factor, unless it happens to be the code of a newer step too. Inside
/// its window it is a replay, and leads to the password.
pub proof fn a_code_passes_the_second_factor_once(
    before: App,
    after: App,
    again: App,
    end: App,
    secret: Seq<char>,
    code: Seq<char>,
    now: u64,
    later: u64,
    strings: Strings,
)
    requires
        now <= LAST_SECOND,
        later <= LAST_SECOND,
        before.state matches AppState::Unlocked(u) && (u.config.totp matches Some(t) && t.secret_base32@ == secret),
        checked(secret, code, before.last_code_step, now) is Accepted,
        second_factor(before, checked(secret, code, before.last_code_step, now), strings, after),
        again.last_code_step >= after.last_code_step,
        again.state matches AppState::Unlocked(u) && u.screen is TotpPrompt && (u.config.totp matches Some(t)
            && t.secret_base32@ == secret),
        forall|s: int|
            after.last_code_step < s <= later / STEP_SECONDS + 1 ==> #[trigger] code_at(secret, s) != code,
        second_factor(again, checked(secret, code, again.last_code_step, later), strings, end),
    ensures
        !(end.state matches AppState::Unlocked(v) && v.screen is MainMenu),
        checked(secret, code, again.last_code_step, later) is Replayed ==> locked_with(
            end.state,
            UnlockMode::Unlock,
            Some(strings.err_totp_replayed@),
        ),
        end.last_code_step == again.last_code_step,
{
    if let CodeCheck::Accepted(step) = checked(secret, code, again.last_code_step, later) {
        an_accepted_step_is_newer(secret, code, again.last_code_step, later);
        an_accepted_code_is_of_a_near_step(secret, code, again.last_code_step, step, later);
        assert(code_at(secret, step as int) != code);
    }
}

} // verus!
