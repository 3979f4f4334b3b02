//! Opening the vault on a plain terminal: which question comes next, and when
//! to give up.
use vstd::prelude::*;

use crate::app::state::{AppState, Screen};
use crate::error::{AppError, ErrorView};
use crate::text::owned;
use crate::tui::{Key, KeyCode, UnlockMode};

verus! {

/// How many times a wrong answer is asked for again before giving up, so that
/// an invocation without a person behind it cannot go on forever.
pub const MAX_TRIES: usize = 3;

/// What to ask next.
#[derive(Clone, Copy, Debug, PartialEq, Eq, Structural)]
pub enum Question {
    Password,
    /// The code of the everyday unlock.
    DailyCode,
    /// The code behind the password.
    SecondFactor,
}

/// What an application's state calls for on a plain terminal.
pub enum Prompting {
    /// The vault is open, past any second factor.
    Open,
    Ask(Question),
    /// There is no answer to give on a terminal.
    Refuse(AppError),
}

/// The refusal for a vault of the retired mode.
pub open spec fn conversion_text() -> Seq<char> {
    "this vault still uses the old TOTP-only mode and has to be converted first \u{2014} run ssh-control with no arguments"@
}

/// The refusal where there is no vault.
pub open spec fn no_vault_text() -> Seq<char> {
    "no vault here yet \u{2014} run ssh-control with no arguments to create one"@
}

/// The refusal for a vault that this machine cannot open.
pub open spec fn no_device_text() -> Seq<char> {
    "this vault's device key is not on this machine, and it has no recovery password"@
}

/// Whether the second factor is being asked for.
pub open spec fn at_second_factor(state: AppState) -> bool {
    state matches AppState::Unlocked(u) && u.screen is TotpPrompt
}

/// What a state calls for: `Ok` with a question, or with none where the vault
/// is open.
pub open spec fn prompting_of(state: AppState) -> Result<Option<Question>, ErrorView> {
    match state {
        AppState::Unlocked(_) => Ok(
            if at_second_factor(state) {
                Some(Question::SecondFactor)
            } else {
                None
            },
        ),
        AppState::Locked(u) => if u.mode == UnlockMode::MigrateTotpOnly {
            Err(ErrorView::Cli(conversion_text()))
        } else {
            Ok(Some(Question::Password))
        },
        AppState::LockedTotpDaily(_) => Ok(Some(Question::DailyCode)),
        AppState::Setup(_) => Err(ErrorView::Cli(no_vault_text())),
        AppState::Unopenable => Err(ErrorView::Cli(no_device_text())),
        AppState::CannotOpen { message, .. } => Err(ErrorView::Cli(message@)),
    }
}

impl Prompting {
    /// What it stands for.
    pub open spec fn view(self) -> Result<Option<Question>, ErrorView> {
        match self {
            Prompting::Open => Ok(None),
            Prompting::Ask(q) => Ok(Some(q)),
            Prompting::Refuse(e) => Err(e@),
        }
    }
}

/// What a state calls for. A vault that does not exist yet, one of the retired
/// mode and one that this machine cannot open are refused: half a vault is the
/// one outcome worth refusing.
pub fn next_question(state: &AppState) -> (r: Prompting)
    ensures
        r@ == prompting_of(*state),
{
    match state {
        AppState::Unlocked(u) => match &u.screen {
            Screen::TotpPrompt(_) => Prompting::Ask(Question::SecondFactor),
            _ => Prompting::Open,
        },
        AppState::Locked(u) => if u.mode == UnlockMode::MigrateTotpOnly {
            Prompting::Refuse(
                AppError::Cli(
                    owned(
                        "this vault still uses the old TOTP-only mode and has to be converted first \u{2014} run ssh-control with no arguments",
                    ),
                ),
            )
        } else {
            Prompting::Ask(Question::Password)
        },
        AppState::LockedTotpDaily(_) => Prompting::Ask(Question::DailyCode),
        AppState::Setup(_) => Prompting::Refuse(
            AppError::Cli(owned("no vault here yet \u{2014} run ssh-control with no arguments to create one")),
        ),
        AppState::Unopenable => Prompting::Refuse(
            AppError::Cli(
                owned("this vault's device key is not on this machine, and it has no recovery password"),
            ),
        ),
        AppState::CannotOpen { message, .. } => Prompting::Refuse(AppError::Cli(owned(*message))),
    }
}

impl Question {
    /// What stands before the answer.
    pub fn label(self) -> (r: &'static str)
        ensures
            r@ == (match self {
                Question::Password => "Password"@,
                _ => "Authenticator code"@,
            }),
    {
        match self {
            Question::Password => "Password",
            _ => "Authenticator code",
        }
    }
}

/// The error of an answer that was not given.
pub fn cancelled() -> (r: AppError)
    ensures
        r@ == ErrorView::Cli("cancelled"@),
{
    AppError::Cli(owned("cancelled"))
}

/// What went wrong with an answer, as the state behind it shows: what to say,
/// and what to give up with. A wrong daily code that led to the password screen
/// is no failure here: the next question follows the state.
pub open spec fn complaint(asked: Question, state: AppState) -> Option<(Seq<char>, Seq<char>)> {
    match asked {
        Question::SecondFactor => if at_second_factor(state) {
            Some(("incorrect code"@, "too many incorrect codes"@))
        } else {
            None
        },
        Question::Password => match state {
            AppState::Locked(u) => match u.error {
                Some(text) => Some((text@, text@)),
                None => None,
            },
            _ => None,
        },
        Question::DailyCode => match state {
            AppState::LockedTotpDaily(u) => match u.error {
                Some(text) => Some((text@, text@)),
                None => None,
            },
            _ => None,
        },
    }
}

/// The answers given so far.
pub struct Attempts {
    /// Answers that were wrong, fewer than `MAX_TRIES`.
    pub tries: usize,
}

impl Attempts {
    pub fn new() -> (r: Self)
        ensures
            r.tries == 0,
    {
        Attempts { tries: 0 }
    }

    /// Takes in the state behind an answer. What comes back is said before the
    /// next question.
    pub fn answered(&mut self, asked: Question, state: &AppState) -> (r: Result<Option<String>, AppError>)
        requires
            old(self).tries < MAX_TRIES,
        ensures
            match complaint(asked, *state) {
                None => r matches Ok(None) && final(self).tries == old(self).tries,
                Some((say, give_up)) => {
                    &&& final(self).tries == old(self).tries + 1
                    &&& match r {
                        Ok(said) => final(self).tries < MAX_TRIES && (said matches Some(text) && text@ == say),
                        Err(e) => final(self).tries == MAX_TRIES && e@ == ErrorView::Cli(give_up),
                    }
                },
            },
    {
        let found: Option<(String, String)> = match asked {
            Question::SecondFactor => match state {
                AppState::Unlocked(u) => match &u.screen {
                    Screen::TotpPrompt(_) => Some((owned("incorrect code"), owned("too many incorrect codes"))),
                    _ => None,
                },
                _ => None,
            },
            Question::Password => match state {
                AppState::Locked(u) => match &u.error {
                    Some(text) => Some((text.clone(), text.clone())),
                    None => None,
                },
                _ => None,
            },
            Question::DailyCode => match state {
                AppState::LockedTotpDaily(u) => match &u.error {
                    Some(text) => Some((text.clone(), text.clone())),
                    None => None,
                },
                _ => None,
            },
        };
        match found {
            None => Ok(None),
            Some((say, give_up)) => {
                self.tries = self.tries + 1;
                if self.tries >= MAX_TRIES {
                    Err(AppError::Cli(give_up))
                } else {
                    Ok(Some(say))
                }
            },
        }
    }
}

/// What a key does to an answer that is being typed.
#[derive(Clone, Copy, Debug, PartialEq, Eq, Structural)]
pub enum Typing {
    More,
    Done,
    Cancelled,
}

/// What a key does to an answer that is being typed.
pub open spec fn typed(text: Seq<char>, key: Key) -> (Typing, Seq<char>) {
    match key.code {
        KeyCode::Enter => (Typing::Done, text),
        KeyCode::Esc => (Typing::Cancelled, text),
        KeyCode::Backspace => (
            Typing::More,
            if text.len() > 0 {
                text.drop_last()
            } else {
                text
            },
        ),
        KeyCode::Char(c) => if c == 'c' && key.control {
            (Typing::Cancelled, text)
        } else {
            (Typing::More, text.push(c))
        },
        KeyCode::Other => (Typing::More, text),
    }
}

/// Takes a key into an answer that is being typed.
pub fn type_key(buffer: &mut Vec<char>, key: Key) -> (r: Typing)
    ensures
        (r, final(buffer)@) == typed(old(buffer)@, key),
{
    match key.code {
        KeyCode::Enter => Typing::Done,
        KeyCode::Esc => Typing::Cancelled,
        KeyCode::Backspace => {
            let _last = buffer.pop();
            Typing::More
        },
        KeyCode::Char(c) => if c == 'c' && key.control {
            Typing::Cancelled
        } else {
            buffer.push(c);
            Typing::More
        },
        KeyCode::Other => Typing::More,
    }
}

/// What is asked on a plain terminal: the code where one is still due, the
/// password where the vault is locked, nothing where it is open; and what cannot be
/// answered there is refused.
pub proof fn the_state_tells_the_question(state: AppState)
    ensures
        state matches AppState::Unlocked(u) ==> (u.screen is TotpPrompt ==> prompting_of(state) == Ok::<
            Option<Question>,
            ErrorView,
        >(Some(Question::SecondFactor))),
        state matches AppState::Unlocked(u) ==> (!(u.screen is TotpPrompt) ==> prompting_of(state) == Ok::<
            Option<Question>,
            ErrorView,
        >(None)),
        state matches AppState::Locked(u) ==> (u.mode != UnlockMode::MigrateTotpOnly ==> prompting_of(state) == Ok::<
            Option<Question>,
            ErrorView,
        >(Some(Question::Password))),
        state matches AppState::Locked(u) ==> (u.mode == UnlockMode::MigrateTotpOnly ==> prompting_of(state) is Err),
        state is LockedTotpDaily ==> prompting_of(state) == Ok::<Option<Question>, ErrorView>(
            Some(Question::DailyCode),
        ),
        state is Setup || state is Unopenable || state is CannotOpen ==> prompting_of(state) is Err,
        state matches AppState::CannotOpen { message, .. } ==> prompting_of(state) == Err::<Option<Question>, ErrorView>(
            ErrorView::Cli(message@),
        ),
{
}

/// An answer was wrong where its own screen is still up and says so: after a
/// password the reason on the lock screen, after a code that it is incorrect.
pub proof fn a_wrong_answer_is_seen_on_its_screen(state: AppState)
    ensures
        complaint(Question::SecondFactor, state) is Some <==> (state matches AppState::Unlocked(u) && u.screen
            is TotpPrompt),
        complaint(Question::Password, state) is Some <==> (state matches AppState::Locked(u) && u.error is Some),
        complaint(Question::DailyCode, state) is Some <==> (state matches AppState::LockedTotpDaily(u) && u.error
            is Some),
        state matches AppState::Locked(u) ==> (u.error matches Some(text) ==> complaint(Question::Password, state)
            == Some((text@, text@))),
        complaint(Question::SecondFactor, state) matches Some((say, give_up)) ==> say == "incorrect code"@ && give_up
            == "too many incorrect codes"@,
{
}

/// A key that is typed adds its character, Backspace takes the last one, Enter ends
/// the answer, and Esc and Ctrl+C give up.
pub proof fn a_typed_key_edits_the_answer(text: Seq<char>, key: Key)
    ensures
        key.code == KeyCode::Enter ==> typed(text, key) == (Typing::Done, text),
        key.code == KeyCode::Esc ==> typed(text, key).0 == Typing::Cancelled,
        key.code matches KeyCode::Char(c) ==> (c == 'c' && key.control ==> typed(text, key).0 == Typing::Cancelled),
        key.code matches KeyCode::Char(c) ==> (!(c == 'c' && key.control) ==> typed(text, key) == (
            Typing::More,
            text.push(c),
        )),
        key.code == KeyCode::Backspace && text.len() > 0 ==> typed(text, key) == (Typing::More, text.drop_last()),
        key.code == KeyCode::Backspace && text.len() == 0 ==> typed(text, key) == (Typing::More, text),
{
}

/// Three wrong answers end the prompting.
pub proof fn three_answers_are_allowed()
    ensures
        MAX_TRIES == 3,
{
}

/// A wrong answer is told and counted, the third one ends the prompting; a right
/// one is not counted.
pub proof fn the_third_wrong_answer_is_the_last(
    prompt: &mut Attempts,
    asked: Question,
    state: AppState,
    r: Result<Option<String>, AppError>,
)
    requires
        old(prompt).tries < 3,
        call_ensures(Attempts::answered, (prompt, asked, &state), r),
    ensures
        complaint(asked, state) is None ==> (r matches Ok(None)) && final(prompt).tries == old(prompt).tries,
        complaint(asked, state) is Some ==> final(prompt).tries == old(prompt).tries + 1 && (r is Err <==> old(
            prompt,
        ).tries == 2),
{
}

/// A vault that is not there, one of the retired mode and one without a way in are
/// refused by their own sentences.
pub proof fn a_refusal_says_what_to_do(state: AppState)
    ensures
        state is Setup ==> prompting_of(state) == Err::<Option<Question>, ErrorView>(
            ErrorView::Cli("no vault here yet \u{2014} run ssh-control with no arguments to create one"@),
        ),
        state is Unopenable ==> prompting_of(state) == Err::<Option<Question>, ErrorView>(
            ErrorView::Cli("this vault's device key is not on this machine, and it has no recovery password"@),
        ),
        state matches AppState::Locked(u) ==> (u.mode == UnlockMode::MigrateTotpOnly ==> prompting_of(state) == Err::<
            Option<Question>,
            ErrorView,
        >(
            ErrorView::Cli(
                "this vault still uses the old TOTP-only mode and has to be converted first \u{2014} run ssh-control with no arguments"@,
            ),
        )),
{
}

} // verus!
