//! The keyboard focus, and what the input method may do with it.

use vstd::prelude::*;

use crate::auth;
use crate::screens::Screen;
use crate::text;

verus! {

/// Stable widget id of the terminal search input.
pub const TERM_SEARCH_INPUT_ID: &'static str = "term_search";
/// Stable widget id of the palette input.
pub const PALETTE_INPUT_ID: &'static str = "palette_input";
/// Stable widget id of the tab-rename input.
pub const TAB_RENAME_INPUT_ID: &'static str = "tab_rename_input";
/// Widget id of the quick-command input; autocomplete keeps focus in it.
pub const QUICK_CMD_INPUT_ID: &'static str = "quick_cmd_input";
/// Main-screen inputs outside any overlay. They carry ids so that a focus
/// query reports them.
pub const SIDEBAR_SEARCH_INPUT_ID: &'static str = "sidebar_search";
pub const LOCAL_PATH_INPUT_ID: &'static str = "local_path";
pub const REMOTE_PATH_INPUT_ID: &'static str = "remote_path";
/// Widget id of the SFTP name / mode dialog's input.
pub const SFTP_INPUT_ID: &'static str = "sftp_input";

/// Stable ids of the text inputs that always take a secret. No input method
/// may compose, show or upload what is typed into them: it is off while one
/// of them has the keyboard focus. The sign-in modal's answer fields are
/// secret only when their prompt is not echoed.
pub const SETUP_PW_INPUT_ID: &'static str = "setup_pw";
pub const SETUP_CONFIRM_INPUT_ID: &'static str = "setup_confirm";
pub const UNLOCK_PW_INPUT_ID: &'static str = "unlock_pw";
pub const CONN_PASSWORD_INPUT_ID: &'static str = "conn_password";
pub const CONN_PASSPHRASE_INPUT_ID: &'static str = "conn_passphrase";
pub const PROXY_PASSWORD_INPUT_ID: &'static str = "proxy_password";
pub const PROXY_PASSPHRASE_INPUT_ID: &'static str = "proxy_passphrase";
pub const TUNNEL_PASSWORD_INPUT_ID: &'static str = "tunnel_password";
pub const TUNNEL_PASSPHRASE_INPUT_ID: &'static str = "tunnel_passphrase";

/// One of the inputs that always take a secret.
pub open spec fn takes_secret(id: Seq<char>) -> bool {
    ||| id == SETUP_PW_INPUT_ID@
    ||| id == SETUP_CONFIRM_INPUT_ID@
    ||| id == UNLOCK_PW_INPUT_ID@
    ||| id == CONN_PASSWORD_INPUT_ID@
    ||| id == CONN_PASSPHRASE_INPUT_ID@
    ||| id == PROXY_PASSWORD_INPUT_ID@
    ||| id == PROXY_PASSPHRASE_INPUT_ID@
    ||| id == TUNNEL_PASSWORD_INPUT_ID@
    ||| id == TUNNEL_PASSPHRASE_INPUT_ID@
}

pub fn is_secret_input(id: &str) -> (r: bool)
    ensures
        r == takes_secret(id@),
{
    text::same_text(id, SETUP_PW_INPUT_ID) || text::same_text(id, SETUP_CONFIRM_INPUT_ID)
        || text::same_text(id, UNLOCK_PW_INPUT_ID) || text::same_text(id, CONN_PASSWORD_INPUT_ID)
        || text::same_text(id, CONN_PASSPHRASE_INPUT_ID) || text::same_text(id, PROXY_PASSWORD_INPUT_ID)
        || text::same_text(id, PROXY_PASSPHRASE_INPUT_ID) || text::same_text(id, TUNNEL_PASSWORD_INPUT_ID)
        || text::same_text(id, TUNNEL_PASSPHRASE_INPUT_ID)
}

/// The text input holding the keyboard focus, as the input method sees it.
#[derive(Debug, Clone, Copy, PartialEq, Eq, Structural)]
pub enum FocusedField {
    /// No text input: keys go to the terminal.
    Nothing,
    /// One that always takes a secret.
    Secret,
    /// The sign-in modal's answer field for prompt `n`.
    AuthAnswer(usize),
    /// Any other text input.
    Text,
}

/// The first of the answer fields `lo..hi` that has the id.
pub open spec fn answer_with_id(id: Seq<char>, lo: nat, hi: nat) -> Option<nat>
    decreases hi - lo,
{
    if lo >= hi {
        None
    } else if id == auth::answer_field(lo) {
        Some(lo)
    } else {
        answer_with_id(id, lo + 1, hi)
    }
}

fn find_answer(id: &str, lo: usize, hi: usize) -> (r: Option<usize>)
    ensures
        match r {
            Some(n) => answer_with_id(id@, lo as nat, hi as nat) == Some(n as nat),
            None => answer_with_id(id@, lo as nat, hi as nat) is None,
        },
{
    let mut n: usize = lo;
    while n < hi
        invariant
            lo <= n,
            lo <= hi ==> n <= hi,
            answer_with_id(id@, n as nat, hi as nat) == answer_with_id(id@, lo as nat, hi as nat),
        decreases hi - n,
    {
        let field = auth::auth_input_id(n);
        if text::same_text(id, field.as_str()) {
            return Some(n);
        }
        n += 1;
    }
    None
}

pub open spec fn answer_or_text(found: Option<nat>) -> FocusedField {
    match found {
        Some(n) => FocusedField::AuthAnswer(n as usize),
        None => FocusedField::Text,
    }
}

/// What the input with the id is.
pub open spec fn field_of(id: Option<Seq<char>>) -> FocusedField {
    match id {
        None => FocusedField::Nothing,
        Some(id) => if takes_secret(id) {
            FocusedField::Secret
        } else {
            answer_or_text(answer_with_id(id, 0, auth::AUTH_MAX_FIELDS as nat))
        },
    }
}

pub open spec fn opt_id(id: Option<String>) -> Option<Seq<char>> {
    match id {
        Some(s) => Some(s@),
        None => None,
    }
}

impl FocusedField {
    /// What the input with widget id `id` is. A focused input without an id
    /// is never reported, which is why every secret field carries one.
    pub fn of(id: Option<&str>) -> (r: FocusedField)
        ensures
            r == field_of(match id {
                Some(s) => Some(s@),
                None => None,
            }),
    {
        let id = match id {
            Some(id) => id,
            None => {
                return FocusedField::Nothing;
            },
        };
        if is_secret_input(id) {
            return FocusedField::Secret;
        }
        match find_answer(id, 0, auth::AUTH_MAX_FIELDS) {
            Some(n) => FocusedField::AuthAnswer(n),
            None => FocusedField::Text,
        }
    }
}

/// What may be composed through an input method.
pub open spec fn may_compose(screen: Screen, focused: FocusedField, prompts: Seq<(String, bool)>) -> bool {
    screen == Screen::Main && match focused {
        FocusedField::Nothing => true,
        FocusedField::Text => true,
        FocusedField::Secret => false,
        FocusedField::AuthAnswer(n) => n < prompts.len() && prompts[n as int].1,
    }
}

/// Whether the input method may be on. Never on the setup and lock screens,
/// which hold nothing but master-password fields; on the main screen unless
/// the focused field takes a secret. `auth_prompts` are the sign-in modal's
/// prompts with their echo flags: an answer the server echoes is no secret,
/// and an answer field with no prompt behind it any more counts as one.
pub fn ime_allowed(screen: &Screen, focused: FocusedField, auth_prompts: &[(String, bool)]) -> (r: bool)
    ensures
        r == may_compose(*screen, focused, auth_prompts@),
{
    if *screen != Screen::Main {
        return false;
    }
    match focused {
        FocusedField::Nothing => true,
        FocusedField::Text => true,
        FocusedField::Secret => false,
        FocusedField::AuthAnswer(n) => n < auth_prompts.len() && auth_prompts[n].1,
    }
}

/// No input method while a secret is being typed: not in a field that always
/// takes one, not in an answer that is not echoed.
pub proof fn law_the_input_method_stays_away_from_secrets(
    screen: Screen,
    id: Seq<char>,
    prompts: Seq<(String, bool)>,
)
    ensures
        takes_secret(id) ==> !may_compose(screen, field_of(Some(id)), prompts),
        forall|n: usize|
            n < prompts.len() && !(#[trigger] prompts[n as int]).1 ==> !may_compose(
                screen,
                FocusedField::AuthAnswer(n),
                prompts,
            ),
        screen != Screen::Main ==> !may_compose(screen, field_of(Some(id)), prompts),
{
}

/// Fail closed while the focus is unknown. A click on an overlay that holds a
/// secret field may just have focused it, and which field it was is known only
/// once the widget-tree query answers, a frame later. Until then the input
/// method stays off, so that no keystroke can reach a password field through
/// it. Anywhere else no secret field is on screen, and a click leaves the
/// input method alone.
pub fn focus_settled_or_no_secret_on_screen(answered: bool, secret_on_screen: bool) -> (r: bool)
    ensures
        r == (answered || !secret_on_screen),
{
    answered || !secret_on_screen
}

/// Which text input has the keyboard focus, as the app last learned it. The
/// widget tree is asked after anything that can move it: a mouse press, Tab,
/// Esc, a modal or a screen coming or going. When the app moves the focus
/// itself, the field counts at once, and the tree confirms it after.
#[derive(Debug)]
pub struct FocusTracker {
    pub field: FocusedField,
    /// The focused input's id, as `field` was read from.
    pub id: Option<String>,
    /// Queries and focus moves, numbered as they are issued.
    pub issued: u64,
    /// Answers to queries numbered up to here are stale: a later answer is
    /// in, or the app moved the focus after they were asked.
    pub settled: u64,
}

impl FocusTracker {
    /// The field is the one that the id names.
    pub open spec fn consistent(&self) -> bool {
        self.field == field_of(opt_id(self.id))
    }

    pub fn new() -> (r: FocusTracker)
        ensures
            r.field == FocusedField::Nothing,
            r.id == None::<String>,
            r.issued == 0,
            r.settled == 0,
            r.consistent(),
    {
        FocusTracker { field: FocusedField::Nothing, id: None, issued: 0, settled: 0 }
    }

    /// Number a question to the widget tree: which input has the focus?
    pub fn query(&mut self) -> (seq: u64)
        requires
            old(self).issued < u64::MAX,
        ensures
            seq == old(self).issued + 1,
            *final(self) == (FocusTracker { issued: seq, ..*old(self) }),
    {
        self.issued = self.issued + 1;
        self.issued
    }

    /// `after` is what moving the focus to the input `id` makes of `before`.
    pub open spec fn moved_to(before: FocusTracker, id: Seq<char>, after: FocusTracker) -> bool {
        &&& opt_id(after.id) == Some(id)
        &&& after.field == field_of(Some(id))
        &&& after.settled == before.issued + 1
        &&& after.issued == before.issued + 2
    }

    /// Focus the text input `id`. It counts as focused from here on — a
    /// secret field closes the input method before a key can reach it — and
    /// the tree is asked, under the number returned, once the focus has
    /// moved, in case `id` was not on screen to take it.
    pub fn focus(&mut self, id: &str) -> (seq: u64)
        requires
            old(self).issued + 2 <= u64::MAX,
        ensures
            FocusTracker::moved_to(*old(self), id@, *final(self)),
            seq == final(self).issued,
    {
        self.id = Some(id.to_owned());
        self.field = FocusedField::of(Some(id));
        self.issued = self.issued + 1;
        self.settled = self.issued;
        self.query()
    }

    pub open spec fn is_answered(&self) -> bool {
        self.settled == self.issued
    }

    /// Every question asked of the widget tree has been answered: `field`
    /// is what holds the focus now, not what held it before the last click.
    pub fn answered(&self) -> (r: bool)
        ensures
            r == self.is_answered(),
    {
        self.settled == self.issued
    }

    /// `after` is what the answer `id` to the query `seq` makes of `before`.
    pub open spec fn heard(before: FocusTracker, seq: u64, id: Option<String>, after: FocusTracker) -> bool {
        if seq <= before.settled {
            after == before
        } else {
            after == (FocusTracker { settled: seq, field: field_of(opt_id(id)), id, ..before })
        }
    }

    /// The answer to query `seq`.
    pub fn found(&mut self, seq: u64, id: Option<String>)
        ensures
            FocusTracker::heard(*old(self), seq, id, *final(self)),
    {
        if seq <= self.settled {
            return;
        }
        self.settled = seq;
        self.field = match &id {
            Some(s) => FocusedField::of(Some(s.as_str())),
            None => FocusedField::of(None),
        };
        self.id = id;
    }

    /// `field`, for a sign-in modal showing `answers` answer fields.
    pub open spec fn shown_field(&self, answers: nat) -> FocusedField {
        if self.field == FocusedField::Text && self.id is Some && answers > auth::AUTH_MAX_FIELDS {
            answer_or_text(
                answer_with_id(self.id->0@, auth::AUTH_MAX_FIELDS as nat, answers),
            )
        } else {
            self.field
        }
    }

    /// `field`, for a sign-in modal showing `answers` answer fields: one past
    /// those that are looked through otherwise — a server may ask for more —
    /// is still an answer field, not any text input.
    pub fn field_for(&self, answers: usize) -> (r: FocusedField)
        ensures
            r == self.shown_field(answers as nat),
    {
        if self.field != FocusedField::Text || answers <= auth::AUTH_MAX_FIELDS {
            return self.field;
        }
        match &self.id {
            Some(id) => match find_answer(id.as_str(), auth::AUTH_MAX_FIELDS, answers) {
                Some(n) => FocusedField::AuthAnswer(n),
                None => FocusedField::Text,
            },
            None => self.field,
        }
    }
}

/// A move of the focus outlives every answer to a question asked before it:
/// only the question asked after the move can change the field again.
pub proof fn law_stale_focus_answers_are_ignored(
    before: FocusTracker,
    id: Seq<char>,
    moved: FocusTracker,
    seq: u64,
    answer: Option<String>,
    after: FocusTracker,
)
    requires
        FocusTracker::moved_to(before, id, moved),
        seq <= before.issued,
        FocusTracker::heard(moved, seq, answer, after),
    ensures
        after == moved,
        !moved.is_answered(),
{
}

/// The input method while the focus is out for a secret: a move of the focus
/// to a secret input closes the input method at once.
pub proof fn law_a_secret_input_closes_the_input_method(
    before: FocusTracker,
    id: Seq<char>,
    moved: FocusTracker,
    screen: Screen,
    prompts: Seq<(String, bool)>,
)
    requires
        FocusTracker::moved_to(before, id, moved),
        takes_secret(id),
    ensures
        !may_compose(screen, moved.shown_field(prompts.len()), prompts),
{
}

} // verus!
