//! Keyboard-interactive sign-in: the queue of challenges and its modal.

use vstd::prelude::*;
use vstd::string::*;

use crate::catalog::Catalog;
use crate::history;
use crate::number;
use crate::secrets;
use crate::tabs;
use crate::text;

verus! {

/// How long a keyboard-interactive challenge stays answerable, in
/// nanoseconds. The SSH thread stops waiting after 180 s; retiring the modal
/// a little earlier means nobody types an answer that no thread is waiting
/// for.
pub const AUTH_PROMPT_TTL: u128 = 170_000_000_000;

/// Answer fields that are looked at. A server may ask for more, but none does
/// usefully.
pub const AUTH_MAX_FIELDS: usize = 64;

/// Keys this recent when a sign-in modal comes up mean the user is typing
/// somewhere else: the modal does not take the keyboard then, not even for a
/// challenge the user asked for.
pub const AUTH_TYPING_WINDOW: u128 = 1_500_000_000;

/// For this long after a sign-in modal comes up, its answer fields take no
/// keys and Enter submits nothing. Nobody reads a modal and starts answering
/// that fast: what arrives in the window was typed before it appeared.
pub const AUTH_ARM_DELAY: u128 = 300_000_000;

/// What a server asks before it lets a session in.
#[derive(Debug)]
pub struct AuthChallenge {
    /// The session that is signing in; blank for a test or a deployment.
    pub session_id: String,
    pub target: String,
    pub purpose: String,
    /// The prompts, each with whether its answer is echoed.
    pub prompts: Vec<(String, bool)>,
    /// Which thread waits for the answer.
    pub ticket: u64,
}

/// A challenge in the queue, with when it came.
#[derive(Debug)]
pub struct Waiting {
    pub challenge: AuthChallenge,
    pub at: u128,
}

/// Settle an owed focus: true exactly once, the first time the modal is
/// `visible`. Handing it over on every tick would pull the cursor back to the
/// first field while the user is typing in the second.
pub fn take_owed_focus(owed: &mut bool, visible: bool) -> (now: bool)
    ensures
        now == (*old(owed) && visible),
        *final(owed) == (*old(owed) && !visible),
{
    let now = *owed && visible;
    if now {
        *owed = false;
    }
    now
}

/// A run of `take_owed_focus`: what was owed before each call and after the last,
/// whether the modal was visible, and what each call gave.
pub open spec fn is_owed_run(owed: Seq<bool>, visible: Seq<bool>, paid: Seq<bool>) -> bool {
    &&& owed.len() == visible.len() + 1
    &&& paid.len() == visible.len()
    &&& forall|i: int|
        0 <= i < visible.len() ==> #[trigger] paid[i] == (owed[i] && visible[i]) && owed[i + 1] == (owed[i]
            && !visible[i])
}

/// An owed focus is handed over once, however often it is asked for: of a run of
/// calls at most one is told to, the first with the modal visible.
pub proof fn law_owed_focus_is_paid_once(owed: Seq<bool>, visible: Seq<bool>, paid: Seq<bool>, i: int, j: int)
    requires
        is_owed_run(owed, visible, paid),
        0 <= i < paid.len(),
        0 <= j < paid.len(),
        paid[i],
        paid[j],
    ensures
        i == j,
        forall|k: int| 0 <= k < i ==> !#[trigger] visible[k],
{
    if i < j {
        lemma_stays_paid(owed, visible, paid, i + 1, j);
    } else if j < i {
        lemma_stays_paid(owed, visible, paid, j + 1, i);
    }
    assert forall|k: int| 0 <= k < i implies !#[trigger] visible[k] by {
        assert(paid[k] == (owed[k] && visible[k]));
        if visible[k] {
            lemma_stays_paid(owed, visible, paid, k + 1, i);
        }
    }
}

/// What is not owed is not owed later on either.
proof fn lemma_stays_paid(owed: Seq<bool>, visible: Seq<bool>, paid: Seq<bool>, i: int, j: int)
    requires
        is_owed_run(owed, visible, paid),
        0 <= i <= j < owed.len(),
        !owed[i],
    ensures
        !owed[j],
    decreases j - i,
{
    if i < j {
        assert(paid[i] == (owed[i] && visible[i]));
        lemma_stays_paid(owed, visible, paid, i + 1, j);
    }
}

/// The widget id of answer field `i`.
pub open spec fn answer_field(i: nat) -> Seq<char> {
    "auth_answer_"@ + number::decimal(i)
}

pub fn auth_input_id(i: usize) -> (r: String)
    ensures
        r@ == answer_field(i as nat),
{
    let d = number::decimal_text(i as u64);
    let mut s = "auth_answer_".to_owned();
    s.append(d.as_str());
    s
}

pub open spec fn may_take_focus(purpose: Seq<char>, user_started: bool) -> bool {
    if purpose == "test"@ || purpose == "deploy"@ {
        true
    } else if purpose == "reconnect"@ {
        false
    } else {
        user_started
    }
}

/// Whether a sign-in challenge may take the keyboard when its modal comes up:
/// only one the user's own click just asked for — the Test or Deploy button,
/// whose challenges carry no session, or a Connect, a split or a "Reconnect
/// monitoring" still waiting on this session (`user_started`). Anything else,
/// above all a dropped session reconnecting on its own, turns up while the
/// user is typing somewhere else, and taking the focus would hand the rest of
/// what they type — Enter included — to this server as the answer. That
/// modal shows, and waits for a click.
pub fn challenge_may_take_focus(purpose: &str, user_started: bool) -> (r: bool)
    ensures
        r == may_take_focus(purpose@, user_started),
{
    if text::same_text(purpose, "test") || text::same_text(purpose, "deploy") {
        true
    } else if text::same_text(purpose, "reconnect") {
        false
    } else {
        user_started
    }
}

pub open spec fn typing(last_keypress: Option<u128>, now: u128) -> bool {
    last_keypress matches Some(at) && !history::elapsed(at, now, AUTH_TYPING_WINDOW)
}

/// Whether keys were still arriving at `now` (see [`AUTH_TYPING_WINDOW`]).
pub fn typing_recently(last_keypress: Option<u128>, now: u128) -> (r: bool)
    ensures
        r == typing(last_keypress, now),
{
    match last_keypress {
        Some(at) => !history::has_elapsed(at, now, AUTH_TYPING_WINDOW),
        None => false,
    }
}

pub open spec fn shown_since(shown_at: Option<u128>, visible: bool, now: u128) -> Option<u128> {
    if !visible {
        None
    } else if shown_at is None {
        Some(now)
    } else {
        shown_at
    }
}

/// Track when the sign-in modal came on screen: set the first time it is
/// `visible`, cleared whenever it is not — covered, gone, or locked away.
pub fn note_auth_shown(shown_at: &mut Option<u128>, visible: bool, now: u128)
    ensures
        *final(shown_at) == shown_since(*old(shown_at), visible, now),
{
    if !visible {
        *shown_at = None;
    } else if shown_at.is_none() {
        *shown_at = Some(now);
    }
}

pub open spec fn armed(shown_at: Option<u128>, now: u128) -> bool {
    shown_at matches Some(at) && history::elapsed(at, now, AUTH_ARM_DELAY)
}

/// Whether the modal's answer fields take keys yet: it has been on screen
/// for [`AUTH_ARM_DELAY`].
pub fn auth_armed(shown_at: Option<u128>, now: u128) -> (r: bool)
    ensures
        r == armed(shown_at, now),
{
    match shown_at {
        Some(at) => history::has_elapsed(at, now, AUTH_ARM_DELAY),
        None => false,
    }
}

/// A modal that has only just come on screen takes no answer.
pub proof fn law_a_new_modal_takes_no_keys(shown_at: Option<u128>, visible: bool, now: u128)
    requires
        shown_at is None,
    ensures
        !armed(shown_since(shown_at, visible, now), now),
{
}

// ---- the queue ------------------------------------------------------------------------------

/// The challenge comes from one of the sessions.
pub open spec fn from_sessions(w: Waiting, sessions: Seq<Seq<char>>) -> bool {
    sessions.contains(w.challenge.session_id@)
}

/// Take every challenge of the sessions out of the modal's queue, oldest
/// first. The flag says whether the one on screen — the front — was among
/// them.
pub fn take_challenges(queue: &mut Vec<Waiting>, sessions: &Vec<String>) -> (r: (Vec<AuthChallenge>, bool))
    ensures
        ({
            let asked = crate::split::texts(sessions@);
            let picked = |w: Waiting| from_sessions(w, asked);
            &&& r.0@ == old(queue)@.filter(picked).map_values(|w: Waiting| w.challenge)
            &&& final(queue)@ == old(queue)@.filter(|w: Waiting| !from_sessions(w, asked))
            &&& r.1 == (old(queue)@.len() > 0 && from_sessions(old(queue)@[0], asked))
        }),
{
    let ghost all = queue@;
    let ghost asked = crate::split::texts(sessions@);
    let ghost picked = |w: Waiting| from_sessions(w, asked);
    let ghost left = |w: Waiting| !from_sessions(w, asked);
    let ghost strip = |w: Waiting| w.challenge;
    let front = queue.len() > 0 && tabs::list_has(sessions, queue[0].challenge.session_id.as_str());
    let mut whole: Vec<Waiting> = Vec::new();
    std::mem::swap(queue, &mut whole);
    let mut taken: Vec<AuthChallenge> = Vec::new();
    let mut kept: Vec<Waiting> = Vec::new();
    assert(all.take(0).filter(picked) =~= Seq::<Waiting>::empty() && all.take(0).filter(left)
        =~= Seq::<Waiting>::empty()) by {
        reveal(Seq::filter);
    }
    for w in it: whole
        invariant
            it.seq() == all,
            asked == crate::split::texts(sessions@),
            picked == (|w: Waiting| from_sessions(w, asked)),
            left == (|w: Waiting| !from_sessions(w, asked)),
            strip == (|w: Waiting| w.challenge),
            taken@ =~= all.take(it.index() as int).filter(picked).map_values(strip),
            kept@ =~= all.take(it.index() as int).filter(left),
    {
        proof {
            let i = it.index() as int;
            all.take(i).lemma_filter_push(w, picked);
            all.take(i).lemma_filter_push(w, left);
            assert(all.take(i + 1) =~= all.take(i).push(w));
        }
        if tabs::list_has(sessions, w.challenge.session_id.as_str()) {
            taken.push(w.challenge);
        } else {
            kept.push(w);
        }
    }
    assert(all.take(all.len() as int) =~= all);
    std::mem::swap(queue, &mut kept);
    (taken, front)
}

/// Withdrawing challenges takes exactly those of the sessions out, and leaves
/// the rest in their order.
pub proof fn law_withdrawing_keeps_the_rest(queue: Seq<Waiting>, sessions: Seq<Seq<char>>, w: Waiting)
    requires
        queue.contains(w),
    ensures
        ({
            let kept = queue.filter(|w: Waiting| !from_sessions(w, sessions));
            kept.contains(w) <==> !from_sessions(w, sessions)
        }),
{
    let left = |w: Waiting| !from_sessions(w, sessions);
    let i = choose|i: int| 0 <= i < queue.len() && queue[i] == w;
    if !from_sessions(w, sessions) {
        queue.lemma_filter_contains(left, i);
    } else if queue.filter(left).contains(w) {
        let k = choose|k: int| 0 <= k < queue.filter(left).len() && queue.filter(left)[k] == w;
        queue.lemma_filter_pred(left, k);
    }
}

/// The sessions of the queue that no tab or pane holds any more.
pub fn orphaned_sessions(queue: &Vec<Waiting>, open: &Vec<tabs::TerminalTab>) -> (out: Vec<String>)
    ensures
        forall|k: Seq<char>| #[trigger]
            crate::split::texts(out@).contains(k) <==> tabs::orphaned(k, open@) && exists|i: int|
                0 <= i < queue@.len() && (#[trigger] queue@[i]).challenge.session_id@ == k,
{
    let mut out: Vec<String> = Vec::new();
    let mut i: usize = 0;
    while i < queue.len()
        invariant
            i <= queue@.len(),
            forall|k: Seq<char>| #[trigger]
                crate::split::texts(out@).contains(k) <==> tabs::orphaned(k, open@) && exists|j: int|
                    0 <= j < i && (#[trigger] queue@[j]).challenge.session_id@ == k,
        decreases queue.len() - i,
    {
        let ghost before = out@;
        let sid = queue[i].challenge.session_id.clone();
        if tabs::challenge_orphaned(sid.as_str(), open) {
            out.push(sid);
        }
        proof {
            assert forall|k: Seq<char>| #[trigger] crate::split::texts(out@).contains(k) <==> tabs::orphaned(
                k,
                open@,
            ) && exists|j: int| 0 <= j < i + 1 && (#[trigger] queue@[j]).challenge.session_id@ == k by {
                let old_texts = crate::split::texts(before);
                let new_texts = crate::split::texts(out@);
                assert(old_texts.contains(k) <==> tabs::orphaned(k, open@) && exists|j: int|
                    0 <= j < i && (#[trigger] queue@[j]).challenge.session_id@ == k);
                if old_texts.contains(k) {
                    let x = choose|x: int| 0 <= x < old_texts.len() && old_texts[x] == k;
                    assert(new_texts[x] == k);
                }
                if new_texts.contains(k) && !old_texts.contains(k) {
                    let x = choose|x: int| 0 <= x < new_texts.len() && new_texts[x] == k;
                    if x < old_texts.len() {
                        assert(old_texts[x] == k);
                    }
                    assert(queue@[i as int].challenge.session_id@ == k);
                }
                if tabs::orphaned(k, open@) && queue@[i as int].challenge.session_id@ == k {
                    assert(new_texts[before.len() as int] == k);
                }
            }
        }
        i += 1;
    }
    out
}

/// The challenge is past its time.
pub open spec fn expired(w: Waiting, now: u128) -> bool {
    history::elapsed(w.at, now, AUTH_PROMPT_TTL)
}

/// Take the challenges that are past their time out of the queue. The flag
/// says whether the front was among them.
pub fn retire_expired(queue: &mut Vec<Waiting>, now: u128) -> (r: (Vec<AuthChallenge>, bool))
    ensures
        final(queue)@ == old(queue)@.filter(|w: Waiting| !expired(w, now)),
        r.0@ == old(queue)@.filter(|w: Waiting| expired(w, now)).map_values(|w: Waiting| w.challenge),
        r.1 == (old(queue)@.len() > 0 && expired(old(queue)@[0], now)),
{
    let ghost all = queue@;
    let ghost gone = |w: Waiting| expired(w, now);
    let ghost left = |w: Waiting| !expired(w, now);
    let ghost strip = |w: Waiting| w.challenge;
    let front = queue.len() > 0 && history::has_elapsed(queue[0].at, now, AUTH_PROMPT_TTL);
    let mut whole: Vec<Waiting> = Vec::new();
    std::mem::swap(queue, &mut whole);
    let mut dropped: Vec<AuthChallenge> = Vec::new();
    let mut kept: Vec<Waiting> = Vec::new();
    assert(all.take(0).filter(gone) =~= Seq::<Waiting>::empty() && all.take(0).filter(left)
        =~= Seq::<Waiting>::empty()) by {
        reveal(Seq::filter);
    }
    for w in it: whole
        invariant
            it.seq() == all,
            gone == (|w: Waiting| expired(w, now)),
            left == (|w: Waiting| !expired(w, now)),
            strip == (|w: Waiting| w.challenge),
            dropped@ =~= all.take(it.index() as int).filter(gone).map_values(strip),
            kept@ =~= all.take(it.index() as int).filter(left),
    {
        proof {
            let i = it.index() as int;
            all.take(i).lemma_filter_push(w, gone);
            all.take(i).lemma_filter_push(w, left);
            assert(all.take(i + 1) =~= all.take(i).push(w));
        }
        if history::has_elapsed(w.at, now, AUTH_PROMPT_TTL) {
            dropped.push(w.challenge);
        } else {
            kept.push(w);
        }
    }
    assert(all.take(all.len() as int) =~= all);
    std::mem::swap(queue, &mut kept);
    (dropped, front)
}

/// Zero every answer before dropping it: they are passwords and OTP codes.
pub fn scrub_answers(answers: &mut Vec<String>)
    ensures
        final(answers)@ == Seq::<String>::empty(),
{
    secrets::wipe_all(answers);
}

/// Which connection is asking, in words.
pub open spec fn purpose_label(purpose: Seq<char>, texts: Catalog) -> Seq<char> {
    if purpose == "shell"@ {
        texts.says("auth.purpose.shell"@)
    } else if purpose == "exec"@ {
        texts.says("auth.purpose.exec"@)
    } else if purpose == "reconnect"@ {
        texts.says("auth.purpose.reconnect"@)
    } else if purpose == "test"@ {
        texts.says("auth.purpose.test"@)
    } else if purpose == "deploy"@ {
        texts.says("auth.purpose.deploy"@)
    } else {
        purpose
    }
}

/// Which connection is asking, in words.
pub fn auth_purpose_label(purpose: &str, texts: &Catalog) -> (r: String)
    ensures
        r@ == purpose_label(purpose@, *texts),
{
    if text::same_text(purpose, "shell") {
        texts.t("auth.purpose.shell")
    } else if text::same_text(purpose, "exec") {
        texts.t("auth.purpose.exec")
    } else if text::same_text(purpose, "reconnect") {
        texts.t("auth.purpose.reconnect")
    } else if text::same_text(purpose, "test") {
        texts.t("auth.purpose.test")
    } else if text::same_text(purpose, "deploy") {
        texts.t("auth.purpose.deploy")
    } else {
        purpose.to_owned()
    }
}

} // verus!
