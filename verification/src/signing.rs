//! The sign-in modal at work: challenges come in, are answered, declined,
//! withdrawn or given up.

use vstd::prelude::*;
use vstd::string::*;

use crate::auth;
use crate::auth::AuthChallenge;
use crate::auth::Waiting;
use crate::common;
use crate::focus::FocusTracker;
use crate::overlays;
use crate::secrets;
use crate::split;
use crate::state::Auth;
use crate::state::Effect;
use crate::state::Env;
use crate::state::Message;
use crate::state::NeoShell;
use crate::tabs;
use crate::tabs::TerminalTab;

verus! {

// ---- withdrawing ------------------------------------------------------------------------------------

/// A cancel for each of the challenges.
pub open spec fn cancels(list: Seq<AuthChallenge>) -> Seq<Effect> {
    list.map_values(|c: AuthChallenge| Effect::Cancel(c.ticket))
}

/// An end for each of the challenges that nobody will answer any more.
pub open spec fn retires(list: Seq<AuthChallenge>) -> Seq<Effect> {
    list.map_values(|c: AuthChallenge| Effect::Retire(c.ticket))
}

fn cancel_all(list: &Vec<AuthChallenge>) -> (fx: Vec<Effect>)
    ensures
        fx@ == cancels(list@),
{
    let mut fx: Vec<Effect> = Vec::new();
    let mut i: usize = 0;
    while i < list.len()
        invariant
            i <= list.len(),
            fx@ =~= cancels(list@.take(i as int)),
        decreases list.len() - i,
    {
        fx.push(Effect::Cancel(list[i].ticket));
        i += 1;
    }
    assert(list@.take(list@.len() as int) =~= list@);
    fx
}

fn retire_all(list: &Vec<AuthChallenge>) -> (fx: Vec<Effect>)
    ensures
        fx@ == retires(list@),
{
    let mut fx: Vec<Effect> = Vec::new();
    let mut i: usize = 0;
    while i < list.len()
        invariant
            i <= list.len(),
            fx@ =~= retires(list@.take(i as int)),
        decreases list.len() - i,
    {
        fx.push(Effect::Retire(list[i].ticket));
        i += 1;
    }
    assert(list@.take(list@.len() as int) =~= list@);
    fx
}

/// The challenges of the sessions, in the order of the queue.
pub open spec fn asked_by(queue: Seq<Waiting>, sessions: Seq<Seq<char>>) -> Seq<AuthChallenge> {
    queue.filter(|w: Waiting| auth::from_sessions(w, sessions)).map_values(|w: Waiting| w.challenge)
}

/// The queue without the challenges of the sessions.
pub open spec fn not_asked_by(queue: Seq<Waiting>, sessions: Seq<Seq<char>>) -> Seq<Waiting> {
    queue.filter(|w: Waiting| !auth::from_sessions(w, sessions))
}

/// The challenge on the modal comes from one of the sessions.
pub open spec fn front_from(queue: Seq<Waiting>, sessions: Seq<Seq<char>>) -> bool {
    queue.len() > 0 && auth::from_sessions(queue[0], sessions)
}

/// Take the challenges of the sessions out of the queue, as a cancel of each.
/// True when the one on the modal was among them.
pub fn withdraw(auth: &mut Auth, sessions: &Vec<String>) -> (r: (Vec<Effect>, bool))
    ensures
        r.0@ == cancels(asked_by(old(auth).queue@, split::texts(sessions@))),
        r.1 == front_from(old(auth).queue@, split::texts(sessions@)),
        final(auth).queue@ == not_asked_by(old(auth).queue@, split::texts(sessions@)),
        *final(auth) == (Auth { queue: final(auth).queue, ..*old(auth) }),
{
    let (taken, front) = auth::take_challenges(&mut auth.queue, sessions);
    (cancel_all(&taken), front)
}

// ---- arriving ---------------------------------------------------------------------------------------

/// The challenges, as they join the queue.
pub open spec fn arrived(inbox: Seq<AuthChallenge>, now: u128) -> Seq<Waiting> {
    inbox.map_values(|c: AuthChallenge| Waiting { challenge: c, at: now })
}

fn queue_all(auth: &mut Auth, now: u128)
    ensures
        final(auth).inbox@.len() == 0,
        final(auth).queue@ == old(auth).queue@ + arrived(old(auth).inbox@, now),
        *final(auth) == (Auth {
            inbox: final(auth).inbox,
            queue: final(auth).queue,
            ..*old(auth)
        }),
{
    let ghost waiting = auth.queue@;
    let ghost came = auth.inbox@;
    let mut inbox: Vec<AuthChallenge> = Vec::new();
    std::mem::swap(&mut inbox, &mut auth.inbox);
    let mut queue: Vec<Waiting> = Vec::new();
    std::mem::swap(&mut queue, &mut auth.queue);
    for c in it: inbox
        invariant
            it.seq() == came,
            queue@ =~= waiting + arrived(came.take(it.index() as int), now),
    {
        assert(came.take(it.index() + 1) =~= came.take(it.index() as int).push(c));
        queue.push(Waiting { challenge: c, at: now });
    }
    assert(came.take(came.len() as int) =~= came);
    std::mem::swap(&mut queue, &mut auth.queue);
}

pub open spec fn is_orphan(w: Waiting, open: Seq<TerminalTab>) -> bool {
    tabs::orphaned(w.challenge.session_id@, open)
}

proof fn lemma_filter_alike<T>(s: Seq<T>, p: spec_fn(T) -> bool, q: spec_fn(T) -> bool)
    requires
        forall|i: int| 0 <= i < s.len() ==> p(#[trigger] s[i]) == q(s[i]),
    ensures
        s.filter(p) == s.filter(q),
    decreases s.len(),
{
    reveal(Seq::filter);
    if s.len() > 0 {
        lemma_filter_alike(s.drop_last(), p, q);
    }
}

/// What taking in the challenges makes of a state, by way of `mid`: what came
/// in joins the queue; those of sessions without a tab are withdrawn, and those
/// too old to be answered are given up; then the front one begins, or is handed
/// the focus that it is owed.
pub open spec fn prompts_taken_via(
    before: NeoShell,
    now: u128,
    mid: NeoShell,
    last: Seq<Effect>,
    after: NeoShell,
    fx: Seq<Effect>,
) -> bool {
    let open = before.sessions.tabs@;
    let all = before.auth.queue@ + arrived(before.auth.inbox@, now);
    let kept = all.filter(|w: Waiting| !is_orphan(w, open));
    let live = kept.filter(|w: Waiting| !auth::expired(w, now));
    let begins = (all.len() > 0 && is_orphan(all[0], open)) || (kept.len() > 0 && auth::expired(kept[0], now)) || (
    before.auth.queue@.len() == 0 && live.len() > 0);
    &&& mid.auth.inbox@.len() == 0
    &&& mid.auth.queue@ == live
    &&& mid == (NeoShell {
        auth: Auth { inbox: mid.auth.inbox, queue: mid.auth.queue, ..before.auth },
        ..before
    })
    &&& if begins {
        NeoShell::began(mid, now, after, last)
    } else {
        NeoShell::delivered(mid, now, after, last)
    }
    &&& fx == cancels(
        all.filter(|w: Waiting| is_orphan(w, open)).map_values(|w: Waiting| w.challenge),
    ) + retires(
        kept.filter(|w: Waiting| auth::expired(w, now)).map_values(|w: Waiting| w.challenge),
    ) + last
}

pub open spec fn prompts_taken(before: NeoShell, now: u128, after: NeoShell, fx: Seq<Effect>) -> bool {
    exists|mid: NeoShell, last: Seq<Effect>| #[trigger] prompts_taken_via(before, now, mid, last, after, fx)
}

/// Take in the challenges that SSH threads parked for the modal. Runs on
/// every drain, which a challenge's arrival wakes on every screen: a reconnect
/// can ask at any time.
///
/// A challenge from a session no tab or pane holds any more — a connect still
/// dialling when its tab closed, which closing could not withdraw yet — is
/// cancelled, never shown: nobody is there to answer it. Past its SSH thread's
/// own timeout nobody waits for the answer any more.
pub fn poll_auth_prompts(state: &mut NeoShell, now: u128) -> (fx: Vec<Effect>)
    requires
        old(state).focus.issued + 3 <= u64::MAX,
    ensures
        prompts_taken(*old(state), now, *final(state), fx@),
{
    let was_empty = state.auth.queue.len() == 0;
    queue_all(&mut state.auth, now);
    let ghost open = old(state).sessions.tabs@;
    let ghost all = state.auth.queue@;
    let orphans = auth::orphaned_sessions(&state.auth.queue, &state.sessions.tabs);
    let ghost asked = split::texts(orphans@);
    let (mut fx, front_orphaned) = withdraw(&mut state.auth, &orphans);
    proof {
        assert forall|i: int| 0 <= i < all.len() implies auth::from_sessions(#[trigger] all[i], asked) == is_orphan(
            all[i],
            open,
        ) by {
            let k = all[i].challenge.session_id@;
            assert(asked.contains(k) <==> tabs::orphaned(k, open) && exists|j: int|
                0 <= j < all.len() && (#[trigger] all[j]).challenge.session_id@ == k);
        }
        lemma_filter_alike(
            all,
            |w: Waiting| auth::from_sessions(w, asked),
            |w: Waiting| is_orphan(w, open),
        );
        lemma_filter_alike(
            all,
            |w: Waiting| !auth::from_sessions(w, asked),
            |w: Waiting| !is_orphan(w, open),
        );
    }
    let (old_ones, front_expired) = auth::retire_expired(&mut state.auth.queue, now);
    let mut retired = retire_all(&old_ones);
    fx.append(&mut retired);
    let ghost mid = *state;
    let ghost first = fx@;
    let mut last = if front_expired || front_orphaned || (was_empty && state.auth.queue.len() > 0) {
        state.begin_auth_prompt(now)
    } else {
        // A challenge that arrived under the lock screen, the palette or the
        // delete confirmation takes the focus once the modal is uncovered.
        state.deliver_auth_focus(now)
    };
    let ghost ends = last@;
    fx.append(&mut last);
    assert(fx@ =~= first + ends);
    assert(prompts_taken_via(*old(state), now, mid, ends, *state, fx@));
    fx
}

proof fn lemma_filtered<T>(s: Seq<T>, p: spec_fn(T) -> bool, i: int)
    requires
        0 <= i < s.filter(p).len(),
    ensures
        p(s.filter(p)[i]),
        s.contains(s.filter(p)[i]),
{
    s.lemma_filter_contains_rev(p, s.filter(p)[i]);
    s.lemma_filter_pred(p, i);
}

/// Once the challenges are taken in, each that waits comes from a session that
/// a tab still holds, and can still be answered.
pub proof fn law_only_live_challenges_wait(before: NeoShell, now: u128, after: NeoShell, fx: Seq<Effect>, i: int)
    requires
        prompts_taken(before, now, after, fx),
        0 <= i < after.auth.queue@.len(),
    ensures
        !is_orphan(after.auth.queue@[i], before.sessions.tabs@),
        !auth::expired(after.auth.queue@[i], now),
        after.auth.inbox@.len() == 0,
{
    let (mid, last) = choose|mid: NeoShell, last: Seq<Effect>| #[trigger]
        prompts_taken_via(before, now, mid, last, after, fx);
    let open = before.sessions.tabs@;
    let all = before.auth.queue@ + arrived(before.auth.inbox@, now);
    let there = |w: Waiting| !is_orphan(w, open);
    let fresh = |w: Waiting| !auth::expired(w, now);
    let kept = all.filter(there);
    lemma_filtered(kept, fresh, i);
    let w = kept.filter(fresh)[i];
    let k = choose|k: int| 0 <= k < kept.len() && kept[k] == w;
    lemma_filtered(all, there, k);
}

// ---- answering --------------------------------------------------------------------------------------

/// One answer for each of the `n` prompts, blank where none was typed.
pub open spec fn filled(answers: Seq<String>, n: nat, out: Seq<String>) -> bool {
    &&& out.len() == n
    &&& forall|i: int|
        0 <= i < n ==> (#[trigger] out[i])@ == (if i < answers.len() {
            answers[i]@
        } else {
            Seq::<char>::empty()
        })
}

fn fill(answers: Vec<String>, n: usize) -> (out: Vec<String>)
    ensures
        filled(answers@, n as nat, out@),
{
    let ghost all = answers@;
    let mut out = answers;
    if out.len() > n {
        out.truncate(n);
    }
    while out.len() < n
        invariant
            out.len() <= n,
            forall|i: int|
                0 <= i < out.len() ==> (#[trigger] out[i])@ == (if i < all.len() {
                    all[i]@
                } else {
                    Seq::<char>::empty()
                }),
            all.len() <= n ==> out.len() >= all.len(),
            all.len() > n ==> out.len() == n,
        decreases n - out.len(),
    {
        out.push(String::new());
    }
    out
}

pub open spec fn answers(e: Effect, ticket: u64, typed: Seq<String>, n: nat) -> bool {
    match e {
        Effect::Answer(t, list) => t == ticket && filled(typed, n, list@),
        _ => false,
    }
}

/// `mid` is `before` with the front challenge out of the queue.
pub open spec fn front_gone(before: NeoShell, mid: NeoShell) -> bool {
    &&& mid.auth.queue@ == before.auth.queue@.drop_first()
    &&& mid == (NeoShell {
        auth: Auth { queue: mid.auth.queue, answers: mid.auth.answers, ..before.auth },
        ..before
    })
}

pub open spec fn answered_via(
    before: NeoShell,
    now: u128,
    mid: NeoShell,
    last: Seq<Effect>,
    after: NeoShell,
    fx: Seq<Effect>,
) -> bool {
    let front = before.auth.queue@[0].challenge;
    &&& front_gone(before, mid)
    &&& NeoShell::began(mid, now, after, last)
    &&& fx.len() == last.len() + 1
    &&& fx.drop_first() == last
    &&& answers(fx[0], front.ticket, before.auth.answers@, front.prompts@.len())
}

/// What submitting the answers makes of a state: they go to the front
/// challenge, and the next one begins.
pub open spec fn submitted(before: NeoShell, now: u128, after: NeoShell, fx: Seq<Effect>) -> bool {
    if before.auth.queue@.len() == 0 {
        NeoShell::began(before, now, after, fx)
    } else {
        exists|mid: NeoShell, last: Seq<Effect>| #[trigger] answered_via(before, now, mid, last, after, fx)
    }
}

/// Send what was typed to the challenge at the front, and move on to the next.
pub fn submit_auth_answers(state: &mut NeoShell, now: u128) -> (fx: Vec<Effect>)
    requires
        old(state).focus.issued + 3 <= u64::MAX,
    ensures
        submitted(*old(state), now, *final(state), fx@),
{
    if state.auth.queue.len() == 0 {
        return state.begin_auth_prompt(now);
    }
    let w = state.auth.queue.remove(0);
    let mut typed: Vec<String> = Vec::new();
    std::mem::swap(&mut typed, &mut state.auth.answers);
    let list = fill(typed, w.challenge.prompts.len());
    let ghost mid = *state;
    assert(mid.auth.queue@ =~= old(state).auth.queue@.drop_first());
    let mut fx = common::one(Effect::Answer(w.challenge.ticket, list));
    let mut last = state.begin_auth_prompt(now);
    let ghost ends = last@;
    fx.append(&mut last);
    assert(fx@.drop_first() =~= ends);
    assert(answered_via(*old(state), now, mid, ends, *state, fx@));
    fx
}

pub open spec fn declined_via(
    before: NeoShell,
    now: u128,
    mid: NeoShell,
    last: Seq<Effect>,
    after: NeoShell,
    fx: Seq<Effect>,
) -> bool {
    &&& front_gone(before, mid)
    &&& mid.auth.answers == before.auth.answers
    &&& NeoShell::began(mid, now, after, last)
    &&& fx == seq![Effect::Cancel(before.auth.queue@[0].challenge.ticket)] + last
}

/// What declining to answer makes of a state.
pub open spec fn declined(before: NeoShell, now: u128, after: NeoShell, fx: Seq<Effect>) -> bool {
    if before.auth.queue@.len() == 0 {
        NeoShell::began(before, now, after, fx)
    } else {
        exists|mid: NeoShell, last: Seq<Effect>| #[trigger] declined_via(before, now, mid, last, after, fx)
    }
}

/// The user declines to answer: a cancel, which the SSH thread tells apart
/// from a modal retired unanswered.
pub fn on_auth_cancel(state: &mut NeoShell, now: u128) -> (fx: Vec<Effect>)
    requires
        old(state).focus.issued + 3 <= u64::MAX,
    ensures
        declined(*old(state), now, *final(state), fx@),
{
    if state.auth.queue.len() == 0 {
        return state.begin_auth_prompt(now);
    }
    let w = state.auth.queue.remove(0);
    let ghost mid = *state;
    assert(mid.auth.queue@ =~= old(state).auth.queue@.drop_first());
    let mut fx = common::one(Effect::Cancel(w.challenge.ticket));
    let mut last = state.begin_auth_prompt(now);
    let ghost ends = last@;
    fx.append(&mut last);
    assert(fx@ =~= seq![Effect::Cancel(w.challenge.ticket)] + ends);
    assert(declined_via(*old(state), now, mid, ends, *state, fx@));
    fx
}

pub open spec fn answer_typed(before: NeoShell, i: usize, value: String, now: u128, after: NeoShell) -> bool {
    if auth::armed(before.auth.shown_at, now) && i < before.auth.answers@.len() {
        &&& after.auth.answers@ == before.auth.answers@.update(i as int, value)
        &&& after == (NeoShell { auth: Auth { answers: after.auth.answers, ..before.auth }, ..before })
    } else {
        after == before
    }
}

/// Something was typed into an answer field. Keys in the modal's first moments
/// were typed before anyone could see it, for something else: they are no
/// answer.
pub fn on_auth_answer_changed(state: &mut NeoShell, i: usize, value: String, now: u128)
    ensures
        answer_typed(*old(state), i, value, now, *final(state)),
{
    let mut value = value;
    if !auth::auth_armed(state.auth.shown_at, now) {
        secrets::wipe(&mut value);
        return;
    }
    if i < state.auth.answers.len() {
        std::mem::swap(&mut state.auth.answers[i], &mut value);
        secrets::wipe(&mut value);
    }
}

pub open spec fn answer_focused(before: NeoShell, i: usize, now: u128, after: NeoShell, fx: Seq<Effect>) -> bool {
    if auth::armed(before.auth.shown_at, now) {
        &&& FocusTracker::moved_to(before.focus, auth::answer_field(i as nat), after.focus)
        &&& after == (NeoShell { focus: after.focus, ..before })
        &&& fx.len() == 1
        &&& overlays::focuses(fx[0], auth::answer_field(i as nat), after.focus.issued)
    } else {
        after == before && fx.len() == 0
    }
}

/// Enter in an answer field moves on — not an Enter that arrived with the
/// modal.
pub fn on_auth_focus(state: &mut NeoShell, i: usize, now: u128) -> (fx: Vec<Effect>)
    requires
        old(state).focus.issued + 2 <= u64::MAX,
    ensures
        answer_focused(*old(state), i, now, *final(state), fx@),
{
    if !auth::auth_armed(state.auth.shown_at, now) {
        return common::nothing();
    }
    let id = auth::auth_input_id(i);
    let seq = state.focus.focus(id.as_str());
    common::one(Effect::Focus(id, seq))
}

pub open spec fn entered(before: NeoShell, now: u128, after: NeoShell, fx: Seq<Effect>) -> bool {
    if auth::armed(before.auth.shown_at, now) {
        submitted(before, now, after, fx)
    } else {
        after == before && fx.len() == 0
    }
}

/// Enter in the last answer field. Never an Enter typed before the modal
/// appeared: that one ended whatever the user was typing elsewhere, a sudo
/// password say.
pub fn on_auth_enter(state: &mut NeoShell, now: u128) -> (fx: Vec<Effect>)
    requires
        old(state).focus.issued + 3 <= u64::MAX,
    ensures
        entered(*old(state), now, *final(state), fx@),
{
    if !auth::auth_armed(state.auth.shown_at, now) {
        return common::nothing();
    }
    submit_auth_answers(state, now)
}

/// Whatever is answered or declined, the next challenge's answers start blank.
pub proof fn law_no_answer_goes_to_the_next_challenge(
    before: NeoShell,
    now: u128,
    after: NeoShell,
    fx: Seq<Effect>,
)
    requires
        submitted(before, now, after, fx) || declined(before, now, after, fx),
    ensures
        overlays::blank_answers(after.auth.answers@, after.front_prompts()),
{
    if before.auth.queue@.len() > 0 {
        if submitted(before, now, after, fx) {
            let (mid, last) = choose|mid: NeoShell, last: Seq<Effect>| #[trigger]
                answered_via(before, now, mid, last, after, fx);
            assert(NeoShell::began(mid, now, after, last));
        } else {
            let (mid, last) = choose|mid: NeoShell, last: Seq<Effect>| #[trigger]
                declined_via(before, now, mid, last, after, fx);
            assert(NeoShell::began(mid, now, after, last));
        }
    }
}

pub open spec fn is_auth_message(m: Message) -> bool {
    match m {
        Message::AuthAnswerChanged(_, _) => true,
        Message::AuthFocus(_) => true,
        Message::AuthSubmit => true,
        Message::AuthEnter => true,
        Message::AuthCancel => true,
        _ => false,
    }
}

#[verifier::opaque]
pub open spec fn auth_step(before: NeoShell, m: Message, env: Env, after: NeoShell, fx: Seq<Effect>) -> bool {
    match m {
        Message::AuthAnswerChanged(i, v) => answer_typed(before, i, v, env.now, after) && fx.len() == 0,
        Message::AuthFocus(i) => answer_focused(before, i, env.now, after, fx),
        Message::AuthSubmit => submitted(before, env.now, after, fx),
        Message::AuthEnter => entered(before, env.now, after, fx),
        Message::AuthCancel => declined(before, env.now, after, fx),
        _ => true,
    }
}

/// The messages of the sign-in modal.
pub fn handle_auth(state: &mut NeoShell, message: Message, env: &Env) -> (fx: Vec<Effect>)
    requires
        is_auth_message(message),
        old(state).wf(),
        old(state).has_room(),
    ensures
        auth_step(*old(state), message, *env, *final(state), fx@),
        final(state).wf(),
{
    proof {
        reveal(auth_step);
    }
    match message {
        Message::AuthAnswerChanged(i, value) => {
            on_auth_answer_changed(state, i, value, env.now);
            common::nothing()
        },
        Message::AuthFocus(i) => on_auth_focus(state, i, env.now),
        Message::AuthSubmit => submit_auth_answers(state, env.now),
        Message::AuthEnter => on_auth_enter(state, env.now),
        Message::AuthCancel => on_auth_cancel(state, env.now),
        _ => common::nothing(),
    }
}

} // verus!
