//! What one event of the SSH side does to the tabs and their terminals.

use vstd::prelude::*;

use crate::catalog;
use crate::draining;
use crate::events::DrainBudget;
use crate::events::SshEvent;
use crate::events;
use crate::grid;
use crate::input;
use crate::remote_files;
use crate::state::Effect;
use crate::state::Env;
use crate::state::NeoShell;
use crate::tabs::TerminalTab;
use crate::tabs;
use crate::text;
use crate::titles;

verus! {

/// The output holds nothing that a file transfer starts with: no two asterisks beside each
/// other, and no `rz`.
pub open spec fn is_plain_output(data: Seq<u8>) -> bool {
    forall|i: int|
        0 <= i < data.len() - 1 ==> !(#[trigger] data[i] == 0x2a && data[i + 1] == 0x2a) && !(data[i] == 0x72
            && data[i + 1] == 0x7a)
}

proof fn lemma_plain_output(data: Seq<u8>)
    requires
        is_plain_output(data),
    ensures
        !draining::starts_transfer(data),
{
    assert forall|pat: Seq<u8>, len: int|
        pat == remote_files::rz_header() || pat == remote_files::rz_header_stripped() || pat
            == remote_files::rz_greeting() implies !#[trigger] remote_files::stands_in(data, pat, len) by {
        if remote_files::stands_in(data, pat, len) {
            let i = choose|i: int| remote_files::stands_at(data, pat, len, i);
            let part = data.subrange(i, i + pat.len());
            assert(part[0] == data[i]);
            assert(part[1] == data[i + 1]);
            assert(part[0] == pat[0] && part[1] == pat[1]);
        }
    }
}

/// Output is written as it came, to the terminal of the session that it came from, and to no
/// other; a session that no pane shows writes nowhere. Nothing of what is open changes.
pub proof fn law_output_is_written_to_its_session(
    before: NeoShell,
    sid: String,
    data: Vec<u8>,
    env: Env,
    after: NeoShell,
    fx: Seq<Effect>,
    found: Option<(String, String)>,
)
    requires
        draining::event_step(before, SshEvent::Data { session_id: sid, data }, env, after, fx, found),
        is_plain_output(data@),
        !before.typing.zmodem@.contains_key(sid@),
    ensures
        after.sessions == before.sessions,
        found is None,
        (exists|i: int| 0 <= i < before.sessions.tabs@.len() && (#[trigger] before.sessions.tabs@[i]).shows(sid@))
            ==> fx == seq![Effect::Feed(sid, data)],
        (forall|i: int|
            0 <= i < before.sessions.tabs@.len() ==> !(#[trigger] before.sessions.tabs@[i]).shows(sid@))
            ==> fx.len() == 0,
{
    reveal(draining::event_step);
    lemma_plain_output(data@);
    tabs::lemma_first_tab(before.sessions.tabs@, |t: TerminalTab| t.shows(sid@));
}

/// A file transfer that starts in the terminal is stopped: five CAN and five backspaces go to
/// its session, nothing of it is written to the screen, and what came is kept to find the
/// name in.
pub proof fn law_a_transfer_in_the_terminal_is_stopped(
    before: NeoShell,
    sid: String,
    data: Vec<u8>,
    env: Env,
    after: NeoShell,
    fx: Seq<Effect>,
    found: Option<(String, String)>,
    at: int,
)
    requires
        draining::event_step(before, SshEvent::Data { session_id: sid, data }, env, after, fx, found),
        !before.typing.zmodem@.contains_key(sid@),
        0 <= at,
        at + 6 <= data@.len(),
        data@.subrange(at, at + 5) == seq![0x2au8, 0x2au8, 0x18u8, 0x42u8, 0x30u8],
    ensures
        after.sessions == before.sessions,
        fx.len() == 1,
        fx[0] matches Effect::SendQuietly(to, bytes) && to@ == sid@ && bytes@ == seq![
            0x18u8, 0x18u8, 0x18u8, 0x18u8, 0x18u8, 0x08u8, 0x08u8, 0x08u8, 0x08u8, 0x08u8,
        ],
        found matches Some(p) && p.0@ == sid@,
        after.typing.zmodem@.contains_key(sid@) && after.typing.zmodem@[sid@] == env.now,
{
    reveal(draining::event_step);
    assert(remote_files::stands_at(data@, remote_files::rz_header(), 6, at));
    assert(remote_files::stands_in(data@, remote_files::rz_header(), 6));
    assert(draining::starts_transfer(data@));
}

/// For two seconds after a transfer was stopped whatever its session sends is dropped, and
/// what other sessions send is not.
pub proof fn law_the_rest_of_a_transfer_is_dropped(
    before: NeoShell,
    sid: String,
    data: Vec<u8>,
    env: Env,
    after: NeoShell,
    fx: Seq<Effect>,
    found: Option<(String, String)>,
)
    requires
        draining::event_step(before, SshEvent::Data { session_id: sid, data }, env, after, fx, found),
        before.typing.zmodem@.contains_key(sid@),
        before.typing.zmodem@[sid@] <= env.now,
    ensures
        env.now - before.typing.zmodem@[sid@] < 2_000_000_000 ==> after == before && fx.len() == 0 && found is None,
        env.now - before.typing.zmodem@[sid@] >= 2_000_000_000 && is_plain_output(data@) && (exists|i: int|
            0 <= i < before.sessions.tabs@.len() && (#[trigger] before.sessions.tabs@[i]).shows(sid@)) ==> fx == seq![
            Effect::Feed(sid, data),
        ],
{
    reveal(draining::event_step);
    if is_plain_output(data@) {
        lemma_plain_output(data@);
    }
    tabs::lemma_first_tab(before.sessions.tabs@, |t: TerminalTab| t.shows(sid@));
}

/// A session that ends in a tab of its own takes that tab with it and no other; the tabs
/// behind move up by one, and all that was kept about the session is gone.
pub proof fn law_an_ended_session_takes_its_tab(
    before: NeoShell,
    sid: String,
    env: Env,
    after: NeoShell,
    fx: Seq<Effect>,
    found: Option<(String, String)>,
    i: int,
    k: int,
)
    requires
        draining::event_step(before, SshEvent::Closed { session_id: sid }, env, after, fx, found),
        0 <= i < before.sessions.tabs@.len(),
        sid@.len() > 0,
        before.sessions.tabs@[i].session_id@ == sid@,
        before.sessions.tabs@[i].split is None,
        forall|j: int| 0 <= j < before.sessions.tabs@.len() && j != i ==> !(#[trigger] before.sessions.tabs@[j]).shows(
            sid@,
        ),
        0 <= k < before.sessions.tabs@.len() - 1,
    ensures
        after.sessions.tabs@.len() == before.sessions.tabs@.len() - 1,
        after.sessions.tabs@[k] == before.sessions.tabs@[if k < i {
            k
        } else {
            k + 1
        }],
        !after.browser.listings@.contains_key(sid@),
        !after.monitor.alerts@.contains_key(sid@),
        !after.broadcast.selected@.contains(sid@),
        fx.len() == 1,
        fx[0] matches Effect::ForgetSession(s) && s@ == sid@,
{
    reveal(draining::event_step);
    let list = before.sessions.tabs@;
    tabs::lemma_is_first_tab(list, |t: TerminalTab| t.shows(sid@), i);
    assert forall|j: int| 0 <= j < i implies (#[trigger] list[j]).session_id@ != sid@ by {
        assert(!list[j].shows(sid@));
    }
    tabs::lemma_is_first_tab(list, |t: TerminalTab| t.session_id@ == sid@, i);
    let mid = choose|mid: NeoShell| #[trigger] draining::session_closed_via(before, sid@, mid, after, fx);
    assert(mid.sessions == before.sessions);
    assert(tabs::tab_showing(list, sid@) == Some(i));
    assert(tabs::tab_with_main(list, sid@) == Some(i));
}

/// A session that ends in one of two panes takes that pane alone: the other pane's session
/// and terminal are what the tab shows afterwards, and no other tab changes.
pub proof fn law_an_ended_session_leaves_the_other_pane(
    before: NeoShell,
    sid: String,
    env: Env,
    after: NeoShell,
    fx: Seq<Effect>,
    found: Option<(String, String)>,
    i: int,
    k: int,
)
    requires
        draining::event_step(before, SshEvent::Closed { session_id: sid }, env, after, fx, found),
        0 <= i < before.sessions.tabs@.len(),
        sid@.len() > 0,
        before.sessions.tabs@[i].split is Some,
        before.sessions.tabs@[i].session_id@ == sid@ <==> before.sessions.tabs@[i].split->0.session_id@ != sid@,
        forall|j: int| 0 <= j < i ==> !(#[trigger] before.sessions.tabs@[j]).shows(sid@),
        0 <= k < before.sessions.tabs@.len(),
    ensures
        after.sessions.tabs@.len() == before.sessions.tabs@.len(),
        after.sessions.active_tab == before.sessions.active_tab,
        k != i ==> after.sessions.tabs@[k] == before.sessions.tabs@[k],
        after.sessions.tabs@[i].split is None,
        after.sessions.tabs@[i].id == before.sessions.tabs@[i].id,
        before.sessions.tabs@[i].session_id@ == sid@ ==> after.sessions.tabs@[i].session_id
            == before.sessions.tabs@[i].split->0.session_id && after.sessions.tabs@[i].terminal
            == before.sessions.tabs@[i].split->0.terminal,
        before.sessions.tabs@[i].session_id@ != sid@ ==> after.sessions.tabs@[i].session_id
            == before.sessions.tabs@[i].session_id && after.sessions.tabs@[i].terminal
            == before.sessions.tabs@[i].terminal,
{
    reveal(draining::event_step);
    let list = before.sessions.tabs@;
    assert(list[i].shows(sid@));
    tabs::lemma_is_first_tab(list, |t: TerminalTab| t.shows(sid@), i);
    let mid = choose|mid: NeoShell| #[trigger] draining::session_closed_via(before, sid@, mid, after, fx);
    assert(mid.sessions == before.sessions);
    assert(tabs::tab_showing(list, sid@) == Some(i));
}

/// A tab that reconnects says so behind its own title and says no more once it has: after both
/// events the title is what it was, and only the title of that tab ever changed.
pub proof fn law_a_reconnect_leaves_the_title_as_it_was(
    first: NeoShell,
    sid: String,
    attempt: u32,
    env: Env,
    second: NeoShell,
    third: NeoShell,
    fx: Seq<Effect>,
    gx: Seq<Effect>,
    found: Option<(String, String)>,
    seen: Option<(String, String)>,
    rest: Seq<char>,
    i: int,
    k: int,
)
    requires
        draining::event_step(first, SshEvent::Reconnecting { session_id: sid, attempt }, env, second, fx, found),
        draining::event_step(second, SshEvent::Reconnected { session_id: sid }, env, third, gx, seen),
        env.texts.says("tab.reconnecting"@) == catalog::placeholder("title"@) + seq![' ', '['] + rest,
        0 <= i < first.sessions.tabs@.len(),
        first.sessions.tabs@[i].session_id@ == sid@,
        forall|j: int| 0 <= j < i ==> (#[trigger] first.sessions.tabs@[j]).session_id@ != sid@,
        !text::contains(first.sessions.tabs@[i].title@, seq![' ', '[']),
        0 <= k < first.sessions.tabs@.len(),
    ensures
        text::contains(second.sessions.tabs@[i].title@, seq![' ', '[']),
        third.sessions.tabs@[i].title@ == first.sessions.tabs@[i].title@,
        third.sessions.tabs@.len() == first.sessions.tabs@.len(),
        second.sessions.tabs@[i].terminal == first.sessions.tabs@[i].terminal,
        k != i ==> second.sessions.tabs@[k] == first.sessions.tabs@[k] && third.sessions.tabs@[k]
            == first.sessions.tabs@[k],
{
    reveal(draining::event_step);
    let list = first.sessions.tabs@;
    tabs::lemma_is_first_tab(list, |t: TerminalTab| t.session_id@ == sid@, i);
    assert(tabs::tab_with_main(list, sid@) == Some(i));
    let title = list[i].title@;
    titles::law_reconnect_marker_comes_off(rest, title, attempt as nat);
    assert(titles::marker() =~= seq![' ', '[']);
    let then = second.sessions.tabs@;
    assert forall|j: int| 0 <= j < i implies (#[trigger] then[j]).session_id@ != sid@ by {
        assert(then[j] == list[j]);
    }
    tabs::lemma_is_first_tab(then, |t: TerminalTab| t.session_id@ == sid@, i);
    assert(tabs::tab_with_main(then, sid@) == Some(i));
}

/// The remote side is told the columns and the rows of the terminal on screen, in that order,
/// and is told them once: a second look finds nothing to tell.
pub proof fn law_a_size_is_told_once(
    first: NeoShell,
    second: NeoShell,
    third: NeoShell,
    fx: Seq<Effect>,
    gx: Seq<Effect>,
    i: int,
)
    requires
        draining::resized(first, second, fx),
        draining::resized(second, third, gx),
        first.sessions.active_tab == Some(i as usize),
        0 <= i < first.sessions.tabs@.len() <= usize::MAX,
        first.sessions.tabs@[i].session_id@.len() > 0,
        first.sessions.tabs@[i].terminal.cols > 0,
        first.sessions.tabs@[i].terminal.rows > 0,
        first.sessions.last_term_size != (
            first.sessions.tabs@[i].terminal.cols,
            first.sessions.tabs@[i].terminal.rows,
        ),
    ensures
        fx == seq![
            Effect::Resize(
                first.sessions.tabs@[i].session_id,
                first.sessions.tabs@[i].terminal.cols,
                first.sessions.tabs@[i].terminal.rows,
            ),
        ],
        gx.len() == 0,
        second.sessions.tabs == first.sessions.tabs,
{
}

/// Events are taken in the order that they came in: the one held back before any that is
/// queued, and the first in the queue before the rest, which stay as they are.
pub proof fn law_events_are_taken_in_their_order(
    before: NeoShell,
    budget: DrainBudget,
    after: NeoShell,
    left: DrainBudget,
    came: Option<SshEvent>,
)
    requires
        draining::event_taken(before, budget, after, left, came),
        came is Some,
    ensures
        before.sessions.held is Some ==> came == before.sessions.held && after.sessions.inbox@
            == before.sessions.inbox@ && after.sessions.held is None,
        before.sessions.held is None ==> before.sessions.inbox@.len() > 0 && before.sessions.inbox@ == seq![came->0]
            + after.sessions.inbox@,
{
    if before.sessions.held is None {
        assert(before.sessions.inbox@ =~= seq![before.sessions.inbox@[0]] + before.sessions.inbox@.drop_first());
    }
}

/// An event of a session that is still connecting is held, not dropped, and nothing that is
/// queued behind it overtakes it.
pub proof fn law_events_wait_for_their_pane(
    before: NeoShell,
    budget: DrainBudget,
    after: NeoShell,
    left: DrainBudget,
    came: Option<SshEvent>,
    e: SshEvent,
)
    requires
        draining::event_taken(before, budget, after, left, came),
        tabs::connecting(before.sessions.tabs@, events::session_of(e)),
        before.sessions.held == Some(e) || (before.sessions.held is None && budget.room()
            && before.sessions.inbox@.len() > 0 && before.sessions.inbox@[0] == e),
    ensures
        came is None,
        after.sessions.held == Some(e),
{
}

// ---- the name of what a terminal sends -------------------------------------------------------------------------

/// A line that says `sz` and a name asks for that name, without the blanks around it.
pub proof fn law_a_typed_name_is_what_is_sent(blanks: Seq<char>, name: Seq<char>)
    requires
        forall|i: int| 0 <= i < blanks.len() ==> blanks[i] == ' ',
        name.len() > 0,
        text::trim(name) == name,
    ensures
        input::sz_of("sz "@ + blanks + name) == Some(name),
        input::sz_of(name) is Some ==> text::starts_with(name, "sz "@),
{
    reveal_strlit("sz ");
    let s = "sz "@ + blanks + name;
    assert(s.subrange(0, 3) =~= "sz "@);
    assert(s.skip(3) =~= blanks + name);
    lemma_blanks_before(blanks, name);
}

proof fn lemma_blanks_before(blanks: Seq<char>, name: Seq<char>)
    requires
        forall|i: int| 0 <= i < blanks.len() ==> blanks[i] == ' ',
        text::trim(name) == name,
    ensures
        text::trim(blanks + name) == name,
    decreases blanks.len(),
{
    if blanks.len() == 0 {
        assert(blanks + name =~= name);
    } else {
        let less = blanks.drop_first();
        assert((blanks + name).drop_first() =~= less + name);
        assert((blanks + name)[0] == ' ');
        lemma_blanks_before(less, name);
    }
}

/// A prompt of the form `user@host:directory$` shows the directory: what stands between the
/// colon and the sign that ends the prompt.
pub proof fn law_a_prompt_shows_its_directory(
    user: Seq<char>,
    host: Seq<char>,
    dir: Seq<char>,
    sign: char,
    typed: Seq<char>,
)
    requires
        sign == '$' || sign == '#',
        forall|i: int| 0 <= i < host.len() ==> host[i] != '@' && host[i] != ':',
        forall|i: int| 0 <= i < dir.len() ==> dir[i] != '@' && dir[i] != '$' && dir[i] != '#',
        forall|i: int| 0 <= i < typed.len() ==> typed[i] != '@',
        dir.len() > 0,
        text::trim(dir) == dir,
    ensures
        grid::prompt_dir(user + seq!['@'] + host + seq![':'] + dir + seq![sign] + typed) == Some(dir),
{
    let behind = dir + seq![sign] + typed;
    let tail = host + seq![':'] + behind;
    let line = user + seq!['@'] + host + seq![':'] + dir + seq![sign] + typed;
    let n = user.len() as int;
    assert(line =~= user + seq!['@'] + tail);
    text::lemma_rfind(line, seq!['@'], line.len() as int);
    assert(line.subrange(n, n + 1) =~= seq!['@']);
    assert(text::occurs_at(line, seq!['@'], n));
    assert forall|j: int| n < j <= line.len() implies !text::occurs_at(line, seq!['@'], j) by {
        if text::occurs_at(line, seq!['@'], j) {
            assert(line.subrange(j, j + 1)[0] == '@');
            assert(line[j] == tail[j - n - 1]);
        }
    }
    assert(text::rfind_char(line, '@') == Some(n));
    assert(line.skip(n + 1) =~= tail);
    let m = host.len() as int;
    text::lemma_find(tail, seq![':'], 0);
    assert(tail.subrange(m, m + 1) =~= seq![':']);
    assert(text::occurs_at(tail, seq![':'], m));
    assert forall|j: int| 0 <= j < m implies !text::occurs_at(tail, seq![':'], j) by {
        if text::occurs_at(tail, seq![':'], j) {
            assert(tail.subrange(j, j + 1)[0] == ':');
            assert(tail[j] == host[j]);
        }
    }
    assert(text::find_char(tail, ':') == Some(m));
    assert(tail.skip(m + 1) =~= behind);
    lemma_prompt_end(dir, sign, typed);
}

proof fn lemma_prompt_end(dir: Seq<char>, sign: char, typed: Seq<char>)
    requires
        sign == '$' || sign == '#',
        forall|i: int| 0 <= i < dir.len() ==> dir[i] != '$' && dir[i] != '#',
    ensures
        grid::up_to_prompt_end(dir + seq![sign] + typed) == dir,
    decreases dir.len(),
{
    let s = dir + seq![sign] + typed;
    if dir.len() == 0 {
        assert(s[0] == sign);
    } else {
        let less = dir.drop_first();
        assert(s.drop_first() =~= less + seq![sign] + typed);
        assert(s[0] == dir[0]);
        lemma_prompt_end(less, sign, typed);
        assert(seq![dir[0]] + less =~= dir);
    }
}

/// Text without escapes is left alone.
pub proof fn law_plain_text_has_no_escapes(s: Seq<char>)
    requires
        forall|i: int| 0 <= i < s.len() ==> s[i] != '\u{1b}',
    ensures
        grid::unescaped(s) == s,
    decreases s.len(),
{
    if s.len() > 0 {
        law_plain_text_has_no_escapes(s.drop_first());
        assert(seq![s[0]] + s.drop_first() =~= s);
    } else {
        assert(grid::unescaped(s) =~= s);
    }
}

/// A control sequence, ESC `[` with its parameters and the letter that ends it, is taken out,
/// and what stands behind it is read on.
pub proof fn law_a_control_sequence_is_taken_out(params: Seq<char>, letter: char, rest: Seq<char>)
    requires
        forall|i: int| 0 <= i < params.len() ==> !('@' <= #[trigger] params[i] <= '~'),
        '@' <= letter <= '~',
    ensures
        grid::unescaped(seq!['\u{1b}', '['] + params + seq![letter] + rest) == grid::unescaped(rest),
{
    let s = seq!['\u{1b}', '['] + params + seq![letter] + rest;
    let t = s.drop_first();
    assert(t[0] == '[');
    assert(t.drop_first() =~= params + seq![letter] + rest);
    lemma_control_over(params, letter, rest);
}

proof fn lemma_control_over(params: Seq<char>, letter: char, rest: Seq<char>)
    requires
        forall|i: int| 0 <= i < params.len() ==> !('@' <= #[trigger] params[i] <= '~'),
        '@' <= letter <= '~',
    ensures
        grid::after_control(params + seq![letter] + rest) == rest,
    decreases params.len(),
{
    let s = params + seq![letter] + rest;
    if params.len() == 0 {
        assert(s.drop_first() =~= rest);
    } else {
        let less = params.drop_first();
        assert(s[0] == params[0]);
        assert(s.drop_first() =~= less + seq![letter] + rest);
        lemma_control_over(less, letter, rest);
    }
}

} // verus!
