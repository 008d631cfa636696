//! What the SSH side sends, handled: output, ends and reconnects of sessions,
//! and the file transfers that start inside a terminal.

use vstd::prelude::*;
use vstd::string::*;

use crate::catalog::Catalog;
use crate::common;
use crate::events;
use crate::events::DrainBudget;
use crate::events::SshEvent;
use crate::grid;
use crate::history;
use crate::panes;
use crate::remote_files;
use crate::secrets;
use crate::signing;
use crate::split;
use crate::state;
use crate::state::Effect;
use crate::state::Env;
use crate::state::Message;
use crate::state::NeoShell;
use crate::state::Sessions;
use crate::state::Typing;
use crate::tabs;
use crate::tabs::TerminalTab;
use crate::text;
use crate::titles;

verus! {

/// What ZMODEM leaves behind is not shown for this long after it was detected.
pub const ZMODEM_QUIET: u128 = 2_000_000_000;

/// ZMODEM cancel sequence: five times CAN, five times BS.
pub open spec fn zmodem_cancel() -> Seq<u8> {
    seq![0x18u8, 0x18, 0x18, 0x18, 0x18, 0x08, 0x08, 0x08, 0x08, 0x08]
}

/// What `String::from_utf8_lossy` reads in bytes.
pub uninterp spec fn lossy_text(bytes: Seq<u8>) -> Seq<char>;

/// Wraps `String::from_utf8_lossy`: the text in the bytes, with a replacement
/// character wherever they are no UTF-8. The same bytes always give the same
/// text, and bytes that are UTF-8 give the text that they encode. How many
/// replacement characters stand for bytes that are not, is not said here.
#[verifier::external_body]
fn read_lossy(bytes: &[u8]) -> (r: String)
    ensures
        r@ == lossy_text(bytes@),
        vstd::utf8::valid_utf8(bytes@) ==> r@ == vstd::utf8::decode_utf8(bytes@),
{
    String::from_utf8_lossy(bytes).into_owned()
}

// ---- a transfer that starts in the terminal ---------------------------------------------------------------

/// The file that an `sz` sends: as the terminal shows it, as the output echoes
/// it, or as it was typed.
pub open spec fn sent_name(before: NeoShell, sid: Seq<char>, output: Seq<char>) -> Option<Seq<char>> {
    let shown = match tabs::tab_with_main(before.sessions.tabs@, sid) {
        Some(i) => grid::shown_sz(before.sessions.tabs@[i].terminal),
        None => None,
    };
    if shown is Some {
        shown
    } else if grid::first_sz(split::lines(grid::unescaped(output))) is Some {
        grid::first_sz(split::lines(grid::unescaped(output)))
    } else {
        remote_files::text_at(before.typing.sz_filename@, sid)
    }
}

pub fn find_sent_name(state: &NeoShell, sid: &str, output: &str) -> (r: Option<String>)
    requires
        state.wf(),
    ensures
        secrets::opt_view(r) == sent_name(*state, sid@, output@),
{
    match tabs::position_of_main(&state.sessions.tabs, sid) {
        Some(i) => {
            assert(state::tab_wf(state.sessions.tabs@[i as int]));
            match grid::extract_sz_from_grid(&state.sessions.tabs[i].terminal) {
                Some(name) => {
                    return Some(name);
                },
                None => {},
            }
        },
        None => {},
    }
    match grid::extract_sz_filename(output) {
        Some(name) => Some(name),
        None => match state.typing.sz_filename.get(sid) {
            Some(name) => Some(name.clone()),
            None => None,
        },
    }
}

pub open spec fn sz_note(name: Seq<char>) -> Seq<char> {
    "\r\n\x1b[36m[NeoShell] sz: downloading "@ + name + " via SFTP...\x1b[0m\r\n"@
}

pub open spec fn rz_note() -> Seq<char> {
    "\r\n\x1b[36m[NeoShell] rz detected - opening file picker...\x1b[0m\r\n"@
}

/// A note on the tab whose main pane shows the session, where there is one.
pub open spec fn notes(fx: Seq<Effect>, tabs: Seq<TerminalTab>, sid: Seq<char>, note: Seq<char>) -> bool {
    match tabs::tab_with_main(tabs, sid) {
        Some(i) => fx.len() == 1 && common::notices(fx[0], tabs[i].id@, note),
        None => fx.len() == 0,
    }
}

pub fn note_on_main(tabs: &Vec<TerminalTab>, sid: &str, note: String) -> (fx: Vec<Effect>)
    ensures
        notes(fx@, tabs@, sid@, note@),
{
    match tabs::position_of_main(tabs, sid) {
        Some(i) => common::one(Effect::Notice(tabs[i].id.clone(), note)),
        None => common::nothing(),
    }
}

pub open spec fn cancels_zmodem(e: Effect, sid: Seq<char>) -> bool {
    match e {
        Effect::SendQuietly(s, bytes) => s@ == sid && bytes@ == zmodem_cancel(),
        _ => false,
    }
}

/// What the start of a transfer in a session's output makes of a state: it is
/// cancelled, and what follows it of ZMODEM is not shown.
pub open spec fn transfer_stopped(
    before: NeoShell,
    sid: Seq<char>,
    now: u128,
    after: NeoShell,
    fx: Seq<Effect>,
) -> bool {
    &&& fx.len() == 1
    &&& cancels_zmodem(fx[0], sid)
    &&& after.typing.zmodem@ == before.typing.zmodem@.insert(sid, now)
    &&& after == (NeoShell { typing: Typing { zmodem: after.typing.zmodem, ..before.typing }, ..before })
}

fn stop_transfer(state: &mut NeoShell, session_id: &str, now: u128) -> (fx: Vec<Effect>)
    requires
        old(state).wf(),
    ensures
        transfer_stopped(*old(state), session_id@, now, *final(state), fx@),
        final(state).wf(),
{
    let bytes: Vec<u8> = vec![0x18u8, 0x18, 0x18, 0x18, 0x18, 0x08, 0x08, 0x08, 0x08, 0x08];
    assert(bytes@ =~= zmodem_cancel());
    state.typing.zmodem.insert(session_id.to_owned(), now);
    common::one(Effect::SendQuietly(session_id.to_owned(), bytes))
}

/// What naming the file of a transfer makes of a state. Where a name is known it
/// is a download; else a file is to be picked and uploaded.
pub open spec fn transfer_named(
    before: NeoShell,
    sid: Seq<char>,
    output: Seq<char>,
    after: NeoShell,
    fx: Seq<Effect>,
) -> bool {
    match sent_name(before, sid, output) {
        Some(name) => {
            &&& notes(fx, before.sessions.tabs@, sid, sz_note(name))
            &&& common::text_set(before.typing.sz_filename@, sid, name, after.typing.sz_filename@)
            &&& after == (NeoShell {
                typing: Typing { sz_filename: after.typing.sz_filename, ..before.typing },
                ..before
            })
        },
        None => notes(fx, before.sessions.tabs@, sid, rz_note()) && after == before,
    }
}

/// Say that a transfer goes over SFTP instead, and note the name of what is
/// sent. True for a download.
pub fn name_transfer(state: &mut NeoShell, session_id: &str, output: &str) -> (r: (Vec<Effect>, bool))
    requires
        old(state).wf(),
    ensures
        transfer_named(*old(state), session_id@, output@, *final(state), r.0@),
        r.1 == (sent_name(*old(state), session_id@, output@) is Some),
        final(state).wf(),
{
    match find_sent_name(state, session_id, output) {
        Some(name) => {
            let mut note = "\r\n\x1b[36m[NeoShell] sz: downloading ".to_owned();
            note.append(name.as_str());
            note.append(" via SFTP...\x1b[0m\r\n");
            let said = note_on_main(&state.sessions.tabs, session_id, note);
            state.typing.sz_filename.insert(session_id.to_owned(), name);
            (said, true)
        },
        None => {
            let note = "\r\n\x1b[36m[NeoShell] rz detected - opening file picker...\x1b[0m\r\n".to_owned();
            (note_on_main(&state.sessions.tabs, session_id, note), false)
        },
    }
}

/// Where the naming of several transfers stands.
pub struct Naming {
    pub state: NeoShell,
    pub fx: Seq<Effect>,
    /// The first session in which an upload starts, and a download.
    pub upload: Option<String>,
    pub download: Option<String>,
}

pub open spec fn first_of(known: Option<String>, found: String) -> Option<String> {
    match known {
        Some(s) => Some(s),
        None => Some(found),
    }
}

/// One more transfer named: from `d` to `e`.
pub open spec fn named_one(d: Naming, p: (String, String), e: Naming) -> bool {
    let n = d.fx.len() as int;
    let download = sent_name(d.state, p.0@, p.1@) is Some;
    &&& d.fx.len() <= e.fx.len()
    &&& e.fx.take(n) == d.fx
    &&& transfer_named(d.state, p.0@, p.1@, e.state, e.fx.skip(n))
    &&& e.upload == (if download {
        d.upload
    } else {
        first_of(d.upload, p.0)
    })
    &&& e.download == (if download {
        first_of(d.download, p.0)
    } else {
        d.download
    })
}

/// The states that the naming goes through, one transfer after the other.
pub open spec fn is_naming(steps: Seq<Naming>, list: Seq<(String, String)>) -> bool {
    &&& steps.len() == list.len() + 1
    &&& forall|i: int| 0 <= i < list.len() ==> named_one(steps[i], #[trigger] list[i], steps[i + 1])
}

/// The first transfer that starts: an upload before a download.
pub open spec fn first_transfer(upload: Option<String>, download: Option<String>) -> Seq<Effect> {
    match (upload, download) {
        (Some(s), _) => seq![Effect::Then(Message::RzDetected(s))],
        (None, Some(s)) => seq![Effect::Then(Message::SzDetected(s))],
        (None, None) => Seq::empty(),
    }
}

pub open spec fn spotted_via(
    before: NeoShell,
    list: Seq<(String, String)>,
    steps: Seq<Naming>,
    after: NeoShell,
    fx: Seq<Effect>,
) -> bool {
    let end = steps.last();
    &&& is_naming(steps, list)
    &&& steps[0] == (Naming { state: before, fx: Seq::empty(), upload: None, download: None })
    &&& after == end.state
    &&& fx == end.fx + first_transfer(end.upload, end.download)
}

/// What the transfers that a drain spotted make of a state.
pub open spec fn spotted(before: NeoShell, list: Seq<(String, String)>, after: NeoShell, fx: Seq<Effect>) -> bool {
    exists|steps: Seq<Naming>| #[trigger] spotted_via(before, list, steps, after, fx)
}

/// Transfers started in the sessions, each with the output it started in. By now
/// the terminals show what came before it: the command line that names the
/// file among it. Only the first transfer is taken up.
pub fn on_transfers_spotted(state: &mut NeoShell, list: Vec<(String, String)>) -> (fx: Vec<Effect>)
    requires
        old(state).wf(),
    ensures
        spotted(*old(state), list@, *final(state), fx@),
        final(state).wf(),
{
    let mut fx: Vec<Effect> = Vec::new();
    let mut upload: Option<String> = None;
    let mut download: Option<String> = None;
    let ghost mut steps: Seq<Naming> = seq![
        Naming { state: *state, fx: Seq::empty(), upload: None, download: None },
    ];
    assert(fx@ =~= Seq::<Effect>::empty());
    let mut i: usize = 0;
    while i < list.len()
        invariant
            i <= list@.len(),
            steps.len() == i + 1,
            forall|k: int| 0 <= k < i ==> named_one(steps[k], #[trigger] list@[k], steps[k + 1]),
            steps[0] == (Naming { state: *old(state), fx: Seq::empty(), upload: None, download: None }),
            steps.last() == (Naming { state: *state, fx: fx@, upload, download }),
            state.wf(),
        decreases list@.len() - i,
    {
        let ghost d = steps.last();
        let (mut said, sends) = name_transfer(state, list[i].0.as_str(), list[i].1.as_str());
        let ghost more = said@;
        fx.append(&mut said);
        if sends {
            if download.is_none() {
                download = Some(list[i].0.clone());
            }
        } else if upload.is_none() {
            upload = Some(list[i].0.clone());
        }
        proof {
            let e = Naming { state: *state, fx: fx@, upload, download };
            assert(e.fx.take(d.fx.len() as int) =~= d.fx);
            assert(e.fx.skip(d.fx.len() as int) =~= more);
            assert(named_one(d, list@[i as int], e));
            let longer = steps.push(e);
            assert forall|k: int| 0 <= k < i + 1 implies named_one(longer[k], #[trigger] list@[k], longer[k + 1]) by {
                if k < i {
                    assert(named_one(steps[k], list@[k], steps[k + 1]));
                }
            }
            steps = longer;
        }
        i += 1;
    }
    let ghost done = fx@;
    let ghost ends = first_transfer(upload, download);
    match upload {
        Some(s) => {
            fx.push(Effect::Then(Message::RzDetected(s)));
        },
        None => match download {
            Some(s) => {
                fx.push(Effect::Then(Message::SzDetected(s)));
            },
            None => {},
        },
    }
    assert(fx@ =~= done + ends);
    assert(spotted_via(*old(state), list@, steps, *state, fx@));
    fx
}

// ---- one event ------------------------------------------------------------------------------------------

/// A transfer was detected in the session a moment ago.
pub open spec fn is_quiet(s: NeoShell, sid: Seq<char>, now: u128) -> bool {
    s.typing.zmodem@.contains_key(sid) && !history::elapsed(s.typing.zmodem@[sid], now, ZMODEM_QUIET)
}

pub open spec fn starts_transfer(data: Seq<u8>) -> bool {
    data.len() >= 4 && (remote_files::stands_in(data, remote_files::rz_header(), 6) || remote_files::stands_in(
        data,
        remote_files::rz_header_stripped(),
        4,
    ) || remote_files::stands_in(data, remote_files::rz_greeting(), 22))
}

/// `mid` is `before` without a detection that is over.
pub open spec fn quiet_over(before: NeoShell, sid: Seq<char>, mid: NeoShell) -> bool {
    &&& mid == (NeoShell { typing: Typing { zmodem: mid.typing.zmodem, ..before.typing }, ..before })
    &&& mid.typing.zmodem@ == before.typing.zmodem@.remove(sid)
}

pub open spec fn data_in_via(
    before: NeoShell,
    sid: String,
    data: Vec<u8>,
    now: u128,
    mid: NeoShell,
    after: NeoShell,
    fx: Seq<Effect>,
    found: Option<(String, String)>,
) -> bool {
    &&& quiet_over(before, sid@, mid)
    &&& if starts_transfer(data@) {
        &&& transfer_stopped(mid, sid@, now, after, fx)
        &&& found matches Some(p) && p.0 == sid && p.1@ == lossy_text(data@)
    } else {
        &&& after == mid
        &&& found is None
        &&& fx == (if tabs::cells_of(before.sessions.tabs@, sid@) is Some {
            seq![Effect::Feed(sid, data)]
        } else {
            Seq::empty()
        })
    }
}

/// What output makes of a state. What ZMODEM leaves behind is dropped; else the
/// output is written to the terminal that shows the session, in whichever pane,
/// unless it starts a transfer.
pub open spec fn data_in(
    before: NeoShell,
    sid: String,
    data: Vec<u8>,
    now: u128,
    after: NeoShell,
    fx: Seq<Effect>,
    found: Option<(String, String)>,
) -> bool {
    if is_quiet(before, sid@, now) {
        after == before && fx.len() == 0 && found is None
    } else {
        exists|mid: NeoShell| #[trigger] data_in_via(before, sid, data, now, mid, after, fx, found)
    }
}

fn on_data(state: &mut NeoShell, session_id: String, data: Vec<u8>, now: u128) -> (r: (Vec<Effect>, Option<(String, String)>))
    requires
        old(state).wf(),
    ensures
        data_in(*old(state), session_id, data, now, *final(state), r.0@, r.1),
        final(state).wf(),
{
    let quiet = match state.typing.zmodem.get(session_id.as_str()) {
        Some(at) => !history::has_elapsed(*at, now, ZMODEM_QUIET),
        None => false,
    };
    if quiet {
        return (common::nothing(), None);
    }
    let _over = state.typing.zmodem.remove(session_id.as_str());
    let ghost mid = *state;
    let ghost sid = session_id;
    let r = if data.len() >= 4 && remote_files::detect_zmodem_rz(data.as_slice()) {
        let output = read_lossy(data.as_slice());
        let fx = stop_transfer(state, session_id.as_str(), now);
        (fx, Some((session_id, output)))
    } else {
        match tabs::find_terminal_for_session(&state.sessions.tabs, session_id.as_str()) {
            Some(_) => (common::one(Effect::Feed(session_id, data)), None),
            None => (common::nothing(), None),
        }
    };
    assert(data_in_via(*old(state), sid, data, now, mid, *state, r.0@, r.1));
    r
}

/// `after` is `before` without the pane, or the tab, that showed the session.
pub open spec fn pane_ended(before: Sessions, sid: Seq<char>, after: Sessions) -> bool {
    match tabs::split_tab_of(before.tabs@, sid) {
        Some(i) => {
            &&& 0 <= i < before.tabs@.len()
            &&& tabs::without_pane(before.tabs@[i], sid) is Some
            &&& after.tabs@ == before.tabs@.update(i, tabs::without_pane(before.tabs@[i], sid)->0)
            &&& after == (Sessions { tabs: after.tabs, ..before })
        },
        None => match tabs::tab_with_main(before.tabs@, sid) {
            Some(i) => {
                &&& after.tabs@ == before.tabs@.remove(i)
                &&& after == (Sessions {
                    tabs: after.tabs,
                    active_tab: panes::active_after_close(i, after.tabs@.len()),
                    ..before
                })
            },
            None => {
                &&& after.tabs@ == before.tabs@
                &&& after == (Sessions { tabs: after.tabs, ..before })
            },
        },
    }
}

pub open spec fn session_closed_via(
    before: NeoShell,
    sid: Seq<char>,
    mid: NeoShell,
    after: NeoShell,
    fx: Seq<Effect>,
) -> bool {
    &&& common::forgot(before, sid, mid)
    &&& pane_ended(mid.sessions, sid, after.sessions)
    &&& after == (NeoShell { sessions: after.sessions, ..mid })
    &&& fx.len() == 1
    &&& fx[0] matches Effect::ForgetSession(s) && s@ == sid
}

/// What the end of a session makes of a state.
pub open spec fn session_closed(before: NeoShell, sid: Seq<char>, after: NeoShell, fx: Seq<Effect>) -> bool {
    exists|mid: NeoShell| #[trigger] session_closed_via(before, sid, mid, after, fx)
}

/// A session ended. If a split pane showed it, just that pane goes; if a main
/// pane with a live split did, the split is promoted to main. Only a tab with
/// no split left is removed outright.
fn on_closed(state: &mut NeoShell, session_id: String) -> (fx: Vec<Effect>)
    requires
        old(state).wf(),
    ensures
        session_closed(*old(state), session_id@, *final(state), fx@),
        final(state).wf(),
{
    state.forget_session(session_id.as_str());
    let ghost mid = *state;
    let handled = tabs::remove_split_pane(&mut state.sessions.tabs, session_id.as_str());
    proof {
        panes::lemma_wf_pane_gone(mid.sessions.tabs@, session_id@);
    }
    if !handled {
        match tabs::position_of_main(&state.sessions.tabs, session_id.as_str()) {
            Some(i) => {
                let _tab = state.sessions.tabs.remove(i);
                state.sessions.active_tab = panes::active_once_closed(i, state.sessions.tabs.len());
                assert(state::tabs_wf(state.sessions.tabs@)) by {
                    assert forall|k: int| 0 <= k < state.sessions.tabs@.len() implies state::tab_wf(
                        #[trigger] state.sessions.tabs@[k],
                    ) by {
                        if k < i {
                            assert(state.sessions.tabs@[k] == mid.sessions.tabs@[k]);
                        } else {
                            assert(state.sessions.tabs@[k] == mid.sessions.tabs@[k + 1]);
                        }
                    }
                }
            },
            None => {},
        }
    }
    assert(pane_ended(mid.sessions, session_id@, state.sessions));
    let fx = common::one(Effect::ForgetSession(session_id));
    assert(session_closed_via(*old(state), session_id@, mid, *state, fx@));
    fx
}

/// `after` is `before` with another title on the tab of the session.
pub open spec fn retitled(before: NeoShell, sid: Seq<char>, title: spec_fn(Seq<char>) -> Seq<char>, after: NeoShell) -> bool {
    match tabs::tab_with_main(before.sessions.tabs@, sid) {
        Some(i) => {
            let t = after.sessions.tabs@[i];
            &&& t.title@ == title(before.sessions.tabs@[i].title@)
            &&& after.sessions.tabs@ == before.sessions.tabs@.update(
                i,
                TerminalTab { title: t.title, ..before.sessions.tabs@[i] },
            )
            &&& after == (NeoShell {
                sessions: Sessions { tabs: after.sessions.tabs, ..before.sessions },
                ..before
            })
        },
        None => after == before,
    }
}

pub open spec fn with_marker(attempt: nat, texts: Catalog) -> spec_fn(Seq<char>) -> Seq<char> {
    |title: Seq<char>| titles::marked_title(texts.says("tab.reconnecting"@), titles::base_of(title), attempt)
}

pub open spec fn without_marker() -> spec_fn(Seq<char>) -> Seq<char> {
    |title: Seq<char>| titles::base_of(title)
}

fn retitle(state: &mut NeoShell, i: usize, title: String)
    requires
        old(state).wf(),
        i < old(state).sessions.tabs@.len(),
    ensures
        final(state).sessions.tabs@ == old(state).sessions.tabs@.update(
            i as int,
            TerminalTab { title, ..old(state).sessions.tabs@[i as int] },
        ),
        *final(state) == (NeoShell {
            sessions: Sessions { tabs: final(state).sessions.tabs, ..old(state).sessions },
            ..*old(state)
        }),
        final(state).wf(),
{
    assert(state::tab_wf(state.sessions.tabs@[i as int]));
    state.sessions.tabs[i].title = title;
    assert(state.sessions.tabs@ =~= old(state).sessions.tabs@.update(
        i as int,
        TerminalTab { title, ..old(state).sessions.tabs@[i as int] },
    ));
}

fn on_reconnecting(state: &mut NeoShell, session_id: String, attempt: u32, texts: &Catalog)
    requires
        old(state).wf(),
    ensures
        retitled(*old(state), session_id@, with_marker(attempt as nat, *texts), *final(state)),
        final(state).wf(),
{
    match tabs::position_of_main(&state.sessions.tabs, session_id.as_str()) {
        Some(i) => {
            let base = titles::title_base(state.sessions.tabs[i].title.as_str());
            let title = titles::reconnecting_title(base.as_str(), attempt, texts);
            retitle(state, i, title);
        },
        None => {},
    }
}

fn on_reconnected(state: &mut NeoShell, session_id: String)
    requires
        old(state).wf(),
    ensures
        retitled(*old(state), session_id@, without_marker(), *final(state)),
        final(state).wf(),
{
    match tabs::position_of_main(&state.sessions.tabs, session_id.as_str()) {
        Some(i) => {
            let title = titles::title_base(state.sessions.tabs[i].title.as_str());
            retitle(state, i, title);
        },
        None => {},
    }
}

/// What one event makes of a state.
#[verifier::opaque]
pub open spec fn event_step(
    before: NeoShell,
    event: SshEvent,
    env: Env,
    after: NeoShell,
    fx: Seq<Effect>,
    found: Option<(String, String)>,
) -> bool {
    match event {
        SshEvent::Data { session_id, data } => data_in(before, session_id, data, env.now, after, fx, found),
        SshEvent::Closed { session_id } => session_closed(before, session_id@, after, fx) && found is None,
        SshEvent::Error { session_id, error } => after == before && fx.len() == 0 && found is None,
        SshEvent::Reconnecting { session_id, attempt } => retitled(
            before,
            session_id@,
            with_marker(attempt as nat, env.texts),
            after,
        ) && fx.len() == 0 && found is None,
        SshEvent::Reconnected { session_id } => retitled(before, session_id@, without_marker(), after) && fx.len()
            == 0 && found is None,
    }
}

/// Handle one event of the SSH side.
pub fn handle_event(state: &mut NeoShell, event: SshEvent, env: &Env) -> (r: (Vec<Effect>, Option<(String, String)>))
    requires
        old(state).wf(),
    ensures
        event_step(*old(state), event, *env, *final(state), r.0@, r.1),
        final(state).wf(),
        same_queue(*old(state), *final(state)),
{
    proof {
        reveal(event_step);
    }
    match event {
        SshEvent::Data { session_id, data } => on_data(state, session_id, data, env.now),
        SshEvent::Closed { session_id } => (on_closed(state, session_id), None),
        SshEvent::Error { session_id: _, error: _ } => (common::nothing(), None),
        SshEvent::Reconnecting { session_id, attempt } => {
            on_reconnecting(state, session_id, attempt, &env.texts);
            (common::nothing(), None)
        },
        SshEvent::Reconnected { session_id } => {
            on_reconnected(state, session_id);
            (common::nothing(), None)
        },
    }
}

/// What is queued of the SSH side is the same, and so is what a resize and the
/// sign-in look at.
pub open spec fn same_queue(before: NeoShell, after: NeoShell) -> bool {
    &&& after.sessions.inbox == before.sessions.inbox
    &&& after.sessions.held == before.sessions.held
    &&& after.sessions.last_term_size == before.sessions.last_term_size
    &&& after.focus == before.focus
}

// ---- a drain --------------------------------------------------------------------------------------------

/// What taking the next event makes of a state and of the budget.
pub open spec fn event_taken(
    before: NeoShell,
    budget: DrainBudget,
    after: NeoShell,
    left: DrainBudget,
    came: Option<SshEvent>,
) -> bool {
    let s = before.sessions;
    let next = events::due(s.held, s.inbox@, budget);
    let taken = s.held is None && next is Some;
    &&& match next {
        Some(e) => if tabs::connecting(s.tabs@, events::session_of(e)) {
            came is None && after.sessions.held == Some(e)
        } else {
            came == Some(e) && after.sessions.held is None
        },
        None => came is None && after.sessions.held is None,
    }
    &&& after.sessions.inbox@ == (if taken {
        s.inbox@.drop_first()
    } else {
        s.inbox@
    })
    &&& left == (if taken {
        budget.charged(events::weight(s.inbox@[0]))
    } else {
        budget
    })
    &&& after == (NeoShell {
        sessions: Sessions { held: after.sessions.held, inbox: after.sessions.inbox, ..before.sessions },
        ..before
    })
}

fn take_event(state: &mut NeoShell, budget: &mut DrainBudget) -> (came: Option<SshEvent>)
    requires
        old(state).wf(),
    ensures
        event_taken(*old(state), *old(budget), *final(state), *final(budget), came),
        final(state).wf(),
        came is Some ==> final(state).sessions.held is None,
        came is Some ==> 2 * final(state).sessions.inbox@.len() + holding(*final(state)) < 2
            * old(state).sessions.inbox@.len() + holding(*old(state)),
{
    events::next_ssh_event(
        &mut state.sessions.held,
        &mut state.sessions.inbox,
        budget,
        &state.sessions.tabs,
    )
}

pub open spec fn holding(s: NeoShell) -> int {
    if s.sessions.held is Some {
        1
    } else {
        0
    }
}

/// What a drain came to: where it stands, and what it asked for on the way.
pub struct Drain {
    pub state: NeoShell,
    pub left: DrainBudget,
    pub fx: Seq<Effect>,
    /// The sessions in which a transfer started, with the output it started in.
    pub spotted: Seq<(String, String)>,
}

pub open spec fn one_more(list: Seq<(String, String)>, found: Option<(String, String)>) -> Seq<(String, String)> {
    match found {
        Some(p) => list.push(p),
        None => list,
    }
}

/// The next event is the end of a session that changes the tab of a spotted
/// transfer: of the session it started in, or of the other one in that tab. It
/// waits for the transfer to be named, which looks at the tabs and at what their
/// terminals show.
pub open spec fn must_wait(s: Sessions, left: DrainBudget, spotted: Seq<(String, String)>) -> bool {
    match events::due(s.held, s.inbox@, left) {
        Some(SshEvent::Closed { session_id }) => ends_a_tab_of(s.tabs@, spotted, session_id@),
        _ => false,
    }
}

/// A transfer was spotted in the session, or in one that shares its tab.
pub open spec fn ends_a_tab_of(tabs: Seq<TerminalTab>, spotted: Seq<(String, String)>, sid: Seq<char>) -> bool {
    exists|i: int| 0 <= i < spotted.len() && tied(tabs, (#[trigger] spotted[i]).0@, sid)
}

/// The two are one session, or one tab shows both.
pub open spec fn tied(tabs: Seq<TerminalTab>, a: Seq<char>, b: Seq<char>) -> bool {
    a == b || exists|i: int| 0 <= i < tabs.len() && #[trigger] tabs[i].shows(a) && tabs[i].shows(b)
}

fn are_tied(tabs: &Vec<TerminalTab>, a: &str, b: &str) -> (r: bool)
    ensures
        r == tied(tabs@, a@, b@),
{
    if text::same_text(a, b) {
        return true;
    }
    let mut i: usize = 0;
    while i < tabs.len()
        invariant
            i <= tabs@.len(),
            forall|k: int| 0 <= k < i ==> !(#[trigger] tabs@[k].shows(a@) && tabs@[k].shows(b@)),
        decreases tabs@.len() - i,
    {
        if tabs[i].has_session(a) && tabs[i].has_session(b) {
            return true;
        }
        i += 1;
    }
    false
}

fn ends_tab_of_spotted(tabs: &Vec<TerminalTab>, spotted: &Vec<(String, String)>, sid: &str) -> (r: bool)
    ensures
        r == ends_a_tab_of(tabs@, spotted@, sid@),
{
    let mut i: usize = 0;
    while i < spotted.len()
        invariant
            i <= spotted@.len(),
            forall|k: int| 0 <= k < i ==> !tied(tabs@, (#[trigger] spotted@[k]).0@, sid@),
        decreases spotted@.len() - i,
    {
        if are_tied(tabs, spotted[i].0.as_str(), sid) {
            return true;
        }
        i += 1;
    }
    false
}

fn ends_spotted(event: &SshEvent, tabs: &Vec<TerminalTab>, spotted: &Vec<(String, String)>) -> (r: bool)
    ensures
        r == (event matches SshEvent::Closed { session_id } && ends_a_tab_of(tabs@, spotted@, session_id@)),
{
    match event {
        SshEvent::Closed { session_id } => ends_tab_of_spotted(tabs, spotted, session_id.as_str()),
        _ => false,
    }
}

fn waits(s: &Sessions, left: &DrainBudget, spotted: &Vec<(String, String)>) -> (r: bool)
    ensures
        r == must_wait(*s, *left, spotted@),
{
    match &s.held {
        Some(e) => ends_spotted(e, &s.tabs, spotted),
        None => left.has_room() && s.inbox.len() > 0 && ends_spotted(&s.inbox[0], &s.tabs, spotted),
    }
}

/// One more event handled: from `d` by way of `mid` to `e`.
pub open spec fn drained_one(
    d: Drain,
    env: Env,
    event: SshEvent,
    mid: NeoShell,
    more: Seq<Effect>,
    found: Option<(String, String)>,
    e: Drain,
) -> bool {
    &&& !must_wait(d.state.sessions, d.left, d.spotted)
    &&& event_taken(d.state, d.left, mid, e.left, Some(event))
    &&& event_step(mid, event, env, e.state, more, found)
    &&& same_queue(mid, e.state)
    &&& e.fx == d.fx + more
    &&& e.spotted == one_more(d.spotted, found)
}

pub open spec fn drained_next(d: Drain, env: Env, e: Drain) -> bool {
    exists|event: SshEvent, mid: NeoShell, more: Seq<Effect>, found: Option<(String, String)>| #[trigger]
        drained_one(d, env, event, mid, more, found, e)
}

/// The states that a drain goes through, one event after the other.
pub open spec fn is_drain(steps: Seq<Drain>, env: Env) -> bool {
    &&& steps.len() > 0
    &&& forall|i: int|
        0 < i < steps.len() ==> drained_next(#[trigger] before_step(steps, i), env, steps[i])
}

pub open spec fn before_step(steps: Seq<Drain>, i: int) -> Drain {
    steps[i - 1]
}

/// A drain handles no more events than its budget has room for, and the one
/// that was held back before it.
pub proof fn law_a_drain_is_bounded(steps: Seq<Drain>, env: Env)
    requires
        is_drain(steps, env),
    ensures
        steps.len() - 1 + steps.last().left.events <= steps[0].left.events + holding(steps[0].state),
    decreases steps.len(),
{
    lemma_bounded(steps, env);
}

proof fn lemma_bounded(steps: Seq<Drain>, env: Env)
    requires
        is_drain(steps, env),
    ensures
        steps.len() - 1 + steps.last().left.events + holding(steps.last().state) <= steps[0].left.events + holding(
            steps[0].state,
        ),
    decreases steps.len(),
{
    if steps.len() > 1 {
        let head = steps.drop_last();
        assert forall|i: int| 0 < i < head.len() implies drained_next(
            #[trigger] before_step(head, i),
            env,
            head[i],
        ) by {
            assert(before_step(head, i) == before_step(steps, i));
        }
        lemma_bounded(head, env);
        let n = steps.len() - 1;
        let d = before_step(steps, n);
        assert(drained_next(d, env, steps[n]));
        let (event, mid, more, found) = choose|
            event: SshEvent,
            mid: NeoShell,
            more: Seq<Effect>,
            found: Option<(String, String)>,
        | #[trigger]
            drained_one(d, env, event, mid, more, found, steps[n]);
        assert(event_taken(d.state, d.left, mid, steps[n].left, Some(event)));
        assert(head.last() == d);
    }
}

/// Handle what the SSH side sent, as far as the budget goes.
fn drain(state: &mut NeoShell, env: &Env) -> (r: (Vec<Effect>, Vec<(String, String)>, DrainBudget, Ghost<Seq<Drain>>))
    requires
        old(state).wf(),
    ensures
        drain_done(*old(state), *env, r.3@, r.0@, r.1@, r.2, *final(state)),
        final(state).wf(),
        final(state).focus == old(state).focus,
{
    let mut fx: Vec<Effect> = Vec::new();
    let mut spotted: Vec<(String, String)> = Vec::new();
    let mut budget = DrainBudget::new(events::SSH_DRAIN_BYTES, events::SSH_DRAIN_EVENTS);
    let ghost mut steps: Seq<Drain> = seq![first_step(*state)];
    assert(fx@ =~= Seq::<Effect>::empty());
    assert(spotted@ =~= Seq::<(String, String)>::empty());
    let mut going = true;
    while going
        invariant
            is_drain(steps, *env),
            steps[0] == first_step(*old(state)),
            steps.last().fx == fx@,
            steps.last().spotted == spotted@,
            going ==> steps.last().state == *state && steps.last().left == budget,
            !going ==> drain_stopped(steps.last(), *state, budget),
            state.wf(),
            state.focus == old(state).focus,
        decreases 2 * state.sessions.inbox@.len() + holding(*state) + (if going {
            1int
        } else {
            0
        }),
    {
        if waits(&state.sessions, &budget, &spotted) {
            going = false;
        } else {
            let ghost d = steps.last();
            match take_event(state, &mut budget) {
                None => {
                    going = false;
                },
                Some(e) => {
                    let ghost mid = *state;
                    let (mut more, found) = handle_event(state, e, env);
                    let ghost added = more@;
                    let ghost what = found;
                    fx.append(&mut more);
                    match found {
                        Some(p) => {
                            spotted.push(p);
                        },
                        None => {},
                    }
                    proof {
                        let next = Drain { state: *state, left: budget, fx: fx@, spotted: spotted@ };
                        assert(fx@ =~= d.fx + added);
                        assert(drained_one(d, *env, e, mid, added, what, next));
                        let longer = steps.push(next);
                        assert forall|i: int| 0 < i < longer.len() implies drained_next(
                            #[trigger] before_step(longer, i),
                            *env,
                            longer[i],
                        ) by {
                            if i < steps.len() {
                                assert(before_step(longer, i) == before_step(steps, i));
                            } else {
                                assert(before_step(longer, i) == d);
                            }
                        }
                        steps = longer;
                    }
                },
            }
        }
    }
    (fx, spotted, budget, Ghost(steps))
}

pub open spec fn first_step(s: NeoShell) -> Drain {
    Drain {
        state: s,
        left: DrainBudget { bytes: events::SSH_DRAIN_BYTES, events: events::SSH_DRAIN_EVENTS },
        fx: Seq::empty(),
        spotted: Seq::empty(),
    }
}

/// The drain ends at `d`: the next event must wait, or there is none to take.
pub open spec fn drain_stopped(d: Drain, after: NeoShell, left: DrainBudget) -> bool {
    if must_wait(d.state.sessions, d.left, d.spotted) {
        after == d.state && left == d.left
    } else {
        event_taken(d.state, d.left, after, left, None)
    }
}

/// A drain of `before` went through `steps`, and there was no event to take at
/// the end, or one that must wait.
pub open spec fn drain_done(
    before: NeoShell,
    env: Env,
    steps: Seq<Drain>,
    fx: Seq<Effect>,
    spotted: Seq<(String, String)>,
    left: DrainBudget,
    after: NeoShell,
) -> bool {
    &&& is_drain(steps, env)
    &&& steps[0] == first_step(before)
    &&& drain_stopped(steps.last(), after, left)
    &&& fx == steps.last().fx
    &&& spotted == steps.last().spotted
}

// ---- the remote side's size -----------------------------------------------------------------------------

/// What a terminal of another size makes of a state: the remote side is told.
pub open spec fn resized(before: NeoShell, after: NeoShell, fx: Seq<Effect>) -> bool {
    match common::active_at(before.sessions) {
        Some(i) => {
            let t = before.sessions.tabs@[i];
            let size = (t.terminal.cols, t.terminal.rows);
            if t.session_id@.len() > 0 && size != before.sessions.last_term_size && size.0 > 0 && size.1 > 0 {
                &&& after == (NeoShell {
                    sessions: Sessions { last_term_size: size, ..before.sessions },
                    ..before
                })
                &&& fx == seq![Effect::Resize(t.session_id, size.0, size.1)]
            } else {
                after == before && fx.len() == 0
            }
        },
        None => after == before && fx.len() == 0,
    }
}

/// If the active tab's terminal was laid out anew, tell the remote side.
pub fn tell_size(state: &mut NeoShell) -> (fx: Vec<Effect>)
    requires
        old(state).wf(),
    ensures
        resized(*old(state), *final(state), fx@),
        final(state).wf(),
{
    match state.sessions.active() {
        Some(i) => {
            let cols: usize = state.sessions.tabs[i].terminal.cols;
            let rows: usize = state.sessions.tabs[i].terminal.rows;
            if !crate::forms::is_empty_text(state.sessions.tabs[i].session_id.as_str()) && (cols
                != state.sessions.last_term_size.0 || rows != state.sessions.last_term_size.1) && cols > 0 && rows
                > 0 {
                state.sessions.last_term_size = (cols, rows);
                return common::one(Effect::Resize(state.sessions.tabs[i].session_id.clone(), cols, rows));
            }
            common::nothing()
        },
        None => common::nothing(),
    }
}

// ---- the poll -------------------------------------------------------------------------------------------

/// What comes after a drain: another one, where output may still be queued, or an
/// event waits for the transfers that were spotted.
pub open spec fn goes_on(left: DrainBudget, after: NeoShell, spotted: Seq<(String, String)>) -> Seq<Effect> {
    if must_wait(after.sessions, left, spotted) || (!left.room() && after.sessions.held is None) {
        seq![Effect::Then(Message::PollSshEvents)]
    } else {
        Seq::empty()
    }
}

/// What ends a poll: the transfers that were spotted, or the news of another
/// size.
pub open spec fn poll_ends(
    drained: NeoShell,
    spotted: Seq<(String, String)>,
    after: NeoShell,
    fx: Seq<Effect>,
) -> bool {
    if spotted.len() > 0 {
        &&& after == drained
        &&& fx.len() == 1
        &&& fx[0] matches Effect::Then(Message::TransfersSpotted(list)) && list@ == spotted
    } else {
        resized(drained, after, fx)
    }
}

pub open spec fn polled_via(
    before: NeoShell,
    env: Env,
    asked: NeoShell,
    prompts: Seq<Effect>,
    steps: Seq<Drain>,
    drained: NeoShell,
    left: DrainBudget,
    last: Seq<Effect>,
    after: NeoShell,
    fx: Seq<Effect>,
) -> bool {
    let end = steps.last();
    &&& signing::prompts_taken(before, env.now, asked, prompts)
    &&& drain_done(asked, env, steps, end.fx, end.spotted, left, drained)
    &&& poll_ends(drained, end.spotted, after, last)
    &&& fx == prompts + end.fx + last + goes_on(left, drained, end.spotted)
}

/// What a poll makes of a state: the sign-in challenges are taken in, then the
/// events of the SSH side are drained.
pub open spec fn polled(before: NeoShell, env: Env, after: NeoShell, fx: Seq<Effect>) -> bool {
    exists|
        asked: NeoShell,
        prompts: Seq<Effect>,
        steps: Seq<Drain>,
        drained: NeoShell,
        left: DrainBudget,
        last: Seq<Effect>,
    | #[trigger]
        polled_via(before, env, asked, prompts, steps, drained, left, last, after, fx)
}

/// Handle what came from the SSH side.
///
/// The end of a session in whose tab a transfer was spotted waits until that
/// transfer was named from what its terminal shows.
///
/// Out of budget with output perhaps still queued, the rest comes in a fresh
/// update, so the window redraws and takes input in between instead of freezing
/// until a flood is through. A message rather than a wake, so the wakes' frame
/// pacing does not throttle a backlog. Not while output is held for a connect:
/// the connect wakes the drain for that.
pub fn on_poll_ssh_events(state: &mut NeoShell, env: &Env) -> (fx: Vec<Effect>)
    requires
        old(state).wf(),
        old(state).focus.issued + 3 <= u64::MAX,
    ensures
        polled(*old(state), *env, *final(state), fx@),
        final(state).wf(),
{
    let mut fx = signing::poll_auth_prompts(state, env.now);
    let ghost asked = *state;
    let ghost prompts = fx@;
    assert(asked.wf()) by {
        let (mid, last) = choose|mid: NeoShell, last: Seq<Effect>| #[trigger]
            signing::prompts_taken_via(*old(state), env.now, mid, last, asked, prompts);
        assert(asked.sessions == old(state).sessions);
    }
    let (mut came, spotted, budget, Ghost(steps)) = drain(state, env);
    let ghost drained = *state;
    let ghost events_fx = came@;
    fx.append(&mut came);
    let again = waits(&state.sessions, &budget, &spotted) || (!budget.has_room() && state.sessions.held.is_none());
    let ghost found = spotted@;
    let mut last = if spotted.len() > 0 {
        common::one(Effect::Then(Message::TransfersSpotted(spotted)))
    } else {
        tell_size(state)
    };
    let ghost ends = last@;
    fx.append(&mut last);
    if again {
        fx.push(Effect::Then(Message::PollSshEvents));
    }
    assert(fx@ =~= prompts + events_fx + ends + goes_on(budget, drained, found));
    assert(polled_via(*old(state), *env, asked, prompts, steps, drained, budget, ends, *state, fx@));
    fx
}

} // verus!
