//! What one key press, and what is typed, does to the app.

use vstd::prelude::*;
use vstd::string::*;

use crate::common;
use crate::input;
use crate::keys;
use crate::keys::Key;
use crate::keys::Modifiers;
use crate::keys::Named;
use crate::state::Effect;
use crate::state::Env;
use crate::state::Message;
use crate::state::NeoShell;
use crate::steps;
use crate::tabs;
use crate::text;
use crate::updating;
use crate::updating::Area;

verus! {

// ---- what is typed into a session -------------------------------------------------------------------

/// What is typed into a session is sent to it as it is, and to no other.
pub proof fn law_what_is_typed_is_sent(
    before: NeoShell,
    sid: String,
    data: String,
    env: Env,
    after: NeoShell,
    fx: Seq<Effect>,
)
    requires
        updating::updated(before, Message::TerminalInput(sid, data), env, after, fx),
    ensures
        steps::asks_for(fx, seq![Effect::Send(sid, data)]),
        after.sessions == before.sessions,
        forall|other: Seq<char>|
            other != sid@ ==> after.typing.cmd_buffer@.contains_key(other)
                == #[trigger] before.typing.cmd_buffer@.contains_key(other) && after.typing.cmd_buffer@[other]
                == before.typing.cmd_buffer@[other],
{
    let (mid, first) = steps::lemma_handled(before, Message::TerminalInput(sid, data), env, after, fx, Area::Input);
    reveal(input::input_step);
}

/// The line typed so far in a session.
pub open spec fn line_of(s: NeoShell, sid: Seq<char>) -> Seq<char> {
    if s.typing.cmd_buffer@.contains_key(sid) {
        s.typing.cmd_buffer@[sid]@
    } else {
        Seq::empty()
    }
}

/// A character that is typed stands at the end of the line, Backspace takes the last one
/// off again, and Enter starts a new line.
pub proof fn law_the_line_follows_the_keys(
    before: NeoShell,
    sid: String,
    data: String,
    env: Env,
    after: NeoShell,
    fx: Seq<Effect>,
)
    requires
        updating::updated(before, Message::TerminalInput(sid, data), env, after, fx),
    ensures
        data@ == seq!['\r'] || data@ == seq!['\n'] ==> line_of(after, sid@).len() == 0,
        data@ == seq!['\u{7f}'] || data@ == seq!['\u{8}'] ==> line_of(after, sid@) == (if line_of(before, sid@).len()
            > 0 {
            line_of(before, sid@).drop_last()
        } else {
            line_of(before, sid@)
        }),
        (forall|i: int| 0 <= i < data@.len() ==> !text::is_ctrl(#[trigger] data@[i])) ==> line_of(after, sid@) == line_of(
            before,
            sid@,
        ) + data@,
{
    let (mid, first) = steps::lemma_handled(before, Message::TerminalInput(sid, data), env, after, fx, Area::Input);
    reveal(input::input_step);
    reveal_strlit("\r");
    reveal_strlit("\n");
    reveal_strlit("\x7f");
    reveal_strlit("\x08");
    assert("\r"@ =~= seq!['\r']);
    assert("\n"@ =~= seq!['\n']);
    assert("\x7f"@ =~= seq!['\u{7f}']);
    assert("\x08"@ =~= seq!['\u{8}']);
    assert(line_of(before, sid@) =~= input::old_line(before, sid@));
    if forall|i: int| 0 <= i < data@.len() ==> !text::is_ctrl(#[trigger] data@[i]) {
        if data@.len() > 0 {
            assert(!text::is_ctrl(data@[0]));
            assert(!input::is_enter(data@));
            assert(!input::is_erase(data@));
        }
        assert(input::is_plain(data@));
    }
}

// ---- shortcuts ------------------------------------------------------------------------------------------

/// The keys are the terminal's and the shortcuts': the vault is open, and neither the
/// palette nor a dialog has them.
pub open spec fn keys_are_free(s: NeoShell) -> bool {
    &&& s.vault.screen is Main
    &&& !s.palette.show
    &&& s.rename.tab is None
    &&& s.editor.path is None
    &&& !s.form.show
    &&& s.panels.interface is None
}

/// The character is the letter, small or capital.
pub open spec fn is_letter(c: Seq<char>, low: char, up: char) -> bool {
    c == seq![low] || c == seq![up]
}

proof fn lemma_letters()
    ensures
        "c"@ == seq!['c'] && "C"@ == seq!['C'] && "v"@ == seq!['v'] && "V"@ == seq!['V'],
        "f"@ == seq!['f'] && "F"@ == seq!['F'] && "j"@ == seq!['j'] && "J"@ == seq!['J'],
        "k"@ == seq!['k'] && "K"@ == seq!['K'] && "d"@ == seq!['d'] && "D"@ == seq!['D'],
        "t"@ == seq!['t'] && "T"@ == seq!['T'] && "w"@ == seq!['w'] && "W"@ == seq!['W'],
        "h"@ == seq!['h'] && "H"@ == seq!['H'] && "l"@ == seq!['l'] && "L"@ == seq!['L'],
        "q"@ == seq!['q'] && "Q"@ == seq!['Q'] && "/"@ == seq!['/'] && "?"@ == seq!['?'],
        "]"@ == seq![']'] && "+"@ == seq!['+'] && "="@ == seq!['='] && "-"@ == seq!['-'],
        "0"@ == seq!['0'] && "1"@ == seq!['1'] && "2"@ == seq!['2'] && "3"@ == seq!['3'],
        "4"@ == seq!['4'] && "5"@ == seq!['5'] && "6"@ == seq!['6'] && "7"@ == seq!['7'],
        "8"@ == seq!['8'] && "9"@ == seq!['9'] && "s"@ == seq!['s'],
{
    reveal_strlit("c");
    reveal_strlit("C");
    reveal_strlit("v");
    reveal_strlit("V");
    reveal_strlit("f");
    reveal_strlit("F");
    reveal_strlit("j");
    reveal_strlit("J");
    reveal_strlit("k");
    reveal_strlit("K");
    reveal_strlit("d");
    reveal_strlit("D");
    reveal_strlit("t");
    reveal_strlit("T");
    reveal_strlit("w");
    reveal_strlit("W");
    reveal_strlit("h");
    reveal_strlit("H");
    reveal_strlit("l");
    reveal_strlit("L");
    reveal_strlit("q");
    reveal_strlit("Q");
    reveal_strlit("/");
    reveal_strlit("?");
    reveal_strlit("]");
    reveal_strlit("+");
    reveal_strlit("=");
    reveal_strlit("-");
    reveal_strlit("0");
    reveal_strlit("1");
    reveal_strlit("2");
    reveal_strlit("3");
    reveal_strlit("4");
    reveal_strlit("5");
    reveal_strlit("6");
    reveal_strlit("7");
    reveal_strlit("8");
    reveal_strlit("9");
    reveal_strlit("s");
}

/// Two texts of one character are the same if and only if the characters are.
proof fn lemma_one(a: char, b: char)
    ensures
        seq![a] == seq![b] <==> a == b,
{
    if a != b {
        assert(seq![a][0] == a && seq![b][0] == b);
    }
}

/// The command key with a letter does what the letter stands for: F searches, J folds the
/// panel, K opens the palette, D splits, T connects, W closes; with Shift, L locks and Q
/// quits.
#[verifier::rlimit(40)]
pub proof fn law_letters_with_the_command_key(
    before: NeoShell,
    c: String,
    mods: Modifiers,
    t: Option<String>,
    captured: bool,
    env: Env,
    after: NeoShell,
    fx: Seq<Effect>,
)
    requires
        updating::updated(before, Message::KeyboardEvent(Key::Character(c), mods, t, captured), env, after, fx),
        keys_are_free(before),
        env.mac ==> mods.logo,
        !env.mac ==> mods.control,
        c@.len() == 1,
    ensures
        is_letter(c@, 'f', 'F') ==> steps::asks_for(fx, seq![Effect::Then(Message::ToggleTerminalSearch)]),
        is_letter(c@, 'j', 'J') ==> steps::asks_for(fx, seq![Effect::Then(Message::ToggleBottomPanel)]),
        is_letter(c@, 'k', 'K') ==> steps::asks_for(fx, seq![Effect::Then(Message::TogglePalette)]),
        is_letter(c@, 'd', 'D') ==> steps::asks_for(fx, seq![Effect::Then(Message::SplitTab(!mods.shift))]),
        is_letter(c@, 't', 'T') ==> steps::asks_for(fx, seq![Effect::Then(Message::ShowConnectDialog)]),
        is_letter(c@, 'w', 'W') && mods.shift ==> steps::asks_for(fx, seq![Effect::Then(Message::CloseFocusedPane)]),
        is_letter(c@, 'w', 'W') && !mods.shift ==> (before.sessions.active_tab matches Some(i) ==> steps::asks_for(
            fx,
            seq![Effect::Then(Message::TabClosed(i))],
        )),
        is_letter(c@, 'l', 'L') && mods.shift ==> steps::asks_for(fx, seq![Effect::Then(Message::LockNow)]),
        is_letter(c@, 'q', 'Q') && mods.shift ==> steps::asks_for(fx, seq![Effect::Then(Message::QuitApp)]),
        is_letter(c@, 'h', 'H') ==> after.history.show != before.history.show && steps::asks_for(fx, Seq::empty()),
        is_letter(c@, '/', '?') ==> after.panels.show_shortcuts != before.panels.show_shortcuts && steps::asks_for(
            fx,
            Seq::empty(),
        ),
        c@ == seq![']'] ==> steps::asks_for(fx, seq![Effect::Then(Message::SplitFocusToggle)]),
        '1' <= c@[0] <= '8' ==> steps::asks_for(
            fx,
            seq![Effect::Then(Message::SwitchToTab(((c@[0] as int) - ('1' as int)) as usize))],
        ),
        c@[0] == '9' && before.sessions.tabs@.len() > 0 ==> steps::asks_for(
            fx,
            seq![Effect::Then(Message::SwitchToTab((before.sessions.tabs@.len() - 1) as usize))],
        ),
        (if env.mac {
            !mods.shift
        } else {
            mods.shift
        }) && is_letter(c@, 'v', 'V') ==> steps::asks_for(
            fx,
            if captured {
                Seq::empty()
            } else {
                seq![Effect::Then(Message::PasteClipboard)]
            },
        ),
        (if env.mac {
            !mods.shift
        } else {
            mods.shift
        }) && is_letter(c@, 'c', 'C') && before.mouse.selection_start is Some && before.mouse.selection_end is Some
            ==> steps::asks_for(fx, seq![Effect::Then(Message::CopySelection)]),
{
    let m = Message::KeyboardEvent(Key::Character(c), mods, t, captured);
    let (mid, first) = steps::lemma_handled(before, m, env, after, fx, Area::Input);
    reveal(input::input_step);
    let s = updating::noted(before, m, env.now);
    lemma_letters();
    let x = c@[0];
    assert(c@ =~= seq![x]);
    assert forall|y: char| #[trigger] seq![y] == c@ <==> y == x by {
        lemma_one(y, x);
    }
    if first.len() == 0 {
        assert(first =~= Seq::empty());
    }
    let cut = input::cut_for(s, Key::Character(c), mods, env.mac, captured);
    assert(cut == input::shortcut(s, c@, mods, env.mac, captured));
    assert(!input::dialog_has_keys(s));
    assert(input::key_handled(s, Key::Character(c), mods, t, captured, env.mac, mid, first));
}

/// With the palette open the arrow keys walk through it and Enter carries out the row; no
/// other key leaves it for the terminal.
pub proof fn law_the_palette_has_the_keys(
    before: NeoShell,
    n: Named,
    mods: Modifiers,
    t: Option<String>,
    captured: bool,
    env: Env,
    after: NeoShell,
    fx: Seq<Effect>,
)
    requires
        updating::updated(before, Message::KeyboardEvent(Key::Named(n), mods, t, captured), env, after, fx),
        before.vault.screen is Main,
        before.palette.show,
        n != Named::Escape,
    ensures
        n == Named::ArrowUp ==> steps::asks_for(fx, seq![Effect::Then(Message::PaletteNavUp)]),
        n == Named::ArrowDown ==> steps::asks_for(fx, seq![Effect::Then(Message::PaletteNavDown)]),
        n == Named::Enter ==> steps::asks_for(fx, seq![Effect::Then(Message::PaletteExecute)]),
        n != Named::ArrowUp && n != Named::ArrowDown && n != Named::Enter ==> steps::asks_for(fx, Seq::empty()),
{
    let m = Message::KeyboardEvent(Key::Named(n), mods, t, captured);
    let (mid, first) = steps::lemma_handled(before, m, env, after, fx, Area::Input);
    reveal(input::input_step);
    if first.len() == 0 {
        assert(first =~= Seq::empty());
    }
}

/// Control with Tab goes to the next tab, with Shift too to the one before.
pub proof fn law_control_tab_walks_the_tabs(
    before: NeoShell,
    mods: Modifiers,
    t: Option<String>,
    captured: bool,
    env: Env,
    after: NeoShell,
    fx: Seq<Effect>,
)
    requires
        updating::updated(before, Message::KeyboardEvent(Key::Named(Named::Tab), mods, t, captured), env, after, fx),
        keys_are_free(before),
        mods.control,
        env.mac ==> !mods.logo,
    ensures
        steps::asks_for(
            fx,
            seq![
                Effect::Then(
                    if mods.shift {
                        Message::SwitchToPrevTab
                    } else {
                        Message::SwitchToNextTab
                    },
                ),
            ],
        ),
{
    let m = Message::KeyboardEvent(Key::Named(Named::Tab), mods, t, captured);
    let (mid, first) = steps::lemma_handled(before, m, env, after, fx, Area::Input);
    reveal(input::input_step);
    let s = updating::noted(before, m, env.now);
    assert(!input::dialog_has_keys(s));
    assert(input::cut_for(s, Key::Named(Named::Tab), mods, env.mac, captured) == input::Shortcut::Through);
}

/// The dialogs have their keys: Enter commits a tab's new name, and the command key with S
/// saves the file in the editor; nothing of it reaches the terminal.
pub proof fn law_dialogs_have_their_keys(
    before: NeoShell,
    key: Key,
    mods: Modifiers,
    t: Option<String>,
    captured: bool,
    env: Env,
    after: NeoShell,
    fx: Seq<Effect>,
)
    requires
        updating::updated(before, Message::KeyboardEvent(key, mods, t, captured), env, after, fx),
        before.vault.screen is Main,
        !before.palette.show,
        key != Key::Named(Named::Escape),
    ensures
        before.rename.tab is Some ==> steps::asks_for(
            fx,
            if key == Key::Named(Named::Enter) {
                seq![Effect::Then(Message::TabRenameCommit)]
            } else {
                Seq::empty()
            },
        ),
        before.rename.tab is None && before.editor.path is Some ==> (key matches Key::Character(c) ==> (c@ == seq!['s']
            && (if env.mac {
            mods.logo
        } else {
            mods.control
        }) ==> steps::asks_for(fx, seq![Effect::Then(Message::SaveEditor)]))),
        before.rename.tab is None && before.editor.path is None && (before.form.show || before.panels.interface is Some)
            ==> steps::asks_for(fx, Seq::empty()),
{
    let m = Message::KeyboardEvent(key, mods, t, captured);
    let (mid, first) = steps::lemma_handled(before, m, env, after, fx, Area::Input);
    reveal(input::input_step);
    lemma_letters();
    if first.len() == 0 {
        assert(first =~= Seq::empty());
    }
}

/// A key that nothing claims is typed into the session of the focused pane, as what it
/// sends to a terminal; with no pane connected, or nothing to send, it goes nowhere.
pub proof fn law_an_unclaimed_key_is_typed(
    before: NeoShell,
    n: Named,
    mods: Modifiers,
    t: Option<String>,
    env: Env,
    after: NeoShell,
    fx: Seq<Effect>,
)
    requires
        updating::updated(before, Message::KeyboardEvent(Key::Named(n), mods, t, false), env, after, fx),
        keys_are_free(before),
        before.top() is None,
        n != Named::Escape,
        n != Named::F1,
        !(n == Named::Tab && mods.control),
        env.mac ==> !mods.logo,
        !before.typing.quick_cmd_focused,
        !before.broadcast.sync_on,
    ensures
        ({
            let data = keys::sent(
                Key::Named(n),
                mods,
                match t {
                    Some(s) => Some(s@),
                    None => None,
                },
            );
            match (common::focused_sid(before.sessions), data) {
                (Some(sid), Some(d)) => {
                    &&& fx.len() > 0
                    &&& fx.len() <= 2
                    &&& fx.len() == 2 ==> fx[1] is QueryFocus
                    &&& fx[0] matches Effect::Then(Message::TerminalInput(to, what)) && to@ == sid && what@ == d
                },
                _ => steps::asks_for(fx, Seq::empty()),
            }
        }),
{
    let key = Key::Named(n);
    let m = Message::KeyboardEvent(key, mods, t, false);
    let (mid, first) = steps::lemma_handled(before, m, env, after, fx, Area::Input);
    reveal(input::input_step);
    let s = updating::noted(before, m, env.now);
    assert(s.top() == before.top()) by {
        lemma_same_top(before, m, env.now, 0);
    }
    assert(!input::dialog_has_keys(s));
    assert(input::cut_for(s, key, mods, env.mac, false) == input::Shortcut::Through);
    assert(input::terminal_key(s, key, mods, t, false, mid, first));
    let data = input::key_data(s, key, mods, t);
    if first.len() == 0 {
        assert(first =~= Seq::empty());
    }
    match data {
        Some(d) => {
            let sid = common::focused_sid(before.sessions)->0;
            let out = first.map_values(|e: Effect| input::typed_into(e));
            assert(out == seq![sid]);
            assert(out.len() == first.len());
            assert(out[0] == input::typed_into(first[0]));
            assert(input::types(first[0], d));
            if fx != first {
                assert(fx[0] == fx.drop_last()[0]);
            }
        },
        None => {},
    }
}

/// Taking note of a message opens and closes no overlay.
proof fn lemma_same_top(s: NeoShell, m: Message, now: u128, i: int)
    requires
        0 <= i,
    ensures
        updating::noted(s, m, now).top_from(i) == s.top_from(i),
    decreases 22 - i,
{
    if i < 22 {
        lemma_same_top(s, m, now, i + 1);
    }
}

/// A command replayed from the history, or sent from the quick-command line, is typed with
/// a line feed behind it, into the session of the active tab.
pub proof fn law_a_replayed_command_is_run(before: NeoShell, cmd: String, env: Env, after: NeoShell, fx: Seq<Effect>)
    requires
        updating::updated(before, Message::ReplayCommand(cmd), env, after, fx),
    ensures
        common::active_at(before.sessions) matches Some(i) ==> fx.len() > 0 && (fx[0] matches Effect::Send(sid, data)
            && sid@ == before.sessions.tabs@[i].session_id@ && data@ == cmd@ + seq!['\n']),
        common::active_at(before.sessions) is None ==> steps::asks_for(fx, Seq::empty()),
        !after.history.show,
        after.history.records == before.history.records,
{
    let (mid, first) = steps::lemma_handled(before, Message::ReplayCommand(cmd), env, after, fx, Area::Input);
    reveal(input::input_step);
    reveal_strlit("\n");
    assert("\n"@ =~= seq!['\n']);
    if first.len() == 0 {
        assert(first =~= Seq::empty());
    } else if fx != first {
        assert(fx[0] == fx.drop_last()[0]);
    }
}

/// The quick-command line is sent without the blanks round it, and is empty then; a
/// suggestion that is taken stands in it as it was offered.
pub proof fn law_the_quick_command_line(before: NeoShell, m: Message, env: Env, after: NeoShell, fx: Seq<Effect>)
    requires
        updating::updated(before, m, env, after, fx),
    ensures
        m is SendQuickCmd && text::trim(before.typing.quick_cmd@).len() > 0 ==> after.typing.quick_cmd@.len() == 0
            && fx.len() > 0 && (fx[0] matches Effect::Then(Message::ReplayCommand(c)) && c@ == text::trim(
            before.typing.quick_cmd@,
        )),
        m is SendQuickCmd && text::trim(before.typing.quick_cmd@).len() == 0 ==> after.typing.quick_cmd
            == before.typing.quick_cmd && steps::asks_for(fx, Seq::empty()),
        m matches Message::QuickCmdInputChanged(v) ==> after.typing.quick_cmd == v && after.typing.quick_cmd_focused,
        m matches Message::QuickCmdAccept(v) ==> after.typing.quick_cmd == v && after.typing.quick_cmd_focused,
        m matches Message::ModifiersChanged(mods) ==> after.typing.modifiers == mods,
{
    if m is SendQuickCmd || m is QuickCmdInputChanged || m is QuickCmdAccept || m is ModifiersChanged {
        let (mid, first) = steps::lemma_handled(before, m, env, after, fx, Area::Input);
        reveal(input::input_step);
        if first.len() == 0 {
            assert(first =~= Seq::empty());
        } else if fx != first {
            assert(fx[0] == fx.drop_last()[0]);
        }
    }
}

/// The clipboard goes to the session of the focused pane, bracketed exactly where its
/// terminal asks for that; under an overlay or an open menu it goes nowhere.
pub proof fn law_the_clipboard_goes_to_the_focused_pane(before: NeoShell, env: Env, after: NeoShell, fx: Seq<Effect>)
    requires
        updating::updated(before, Message::PasteClipboard, env, after, fx),
        !before.broadcast.sync_on,
    ensures
        before.browser.menu is Some || before.top() is Some || common::focused_sid(before.sessions) is None
            ==> steps::asks_for(fx, Seq::empty()),
        before.browser.menu is None && before.top() is None ==> (common::focused_sid(before.sessions) matches Some(sid)
            ==> fx.len() > 0 && (fx[0] matches Effect::Paste(list) && list@.len() == 1 && list@[0].0@ == sid && (
        list@[0].1 <==> (tabs::cells_of(before.sessions.tabs@, sid) matches Some(g) && g.bracketed_paste)))),
{
    let m = Message::PasteClipboard;
    let (mid, first) = steps::lemma_handled(before, m, env, after, fx, Area::Input);
    reveal(input::input_step);
    let s = updating::noted(before, m, env.now);
    lemma_same_top(before, m, env.now, 0);
    if first.len() == 0 {
        assert(first =~= Seq::empty());
    } else {
        match first[0] {
            Effect::Paste(list) => {
                let out = list@.map_values(|p: (String, bool)| p.0@);
                assert(out.len() == list@.len());
                assert(out[0] == list@[0].0@);
            },
            _ => {},
        }
        if fx != first {
            assert(fx[0] == fx.drop_last()[0]);
        }
    }
}

} // verus!
