//! The mouse over the terminal: wheel, press, drag, release and selection.

use vstd::prelude::*;
use vstd::string::*;

use crate::common;
use crate::forms;
use crate::grid;
use crate::state;
use crate::state::Browser;
use crate::state::Effect;
use crate::state::Env;
use crate::state::Message;
use crate::state::Mouse;
use crate::state::MouseButton;
use crate::state::MouseReport;
use crate::state::NeoShell;
use crate::state::Sessions;
use crate::state::Typing;
use crate::tabs;

verus! {

// ---- reports --------------------------------------------------------------------------------------------

fn copy_bytes(bytes: &Vec<u8>) -> (out: Vec<u8>)
    ensures
        out@ == bytes@,
{
    let mut out: Vec<u8> = Vec::new();
    let mut i: usize = 0;
    while i < bytes.len()
        invariant
            i <= bytes.len(),
            out@ =~= bytes@.take(i as int),
        decreases bytes.len() - i,
    {
        out.push(bytes[i]);
        i += 1;
    }
    assert(out@ =~= bytes@);
    out
}

pub open spec fn sends_bytes(e: Effect, sid: Seq<char>, bytes: Seq<u8>) -> bool {
    match e {
        Effect::SendQuietly(s, b) => s@ == sid && b@ == bytes,
        _ => false,
    }
}

/// The session that gets a press at the pointer, with the cell and the bytes
/// that say it: an application asked for the mouse, and the pointer is over its
/// pane.
pub open spec fn reported(s: NeoShell, env: Env) -> Option<(Seq<char>, (usize, usize), Seq<u8>)> {
    match (s.mouse_goes(), env.pointer.cell, env.pointer.encoded) {
        (Some(sid), Some(cell), Some(bytes)) => Some((sid, cell, bytes@)),
        _ => None,
    }
}

pub open spec fn report_view(r: Option<(String, (usize, usize), Vec<u8>)>) -> Option<
    (Seq<char>, (usize, usize), Seq<u8>),
> {
    match r {
        Some((sid, cell, bytes)) => Some((sid@, cell, bytes@)),
        None => None,
    }
}

fn report_at(s: &NeoShell, env: &Env) -> (r: Option<(String, (usize, usize), Vec<u8>)>)
    ensures
        report_view(r) == reported(*s, *env),
{
    match (s.mouse_report_target(), &env.pointer.cell, &env.pointer.encoded) {
        (Some(sid), Some(cell), Some(bytes)) => Some((sid, *cell, copy_bytes(bytes))),
        _ => None,
    }
}

// ---- the wheel ------------------------------------------------------------------------------------------

/// The user is scrolled back into the history of the focused pane.
pub open spec fn scrolled_back(s: Sessions) -> bool {
    common::focused_cells(s) matches Some(g) && g.scroll_offset > 0
}

/// What a wheel notch asks for: nothing under an overlay; an application that
/// reads the mouse scrolls itself, unless the user is scrolled back; else the
/// scrollback is scrolled.
pub open spec fn wheeled(s: NeoShell, up: bool, lines: usize, env: Env, fx: Seq<Effect>) -> bool {
    let to = reported(s, env);
    if s.top() is Some {
        fx.len() == 0
    } else if to is Some && !scrolled_back(s.sessions) {
        fx.len() == 1 && sends_bytes(fx[0], (to->0).0, (to->0).2)
    } else if common::active_at(s.sessions) is Some {
        fx == seq![Effect::ScrollView(up, lines)]
    } else {
        fx.len() == 0
    }
}

/// A wheel notch over the terminal.
pub fn on_wheel(s: &NeoShell, up: bool, lines: usize, env: &Env) -> (fx: Vec<Effect>)
    ensures
        wheeled(*s, up, lines, *env, fx@),
{
    if s.any_overlay_open() {
        return common::nothing();
    }
    let back = match s.sessions.focused_terminal() {
        Some(g) => g.scroll_offset > 0,
        None => false,
    };
    if !back {
        match report_at(s, env) {
            Some((sid, _cell, bytes)) => {
                return common::one(Effect::SendQuietly(sid, bytes));
            },
            None => {},
        }
    }
    match s.sessions.active() {
        Some(_) => common::one(Effect::ScrollView(up, lines)),
        None => common::nothing(),
    }
}

// ---- presses --------------------------------------------------------------------------------------------

/// The press went to the application: its drag and release will too.
pub open spec fn is_report(
    r: Option<MouseReport>,
    to: (Seq<char>, (usize, usize), Seq<u8>),
    button: MouseButton,
) -> bool {
    r matches Some(x) && x.session_id@ == to.0 && x.cell == to.1 && x.button == button
}

/// The menus go, and the quick-command input loses the focus.
pub open spec fn menus_gone(before: NeoShell) -> NeoShell {
    NeoShell {
        browser: Browser { context_menu: None, menu: None, ..before.browser },
        typing: Typing { quick_cmd_focused: false, ..before.typing },
        ..before
    }
}

pub open spec fn pressed(before: NeoShell, env: Env, after: NeoShell, fx: Seq<Effect>) -> bool {
    let mid = menus_gone(before);
    let to = reported(before, env);
    if before.top() is Some {
        after == before && fx.len() == 0
    } else if before.mouse.dragging_splitter {
        after == mid && fx.len() == 0
    } else if env.pointer.on_splitter && !before.panels.bottom_collapsed {
        &&& after == (NeoShell { mouse: Mouse { dragging_splitter: true, ..before.mouse }, ..mid })
        &&& fx == seq![Effect::BeginSplitterDrag]
    } else if to is Some {
        &&& is_report(after.mouse.report, to->0, MouseButton::Left)
        &&& after == (NeoShell { mouse: Mouse { report: after.mouse.report, ..before.mouse }, ..mid })
        &&& fx.len() == 1
        &&& sends_bytes(fx[0], (to->0).0, (to->0).2)
    } else {
        &&& common::repainted(before.sessions, after.sessions)
        &&& after == (NeoShell {
            mouse: Mouse { selecting: true, selection_start: None, selection_end: None, ..before.mouse },
            sessions: after.sessions,
            ..mid
        })
        &&& fx.len() == 0
    }
}

/// The left button went down outside every widget: on the edge of the bottom
/// panel it starts a drag, in an application that asked for the mouse it is
/// reported, and else it starts a selection. Shift keeps it local.
pub fn on_terminal_mouse_down(state: &mut NeoShell, env: &Env) -> (fx: Vec<Effect>)
    requires
        old(state).wf(),
    ensures
        pressed(*old(state), *env, *final(state), fx@),
        final(state).wf(),
{
    if state.any_overlay_open() {
        return common::nothing();
    }
    let report = report_at(state, env);
    state.browser.context_menu = None;
    state.browser.menu = None;
    state.typing.quick_cmd_focused = false;
    if state.mouse.dragging_splitter {
        return common::nothing();
    }
    if env.pointer.on_splitter && !state.panels.bottom_collapsed {
        state.mouse.dragging_splitter = true;
        return common::one(Effect::BeginSplitterDrag);
    }
    match report {
        Some((sid, cell, bytes)) => {
            state.mouse.report = Some(
                MouseReport { session_id: sid.clone(), button: MouseButton::Left, cell },
            );
            common::one(Effect::SendQuietly(sid, bytes))
        },
        None => {
            state.mouse.selecting = true;
            state.mouse.selection_start = None;
            state.mouse.selection_end = None;
            state.sessions.repaint_focused();
            common::nothing()
        },
    }
}

/// The cell, counted from one, of a grid of `size` columns and rows that the
/// place, counted from zero, is in. Outside the grid there is none, unless the
/// place is pinned to the nearest edge, as for a drag or a release that
/// wandered off the pane.
pub open spec fn cell_in(place: (int, int), size: (int, int), pin: bool) -> Option<(int, int)> {
    if size.0 == 0 || size.1 == 0 {
        None
    } else if place.0 < size.0 && place.1 < size.1 {
        Some((place.0 + 1, place.1 + 1))
    } else if pin {
        Some(
            (
                if place.0 < size.0 {
                    place.0 + 1
                } else {
                    size.0
                },
                if place.1 < size.1 {
                    place.1 + 1
                } else {
                    size.1
                },
            ),
        )
    } else {
        None
    }
}

/// The cell of a grid that the pointer is in, for reports of the mouse.
pub fn grid_cell(place: (usize, usize), size: (usize, usize), pin: bool) -> (r: Option<(usize, usize)>)
    ensures
        match (r, cell_in((place.0 as int, place.1 as int), (size.0 as int, size.1 as int), pin)) {
            (Some(a), Some(b)) => a.0 == b.0 && a.1 == b.1,
            (None, None) => true,
            _ => false,
        },
{
    if size.0 == 0 || size.1 == 0 {
        return None;
    }
    if !pin && (place.0 >= size.0 || place.1 >= size.1) {
        return None;
    }
    let col: usize = if place.0 < size.0 {
        place.0 + 1
    } else {
        size.0
    };
    let row: usize = if place.1 < size.1 {
        place.1 + 1
    } else {
        size.1
    };
    Some((col, row))
}

/// A cell that is reported is one of the grid's.
pub proof fn law_reported_cells_are_in_the_grid(place: (int, int), size: (int, int), pin: bool)
    requires
        0 <= place.0,
        0 <= place.1,
        0 <= size.0,
        0 <= size.1,
    ensures
        cell_in(place, size, pin) matches Some((col, row)) ==> 1 <= col <= size.0 && 1 <= row <= size.1,
        pin && size.0 > 0 && size.1 > 0 ==> cell_in(place, size, pin) is Some,
{
}

/// What a right or middle press on the terminal does.
#[derive(Debug, Clone, Copy, PartialEq, Eq, Structural)]
pub enum SecondaryClick {
    /// Report it to the application that asked for the mouse.
    Report,
    /// Paste the clipboard, as a right-click always has.
    Paste,
    Ignore,
}

/// An application that switched mouse reporting on gets the right and middle
/// buttons as it gets the left one and the wheel — a right-click that pasted
/// into it instead was never what it asked for. With reporting off, or Shift
/// held, a right-click pastes and a middle click does nothing.
pub fn secondary_click(button: MouseButton, reporting: bool) -> (r: SecondaryClick)
    ensures
        r == secondary(button, reporting),
{
    if reporting {
        SecondaryClick::Report
    } else if button == MouseButton::Right {
        SecondaryClick::Paste
    } else {
        SecondaryClick::Ignore
    }
}

pub open spec fn secondary(button: MouseButton, reporting: bool) -> SecondaryClick {
    if reporting {
        SecondaryClick::Report
    } else if button == MouseButton::Right {
        SecondaryClick::Paste
    } else {
        SecondaryClick::Ignore
    }
}

pub open spec fn pressed_other(
    before: NeoShell,
    button: MouseButton,
    env: Env,
    after: NeoShell,
    fx: Seq<Effect>,
) -> bool {
    let mid = NeoShell { browser: Browser { menu: None, ..before.browser }, ..before };
    let to = reported(before, env);
    if before.browser.menu is Some || before.top() is Some {
        after == mid && fx.len() == 0
    } else {
        match secondary(button, before.mouse_goes() is Some) {
            SecondaryClick::Report => if to is Some && before.mouse.report is None {
                &&& is_report(after.mouse.report, to->0, button)
                &&& after == (NeoShell { mouse: Mouse { report: after.mouse.report, ..before.mouse }, ..mid })
                &&& fx.len() == 1
                &&& sends_bytes(fx[0], (to->0).0, (to->0).2)
            } else {
                after == mid && fx.len() == 0
            },
            SecondaryClick::Paste => after == mid && fx == seq![Effect::Then(Message::PasteClipboard)],
            SecondaryClick::Ignore => after == mid && fx.len() == 0,
        }
    }
}

/// The right or the middle button went down. A right-click away from the open
/// file menu just closes it. A press is reported over the pane only, and one at
/// a time: the one whose release is owed.
pub fn on_terminal_mouse_down_2(state: &mut NeoShell, button: MouseButton, env: &Env) -> (fx: Vec<Effect>)
    ensures
        pressed_other(*old(state), button, *env, *final(state), fx@),
        final(state).sessions == old(state).sessions,
{
    let was_open = state.browser.menu.is_some();
    let covered = state.any_overlay_open();
    let report = report_at(state, env);
    let reporting = state.mouse_report_target().is_some();
    state.browser.menu = None;
    if was_open || covered {
        return common::nothing();
    }
    match secondary_click(button, reporting) {
        SecondaryClick::Report => match report {
            Some((sid, cell, bytes)) => {
                if state.mouse.report.is_none() {
                    state.mouse.report = Some(MouseReport { session_id: sid.clone(), button, cell });
                    return common::one(Effect::SendQuietly(sid, bytes));
                }
                common::nothing()
            },
            None => common::nothing(),
        },
        SecondaryClick::Paste => common::one(Effect::Then(Message::PasteClipboard)),
        SecondaryClick::Ignore => common::nothing(),
    }
}

// ---- moves ----------------------------------------------------------------------------------------------

pub open spec fn moves(e: Effect, sid: Seq<char>, button: Option<MouseButton>, cell: (usize, usize)) -> bool {
    match e {
        Effect::ReportMotion(s, b, x, y) => s@ == sid && b == button && (x, y) == cell,
        _ => false,
    }
}

/// The drag of a reported press: it goes to the same application, pinned to the
/// pane's edge if the pointer leaves it, and only when the cell changes. If the
/// focus moved meanwhile there is nothing sensible to report.
pub open spec fn drag_reported(
    before: NeoShell,
    r: MouseReport,
    env: Env,
    after: NeoShell,
    fx: Seq<Effect>,
) -> bool {
    match env.pointer.nearest {
        Some(cell) => if common::focused_sid(before.sessions) == Some(r.session_id@) && cell != r.cell {
            &&& after == (NeoShell {
                mouse: Mouse { report: Some(MouseReport { cell, ..r }), ..before.mouse },
                ..before
            })
            &&& if tabs::cells_of(before.sessions.tabs@, r.session_id@) is Some {
                fx.len() == 1 && moves(fx[0], r.session_id@, Some(r.button), cell)
            } else {
                fx.len() == 0
            }
        } else {
            after == before && fx.len() == 0
        },
        None => after == before && fx.len() == 0,
    }
}

fn report_drag(state: &mut NeoShell, env: &Env) -> (fx: Vec<Effect>)
    requires
        old(state).mouse.report is Some,
    ensures
        drag_reported(*old(state), old(state).mouse.report->0, *env, *final(state), fx@),
        final(state).sessions == old(state).sessions,
{
    let focused = state.sessions.focused_session_id();
    let mut report: Option<MouseReport> = None;
    std::mem::swap(&mut report, &mut state.mouse.report);
    let mut fx: Vec<Effect> = Vec::new();
    match report {
        Some(r) => {
            let mut r = r;
            match &env.pointer.nearest {
                Some(cell) => {
                    if tabs::opt_same(&focused, r.session_id.as_str()) && (cell.0 != r.cell.0 || cell.1
                        != r.cell.1) {
                        r.cell = *cell;
                        match tabs::find_terminal_for_session(&state.sessions.tabs, r.session_id.as_str()) {
                            Some(_) => fx.push(
                                Effect::ReportMotion(r.session_id.clone(), Some(r.button), cell.0, cell.1),
                            ),
                            None => {},
                        }
                    }
                },
                None => {},
            }
            state.mouse.report = Some(r);
        },
        None => {},
    }
    fx
}

/// Motion with no button held, for an application that wants it: over the pane
/// only, and only when the cell changes.
pub open spec fn motion_reported(before: NeoShell, env: Env, after: NeoShell, fx: Seq<Effect>) -> bool {
    match before.mouse_goes() {
        Some(sid) => {
            let cell = env.pointer.cell;
            if before.top() is None && cell != before.mouse.motion_cell {
                &&& after == (NeoShell { mouse: Mouse { motion_cell: cell, ..before.mouse }, ..before })
                &&& match cell {
                    Some(c) => fx.len() == 1 && moves(fx[0], sid, None, c),
                    None => fx.len() == 0,
                }
            } else {
                after == before && fx.len() == 0
            }
        },
        None => after == before && fx.len() == 0,
    }
}

fn report_motion(state: &mut NeoShell, env: &Env) -> (fx: Vec<Effect>)
    ensures
        motion_reported(*old(state), *env, *final(state), fx@),
        final(state).sessions == old(state).sessions,
{
    if state.any_overlay_open() {
        return common::nothing();
    }
    match state.mouse_report_target() {
        Some(sid) => {
            let cell = env.pointer.cell;
            let same = match (cell, state.mouse.motion_cell) {
                (Some(a), Some(b)) => a.0 == b.0 && a.1 == b.1,
                (None, None) => true,
                _ => false,
            };
            if same {
                return common::nothing();
            }
            state.mouse.motion_cell = cell;
            match cell {
                Some(c) => common::one(Effect::ReportMotion(sid, None, c.0, c.1)),
                None => common::nothing(),
            }
        },
        None => common::nothing(),
    }
}

pub open spec fn selection_grown(before: NeoShell, env: Env, after: NeoShell) -> bool {
    match env.pointer.place {
        Some(pos) => {
            &&& common::repainted(before.sessions, after.sessions)
            &&& after == (NeoShell {
                mouse: Mouse {
                    selection_start: match before.mouse.selection_start {
                        Some(p) => Some(p),
                        None => Some(pos),
                    },
                    selection_end: Some(pos),
                    ..before.mouse
                },
                sessions: after.sessions,
                ..before
            })
        },
        None => after == before,
    }
}

fn grow_selection(state: &mut NeoShell, env: &Env)
    requires
        old(state).wf(),
    ensures
        selection_grown(*old(state), *env, *final(state)),
        final(state).wf(),
{
    match env.pointer.place {
        Some(pos) => {
            if state.mouse.selection_start.is_none() {
                state.mouse.selection_start = Some(pos);
            }
            state.mouse.selection_end = Some(pos);
            state.sessions.repaint_focused();
        },
        None => {},
    }
}

pub open spec fn moved(before: NeoShell, env: Env, after: NeoShell, fx: Seq<Effect>) -> bool {
    if before.mouse.dragging_splitter {
        after == before && fx == seq![Effect::DragSplitter]
    } else if before.mouse.dragging_divider {
        after == before && fx == seq![Effect::DragDivider]
    } else if before.mouse.report is Some {
        drag_reported(before, before.mouse.report->0, env, after, fx)
    } else if before.mouse.selecting {
        selection_grown(before, env, after) && fx.len() == 0
    } else {
        motion_reported(before, env, after, fx)
    }
}

/// The pointer moved: it drags an edge, goes to an application, or grows the
/// selection.
pub fn on_terminal_mouse_move(state: &mut NeoShell, env: &Env) -> (fx: Vec<Effect>)
    requires
        old(state).wf(),
    ensures
        moved(*old(state), *env, *final(state), fx@),
        final(state).wf(),
{
    if state.mouse.dragging_splitter {
        return common::one(Effect::DragSplitter);
    }
    if state.mouse.dragging_divider {
        return common::one(Effect::DragDivider);
    }
    if state.mouse.report.is_some() {
        return report_drag(state, env);
    }
    if state.mouse.selecting {
        grow_selection(state, env);
        return common::nothing();
    }
    report_motion(state, env)
}

// ---- releases -------------------------------------------------------------------------------------------

pub open spec fn drags_over(before: NeoShell, button: MouseButton) -> NeoShell {
    if button == MouseButton::Left {
        NeoShell {
            mouse: Mouse {
                dragging_splitter: false,
                dragging_divider: false,
                selecting: false,
                ..before.mouse
            },
            ..before
        }
    } else {
        before
    }
}

/// The cell that a release is reported for: where the pointer is, if the focus
/// is still where the press was; else where it was last reported.
pub open spec fn release_cell(s: NeoShell, r: MouseReport, env: Env) -> (usize, usize) {
    if common::focused_sid(s.sessions) == Some(r.session_id@) {
        match env.pointer.nearest {
            Some(c) => c,
            None => r.cell,
        }
    } else {
        r.cell
    }
}

pub open spec fn releases(e: Effect, sid: Seq<char>, button: MouseButton, cell: (usize, usize)) -> bool {
    match e {
        Effect::ReportRelease(s, b, x, y) => s@ == sid && b == button && (x, y) == cell,
        _ => false,
    }
}

pub open spec fn owes_release(s: NeoShell, button: MouseButton) -> bool {
    s.mouse.report matches Some(r) && r.button == button
}

pub open spec fn released(
    before: NeoShell,
    button: MouseButton,
    env: Env,
    after: NeoShell,
    fx: Seq<Effect>,
) -> bool {
    let mid = drags_over(before, button);
    if owes_release(before, button) {
        let r = before.mouse.report->0;
        &&& after == (NeoShell { mouse: Mouse { report: None, ..mid.mouse }, ..mid })
        &&& if tabs::cells_of(before.sessions.tabs@, r.session_id@) is Some {
            fx.len() == 1 && releases(fx[0], r.session_id@, button, release_cell(before, r, env))
        } else {
            fx.len() == 0
        }
    } else {
        &&& after == mid
        &&& fx == (if button == MouseButton::Left && before.mouse.selection_start is Some
            && before.mouse.selection_end is Some {
            seq![Effect::Then(Message::CopySelection)]
        } else {
            Seq::empty()
        })
    }
}

/// A button went up. The release of a reported press goes to the application
/// that saw the press, wherever the pointer is now; else the end of a selection
/// copies it.
pub fn on_terminal_mouse_up(state: &mut NeoShell, button: MouseButton, env: &Env) -> (fx: Vec<Effect>)
    ensures
        released(*old(state), button, *env, *final(state), fx@),
        final(state).sessions == old(state).sessions,
{
    let left = button == MouseButton::Left;
    if left {
        state.mouse.dragging_splitter = false;
        state.mouse.dragging_divider = false;
        state.mouse.selecting = false;
    }
    let owed = match &state.mouse.report {
        Some(r) => r.button == button,
        None => false,
    };
    if owed {
        let focused = state.sessions.focused_session_id();
        let mut report: Option<MouseReport> = None;
        std::mem::swap(&mut report, &mut state.mouse.report);
        match report {
            Some(r) => {
                let cell = if tabs::opt_same(&focused, r.session_id.as_str()) {
                    match env.pointer.nearest {
                        Some(c) => c,
                        None => r.cell,
                    }
                } else {
                    r.cell
                };
                match tabs::find_terminal_for_session(&state.sessions.tabs, r.session_id.as_str()) {
                    Some(_) => {
                        return common::one(Effect::ReportRelease(r.session_id, r.button, cell.0, cell.1));
                    },
                    None => {},
                }
            },
            None => {},
        }
        return common::nothing();
    }
    if left && state.mouse.selection_start.is_some() && state.mouse.selection_end.is_some() {
        return common::one(Effect::Then(Message::CopySelection));
    }
    common::nothing()
}

/// When the button of a press that went to an application comes up, its release
/// goes to the same session and nothing is owed any more.
pub proof fn law_a_reported_press_is_released_once(
    before: NeoShell,
    button: MouseButton,
    env: Env,
    after: NeoShell,
    fx: Seq<Effect>,
)
    requires
        released(before, button, env, after, fx),
        owes_release(before, button),
    ensures
        after.mouse.report is None,
        forall|i: int|
            0 <= i < fx.len() ==> releases(
                #[trigger] fx[i],
                before.mouse.report->0.session_id@,
                button,
                release_cell(before, before.mouse.report->0, env),
            ),
{
}

// ---- the selection --------------------------------------------------------------------------------------

/// The text that is selected in the focused pane.
pub open spec fn selected_text(s: NeoShell) -> Seq<char> {
    match (s.mouse.selection_start, s.mouse.selection_end, common::focused_cells(s.sessions)) {
        (Some(a), Some(b), Some(g)) => grid::selected(g, a, b),
        _ => Seq::empty(),
    }
}

pub open spec fn copied(before: NeoShell, after: NeoShell, fx: Seq<Effect>) -> bool {
    &&& common::repainted(before.sessions, after.sessions)
    &&& after == (NeoShell {
        mouse: Mouse { selection_start: None, selection_end: None, ..before.mouse },
        sessions: after.sessions,
        ..before
    })
    &&& if selected_text(before).len() > 0 {
        fx.len() == 1 && (fx[0] matches Effect::Copy(t) && t@ == selected_text(before))
    } else {
        fx.len() == 0
    }
}

/// Put the selection on the clipboard, and take it off the screen.
pub fn on_copy_selection(state: &mut NeoShell) -> (fx: Vec<Effect>)
    requires
        old(state).wf(),
    ensures
        copied(*old(state), *final(state), fx@),
        final(state).wf(),
{
    let mut fx: Vec<Effect> = Vec::new();
    match (state.mouse.selection_start, state.mouse.selection_end, state.sessions.focused_terminal()) {
        (Some(start), Some(end), Some(g)) => {
            assert(state::pane_wf(*g)) by {
                let i = common::active_at(state.sessions)->0;
                assert(state::tab_wf(state.sessions.tabs@[i]));
            }
            let t = grid::extract_selection(g, start, end);
            if !forms::is_empty_text(t.as_str()) {
                fx.push(Effect::Copy(t));
            }
        },
        _ => {},
    }
    state.mouse.selection_start = None;
    state.mouse.selection_end = None;
    state.sessions.repaint_focused();
    fx
}

// ---- the messages ---------------------------------------------------------------------------------------

pub open spec fn is_mouse_message(m: Message) -> bool {
    match m {
        Message::TerminalScrollUp(_) => true,
        Message::TerminalScrollDown(_) => true,
        Message::TerminalMouseDown(_) => true,
        Message::TerminalMouseUp(_) => true,
        Message::TerminalMouseMove => true,
        Message::CopySelection => true,
        _ => false,
    }
}

#[verifier::opaque]
pub open spec fn mouse_step(before: NeoShell, m: Message, env: Env, after: NeoShell, fx: Seq<Effect>) -> bool {
    match m {
        Message::TerminalScrollUp(n) => after == before && wheeled(before, true, n, env, fx),
        Message::TerminalScrollDown(n) => after == before && wheeled(before, false, n, env, fx),
        Message::TerminalMouseDown(b) => if b == MouseButton::Left {
            pressed(before, env, after, fx)
        } else {
            pressed_other(before, b, env, after, fx)
        },
        Message::TerminalMouseUp(b) => released(before, b, env, after, fx),
        Message::TerminalMouseMove => moved(before, env, after, fx),
        Message::CopySelection => copied(before, after, fx),
        _ => true,
    }
}

/// The messages of the mouse over the terminal.
pub fn handle_mouse(state: &mut NeoShell, message: Message, env: &Env) -> (fx: Vec<Effect>)
    requires
        is_mouse_message(message),
        old(state).wf(),
    ensures
        mouse_step(*old(state), message, *env, *final(state), fx@),
        final(state).wf(),
{
    proof {
        reveal(mouse_step);
    }
    match message {
        Message::TerminalScrollUp(lines) => on_wheel(state, true, lines, env),
        Message::TerminalScrollDown(lines) => on_wheel(state, false, lines, env),
        Message::TerminalMouseDown(button) => if button == MouseButton::Left {
            on_terminal_mouse_down(state, env)
        } else {
            on_terminal_mouse_down_2(state, button, env)
        },
        Message::TerminalMouseUp(button) => on_terminal_mouse_up(state, button, env),
        Message::TerminalMouseMove => on_terminal_mouse_move(state, env),
        Message::CopySelection => on_copy_selection(state),
        _ => common::nothing(),
    }
}

} // verus!
