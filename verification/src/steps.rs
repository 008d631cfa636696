//! What one message does to the app: the search, the palette and the file lists.

use vstd::prelude::*;
use vstd::string::*;

use crate::browsing;
use crate::common;
use crate::finding;
use crate::grid;
use crate::grid::SearchMatch;
use crate::grid::TerminalGrid;
use crate::number;
use crate::offers;
use crate::palette;
use crate::palette::PaletteItem;
use crate::remote_files;
use crate::remote_files::FileEntry;
use crate::state::Browser;
use crate::state::ConfirmAction;
use crate::state::Editor;
use crate::state::Effect;
use crate::state::Env;
use crate::state::Message;
use crate::state::NeoShell;
use crate::state::Palette;
use crate::state::RemoteFileMenu;
use crate::state::SftpInputDialog;
use crate::state::SftpInputKind;
use crate::state::TermSearch;
use crate::text;
use crate::updating;
use crate::updating::Area;

verus! {

/// The effects are `wanted`, beside the question where the focus is.
pub open spec fn asks_for(fx: Seq<Effect>, wanted: Seq<Effect>) -> bool {
    ||| fx == wanted
    ||| fx.len() == wanted.len() + 1 && fx.drop_last() == wanted && fx.last() is QueryFocus
}

/// The message is handled by its area; behind that, only the focus may be asked for.
pub proof fn lemma_handled(before: NeoShell, m: Message, env: Env, after: NeoShell, fx: Seq<Effect>, area: Area) -> (r: (
    NeoShell,
    Seq<Effect>,
))
    requires
        updating::updated(before, m, env, after, fx),
        updating::belongs(m, area),
    ensures
        updating::area_step(area, updating::noted(before, m, env.now), m, env, r.0, r.1),
        after == (NeoShell { focus: after.focus, ..r.0 }),
        asks_for(fx, r.1),
{
    let (mid, first) = choose|mid: NeoShell, first: Seq<Effect>| #[trigger]
        updating::updated_via(before, m, env, mid, first, after, fx);
    assert(updating::area_step(area, updating::noted(before, m, env.now), m, env, mid, first));
    if fx != first {
        assert(fx.drop_last() =~= first);
    }
    (mid, first)
}

// ---- the search ------------------------------------------------------------------------------------

/// The line is on screen.
pub open spec fn on_screen(g: TerminalGrid, line: int) -> bool {
    let top = g.scrollback@.len() - g.scroll_offset;
    top <= line < top + g.rows
}

/// Next goes to the hit behind the current one, and behind the last to the first;
/// Previous goes the other way. The hits and the query stay.
pub proof fn law_the_search_steps_through_its_hits(
    before: NeoShell,
    m: Message,
    env: Env,
    after: NeoShell,
    fx: Seq<Effect>,
)
    requires
        updating::updated(before, m, env, after, fx),
        m is TerminalSearchNext || m is TerminalSearchPrev,
        before.search.current < before.search.matches@.len(),
    ensures
        m is TerminalSearchNext ==> after.search.current == (before.search.current + 1)
            % before.search.matches@.len() as int,
        m is TerminalSearchPrev ==> after.search.current == (before.search.current + before.search.matches@.len() - 1)
            % before.search.matches@.len() as int,
        after.search == (TermSearch { current: after.search.current, ..before.search }),
        asks_for(fx, Seq::empty()),
{
    let (mid, first) = lemma_handled(before, m, env, after, fx, Area::Search);
    reveal(finding::search_step);
    let n = before.search.matches@.len() as int;
    let c = before.search.current as int;
    assert(first =~= Seq::empty());
    assert(before.search.matches.len() <= usize::MAX);
    if c + 1 < n {
        vstd::arithmetic::div_mod::lemma_small_mod((c + 1) as nat, n as nat);
    } else {
        vstd::arithmetic::div_mod::lemma_mod_self_0(n);
    }
    if c == 0 {
        vstd::arithmetic::div_mod::lemma_small_mod((n - 1) as nat, n as nat);
    } else {
        vstd::arithmetic::div_mod::lemma_small_mod((c - 1) as nat, n as nat);
        vstd::arithmetic::div_mod::lemma_mod_add_multiples_vanish(c - 1, n);
    }
}

/// What is scrolled to comes on screen.
proof fn lemma_scrolled_on_screen(g: TerminalGrid, m: SearchMatch)
    requires
        g.scrollback@.len() <= usize::MAX,
        m.abs_line < g.scrollback@.len() + g.rows,
        g.rows > 0,
    ensures
        on_screen(finding::scrolled(g, m), m.abs_line as int),
{
}

/// The hit that the search goes to comes on screen in the focused pane, with the
/// cells of every pane as they were.
pub proof fn law_the_current_hit_comes_on_screen(
    before: NeoShell,
    m: Message,
    env: Env,
    after: NeoShell,
    fx: Seq<Effect>,
)
    requires
        updating::updated(before, m, env, after, fx),
        m is TerminalSearchNext || m is TerminalSearchPrev || m is TerminalSearchFound,
        after.search.current < after.search.matches@.len(),
        common::focused_cells(before.sessions) matches Some(g) && g.rows > 0
            && after.search.matches@[after.search.current as int].abs_line < g.scrollback@.len() + g.rows,
    ensures
        common::focused_cells(after.sessions) matches Some(g) && on_screen(
            g,
            after.search.matches@[after.search.current as int].abs_line as int,
        ) && g.cells == common::focused_cells(before.sessions)->0.cells && g.scrollback == common::focused_cells(
            before.sessions,
        )->0.scrollback,
{
    let (mid, first) = lemma_handled(before, m, env, after, fx, Area::Search);
    reveal(finding::search_step);
    let i = common::active_at(before.sessions)->0;
    let g = before.sessions.tabs@[i].focused_cells();
    let hit = after.search.matches@[after.search.current as int];
    assert(g.scrollback@.len() <= usize::MAX) by {
        assert(g.scrollback.len() <= usize::MAX);
    }
    assert(after.search == mid.search);
    lemma_scrolled_on_screen(g, hit);
    assert(finding::scrolled_to(before.sessions, hit, mid.sessions));
    assert(common::active_at(mid.sessions) == Some(i));
}

/// The hits that come in are the hits of the search, the first of them the current
/// one.
pub proof fn law_hits_come_in(before: NeoShell, hits: Vec<SearchMatch>, env: Env, after: NeoShell, fx: Seq<Effect>)
    requires
        updating::updated(before, Message::TerminalSearchFound(hits), env, after, fx),
    ensures
        after.search == (TermSearch { matches: hits, current: 0, ..before.search }),
{
    let (mid, first) = lemma_handled(before, Message::TerminalSearchFound(hits), env, after, fx, Area::Search);
    reveal(finding::search_step);
}

/// Typing in the search bar looks for what is typed, from the start; so does taking
/// note of case, or no longer. With nothing typed nothing is looked for.
pub proof fn law_typing_searches_anew(before: NeoShell, m: Message, env: Env, after: NeoShell, fx: Seq<Effect>)
    requires
        updating::updated(before, m, env, after, fx),
        m is TerminalSearchChanged || m is ToggleTerminalSearchCase,
    ensures
        m is TerminalSearchChanged ==> after.search.query == m->TerminalSearchChanged_0
            && after.search.case_insensitive == before.search.case_insensitive,
        m is ToggleTerminalSearchCase ==> after.search.query == before.search.query
            && after.search.case_insensitive != before.search.case_insensitive,
        after.search.matches@.len() == 0,
        after.search.current == 0,
        after.search.active == before.search.active,
        asks_for(
            fx,
            if after.search.query@.len() > 0 && common::active_at(before.sessions) is Some {
                seq![Effect::Search(after.search.query, after.search.case_insensitive)]
            } else {
                Seq::empty()
            },
        ),
{
    let (mid, first) = lemma_handled(before, m, env, after, fx, Area::Search);
    reveal(finding::search_step);
    if first.len() == 0 {
        assert(first =~= Seq::empty());
    }
}

/// The search bar that is open is closed by the key that opens it, and by Close; its
/// query stays for the next time, its hits do not.
pub proof fn law_the_search_bar_opens_and_closes(before: NeoShell, m: Message, env: Env, after: NeoShell, fx: Seq<Effect>)
    requires
        updating::updated(before, m, env, after, fx),
        m is ToggleTerminalSearch || m is TerminalSearchClose,
    ensures
        m is ToggleTerminalSearch ==> after.search.active != before.search.active,
        m is TerminalSearchClose ==> !after.search.active,
        after.search.query == before.search.query,
        after.search.case_insensitive == before.search.case_insensitive,
        after.search.matches@.len() == 0,
        after.sessions == before.sessions,
{
    let (mid, first) = lemma_handled(before, m, env, after, fx, Area::Search);
    reveal(finding::search_step);
}

// ---- the palette ------------------------------------------------------------------------------------

/// Down selects the row below, and below the last one the first; Up the other way.
pub proof fn law_the_palette_is_walked(before: NeoShell, m: Message, env: Env, after: NeoShell, fx: Seq<Effect>)
    requires
        updating::updated(before, m, env, after, fx),
        m is PaletteNavUp || m is PaletteNavDown,
    ensures
        exists|items: Seq<PaletteItem>| {
            let n = items.len() as int;
            &&& #[trigger] before.shows_palette(items, env.texts)
            &&& m is PaletteNavDown && before.palette.selected + 1 < n ==> after.palette.selected
                == before.palette.selected + 1
            &&& m is PaletteNavDown && before.palette.selected + 1 == n ==> after.palette.selected == 0
            &&& m is PaletteNavUp && 0 < before.palette.selected < n ==> after.palette.selected
                == before.palette.selected - 1
            &&& m is PaletteNavUp && before.palette.selected == 0 < n ==> after.palette.selected == n - 1
            &&& n > 0 ==> after.palette.selected < n
        },
        after.palette.query == before.palette.query,
        after.palette.show == before.palette.show,
{
    let (mid, first) = lemma_handled(before, m, env, after, fx, Area::Search);
    reveal(finding::search_step);
    let down = m is PaletteNavDown;
    let s = updating::noted(before, m, env.now);
    let items = choose|items: Seq<PaletteItem>| #[trigger] finding::row_moved_in(items, s, down, env.texts, mid);
    let n = items.len() as int;
    let c = before.palette.selected as int;
    offers::law_a_palette_has_no_more_rows_than_it_shows(
        items,
        before.palette.query@,
        before.sessions.connections@,
        before.snippets.list@,
        before.groups.collapsed@,
        env.texts,
    );
    if n > 0 {
        if c + 1 < n {
            vstd::arithmetic::div_mod::lemma_small_mod((c + 1) as nat, n as nat);
        } else if c + 1 == n {
            vstd::arithmetic::div_mod::lemma_mod_self_0(n);
        }
        if c == 0 {
            vstd::arithmetic::div_mod::lemma_small_mod((n - 1) as nat, n as nat);
        } else if c < n {
            vstd::arithmetic::div_mod::lemma_small_mod((c - 1) as nat, n as nat);
            vstd::arithmetic::div_mod::lemma_mod_add_multiples_vanish(c - 1, n);
        }
        vstd::arithmetic::div_mod::lemma_mod_bound(c + 1, n);
        vstd::arithmetic::div_mod::lemma_mod_bound(c + n - 1, n);
    }
    assert(before.shows_palette(items, env.texts));
}

/// Carrying out a row does what the row says and closes the palette; a row that is
/// not there does nothing.
pub proof fn law_a_row_of_the_palette_is_carried_out(
    before: NeoShell,
    i: usize,
    env: Env,
    after: NeoShell,
    fx: Seq<Effect>,
)
    requires
        updating::updated(before, Message::PaletteExecuteIndex(i), env, after, fx),
    ensures
        exists|items: Seq<PaletteItem>| {
            &&& #[trigger] before.shows_palette(items, env.texts)
            &&& i < items.len() ==> !after.palette.show && asks_for(fx, seq![Effect::Then(items[i as int].msg)])
            &&& i >= items.len() ==> after.palette == before.palette && asks_for(fx, Seq::empty())
        },
        after == (NeoShell { palette: Palette { show: after.palette.show, ..before.palette }, focus: after.focus, ..before }),
{
    let m = Message::PaletteExecuteIndex(i);
    let (mid, first) = lemma_handled(before, m, env, after, fx, Area::Search);
    reveal(finding::search_step);
    let s = updating::noted(before, m, env.now);
    assert(s == before);
    let items = choose|items: Seq<PaletteItem>| #[trigger] finding::row_run_in(items, s, i, env.texts, mid, first);
    if i >= items.len() {
        assert(first =~= Seq::empty());
    }
    assert(before.shows_palette(items, env.texts));
}

/// Enter carries out the selected row; another query selects the first.
pub proof fn law_the_palette_follows_the_keyboard(before: NeoShell, m: Message, env: Env, after: NeoShell, fx: Seq<Effect>)
    requires
        updating::updated(before, m, env, after, fx),
    ensures
        m is PaletteExecute ==> asks_for(
            fx,
            seq![Effect::Then(Message::PaletteExecuteIndex(before.palette.selected))],
        ) && after.palette == before.palette,
        m matches Message::PaletteQueryChanged(q) ==> after.palette == (Palette {
            query: q,
            selected: 0,
            ..before.palette
        }),
        m is TogglePalette ==> after.palette.show != before.palette.show,
        m is TogglePalette && !before.palette.show ==> after.palette.query@.len() == 0 && after.palette.selected == 0,
{
    if m is PaletteExecute || m is PaletteQueryChanged || m is TogglePalette {
        let (mid, first) = lemma_handled(before, m, env, after, fx, Area::Search);
        reveal(finding::search_step);
    }
}

// ---- the remote files --------------------------------------------------------------------------------

/// The session is asked for the directory.
pub open spec fn asks_dir(fx: Seq<Effect>, sid: Seq<char>, path: Seq<char>) -> bool {
    fx.len() > 0 && fx.len() <= 2 && (fx.len() == 2 ==> fx[1] is QueryFocus) && match fx[0] {
        Effect::Then(Message::ChangeDir(s, p)) => s@ == sid && p@ == path,
        _ => false,
    }
}

/// A click on a folder of a listing asks for the directory, a slash and the name of the
/// folder: going up from there leads back to the listing's directory. A click on ".."
/// asks for the directory above, and one on a file for nothing.
pub proof fn law_a_click_goes_into_the_folder(
    before: NeoShell,
    sid: String,
    dir: String,
    entry: FileEntry,
    env: Env,
    after: NeoShell,
    fx: Seq<Effect>,
)
    requires
        updating::updated(before, Message::FileClicked(sid, dir, entry), env, after, fx),
        remote_files::is_plain_dir(dir@) || dir@ == seq!['/'],
    ensures
        entry.is_dir && remote_files::is_component(entry.name@) ==> {
            let path = if dir@ == seq!['/'] {
                dir@ + entry.name@
            } else {
                dir@ + seq!['/'] + entry.name@
            };
            &&& asks_dir(fx, sid@, path)
            &&& remote_files::leads_up(path) == dir@
            &&& remote_files::file_name(path) == Some(entry.name@)
        },
        !entry.is_dir && remote_files::is_component(entry.name@) ==> asks_for(fx, Seq::empty()),
        entry.name@ == seq!['.', '.'] ==> asks_dir(fx, sid@, remote_files::leads_up(dir@)),
        after.browser == before.browser,
        after.sessions == before.sessions,
{
    let m = Message::FileClicked(sid, dir, entry);
    let (mid, first) = lemma_handled(before, m, env, after, fx, Area::File);
    reveal(browsing::file_step);
    reveal_strlit("..");
    assert(".."@ =~= seq!['.', '.']);
    if first.len() == 0 {
        assert(first =~= Seq::empty());
    }
    if remote_files::is_component(entry.name@) {
        remote_files::law_joining_and_going_up(dir@, entry.name@);
    }
    if fx != first && fx.len() == 2 {
        assert(fx[0] == fx.drop_last()[0]);
    }
}

/// Into a folder and up again: the click on ".." in the folder asks for the directory
/// that the folder was clicked in.
pub proof fn law_up_again_is_where_it_was(
    one: (NeoShell, NeoShell, Seq<Effect>, Env),
    two: (NeoShell, NeoShell, Seq<Effect>, Env),
    sid: String,
    dir: String,
    entry: FileEntry,
    inner: String,
    up: FileEntry,
)
    requires
        updating::updated(one.0, Message::FileClicked(sid, dir, entry), one.3, one.1, one.2),
        updating::updated(two.0, Message::FileClicked(sid, inner, up), two.3, two.1, two.2),
        remote_files::is_plain_dir(dir@),
        entry.is_dir,
        remote_files::is_component(entry.name@),
        asks_dir(one.2, sid@, inner@),
        up.name@ == seq!['.', '.'],
    ensures
        asks_dir(two.2, sid@, dir@),
{
    law_a_click_goes_into_the_folder(one.0, sid, dir, entry, one.3, one.1, one.2);
    remote_files::law_joining_and_going_up(dir@, entry.name@);
    let path = dir@ + seq!['/'] + entry.name@;
    assert(inner@ == path);
    assert(path.last() == entry.name@.last());
    assert(entry.name@.contains(entry.name@.last()));
    if path.last() == '.' && path[path.len() - 2] == '/' {
        if entry.name@.len() > 1 {
            assert(path[path.len() - 2] == entry.name@[entry.name@.len() - 2]);
            assert(entry.name@.contains(entry.name@[entry.name@.len() - 2]));
        } else {
            assert(entry.name@ =~= seq!['.']);
        }
    }
    law_a_click_goes_into_the_folder(two.0, sid, inner, up, two.3, two.1, two.2);
}

/// A directory that is asked for is listed, under the session that asked; the listing
/// on screen stays until the new one is in.
pub proof fn law_a_directory_asked_for_is_listed(
    before: NeoShell,
    sid: String,
    path: String,
    env: Env,
    after: NeoShell,
    fx: Seq<Effect>,
)
    requires
        updating::updated(before, Message::ChangeDir(sid, path), env, after, fx),
    ensures
        asks_for(fx, seq![Effect::List(sid, path)]),
        after.browser.current_dir@.contains_key(sid@) && after.browser.current_dir@[sid@] == path,
        after.browser.listings@ == before.browser.listings@,
        forall|other: Seq<char>|
            other != sid@ ==> after.browser.current_dir@.contains_key(other) == #[trigger] before.browser.current_dir@.contains_key(
                other,
            ) && after.browser.current_dir@[other] == before.browser.current_dir@[other],
{
    let (mid, first) = lemma_handled(before, Message::ChangeDir(sid, path), env, after, fx, Area::File);
    reveal(browsing::file_step);
}

/// A listing that comes in is what is shown of the session, in the directory that was
/// listed; the listings of the other sessions stay.
pub proof fn law_a_listing_is_shown(
    before: NeoShell,
    sid: String,
    path: String,
    entries: Vec<FileEntry>,
    env: Env,
    after: NeoShell,
    fx: Seq<Effect>,
)
    requires
        updating::updated(before, Message::FilesReceived(sid, path, entries), env, after, fx),
    ensures
        after.browser.listings@.contains_key(sid@),
        after.browser.listings@[sid@].dir == path,
        after.browser.listings@[sid@].entries == entries,
        after.browser.current_dir@[sid@] == path,
        after.browser.path_input == path,
        forall|other: Seq<char>|
            other != sid@ ==> after.browser.listings@.contains_key(other)
                == #[trigger] before.browser.listings@.contains_key(other) && after.browser.listings@[other]
                == before.browser.listings@[other],
{
    let (mid, first) = lemma_handled(
        before,
        Message::FilesReceived(sid, path, entries),
        env,
        after,
        fx,
        Area::File,
    );
    reveal(browsing::file_step);
}

/// A path that is typed is asked for as it was typed; a refresh asks for the directory
/// that the focused session shows.
pub proof fn law_a_typed_path_is_asked_for(before: NeoShell, m: Message, env: Env, after: NeoShell, fx: Seq<Effect>)
    requires
        updating::updated(before, m, env, after, fx),
        m is PathInputSubmit || m is RefreshRemoteFiles,
        common::focused_any(before.sessions) is Some,
    ensures
        m is PathInputSubmit && before.browser.path_input@.len() > 0 ==> asks_dir(
            fx,
            common::focused_any(before.sessions)->0,
            before.browser.path_input@,
        ),
        m is RefreshRemoteFiles && before.browser.current_dir@.contains_key(common::focused_any(before.sessions)->0)
            ==> asks_dir(
            fx,
            common::focused_any(before.sessions)->0,
            before.browser.current_dir@[common::focused_any(before.sessions)->0]@,
        ),
        after.browser == before.browser,
{
    let (mid, first) = lemma_handled(before, m, env, after, fx, Area::File);
    reveal(browsing::file_step);
    if fx != first && fx.len() == 2 {
        assert(fx[0] == fx.drop_last()[0]);
    }
}

// ---- the editor ---------------------------------------------------------------------------------------

/// A file is written back to the session and the path that it was opened from, whatever
/// was done in between but opening another or closing it.
pub proof fn law_the_editor_writes_back_where_it_read(
    one: (NeoShell, NeoShell, Seq<Effect>, Env),
    two: (NeoShell, NeoShell, Seq<Effect>, Env),
    sid: String,
    path: String,
    content: String,
)
    requires
        updating::updated(one.0, Message::EditorContentLoaded(sid, path, content), one.3, one.1, one.2),
        two.0.editor.path == one.1.editor.path,
        two.0.editor.session_id == one.1.editor.session_id,
        updating::updated(two.0, Message::SaveEditor, two.3, two.1, two.2),
    ensures
        asks_for(one.2, seq![Effect::LoadEditor(content)]),
        asks_for(two.2, seq![Effect::WriteFile(sid, path)]),
        !one.1.editor.dirty,
        two.1.editor == two.0.editor,
{
    let (a, f) = lemma_handled(
        one.0,
        Message::EditorContentLoaded(sid, path, content),
        one.3,
        one.1,
        one.2,
        Area::File,
    );
    let (b, g) = lemma_handled(two.0, Message::SaveEditor, two.3, two.1, two.2, Area::File);
    reveal(browsing::file_step);
}

/// An edit makes the file unsaved, saving it makes it saved, and looking round changes
/// nothing of that. A closed editor writes nothing.
pub proof fn law_an_edit_is_unsaved(before: NeoShell, m: Message, env: Env, after: NeoShell, fx: Seq<Effect>)
    requires
        updating::updated(before, m, env, after, fx),
    ensures
        m == Message::EditorAction(true) ==> after.editor == (Editor { dirty: true, ..before.editor }),
        m == Message::EditorAction(false) ==> after.editor == before.editor,
        m is EditorSaved ==> after.editor == (Editor { dirty: false, ..before.editor }),
        m is CloseEditor ==> after.editor.path is None && after.editor.session_id is None && !after.editor.dirty,
        m is SaveEditor && before.editor.path is None ==> asks_for(fx, Seq::empty()),
        m matches Message::OpenEditor(sid, path) ==> asks_for(fx, seq![Effect::ReadFile(sid, path)]) && after.editor
            == before.editor,
{
    if m is EditorAction || m is EditorSaved || m is CloseEditor || m is SaveEditor || m is OpenEditor {
        let (mid, first) = lemma_handled(before, m, env, after, fx, Area::File);
        reveal(browsing::file_step);
        if first.len() == 0 {
            assert(first =~= Seq::empty());
        }
    }
}

// ---- the right-click menu ---------------------------------------------------------------------------------

/// The path of the row in the menu's directory.
pub open spec fn row_path(dir: Seq<char>, name: Seq<char>) -> Seq<char> {
    if dir == seq!['/'] {
        dir + name
    } else {
        dir + seq!['/'] + name
    }
}

/// What is asked for in the menu is about the row that was clicked, in its directory and
/// its session: the deletion waits for a confirmation of that very path, and the dialogs
/// are opened for that row.
pub proof fn law_the_menu_is_about_its_row(
    before: NeoShell,
    m: Message,
    env: Env,
    after: NeoShell,
    fx: Seq<Effect>,
    menu: RemoteFileMenu,
    row: FileEntry,
)
    requires
        updating::updated(before, m, env, after, fx),
        before.browser.menu == Some(menu),
        menu.entry == Some(row),
        remote_files::is_plain_dir(menu.dir@) || menu.dir@ == seq!['/'],
        remote_files::is_component(row.name@),
    ensures
        m is SftpDelete ==> (after.browser.confirm matches Some(ConfirmAction::SftpDelete {
            session_id,
            dir,
            path,
            entry,
        }) && session_id == menu.session_id && dir == menu.dir && path@ == row_path(menu.dir@, row.name@) && entry == row),
        m is SftpDelete ==> asks_for(fx, Seq::empty()),
        m is SftpRename ==> (after.browser.input matches Some(d) && d.session_id == menu.session_id && d.dir == menu.dir
            && d.kind == SftpInputKind::Rename(row) && d.value@ == row.name@),
        m is SftpChmod ==> (after.browser.input matches Some(d) && d.session_id == menu.session_id && d.dir == menu.dir
            && d.kind == SftpInputKind::Chmod(row)),
        m is SftpNewFolder ==> (after.browser.input matches Some(d) && d.session_id == menu.session_id && d.dir
            == menu.dir && d.kind is NewFolder && d.value@.len() == 0),
        m is SftpDelete || m is SftpRename || m is SftpChmod || m is SftpNewFolder || m is RemoteMenuClose
            ==> after.browser.menu is None,
{
    if m is SftpDelete || m is SftpRename || m is SftpChmod || m is SftpNewFolder || m is RemoteMenuClose {
        let (mid, first) = lemma_handled(before, m, env, after, fx, Area::Sftp);
        reveal(browsing::sftp_step);
        remote_files::law_joining_and_going_up(menu.dir@, row.name@);
        if first.len() == 0 {
            assert(first =~= Seq::empty());
        }
    }
}

/// The menu opens on the row that was clicked; "." and ".." are nothing to rename or to
/// delete.
pub proof fn law_the_menu_opens_on_the_row(
    before: NeoShell,
    sid: String,
    dir: String,
    entry: Option<FileEntry>,
    env: Env,
    after: NeoShell,
    fx: Seq<Effect>,
)
    requires
        updating::updated(before, Message::RemoteMenuOpen(sid, dir, entry), env, after, fx),
    ensures
        after.browser.menu matches Some(menu) && menu.session_id == sid && menu.dir == dir && (match entry {
            Some(e) => if e.name@ == seq!['.'] || e.name@ == seq!['.', '.'] {
                menu.entry is None
            } else {
                menu.entry == entry
            },
            None => menu.entry is None,
        }),
{
    let (mid, first) = lemma_handled(
        before,
        Message::RemoteMenuOpen(sid, dir, entry),
        env,
        after,
        fx,
        Area::Sftp,
    );
    reveal(browsing::sftp_step);
    reveal_strlit("..");
    reveal_strlit(".");
    assert(".."@ =~= seq!['.', '.']);
    assert("."@ =~= seq!['.']);
}

/// What is typed in the dialog is done to its row: the folder is made in the dialog's
/// directory under the name typed, and the row renamed from its own name to the one
/// typed; another mode is held for a confirmation. A name that is none, and a mode that
/// is none, leave the dialog open.
pub proof fn law_the_dialog_does_what_is_typed(
    before: NeoShell,
    env: Env,
    after: NeoShell,
    fx: Seq<Effect>,
    d: SftpInputDialog,
)
    requires
        updating::updated(before, Message::SftpInputSubmit, env, after, fx),
        before.browser.input == Some(d),
        remote_files::is_plain_dir(d.dir@) || d.dir@ == seq!['/'],
    ensures
        d.kind is NewFolder && remote_files::is_remote_name(d.value@) ==> after.browser.input is None && fx.len() > 0
            && (fx[0] matches Effect::MakeDir(sid, dir, path) && sid == d.session_id && dir == d.dir && path@
            == row_path(d.dir@, d.value@)),
        d.kind matches SftpInputKind::Rename(row) ==> (remote_files::is_remote_name(d.value@) && d.value@ != row.name@
            && remote_files::is_component(row.name@) ==> after.browser.input is None && fx.len() > 0 && (fx[0] matches Effect::Rename(
            sid,
            dir,
            from,
            to,
            entry,
        ) && sid == d.session_id && dir == d.dir && from@ == row_path(d.dir@, row.name@) && to@ == row_path(
            d.dir@,
            d.value@,
        ) && entry == row)),
        d.kind matches SftpInputKind::Rename(row) ==> (d.value@ == row.name@ ==> after.browser.input is None && asks_for(
            fx,
            Seq::empty(),
        )),
        d.kind matches SftpInputKind::Chmod(row) ==> (remote_files::is_component(row.name@) && remote_files::octal_mode(
            d.value@,
        ) is Some ==> after.browser.input is None && asks_for(fx, Seq::empty()) && (after.browser.confirm matches Some(ConfirmAction::SftpChmod {
            session_id,
            dir,
            path,
            entry,
            mode,
        }) && session_id == d.session_id && dir == d.dir && path@ == row_path(d.dir@, row.name@) && entry == row && mode
            == remote_files::octal_mode(d.value@)->0)),
        !(d.kind is Chmod) && !remote_files::is_remote_name(d.value@) && !(d.kind is Rename && d.value@
            == d.kind->Rename_0.name@) ==> asks_for(fx, Seq::empty()) && (after.browser.input matches Some(x) && x.value
            == d.value && x.error is Some),
        d.kind is Chmod && remote_files::octal_mode(d.value@) is None ==> asks_for(fx, Seq::empty()) && (
        after.browser.input matches Some(x) && x.value == d.value && x.error is Some),
{
    let (mid, first) = lemma_handled(before, Message::SftpInputSubmit, env, after, fx, Area::Sftp);
    reveal(browsing::sftp_step);
    lemma_remote_name_is_component(d.value@);
    if remote_files::is_remote_name(d.value@) {
        remote_files::law_joining_and_going_up(d.dir@, d.value@);
    }
    match d.kind {
        SftpInputKind::Rename(row) => if remote_files::is_component(row.name@) {
            remote_files::law_joining_and_going_up(d.dir@, row.name@);
        },
        SftpInputKind::Chmod(row) => if remote_files::is_component(row.name@) {
            remote_files::law_joining_and_going_up(d.dir@, row.name@);
        },
        _ => {},
    }
    if first.len() == 0 {
        assert(first =~= Seq::empty());
    } else if fx != first {
        assert(fx[0] == fx.drop_last()[0]);
    }
}

proof fn lemma_remote_name_is_component(s: Seq<char>)
    ensures
        remote_files::is_remote_name(s) ==> remote_files::is_component(s),
{
    if remote_files::is_remote_name(s) {
        reveal_strlit("..");
        reveal_strlit(".");
        assert(".."@ =~= seq!['.', '.']);
        assert("."@ =~= seq!['.']);
        if s.len() == 0 {
            assert(text::trim(s) =~= s) by {
                assert(text::trim_start(s) =~= s);
            }
        }
        assert forall|i: int| 0 <= i < s.len() implies s[i] != '/' by {
            assert(!text::is_ctrl(s[i]));
        }
    }
}

/// A confirmed action is carried out as it was shown, and once: what was to be deleted is
/// deleted, what was to get a mode gets that mode, and the process that was to be
/// signalled is signalled. A declined one is not.
pub proof fn law_what_was_confirmed_is_done(
    before: NeoShell,
    m: Message,
    env: Env,
    after: NeoShell,
    fx: Seq<Effect>,
)
    requires
        updating::updated(before, m, env, after, fx),
        m is ConfirmActionExecute || m is ConfirmActionCancel,
    ensures
        after.browser.confirm is None,
        m is ConfirmActionCancel || before.browser.confirm is None ==> asks_for(fx, Seq::empty()),
        m is ConfirmActionExecute ==> (before.browser.confirm matches Some(ConfirmAction::SftpDelete {
            session_id,
            dir,
            path,
            entry,
        }) ==> asks_for(fx, seq![Effect::Remove(session_id, dir, path, entry)])),
        m is ConfirmActionExecute ==> (before.browser.confirm matches Some(ConfirmAction::SftpChmod {
            session_id,
            dir,
            path,
            entry,
            mode,
        }) ==> asks_for(fx, seq![Effect::Chmod(session_id, dir, path, mode, entry)])),
        m is ConfirmActionExecute ==> (before.browser.confirm matches Some(ConfirmAction::Kill {
            session_id,
            pid,
            command,
            signal,
            identity,
        }) ==> asks_for(fx, seq![Effect::Kill(session_id, pid, signal, identity)])),
{
    let (mid, first) = lemma_handled(before, m, env, after, fx, Area::Sftp);
    reveal(browsing::sftp_step);
    if first.len() == 0 {
        assert(first =~= Seq::empty());
    }
}

} // verus!
