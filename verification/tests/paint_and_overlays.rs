//! Colours, cells, overlays, the focus and the input method.

use std::collections::HashSet;

use neoshell::auth::auth_input_id;
use neoshell::auth::take_owed_focus;
use neoshell::auth::AUTH_MAX_FIELDS;
use neoshell::focus::focus_settled_or_no_secret_on_screen;
use neoshell::focus::ime_allowed;
use neoshell::focus::is_secret_input;
use neoshell::focus::FocusTracker;
use neoshell::focus::FocusedField;
use neoshell::focus::CONN_PASSPHRASE_INPUT_ID;
use neoshell::focus::CONN_PASSWORD_INPUT_ID;
use neoshell::focus::LOCAL_PATH_INPUT_ID;
use neoshell::focus::PALETTE_INPUT_ID;
use neoshell::focus::PROXY_PASSPHRASE_INPUT_ID;
use neoshell::focus::PROXY_PASSWORD_INPUT_ID;
use neoshell::focus::QUICK_CMD_INPUT_ID;
use neoshell::focus::REMOTE_PATH_INPUT_ID;
use neoshell::focus::SETUP_CONFIRM_INPUT_ID;
use neoshell::focus::SETUP_PW_INPUT_ID;
use neoshell::focus::SFTP_INPUT_ID;
use neoshell::focus::SIDEBAR_SEARCH_INPUT_ID;
use neoshell::focus::TERM_SEARCH_INPUT_ID;
use neoshell::focus::TUNNEL_PASSPHRASE_INPUT_ID;
use neoshell::focus::TUNNEL_PASSWORD_INPUT_ID;
use neoshell::focus::UNLOCK_PW_INPUT_ID;
use neoshell::grid::Cell;
use neoshell::grid::CellStyle;
use neoshell::grid::Rgb;
use neoshell::keys::is_autocomplete_key;
use neoshell::keys::Key;
use neoshell::keys::Modifiers;
use neoshell::keys::Named;
use neoshell::paint::cell_paint;
use neoshell::paint::fitted_size;
use neoshell::paint::is_blank_cell;
use neoshell::paint::is_row_empty;
use neoshell::paint::parse_hex_color;
use neoshell::paint::theme_colors_key;
use neoshell::paint::Rgba;
use neoshell::paint::TerminalViewState;
use neoshell::screens::auth_modal_visible;
use neoshell::screens::Overlay;
use neoshell::screens::Screen;
use neoshell::screens::HOLDS_SECRETS;
use neoshell::screens::Z_ORDER;
use neoshell::state::Message;
use neoshell::state::MouseButton;
use neoshell::updating::moves_focus;

fn rgb(r: u8, g: u8, b: u8) -> Rgb {
    Rgb { r, g, b }
}

fn rgba(r: u8, g: u8, b: u8) -> Rgba {
    Rgba { r, g, b, a: 255 }
}

fn styled(fg: Option<Rgb>, bg: Option<Rgb>, inverse: bool) -> CellStyle {
    CellStyle { fg, bg, inverse }
}

fn cell(c: char) -> Cell {
    Cell { c, style: styled(None, None, false), wide: false, wide_cont: false }
}

const PLAIN: Modifiers = Modifiers { shift: false, control: false, alt: false, logo: false };

#[test]
fn connection_color_tag_parses_only_rrggbb() {
    assert_eq!(parse_hex_color("#ff8800"), Some(rgb(0xff, 0x88, 0x00)));
    assert_eq!(parse_hex_color("22C55E"), Some(rgb(0x22, 0xc5, 0x5e)));
    assert_eq!(parse_hex_color("  #0a0B0c "), Some(rgb(0x0a, 0x0b, 0x0c)));
    for bad in ["", "#", "#fff", "#ff88001", "#gg0000", "red", "#ff 880", "##ff8800", "+ff8800"] {
        assert_eq!(parse_hex_color(bad), None, "{bad:?} must not parse");
    }
}

#[test]
fn overlay_z_order_is_complete_and_puts_alerts_on_top() {
    let mut seen = HashSet::new();
    for o in Z_ORDER {
        assert!(seen.insert(o), "{o:?} listed twice");
    }
    // Exhaustive on purpose: a new variant fails to compile here until it is
    // added below — and then to Z_ORDER, or this test fails.
    let every = |o: Overlay| match o {
        Overlay::Palette
        | Overlay::ConfirmDelete
        | Overlay::AuthPrompt
        | Overlay::ConfirmAction
        | Overlay::LogViewer
        | Overlay::ErrorDialog
        | Overlay::ProcessDetail
        | Overlay::Editor
        | Overlay::NetworkDetail
        | Overlay::ConnectDialog
        | Overlay::History
        | Overlay::ProxyManager
        | Overlay::TunnelManager
        | Overlay::TabRename
        | Overlay::SftpInput
        | Overlay::KeyManager
        | Overlay::ShortcutsHelp
        | Overlay::Broadcast
        | Overlay::Snippets
        | Overlay::About
        | Overlay::Settings
        | Overlay::ConnectionForm => o,
    };
    for o in [
        Overlay::Palette,
        Overlay::ConfirmDelete,
        Overlay::AuthPrompt,
        Overlay::ConfirmAction,
        Overlay::LogViewer,
        Overlay::ErrorDialog,
        Overlay::ProcessDetail,
        Overlay::Editor,
        Overlay::NetworkDetail,
        Overlay::ConnectDialog,
        Overlay::History,
        Overlay::ProxyManager,
        Overlay::TunnelManager,
        Overlay::TabRename,
        Overlay::SftpInput,
        Overlay::KeyManager,
        Overlay::ShortcutsHelp,
        Overlay::Broadcast,
        Overlay::Snippets,
        Overlay::About,
        Overlay::Settings,
        Overlay::ConnectionForm,
    ] {
        assert!(seen.contains(&every(o)), "{o:?} missing from Z_ORDER");
    }

    let z = |o: Overlay| Z_ORDER.iter().position(|&x| x == o).unwrap();
    assert_eq!(z(Overlay::Palette), 0, "the palette is summoned over anything");
    // A failure raised inside a panel must show over that panel.
    for panel in [
        Overlay::ProxyManager,
        Overlay::TunnelManager,
        Overlay::Editor,
        Overlay::KeyManager,
        Overlay::Settings,
        Overlay::ConnectionForm,
        Overlay::ConnectDialog,
    ] {
        assert!(z(Overlay::ErrorDialog) < z(panel), "error dialog hidden under {panel:?}");
    }
    // "View log" in the error dialog opens the log viewer over it.
    assert!(z(Overlay::LogViewer) < z(Overlay::ErrorDialog));
    // An SSH thread is blocked on the auth prompt, and a test or a key deploy
    // raises it from inside a panel: it must clear all of them.
    for panel in [
        Overlay::ErrorDialog,
        Overlay::ProcessDetail,
        Overlay::Editor,
        Overlay::ConnectDialog,
        Overlay::KeyManager,
        Overlay::Settings,
        Overlay::ConnectionForm,
        Overlay::SftpInput,
    ] {
        assert!(z(Overlay::AuthPrompt) < z(panel), "auth prompt hidden under {panel:?}");
    }
    // The kill confirmation is opened from the process popup.
    assert!(z(Overlay::ConfirmAction) < z(Overlay::ProcessDetail));
    // A failed SFTP call reports over the dialog that asked for it.
    assert!(z(Overlay::ErrorDialog) < z(Overlay::SftpInput));
}

#[test]
fn only_the_overlays_with_a_secret_field_wait_for_the_focus_answer() {
    assert_eq!(
        HOLDS_SECRETS,
        [Overlay::ConnectionForm, Overlay::ProxyManager, Overlay::TunnelManager, Overlay::AuthPrompt]
    );
    for overlay in [Overlay::Palette, Overlay::SftpInput, Overlay::TabRename, Overlay::Settings] {
        assert!(!HOLDS_SECRETS.contains(&overlay), "{overlay:?}");
    }
}

#[test]
fn autocomplete_takes_only_plain_tab_and_down() {
    assert!(is_autocomplete_key(&Key::Named(Named::Tab), &PLAIN));
    assert!(is_autocomplete_key(&Key::Named(Named::ArrowDown), &PLAIN));
    assert!(!is_autocomplete_key(&Key::Named(Named::ArrowUp), &PLAIN));
    // Shift+Tab, Ctrl+Tab (tab switching) and Alt+Down stay with the terminal.
    for m in [
        Modifiers { shift: true, ..PLAIN },
        Modifiers { control: true, ..PLAIN },
        Modifiers { alt: true, ..PLAIN },
    ] {
        assert!(!is_autocomplete_key(&Key::Named(Named::Tab), &m));
        assert!(!is_autocomplete_key(&Key::Named(Named::ArrowDown), &m));
    }
}

#[test]
fn default_cells_paint_the_theme_colours_and_no_background_block() {
    let plain = styled(None, None, false);
    for (fg, bg) in [(rgb(226, 232, 240), rgb(26, 27, 46)), (rgb(101, 123, 131), rgb(253, 246, 227))] {
        assert_eq!(cell_paint(&plain, fg, bg), (None, fg));
    }
}

#[test]
fn reverse_video_swaps_the_resolved_theme_colours() {
    let (fg, bg) = (rgb(101, 123, 131), rgb(253, 246, 227));
    assert_eq!(cell_paint(&styled(None, None, true), fg, bg), (Some(fg), bg));
}

#[test]
fn explicit_cell_colours_are_painted_as_set() {
    let (red, blue) = (rgb(205, 49, 49), rgb(36, 114, 200));
    let (fg, bg) = (rgb(1, 2, 3), rgb(4, 5, 6));
    assert_eq!(cell_paint(&styled(Some(red), Some(blue), false), fg, bg), (Some(blue), red));
    assert_eq!(cell_paint(&styled(Some(red), Some(blue), true), fg, bg), (Some(red), blue));
    // One side explicit, one default: only the default side follows the theme.
    assert_eq!(cell_paint(&styled(Some(red), None, false), fg, bg), (None, red));
    assert_eq!(cell_paint(&styled(None, Some(blue), false), fg, bg), (Some(blue), fg));
    assert_eq!(cell_paint(&styled(Some(red), None, true), fg, bg), (Some(red), bg));
    assert_eq!(cell_paint(&styled(None, Some(blue), true), fg, bg), (Some(fg), blue));
}

#[test]
fn a_terminal_colour_edit_changes_the_canvas_cache_key() {
    let (bg, fg) = (rgba(26, 27, 46), rgba(226, 232, 240));
    assert_eq!(theme_colors_key(bg, fg), theme_colors_key(bg, fg));
    assert_ne!(theme_colors_key(bg, fg), theme_colors_key(rgba(26, 27, 47), fg));
    assert_ne!(theme_colors_key(bg, fg), theme_colors_key(bg, rgba(226, 232, 241)));
    assert_ne!(theme_colors_key(bg, fg), theme_colors_key(fg, bg), "not symmetric");
    // Never the fresh state's 0, so the first frame is always painted.
    assert_ne!(theme_colors_key(rgba(0, 0, 0), rgba(0, 0, 0)), 0);
}

#[test]
fn blank_cells_are_judged_by_the_default_background_sentinel() {
    let blank = cell(' ');
    let nul = cell('\0');
    assert!(is_blank_cell(&blank) && is_blank_cell(&nul));
    assert!(is_row_empty(&[blank, nul]));

    let mut coloured = cell(' ');
    coloured.style.bg = Some(rgb(1, 2, 3));
    let mut inverse = cell(' ');
    inverse.style.inverse = true;
    let glyph = cell('x');
    for cell in [&coloured, &inverse, &glyph] {
        assert!(!is_blank_cell(cell), "{cell:?}");
    }
    assert!(!is_row_empty(&[blank, glyph]));
}

#[test]
fn a_canvas_repaints_when_the_grid_or_the_colours_changed() {
    let mut view = TerminalViewState::new();
    assert!(view.refresh(1, 7), "the first frame");
    assert!(!view.refresh(1, 7));
    assert!(view.refresh(2, 7), "the grid changed");
    assert!(view.refresh(2, 8), "a colour changed");
    assert!(!view.refresh(2, 8));
    assert_eq!(fitted_size(1, 0), (2, 2));
    assert_eq!(fitted_size(80, 24), (80, 24));
}

#[test]
fn auth_focus_waits_until_the_modal_is_on_screen() {
    assert!(!auth_modal_visible(&Screen::Locked, Some(Overlay::AuthPrompt)));
    assert!(!auth_modal_visible(&Screen::Setup, Some(Overlay::AuthPrompt)));
    assert!(!auth_modal_visible(&Screen::Main, Some(Overlay::Palette)));
    assert!(!auth_modal_visible(&Screen::Main, Some(Overlay::ConfirmDelete)));
    assert!(!auth_modal_visible(&Screen::Main, None));
    assert!(auth_modal_visible(&Screen::Main, Some(Overlay::AuthPrompt)));

    // Raised on the lock screen: owed, not handed over.
    let mut owed = true;
    let locked = auth_modal_visible(&Screen::Locked, Some(Overlay::AuthPrompt));
    assert!(!take_owed_focus(&mut owed, locked));
    assert!(owed, "the focus is still owed once the vault is unlocked");
    // Unlocked, nothing above the modal: handed over — once.
    let shown = auth_modal_visible(&Screen::Main, Some(Overlay::AuthPrompt));
    assert!(take_owed_focus(&mut owed, shown));
    assert!(
        !take_owed_focus(&mut owed, shown),
        "a focus on every poll tick would pull the cursor back to the first field"
    );
}

#[test]
fn the_input_method_stays_away_from_secrets() {
    let otp = [("Verification code:".to_string(), false)];
    let user = [("Username:".to_string(), true)];
    for screen in [Screen::Setup, Screen::Locked] {
        for focused in [
            FocusedField::Nothing,
            FocusedField::Text,
            FocusedField::Secret,
            FocusedField::AuthAnswer(0),
        ] {
            assert!(!ime_allowed(&screen, focused, &user), "{screen:?} {focused:?}");
        }
    }
    assert!(ime_allowed(&Screen::Main, FocusedField::Nothing, &[]), "the terminal takes Chinese");
    assert!(ime_allowed(&Screen::Main, FocusedField::Text, &[]), "so do names and searches");
    assert!(!ime_allowed(&Screen::Main, FocusedField::Secret, &[]));
    assert!(!ime_allowed(&Screen::Main, FocusedField::AuthAnswer(0), &otp), "a masked answer");
    assert!(ime_allowed(&Screen::Main, FocusedField::AuthAnswer(0), &user), "an echoed one");
    assert!(!ime_allowed(&Screen::Main, FocusedField::AuthAnswer(1), &user), "no prompt behind it");
}

const SECRET_INPUT_IDS: [&str; 9] = [
    SETUP_PW_INPUT_ID,
    SETUP_CONFIRM_INPUT_ID,
    UNLOCK_PW_INPUT_ID,
    CONN_PASSWORD_INPUT_ID,
    CONN_PASSPHRASE_INPUT_ID,
    PROXY_PASSWORD_INPUT_ID,
    PROXY_PASSPHRASE_INPUT_ID,
    TUNNEL_PASSWORD_INPUT_ID,
    TUNNEL_PASSPHRASE_INPUT_ID,
];

#[test]
fn every_secret_field_is_known_by_its_id() {
    assert_eq!(SECRET_INPUT_IDS.len(), 9);
    for secret in SECRET_INPUT_IDS {
        assert_eq!(FocusedField::of(Some(secret)), FocusedField::Secret, "{secret}");
    }
    let unique: HashSet<&str> = SECRET_INPUT_IDS.into_iter().collect();
    assert_eq!(unique.len(), SECRET_INPUT_IDS.len());
    let answer = auth_input_id(3);
    assert_eq!(FocusedField::of(Some(&answer)), FocusedField::AuthAnswer(3));
    for other in [PALETTE_INPUT_ID, QUICK_CMD_INPUT_ID, SFTP_INPUT_ID, TERM_SEARCH_INPUT_ID] {
        assert_eq!(FocusedField::of(Some(other)), FocusedField::Text, "{other}");
    }
    assert_eq!(FocusedField::of(None), FocusedField::Nothing);
}

#[test]
fn stale_focus_answers_are_ignored() {
    let mut focus = FocusTracker::new();
    let _ = focus.query(); // 1: asked before the app focused a field
    let _ = focus.focus(&auth_input_id(0)); // 2, and its own query: 3
    assert_eq!(focus.field, FocusedField::AuthAnswer(0), "known before any answer");
    focus.found(1, None);
    assert_eq!(focus.field, FocusedField::AuthAnswer(0), "asked before the focus moved");
    focus.found(3, Some(auth_input_id(0)));
    assert_eq!(focus.field, FocusedField::AuthAnswer(0));
    let _ = focus.query(); // 4
    let _ = focus.query(); // 5
    focus.found(5, None);
    assert_eq!(focus.field, FocusedField::Nothing, "back in the terminal");
    focus.found(4, Some(UNLOCK_PW_INPUT_ID.to_string()));
    assert_eq!(focus.field, FocusedField::Nothing, "older than the answer in");
    assert!(focus.answered());
    let _ = focus.query();
    assert!(!focus.answered(), "a click's answer is out");
    focus.found(6, None);
    assert!(focus.answered());
    // An answer field past AUTH_MAX_FIELDS is one all the same, while a
    // challenge that long is on screen.
    let far = AUTH_MAX_FIELDS + 5;
    let _ = focus.query();
    focus.found(7, Some(auth_input_id(far)));
    assert_eq!(focus.field_for(far + 1), FocusedField::AuthAnswer(far));
    assert_eq!(focus.field_for(1), FocusedField::Text, "no such field on screen");
    let _ = focus.query();
    focus.found(8, Some(PALETTE_INPUT_ID.to_string()));
    assert_eq!(focus.field_for(far + 1), FocusedField::Text);
}

#[test]
fn presses_tab_and_esc_may_move_the_focus() {
    let key = |named| Message::KeyboardEvent(Key::Named(named), PLAIN, None, false);
    assert!(moves_focus(&Message::TerminalMouseDown(MouseButton::Left)));
    assert!(moves_focus(&Message::FocusMayHaveMoved));
    assert!(moves_focus(&key(Named::Tab)));
    assert!(moves_focus(&key(Named::Escape)));
    assert!(!moves_focus(&key(Named::Enter)));
    assert!(!moves_focus(&Message::PollSshEvents));
}

#[test]
fn hiding_a_panel_asks_where_the_focus_went() {
    assert!(moves_focus(&Message::ToggleBottomPanel));
    assert!(moves_focus(&Message::ToggleSidebar));
}

#[test]
fn the_input_method_waits_for_the_focus_answer_only_where_a_secret_can_be() {
    // A form is open and a click's answer is out: off until it arrives.
    assert!(!focus_settled_or_no_secret_on_screen(false, true));
    // Answered: the focused field decides.
    assert!(focus_settled_or_no_secret_on_screen(true, true));
    // No overlay, no secret field on screen: a click never flips it.
    assert!(focus_settled_or_no_secret_on_screen(false, false));
}

#[test]
fn main_screen_inputs_are_reported_as_text_not_as_the_terminal() {
    for id in [SIDEBAR_SEARCH_INPUT_ID, LOCAL_PATH_INPUT_ID, REMOTE_PATH_INPUT_ID] {
        assert_eq!(FocusedField::of(Some(id)), FocusedField::Text, "{id}");
        assert!(!SECRET_INPUT_IDS.contains(&id), "{id}");
        assert!(!is_secret_input(id), "{id}");
    }
}
