//! The screens of the app, and what can be drawn over the main one.

use vstd::prelude::*;

verus! {

#[derive(Debug, Clone, Copy, PartialEq, Eq, Structural)]
pub enum Screen {
    Setup,
    Locked,
    Main,
}

/// Every modal and drawer that can be drawn over the main layout. At most one
/// is drawn: the first open one in [`Z_ORDER`]. What is on screen and what ESC
/// dismisses both come from it, so that the two cannot drift apart.
#[derive(Debug, Clone, Copy, PartialEq, Eq, Hash, Structural)]
pub enum Overlay {
    Palette,
    ConfirmDelete,
    AuthPrompt,
    ConfirmAction,
    LogViewer,
    ErrorDialog,
    ProcessDetail,
    Editor,
    NetworkDetail,
    ConnectDialog,
    History,
    ProxyManager,
    TunnelManager,
    TabRename,
    SftpInput,
    KeyManager,
    ShortcutsHelp,
    Broadcast,
    Snippets,
    About,
    Settings,
    ConnectionForm,
}

/// Topmost first.
/// - `Palette` is summoned over anything.
/// - `AuthPrompt` sits right under the delete confirmation: an SSH thread is
///   blocked on it, and a test or key deploy can raise it from inside a panel.
/// - `ConfirmAction` must clear `ProcessDetail`, which opens it.
/// - `ErrorDialog` reports failures raised *inside* panels.
/// - `LogViewer` stays above `ErrorDialog`, because the dialog's own
///   "View log" button opens it.
pub const Z_ORDER: [Overlay; 22] = [
    Overlay::Palette,
    Overlay::ConfirmDelete,
    Overlay::AuthPrompt,
    Overlay::ConfirmAction,
    Overlay::LogViewer,
    Overlay::ErrorDialog,
    Overlay::ProcessDetail,
    Overlay::Editor,
    Overlay::NetworkDetail,
    Overlay::ConnectDialog,
    Overlay::History,
    Overlay::ProxyManager,
    Overlay::TunnelManager,
    Overlay::TabRename,
    Overlay::SftpInput,
    Overlay::KeyManager,
    Overlay::ShortcutsHelp,
    Overlay::Broadcast,
    Overlay::Snippets,
    Overlay::About,
    Overlay::Settings,
    Overlay::ConnectionForm,
];

/// The overlays with a secret input: the connection, proxy and tunnel forms
/// (their password and passphrase) and the sign-in modal (an answer that is
/// not echoed).
pub const HOLDS_SECRETS: [Overlay; 4] = [
    Overlay::ConnectionForm,
    Overlay::ProxyManager,
    Overlay::TunnelManager,
    Overlay::AuthPrompt,
];

/// Where the overlay stands in the z-order, 0 on top.
pub open spec fn height(o: Overlay) -> int {
    match o {
        Overlay::Palette => 0,
        Overlay::ConfirmDelete => 1,
        Overlay::AuthPrompt => 2,
        Overlay::ConfirmAction => 3,
        Overlay::LogViewer => 4,
        Overlay::ErrorDialog => 5,
        Overlay::ProcessDetail => 6,
        Overlay::Editor => 7,
        Overlay::NetworkDetail => 8,
        Overlay::ConnectDialog => 9,
        Overlay::History => 10,
        Overlay::ProxyManager => 11,
        Overlay::TunnelManager => 12,
        Overlay::TabRename => 13,
        Overlay::SftpInput => 14,
        Overlay::KeyManager => 15,
        Overlay::ShortcutsHelp => 16,
        Overlay::Broadcast => 17,
        Overlay::Snippets => 18,
        Overlay::About => 19,
        Overlay::Settings => 20,
        Overlay::ConnectionForm => 21,
    }
}

/// Every overlay stands in the z-order, once, at its height.
pub proof fn law_z_order_is_complete(o: Overlay)
    ensures
        0 <= height(o) < 22,
        Z_ORDER@[height(o)] == o,
        forall|i: int| 0 <= i < 22 && #[trigger] Z_ORDER@[i] == o ==> i == height(o),
{
    assert forall|i: int| 0 <= i < 22 && #[trigger] Z_ORDER@[i] == o implies i == height(o) by {}
}

/// `top` is the overlay that is drawn when `open` says which are open: the
/// open one that none of the other open ones stands above.
pub open spec fn is_topmost(open: spec_fn(Overlay) -> bool, top: Option<Overlay>) -> bool {
    match top {
        Some(t) => open(t) && forall|o: Overlay| #[trigger] open(o) ==> height(t) <= height(o),
        None => forall|o: Overlay| !#[trigger] open(o),
    }
}

/// There is only one overlay to draw.
pub proof fn law_one_overlay_is_drawn(
    open: spec_fn(Overlay) -> bool,
    a: Option<Overlay>,
    b: Option<Overlay>,
)
    requires
        is_topmost(open, a),
        is_topmost(open, b),
    ensures
        a == b,
{
    if let Some(x) = a {
        assert(open(x));
        if let Some(y) = b {
            assert(open(y));
            law_z_order_is_complete(x);
            law_z_order_is_complete(y);
        }
    } else if let Some(y) = b {
        assert(open(y));
    }
}

pub open spec fn modal_visible(screen: Screen, topmost: Option<Overlay>) -> bool {
    screen == Screen::Main && topmost == Some(Overlay::AuthPrompt)
}

/// Whether the keyboard-interactive modal is on screen: only the main screen
/// draws it, and only while nothing sits above it in the z-order.
pub fn auth_modal_visible(screen: &Screen, topmost: Option<Overlay>) -> (r: bool)
    ensures
        r == modal_visible(*screen, topmost),
{
    *screen == Screen::Main && match topmost {
        Some(o) => o == Overlay::AuthPrompt,
        None => false,
    }
}

} // verus!
