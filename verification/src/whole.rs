//! What holds of the app as a whole.

use vstd::prelude::*;

use crate::browsing;
use crate::connecting;
use crate::draining;
use crate::draining::Drain;
use crate::draining::Naming;
use crate::editing;
use crate::events::DrainBudget;
use crate::events::SshEvent;
use crate::finding;
use crate::input;
use crate::keeping;
use crate::locking;
use crate::overlays;
use crate::panes;
use crate::pointer;
use crate::screens::Overlay;
use crate::sharing;
use crate::signing;
use crate::transferring;
use crate::updating;
use crate::updating::Area;
use crate::watching;
use crate::windows;
use crate::state::Effect;
use crate::state::Env;
use crate::state::Message;
use crate::state::NeoShell;

verus! {

proof fn lemma_connection_messages_leave_the_vault(before: NeoShell, m: Message, env: Env, after: NeoShell, fx: Seq<Effect>)
    requires
        connecting::is_connection_message(m),
        connecting::connection_step(before, m, env, after, fx),
    ensures
        after.vault == before.vault,
{
    reveal(connecting::connection_step);
}

proof fn lemma_form_messages_leave_the_vault(before: NeoShell, m: Message, env: Env, after: NeoShell, fx: Seq<Effect>)
    requires
        editing::is_form_message(m),
        editing::form_step(before, m, env, after, fx),
    ensures
        after.vault == before.vault,
{
    reveal(editing::form_step);
}

proof fn lemma_proxy_messages_leave_the_vault(before: NeoShell, m: Message, env: Env, after: NeoShell, fx: Seq<Effect>)
    requires
        editing::is_proxy_message(m),
        editing::proxy_step(before, m, env, after, fx),
    ensures
        after.vault == before.vault,
{
    reveal(editing::proxy_step);
}

proof fn lemma_tunnel_messages_leave_the_vault(before: NeoShell, m: Message, env: Env, after: NeoShell, fx: Seq<Effect>)
    requires
        editing::is_tunnel_message(m),
        editing::tunnel_step(before, m, env, after, fx),
    ensures
        after.vault == before.vault,
{
    reveal(editing::tunnel_step);
}

proof fn lemma_tab_messages_leave_the_vault(before: NeoShell, m: Message, env: Env, after: NeoShell, fx: Seq<Effect>)
    requires
        panes::is_tab_message(m),
        panes::tab_step(before, m, env, after, fx),
    ensures
        after.vault == before.vault,
{
    reveal(panes::tab_step);
}

proof fn lemma_input_messages_leave_the_vault(before: NeoShell, m: Message, env: Env, after: NeoShell, fx: Seq<Effect>)
    requires
        input::is_input_message(m),
        input::input_step(before, m, env, after, fx),
    ensures
        after.vault == before.vault,
{
    reveal(input::input_step);
    if let Message::KeyboardEvent(_, _, _, _) = m {
        let mid = input::unfocused(before, true);
        if overlays::escaped(mid, env.now, after, true, fx) {
            let o = if mid.top() == Some(Overlay::Palette) {
                Overlay::About
            } else {
                Overlay::Palette
            };
            overlays::law_esc_closes_only_what_is_drawn(mid, env.now, after, true, fx, o);
        }
    }
}

proof fn lemma_mouse_messages_leave_the_vault(before: NeoShell, m: Message, env: Env, after: NeoShell, fx: Seq<Effect>)
    requires
        pointer::is_mouse_message(m),
        pointer::mouse_step(before, m, env, after, fx),
    ensures
        after.vault == before.vault,
{
    reveal(pointer::mouse_step);
}

proof fn lemma_search_messages_leave_the_vault(before: NeoShell, m: Message, env: Env, after: NeoShell, fx: Seq<Effect>)
    requires
        finding::is_search_message(m),
        finding::search_step(before, m, env, after, fx),
    ensures
        after.vault == before.vault,
{
    reveal(finding::search_step);
}

proof fn lemma_monitor_messages_leave_the_vault(before: NeoShell, m: Message, env: Env, after: NeoShell, fx: Seq<Effect>)
    requires
        watching::is_monitor_message(m),
        watching::monitor_step(before, m, env, after, fx),
    ensures
        after.vault == before.vault,
{
    reveal(watching::monitor_step);
}

proof fn lemma_file_messages_leave_the_vault(before: NeoShell, m: Message, env: Env, after: NeoShell, fx: Seq<Effect>)
    requires
        browsing::is_file_message(m),
        browsing::file_step(before, m, env, after, fx),
    ensures
        after.vault == before.vault,
{
    reveal(browsing::file_step);
}

proof fn lemma_sftp_messages_leave_the_vault(before: NeoShell, m: Message, env: Env, after: NeoShell, fx: Seq<Effect>)
    requires
        browsing::is_sftp_message(m),
        browsing::sftp_step(before, m, env, after, fx),
    ensures
        after.vault == before.vault,
{
    reveal(browsing::sftp_step);
}

proof fn lemma_transfer_messages_leave_the_vault(before: NeoShell, m: Message, env: Env, after: NeoShell, fx: Seq<Effect>)
    requires
        transferring::is_transfer_message(m),
        transferring::transfer_step(before, m, env, after, fx),
    ensures
        after.vault == before.vault,
{
    reveal(transferring::transfer_step);
    if let Message::TransfersSpotted(list) = m {
        let steps = choose|steps: Seq<Naming>| #[trigger] draining::spotted_via(before, list@, steps, after, fx);
        lemma_naming_leaves_the_vault(steps, list@, list@.len() as int);
    }
}

proof fn lemma_naming_leaves_the_vault(steps: Seq<Naming>, list: Seq<(String, String)>, n: int)
    requires
        draining::is_naming(steps, list),
        0 <= n <= list.len(),
    ensures
        steps[n].state.vault == steps[0].state.vault,
    decreases n,
{
    if n > 0 {
        lemma_naming_leaves_the_vault(steps, list, n - 1);
        assert(draining::named_one(steps[n - 1], list[n - 1], steps[n]));
    }
}

proof fn lemma_auth_messages_leave_the_vault(before: NeoShell, m: Message, env: Env, after: NeoShell, fx: Seq<Effect>)
    requires
        signing::is_auth_message(m),
        signing::auth_step(before, m, env, after, fx),
    ensures
        after.vault == before.vault,
{
    reveal(signing::auth_step);
}

proof fn lemma_sharing_messages_leave_the_vault(before: NeoShell, m: Message, env: Env, after: NeoShell, fx: Seq<Effect>)
    requires
        sharing::is_sharing_message(m),
        sharing::sharing_step(before, m, env, after, fx),
    ensures
        after.vault == before.vault,
{
    reveal(sharing::sharing_step);
}

proof fn lemma_key_messages_leave_the_vault(before: NeoShell, m: Message, env: Env, after: NeoShell, fx: Seq<Effect>)
    requires
        sharing::is_key_message(m),
        sharing::key_step(before, m, env, after, fx),
    ensures
        after.vault == before.vault,
{
    reveal(sharing::key_step);
}

proof fn lemma_kept_messages_leave_the_vault(before: NeoShell, m: Message, env: Env, after: NeoShell, fx: Seq<Effect>)
    requires
        keeping::is_kept_message(m),
        keeping::kept_step(before, m, env, after, fx),
    ensures
        after.vault == before.vault,
{
    reveal(keeping::kept_step);
}

proof fn lemma_window_messages_leave_the_vault(before: NeoShell, m: Message, env: Env, after: NeoShell, fx: Seq<Effect>)
    requires
        windows::is_window_message(m),
        windows::window_step(before, m, env, after, fx),
    ensures
        after.vault == before.vault,
{
    reveal(windows::window_step);
}

proof fn lemma_events_leave_the_vault(
    before: NeoShell,
    event: SshEvent,
    env: Env,
    after: NeoShell,
    fx: Seq<Effect>,
    found: Option<(String, String)>,
)
    requires
        draining::event_step(before, event, env, after, fx, found),
    ensures
        after.vault == before.vault,
{
    reveal(draining::event_step);
}

proof fn lemma_drains_leave_the_vault(steps: Seq<Drain>, env: Env)
    requires
        draining::is_drain(steps, env),
    ensures
        steps.last().state.vault == steps[0].state.vault,
    decreases steps.len(),
{
    if steps.len() > 1 {
        let head = steps.drop_last();
        assert forall|i: int| 0 < i < head.len() implies draining::drained_next(
            #[trigger] draining::before_step(head, i),
            env,
            head[i],
        ) by {
            assert(draining::before_step(head, i) == draining::before_step(steps, i));
        }
        lemma_drains_leave_the_vault(head, env);
        let d = draining::before_step(steps, steps.len() - 1);
        assert(draining::drained_next(d, env, steps.last()));
        let (event, mid, more, found) = choose|
            event: SshEvent,
            mid: NeoShell,
            more: Seq<Effect>,
            found: Option<(String, String)>,
        | #[trigger]
            draining::drained_one(d, env, event, mid, more, found, steps.last());
        lemma_events_leave_the_vault(mid, event, env, steps.last().state, more, found);
    }
}

proof fn lemma_polls_leave_the_vault(before: NeoShell, env: Env, after: NeoShell, fx: Seq<Effect>)
    requires
        draining::polled(before, env, after, fx),
    ensures
        after.vault == before.vault,
{
    let (asked, prompts, steps, drained, left, last) = choose|
        asked: NeoShell,
        prompts: Seq<Effect>,
        steps: Seq<Drain>,
        drained: NeoShell,
        left: DrainBudget,
        last: Seq<Effect>,
    | #[trigger]
        draining::polled_via(before, env, asked, prompts, steps, drained, left, last, after, fx);
    lemma_drains_leave_the_vault(steps, env);
}

/// Nothing but a message of the vault touches the screen, the passwords being
/// typed or the timeout. And nothing else re-arms the idle timer than real
/// input does, which always does.
pub proof fn law_only_the_vault_turns_the_key(before: NeoShell, m: Message, env: Env, after: NeoShell, fx: Seq<Effect>)
    requires
        updating::updated(before, m, env, after, fx),
        !locking::is_vault_message(m),
    ensures
        after.vault == updating::noted(before, m, env.now).vault,
{
    let (mid, first) = choose|mid: NeoShell, first: Seq<Effect>| #[trigger]
        updating::updated_via(before, m, env, mid, first, after, fx);
    let s = updating::noted(before, m, env.now);
    assert(after.vault == mid.vault);
    let area = choose|area: Area| updating::belongs(m, area);
    lemma_some_area(m);
    assert(updating::area_step(area, s, m, env, mid, first));
    match area {
        Area::Vault => {},
        Area::Connection => lemma_connection_messages_leave_the_vault(s, m, env, mid, first),
        Area::Form => lemma_form_messages_leave_the_vault(s, m, env, mid, first),
        Area::Proxy => lemma_proxy_messages_leave_the_vault(s, m, env, mid, first),
        Area::Tunnel => lemma_tunnel_messages_leave_the_vault(s, m, env, mid, first),
        Area::Tab => lemma_tab_messages_leave_the_vault(s, m, env, mid, first),
        Area::Input => lemma_input_messages_leave_the_vault(s, m, env, mid, first),
        Area::Mouse => lemma_mouse_messages_leave_the_vault(s, m, env, mid, first),
        Area::Search => lemma_search_messages_leave_the_vault(s, m, env, mid, first),
        Area::Monitor => lemma_monitor_messages_leave_the_vault(s, m, env, mid, first),
        Area::File => lemma_file_messages_leave_the_vault(s, m, env, mid, first),
        Area::Sftp => lemma_sftp_messages_leave_the_vault(s, m, env, mid, first),
        Area::Transfer => lemma_transfer_messages_leave_the_vault(s, m, env, mid, first),
        Area::Auth => lemma_auth_messages_leave_the_vault(s, m, env, mid, first),
        Area::Sharing => lemma_sharing_messages_leave_the_vault(s, m, env, mid, first),
        Area::Key => lemma_key_messages_leave_the_vault(s, m, env, mid, first),
        Area::Kept => lemma_kept_messages_leave_the_vault(s, m, env, mid, first),
        Area::Window => lemma_window_messages_leave_the_vault(s, m, env, mid, first),
        Area::Drain => lemma_polls_leave_the_vault(s, env, mid, first),
    }
}

/// Every message has a handler.
proof fn lemma_some_area(m: Message)
    ensures
        exists|area: Area| updating::belongs(m, area),
{
    assert(updating::belongs(m, Area::Vault) || updating::belongs(m, Area::Connection) || updating::belongs(
        m,
        Area::Form,
    ) || updating::belongs(m, Area::Proxy) || updating::belongs(m, Area::Tunnel) || updating::belongs(m, Area::Tab)
        || updating::belongs(m, Area::Input) || updating::belongs(m, Area::Mouse) || updating::belongs(
        m,
        Area::Search,
    ) || updating::belongs(m, Area::Monitor) || updating::belongs(m, Area::File) || updating::belongs(
        m,
        Area::Sftp,
    ) || updating::belongs(m, Area::Transfer) || updating::belongs(m, Area::Auth) || updating::belongs(
        m,
        Area::Sharing,
    ) || updating::belongs(m, Area::Key) || updating::belongs(m, Area::Kept) || updating::belongs(m, Area::Window)
        || updating::belongs(m, Area::Drain));
}

/// The main screen is only reached through the master password: made up, or
/// checked against the vault.
pub proof fn law_the_main_screen_needs_the_password(
    before: NeoShell,
    m: Message,
    env: Env,
    after: NeoShell,
    fx: Seq<Effect>,
)
    requires
        updating::updated(before, m, env, after, fx),
        !(before.vault.screen is Main),
        after.vault.screen is Main,
    ensures
        m is VaultCreated || m is VaultUnlocked,
{
    if locking::is_vault_message(m) {
        let (mid, first) = choose|mid: NeoShell, first: Seq<Effect>| #[trigger]
            updating::updated_via(before, m, env, mid, first, after, fx);
        assert(updating::belongs(m, Area::Vault));
        assert(locking::vault_step(updating::noted(before, m, env.now), m, env, mid, first));
        reveal(locking::vault_step);
    } else {
        law_only_the_vault_turns_the_key(before, m, env, after, fx);
    }
}

/// The main screen is only left for a lock that was asked for, or that is due:
/// no input for as long as the timeout says.
pub proof fn law_the_vault_locks_when_asked_or_idle(
    before: NeoShell,
    m: Message,
    env: Env,
    after: NeoShell,
    fx: Seq<Effect>,
)
    requires
        updating::updated(before, m, env, after, fx),
        before.vault.screen is Main,
    ensures
        !(after.vault.screen is Main) ==> m is LockNow || (m is IdleCheck && locking::idle_for_long(
            before,
            env.now,
        )),
        m is LockNow ==> after.vault.screen is Locked,
        m is IdleCheck && locking::idle_for_long(before, env.now) ==> after.vault.screen is Locked,
{
    if locking::is_vault_message(m) {
        let (mid, first) = choose|mid: NeoShell, first: Seq<Effect>| #[trigger]
            updating::updated_via(before, m, env, mid, first, after, fx);
        assert(updating::belongs(m, Area::Vault));
        assert(updating::noted(before, m, env.now) == before);
        assert(locking::vault_step(before, m, env, mid, first));
        reveal(locking::vault_step);
    } else {
        law_only_the_vault_turns_the_key(before, m, env, after, fx);
    }
}

} // verus!
