//! The connection, proxy, tunnel and snippet forms.

use vstd::prelude::*;
use vstd::string::*;

use crate::catalog::Catalog;
use crate::connections::ConnectionInfo;
use crate::number;
use crate::secrets;
use crate::settings::Snippet;
use crate::split;
use crate::tabs;
use crate::text;
use crate::titles;
use crate::titles::SshHostConfig;

verus! {

#[derive(Debug)]
pub struct TunnelFormData {
    pub name: String,
    pub ssh_host: String,
    pub ssh_port: String,
    pub username: String,
    /// "password" or "key".
    pub auth_type: String,
    pub password: String,
    pub private_key: String,
    pub passphrase: String,
    /// Multi-line forwards, one per line.
    pub forwards_text: String,
    pub auto_start: bool,
}

#[derive(Debug)]
pub struct ConnectionFormData {
    pub name: String,
    pub host: String,
    pub port: String,
    pub username: String,
    pub auth_type: String,
    pub password: String,
    pub private_key: String,
    pub passphrase: String,
    pub group: String,
    pub proxy_id: String,
}

#[derive(Debug)]
pub struct ProxyFormData {
    pub name: String,
    /// "socks5h", "http" or "bastion".
    pub proxy_type: String,
    pub host: String,
    pub port: String,
    pub username: String,
    pub password: String,
    /// "password" or "key", for a bastion.
    pub auth_type: String,
    pub private_key: String,
    pub passphrase: String,
}

#[derive(Debug, Clone, Copy, PartialEq, Eq, Structural)]
pub enum ProxyType {
    Socks5h,
    Http,
    SshBastion,
}

/// A saved proxy, with the credentials that the vault holds for it.
#[derive(Debug)]
pub struct ProxyConfig {
    pub id: String,
    pub name: String,
    pub proxy_type: ProxyType,
    pub host: String,
    pub port: u16,
    pub username: Option<String>,
    pub password: Option<String>,
    pub auth_type: Option<String>,
    pub private_key: Option<String>,
    pub passphrase: Option<String>,
}

/// A saved tunnel. The forwards are written as the form shows them.
#[derive(Debug)]
pub struct TunnelConfig {
    pub id: String,
    pub name: String,
    pub ssh_host: String,
    pub ssh_port: u16,
    pub username: String,
    pub auth_type: String,
    pub password: Option<String>,
    pub private_key: Option<String>,
    pub passphrase: Option<String>,
    pub forwards: Vec<String>,
    pub auto_start: bool,
}

/// A saved connection with its secrets.
#[derive(Debug)]
pub struct ConnectionConfig {
    pub id: String,
    pub name: String,
    pub host: String,
    pub port: u16,
    pub username: String,
    pub auth_type: String,
    pub password: Option<String>,
    pub private_key: Option<String>,
    pub passphrase: Option<String>,
    pub group: String,
    pub color: String,
    pub proxy_id: Option<String>,
}

fn copied(s: &Option<String>) -> (r: Option<String>)
    ensures
        r == *s,
{
    match s {
        Some(t) => Some(t.clone()),
        None => None,
    }
}

impl Clone for ConnectionConfig {
    fn clone(&self) -> (r: Self)
        ensures
            r == *self,
    {
        ConnectionConfig {
            id: self.id.clone(),
            name: self.name.clone(),
            host: self.host.clone(),
            port: self.port,
            username: self.username.clone(),
            auth_type: self.auth_type.clone(),
            password: copied(&self.password),
            private_key: copied(&self.private_key),
            passphrase: copied(&self.passphrase),
            group: self.group.clone(),
            color: self.color.clone(),
            proxy_id: copied(&self.proxy_id),
        }
    }
}

/// How a connection test ended.
#[derive(Debug)]
pub struct ConnectionTestResult {
    pub ok: bool,
    pub latency_ms: u64,
    pub stage: String,
    pub error: Option<String>,
}

/// How a proxy test ended.
#[derive(Debug)]
pub struct ProxyTestResult {
    pub reachable: bool,
    pub latency_ms: u64,
    pub error: Option<String>,
}

// ---- blank forms ------------------------------------------------------------------------------

impl TunnelFormData {
    pub open spec fn reads_as(&self, other: TunnelFormData) -> bool {
        &&& self.name@ == other.name@
        &&& self.ssh_host@ == other.ssh_host@
        &&& self.ssh_port@ == other.ssh_port@
        &&& self.username@ == other.username@
        &&& self.auth_type@ == other.auth_type@
        &&& self.password@ == other.password@
        &&& self.private_key@ == other.private_key@
        &&& self.passphrase@ == other.passphrase@
        &&& self.forwards_text@ == other.forwards_text@
        &&& self.auto_start == other.auto_start
    }

    pub open spec fn is_blank(&self) -> bool {
        &&& self.name@.len() == 0
        &&& self.ssh_host@.len() == 0
        &&& self.ssh_port@.len() == 0
        &&& self.username@.len() == 0
        &&& self.auth_type@.len() == 0
        &&& self.password@.len() == 0
        &&& self.private_key@.len() == 0
        &&& self.passphrase@.len() == 0
        &&& self.forwards_text@.len() == 0
        &&& !self.auto_start
    }

    pub fn blank() -> (r: TunnelFormData)
        ensures
            r.is_blank(),
    {
        TunnelFormData {
            name: String::new(),
            ssh_host: String::new(),
            ssh_port: String::new(),
            username: String::new(),
            auth_type: String::new(),
            password: String::new(),
            private_key: String::new(),
            passphrase: String::new(),
            forwards_text: String::new(),
            auto_start: false,
        }
    }

    pub fn same_as(&self, other: &TunnelFormData) -> (r: bool)
        ensures
            r == self.reads_as(*other),
    {
        text::same_text(self.name.as_str(), other.name.as_str()) && text::same_text(
            self.ssh_host.as_str(),
            other.ssh_host.as_str(),
        ) && text::same_text(self.ssh_port.as_str(), other.ssh_port.as_str()) && text::same_text(
            self.username.as_str(),
            other.username.as_str(),
        ) && text::same_text(self.auth_type.as_str(), other.auth_type.as_str()) && text::same_text(
            self.password.as_str(),
            other.password.as_str(),
        ) && text::same_text(self.private_key.as_str(), other.private_key.as_str()) && text::same_text(
            self.passphrase.as_str(),
            other.passphrase.as_str(),
        ) && text::same_text(self.forwards_text.as_str(), other.forwards_text.as_str())
            && self.auto_start == other.auto_start
    }
}

impl ConnectionFormData {
    pub open spec fn reads_as(&self, other: ConnectionFormData) -> bool {
        &&& self.name@ == other.name@
        &&& self.host@ == other.host@
        &&& self.port@ == other.port@
        &&& self.username@ == other.username@
        &&& self.auth_type@ == other.auth_type@
        &&& self.password@ == other.password@
        &&& self.private_key@ == other.private_key@
        &&& self.passphrase@ == other.passphrase@
        &&& self.group@ == other.group@
        &&& self.proxy_id@ == other.proxy_id@
    }

    pub open spec fn is_blank(&self) -> bool {
        &&& self.name@.len() == 0
        &&& self.host@.len() == 0
        &&& self.port@.len() == 0
        &&& self.username@.len() == 0
        &&& self.auth_type@.len() == 0
        &&& self.password@.len() == 0
        &&& self.private_key@.len() == 0
        &&& self.passphrase@.len() == 0
        &&& self.group@.len() == 0
        &&& self.proxy_id@.len() == 0
    }

    pub fn blank() -> (r: ConnectionFormData)
        ensures
            r.is_blank(),
    {
        ConnectionFormData {
            name: String::new(),
            host: String::new(),
            port: String::new(),
            username: String::new(),
            auth_type: String::new(),
            password: String::new(),
            private_key: String::new(),
            passphrase: String::new(),
            group: String::new(),
            proxy_id: String::new(),
        }
    }

    pub fn same_as(&self, other: &ConnectionFormData) -> (r: bool)
        ensures
            r == self.reads_as(*other),
    {
        text::same_text(self.name.as_str(), other.name.as_str()) && text::same_text(
            self.host.as_str(),
            other.host.as_str(),
        ) && text::same_text(self.port.as_str(), other.port.as_str()) && text::same_text(
            self.username.as_str(),
            other.username.as_str(),
        ) && text::same_text(self.auth_type.as_str(), other.auth_type.as_str()) && text::same_text(
            self.password.as_str(),
            other.password.as_str(),
        ) && text::same_text(self.private_key.as_str(), other.private_key.as_str()) && text::same_text(
            self.passphrase.as_str(),
            other.passphrase.as_str(),
        ) && text::same_text(self.group.as_str(), other.group.as_str()) && text::same_text(
            self.proxy_id.as_str(),
            other.proxy_id.as_str(),
        )
    }
}

impl ProxyFormData {
    pub open spec fn reads_as(&self, other: ProxyFormData) -> bool {
        &&& self.name@ == other.name@
        &&& self.proxy_type@ == other.proxy_type@
        &&& self.host@ == other.host@
        &&& self.port@ == other.port@
        &&& self.username@ == other.username@
        &&& self.password@ == other.password@
        &&& self.auth_type@ == other.auth_type@
        &&& self.private_key@ == other.private_key@
        &&& self.passphrase@ == other.passphrase@
    }

    pub open spec fn is_blank(&self) -> bool {
        &&& self.name@.len() == 0
        &&& self.proxy_type@.len() == 0
        &&& self.host@.len() == 0
        &&& self.port@.len() == 0
        &&& self.username@.len() == 0
        &&& self.password@.len() == 0
        &&& self.auth_type@.len() == 0
        &&& self.private_key@.len() == 0
        &&& self.passphrase@.len() == 0
    }

    pub fn blank() -> (r: ProxyFormData)
        ensures
            r.is_blank(),
    {
        ProxyFormData {
            name: String::new(),
            proxy_type: String::new(),
            host: String::new(),
            port: String::new(),
            username: String::new(),
            password: String::new(),
            auth_type: String::new(),
            private_key: String::new(),
            passphrase: String::new(),
        }
    }

    pub fn same_as(&self, other: &ProxyFormData) -> (r: bool)
        ensures
            r == self.reads_as(*other),
    {
        text::same_text(self.name.as_str(), other.name.as_str()) && text::same_text(
            self.proxy_type.as_str(),
            other.proxy_type.as_str(),
        ) && text::same_text(self.host.as_str(), other.host.as_str()) && text::same_text(
            self.port.as_str(),
            other.port.as_str(),
        ) && text::same_text(self.username.as_str(), other.username.as_str()) && text::same_text(
            self.password.as_str(),
            other.password.as_str(),
        ) && text::same_text(self.auth_type.as_str(), other.auth_type.as_str()) && text::same_text(
            self.private_key.as_str(),
            other.private_key.as_str(),
        ) && text::same_text(self.passphrase.as_str(), other.passphrase.as_str())
    }
}

// ---- secrets ----------------------------------------------------------------------------------

/// `after` is the form with its secrets gone, and nothing else.
pub open spec fn conn_scrubbed(before: ConnectionFormData, after: ConnectionFormData) -> bool {
    &&& after.password@.len() == 0
    &&& after.passphrase@.len() == 0
    &&& after == (ConnectionFormData { password: after.password, passphrase: after.passphrase, ..before })
}

pub open spec fn proxy_scrubbed(before: ProxyFormData, after: ProxyFormData) -> bool {
    &&& after.password@.len() == 0
    &&& after.passphrase@.len() == 0
    &&& after == (ProxyFormData { password: after.password, passphrase: after.passphrase, ..before })
}

pub open spec fn tunnel_scrubbed(before: TunnelFormData, after: TunnelFormData) -> bool {
    &&& after.password@.len() == 0
    &&& after.passphrase@.len() == 0
    &&& after == (TunnelFormData { password: after.password, passphrase: after.passphrase, ..before })
}

/// Wipe every plaintext credential sitting in an open form.
///
/// Re-locking clears the key, but a half-filled form still holds the password
/// that was typed or decrypted. Leaving it there would put the secret back on
/// screen the moment the vault is unlocked again, which is precisely what the
/// lock is for.
pub fn scrub_form_secrets(conn: &mut ConnectionFormData, proxy: &mut ProxyFormData, tunnel: &mut TunnelFormData)
    ensures
        conn_scrubbed(*old(conn), *final(conn)),
        proxy_scrubbed(*old(proxy), *final(proxy)),
        tunnel_scrubbed(*old(tunnel), *final(tunnel)),
{
    secrets::wipe(&mut conn.password);
    secrets::wipe(&mut conn.passphrase);
    secrets::wipe(&mut proxy.password);
    secrets::wipe(&mut proxy.passphrase);
    secrets::wipe(&mut tunnel.password);
    secrets::wipe(&mut tunnel.passphrase);
}

/// Zero the credentials the proxy and tunnel lists hold decrypted, before the
/// lock drops the lists: a dropped `String` leaves its bytes on the heap.
pub fn scrub_list_secrets(proxies: &mut Vec<ProxyConfig>, tunnels: &mut Vec<TunnelConfig>)
    ensures
        final(proxies)@ == Seq::new(
            old(proxies)@.len(),
            |i: int| ProxyConfig { password: None, passphrase: None, ..old(proxies)@[i] },
        ),
        final(tunnels)@ == Seq::new(
            old(tunnels)@.len(),
            |i: int| TunnelConfig { password: None, passphrase: None, ..old(tunnels)@[i] },
        ),
{
    let mut i: usize = 0;
    while i < proxies.len()
        invariant
            i <= proxies.len(),
            proxies@.len() == old(proxies)@.len(),
            forall|k: int|
                0 <= k < i ==> #[trigger] proxies@[k] == (ProxyConfig {
                    password: None,
                    passphrase: None,
                    ..old(proxies)@[k]
                }),
            forall|k: int| i <= k < proxies@.len() ==> #[trigger] proxies@[k] == old(proxies)@[k],
        decreases proxies.len() - i,
    {
        secrets::wipe_opt(&mut proxies[i].password);
        secrets::wipe_opt(&mut proxies[i].passphrase);
        i += 1;
    }
    let mut i: usize = 0;
    while i < tunnels.len()
        invariant
            i <= tunnels.len(),
            tunnels@.len() == old(tunnels)@.len(),
            forall|k: int|
                0 <= k < i ==> #[trigger] tunnels@[k] == (TunnelConfig {
                    password: None,
                    passphrase: None,
                    ..old(tunnels)@[k]
                }),
            forall|k: int| i <= k < tunnels@.len() ==> #[trigger] tunnels@[k] == old(tunnels)@[k],
        decreases tunnels.len() - i,
    {
        secrets::wipe_opt(&mut tunnels[i].password);
        secrets::wipe_opt(&mut tunnels[i].passphrase);
        i += 1;
    }
}

// ---- opening a form -----------------------------------------------------------------------------

/// `r` is the form, minus any secret.
pub open spec fn without_secrets(form: ConnectionFormData, r: ConnectionFormData) -> bool {
    &&& r.password@.len() == 0
    &&& r.passphrase@.len() == 0
    &&& r == (ConnectionFormData { password: r.password, passphrase: r.passphrase, ..form })
}

/// What the connection form is compared against to tell whether ESC may put
/// it away: `form` as just opened, minus any secret. Opening never fills the
/// password or passphrase, so this is the form itself — and should that ever
/// change, the form merely reads as edited and stays, rather than a second
/// copy of a secret outliving the lock.
pub fn opened_connection_form(form: &ConnectionFormData) -> (r: ConnectionFormData)
    ensures
        without_secrets(*form, r),
{
    ConnectionFormData {
        name: form.name.clone(),
        host: form.host.clone(),
        port: form.port.clone(),
        username: form.username.clone(),
        auth_type: form.auth_type.clone(),
        password: String::new(),
        private_key: form.private_key.clone(),
        passphrase: String::new(),
        group: form.group.clone(),
        proxy_id: form.proxy_id.clone(),
    }
}

/// The text, or nothing.
pub open spec fn or_empty(s: Option<String>) -> Seq<char> {
    match s {
        Some(s) => s@,
        None => Seq::empty(),
    }
}

pub fn unwrap_text(s: &Option<String>) -> (r: String)
    ensures
        r@ == or_empty(*s),
{
    match s {
        Some(s) => s.clone(),
        None => String::new(),
    }
}

pub open spec fn proxy_type_name(t: ProxyType) -> Seq<char> {
    match t {
        ProxyType::Socks5h => "socks5h"@,
        ProxyType::Http => "http"@,
        ProxyType::SshBastion => "bastion"@,
    }
}

/// `r` is the proxy form as it is opened on `saved`.
pub open spec fn is_proxy_form(r: ProxyFormData, saved: Option<ProxyConfig>) -> bool {
    match saved {
        Some(p) => {
            &&& r.name@ == p.name@
            &&& r.proxy_type@ == proxy_type_name(p.proxy_type)
            &&& r.host@ == p.host@
            &&& r.port@ == number::decimal(p.port as nat)
            &&& r.username@ == or_empty(p.username)
            &&& r.password@ == or_empty(p.password)
            &&& r.auth_type@ == (match p.auth_type {
                Some(t) => t@,
                None => "password"@,
            })
            &&& r.private_key@ == or_empty(p.private_key)
            &&& r.passphrase@ == or_empty(p.passphrase)
        },
        None => {
            &&& r.name@.len() == 0
            &&& r.proxy_type@ == "socks5h"@
            &&& r.host@.len() == 0
            &&& r.port@ == "1080"@
            &&& r.username@.len() == 0
            &&& r.password@.len() == 0
            &&& r.auth_type@.len() == 0
            &&& r.private_key@.len() == 0
            &&& r.passphrase@.len() == 0
        },
    }
}

/// The proxy form as it is opened: a saved proxy's fields, or the defaults of
/// a new one.
pub fn proxy_form_for(saved: Option<&ProxyConfig>) -> (r: ProxyFormData)
    ensures
        is_proxy_form(r, match saved {
            Some(p) => Some(*p),
            None => None,
        }),
{
    let p = match saved {
        Some(p) => p,
        None => {
            return ProxyFormData {
                proxy_type: "socks5h".to_owned(),
                port: "1080".to_owned(),
                ..ProxyFormData::blank()
            };
        },
    };
    ProxyFormData {
        name: p.name.clone(),
        proxy_type: match p.proxy_type {
            ProxyType::Socks5h => "socks5h".to_owned(),
            ProxyType::Http => "http".to_owned(),
            ProxyType::SshBastion => "bastion".to_owned(),
        },
        host: p.host.clone(),
        port: number::decimal_text(p.port as u64),
        username: unwrap_text(&p.username),
        password: unwrap_text(&p.password),
        auth_type: match &p.auth_type {
            Some(t) => t.clone(),
            None => "password".to_owned(),
        },
        private_key: unwrap_text(&p.private_key),
        passphrase: unwrap_text(&p.passphrase),
    }
}

/// `r` is the tunnel form as it is opened on `saved`.
pub open spec fn is_tunnel_form(r: TunnelFormData, saved: Option<TunnelConfig>) -> bool {
    match saved {
        Some(t) => {
            &&& r.name@ == t.name@
            &&& r.ssh_host@ == t.ssh_host@
            &&& r.ssh_port@ == number::decimal(t.ssh_port as nat)
            &&& r.username@ == t.username@
            &&& r.auth_type@ == t.auth_type@
            &&& r.password@ == or_empty(t.password)
            &&& r.private_key@ == or_empty(t.private_key)
            &&& r.passphrase@ == or_empty(t.passphrase)
            &&& r.forwards_text@ == split::join(split::texts(t.forwards@), "\n"@)
            &&& r.auto_start == t.auto_start
        },
        None => {
            &&& r.name@.len() == 0
            &&& r.ssh_host@.len() == 0
            &&& r.ssh_port@ == "22"@
            &&& r.username@.len() == 0
            &&& r.auth_type@ == "password"@
            &&& r.password@.len() == 0
            &&& r.private_key@.len() == 0
            &&& r.passphrase@.len() == 0
            &&& r.forwards_text@.len() == 0
            &&& !r.auto_start
        },
    }
}

/// The tunnel form as it is opened: a saved tunnel's fields, or the defaults
/// of a new one. The forwards are written out as they were typed: a rule of
/// another direction must not come back as a local one.
pub fn tunnel_form_for(saved: Option<&TunnelConfig>) -> (r: TunnelFormData)
    ensures
        is_tunnel_form(r, match saved {
            Some(t) => Some(*t),
            None => None,
        }),
{
    let t = match saved {
        Some(t) => t,
        None => {
            return TunnelFormData {
                ssh_port: "22".to_owned(),
                auth_type: "password".to_owned(),
                ..TunnelFormData::blank()
            };
        },
    };
    TunnelFormData {
        name: t.name.clone(),
        ssh_host: t.ssh_host.clone(),
        ssh_port: number::decimal_text(t.ssh_port as u64),
        username: t.username.clone(),
        auth_type: t.auth_type.clone(),
        password: unwrap_text(&t.password),
        private_key: unwrap_text(&t.private_key),
        passphrase: unwrap_text(&t.passphrase),
        forwards_text: split::join_texts(&t.forwards, "\n"),
        auto_start: t.auto_start,
    }
}

/// Two forms opened on the same saved proxy read the same.
proof fn lemma_proxy_form_unique(a: ProxyFormData, b: ProxyFormData, saved: Option<ProxyConfig>)
    requires
        is_proxy_form(b, saved),
    ensures
        a.reads_as(b) == is_proxy_form(a, saved),
{
    assert forall|x: Seq<char>, y: Seq<char>| x.len() == 0 && y.len() == 0 implies #[trigger] same_seq(x, y) by {
        assert(x =~= y);
    }
    if is_proxy_form(a, saved) && saved is None {
        assert(same_seq(a.name@, b.name@) && same_seq(a.host@, b.host@) && same_seq(a.username@, b.username@)
            && same_seq(a.password@, b.password@) && same_seq(a.auth_type@, b.auth_type@) && same_seq(
            a.private_key@,
            b.private_key@,
        ) && same_seq(a.passphrase@, b.passphrase@));
    }
}

spec fn same_seq(x: Seq<char>, y: Seq<char>) -> bool {
    x == y
}

proof fn lemma_tunnel_form_unique(a: TunnelFormData, b: TunnelFormData, saved: Option<TunnelConfig>)
    requires
        is_tunnel_form(b, saved),
    ensures
        a.reads_as(b) == is_tunnel_form(a, saved),
{
    assert forall|x: Seq<char>, y: Seq<char>| x.len() == 0 && y.len() == 0 implies #[trigger] same_seq(x, y) by {
        assert(x =~= y);
    }
    if is_tunnel_form(a, saved) && saved is None {
        assert(same_seq(a.name@, b.name@) && same_seq(a.ssh_host@, b.ssh_host@) && same_seq(
            a.username@,
            b.username@,
        ) && same_seq(a.password@, b.password@) && same_seq(a.private_key@, b.private_key@) && same_seq(
            a.passphrase@,
            b.passphrase@,
        ) && same_seq(a.forwards_text@, b.forwards_text@));
    }
}

/// The place of the first saved proxy with the id.
pub open spec fn proxy_with_id(saved: Seq<ProxyConfig>, id: Seq<char>) -> Option<int>
    decreases saved.len(),
{
    if saved.len() == 0 {
        None
    } else {
        match proxy_with_id(saved.drop_last(), id) {
            Some(i) => Some(i),
            None => if saved.last().id@ == id {
                Some(saved.len() - 1)
            } else {
                None
            },
        }
    }
}

pub fn find_proxy(saved: &Vec<ProxyConfig>, id: &str) -> (r: Option<usize>)
    ensures
        match r {
            Some(i) => i < saved.len() && proxy_with_id(saved@, id@) == Some(i as int),
            None => proxy_with_id(saved@, id@) is None,
        },
{
    let mut i: usize = 0;
    let mut found: Option<usize> = None;
    while i < saved.len()
        invariant
            i <= saved.len(),
            match found {
                Some(k) => k < i && proxy_with_id(saved@.take(i as int), id@) == Some(k as int),
                None => proxy_with_id(saved@.take(i as int), id@) is None,
            },
        decreases saved.len() - i,
    {
        assert(saved@.take(i + 1).drop_last() =~= saved@.take(i as int));
        if found.is_none() && text::same_text(saved[i].id.as_str(), id) {
            found = Some(i);
        }
        i += 1;
    }
    assert(saved@.take(saved@.len() as int) =~= saved@);
    found
}

/// The place of the first saved tunnel with the id.
pub open spec fn tunnel_with_id(saved: Seq<TunnelConfig>, id: Seq<char>) -> Option<int>
    decreases saved.len(),
{
    if saved.len() == 0 {
        None
    } else {
        match tunnel_with_id(saved.drop_last(), id) {
            Some(i) => Some(i),
            None => if saved.last().id@ == id {
                Some(saved.len() - 1)
            } else {
                None
            },
        }
    }
}

pub fn find_tunnel(saved: &Vec<TunnelConfig>, id: &str) -> (r: Option<usize>)
    ensures
        match r {
            Some(i) => i < saved.len() && tunnel_with_id(saved@, id@) == Some(i as int),
            None => tunnel_with_id(saved@, id@) is None,
        },
{
    let mut i: usize = 0;
    let mut found: Option<usize> = None;
    while i < saved.len()
        invariant
            i <= saved.len(),
            match found {
                Some(k) => k < i && tunnel_with_id(saved@.take(i as int), id@) == Some(k as int),
                None => tunnel_with_id(saved@.take(i as int), id@) is None,
            },
        decreases saved.len() - i,
    {
        assert(saved@.take(i + 1).drop_last() =~= saved@.take(i as int));
        if found.is_none() && text::same_text(saved[i].id.as_str(), id) {
            found = Some(i);
        }
        i += 1;
    }
    assert(saved@.take(saved@.len() as int) =~= saved@);
    found
}

/// The proxy form still reads exactly as it was opened.
pub open spec fn proxy_pristine(form: ProxyFormData, edit_id: Option<Seq<char>>, saved: Seq<ProxyConfig>) -> bool {
    match edit_id {
        Some(id) => match proxy_with_id(saved, id) {
            Some(i) => is_proxy_form(form, Some(saved[i])),
            None => false,
        },
        None => is_proxy_form(form, None),
    }
}

pub open spec fn opt_seq(s: Option<&str>) -> Option<Seq<char>> {
    match s {
        Some(s) => Some(s@),
        None => None,
    }
}

/// Whether ESC may put the proxy form away: it still reads exactly as it was
/// opened. When the proxy being edited is no longer in `saved` that cannot be
/// told, and the form is kept.
pub fn proxy_form_pristine(form: &ProxyFormData, edit_id: Option<&str>, saved: &Vec<ProxyConfig>) -> (r: bool)
    ensures
        r == proxy_pristine(*form, opt_seq(edit_id), saved@),
{
    match edit_id {
        Some(id) => match find_proxy(saved, id) {
            Some(i) => {
                let opened = proxy_form_for(Some(&saved[i]));
                proof {
                    lemma_proxy_form_unique(*form, opened, Some(saved@[i as int]));
                }
                form.same_as(&opened)
            },
            None => false,
        },
        None => {
            let opened = proxy_form_for(None);
            proof {
                lemma_proxy_form_unique(*form, opened, None);
            }
            form.same_as(&opened)
        },
    }
}

pub open spec fn tunnel_pristine(form: TunnelFormData, edit_id: Option<Seq<char>>, saved: Seq<TunnelConfig>) -> bool {
    match edit_id {
        Some(id) => match tunnel_with_id(saved, id) {
            Some(i) => is_tunnel_form(form, Some(saved[i])),
            None => false,
        },
        None => is_tunnel_form(form, None),
    }
}

/// [`proxy_form_pristine`], for the tunnel form.
pub fn tunnel_form_pristine(form: &TunnelFormData, edit_id: Option<&str>, saved: &Vec<TunnelConfig>) -> (r: bool)
    ensures
        r == tunnel_pristine(*form, opt_seq(edit_id), saved@),
{
    match edit_id {
        Some(id) => match find_tunnel(saved, id) {
            Some(i) => {
                let opened = tunnel_form_for(Some(&saved[i]));
                proof {
                    lemma_tunnel_form_unique(*form, opened, Some(saved@[i as int]));
                }
                form.same_as(&opened)
            },
            None => false,
        },
        None => {
            let opened = tunnel_form_for(None);
            proof {
                lemma_tunnel_form_unique(*form, opened, None);
            }
            form.same_as(&opened)
        },
    }
}

/// A form that was just opened may be put away again.
pub proof fn law_an_opened_form_is_pristine(
    proxy: ProxyFormData,
    proxies: Seq<ProxyConfig>,
    tunnel: TunnelFormData,
    tunnels: Seq<TunnelConfig>,
    id: Seq<char>,
)
    ensures
        is_proxy_form(proxy, None) ==> proxy_pristine(proxy, None, proxies),
        proxy_with_id(proxies, id) matches Some(i) ==> is_proxy_form(proxy, Some(proxies[i])) ==> proxy_pristine(
            proxy,
            Some(id),
            proxies,
        ),
        is_tunnel_form(tunnel, None) ==> tunnel_pristine(tunnel, None, tunnels),
        tunnel_with_id(tunnels, id) matches Some(i) ==> is_tunnel_form(tunnel, Some(tunnels[i]))
            ==> tunnel_pristine(tunnel, Some(id), tunnels),
{
}

/// The snippet has the id and reads as the name and the body.
pub open spec fn is_snippet(s: Snippet, id: Seq<char>, name: Seq<char>, body: Seq<char>) -> bool {
    s.id@ == id && s.name@ == name && s.body@ == body
}

pub open spec fn has_snippet(saved: Seq<Snippet>, id: Seq<char>, name: Seq<char>, body: Seq<char>) -> bool {
    exists|i: int| 0 <= i < saved.len() && #[trigger] is_snippet(saved[i], id, name, body)
}

pub open spec fn snippet_pristine(
    name: Seq<char>,
    body: Seq<char>,
    edit_id: Option<Seq<char>>,
    saved: Seq<Snippet>,
) -> bool {
    match edit_id {
        Some(id) => has_snippet(saved, id, name, body),
        None => name.len() == 0 && body.len() == 0,
    }
}

fn holds_snippet(saved: &Vec<Snippet>, id: &str, name: &str, body: &str) -> (r: bool)
    ensures
        r == has_snippet(saved@, id@, name@, body@),
{
    let mut i: usize = 0;
    while i < saved.len()
        invariant
            i <= saved.len(),
            forall|k: int| 0 <= k < i ==> !#[trigger] is_snippet(saved@[k], id@, name@, body@),
        decreases saved.len() - i,
    {
        if text::same_text(saved[i].id.as_str(), id) && text::same_text(saved[i].name.as_str(), name)
            && text::same_text(saved[i].body.as_str(), body) {
            assert(is_snippet(saved@[i as int], id@, name@, body@));
            return true;
        }
        i += 1;
    }
    false
}

/// Whether ESC may put the snippet editor away: the name and body are what
/// opening it put there — the saved snippet's, or empty for a new one.
pub fn snippet_form_pristine(name: &str, body: &str, edit_id: Option<&str>, saved: &Vec<Snippet>) -> (r: bool)
    ensures
        r == snippet_pristine(name@, body@, opt_seq(edit_id), saved@),
{
    match edit_id {
        Some(id) => holds_snippet(saved, id, name, body),
        None => is_empty_text(name) && is_empty_text(body),
    }
}

pub fn is_empty_text(s: &str) -> (r: bool)
    ensures
        r == (s@.len() == 0),
{
    text::chars_of(s).len() == 0
}

// ---- ports ----------------------------------------------------------------------------------------

/// A space around a port: an ASCII one, or the ideographic one.
pub open spec fn is_port_space(c: char) -> bool {
    c == ' ' || c == '\t' || c == '\n' || c == '\x0C' || c == '\r' || c == '\u{3000}'
}

pub open spec fn strip_left(s: Seq<char>) -> Seq<char>
    decreases s.len(),
{
    if s.len() > 0 && is_port_space(s[0]) {
        strip_left(s.drop_first())
    } else {
        s
    }
}

pub open spec fn strip_right(s: Seq<char>) -> Seq<char>
    decreases s.len(),
{
    if s.len() > 0 && is_port_space(s.last()) {
        strip_right(s.drop_last())
    } else {
        s
    }
}

/// A full-width digit as the ASCII one.
pub open spec fn narrow(c: char) -> char {
    if '\u{FF10}' <= c && c <= '\u{FF19}' {
        (c as u32 - 0xFF10 + 48) as char
    } else {
        c
    }
}

pub open spec fn port_digits(s: Seq<char>) -> Seq<char> {
    strip_right(strip_left(s)).map_values(|c: char| narrow(c))
}

/// The port typed; `Ok(None)` for a blank field.
pub open spec fn port_typed(s: Seq<char>) -> Result<Option<u16>, ()> {
    let d = port_digits(s);
    if d.len() == 0 {
        Ok(None)
    } else if number::all_digits(d, 10) && 1 <= number::value(d, 10) <= 65535 {
        Ok(Some(number::value(d, 10) as u16))
    } else {
        Err(())
    }
}

fn narrow_char(c: char) -> (r: char)
    ensures
        r == narrow(c),
{
    match c {
        '\u{FF10}' => '0',
        '\u{FF11}' => '1',
        '\u{FF12}' => '2',
        '\u{FF13}' => '3',
        '\u{FF14}' => '4',
        '\u{FF15}' => '5',
        '\u{FF16}' => '6',
        '\u{FF17}' => '7',
        '\u{FF18}' => '8',
        '\u{FF19}' => '9',
        c => c,
    }
}

fn port_space(c: char) -> (r: bool)
    ensures
        r == is_port_space(c),
{
    c == ' ' || c == '\t' || c == '\n' || c == '\x0C' || c == '\r' || c == '\u{3000}'
}

fn digits_of_port(input: &str) -> (out: Vec<char>)
    ensures
        out@ == port_digits(input@),
{
    let cs = text::chars_of(input);
    let ghost all = cs@;
    let mut lo: usize = 0;
    assert(all.skip(0) =~= all);
    while lo < cs.len() && port_space(cs[lo])
        invariant
            lo <= cs.len(),
            cs@ == all,
            strip_left(all) == strip_left(all.skip(lo as int)),
        decreases cs.len() - lo,
    {
        assert(all.skip(lo as int).drop_first() =~= all.skip(lo + 1));
        lo += 1;
    }
    assert(strip_left(all) == all.skip(lo as int));
    let ghost body = all.skip(lo as int);
    let mut hi: usize = cs.len();
    assert(body =~= all.subrange(lo as int, hi as int));
    while hi > lo && port_space(cs[hi - 1])
        invariant
            lo <= hi <= cs.len(),
            cs@ == all,
            strip_right(body) == strip_right(all.subrange(lo as int, hi as int)),
        decreases hi,
    {
        assert(all.subrange(lo as int, hi as int).drop_last() =~= all.subrange(lo as int, hi - 1));
        assert(all.subrange(lo as int, hi as int).last() == all[hi - 1]);
        hi -= 1;
    }
    let ghost stripped = all.subrange(lo as int, hi as int);
    assert(hi > lo ==> stripped.last() == all[hi - 1]);
    assert(strip_right(body) == stripped);
    let mut out: Vec<char> = Vec::new();
    let mut i: usize = lo;
    while i < hi
        invariant
            lo <= i <= hi <= cs.len(),
            cs@ == all,
            stripped == all.subrange(lo as int, hi as int),
            out@ =~= stripped.take(i - lo).map_values(|c: char| narrow(c)),
        decreases hi - i,
    {
        out.push(narrow_char(cs[i]));
        assert(stripped.take(i + 1 - lo) =~= stripped.take(i - lo).push(all[i as int]));
        i += 1;
    }
    assert(stripped.take(hi - lo) =~= stripped);
    out
}

/// A port as typed into a form. The full-width digits that an input method
/// types in full-width mode read as ASCII ones, and ASCII and ideographic
/// spaces around it are ignored. `Ok(None)` for a blank field, which takes the
/// form's default; `Err(())` for anything that is not a port from 1 to 65535
/// — reported, never defaulted.
pub fn parse_port(input: &str) -> (r: Result<Option<u16>, ()>)
    ensures
        r == port_typed(input@),
{
    let digits = digits_of_port(input);
    if digits.len() == 0 {
        return Ok(None);
    }
    if !number::are_digits(digits.as_slice(), 10) {
        return Err(());
    }
    match number::read_digits(digits.as_slice(), 10, 65535) {
        Some(n) => if n == 0 {
            Err(())
        } else {
            Ok(Some(n as u16))
        },
        None => Err(()),
    }
}

/// The port of a form whose blank port means `default`.
pub open spec fn port_or(s: Seq<char>, default: u16) -> Option<u16> {
    match port_typed(s) {
        Ok(Some(p)) => Some(p),
        Ok(None) => Some(default),
        Err(()) => None,
    }
}

pub open spec fn port_complaint(s: Seq<char>, texts: Catalog) -> Seq<char> {
    texts.says_with("form.err.port"@, "port"@, text::trim(s))
}

/// [`parse_port`] for a form whose blank port means `default`; `Err` holds
/// the message to show.
pub fn form_port(input: &str, default: u16, texts: &Catalog) -> (r: Result<u16, String>)
    ensures
        match r {
            Ok(p) => port_or(input@, default) == Some(p),
            Err(m) => port_or(input@, default) is None && m@ == port_complaint(input@, *texts),
        },
{
    match parse_port(input) {
        Ok(Some(p)) => Ok(p),
        Ok(None) => Ok(default),
        Err(()) => Err(texts.tf("form.err.port", "port", text::trim_text(input).as_str())),
    }
}

// ---- what a form saves ------------------------------------------------------------------------------

/// The text, unless there is none.
pub open spec fn unless_empty(s: Seq<char>) -> Option<Seq<char>> {
    if s.len() == 0 {
        None
    } else {
        Some(s)
    }
}

pub fn non_empty(s: &String) -> (r: Option<String>)
    ensures
        secrets::opt_view(r) == unless_empty(s@),
        r matches Some(x) ==> x == *s,
{
    if is_empty_text(s.as_str()) {
        None
    } else {
        Some(s.clone())
    }
}

/// The secret to save: the one typed, else — in an edit — the one that is
/// kept in the vault.
pub open spec fn kept(typed: Seq<char>, editing: bool, saved: Option<Seq<char>>) -> Option<Seq<char>> {
    if typed.len() > 0 {
        Some(typed)
    } else if editing {
        saved
    } else {
        None
    }
}

fn keep_secret(typed: &String, editing: bool, saved: Option<String>) -> (r: Option<String>)
    ensures
        secrets::opt_view(r) == kept(typed@, editing, secrets::opt_view(saved)),
{
    if !is_empty_text(typed.as_str()) {
        Some(typed.clone())
    } else if editing {
        saved
    } else {
        None
    }
}

/// What the vault holds as the password of the connection being edited.
pub open spec fn saved_password(stored: Option<ConnectionConfig>) -> Option<Seq<char>> {
    match stored {
        Some(c) => secrets::opt_view(c.password),
        None => None,
    }
}

pub open spec fn saved_key(stored: Option<ConnectionConfig>) -> Option<Seq<char>> {
    match stored {
        Some(c) => secrets::opt_view(c.private_key),
        None => None,
    }
}

pub open spec fn saved_passphrase(stored: Option<ConnectionConfig>) -> Option<Seq<char>> {
    match stored {
        Some(c) => secrets::opt_view(c.passphrase),
        None => None,
    }
}

/// `c` is what the connection form saves. An edit keeps the secrets whose
/// fields were left empty — the form never shows them — and the colour, which
/// the form has no field for. The group is trimmed: it is the sidebar's
/// grouping key, and one with a stray space would read exactly like another.
pub open spec fn is_form_config(
    c: ConnectionConfig,
    form: ConnectionFormData,
    edit_id: Option<String>,
    stored: Option<ConnectionConfig>,
    color: Seq<char>,
    port: u16,
) -> bool {
    &&& c.id@ == or_empty(edit_id)
    &&& c.name@ == form.name@
    &&& c.host@ == form.host@
    &&& c.port == port
    &&& c.username@ == form.username@
    &&& c.auth_type@ == form.auth_type@
    &&& secrets::opt_view(c.password) == kept(form.password@, edit_id is Some, saved_password(stored))
    &&& secrets::opt_view(c.private_key) == kept(form.private_key@, edit_id is Some, saved_key(stored))
    &&& secrets::opt_view(c.passphrase) == kept(form.passphrase@, edit_id is Some, saved_passphrase(stored))
    &&& c.group@ == text::trim(form.group@)
    &&& c.color@ == color
    &&& secrets::opt_view(c.proxy_id) == unless_empty(form.proxy_id@)
}

/// What the connection form saves, under `port`.
pub fn form_config(
    form: &ConnectionFormData,
    edit_id: &Option<String>,
    stored: Option<ConnectionConfig>,
    color: String,
    port: u16,
) -> (c: ConnectionConfig)
    ensures
        is_form_config(c, *form, *edit_id, stored, color@, port),
{
    let editing = edit_id.is_some();
    let (pw, key, pass) = match stored {
        Some(c) => (c.password, c.private_key, c.passphrase),
        None => (None, None, None),
    };
    ConnectionConfig {
        id: unwrap_text(edit_id),
        name: form.name.clone(),
        host: form.host.clone(),
        port,
        username: form.username.clone(),
        auth_type: form.auth_type.clone(),
        password: keep_secret(&form.password, editing, pw),
        private_key: keep_secret(&form.private_key, editing, key),
        passphrase: keep_secret(&form.passphrase, editing, pass),
        group: text::trim_text(form.group.as_str()),
        color,
        proxy_id: non_empty(&form.proxy_id),
    }
}

/// Saving an edit with a blank password field keeps the password.
pub proof fn law_an_edit_keeps_untouched_secrets(
    c: ConnectionConfig,
    form: ConnectionFormData,
    id: String,
    stored: ConnectionConfig,
    color: Seq<char>,
    port: u16,
)
    requires
        is_form_config(c, form, Some(id), Some(stored), color, port),
    ensures
        form.password@.len() == 0 ==> secrets::opt_view(c.password) == secrets::opt_view(stored.password),
        form.passphrase@.len() == 0 ==> secrets::opt_view(c.passphrase) == secrets::opt_view(stored.passphrase),
        form.private_key@.len() == 0 ==> secrets::opt_view(c.private_key) == secrets::opt_view(
            stored.private_key,
        ),
{
}

/// The proxy type that the form names.
pub open spec fn proxy_type_of(name: Seq<char>) -> ProxyType {
    if name == "http"@ {
        ProxyType::Http
    } else if name == "bastion"@ {
        ProxyType::SshBastion
    } else {
        ProxyType::Socks5h
    }
}

pub fn proxy_type_named(name: &str) -> (r: ProxyType)
    ensures
        r == proxy_type_of(name@),
{
    if text::same_text(name, "http") {
        ProxyType::Http
    } else if text::same_text(name, "bastion") {
        ProxyType::SshBastion
    } else {
        ProxyType::Socks5h
    }
}

pub open spec fn proxy_default_port(t: ProxyType) -> u16 {
    match t {
        ProxyType::Http => 8080,
        ProxyType::SshBastion => 22,
        ProxyType::Socks5h => 1080,
    }
}

pub fn default_proxy_port(t: ProxyType) -> (r: u16)
    ensures
        r == proxy_default_port(t),
{
    match t {
        ProxyType::Http => 8080,
        ProxyType::SshBastion => 22,
        ProxyType::Socks5h => 1080,
    }
}

/// `c` is what the proxy form saves, under the id and the port. Only a bastion
/// keeps the sign-in fields.
pub open spec fn is_proxy_config(c: ProxyConfig, form: ProxyFormData, id: Seq<char>, port: u16) -> bool {
    let t = proxy_type_of(form.proxy_type@);
    let bastion = t == ProxyType::SshBastion;
    &&& c.id@ == id
    &&& c.name@ == form.name@
    &&& c.proxy_type == t
    &&& c.host@ == form.host@
    &&& c.port == port
    &&& secrets::opt_view(c.username) == unless_empty(form.username@)
    &&& secrets::opt_view(c.password) == unless_empty(form.password@)
    &&& secrets::opt_view(c.auth_type) == (if bastion {
        Some(form.auth_type@)
    } else {
        None
    })
    &&& secrets::opt_view(c.private_key) == (if bastion {
        unless_empty(form.private_key@)
    } else {
        None
    })
    &&& secrets::opt_view(c.passphrase) == (if bastion {
        unless_empty(form.passphrase@)
    } else {
        None
    })
}

pub fn proxy_config(form: &ProxyFormData, id: String, port: u16) -> (c: ProxyConfig)
    ensures
        is_proxy_config(c, *form, id@, port),
{
    let t = proxy_type_named(form.proxy_type.as_str());
    let bastion = t == ProxyType::SshBastion;
    ProxyConfig {
        id,
        name: form.name.clone(),
        proxy_type: t,
        host: form.host.clone(),
        port,
        username: non_empty(&form.username),
        password: non_empty(&form.password),
        auth_type: if bastion {
            Some(form.auth_type.clone())
        } else {
            None
        },
        private_key: if bastion {
            non_empty(&form.private_key)
        } else {
            None
        },
        passphrase: if bastion {
            non_empty(&form.passphrase)
        } else {
            None
        },
    }
}

/// The lines of the forwards field that hold a rule, trimmed.
pub open spec fn rule_lines(lines: Seq<Seq<char>>) -> Seq<Seq<char>>
    decreases lines.len(),
{
    if lines.len() == 0 {
        Seq::empty()
    } else {
        let rest = rule_lines(lines.drop_last());
        let line = text::trim(lines.last());
        if line.len() == 0 {
            rest
        } else {
            rest.push(line)
        }
    }
}

/// The rules written in the forwards field, one per line.
pub fn forward_lines(typed: &str) -> (out: Vec<String>)
    ensures
        split::texts(out@) == rule_lines(split::lines(typed@)),
{
    let cs = text::chars_of(typed);
    let lines = split::lines_of(cs.as_slice());
    let ghost all = split::lines(typed@);
    assert(split::pieces(lines@) =~= all);
    let mut out: Vec<String> = Vec::new();
    let mut i: usize = 0;
    assert(split::texts(out@) =~= Seq::<Seq<char>>::empty());
    while i < lines.len()
        invariant
            i <= lines.len(),
            split::pieces(lines@) == all,
            split::texts(out@) == rule_lines(all.take(i as int)),
        decreases lines.len() - i,
    {
        let ghost mid = out@;
        let line = text::trim_chars(lines[i]);
        assert(all[i as int] == lines@[i as int]@);
        assert(all.take(i + 1).drop_last() =~= all.take(i as int));
        if line.len() > 0 {
            out.push(text::string_of(line));
            assert(split::texts(out@) =~= split::texts(mid).push(line@));
        }
        i += 1;
    }
    assert(all.take(all.len() as int) =~= all);
    out
}

/// `c` is what the tunnel form saves, under the id, the port and the forwards.
pub open spec fn is_tunnel_config(
    c: TunnelConfig,
    form: TunnelFormData,
    id: Seq<char>,
    port: u16,
    forwards: Seq<String>,
) -> bool {
    &&& c.id@ == id
    &&& c.name@ == form.name@
    &&& c.ssh_host@ == form.ssh_host@
    &&& c.ssh_port == port
    &&& c.username@ == form.username@
    &&& c.auth_type@ == form.auth_type@
    &&& secrets::opt_view(c.password) == unless_empty(form.password@)
    &&& secrets::opt_view(c.private_key) == unless_empty(form.private_key@)
    &&& secrets::opt_view(c.passphrase) == unless_empty(form.passphrase@)
    &&& c.forwards@ == forwards
    &&& c.auto_start == form.auto_start
}

pub fn tunnel_config(form: &TunnelFormData, id: String, port: u16, forwards: Vec<String>) -> (c: TunnelConfig)
    ensures
        is_tunnel_config(c, *form, id@, port, forwards@),
{
    TunnelConfig {
        id,
        name: form.name.clone(),
        ssh_host: form.ssh_host.clone(),
        ssh_port: port,
        username: form.username.clone(),
        auth_type: form.auth_type.clone(),
        password: non_empty(&form.password),
        private_key: non_empty(&form.private_key),
        passphrase: non_empty(&form.passphrase),
        forwards,
        auto_start: form.auto_start,
    }
}

/// Reopening a saved proxy shows what was saved, as far as its type keeps it.
pub proof fn law_a_saved_bastion_reopens_as_it_was_typed(
    typed: ProxyFormData,
    id: Seq<char>,
    port: u16,
    saved: ProxyConfig,
    reopened: ProxyFormData,
)
    requires
        typed.proxy_type@ == "bastion"@,
        is_proxy_config(saved, typed, id, port),
        is_proxy_form(reopened, Some(saved)),
    ensures
        reopened.name@ == typed.name@,
        reopened.proxy_type@ == typed.proxy_type@,
        reopened.host@ == typed.host@,
        reopened.username@ == typed.username@,
        reopened.password@ == typed.password@,
        reopened.auth_type@ == typed.auth_type@,
        reopened.private_key@ == typed.private_key@,
        reopened.passphrase@ == typed.passphrase@,
{
    reveal_strlit("bastion");
    reveal_strlit("http");
    assert("bastion"@.len() != "http"@.len());
    assert(typed.username@.len() == 0 ==> reopened.username@ =~= typed.username@);
    assert(typed.password@.len() == 0 ==> reopened.password@ =~= typed.password@);
    assert(typed.private_key@.len() == 0 ==> reopened.private_key@ =~= typed.private_key@);
    assert(typed.passphrase@.len() == 0 ==> reopened.passphrase@ =~= typed.passphrase@);
}

/// A forwarding rule as it is saved: one line, without blanks around it.
pub open spec fn is_rule(rule: Seq<char>) -> bool {
    rule.len() > 0 && text::trim(rule) == rule && !rule.contains('\n')
}

/// The rules of a reopened tunnel read back as they were saved.
pub proof fn law_saved_rules_read_back(forwards: Seq<String>, saved: TunnelConfig, reopened: TunnelFormData)
    requires
        saved.forwards@ == forwards,
        is_tunnel_form(reopened, Some(saved)),
        forall|i: int| 0 <= i < forwards.len() ==> is_rule((#[trigger] forwards[i])@),
    ensures
        rule_lines(split::lines(reopened.forwards_text@)) == split::texts(forwards),
{
    let rules = split::texts(forwards);
    assert forall|i: int| 0 <= i < rules.len() implies (#[trigger] rules[i]).len() > 0 && !rules[i].contains('\n')
        && rules[i].last() != '\r' by {
        let r = forwards[i]@;
        assert(is_rule(r));
        lemma_trimmed_ends(text::trim_start(r));
    }
    reveal_strlit("\n");
    assert("\n"@ =~= seq!['\n']);
    split::lemma_lines_of_join(rules);
    lemma_rules_are_rules(rules);
}

/// What is trimmed at its end does not end in whitespace.
proof fn lemma_trimmed_ends(s: Seq<char>)
    ensures
        text::trim_end(s).len() > 0 ==> !text::is_white(text::trim_end(s).last()),
    decreases s.len(),
{
    if s.len() > 0 && text::is_white(s.last()) {
        lemma_trimmed_ends(s.drop_last());
    }
}

proof fn lemma_rules_are_rules(rules: Seq<Seq<char>>)
    requires
        forall|i: int| 0 <= i < rules.len() ==> (#[trigger] rules[i]).len() > 0 && text::trim(rules[i]) == rules[i],
    ensures
        rule_lines(rules) == rules,
    decreases rules.len(),
{
    if rules.len() > 0 {
        let rest = rules.drop_last();
        assert forall|i: int| 0 <= i < rest.len() implies (#[trigger] rest[i]).len() > 0 && text::trim(rest[i])
            == rest[i] by {
            assert(rest[i] == rules[i]);
        }
        lemma_rules_are_rules(rest);
        assert(rest.push(rules.last()) =~= rules);
    }
}

/// Reopening a saved tunnel shows what was saved, one rule per line.
pub proof fn law_a_saved_tunnel_reopens_as_it_was_typed(
    typed: TunnelFormData,
    id: Seq<char>,
    port: u16,
    forwards: Seq<String>,
    saved: TunnelConfig,
    reopened: TunnelFormData,
)
    requires
        is_tunnel_config(saved, typed, id, port, forwards),
        is_tunnel_form(reopened, Some(saved)),
    ensures
        reopened.name@ == typed.name@,
        reopened.ssh_host@ == typed.ssh_host@,
        reopened.username@ == typed.username@,
        reopened.auth_type@ == typed.auth_type@,
        reopened.password@ == typed.password@,
        reopened.private_key@ == typed.private_key@,
        reopened.passphrase@ == typed.passphrase@,
        reopened.forwards_text@ == split::join(split::texts(forwards), "\n"@),
        reopened.auto_start == typed.auto_start,
{
    assert(typed.password@.len() == 0 ==> reopened.password@ =~= typed.password@);
    assert(typed.private_key@.len() == 0 ==> reopened.private_key@ =~= typed.private_key@);
    assert(typed.passphrase@.len() == 0 ==> reopened.passphrase@ =~= typed.passphrase@);
}

// ---- opening the connection form ---------------------------------------------------------------------

/// `f` is the connection form opened on a saved connection; its secrets are
/// never shown.
pub open spec fn is_edit_form(f: ConnectionFormData, info: ConnectionInfo) -> bool {
    &&& f.name@ == info.name@
    &&& f.host@ == info.host@
    &&& f.port@ == number::decimal(info.port as nat)
    &&& f.username@ == info.username@
    &&& f.auth_type@ == info.auth_type@
    &&& f.password@.len() == 0
    &&& f.private_key@.len() == 0
    &&& f.passphrase@.len() == 0
    &&& f.group@ == info.group@
    &&& f.proxy_id@ == or_empty(info.proxy_id)
}

pub fn edit_form(info: &ConnectionInfo) -> (f: ConnectionFormData)
    ensures
        is_edit_form(f, *info),
{
    ConnectionFormData {
        name: info.name.clone(),
        host: info.host.clone(),
        port: number::decimal_text(info.port as u64),
        username: info.username.clone(),
        auth_type: info.auth_type.clone(),
        group: info.group.clone(),
        proxy_id: unwrap_text(&info.proxy_id),
        ..ConnectionFormData::blank()
    }
}

/// `f` is the form of a new connection.
pub open spec fn is_new_form(f: ConnectionFormData) -> bool {
    &&& f.name@.len() == 0
    &&& f.host@.len() == 0
    &&& f.port@ == "22"@
    &&& f.username@.len() == 0
    &&& f.auth_type@ == "password"@
    &&& f.password@.len() == 0
    &&& f.private_key@.len() == 0
    &&& f.passphrase@.len() == 0
    &&& f.group@.len() == 0
    &&& f.proxy_id@.len() == 0
}

pub fn new_form() -> (f: ConnectionFormData)
    ensures
        is_new_form(f),
{
    ConnectionFormData {
        port: "22".to_owned(),
        auth_type: "password".to_owned(),
        ..ConnectionFormData::blank()
    }
}

/// How a host of the SSH config signs in.
pub open spec fn config_auth(cfg: SshHostConfig) -> Seq<char> {
    if cfg.identity_file@.len() == 0 {
        "password"@
    } else {
        "key"@
    }
}

pub fn auth_of_config(cfg: &SshHostConfig) -> (r: String)
    ensures
        r@ == config_auth(*cfg),
{
    if is_empty_text(cfg.identity_file.as_str()) {
        "password".to_owned()
    } else {
        "key".to_owned()
    }
}

fn host_of_config(cfg: &SshHostConfig) -> (r: String)
    ensures
        r@ == titles::dialled_host(*cfg),
{
    if is_empty_text(cfg.hostname.as_str()) {
        cfg.alias.clone()
    } else {
        cfg.hostname.clone()
    }
}

/// `f` is the form opened on a host of the SSH config.
pub open spec fn is_import_form(f: ConnectionFormData, cfg: SshHostConfig) -> bool {
    &&& f.name@ == cfg.alias@
    &&& f.host@ == titles::dialled_host(cfg)
    &&& f.port@ == number::decimal(cfg.port as nat)
    &&& f.username@ == cfg.user@
    &&& f.auth_type@ == config_auth(cfg)
    &&& f.password@.len() == 0
    &&& f.private_key@ == cfg.identity_file@
    &&& f.passphrase@.len() == 0
    &&& f.group@ == "SSH Config"@
    &&& f.proxy_id@.len() == 0
}

pub fn import_form(cfg: &SshHostConfig) -> (f: ConnectionFormData)
    ensures
        is_import_form(f, *cfg),
{
    ConnectionFormData {
        name: cfg.alias.clone(),
        host: host_of_config(cfg),
        port: number::decimal_text(cfg.port as u64),
        username: cfg.user.clone(),
        auth_type: auth_of_config(cfg),
        private_key: cfg.identity_file.clone(),
        group: "SSH Config".to_owned(),
        ..ConnectionFormData::blank()
    }
}

/// `c` is the connection that a host of the SSH config is imported as.
pub open spec fn is_imported(c: ConnectionConfig, cfg: SshHostConfig) -> bool {
    &&& c.id@.len() == 0
    &&& c.name@ == cfg.alias@
    &&& c.host@ == titles::dialled_host(cfg)
    &&& c.port == cfg.port
    &&& c.username@ == cfg.user@
    &&& c.auth_type@ == config_auth(cfg)
    &&& c.password is None
    &&& secrets::opt_view(c.private_key) == unless_empty(cfg.identity_file@)
    &&& c.passphrase is None
    &&& c.group@ == "SSH Config"@
    &&& c.color@.len() == 0
    &&& c.proxy_id is None
}

pub fn imported_connection(cfg: &SshHostConfig) -> (c: ConnectionConfig)
    ensures
        is_imported(c, *cfg),
{
    ConnectionConfig {
        id: String::new(),
        name: cfg.alias.clone(),
        host: host_of_config(cfg),
        port: cfg.port,
        username: cfg.user.clone(),
        auth_type: auth_of_config(cfg),
        password: None,
        private_key: non_empty(&cfg.identity_file),
        passphrase: None,
        group: "SSH Config".to_owned(),
        color: String::new(),
        proxy_id: None,
    }
}

/// A saved connection is reached as "user@host:port".
pub open spec fn is_saved_as(conns: Seq<ConnectionInfo>, key: Seq<char>) -> bool {
    exists|i: int|
        0 <= i < conns.len() && #[trigger] titles::address(
            conns[i].username@,
            conns[i].host@,
            conns[i].port as nat,
        ) == key
}

fn saved_as(conns: &Vec<ConnectionInfo>, key: &str) -> (r: bool)
    ensures
        r == is_saved_as(conns@, key@),
{
    let mut i: usize = 0;
    while i < conns.len()
        invariant
            i <= conns.len(),
            forall|k: int|
                0 <= k < i ==> #[trigger] titles::address(
                    conns@[k].username@,
                    conns@[k].host@,
                    conns@[k].port as nat,
                ) != key@,
        decreases conns.len() - i,
    {
        let a = titles::address_text(conns[i].username.as_str(), conns[i].host.as_str(), conns[i].port);
        if text::same_text(a.as_str(), key) {
            return true;
        }
        i += 1;
    }
    false
}

/// "Import all" would add the host: it has an address, and none of the saved
/// connections has the same.
pub open spec fn is_pending(cfg: SshHostConfig, conns: Seq<ConnectionInfo>) -> bool {
    &&& titles::dialled_host(cfg).len() > 0
    &&& !is_saved_as(conns, titles::address(cfg.user@, titles::dialled_host(cfg), cfg.port as nat))
}

fn pending(cfg: &SshHostConfig, conns: &Vec<ConnectionInfo>) -> (r: bool)
    ensures
        r == is_pending(*cfg, conns@),
{
    match titles::ssh_config_key(cfg) {
        Some(key) => !saved_as(conns, key.as_str()),
        None => false,
    }
}

/// Hosts in the SSH config (as last read) that "Import all" would add, i.e.
/// not yet saved under the same user@host:port.
pub fn ssh_config_pending(hosts: &Vec<SshHostConfig>, conns: &Vec<ConnectionInfo>) -> (n: usize)
    ensures
        n == hosts@.filter(|h: SshHostConfig| is_pending(h, conns@)).len(),
{
    let ghost wanted = |h: SshHostConfig| is_pending(h, conns@);
    let mut n: usize = 0;
    let mut i: usize = 0;
    assert(hosts@.take(0).filter(wanted) =~= Seq::<SshHostConfig>::empty()) by {
        reveal(Seq::filter);
    }
    while i < hosts.len()
        invariant
            i <= hosts.len(),
            n <= i,
            wanted == (|h: SshHostConfig| is_pending(h, conns@)),
            n == hosts@.take(i as int).filter(wanted).len(),
        decreases hosts.len() - i,
    {
        proof {
            hosts@.take(i as int).lemma_filter_push(hosts@[i as int], wanted);
            assert(hosts@.take(i + 1) =~= hosts@.take(i as int).push(hosts@[i as int]));
        }
        if pending(&hosts[i], conns) {
            n += 1;
        }
        i += 1;
    }
    assert(hosts@.take(hosts@.len() as int) =~= hosts@);
    n
}

/// `out` are the connections that "Import all" saves, in the config's order.
pub open spec fn are_imports(out: Seq<ConnectionConfig>, hosts: Seq<SshHostConfig>, conns: Seq<ConnectionInfo>) -> bool {
    let wanted = hosts.filter(|h: SshHostConfig| is_pending(h, conns));
    out.len() == wanted.len() && forall|i: int|
        0 <= i < out.len() ==> is_imported(#[trigger] out[i], wanted[i])
}

/// What "Import all" saves.
pub fn import_all(hosts: &Vec<SshHostConfig>, conns: &Vec<ConnectionInfo>) -> (out: Vec<ConnectionConfig>)
    ensures
        are_imports(out@, hosts@, conns@),
{
    let ghost wanted = |h: SshHostConfig| is_pending(h, conns@);
    let mut out: Vec<ConnectionConfig> = Vec::new();
    let mut i: usize = 0;
    assert(hosts@.take(0).filter(wanted) =~= Seq::<SshHostConfig>::empty()) by {
        reveal(Seq::filter);
    }
    while i < hosts.len()
        invariant
            i <= hosts.len(),
            wanted == (|h: SshHostConfig| is_pending(h, conns@)),
            out@.len() == hosts@.take(i as int).filter(wanted).len(),
            forall|k: int|
                0 <= k < out@.len() ==> is_imported(
                    #[trigger] out@[k],
                    hosts@.take(i as int).filter(wanted)[k],
                ),
        decreases hosts.len() - i,
    {
        proof {
            hosts@.take(i as int).lemma_filter_push(hosts@[i as int], wanted);
            assert(hosts@.take(i + 1) =~= hosts@.take(i as int).push(hosts@[i as int]));
        }
        if pending(&hosts[i], conns) {
            out.push(imported_connection(&hosts[i]));
        }
        i += 1;
    }
    assert(hosts@.take(hosts@.len() as int) =~= hosts@);
    out
}

/// The number of pending hosts that is shown is the number that is imported.
pub proof fn law_import_all_adds_what_was_counted(
    out: Seq<ConnectionConfig>,
    hosts: Seq<SshHostConfig>,
    conns: Seq<ConnectionInfo>,
)
    requires
        are_imports(out, hosts, conns),
    ensures
        out.len() == hosts.filter(|h: SshHostConfig| is_pending(h, conns)).len(),
{
}

} // verus!
