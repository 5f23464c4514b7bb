//! What the hub decides at its start from its settings: where it listens,
//! whether it serves TLS, and which handlers it serves.

use vstd::prelude::*;
use crate::gateway::{spec_insert, BuilderView, RouteView, ServerBuilder, TlsAcceptor};
use crate::headers::{headers_new, lemma_try_put_all_len, set_all, try_put_all};
use crate::key_cache::DEFAULT_KEY_CACHE_CAPACITY;
use crate::net::{IpAddress, SocketAddress};
use crate::portal::{
    spec_tls_headers, tls_headers, HANDLER_NO_CONTENT, HANDLER_PROBE, HANDLER_ROBOTS, HANDLER_ROOT,
};
use crate::response::Method;
use crate::text::text;
use crate::tls::CertMode;

verus! {

/// The port of a hub in development mode whose settings name the TLS port.
pub const DEV_PORT: u16 = 3340;

/// The port of the captive-portal service where the settings name none.
pub const DEFAULT_CAPTIVE_PORTAL_PORT: u16 = 80;

/// The port on which STUN is served where the settings name none.
pub const DEFAULT_STUN_PORT: u16 = 3478;

/// The port on which TLS is expected.
pub const TLS_PORT: u16 = 443;

/// The TLS part of the settings.
#[derive(Clone, Copy, Debug, PartialEq, Eq)]
pub struct TlsSettings {
    pub cert_mode: CertMode,
    /// Whether the production issuer is asked, not the staging one.
    pub prod_tls: bool,
    /// The port of the captive-portal service, on plain HTTP.
    pub captive_portal_port: Option<u16>,
}

/// The settings of a hub.
#[derive(Clone, Copy, Debug, PartialEq, Eq)]
pub struct Config {
    /// The address on which the hub listens.
    pub addr: SocketAddress,
    /// The UDP port of the STUN responder, on the same IP address.
    pub stun_port: u16,
    pub enable_stun: bool,
    /// Whether the relay endpoint is served.
    pub enable_derp: bool,
    pub tls: Option<TlsSettings>,
}

/// Why the hub does not start.
#[derive(Clone, Copy, Debug, PartialEq, Eq, Structural)]
pub enum ConfigError {
    /// The hub and its captive-portal service would listen on the same port.
    PortClash,
}

/// What the hub does at its start.
#[derive(Clone, Copy, Debug, PartialEq, Eq)]
pub struct Startup {
    /// The address on which the hub listens.
    pub addr: SocketAddress,
    /// The TLS settings in force; `None` for plain HTTP.
    pub tls: Option<TlsSettings>,
    /// The address of the STUN responder, if STUN is served.
    pub stun: Option<SocketAddress>,
    /// The address of the captive-portal service, which runs beside a hub
    /// that serves TLS.
    pub captive_portal: Option<SocketAddress>,
    /// Whether the relay endpoint is served.
    pub relay: bool,
    /// The hub listens on the TLS port without TLS: worth a warning.
    pub tls_port_without_tls: bool,
}

/// The address `[::]` with a port.
pub open spec fn spec_unspecified(port: u16) -> SocketAddress {
    SocketAddress {
        ip: IpAddress::V6(vstd::array::spec_array_fill_for_copy_type::<u8, 16>(0u8)),
        port,
    }
}

/// The address and the TLS settings in force. In development mode the hub
/// listens on every address, without TLS, on the port of its settings, or on
/// [`DEV_PORT`] if that is the TLS port.
pub open spec fn spec_listen(cfg: Config, dev: bool) -> (SocketAddress, Option<TlsSettings>) {
    if dev {
        (spec_unspecified(if cfg.addr.port != TLS_PORT { cfg.addr.port } else { DEV_PORT }), None)
    } else {
        (cfg.addr, cfg.tls)
    }
}

/// What the hub does at its start, or why it does not start: the port of
/// the captive-portal service, where the settings name it, must not be the
/// hub's own.
pub open spec fn spec_startup(cfg: Config, dev: bool) -> Result<Startup, ConfigError> {
    let (addr, tls) = spec_listen(cfg, dev);
    if tls matches Some(t) && t.captive_portal_port == Some(addr.port) {
        Err(ConfigError::PortClash)
    } else {
        Ok(
            Startup {
                addr,
                tls,
                stun: if cfg.enable_stun {
                    Some(SocketAddress { ip: addr.ip, port: cfg.stun_port })
                } else {
                    None
                },
                captive_portal: match tls {
                    Some(t) => Some(
                        SocketAddress {
                            ip: addr.ip,
                            port: match t.captive_portal_port {
                                Some(p) => p,
                                None => DEFAULT_CAPTIVE_PORTAL_PORT,
                            },
                        },
                    ),
                    None => None,
                },
                relay: cfg.enable_derp,
                tls_port_without_tls: tls is None && addr.port == TLS_PORT,
            },
        )
    }
}

impl Config {
    /// The settings of a hub that was given none: all addresses, the TLS
    /// port, STUN and the relay endpoint switched on, no TLS.
    pub fn default_settings() -> (c: Config)
        ensures
            c == (Config {
                addr: spec_unspecified(TLS_PORT),
                stun_port: DEFAULT_STUN_PORT,
                enable_stun: true,
                enable_derp: true,
                tls: None,
            }),
    {
        Config {
            addr: SocketAddress { ip: IpAddress::V6([0u8;16]), port: TLS_PORT },
            stun_port: DEFAULT_STUN_PORT,
            enable_stun: true,
            enable_derp: true,
            tls: None,
        }
    }

    /// Decides what the hub does at its start.
    pub fn startup(&self, dev: bool) -> (r: Result<Startup, ConfigError>)
        ensures
            r == spec_startup(*self, dev),
    {
        let (addr, tls) = if dev {
            let port = if self.addr.port != TLS_PORT {
                self.addr.port
            } else {
                DEV_PORT
            };
            (SocketAddress { ip: IpAddress::V6([0u8;16]), port }, None)
        } else {
            (self.addr, self.tls)
        };
        let mut clash = false;
        let mut captive_portal: Option<SocketAddress> = None;
        match tls {
            Some(t) => {
                match t.captive_portal_port {
                    Some(p) => {
                        clash = p == addr.port;
                        captive_portal = Some(SocketAddress { ip: addr.ip, port: p });
                    },
                    None => {
                        captive_portal =
                        Some(SocketAddress { ip: addr.ip, port: DEFAULT_CAPTIVE_PORTAL_PORT });
                    },
                }
            },
            None => {},
        }
        if clash {
            return Err(ConfigError::PortClash);
        }
        let stun = if self.enable_stun {
            Some(SocketAddress { ip: addr.ip, port: self.stun_port })
        } else {
            None
        };
        Ok(
            Startup {
                addr,
                tls,
                stun,
                captive_portal,
                relay: self.enable_derp,
                tls_port_without_tls: tls.is_none() && addr.port == TLS_PORT,
            },
        )
    }
}

/// What is done about the settings file.
#[derive(Clone, Copy, Debug, PartialEq, Eq, Structural)]
pub enum LoadAction {
    /// No file was named: the default settings are used and nothing is written.
    UseDefault,
    /// The file is there: it is read.
    Read,
    /// The file was named and is not there: the default settings are
    /// written to it, and used.
    WriteDefault,
}

/// Decides what is done about the settings file.
pub fn load(path_given: bool, file_exists: bool) -> (r: LoadAction)
    ensures
        r == if !path_given {
            LoadAction::UseDefault
        } else if file_exists {
            LoadAction::Read
        } else {
            LoadAction::WriteDefault
        },
{
    if !path_given {
        LoadAction::UseDefault
    } else if file_exists {
        LoadAction::Read
    } else {
        LoadAction::WriteDefault
    }
}

/// The table of the hub's own handlers: the landing page under `/` and
/// `/index.html`, the latency probe, the robots file, and, on a hub without
/// TLS only, the answer to captive-portal checks.
pub open spec fn spec_routes(tls: bool) -> Seq<RouteView> {
    let always = seq![
        RouteView { method: Method::Get, path: text("/"), handler: HANDLER_ROOT },
        RouteView { method: Method::Get, path: text("/index.html"), handler: HANDLER_ROOT },
        RouteView { method: Method::Get, path: text("/derp/probe"), handler: HANDLER_PROBE },
        RouteView { method: Method::Get, path: text("/robots.txt"), handler: HANDLER_ROBOTS },
    ];
    if tls {
        always
    } else {
        always.push(
            RouteView {
                method: Method::Get,
                path: text("/generate_204"),
                handler: HANDLER_NO_CONTENT,
            },
        )
    }
}

/// The table after every route of `routes` was put into it, in order.
pub open spec fn spec_insert_all(table: Seq<RouteView>, routes: Seq<RouteView>) -> Seq<RouteView>
    decreases routes.len(),
{
    if routes.len() == 0 {
        table
    } else {
        spec_insert(spec_insert_all(table, routes.drop_last()), routes.last())
    }
}

impl Startup {
    /// The builder of the hub for this start: its address, its acceptor, its
    /// own handlers, and, on a hub that serves TLS, the headers that make
    /// browsers insist on TLS.
    pub fn builder(&self) -> (b: ServerBuilder)
        ensures
            b@ == (BuilderView {
                addr: self.addr,
                client_rx_ratelimit: None,
                key_cache_capacity: DEFAULT_KEY_CACHE_CAPACITY,
                tls_config: match self.tls {
                    Some(t) => Some(
                        match t.cert_mode {
                            CertMode::Manual => TlsAcceptor::Manual,
                            CertMode::LetsEncrypt => TlsAcceptor::LetsEncrypt,
                        },
                    ),
                    None => None,
                },
                handlers: spec_insert_all(Seq::empty(), spec_routes(self.tls is Some)),
                headers: if self.tls is Some {
                    try_put_all(Seq::empty(), try_put_all(Seq::empty(), spec_tls_headers()))
                } else {
                    Seq::empty()
                },
            }),
    {
        let mut b = ServerBuilder::new(self.addr);
        assert(b@.handlers == spec_insert_all(Seq::empty(), Seq::empty()));
        match self.tls {
            Some(t) => {
                let acceptor = match t.cert_mode {
                    CertMode::Manual => TlsAcceptor::Manual,
                    CertMode::LetsEncrypt => TlsAcceptor::LetsEncrypt,
                };
                let mut secure = headers_new();
                set_all(&mut secure, &tls_headers());
                proof {
                    lemma_try_put_all_len(Seq::empty(), spec_tls_headers());
                }
                b = b.headers(&secure).tls_config(Some(acceptor));
            },
            None => {},
        }
        b = b.request_handler(Method::Get, "/".as_bytes(), HANDLER_ROOT);
        let ghost r1 = seq![
            RouteView { method: Method::Get, path: text("/"), handler: HANDLER_ROOT },
        ];
        assert(r1.drop_last() =~= Seq::<RouteView>::empty());
        assert(b@.handlers == spec_insert_all(Seq::empty(), r1));
        b = b.request_handler(Method::Get, "/index.html".as_bytes(), HANDLER_ROOT);
        let ghost r2 = r1.push(
            RouteView { method: Method::Get, path: text("/index.html"), handler: HANDLER_ROOT },
        );
        assert(r2.drop_last() =~= r1);
        assert(b@.handlers == spec_insert_all(Seq::empty(), r2));
        b = b.request_handler(Method::Get, "/derp/probe".as_bytes(), HANDLER_PROBE);
        let ghost r3 = r2.push(
            RouteView { method: Method::Get, path: text("/derp/probe"), handler: HANDLER_PROBE },
        );
        assert(r3.drop_last() =~= r2);
        assert(b@.handlers == spec_insert_all(Seq::empty(), r3));
        b = b.request_handler(Method::Get, "/robots.txt".as_bytes(), HANDLER_ROBOTS);
        let ghost r4 = r3.push(
            RouteView { method: Method::Get, path: text("/robots.txt"), handler: HANDLER_ROBOTS },
        );
        assert(r4.drop_last() =~= r3);
        assert(b@.handlers == spec_insert_all(Seq::empty(), r4));
        assert(r4 =~= spec_routes(true));
        if self.tls.is_none() {
            b = b.request_handler(Method::Get, "/generate_204".as_bytes(), HANDLER_NO_CONTENT);
            let ghost r5 = r4.push(
                RouteView {
                    method: Method::Get,
                    path: text("/generate_204"),
                    handler: HANDLER_NO_CONTENT,
                },
            );
            assert(r5.drop_last() =~= r4);
            assert(b@.handlers == spec_insert_all(Seq::empty(), r5));
            assert(r5 =~= spec_routes(false));
        }
        b
    }
}

} // verus!
