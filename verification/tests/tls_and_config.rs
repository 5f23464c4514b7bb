use relay_hub::config::{
    load, Config, ConfigError, LoadAction, Startup, TlsSettings, DEFAULT_CAPTIVE_PORTAL_PORT,
    DEV_PORT,
};
use relay_hub::gateway::{ConnectionKind, Dispatch, TlsAcceptor};
use relay_hub::hex_key::{decode_hex_key, parse_hex_key};
use relay_hub::net::{IpAddress, SocketAddress};
use relay_hub::portal::{HANDLER_NO_CONTENT, HANDLER_PROBE, HANDLER_ROBOTS, HANDLER_ROOT};
use relay_hub::response::Method;
use relay_hub::tls::{
    cert_plan, escape_hostname, gen_server_config, load_private_key, CertMode, CertPlan, PemItem,
};

#[test]
fn test_escape_hostname() {
    assert_eq!(
        escape_hostname("hello.host.name_foo-bar%baz"),
        "hello.host.namefoo-barbaz"
    );
}

#[test]
fn escape_hostname_keeps_safe_names_and_drops_the_rest() {
    assert_eq!(escape_hostname("derp.example.com"), "derp.example.com");
    assert_eq!(escape_hostname("../../etc/passwd"), "....etcpasswd");
    assert_eq!(escape_hostname("a b\tc\u{e9}d"), "abcd");
    assert_eq!(escape_hostname(""), "");
}

#[test]
fn manual_certificate_is_read_from_files_named_after_the_host() {
    let plan = gen_server_config(CertMode::Manual, "relay.example/x", "ops@example.org", true);
    assert_eq!(
        plan,
        CertPlan::Manual {
            cert_file: b"relay.examplex.crt".to_vec(),
            key_file: b"relay.examplex.key".to_vec(),
        }
    );
    assert_eq!(plan.acceptor(), TlsAcceptor::Manual);
}

#[test]
fn issued_certificate_names_the_contact() {
    let plan = gen_server_config(CertMode::LetsEncrypt, "relay.example", "ops@example.org", false);
    assert_eq!(
        plan,
        CertPlan::LetsEncrypt { contact: b"mailto:ops@example.org".to_vec(), production: false }
    );
    assert_eq!(plan.acceptor(), TlsAcceptor::LetsEncrypt);
    assert_eq!(
        cert_plan(CertMode::LetsEncrypt, b"", b"a@b", true),
        CertPlan::LetsEncrypt { contact: b"mailto:a@b".to_vec(), production: true }
    );
}

#[test]
fn first_private_key_of_the_file_is_taken() {
    assert_eq!(load_private_key(&[]), None);
    assert_eq!(load_private_key(&[PemItem::Certificate, PemItem::Other]), None);
    assert_eq!(load_private_key(&[PemItem::RsaKey]), Some(0));
    assert_eq!(
        load_private_key(&[
            PemItem::Certificate,
            PemItem::Other,
            PemItem::Pkcs8Key,
            PemItem::RsaKey
        ]),
        Some(2)
    );
    assert_eq!(load_private_key(&[PemItem::Other, PemItem::EcKey]), Some(1));
}

fn addr(port: u16) -> SocketAddress {
    SocketAddress::new(IpAddress::V4([192, 0, 2, 7]), port)
}

fn unspecified(port: u16) -> SocketAddress {
    SocketAddress::new(IpAddress::V6([0; 16]), port)
}

fn tls(captive_portal_port: Option<u16>) -> TlsSettings {
    TlsSettings { cert_mode: CertMode::Manual, prod_tls: true, captive_portal_port }
}

#[test]
fn default_settings_listen_on_the_tls_port_without_tls() {
    let cfg = Config::default_settings();
    assert_eq!(cfg.addr, unspecified(443));
    assert_eq!(cfg.stun_port, 3478);
    assert!(cfg.enable_stun && cfg.enable_derp);
    assert_eq!(cfg.tls, None);
    let start = cfg.startup(false).unwrap();
    assert!(start.tls_port_without_tls);
    assert_eq!(start.stun, Some(unspecified(3478)));
    assert_eq!(start.captive_portal, None);
    assert!(start.relay);
}

#[test]
fn development_mode_listens_everywhere_without_tls() {
    let cfg = Config { addr: addr(443), tls: Some(tls(None)), ..Config::default_settings() };
    let start = cfg.startup(true).unwrap();
    assert_eq!(start.addr, unspecified(DEV_PORT));
    assert_eq!(DEV_PORT, 3340);
    assert_eq!(start.tls, None);
    assert_eq!(start.captive_portal, None);
    assert!(!start.tls_port_without_tls);
    let cfg = Config { addr: addr(8080), ..cfg };
    assert_eq!(cfg.startup(true).unwrap().addr, unspecified(8080));
}

#[test]
fn tls_hub_runs_a_captive_portal_service_beside_it() {
    let cfg = Config {
        addr: addr(443),
        stun_port: 3479,
        tls: Some(tls(None)),
        ..Config::default_settings()
    };
    let start = cfg.startup(false).unwrap();
    assert_eq!(start.addr, addr(443));
    assert_eq!(start.captive_portal, Some(addr(DEFAULT_CAPTIVE_PORTAL_PORT)));
    assert_eq!(DEFAULT_CAPTIVE_PORTAL_PORT, 80);
    assert_eq!(start.stun, Some(addr(3479)));
    assert!(!start.tls_port_without_tls);
    let cfg = Config { tls: Some(tls(Some(8000))), enable_stun: false, enable_derp: false, ..cfg };
    let start = cfg.startup(false).unwrap();
    assert_eq!(start.captive_portal, Some(addr(8000)));
    assert_eq!(start.stun, None);
    assert!(!start.relay);
}

#[test]
fn hub_and_captive_portal_must_not_share_a_port() {
    let cfg = Config { addr: addr(443), tls: Some(tls(Some(443))), ..Config::default_settings() };
    assert_eq!(cfg.startup(false), Err(ConfigError::PortClash));
    // in development mode the TLS settings are not looked at
    assert!(cfg.startup(true).is_ok());
    // only a port that the settings name can clash
    let cfg = Config { addr: addr(80), tls: Some(tls(None)), ..Config::default_settings() };
    assert!(cfg.startup(false).is_ok());
}

#[test]
fn settings_file_is_read_written_or_left_alone() {
    assert_eq!(load(false, false), LoadAction::UseDefault);
    assert_eq!(load(false, true), LoadAction::UseDefault);
    assert_eq!(load(true, true), LoadAction::Read);
    assert_eq!(load(true, false), LoadAction::WriteDefault);
}

fn handler_of(start: &Startup, path: &str) -> Option<u64> {
    match start.builder().spawn().service.call(Method::Get, path.as_bytes(), &vec![]) {
        Dispatch::Handler { handler, .. } => Some(handler),
        _ => None,
    }
}

#[test]
fn plain_hub_serves_its_own_handlers_and_the_captive_portal_check() {
    let start = Config { addr: addr(8080), ..Config::default_settings() }.startup(false).unwrap();
    assert_eq!(handler_of(&start, "/"), Some(HANDLER_ROOT));
    assert_eq!(handler_of(&start, "/index.html"), Some(HANDLER_ROOT));
    assert_eq!(handler_of(&start, "/derp/probe"), Some(HANDLER_PROBE));
    assert_eq!(handler_of(&start, "/robots.txt"), Some(HANDLER_ROBOTS));
    assert_eq!(handler_of(&start, "/generate_204"), Some(HANDLER_NO_CONTENT));
    assert_eq!(handler_of(&start, "/other"), None);
    let server = start.builder().spawn();
    assert_eq!(server.connection_kind(), ConnectionKind::Plain);
    assert!(server.service.default_response().headers.is_empty());
    assert_eq!(server.local_addr(), addr(8080));
}

#[test]
fn tls_hub_adds_the_security_headers_and_leaves_generate_204_out() {
    let start = Config { addr: addr(443), tls: Some(tls(None)), ..Config::default_settings() }
        .startup(false)
        .unwrap();
    assert_eq!(handler_of(&start, "/"), Some(HANDLER_ROOT));
    assert_eq!(handler_of(&start, "/generate_204"), None);
    let server = start.builder().spawn();
    assert_eq!(server.connection_kind(), ConnectionKind::Tls(TlsAcceptor::Manual));
    let headers = server.service.default_response().headers;
    assert_eq!(headers.len(), 2);
    // the header map keeps names in small letters
    assert_eq!(headers[0].name, b"strict-transport-security".to_vec());
    assert_eq!(headers[0].value, b"max-age=63072000; includeSubDomains".to_vec());
    assert_eq!(headers[1].name, b"content-security-policy".to_vec());
    assert!(headers[1].value.starts_with(b"default-src 'none'; frame-ancestors 'none';"));
}

#[test]
fn mesh_key_is_sixty_four_hex_digits_with_space_around() {
    let digits = "000102030405060708090a0b0c0d0e0f101112131415161718191A1B1C1D1E1F";
    let mut expected = [0u8; 32];
    for (i, b) in expected.iter_mut().enumerate() {
        *b = i as u8;
    }
    assert_eq!(parse_hex_key(digits), Some(expected));
    assert_eq!(parse_hex_key(&format!("  {digits}\n")), Some(expected));
    assert_eq!(decode_hex_key(digits.as_bytes()), Some(expected));
    assert_eq!(decode_hex_key(format!(" {digits}").as_bytes()), None);
    assert_eq!(parse_hex_key(&digits[..63]), None);
    assert_eq!(parse_hex_key(&digits[..62]), None);
    assert_eq!(parse_hex_key(&format!("{digits}00")), None);
    assert_eq!(parse_hex_key(&digits.replace('a', "g")), None);
    assert_eq!(parse_hex_key(""), None);
    assert_eq!(parse_hex_key(&"ff".repeat(32)), Some([0xff; 32]));
}

#[test]
fn white_space_around_a_key_is_what_unicode_calls_white_space() {
    let digits = "ab".repeat(32);
    for space in [
        "\t", "\n", "\u{b}", "\u{c}", "\r", " ", "\u{85}", "\u{a0}", "\u{1680}", "\u{2000}",
        "\u{2005}", "\u{200a}", "\u{2028}", "\u{2029}", "\u{202f}", "\u{205f}", "\u{3000}",
    ] {
        assert_eq!(parse_hex_key(&format!("{space}{digits}{space}{space}")), Some([0xab; 32]));
    }
    // these look like space and are none
    for other in ["\u{8}", "\u{e}", "\u{1f}", "\u{84}", "\u{86}", "\u{180e}", "\u{1fff}", "\u{200b}", "\u{2060}", "\u{feff}", "_"] {
        assert_eq!(parse_hex_key(&format!("{other}{digits}")), None);
        assert_eq!(parse_hex_key(&format!("{digits}{other}")), None);
    }
    // white space inside the key is not dropped
    assert_eq!(parse_hex_key(&format!("{} {}", &digits[..32], &digits[32..])), None);
}
