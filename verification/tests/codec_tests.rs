use subparse::codec::{parse_hysteria2, parse_ss, parse_trojan, parse_vless};
use subparse::node::{Auth, NodeKind, PipelineError};
use subparse::uri::UriParts;

fn uri(
    scheme: &str,
    username: &str,
    password: Option<&str>,
    host: Option<&str>,
    port: Option<u16>,
    query: Vec<(&str, &str)>,
    fragment: Option<&str>,
) -> UriParts {
    UriParts {
        scheme: scheme.to_string(),
        username: username.to_string(),
        password: password.map(|s| s.to_string()),
        host: host.map(|s| s.to_string()),
        port,
        query: query.into_iter().map(|(k, v)| (k.to_string(), v.to_string())).collect(),
        fragment: fragment.map(|s| s.to_string()),
    }
}

#[test]
fn ss_decodes_all_fields() {
    let u = uri(
        "ss",
        "aes-256-gcm",
        Some("pw123"),
        Some("9.9.9.9"),
        Some(8388),
        vec![],
        Some("node%20A"),
    );
    let n = parse_ss(&u).unwrap();
    assert_eq!(n.kind, NodeKind::ShadowSocks);
    assert_eq!(n.label, "node A");
    assert_eq!(n.host, "9.9.9.9");
    assert_eq!(n.port, Some(8388));
    assert_eq!(
        n.auth,
        Auth::UserMethod { method: "aes-256-gcm".to_string(), password: "pw123".to_string() }
    );
    assert!(n.tls.is_none());
}

#[test]
fn ss_decoding_is_deterministic() {
    let u = uri(
        "ss",
        "aes-256-gcm",
        Some("pw123"),
        Some("9.9.9.9"),
        Some(8388),
        vec![],
        Some("tag"),
    );
    let a = parse_ss(&u).unwrap();
    let b = parse_ss(&u).unwrap();
    assert_eq!(a, b);
}

#[test]
fn ss_missing_password_fails() {
    let u = uri("ss", "aes-256-gcm", None, Some("9.9.9.9"), Some(8388), vec![], Some("t"));
    assert_eq!(parse_ss(&u), Err(PipelineError::MalformedNode));
}

#[test]
fn missing_fragment_fails_for_every_scheme() {
    let u = uri("ss", "m", Some("p"), Some("h"), Some(1), vec![("type", "ws")], None);
    assert_eq!(parse_ss(&u), Err(PipelineError::MalformedNode));
    assert_eq!(parse_trojan(&u), Err(PipelineError::MalformedNode));
    assert_eq!(parse_vless(&u), Err(PipelineError::MalformedNode));
    assert_eq!(parse_hysteria2(&u), Err(PipelineError::MalformedNode));
}

#[test]
fn trojan_decodes_tls_block() {
    let u = uri(
        "trojan",
        "secret",
        None,
        Some("t.example.com"),
        Some(443),
        vec![("type", "ws"), ("sni", "cdn.example.com")],
        Some("tj"),
    );
    let n = parse_trojan(&u).unwrap();
    assert_eq!(n.kind, NodeKind::Trojan);
    assert_eq!(n.auth, Auth::Password { password: "secret".to_string() });
    assert_eq!(n.transport.as_deref(), Some("ws"));
    let tls = n.tls.unwrap();
    assert!(tls.enabled);
    assert!(tls.insecure);
    assert_eq!(tls.server_name.as_deref(), Some("cdn.example.com"));
    let utls = tls.utls.unwrap();
    assert!(utls.enabled);
    assert_eq!(utls.fingerprint, "chrome");
}

#[test]
fn trojan_missing_type_fails() {
    let u = uri("trojan", "secret", None, Some("h"), Some(443), vec![], Some("tj"));
    assert_eq!(parse_trojan(&u), Err(PipelineError::MalformedNode));
}

#[test]
fn vless_ws_normalizes_to_tcp() {
    let u = uri(
        "vless",
        "uuid-1",
        None,
        Some("v.example.com"),
        Some(443),
        vec![("type", "ws"), ("fp", "chrome")],
        Some("vl"),
    );
    let n = parse_vless(&u).unwrap();
    assert_eq!(n.transport.as_deref(), Some("tcp"));
}

#[test]
fn vless_other_transport_passes_through() {
    let u = uri(
        "vless",
        "uuid-1",
        None,
        Some("v.example.com"),
        None,
        vec![("type", "grpc"), ("security", "reality"), ("pbk", "key"), ("fp", "")],
        Some("vl"),
    );
    let n = parse_vless(&u).unwrap();
    assert_eq!(n.transport.as_deref(), Some("grpc"));
    assert_eq!(n.port, None);
    let tls = n.tls.unwrap();
    let re = tls.reality.unwrap();
    assert!(re.enabled);
    assert_eq!(re.public_key.as_deref(), Some("key"));
    let utls = tls.utls.unwrap();
    assert!(!utls.enabled);
    assert_eq!(utls.fingerprint, "");
}

#[test]
fn vless_without_security_is_not_reality() {
    let u = uri("vless", "u", None, Some("h"), Some(1), vec![("type", "tcp")], Some("vl"));
    let n = parse_vless(&u).unwrap();
    let tls = n.tls.unwrap();
    assert!(!tls.reality.unwrap().enabled);
    assert!(!tls.utls.unwrap().enabled);
}

#[test]
fn hysteria2_password_fallback_both_parts() {
    let u = uri("hysteria2", "user", Some("pass"), Some("h"), Some(1), vec![], Some("hy"));
    let n = parse_hysteria2(&u).unwrap();
    assert_eq!(n.auth, Auth::Password { password: "user:pass".to_string() });
}

#[test]
fn hysteria2_password_fallback_username_only() {
    let u = uri("hysteria2", "user", None, Some("h"), Some(1), vec![], Some("hy"));
    let n = parse_hysteria2(&u).unwrap();
    assert_eq!(n.auth, Auth::Password { password: "user".to_string() });
}

#[test]
fn hysteria2_insecure_query() {
    let u = uri(
        "hysteria2",
        "u",
        None,
        Some("h"),
        Some(1),
        vec![("insecure", "1"), ("sni", "s.example.com")],
        Some("hy"),
    );
    let n = parse_hysteria2(&u).unwrap();
    let tls = n.tls.unwrap();
    assert!(tls.insecure);
    assert_eq!(tls.server_name.as_deref(), Some("s.example.com"));

    let u2 = uri("hysteria2", "u", None, Some("h"), Some(1), vec![], Some("hy"));
    assert!(!parse_hysteria2(&u2).unwrap().tls.unwrap().insecure);
}

#[test]
fn last_query_pair_wins() {
    let u = uri(
        "trojan",
        "s",
        None,
        Some("h"),
        Some(1),
        vec![("type", "ws"), ("type", "grpc")],
        Some("tj"),
    );
    let n = parse_trojan(&u).unwrap();
    assert_eq!(n.transport.as_deref(), Some("grpc"));
}
