//! The four scheme decoders: pure functions from the component fields of
//! one URI to one node descriptor, with one spec function per scheme saying
//! exactly which descriptor comes out, and on which inputs decoding fails.
//!
//! For every scheme the label is the percent-decoded URI fragment; a missing
//! fragment, or one whose decoded bytes are not UTF-8, is a `MalformedNode`
//! failure, as is any other missing required field.
use vstd::prelude::*;
use vstd::utf8::{decode_utf8, valid_utf8};
use crate::node::{Auth, AuthV, NodeDescriptor, NodeKind, NodeV, PipelineError, Reality, RealityV,
    Tls, TlsV, Utls, UtlsV};
use crate::strutil::{opt_view, query_lookup, str_eq};
use crate::uri::{UriParts, UriPartsV};

verus! {

/// The bytes that percent-decoding a string yields.
pub uninterp spec fn pct_bytes(s: Seq<char>) -> Seq<u8>;

/// Relies on `urlencoding::decode_binary`: percent-decoding whose result
/// depends on the input characters alone.
#[verifier::external_body]
pub(crate) fn pct_decode_raw(s: &str) -> (r: Vec<u8>)
    ensures
        r@ == pct_bytes(s@),
{
    urlencoding::decode_binary(s.as_bytes()).into_owned()
}

/// Relies on `String::from_utf8`: succeeds exactly when the bytes are valid
/// UTF-8, and then returns their decoding.
#[verifier::external_body]
pub(crate) fn bytes_to_string(b: Vec<u8>) -> (r: Option<String>)
    ensures
        r matches Some(s) ==> valid_utf8(b@) && s@ == decode_utf8(b@),
        r is None ==> !valid_utf8(b@),
{
    String::from_utf8(b).ok()
}

/// The label a fragment yields: its percent-decoded form, or `None` when the
/// fragment is absent or its decoded bytes are not UTF-8.
pub open spec fn label_spec(frag: Option<Seq<char>>) -> Option<Seq<char>> {
    match frag {
        Option::Some(f) => if valid_utf8(pct_bytes(f)) {
            Option::Some(decode_utf8(pct_bytes(f)))
        } else {
            Option::None
        },
        Option::None => Option::None,
    }
}

/// Percent-decodes the fragment into a label.
fn decode_label(frag: &Option<String>) -> (r: Option<String>)
    ensures
        opt_view(r) == label_spec(opt_view(*frag)),
{
    match frag {
        Some(f) => {
            let bs = pct_decode_raw(f.as_str());
            bytes_to_string(bs)
        },
        None => None,
    }
}

/// View of a decoder result.
pub open spec fn result_view(r: Result<NodeDescriptor, PipelineError>) -> Result<
    NodeV,
    PipelineError,
> {
    match r {
        Result::Ok(n) => Result::Ok(n@),
        Result::Err(e) => Result::Err(e),
    }
}

/// What decoding a shadowsocks URI yields: label from the fragment, host and
/// port as given, method from the userinfo username, password from the
/// userinfo password; fails when any of those is missing.
pub open spec fn ss_spec(u: UriPartsV) -> Result<NodeV, PipelineError> {
    match (label_spec(u.fragment), u.host, u.port, u.password) {
        (
            Option::Some(label),
            Option::Some(host),
            Option::Some(port),
            Option::Some(password),
        ) => Result::Ok(
            NodeV {
                kind: NodeKind::ShadowSocks,
                label,
                host,
                port: Option::Some(port),
                auth: AuthV::UserMethod { method: u.username, password },
                transport: Option::None,
                flow: Option::None,
                tls: Option::None,
            },
        ),
        _ => Result::Err(PipelineError::MalformedNode),
    }
}

/// Shadowsocks decoder.
pub fn parse_ss(u: &UriParts) -> (r: Result<NodeDescriptor, PipelineError>)
    ensures
        result_view(r) == ss_spec(u@),
{
    let label = match decode_label(&u.fragment) {
        Some(l) => l,
        None => {
            return Err(PipelineError::MalformedNode);
        },
    };
    let host = match &u.host {
        Some(h) => h.clone(),
        None => {
            return Err(PipelineError::MalformedNode);
        },
    };
    let port = match u.port {
        Some(p) => p,
        None => {
            return Err(PipelineError::MalformedNode);
        },
    };
    let password = match &u.password {
        Some(p) => p.clone(),
        None => {
            return Err(PipelineError::MalformedNode);
        },
    };
    Ok(
        NodeDescriptor {
            kind: NodeKind::ShadowSocks,
            label,
            host,
            port: Some(port),
            auth: Auth::UserMethod { method: u.username.clone(), password },
            transport: None,
            flow: None,
            tls: None,
        },
    )
}

/// What decoding a trojan URI yields: password from the userinfo username,
/// transport from the required `type` query parameter, TLS always enabled
/// and insecure with the default browser fingerprint; fails when the label,
/// host, port or `type` parameter is missing.
pub open spec fn trojan_spec(u: UriPartsV) -> Result<NodeV, PipelineError> {
    match (label_spec(u.fragment), u.host, u.port, query_lookup(u.query, "type"@)) {
        (
            Option::Some(label),
            Option::Some(host),
            Option::Some(port),
            Option::Some(network),
        ) => Result::Ok(
            NodeV {
                kind: NodeKind::Trojan,
                label,
                host,
                port: Option::Some(port),
                auth: AuthV::Password { password: u.username },
                transport: Option::Some(network),
                flow: Option::None,
                tls: Option::Some(
                    TlsV {
                        enabled: true,
                        server_name: query_lookup(u.query, "sni"@),
                        insecure: true,
                        reality: Option::None,
                        utls: Option::Some(UtlsV { enabled: true, fingerprint: "chrome"@ }),
                    },
                ),
            },
        ),
        _ => Result::Err(PipelineError::MalformedNode),
    }
}

/// Trojan decoder.
pub fn parse_trojan(u: &UriParts) -> (r: Result<NodeDescriptor, PipelineError>)
    ensures
        result_view(r) == trojan_spec(u@),
{
    let label = match decode_label(&u.fragment) {
        Some(l) => l,
        None => {
            return Err(PipelineError::MalformedNode);
        },
    };
    let host = match &u.host {
        Some(h) => h.clone(),
        None => {
            return Err(PipelineError::MalformedNode);
        },
    };
    let port = match u.port {
        Some(p) => p,
        None => {
            return Err(PipelineError::MalformedNode);
        },
    };
    let network = match crate::strutil::query_get(&u.query, "type") {
        Some(n) => n,
        None => {
            return Err(PipelineError::MalformedNode);
        },
    };
    Ok(
        NodeDescriptor {
            kind: NodeKind::Trojan,
            label,
            host,
            port: Some(port),
            auth: Auth::Password { password: u.username.clone() },
            transport: Some(network),
            flow: None,
            tls: Some(
                Tls {
                    enabled: true,
                    server_name: crate::strutil::query_get(&u.query, "sni"),
                    insecure: true,
                    reality: None,
                    utls: Some(
                        Utls { enabled: true, fingerprint: String::from_str("chrome") },
                    ),
                },
            ),
        },
    )
}

/// What decoding a vless URI yields: uuid from the userinfo username, the
/// port passed through as it stands (it may be absent), transport from the
/// required `type` parameter with `ws` normalized to `tcp`, reality enabled
/// exactly when `security=reality`, and uTLS enabled exactly when the `fp`
/// parameter is present and non-empty.
pub open spec fn vless_spec(u: UriPartsV) -> Result<NodeV, PipelineError> {
    match (label_spec(u.fragment), u.host, query_lookup(u.query, "type"@)) {
        (Option::Some(label), Option::Some(host), Option::Some(network0)) => {
            let network = if network0 == "ws"@ {
                "tcp"@
            } else {
                network0
            };
            let (utls_enabled, fingerprint) = match query_lookup(u.query, "fp"@) {
                Option::Some(f) => (f.len() > 0, f),
                Option::None => (false, Seq::<char>::empty()),
            };
            Result::Ok(
                NodeV {
                    kind: NodeKind::Vless,
                    label,
                    host,
                    port: u.port,
                    auth: AuthV::Uuid { uuid: u.username },
                    transport: Option::Some(network),
                    flow: query_lookup(u.query, "flow"@),
                    tls: Option::Some(
                        TlsV {
                            enabled: true,
                            server_name: query_lookup(u.query, "sni"@),
                            insecure: false,
                            reality: Option::Some(
                                RealityV {
                                    enabled: query_lookup(u.query, "security"@) == Option::Some(
                                        "reality"@,
                                    ),
                                    public_key: query_lookup(u.query, "pbk"@),
                                    short_id: query_lookup(u.query, "sid"@),
                                },
                            ),
                            utls: Option::Some(
                                UtlsV { enabled: utls_enabled, fingerprint },
                            ),
                        },
                    ),
                },
            )
        },
        _ => Result::Err(PipelineError::MalformedNode),
    }
}

/// Vless decoder.
pub fn parse_vless(u: &UriParts) -> (r: Result<NodeDescriptor, PipelineError>)
    ensures
        result_view(r) == vless_spec(u@),
{
    let label = match decode_label(&u.fragment) {
        Some(l) => l,
        None => {
            return Err(PipelineError::MalformedNode);
        },
    };
    let host = match &u.host {
        Some(h) => h.clone(),
        None => {
            return Err(PipelineError::MalformedNode);
        },
    };
    let network0 = match crate::strutil::query_get(&u.query, "type") {
        Some(n) => n,
        None => {
            return Err(PipelineError::MalformedNode);
        },
    };
    let network = if str_eq(network0.as_str(), "ws") {
        String::from_str("tcp")
    } else {
        network0
    };
    let (utls_enabled, fingerprint) = match crate::strutil::query_get(&u.query, "fp") {
        Some(f) => (f.unicode_len() > 0, f),
        None => (false, String::new()),
    };
    let reality_enabled = match crate::strutil::query_get(&u.query, "security") {
        Some(s) => str_eq(s.as_str(), "reality"),
        None => false,
    };
    Ok(
        NodeDescriptor {
            kind: NodeKind::Vless,
            label,
            host,
            port: u.port,
            auth: Auth::Uuid { uuid: u.username.clone() },
            transport: Some(network),
            flow: crate::strutil::query_get(&u.query, "flow"),
            tls: Some(
                Tls {
                    enabled: true,
                    server_name: crate::strutil::query_get(&u.query, "sni"),
                    insecure: false,
                    reality: Some(
                        Reality {
                            enabled: reality_enabled,
                            public_key: crate::strutil::query_get(&u.query, "pbk"),
                            short_id: crate::strutil::query_get(&u.query, "sid"),
                        },
                    ),
                    utls: Some(Utls { enabled: utls_enabled, fingerprint }),
                },
            ),
        },
    )
}

/// What decoding a hysteria2 URI yields: the password is the userinfo
/// password prefixed by `username:` when both parts exist, and the username
/// alone when the password is absent; `insecure` holds exactly when the
/// `insecure` query parameter equals `1`.
pub open spec fn hysteria2_spec(u: UriPartsV) -> Result<NodeV, PipelineError> {
    match (label_spec(u.fragment), u.host, u.port) {
        (Option::Some(label), Option::Some(host), Option::Some(port)) => {
            let password = match u.password {
                Option::Some(p) => u.username + ":"@ + p,
                Option::None => u.username,
            };
            Result::Ok(
                NodeV {
                    kind: NodeKind::Hysteria2,
                    label,
                    host,
                    port: Option::Some(port),
                    auth: AuthV::Password { password },
                    transport: Option::None,
                    flow: Option::None,
                    tls: Option::Some(
                        TlsV {
                            enabled: true,
                            server_name: query_lookup(u.query, "sni"@),
                            insecure: query_lookup(u.query, "insecure"@) == Option::Some("1"@),
                            reality: Option::None,
                            utls: Option::None,
                        },
                    ),
                },
            )
        },
        _ => Result::Err(PipelineError::MalformedNode),
    }
}

/// Hysteria2 decoder.
pub fn parse_hysteria2(u: &UriParts) -> (r: Result<NodeDescriptor, PipelineError>)
    ensures
        result_view(r) == hysteria2_spec(u@),
{
    let label = match decode_label(&u.fragment) {
        Some(l) => l,
        None => {
            return Err(PipelineError::MalformedNode);
        },
    };
    let host = match &u.host {
        Some(h) => h.clone(),
        None => {
            return Err(PipelineError::MalformedNode);
        },
    };
    let port = match u.port {
        Some(p) => p,
        None => {
            return Err(PipelineError::MalformedNode);
        },
    };
    let password = match &u.password {
        Some(p) => u.username.clone().concat(":").concat(p.as_str()),
        None => u.username.clone(),
    };
    let insecure = match crate::strutil::query_get(&u.query, "insecure") {
        Some(s) => str_eq(s.as_str(), "1"),
        None => false,
    };
    Ok(
        NodeDescriptor {
            kind: NodeKind::Hysteria2,
            label,
            host,
            port: Some(port),
            auth: Auth::Password { password },
            transport: None,
            flow: None,
            tls: Some(
                Tls {
                    enabled: true,
                    server_name: crate::strutil::query_get(&u.query, "sni"),
                    insecure,
                    reality: None,
                    utls: None,
                },
            ),
        },
    )
}

/// View of a dispatch result.
pub open spec fn opt_result_view(r: Result<Option<NodeDescriptor>, PipelineError>) -> Result<
    Option<NodeV>,
    PipelineError,
> {
    match r {
        Result::Ok(Option::Some(n)) => Result::Ok(Option::Some(n@)),
        Result::Ok(Option::None) => Result::Ok(Option::None),
        Result::Err(e) => Result::Err(e),
    }
}

/// Lifts a decoder result into the dispatch result shape.
pub open spec fn lift_node(r: Result<NodeV, PipelineError>) -> Result<
    Option<NodeV>,
    PipelineError,
> {
    match r {
        Result::Ok(n) => Result::Ok(Option::Some(n)),
        Result::Err(e) => Result::Err(e),
    }
}

/// Which decoder the scheme selects; an unrecognized scheme yields a
/// placeholder instead of an error, so one foreign line does not abort a
/// whole subscription.
pub open spec fn scheme_spec(u: UriPartsV) -> Result<Option<NodeV>, PipelineError> {
    if u.scheme == "ss"@ {
        lift_node(ss_spec(u))
    } else if u.scheme == "trojan"@ {
        lift_node(trojan_spec(u))
    } else if u.scheme == "vless"@ {
        lift_node(vless_spec(u))
    } else if u.scheme == "hysteria2"@ {
        lift_node(hysteria2_spec(u))
    } else {
        Result::Ok(Option::None)
    }
}

/// One subscription line: dispatch on the scheme, then prefix the label
/// with `{name}:` when the subscription carries a display name.
pub open spec fn decode_line_spec(u: UriPartsV, name: Option<Seq<char>>) -> Result<
    Option<NodeV>,
    PipelineError,
> {
    match scheme_spec(u) {
        Result::Ok(Option::Some(n)) => Result::Ok(
            Option::Some(
                match name {
                    Option::Some(nm) => NodeV { label: nm + ":"@ + n.label, ..n },
                    Option::None => n,
                },
            ),
        ),
        r => r,
    }
}

/// Decodes one subscription line from its URI components.
pub fn decode_line(u: &UriParts, name: &Option<String>) -> (r: Result<
    Option<NodeDescriptor>,
    PipelineError,
>)
    ensures
        opt_result_view(r) == decode_line_spec(u@, opt_view(*name)),
{
    let base = if str_eq(u.scheme.as_str(), "ss") {
        match parse_ss(u) {
            Ok(n) => Some(n),
            Err(e) => {
                return Err(e);
            },
        }
    } else if str_eq(u.scheme.as_str(), "trojan") {
        match parse_trojan(u) {
            Ok(n) => Some(n),
            Err(e) => {
                return Err(e);
            },
        }
    } else if str_eq(u.scheme.as_str(), "vless") {
        match parse_vless(u) {
            Ok(n) => Some(n),
            Err(e) => {
                return Err(e);
            },
        }
    } else if str_eq(u.scheme.as_str(), "hysteria2") {
        match parse_hysteria2(u) {
            Ok(n) => Some(n),
            Err(e) => {
                return Err(e);
            },
        }
    } else {
        None
    };
    match base {
        Some(mut n) => {
            if let Some(nm) = name {
                let mut t = nm.clone();
                t.append(":");
                t.append(n.label.as_str());
                n.label = t;
            }
            Ok(Some(n))
        },
        None => Ok(None),
    }
}

/// Decoding is deterministic: the result is a function of the URI's
/// components and the display name alone, so re-decoding the same URI
/// yields a structurally identical descriptor.
pub proof fn lemma_decode_deterministic(
    u: UriPartsV,
    name: Option<Seq<char>>,
    r1: Result<Option<NodeV>, PipelineError>,
    r2: Result<Option<NodeV>, PipelineError>,
)
    requires
        r1 == decode_line_spec(u, name),
        r2 == decode_line_spec(u, name),
    ensures
        r1 == r2,
{
}

/// The vless transport normalization: `ws` becomes `tcp`; every other
/// value passes through unchanged.
pub proof fn lemma_vless_transport(u: UriPartsV, t: Seq<char>)
    requires
        query_lookup(u.query, "type"@) == Option::Some(t),
        vless_spec(u) is Ok,
    ensures
        vless_spec(u) matches Result::Ok(n) && n.transport == Option::Some(
            if t == "ws"@ {
                "tcp"@
            } else {
                t
            },
        ),
{
}

/// The hysteria2 password fallback: `user:pass` when the userinfo carries
/// a password, the username alone when it does not.
pub proof fn lemma_hysteria2_password(u: UriPartsV)
    requires
        hysteria2_spec(u) is Ok,
    ensures
        hysteria2_spec(u) matches Result::Ok(n) && n.auth == (AuthV::Password {
            password: match u.password {
                Option::Some(p) => u.username + ":"@ + p,
                Option::None => u.username,
            },
        }),
{
}

/// A missing fragment is a malformed node for every scheme alike: no
/// decoder ever invents an empty label.
pub proof fn lemma_missing_fragment(u: UriPartsV)
    requires
        u.fragment is None,
    ensures
        ss_spec(u) == Result::<NodeV, PipelineError>::Err(PipelineError::MalformedNode),
        trojan_spec(u) == Result::<NodeV, PipelineError>::Err(PipelineError::MalformedNode),
        vless_spec(u) == Result::<NodeV, PipelineError>::Err(PipelineError::MalformedNode),
        hysteria2_spec(u) == Result::<NodeV, PipelineError>::Err(PipelineError::MalformedNode),
{
}

} // verus!
