//! The typed form of one proxy entry, its view, and the pipeline's error
//! kinds.
use vstd::prelude::*;
use crate::strutil::opt_view;

verus! {

/// Closed set of supported proxy schemes.
#[derive(Clone, Copy, Debug, PartialEq, Eq, Structural)]
pub enum NodeKind {
    ShadowSocks,
    Trojan,
    Vless,
    Hysteria2,
}

/// The error kinds the pipeline can fail with. Every failure aborts the run.
#[derive(Clone, Copy, Debug, PartialEq, Eq, Structural)]
pub enum PipelineError {
    /// Remote unreachable or non-success status (raised by the driver).
    FetchError,
    /// Subscription body is not valid base64 or not valid UTF-8.
    InvalidEncoding,
    /// A scheme decoder could not extract a required field.
    MalformedNode,
    /// The template lacks an expected array structure.
    TemplateShapeError,
}

/// Kind-dependent credential.
#[derive(Clone, Debug, PartialEq)]
pub enum Auth {
    /// Encryption method and password (shadowsocks).
    UserMethod { method: String, password: String },
    /// A single password (trojan, hysteria2).
    Password { password: String },
    /// A UUID (vless).
    Uuid { uuid: String },
}

/// View of `Auth` over character sequences.
pub enum AuthV {
    UserMethod { method: Seq<char>, password: Seq<char> },
    Password { password: Seq<char> },
    Uuid { uuid: Seq<char> },
}

impl View for Auth {
    type V = AuthV;

    open spec fn view(&self) -> AuthV {
        match self {
            Auth::UserMethod { method, password } => AuthV::UserMethod {
                method: method@,
                password: password@,
            },
            Auth::Password { password } => AuthV::Password { password: password@ },
            Auth::Uuid { uuid } => AuthV::Uuid { uuid: uuid@ },
        }
    }
}

/// Reality parameters (vless).
#[derive(Clone, Debug, PartialEq)]
pub struct Reality {
    pub enabled: bool,
    pub public_key: Option<String>,
    pub short_id: Option<String>,
}

/// View of `Reality`.
pub struct RealityV {
    pub enabled: bool,
    pub public_key: Option<Seq<char>>,
    pub short_id: Option<Seq<char>>,
}

impl View for Reality {
    type V = RealityV;

    open spec fn view(&self) -> RealityV {
        RealityV {
            enabled: self.enabled,
            public_key: opt_view(self.public_key),
            short_id: opt_view(self.short_id),
        }
    }
}

/// uTLS fingerprint block (trojan, vless).
#[derive(Clone, Debug, PartialEq)]
pub struct Utls {
    pub enabled: bool,
    pub fingerprint: String,
}

/// View of `Utls`.
pub struct UtlsV {
    pub enabled: bool,
    pub fingerprint: Seq<char>,
}

impl View for Utls {
    type V = UtlsV;

    open spec fn view(&self) -> UtlsV {
        UtlsV { enabled: self.enabled, fingerprint: self.fingerprint@ }
    }
}

/// TLS block of a node.
#[derive(Clone, Debug, PartialEq)]
pub struct Tls {
    pub enabled: bool,
    pub server_name: Option<String>,
    pub insecure: bool,
    pub reality: Option<Reality>,
    pub utls: Option<Utls>,
}

/// View of `Tls`.
pub struct TlsV {
    pub enabled: bool,
    pub server_name: Option<Seq<char>>,
    pub insecure: bool,
    pub reality: Option<RealityV>,
    pub utls: Option<UtlsV>,
}

impl View for Tls {
    type V = TlsV;

    open spec fn view(&self) -> TlsV {
        TlsV {
            enabled: self.enabled,
            server_name: opt_view(self.server_name),
            insecure: self.insecure,
            reality: match self.reality {
                Option::Some(r) => Option::Some(r@),
                Option::None => Option::None,
            },
            utls: match self.utls {
                Option::Some(u) => Option::Some(u@),
                Option::None => Option::None,
            },
        }
    }
}

/// The parsed, typed form of one proxy entry.
#[derive(Clone, Debug, PartialEq)]
pub struct NodeDescriptor {
    pub kind: NodeKind,
    /// Human-readable tag; used for display and group membership.
    pub label: String,
    pub host: String,
    /// Absent only for vless nodes.
    pub port: Option<u16>,
    pub auth: Auth,
    /// Stream transport name ("tcp", "ws", ...); trojan and vless only.
    pub transport: Option<String>,
    /// Flow control name; vless only.
    pub flow: Option<String>,
    pub tls: Option<Tls>,
}

/// View of `NodeDescriptor`.
pub struct NodeV {
    pub kind: NodeKind,
    pub label: Seq<char>,
    pub host: Seq<char>,
    pub port: Option<u16>,
    pub auth: AuthV,
    pub transport: Option<Seq<char>>,
    pub flow: Option<Seq<char>>,
    pub tls: Option<TlsV>,
}

impl View for NodeDescriptor {
    type V = NodeV;

    open spec fn view(&self) -> NodeV {
        NodeV {
            kind: self.kind,
            label: self.label@,
            host: self.host@,
            port: self.port,
            auth: self.auth@,
            transport: opt_view(self.transport),
            flow: opt_view(self.flow),
            tls: match self.tls {
                Option::Some(t) => Option::Some(t@),
                Option::None => Option::None,
            },
        }
    }
}

/// Well-formedness of a node: the credential variant and the optional
/// blocks a node of each kind carries. Every decoder establishes it.
pub open spec fn node_wf(n: NodeV) -> bool {
    match n.kind {
        NodeKind::ShadowSocks => n.auth is UserMethod,
        NodeKind::Trojan => n.auth is Password && n.transport is Some && (match n.tls {
            Option::Some(t) => t.utls is Some,
            Option::None => false,
        }),
        NodeKind::Vless => n.auth is Uuid && n.transport is Some && (match n.tls {
            Option::Some(t) => t.reality is Some && t.utls is Some,
            Option::None => false,
        }),
        NodeKind::Hysteria2 => n.auth is Password && n.tls is Some,
    }
}

/// Executable well-formedness test, for callers that receive nodes from
/// unverified surroundings.
pub fn node_wf_check(n: &NodeDescriptor) -> (r: bool)
    ensures
        r == node_wf(n@),
{
    match n.kind {
        NodeKind::ShadowSocks => matches!(n.auth, Auth::UserMethod { .. }),
        NodeKind::Trojan => matches!(n.auth, Auth::Password { .. }) && n.transport.is_some()
            && (match &n.tls {
            Some(t) => t.utls.is_some(),
            None => false,
        }),
        NodeKind::Vless => matches!(n.auth, Auth::Uuid { .. }) && n.transport.is_some() && (
        match &n.tls {
            Some(t) => t.reality.is_some() && t.utls.is_some(),
            None => false,
        }),
        NodeKind::Hysteria2 => matches!(n.auth, Auth::Password { .. }) && n.tls.is_some(),
    }
}

} // verus!
