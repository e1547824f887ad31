//! The config synthesizer: the surviving labels extend the two known
//! outbound groups of the template, and one object per surviving node is
//! appended to the template's top-level outbound array. Nothing is removed
//! or reordered; every untouched part moves through unchanged.
use vstd::prelude::*;
use crate::json::{find_key, key_idx, lemma_key_idx, Json};
use crate::node::{Auth, AuthV, NodeDescriptor, NodeKind, NodeV, node_wf, PipelineError};
use crate::strutil::{str_eq, strs_view};

verus! {

/// The pair holds a string value under the key.
pub open spec fn p_str(p: (String, Json), k: Seq<char>, v: Seq<char>) -> bool {
    p.0@ == k && (p.1 matches Json::Str(s) && s@ == v)
}

/// The pair holds an optional string: the string itself, or null.
pub open spec fn p_opt_str(p: (String, Json), k: Seq<char>, v: Option<Seq<char>>) -> bool {
    p.0@ == k && match v {
        Option::Some(s) => (p.1 matches Json::Str(x) && x@ == s),
        Option::None => p.1 is Null,
    }
}

/// The pair holds an optional port number, or null.
pub open spec fn p_port(p: (String, Json), k: Seq<char>, v: Option<u16>) -> bool {
    p.0@ == k && match v {
        Option::Some(x) => (p.1 matches Json::UInt(y) && y == x as u64),
        Option::None => p.1 is Null,
    }
}

/// The pair holds a boolean value under the key.
pub open spec fn p_bool(p: (String, Json), k: Seq<char>, b: bool) -> bool {
    p.0@ == k && (p.1 matches Json::Bool(x) && x == b)
}

/// The object shape one node serializes to, field for field, by kind.
pub open spec fn node_json_rel(j: Json, n: NodeV) -> bool {
    match n.kind {
        NodeKind::ShadowSocks => {
            &&& n.auth matches AuthV::UserMethod { method, password }
            &&& j matches Json::Obj(ps)
            &&& ps@.len() == 6
            &&& p_str(ps@[0], "type"@, "shadowsocks"@)
            &&& p_str(ps@[1], "tag"@, n.label)
            &&& p_str(ps@[2], "server"@, n.host)
            &&& p_port(ps@[3], "server_port"@, n.port)
            &&& p_str(ps@[4], "password"@, password)
            &&& p_str(ps@[5], "method"@, method)
        },
        NodeKind::Trojan => {
            &&& n.auth matches AuthV::Password { password }
            &&& n.transport matches Option::Some(network)
            &&& n.tls matches Option::Some(tls)
            &&& tls.utls matches Option::Some(utls)
            &&& j matches Json::Obj(ps)
            &&& ps@.len() == 7
            &&& p_str(ps@[0], "type"@, "trojan"@)
            &&& p_str(ps@[1], "server"@, n.host)
            &&& p_port(ps@[2], "server_port"@, n.port)
            &&& p_str(ps@[3], "tag"@, n.label)
            &&& p_str(ps@[4], "password"@, password)
            &&& p_str(ps@[5], "network"@, network)
            &&& ps@[6].0@ == "tls"@
            &&& ps@[6].1 matches Json::Obj(ts)
            &&& ts@.len() == 4
            &&& p_bool(ts@[0], "enabled"@, tls.enabled)
            &&& p_opt_str(ts@[1], "server_name"@, tls.server_name)
            &&& p_bool(ts@[2], "insecure"@, tls.insecure)
            &&& ts@[3].0@ == "utls"@
            &&& ts@[3].1 matches Json::Obj(us)
            &&& us@.len() == 2
            &&& p_bool(us@[0], "enabled"@, utls.enabled)
            &&& p_str(us@[1], "fingerprint"@, utls.fingerprint)
        },
        NodeKind::Vless => {
            &&& n.auth matches AuthV::Uuid { uuid }
            &&& n.transport matches Option::Some(network)
            &&& n.tls matches Option::Some(tls)
            &&& tls.reality matches Option::Some(re)
            &&& tls.utls matches Option::Some(utls)
            &&& j matches Json::Obj(ps)
            &&& ps@.len() == 8
            &&& p_str(ps@[0], "type"@, "vless"@)
            &&& p_str(ps@[1], "tag"@, n.label)
            &&& p_str(ps@[2], "server"@, n.host)
            &&& p_port(ps@[3], "server_port"@, n.port)
            &&& p_str(ps@[4], "uuid"@, uuid)
            &&& p_opt_str(ps@[5], "flow"@, n.flow)
            &&& p_str(ps@[6], "network"@, network)
            &&& ps@[7].0@ == "tls"@
            &&& ps@[7].1 matches Json::Obj(ts)
            &&& ts@.len() == 4
            &&& p_bool(ts@[0], "enabled"@, tls.enabled)
            &&& p_opt_str(ts@[1], "server_name"@, tls.server_name)
            &&& ts@[2].0@ == "reality"@
            &&& ts@[2].1 matches Json::Obj(rs)
            &&& rs@.len() == 3
            &&& p_bool(rs@[0], "enabled"@, re.enabled)
            &&& p_opt_str(rs@[1], "public_key"@, re.public_key)
            &&& p_opt_str(rs@[2], "short_id"@, re.short_id)
            &&& ts@[3].0@ == "utls"@
            &&& ts@[3].1 matches Json::Obj(us)
            &&& us@.len() == 2
            &&& p_bool(us@[0], "enabled"@, utls.enabled)
            &&& p_str(us@[1], "fingerprint"@, utls.fingerprint)
        },
        NodeKind::Hysteria2 => {
            &&& n.auth matches AuthV::Password { password }
            &&& n.tls matches Option::Some(tls)
            &&& j matches Json::Obj(ps)
            &&& ps@.len() == 6
            &&& p_str(ps@[0], "type"@, "hysteria2"@)
            &&& p_str(ps@[1], "tag"@, n.label)
            &&& p_str(ps@[2], "server"@, n.host)
            &&& p_port(ps@[3], "server_port"@, n.port)
            &&& p_str(ps@[4], "password"@, password)
            &&& ps@[5].0@ == "tls"@
            &&& ps@[5].1 matches Json::Obj(ts)
            &&& ts@.len() == 3
            &&& p_bool(ts@[0], "enabled"@, tls.enabled)
            &&& p_opt_str(ts@[1], "server_name"@, tls.server_name)
            &&& p_bool(ts@[2], "insecure"@, tls.insecure)
        },
    }
}

/// One key-value pair, the key a literal.
fn kv(k: &str, v: Json) -> (r: (String, Json))
    ensures
        r.0@ == k@,
        r.1 == v,
{
    (String::from_str(k), v)
}

/// An optional string as a JSON value: the string, or null.
fn opt_str_json(o: &Option<String>) -> (r: Json)
    ensures
        match o {
            Option::Some(s) => r matches Json::Str(x) && x@ == s@,
            Option::None => r is Null,
        },
{
    match o {
        Some(s) => Json::Str(s.clone()),
        None => Json::Null,
    }
}

/// An optional port as a JSON value: the number, or null.
fn port_json(o: Option<u16>) -> (r: Json)
    ensures
        match o {
            Option::Some(x) => r matches Json::UInt(y) && y == x as u64,
            Option::None => r is Null,
        },
{
    match o {
        Some(p) => Json::UInt(p as u64),
        None => Json::Null,
    }
}

/// Serializes one node to the object shape of the output document.
pub fn node_to_json(n: &NodeDescriptor) -> (r: Json)
    requires
        node_wf(n@),
    ensures
        node_json_rel(r, n@),
{
    let mut ps: Vec<(String, Json)> = Vec::new();
    match n.kind {
        NodeKind::ShadowSocks => {
            let (method, password) = match &n.auth {
                Auth::UserMethod { method, password } => (method.clone(), password.clone()),
                _ => {
                    proof {
                        assert(false);
                    }
                    (String::new(), String::new())
                },
            };
            ps.push(kv("type", Json::Str(String::from_str("shadowsocks"))));
            ps.push(kv("tag", Json::Str(n.label.clone())));
            ps.push(kv("server", Json::Str(n.host.clone())));
            ps.push(kv("server_port", port_json(n.port)));
            ps.push(kv("password", Json::Str(password)));
            ps.push(kv("method", Json::Str(method)));
            Json::Obj(ps)
        },
        NodeKind::Trojan => {
            let password = match &n.auth {
                Auth::Password { password } => password.clone(),
                _ => {
                    proof {
                        assert(false);
                    }
                    String::new()
                },
            };
            let network = match &n.transport {
                Some(t) => t.clone(),
                None => {
                    proof {
                        assert(false);
                    }
                    String::new()
                },
            };
            let tls = match &n.tls {
                Some(t) => t,
                None => {
                    proof {
                        assert(false);
                    }
                    return Json::Null;
                },
            };
            let utls = match &tls.utls {
                Some(u) => u,
                None => {
                    proof {
                        assert(false);
                    }
                    return Json::Null;
                },
            };
            let mut us: Vec<(String, Json)> = Vec::new();
            us.push(kv("enabled", Json::Bool(utls.enabled)));
            us.push(kv("fingerprint", Json::Str(utls.fingerprint.clone())));
            let mut ts: Vec<(String, Json)> = Vec::new();
            ts.push(kv("enabled", Json::Bool(tls.enabled)));
            ts.push(kv("server_name", opt_str_json(&tls.server_name)));
            ts.push(kv("insecure", Json::Bool(tls.insecure)));
            ts.push(kv("utls", Json::Obj(us)));
            ps.push(kv("type", Json::Str(String::from_str("trojan"))));
            ps.push(kv("server", Json::Str(n.host.clone())));
            ps.push(kv("server_port", port_json(n.port)));
            ps.push(kv("tag", Json::Str(n.label.clone())));
            ps.push(kv("password", Json::Str(password)));
            ps.push(kv("network", Json::Str(network)));
            ps.push(kv("tls", Json::Obj(ts)));
            Json::Obj(ps)
        },
        NodeKind::Vless => {
            let uuid = match &n.auth {
                Auth::Uuid { uuid } => uuid.clone(),
                _ => {
                    proof {
                        assert(false);
                    }
                    String::new()
                },
            };
            let network = match &n.transport {
                Some(t) => t.clone(),
                None => {
                    proof {
                        assert(false);
                    }
                    String::new()
                },
            };
            let tls = match &n.tls {
                Some(t) => t,
                None => {
                    proof {
                        assert(false);
                    }
                    return Json::Null;
                },
            };
            let re = match &tls.reality {
                Some(r) => r,
                None => {
                    proof {
                        assert(false);
                    }
                    return Json::Null;
                },
            };
            let utls = match &tls.utls {
                Some(u) => u,
                None => {
                    proof {
                        assert(false);
                    }
                    return Json::Null;
                },
            };
            let mut rs: Vec<(String, Json)> = Vec::new();
            rs.push(kv("enabled", Json::Bool(re.enabled)));
            rs.push(kv("public_key", opt_str_json(&re.public_key)));
            rs.push(kv("short_id", opt_str_json(&re.short_id)));
            let mut us: Vec<(String, Json)> = Vec::new();
            us.push(kv("enabled", Json::Bool(utls.enabled)));
            us.push(kv("fingerprint", Json::Str(utls.fingerprint.clone())));
            let mut ts: Vec<(String, Json)> = Vec::new();
            ts.push(kv("enabled", Json::Bool(tls.enabled)));
            ts.push(kv("server_name", opt_str_json(&tls.server_name)));
            ts.push(kv("reality", Json::Obj(rs)));
            ts.push(kv("utls", Json::Obj(us)));
            ps.push(kv("type", Json::Str(String::from_str("vless"))));
            ps.push(kv("tag", Json::Str(n.label.clone())));
            ps.push(kv("server", Json::Str(n.host.clone())));
            ps.push(kv("server_port", port_json(n.port)));
            ps.push(kv("uuid", Json::Str(uuid)));
            ps.push(kv("flow", opt_str_json(&n.flow)));
            ps.push(kv("network", Json::Str(network)));
            ps.push(kv("tls", Json::Obj(ts)));
            Json::Obj(ps)
        },
        NodeKind::Hysteria2 => {
            let password = match &n.auth {
                Auth::Password { password } => password.clone(),
                _ => {
                    proof {
                        assert(false);
                    }
                    String::new()
                },
            };
            let tls = match &n.tls {
                Some(t) => t,
                None => {
                    proof {
                        assert(false);
                    }
                    return Json::Null;
                },
            };
            let mut ts: Vec<(String, Json)> = Vec::new();
            ts.push(kv("enabled", Json::Bool(tls.enabled)));
            ts.push(kv("server_name", opt_str_json(&tls.server_name)));
            ts.push(kv("insecure", Json::Bool(tls.insecure)));
            ps.push(kv("type", Json::Str(String::from_str("hysteria2"))));
            ps.push(kv("tag", Json::Str(n.label.clone())));
            ps.push(kv("server", Json::Str(n.host.clone())));
            ps.push(kv("server_port", port_json(n.port)));
            ps.push(kv("password", Json::Str(password)));
            ps.push(kv("tls", Json::Obj(ts)));
            Json::Obj(ps)
        },
    }
}

/// The string an entry carries under its `tag` key, when the entry is an
/// object and the value is a string.
pub open spec fn entry_tag(e: Json) -> Option<Seq<char>> {
    match e {
        Json::Obj(ps) => {
            let t = key_idx(ps@, "tag"@);
            if t >= 0 {
                match ps@[t].1 {
                    Json::Str(s) => Option::Some(s@),
                    _ => Option::None,
                }
            } else {
                Option::None
            }
        },
        _ => Option::None,
    }
}

/// A group entry's member list got the labels appended, one string each,
/// in order; every other pair of the entry is unchanged.
pub open spec fn extended_rel(e: Json, o: Json, ts: Seq<Seq<char>>) -> bool {
    &&& e matches Json::Obj(ps)
    &&& o matches Json::Obj(qs)
    &&& {
        let m = key_idx(ps@, "outbounds"@);
        &&& 0 <= m < ps@.len()
        &&& qs@.len() == ps@.len()
        &&& (forall|j: int| 0 <= j < ps@.len() && j != m ==> qs@[j] == ps@[j])
        &&& qs@[m].0 == ps@[m].0
        &&& ps@[m].1 matches Json::Arr(xs)
        &&& qs@[m].1 matches Json::Arr(ys)
        &&& ys@.len() == xs@.len() + ts.len()
        &&& (forall|j: int| 0 <= j < xs@.len() ==> ys@[j] == xs@[j])
        &&& (forall|j: int|
            0 <= j < ts.len() ==> ((#[trigger] ys@[xs@.len() + j]) matches Json::Str(s) && s@
                == ts[j]))
    }
}

/// How one pre-existing outbound entry is carried over: the two known
/// groups get their member lists extended, everything else moves through
/// unchanged.
pub open spec fn entry_rel(e: Json, o: Json, ts: Seq<Seq<char>>, ai: Seq<Seq<char>>) -> bool {
    if entry_tag(e) == Option::Some("auto-select"@) {
        extended_rel(e, o, ts)
    } else if entry_tag(e) == Option::Some("AI-group"@) {
        extended_rel(e, o, ai)
    } else {
        o == e
    }
}

/// An entry the synthesizer accepts: a known group entry must carry its
/// own member array.
pub open spec fn entry_shape_ok(e: Json) -> bool {
    (entry_tag(e) == Option::Some("auto-select"@) || entry_tag(e) == Option::Some("AI-group"@))
        ==> (e matches Json::Obj(ps) && {
        let m = key_idx(ps@, "outbounds"@);
        0 <= m < ps@.len() && ps@[m].1 is Arr
    })
}

/// A template the synthesizer accepts: an object with an `outbounds`
/// array whose group entries are well-shaped.
pub open spec fn template_shape_ok(t: Json) -> bool {
    &&& t matches Json::Obj(tps)
    &&& {
        let i = key_idx(tps@, "outbounds"@);
        &&& 0 <= i < tps@.len()
        &&& tps@[i].1 matches Json::Arr(es)
        &&& (forall|j: int| 0 <= j < es@.len() ==> entry_shape_ok(#[trigger] es@[j]))
    }
}

/// The synthesizer's whole effect: the `outbounds` pair of the template is
/// the one pair that changes; its entries are carried over by `entry_rel`
/// and one serialized object per node is appended after them.
pub open spec fn synth_rel(
    t: Json,
    out: Json,
    nodes: Seq<NodeV>,
    ts: Seq<Seq<char>>,
    ai: Seq<Seq<char>>,
) -> bool {
    &&& t matches Json::Obj(tps)
    &&& out matches Json::Obj(ops)
    &&& {
        let i = key_idx(tps@, "outbounds"@);
        &&& 0 <= i < tps@.len()
        &&& ops@.len() == tps@.len()
        &&& (forall|j: int| 0 <= j < tps@.len() && j != i ==> ops@[j] == tps@[j])
        &&& ops@[i].0 == tps@[i].0
        &&& tps@[i].1 matches Json::Arr(es)
        &&& ops@[i].1 matches Json::Arr(os)
        &&& os@.len() == es@.len() + nodes.len()
        &&& (forall|j: int| 0 <= j < es@.len() ==> entry_rel(#[trigger] es@[j], os@[j], ts, ai))
        &&& (forall|j: int| 0 <= j < nodes.len() ==> node_json_rel(
            #[trigger] os@[es@.len() + j],
            nodes[j],
        ))
    }
}

/// Carries one outbound entry to the output, extending the member list of
/// the two known groups.
fn extend_entry(e: Json, tags: &Vec<String>, ai_tags: &Vec<String>) -> (r: Result<
    Json,
    PipelineError,
>)
    ensures
        r matches Ok(o) ==> entry_shape_ok(e) && entry_rel(
            e,
            o,
            strs_view(tags@),
            strs_view(ai_tags@),
        ),
        r is Err <==> !entry_shape_ok(e),
        r matches Err(err) ==> err == PipelineError::TemplateShapeError,
{
    let (is_auto, is_ai) = match &e {
        Json::Obj(ps) => {
            match find_key(ps, "tag") {
                Some(t) => {
                    proof {
                        lemma_key_idx(ps@, "tag"@);
                    }
                    match &ps[t].1 {
                        Json::Str(s) => (
                            str_eq(s.as_str(), "auto-select"),
                            str_eq(s.as_str(), "AI-group"),
                        ),
                        _ => (false, false),
                    }
                },
                None => (false, false),
            }
        },
        _ => (false, false),
    };
    if !is_auto && !is_ai {
        return Ok(e);
    }
    let mut ps = match e {
        Json::Obj(v) => v,
        _ => {
            proof {
                assert(false);
            }
            return Err(PipelineError::TemplateShapeError);
        },
    };
    let ghost ps0 = ps@;
    let m = match find_key(&ps, "outbounds") {
        Some(m) => m,
        None => {
            return Err(PipelineError::TemplateShapeError);
        },
    };
    proof {
        lemma_key_idx(ps@, "outbounds"@);
    }
    let pair = ps.remove(m);
    let mut xs = match pair.1 {
        Json::Arr(v) => v,
        _ => {
            return Err(PipelineError::TemplateShapeError);
        },
    };
    let ghost xs0 = xs@;
    let use_tags: &Vec<String> = if is_auto {
        tags
    } else {
        ai_tags
    };
    let mut k: usize = 0;
    while k < use_tags.len()
        invariant
            k <= use_tags@.len(),
            xs@.len() == xs0.len() + k,
            forall|j: int| 0 <= j < xs0.len() ==> xs@[j] == xs0[j],
            forall|j: int|
                0 <= j < k ==> ((#[trigger] xs@[xs0.len() + j]) matches Json::Str(s) && s@
                    == use_tags@[j]@),
        decreases use_tags@.len() - k,
    {
        xs.push(Json::Str(use_tags[k].clone()));
        k = k + 1;
    }
    let newpair = (pair.0, Json::Arr(xs));
    ps.insert(m, newpair);
    proof {
        assert(ps@ =~= ps0.update(m as int, newpair));
    }
    Ok(Json::Obj(ps))
}

/// Merges the label lists and node objects into the template: the full
/// label list extends the `auto-select` group, the classified list extends
/// the `AI-group` group, and one object per node is appended to the
/// top-level `outbounds` array. Fails, with the template's shape named,
/// exactly when the template or a group entry lacks its array.
pub fn synthesize(
    template: Json,
    nodes: &Vec<NodeDescriptor>,
    tags: &Vec<String>,
    ai_tags: &Vec<String>,
) -> (r: Result<Json, PipelineError>)
    requires
        forall|i: int| 0 <= i < nodes@.len() ==> node_wf((#[trigger] nodes@[i])@),
    ensures
        r matches Ok(out) ==> template_shape_ok(template) && synth_rel(
            template,
            out,
            nodes@.map_values(|n: NodeDescriptor| n@),
            strs_view(tags@),
            strs_view(ai_tags@),
        ),
        r is Err <==> !template_shape_ok(template),
        r matches Err(err) ==> err == PipelineError::TemplateShapeError,
{
    let mut tps = match template {
        Json::Obj(v) => v,
        _ => {
            return Err(PipelineError::TemplateShapeError);
        },
    };
    let ghost tps0 = tps@;
    let i = match find_key(&tps, "outbounds") {
        Some(i) => i,
        None => {
            return Err(PipelineError::TemplateShapeError);
        },
    };
    proof {
        lemma_key_idx(tps@, "outbounds"@);
    }
    let pair = tps.remove(i);
    let ghost pairg = pair;
    let mut es = match pair.1 {
        Json::Arr(v) => v,
        _ => {
            return Err(PipelineError::TemplateShapeError);
        },
    };
    let ghost es0 = es@;
    proof {
        assert(pairg.1 matches Json::Arr(v) && v@ == es0);
    }
    let mut os: Vec<Json> = Vec::new();
    while es.len() > 0
        invariant
            (template matches Json::Obj(tv) && tv@ == tps0),
            (i as int) < tps0.len(),
            key_idx(tps0, "outbounds"@) == i as int,
            tps0[i as int] == pairg,
            (pairg.1 matches Json::Arr(v) && v@ == es0),
            tps@ == tps0.remove(i as int),
            os@.len() + es@.len() == es0.len(),
            es@ == es0.subrange(os@.len() as int, es0.len() as int),
            forall|j: int| 0 <= j < os@.len() ==> entry_shape_ok(#[trigger] es0[j]) && entry_rel(
                es0[j],
                os@[j],
                strs_view(tags@),
                strs_view(ai_tags@),
            ),
        decreases es@.len(),
    {
        let ghost donelen = os@.len() as int;
        let e = es.remove(0);
        proof {
            assert(e == es0[donelen]);
            assert(es@ =~= es0.subrange(donelen + 1, es0.len() as int));
        }
        let o = match extend_entry(e, tags, ai_tags) {
            Ok(o) => o,
            Err(err) => {
                proof {
                    assert(!entry_shape_ok(es0[donelen]));
                    if template_shape_ok(template) {
                        assert(tps0[i as int] == pairg);
                        assert(entry_shape_ok(es0[donelen]));
                    }
                }
                return Err(err);
            },
        };
        os.push(o);
    }
    let mut k: usize = 0;
    while k < nodes.len()
        invariant
            (template matches Json::Obj(tv) && tv@ == tps0),
            (i as int) < tps0.len(),
            key_idx(tps0, "outbounds"@) == i as int,
            tps0[i as int] == pairg,
            (pairg.1 matches Json::Arr(v) && v@ == es0),
            tps@ == tps0.remove(i as int),
            pair.0 == pairg.0,
            k <= nodes@.len(),
            os@.len() == es0.len() + k,
            forall|j: int| 0 <= j < es0.len() ==> entry_shape_ok(#[trigger] es0[j]) && entry_rel(
                es0[j],
                os@[j],
                strs_view(tags@),
                strs_view(ai_tags@),
            ),
            forall|j: int| 0 <= j < k ==> node_json_rel(
                #[trigger] os@[es0.len() + j],
                nodes@[j]@,
            ),
            forall|j: int| 0 <= j < nodes@.len() ==> node_wf((#[trigger] nodes@[j])@),
        decreases nodes@.len() - k,
    {
        os.push(node_to_json(&nodes[k]));
        k = k + 1;
    }
    let newpair = (pair.0, Json::Arr(os));
    tps.insert(i, newpair);
    proof {
        assert(tps@ =~= tps0.update(i as int, newpair));
    }
    Ok(Json::Obj(tps))
}

/// The nodes one run keeps after filtering, as views.
pub open spec fn kept_node_views(
    nodes: Seq<Option<NodeDescriptor>>,
    igs: Seq<Seq<char>>,
) -> Seq<NodeV> {
    crate::filter::filter_spec(nodes, igs).map_values(|n: NodeDescriptor| n@)
}

/// The full label list of one run: the labels of the kept nodes, in order.
pub open spec fn kept_label_list(
    nodes: Seq<Option<NodeDescriptor>>,
    igs: Seq<Seq<char>>,
) -> Seq<String> {
    crate::filter::filter_spec(nodes, igs).map_values(|n: NodeDescriptor| n.label)
}

/// The full label list of one run, as views.
pub open spec fn kept_label_views(
    nodes: Seq<Option<NodeDescriptor>>,
    igs: Seq<Seq<char>>,
) -> Seq<Seq<char>> {
    strs_view(kept_label_list(nodes, igs))
}

/// The classified label list of one run: the kept labels naming a premium
/// region, in order.
pub open spec fn classified_label_list(
    nodes: Seq<Option<NodeDescriptor>>,
    igs: Seq<Seq<char>>,
) -> Seq<String> {
    kept_label_list(nodes, igs).filter(|l: String| crate::classify::is_premium(l@))
}

/// The classified label list of one run, as views.
pub open spec fn classified_label_views(
    nodes: Seq<Option<NodeDescriptor>>,
    igs: Seq<Seq<char>>,
) -> Seq<Seq<char>> {
    strs_view(classified_label_list(nodes, igs))
}

/// The whole in-memory pipeline behind one run: filter, classify, merge.
/// Returns the synthesized config and the labels of the dropped nodes, so
/// the driver can report them.
pub fn singbox_config(
    template: Json,
    nodes: Vec<Option<NodeDescriptor>>,
    ignores: &Vec<String>,
) -> (r: Result<(Json, Vec<String>), PipelineError>)
    requires
        forall|i: int|
            0 <= i < nodes@.len() ==> ((#[trigger] nodes@[i]) matches Option::Some(n) ==> node_wf(
                n@,
            )),
    ensures
        r matches Ok(p) ==> ({
            &&& template_shape_ok(template)
            &&& synth_rel(
                template,
                p.0,
                kept_node_views(nodes@, strs_view(ignores@)),
                kept_label_views(nodes@, strs_view(ignores@)),
                classified_label_views(nodes@, strs_view(ignores@)),
            )
            &&& p.1@ == crate::filter::dropped_spec(nodes@, strs_view(ignores@))
        }),
        r is Err <==> !template_shape_ok(template),
        r matches Err(err) ==> err == PipelineError::TemplateShapeError,
{
    let ghost nodes0 = nodes@;
    let (kept, dropped) = crate::filter::filter_nodes(nodes, ignores);
    let tags = crate::classify::node_labels(&kept);
    let ai = crate::classify::classify_labels(&tags);
    proof {
        crate::filter::lemma_filter_spec_from_input(nodes0, strs_view(ignores@));
        assert forall|j: int| 0 <= j < kept@.len() implies node_wf((#[trigger] kept@[j])@) by {
            let i = choose|i: int|
                0 <= i < nodes0.len() && nodes0[i] == Option::Some(kept@[j]);
        }
        assert(tags@ =~= kept@.map_values(|n: NodeDescriptor| n.label));
    }
    match synthesize(template, &kept, &tags, &ai) {
        Ok(c) => Ok((c, dropped)),
        Err(e) => Err(e),
    }
}

/// Carrying an entry through two synthesizer runs extends a group's member
/// list by the concatenation of both runs' label lists, in call order;
/// every other entry is unchanged.
pub proof fn lemma_entry_rel_twice(
    e: Json,
    m: Json,
    o: Json,
    ts1: Seq<Seq<char>>,
    ai1: Seq<Seq<char>>,
    ts2: Seq<Seq<char>>,
    ai2: Seq<Seq<char>>,
)
    requires
        entry_rel(e, m, ts1, ai1),
        entry_rel(m, o, ts2, ai2),
    ensures
        entry_rel(e, o, ts1 + ts2, ai1 + ai2),
{
    reveal_strlit("tag");
    reveal_strlit("outbounds");
    if entry_tag(e) == Option::Some("auto-select"@) || entry_tag(e) == Option::Some("AI-group"@) {
        let ts_a = if entry_tag(e) == Option::Some("auto-select"@) {
            ts1
        } else {
            ai1
        };
        let ts_b = if entry_tag(e) == Option::Some("auto-select"@) {
            ts2
        } else {
            ai2
        };
        let ps = e->Obj_0;
        let qs = m->Obj_0;
        let mi = key_idx(ps@, "outbounds"@);
        lemma_key_idx(ps@, "outbounds"@);
        lemma_key_idx(ps@, "tag"@);
        let ti = key_idx(ps@, "tag"@);
        assert(ps@[ti].0@ == "tag"@);
        assert(ti != mi);
        assert(forall|j: int| 0 <= j < ps@.len() ==> (#[trigger] qs@[j]).0@ == ps@[j].0@);
        lemma_key_idx_same_keys(ps@, qs@, "outbounds"@);
        lemma_key_idx_same_keys(ps@, qs@, "tag"@);
        assert(qs@[ti] == ps@[ti]);
        assert(entry_tag(m) == entry_tag(e));
        let os = o->Obj_0;
        let xs = ps@[mi].1->Arr_0;
        let ys = qs@[mi].1->Arr_0;
        let zs = os@[mi].1->Arr_0;
        assert forall|j: int| 0 <= j < (ts_a + ts_b).len() implies ((#[trigger] zs@[xs@.len()
            + j]) matches Json::Str(s) && s@ == (ts_a + ts_b)[j]) by {
            if j < ts_a.len() {
                assert(zs@[xs@.len() + j] == ys@[xs@.len() + j]);
            } else {
                assert(zs@[xs@.len() + j] == zs@[ys@.len() + (j - ts_a.len())]);
            }
        }
        assert(extended_rel(e, o, ts_a + ts_b));
    }
}

/// `key_idx` depends on the keys alone.
pub proof fn lemma_key_idx_same_keys(
    ps: Seq<(String, Json)>,
    qs: Seq<(String, Json)>,
    key: Seq<char>,
)
    requires
        ps.len() == qs.len(),
        forall|j: int| 0 <= j < ps.len() ==> (#[trigger] qs[j]).0@ == ps[j].0@,
    ensures
        key_idx(ps, key) == key_idx(qs, key),
    decreases ps.len(),
{
    if ps.len() > 0 && ps[0].0@ != key {
        assert(forall|j: int| 0 <= j < ps.drop_first().len() ==> (#[trigger] qs.drop_first()[
            j]).0@ == ps.drop_first()[j].0@);
        lemma_key_idx_same_keys(ps.drop_first(), qs.drop_first(), key);
    }
}

/// The entries of the template's top-level outbound array, when the
/// template is shaped as the synthesizer expects.
pub open spec fn outbound_entries(t: Json) -> Seq<Json> {
    match t {
        Json::Obj(tps) => {
            let i = key_idx(tps@, "outbounds"@);
            if 0 <= i < tps@.len() {
                match tps@[i].1 {
                    Json::Arr(es) => es@,
                    _ => Seq::empty(),
                }
            } else {
                Seq::empty()
            }
        },
        _ => Seq::empty(),
    }
}

/// Running the synthesizer twice carries every pre-existing outbound entry
/// of the template over both runs: a group entry's member list grows by
/// both runs' label lists in call order, and any other entry is unchanged.
pub proof fn lemma_synth_twice(
    t: Json,
    mid: Json,
    out: Json,
    ns1: Seq<NodeV>,
    ts1: Seq<Seq<char>>,
    ai1: Seq<Seq<char>>,
    ns2: Seq<NodeV>,
    ts2: Seq<Seq<char>>,
    ai2: Seq<Seq<char>>,
    j: int,
)
    requires
        synth_rel(t, mid, ns1, ts1, ai1),
        synth_rel(mid, out, ns2, ts2, ai2),
        0 <= j < outbound_entries(t).len(),
    ensures
        entry_rel(outbound_entries(t)[j], outbound_entries(out)[j], ts1 + ts2, ai1 + ai2),
{
    let tps = t->Obj_0;
    let ms = mid->Obj_0;
    let i = key_idx(tps@, "outbounds"@);
    lemma_key_idx(tps@, "outbounds"@);
    assert(forall|k: int| 0 <= k < tps@.len() ==> (#[trigger] ms@[k]).0@ == tps@[k].0@);
    lemma_key_idx_same_keys(tps@, ms@, "outbounds"@);
    let es = tps@[i].1->Arr_0;
    let mes = ms@[i].1->Arr_0;
    assert(outbound_entries(t) == es@);
    assert(outbound_entries(mid) == mes@);
    let os_pairs = out->Obj_0;
    lemma_key_idx_same_keys(ms@, os_pairs@, "outbounds"@);
    let oes = os_pairs@[i].1->Arr_0;
    assert(outbound_entries(out) == oes@);
    assert(entry_rel(es@[j], mes@[j], ts1, ai1));
    assert(entry_rel(mes@[j], oes@[j], ts2, ai2));
    lemma_entry_rel_twice(es@[j], mes@[j], oes@[j], ts1, ai1, ts2, ai2);
}

/// Two whole pipeline runs against the same template, on two node sets:
/// every pre-existing outbound entry of the template is carried over both
/// runs, the `auto-select` group's member list growing by the
/// concatenation of both runs' full label lists and the `AI-group`
/// group's by the concatenation of both runs' classified lists, in call
/// order; any other entry is unchanged.
pub proof fn lemma_singbox_config_twice(
    t: Json,
    mid: Json,
    out: Json,
    nodes1: Seq<Option<NodeDescriptor>>,
    nodes2: Seq<Option<NodeDescriptor>>,
    igs: Seq<Seq<char>>,
    j: int,
)
    requires
        synth_rel(
            t,
            mid,
            kept_node_views(nodes1, igs),
            kept_label_views(nodes1, igs),
            classified_label_views(nodes1, igs),
        ),
        synth_rel(
            mid,
            out,
            kept_node_views(nodes2, igs),
            kept_label_views(nodes2, igs),
            classified_label_views(nodes2, igs),
        ),
        0 <= j < outbound_entries(t).len(),
    ensures
        entry_rel(
            outbound_entries(t)[j],
            outbound_entries(out)[j],
            kept_label_views(nodes1, igs) + kept_label_views(nodes2, igs),
            classified_label_views(nodes1, igs) + classified_label_views(nodes2, igs),
        ),
{
    lemma_synth_twice(
        t,
        mid,
        out,
        kept_node_views(nodes1, igs),
        kept_label_views(nodes1, igs),
        classified_label_views(nodes1, igs),
        kept_node_views(nodes2, igs),
        kept_label_views(nodes2, igs),
        classified_label_views(nodes2, igs),
        j,
    );
}

} // verus!
