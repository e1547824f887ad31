use base64::Engine;
use subparse::classify::{classify_labels, node_labels};
use subparse::codec::{decode_line, parse_ss};
use subparse::filter::filter_nodes;
use subparse::json::Json;
use subparse::node::PipelineError;
use subparse::subs::{decode_subscription, subscription_display_name};
use subparse::synth::{singbox_config, synthesize};
use subparse::uri::UriParts;

fn ss_uri(host: &str, fragment: &str) -> UriParts {
    UriParts {
        scheme: "ss".to_string(),
        username: "aes-256-gcm".to_string(),
        password: Some("pw".to_string()),
        host: Some(host.to_string()),
        port: Some(8388),
        query: vec![],
        fragment: Some(fragment.to_string()),
    }
}

fn s(x: &str) -> String {
    x.to_string()
}

fn group(tag: &str, members: Vec<Json>) -> Json {
    Json::Obj(vec![(s("tag"), Json::Str(s(tag))), (s("outbounds"), Json::Arr(members))])
}

fn template_with(entries: Vec<Json>) -> Json {
    Json::Obj(vec![(s("outbounds"), Json::Arr(entries))])
}

#[test]
fn unknown_scheme_yields_placeholder() {
    let mut u = ss_uri("1.2.3.4", "x");
    u.scheme = s("http");
    assert_eq!(decode_line(&u, &None), Ok(None));
}

#[test]
fn display_name_prefixes_label() {
    let u = ss_uri("1.2.3.4", "node1");
    let n = decode_line(&u, &Some(s("prov"))).unwrap().unwrap();
    assert_eq!(n.label, "prov:node1");
}

#[test]
fn display_name_prefix_with_empty_label() {
    let u = ss_uri("1.2.3.4", "");
    let n = decode_line(&u, &Some(s("prov"))).unwrap().unwrap();
    assert_eq!(n.label, "prov:");
}

#[test]
fn subscription_decodes_lines_in_order() {
    let raw = "ss://aes-256-gcm:pw@1.1.1.1:8388#a\r\n\r\nfoo://bar#x\r\nss://aes-256-gcm:pw@2.2.2.2:8388#b";
    let body = base64::prelude::BASE64_STANDARD.encode(raw);
    let nodes = decode_subscription(&body, &None).unwrap();
    assert_eq!(nodes.len(), 3);
    assert_eq!(nodes[0].as_ref().unwrap().label, "a");
    assert!(nodes[1].is_none());
    assert_eq!(nodes[2].as_ref().unwrap().label, "b");
}

#[test]
fn subscription_rejects_bad_base64() {
    assert_eq!(
        decode_subscription("!!!not-base64!!!", &None),
        Err(PipelineError::InvalidEncoding)
    );
}

#[test]
fn subscription_rejects_non_utf8_line() {
    let body = base64::prelude::BASE64_STANDARD.encode([0xffu8, 0xfe]);
    assert_eq!(decode_subscription(&body, &None), Err(PipelineError::InvalidEncoding));
}

#[test]
fn subscription_name_from_fragment() {
    assert_eq!(
        subscription_display_name("https://example.com/sub#My%20Subs").unwrap(),
        Some(s("My Subs"))
    );
    assert_eq!(subscription_display_name("https://example.com/sub").unwrap(), None);
}

#[test]
fn filter_drops_placeholder_host_regardless_of_label() {
    let good = parse_ss(&ss_uri("1.2.3.4", "keep")).unwrap();
    let bad = parse_ss(&ss_uri("0.0.0.0", "innocent")).unwrap();
    let (kept, dropped) = filter_nodes(vec![Some(good), None, Some(bad)], &vec![]);
    assert_eq!(kept.len(), 1);
    assert_eq!(kept[0].label, "keep");
    assert_eq!(dropped, vec![s("innocent")]);
}

#[test]
fn filter_drops_labels_with_keywords() {
    let banner = parse_ss(&ss_uri("1.2.3.4", "%E5%89%A9%E4%BD%99%E6%B5%81%E9%87%8F%3A100G"))
        .unwrap();
    assert_eq!(banner.label, "剩余流量:100G");
    let good = parse_ss(&ss_uri("1.2.3.4", "ok")).unwrap();
    let igs = vec![s("剩余流量"), s("套餐到期")];
    let (kept, dropped) = filter_nodes(vec![Some(banner), Some(good)], &igs);
    assert_eq!(kept.len(), 1);
    assert_eq!(kept[0].label, "ok");
    assert_eq!(dropped, vec![s("剩余流量:100G")]);
}

#[test]
fn classifier_selects_region_labels() {
    let labels = vec![s("日本-01"), s("plain-node"), s("美国 fast")];
    let ai = classify_labels(&labels);
    assert_eq!(ai, vec![s("日本-01"), s("美国 fast")]);
}

#[test]
fn synthesizer_extends_groups_and_appends_nodes() {
    let node = parse_ss(&ss_uri("1.2.3.4", "n1")).unwrap();
    let template = template_with(vec![
        group("auto-select", vec![]),
        group("AI-group", vec![Json::Str(s("old"))]),
        Json::Str(s("untouched")),
    ]);
    let tags = node_labels(&vec![node.clone()]);
    let ai = vec![s("日本-x")];
    let out = synthesize(template, &vec![node], &tags, &ai).unwrap();
    let expected = Json::Obj(vec![(
        s("outbounds"),
        Json::Arr(vec![
            group("auto-select", vec![Json::Str(s("n1"))]),
            group("AI-group", vec![Json::Str(s("old")), Json::Str(s("日本-x"))]),
            Json::Str(s("untouched")),
            Json::Obj(vec![
                (s("type"), Json::Str(s("shadowsocks"))),
                (s("tag"), Json::Str(s("n1"))),
                (s("server"), Json::Str(s("1.2.3.4"))),
                (s("server_port"), Json::UInt(8388)),
                (s("password"), Json::Str(s("pw"))),
                (s("method"), Json::Str(s("aes-256-gcm"))),
            ]),
        ]),
    )]);
    assert_eq!(out, expected);
}

#[test]
fn synthesizer_serializes_every_kind() {
    let trojan = subparse::codec::parse_trojan(&UriParts {
        scheme: s("trojan"),
        username: s("secret"),
        password: None,
        host: Some(s("t.example.com")),
        port: Some(443),
        query: vec![(s("type"), s("ws")), (s("sni"), s("cdn.example.com"))],
        fragment: Some(s("tj")),
    })
    .unwrap();
    let vless = subparse::codec::parse_vless(&UriParts {
        scheme: s("vless"),
        username: s("uuid-1"),
        password: None,
        host: Some(s("v.example.com")),
        port: None,
        query: vec![(s("type"), s("grpc")), (s("security"), s("reality")), (s("pbk"), s("key"))],
        fragment: Some(s("vl")),
    })
    .unwrap();
    let hy2 = subparse::codec::parse_hysteria2(&UriParts {
        scheme: s("hysteria2"),
        username: s("user"),
        password: Some(s("pass")),
        host: Some(s("h.example.com")),
        port: Some(8443),
        query: vec![],
        fragment: Some(s("hy")),
    })
    .unwrap();
    let template = template_with(vec![]);
    let out = synthesize(template, &vec![trojan, vless, hy2], &vec![], &vec![]).unwrap();
    let entries = match &out {
        Json::Obj(ps) => match &ps[0].1 {
            Json::Arr(es) => es,
            _ => panic!("outbounds is not an array"),
        },
        _ => panic!("config is not an object"),
    };
    let expected_trojan = Json::Obj(vec![
        (s("type"), Json::Str(s("trojan"))),
        (s("server"), Json::Str(s("t.example.com"))),
        (s("server_port"), Json::UInt(443)),
        (s("tag"), Json::Str(s("tj"))),
        (s("password"), Json::Str(s("secret"))),
        (s("network"), Json::Str(s("ws"))),
        (
            s("tls"),
            Json::Obj(vec![
                (s("enabled"), Json::Bool(true)),
                (s("server_name"), Json::Str(s("cdn.example.com"))),
                (s("insecure"), Json::Bool(true)),
                (
                    s("utls"),
                    Json::Obj(vec![
                        (s("enabled"), Json::Bool(true)),
                        (s("fingerprint"), Json::Str(s("chrome"))),
                    ]),
                ),
            ]),
        ),
    ]);
    let expected_vless = Json::Obj(vec![
        (s("type"), Json::Str(s("vless"))),
        (s("tag"), Json::Str(s("vl"))),
        (s("server"), Json::Str(s("v.example.com"))),
        (s("server_port"), Json::Null),
        (s("uuid"), Json::Str(s("uuid-1"))),
        (s("flow"), Json::Null),
        (s("network"), Json::Str(s("grpc"))),
        (
            s("tls"),
            Json::Obj(vec![
                (s("enabled"), Json::Bool(true)),
                (s("server_name"), Json::Null),
                (
                    s("reality"),
                    Json::Obj(vec![
                        (s("enabled"), Json::Bool(true)),
                        (s("public_key"), Json::Str(s("key"))),
                        (s("short_id"), Json::Null),
                    ]),
                ),
                (
                    s("utls"),
                    Json::Obj(vec![
                        (s("enabled"), Json::Bool(false)),
                        (s("fingerprint"), Json::Str(s(""))),
                    ]),
                ),
            ]),
        ),
    ]);
    let expected_hy2 = Json::Obj(vec![
        (s("type"), Json::Str(s("hysteria2"))),
        (s("tag"), Json::Str(s("hy"))),
        (s("server"), Json::Str(s("h.example.com"))),
        (s("server_port"), Json::UInt(8443)),
        (s("password"), Json::Str(s("user:pass"))),
        (
            s("tls"),
            Json::Obj(vec![
                (s("enabled"), Json::Bool(true)),
                (s("server_name"), Json::Null),
                (s("insecure"), Json::Bool(false)),
            ]),
        ),
    ]);
    assert_eq!(entries, &vec![expected_trojan, expected_vless, expected_hy2]);
}

#[test]
fn synthesizer_twice_concatenates_label_lists() {
    let template = template_with(vec![group("auto-select", vec![])]);
    let mid = synthesize(template, &vec![], &vec![s("a")], &vec![]).unwrap();
    let out = synthesize(mid, &vec![], &vec![s("b")], &vec![]).unwrap();
    let expected = template_with(vec![group(
        "auto-select",
        vec![Json::Str(s("a")), Json::Str(s("b"))],
    )]);
    assert_eq!(out, expected);
}

#[test]
fn synthesizer_rejects_bad_templates() {
    assert_eq!(
        synthesize(Json::Obj(vec![]), &vec![], &vec![], &vec![]),
        Err(PipelineError::TemplateShapeError)
    );
    let no_members = Json::Obj(vec![(s("tag"), Json::Str(s("auto-select")))]);
    assert_eq!(
        synthesize(template_with(vec![no_members]), &vec![], &vec![], &vec![]),
        Err(PipelineError::TemplateShapeError)
    );
}

#[test]
fn end_to_end_single_shadowsocks_node() {
    let raw = "ss://aes-256-gcm:pw@1.2.3.4:8388#nodeA";
    let body = base64::prelude::BASE64_STANDARD.encode(raw);
    let nodes = decode_subscription(&body, &None).unwrap();
    let template = template_with(vec![group("auto-select", vec![])]);
    let (config, dropped) = singbox_config(template, nodes, &vec![]).unwrap();
    assert!(dropped.is_empty());
    let entries = match &config {
        Json::Obj(ps) => match &ps[0].1 {
            Json::Arr(es) => es,
            _ => panic!("outbounds is not an array"),
        },
        _ => panic!("config is not an object"),
    };
    assert_eq!(entries.len(), 2);
    assert_eq!(entries[0], group("auto-select", vec![Json::Str(s("nodeA"))]));
    match &entries[1] {
        Json::Obj(ps) => {
            assert_eq!(ps[0], (s("type"), Json::Str(s("shadowsocks"))));
            assert_eq!(ps[1], (s("tag"), Json::Str(s("nodeA"))));
        },
        _ => panic!("appended node is not an object"),
    }
}
