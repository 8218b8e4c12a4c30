use ipecho::{
    decode_json_ip, encode_json, encode_text, handle_request, resolve, IpAddress, PeerAddress,
    Policy, RequestHeaders,
};

fn no_headers() -> RequestHeaders {
    Vec::new()
}

fn proxy_headers() -> RequestHeaders {
    vec![
        ("host".to_string(), "example.net".to_string()),
        ("x-forwarded-for".to_string(), "203.0.113.9".to_string()),
    ]
}

fn peer(ip: IpAddress) -> PeerAddress {
    PeerAddress { ip, port: 54321 }
}

#[test]
fn peer_policy_reports_peer_ip() {
    let p = peer(IpAddress::V4(192, 0, 2, 10));
    assert_eq!(resolve(Policy::PeerIp, &no_headers(), &p), IpAddress::V4(192, 0, 2, 10));
}

#[test]
fn peer_policy_ignores_headers() {
    let p = peer(IpAddress::V4(198, 51, 100, 7));
    let with_none = resolve(Policy::PeerIp, &no_headers(), &p);
    let with_proxy = resolve(Policy::PeerIp, &proxy_headers(), &p);
    assert_eq!(with_none, with_proxy);
    assert_eq!(with_none, IpAddress::V4(198, 51, 100, 7));
}

#[test]
fn loopback_policy_is_constant() {
    let p1 = peer(IpAddress::V4(192, 0, 2, 10));
    let p2 = peer(IpAddress::V6([0x2001, 0xdb8, 0, 0, 0, 0, 0, 1]));
    assert_eq!(resolve(Policy::Loopback, &no_headers(), &p1), IpAddress::V4(127, 0, 0, 1));
    assert_eq!(resolve(Policy::Loopback, &proxy_headers(), &p2), IpAddress::V4(127, 0, 0, 1));
}

#[test]
fn text_v4_forms() {
    assert_eq!(encode_text(&IpAddress::V4(192, 0, 2, 10)).body, "192.0.2.10");
    assert_eq!(encode_text(&IpAddress::V4(0, 0, 0, 0)).body, "0.0.0.0");
    assert_eq!(encode_text(&IpAddress::V4(255, 255, 255, 255)).body, "255.255.255.255");
    assert_eq!(encode_text(&IpAddress::V4(127, 0, 0, 1)).body, "127.0.0.1");
    assert_eq!(encode_text(&IpAddress::V4(10, 99, 100, 9)).body, "10.99.100.9");
}

#[test]
fn text_status_is_ok() {
    assert_eq!(encode_text(&IpAddress::V4(192, 0, 2, 10)).status, 200);
    assert_eq!(encode_text(&IpAddress::V6([0, 0, 0, 0, 0, 0, 0, 0])).status, 200);
}

#[test]
fn text_v6_forms() {
    assert_eq!(encode_text(&IpAddress::V6([0, 0, 0, 0, 0, 0, 0, 0])).body, "::");
    assert_eq!(encode_text(&IpAddress::V6([0, 0, 0, 0, 0, 0, 0, 1])).body, "::1");
    assert_eq!(encode_text(&IpAddress::V6([0x2001, 0xdb8, 0, 0, 0, 0, 0, 1])).body, "2001:db8::1");
    assert_eq!(
        encode_text(&IpAddress::V6([0x2001, 0xdb8, 0x85a3, 0x8d3, 0x1319, 0x8a2e, 0x370, 0x7348]))
            .body,
        "2001:db8:85a3:8d3:1319:8a2e:370:7348"
    );
    assert_eq!(
        encode_text(&IpAddress::V6([0xfe80, 0, 0, 0, 0x202, 0xb3ff, 0xfe1e, 0x8329])).body,
        "fe80::202:b3ff:fe1e:8329"
    );
}

#[test]
fn text_v6_leftmost_longest_run_wins() {
    // two runs of equal length: the leftmost is compressed
    assert_eq!(encode_text(&IpAddress::V6([1, 0, 0, 2, 0, 0, 3, 4])).body, "1::2:0:0:3:4");
    // the longer run wins even when it comes second
    assert_eq!(encode_text(&IpAddress::V6([1, 0, 0, 2, 0, 0, 0, 4])).body, "1:0:0:2::4");
    // a run at the end
    assert_eq!(encode_text(&IpAddress::V6([1, 2, 3, 4, 5, 6, 0, 0])).body, "1:2:3:4:5:6::");
}

#[test]
fn text_v6_single_zero_is_not_compressed() {
    assert_eq!(encode_text(&IpAddress::V6([1, 0, 2, 3, 4, 5, 6, 7])).body, "1:0:2:3:4:5:6:7");
}

#[test]
fn json_body_and_status() {
    let r = encode_json(&IpAddress::V4(192, 0, 2, 10));
    assert_eq!(r.status, 200);
    assert_eq!(r.body, "{\"ip\":\"192.0.2.10\"}");
}

#[test]
fn json_body_is_valid_json_with_one_ip_key() {
    let ips = [
        IpAddress::V4(192, 0, 2, 10),
        IpAddress::V4(255, 255, 255, 255),
        IpAddress::V6([0x2001, 0xdb8, 0, 0, 0, 0, 0, 1]),
        IpAddress::V6([0, 0, 0, 0, 0, 0, 0, 0]),
    ];
    for ip in ips {
        let r = encode_json(&ip);
        let v: serde_json::Value = serde_json::from_str(&r.body).unwrap();
        let obj = v.as_object().unwrap();
        assert_eq!(obj.len(), 1);
        let field = obj.get("ip").unwrap().as_str().unwrap();
        assert_eq!(field, encode_text(&ip).body);
    }
}

#[test]
fn json_round_trips_to_text_body() {
    let ips = [
        IpAddress::V4(203, 0, 113, 7),
        IpAddress::V4(0, 0, 0, 0),
        IpAddress::V6([0xfe80, 0, 0, 0, 0x202, 0xb3ff, 0xfe1e, 0x8329]),
        IpAddress::V6([0, 0, 0, 0, 0, 0, 0, 1]),
    ];
    for ip in ips {
        let json = encode_json(&ip);
        let text = encode_text(&ip);
        assert_eq!(decode_json_ip(&json.body), Some(text.body));
    }
}

#[test]
fn json_decode_rejects_other_shapes() {
    assert_eq!(decode_json_ip(""), None);
    assert_eq!(decode_json_ip("{}"), None);
    assert_eq!(decode_json_ip("{\"ip\":\"1.2.3.4\""), None);
    assert_eq!(decode_json_ip("{\"up\":\"1.2.3.4\"}"), None);
    assert_eq!(decode_json_ip("{\"ip\":\"1.\"2.3.4\"}"), None);
}

#[test]
fn text_route_reports_peer() {
    let p = peer(IpAddress::V4(192, 0, 2, 10));
    let r = handle_request(Policy::PeerIp, "/", &no_headers(), &p);
    assert_eq!(r.status, 200);
    assert_eq!(r.body, "192.0.2.10");
}

#[test]
fn json_route_reports_peer() {
    let p = peer(IpAddress::V4(192, 0, 2, 10));
    let r = handle_request(Policy::PeerIp, "/json", &no_headers(), &p);
    assert_eq!(r.status, 200);
    assert_eq!(r.body, "{\"ip\":\"192.0.2.10\"}");
}

#[test]
fn loopback_route_reports_loopback_for_any_peer() {
    let p = peer(IpAddress::V6([0x2001, 0xdb8, 0, 0, 0, 0, 0, 0x42]));
    let r = handle_request(Policy::Loopback, "/", &proxy_headers(), &p);
    assert_eq!(r.status, 200);
    assert_eq!(r.body, "127.0.0.1");
}

#[test]
fn unknown_path_is_not_found() {
    let p = peer(IpAddress::V4(192, 0, 2, 10));
    let r = handle_request(Policy::PeerIp, "/nonexistent", &no_headers(), &p);
    assert_eq!(r.status, 404);
    assert_eq!(r.body, "");
}

#[test]
fn routes_agree_for_one_request_context() {
    let p = peer(IpAddress::V4(198, 51, 100, 23));
    let text = handle_request(Policy::PeerIp, "/", &proxy_headers(), &p);
    let json = handle_request(Policy::PeerIp, "/json", &proxy_headers(), &p);
    assert_eq!(decode_json_ip(&json.body), Some(text.body));
}
