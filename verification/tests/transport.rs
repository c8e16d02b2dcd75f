use tcp_streamer::audio::transport::allowlist::{is_allowed, parse_ip, parse_rules, IpAddress, IpNetwork};
use tcp_streamer::audio::transport::discovery::{advertises_encryption, enc_property, mdns_host};
use tcp_streamer::audio::transport::dscp::dscp_to_tos;
use tcp_streamer::audio::transport::tcp_server::{http_stream_headers, looks_like_http};

#[test]
fn voip_and_ef_map_to_expedited_forwarding() {
    assert_eq!(dscp_to_tos("voip"), 0xB8);
    assert_eq!(dscp_to_tos("ef"), 0xB8);
}

#[test]
fn keys_are_case_insensitive() {
    assert_eq!(dscp_to_tos("VoIP"), 0xB8);
    assert_eq!(dscp_to_tos("LowDelay"), 0x10);
}

#[test]
fn cs5_lowdelay_throughput() {
    assert_eq!(dscp_to_tos("cs5"), 0xA0);
    assert_eq!(dscp_to_tos("lowdelay"), 0x10);
    assert_eq!(dscp_to_tos("throughput"), 0x08);
}

#[test]
fn besteffort_empty_and_unknown_are_zero() {
    assert_eq!(dscp_to_tos("besteffort"), 0x00);
    assert_eq!(dscp_to_tos(""), 0x00);
    assert_eq!(dscp_to_tos("nonsense"), 0x00);
}

#[test]
fn detects_http_get_and_head() {
    assert!(looks_like_http(b"GET /stream.wav HTTP/1.1"));
    assert!(looks_like_http(b"HEAD / HTTP/1.1"));
}

#[test]
fn rejects_raw_pcm_and_partial_bytes() {
    assert!(!looks_like_http(&[0x00, 0x01, 0x02, 0x03]));
    assert!(!looks_like_http(b"GE"));
    assert!(!looks_like_http(b""));
}

#[test]
fn headers_contain_content_type_and_chunked() {
    let h = http_stream_headers("audio/wav");
    assert!(h.starts_with("HTTP/1.1 200 OK\r\n"));
    assert!(h.contains("Content-Type: audio/wav\r\n"));
    assert!(h.contains("Transfer-Encoding: chunked\r\n"));
    assert!(h.ends_with("\r\n\r\n"));
}

#[test]
fn headers_are_exact() {
    assert_eq!(
        http_stream_headers("audio/wav"),
        "HTTP/1.1 200 OK\r\nContent-Type: audio/wav\r\nTransfer-Encoding: chunked\r\nConnection: keep-alive\r\nCache-Control: no-cache, no-store, must-revalidate\r\nAccess-Control-Allow-Origin: *\r\n\r\n"
    );
}

fn ip(s: &str) -> IpAddress {
    parse_ip(s).unwrap()
}

#[test]
fn empty_rules_use_default() {
    assert!(is_allowed(ip("10.0.0.1"), &[], true));
    assert!(!is_allowed(ip("10.0.0.1"), &[], false));
}

#[test]
fn exact_ipv4_match() {
    let rules = parse_rules("192.168.1.50, 10.0.0.5");
    assert!(is_allowed(ip("10.0.0.5"), &rules, false));
    assert!(!is_allowed(ip("10.0.0.6"), &rules, false));
}

#[test]
fn cidr_v4_range() {
    let rules = parse_rules("192.168.1.0/24");
    assert!(is_allowed(ip("192.168.1.200"), &rules, false));
    assert!(!is_allowed(ip("192.168.2.1"), &rules, false));
}

#[test]
fn cidr_v6_range() {
    let rules = parse_rules("fe80::/10");
    assert!(is_allowed(ip("fe80::abcd"), &rules, false));
    assert!(!is_allowed(ip("2001:db8::1"), &rules, false));
}

#[test]
fn invalid_tokens_are_skipped() {
    let rules = parse_rules("not-an-ip, 10.0.0.5, , 999.999.0.0/8");
    assert_eq!(rules.len(), 1);
    assert!(is_allowed(ip("10.0.0.5"), &rules, false));
}

#[test]
fn bare_addresses_become_host_networks() {
    let rules = parse_rules("10.0.0.5\nfe80::1\t192.168.0.0/16\r");
    assert_eq!(
        rules,
        vec![
            IpNetwork { addr: IpAddress::V4(0x0A00_0005), prefix_len: 32 },
            IpNetwork { addr: IpAddress::V6(0xfe80_0000_0000_0000_0000_0000_0000_0001), prefix_len: 128 },
            IpNetwork { addr: IpAddress::V4(0xC0A8_0000), prefix_len: 16 },
        ]
    );
    assert!(parse_ip("not-an-ip").is_none());
}

#[test]
fn zero_prefix_admits_every_address_of_its_family() {
    let rules = parse_rules("0.0.0.0/0");
    assert!(is_allowed(ip("203.0.113.9"), &rules, false));
    assert!(!is_allowed(ip("::1"), &rules, false));
}

#[test]
fn enc_property_reads_back() {
    assert_eq!(enc_property(true), "1");
    assert_eq!(enc_property(false), "0");
    assert!(advertises_encryption(Some(enc_property(true))));
    assert!(!advertises_encryption(Some(enc_property(false))));
    assert!(!advertises_encryption(None));
    assert!(!advertises_encryption(Some("11")));
}

#[test]
fn mdns_host_appends_local_domain() {
    assert_eq!(mdns_host("tcp-streamer-4953"), "tcp-streamer-4953.local.");
}
