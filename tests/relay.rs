use wakebot::address::{parse_ipv4, Ipv4};
use wakebot::cache::{resolve_output, IpCache, IpLookup};
use wakebot::dispatch::{Action, Channel, Dispatcher};
use wakebot::hex::{decode_hex, parse_mac, DecodeError, MacError};
use wakebot::reply::{ip_reply, probe_arguments, probe_reply, wake_reply, ProbeOutcome};
use wakebot::wake::magic_packet;

const OPERATOR: u64 = 220975319786586112;

fn ip(a: u8, b: u8, c: u8, d: u8) -> Ipv4 {
    Ipv4 { a, b, c, d }
}

fn relay() -> Dispatcher {
    Dispatcher::new(OPERATOR)
}

#[test]
fn decode_hex_reads_pairs_high_digit_first() {
    assert_eq!(decode_hex("12c0a7ff"), Ok(vec![0x12, 0xc0, 0xa7, 0xff]));
    assert_eq!(decode_hex("ABcd09"), Ok(vec![0xab, 0xcd, 0x09]));
    assert_eq!(decode_hex(""), Ok(vec![]));
}

#[test]
fn decode_hex_rejects_odd_length() {
    assert_eq!(decode_hex("abc"), Err(DecodeError::OddLength));
    assert_eq!(decode_hex("0"), Err(DecodeError::OddLength));
}

#[test]
fn decode_hex_rejects_non_hex() {
    assert_eq!(decode_hex("0g"), Err(DecodeError::InvalidDigit));
    assert_eq!(decode_hex("+a"), Err(DecodeError::InvalidDigit));
    assert_eq!(decode_hex("12 4"), Err(DecodeError::InvalidDigit));
    assert_eq!(decode_hex("éé"), Err(DecodeError::InvalidDigit));
}

#[test]
fn hex_round_trip_on_all_bytes() {
    let bytes: Vec<u8> = (0..=255u8).collect();
    let text: String = bytes.iter().map(|b| format!("{:02x}", b)).collect();
    assert_eq!(decode_hex(&text), Ok(bytes));
}

#[test]
fn parse_mac_needs_six_bytes() {
    assert_eq!(parse_mac("001122aabbcc"), Ok([0x00, 0x11, 0x22, 0xaa, 0xbb, 0xcc]));
    assert_eq!(parse_mac("0000000000"), Err(MacError::InvalidLength));
    assert_eq!(parse_mac(""), Err(MacError::InvalidLength));
    assert_eq!(parse_mac("00000000000000"), Err(MacError::InvalidLength));
    assert_eq!(parse_mac("00000000000"), Err(MacError::Decode(DecodeError::OddLength)));
    assert_eq!(parse_mac("00000000000z"), Err(MacError::Decode(DecodeError::InvalidDigit)));
}

#[test]
fn ipv4_parses_canonical_text() {
    assert_eq!(parse_ipv4("8.8.8.8"), Some(ip(8, 8, 8, 8)));
    assert_eq!(parse_ipv4("192.168.0.1"), Some(ip(192, 168, 0, 1)));
    assert_eq!(parse_ipv4("255.255.255.255"), Some(ip(255, 255, 255, 255)));
    assert_eq!(parse_ipv4("0.0.0.0"), Some(ip(0, 0, 0, 0)));
    assert_eq!(parse_ipv4("10.20.100.99"), Some(ip(10, 20, 100, 99)));
}

#[test]
fn ipv4_rejects_other_text() {
    for bad in [
        "", "1.2.3", "1.2.3.4.5", "256.1.1.1", "1.2.3.300", "01.2.3.4", "1.2.3.04", "1..3.4",
        "1.2.3.4\n", " 1.2.3.4", "1.2.3.", "1234.1.1.1", "a.b.c.d", "1.2.3.4 ",
    ] {
        assert_eq!(parse_ipv4(bad), None, "{:?}", bad);
    }
}

#[test]
fn ipv4_text_round_trip() {
    for a in [ip(1, 2, 3, 4), ip(0, 10, 100, 255), ip(203, 0, 113, 7)] {
        assert_eq!(parse_ipv4(&a.to_text()), Some(a));
    }
    assert_eq!(ip(0, 10, 100, 255).to_text(), "0.10.100.255");
}

#[test]
fn resolver_output_only_counts_on_success() {
    assert_eq!(resolve_output(true, "203.0.113.7"), Some(ip(203, 0, 113, 7)));
    assert_eq!(resolve_output(false, "203.0.113.7"), None);
    assert_eq!(resolve_output(true, "<html>error</html>"), None);
}

#[test]
fn empty_cache_resolves_once_then_answers_from_cache() {
    let mut cache = IpCache::new();
    assert_eq!(cache.value, None);
    assert_eq!(cache.lookup(false), IpLookup::Resolve);
    assert_eq!(cache.store(Some(ip(1, 2, 3, 4))), Some(ip(1, 2, 3, 4)));
    assert_eq!(cache.lookup(false), IpLookup::Cached(ip(1, 2, 3, 4)));
    assert_eq!(cache.lookup(false), IpLookup::Cached(ip(1, 2, 3, 4)));
}

#[test]
fn force_always_resolves_and_overwrites() {
    let mut cache = IpCache::new();
    assert_eq!(cache.lookup(true), IpLookup::Resolve);
    cache.store(Some(ip(1, 2, 3, 4)));
    assert_eq!(cache.lookup(true), IpLookup::Resolve);
    cache.store(Some(ip(5, 6, 7, 8)));
    assert_eq!(cache.value, Some(ip(5, 6, 7, 8)));
    assert_eq!(cache.store(None), None);
    assert_eq!(cache.value, None);
    assert_eq!(cache.lookup(false), IpLookup::Resolve);
}

#[test]
fn concurrent_refreshes_last_store_wins() {
    let mut cache = IpCache::new();
    assert_eq!(cache.lookup(false), IpLookup::Resolve);
    assert_eq!(cache.lookup(false), IpLookup::Resolve);
    cache.store(Some(ip(1, 1, 1, 1)));
    cache.store(Some(ip(2, 2, 2, 2)));
    assert_eq!(cache.value, Some(ip(2, 2, 2, 2)));
}

#[test]
fn ip_command_and_force_keyword() {
    let r = relay();
    assert_eq!(r.dispatch(OPERATOR, Channel::Private, "!ip"), Action::ReportIp { force: false });
    assert_eq!(r.dispatch(OPERATOR, Channel::Private, "!ip force"), Action::ReportIp { force: true });
    assert_eq!(r.dispatch(OPERATOR, Channel::Private, "!ip   force  "), Action::ReportIp { force: true });
    assert_eq!(r.dispatch(OPERATOR, Channel::Private, "!ip Force"), Action::ReportIp { force: false });
    assert_eq!(r.dispatch(OPERATOR, Channel::Private, "!ip now"), Action::ReportIp { force: false });
}

#[test]
fn wake_with_five_bytes_is_refused() {
    let r = relay();
    assert_eq!(
        r.dispatch(OPERATOR, Channel::Private, "!wake 0000000000"),
        Action::Reply("Could not parse mac".to_string())
    );
}

#[test]
fn wake_with_six_bytes_sends() {
    let r = relay();
    assert_eq!(r.dispatch(OPERATOR, Channel::Private, "!wake 000000000000"), Action::Wake([0; 6]));
    assert_eq!(
        r.dispatch(OPERATOR, Channel::Private, "!wake 0a1B2c3D4e5F"),
        Action::Wake([0x0a, 0x1b, 0x2c, 0x3d, 0x4e, 0x5f])
    );
}

#[test]
fn wake_without_or_with_bad_argument() {
    let r = relay();
    let refused = Action::Reply("Could not parse mac".to_string());
    assert_eq!(r.dispatch(OPERATOR, Channel::Private, "!wake"), refused);
    assert_eq!(r.dispatch(OPERATOR, Channel::Private, "!wake zz0000000000"), refused);
    assert_eq!(r.dispatch(OPERATOR, Channel::Private, "!wake 00000000000"), refused);
}

#[test]
fn ping_hands_target_over_verbatim() {
    let r = relay();
    assert_eq!(
        r.dispatch(OPERATOR, Channel::Private, "!ping 8.8.8.8"),
        Action::Probe("8.8.8.8".to_string())
    );
    assert_eq!(
        r.dispatch(OPERATOR, Channel::Private, "!ping a; rm -rf / && $(x)"),
        Action::Probe("a; rm -rf / && $(x)".to_string())
    );
}

#[test]
fn strangers_and_groups_are_ignored() {
    let r = relay();
    for text in ["!ip", "!ip force", "!wake 000000000000", "!ping 8.8.8.8"] {
        assert_eq!(r.dispatch(OPERATOR + 1, Channel::Private, text), Action::Ignore);
        assert_eq!(r.dispatch(OPERATOR, Channel::Group, text), Action::Ignore);
        assert_eq!(r.dispatch(7, Channel::Group, text), Action::Ignore);
    }
}

#[test]
fn unknown_or_unprefixed_messages_are_ignored() {
    let r = relay();
    for text in ["", "!", "ip", "hello", "!IP", "!ipx", "!reboot now", "?ping 1.1.1.1"] {
        assert_eq!(r.dispatch(OPERATOR, Channel::Private, text), Action::Ignore, "{:?}", text);
    }
}

#[test]
fn ip_reply_renders_present_and_absent() {
    assert_eq!(ip_reply(Some(ip(8, 8, 4, 4))), "The ip address is: Some(8.8.4.4)");
    assert_eq!(ip_reply(None), "The ip address is: None");
}

#[test]
fn wake_replies() {
    assert_eq!(wake_reply(true), "Initializing wakey wakey protocol");
    assert_eq!(wake_reply(false), "Could not wake pc");
}

#[test]
fn ping_replies() {
    let ok = ProbeOutcome::Finished {
        success: true,
        stdout: "5 packets transmitted, 5 received".to_string(),
        stderr: String::new(),
    };
    assert_eq!(probe_reply(&ok), "5 packets transmitted, 5 received");
    let failed = ProbeOutcome::Finished {
        success: false,
        stdout: "out".to_string(),
        stderr: "ping: unknown host".to_string(),
    };
    assert_eq!(probe_reply(&failed), "ping: unknown host");
    assert_eq!(probe_reply(&ProbeOutcome::LaunchFailed), "Could not execute ping");
}

#[test]
fn probe_arguments_keep_target_whole() {
    assert_eq!(probe_arguments("8.8.8.8"), vec!["-c 5".to_string(), "8.8.8.8".to_string()]);
    assert_eq!(probe_arguments("a b;c"), vec!["-c 5".to_string(), "a b;c".to_string()]);
}

#[test]
fn magic_packet_layout() {
    let mac = [0x01, 0x23, 0x45, 0x67, 0x89, 0xab];
    let p = magic_packet(&mac);
    assert_eq!(p.len(), 102);
    assert_eq!(&p[..6], &[0xff; 6]);
    for k in 0..16 {
        assert_eq!(&p[6 + 6 * k..12 + 6 * k], &mac);
    }
}
