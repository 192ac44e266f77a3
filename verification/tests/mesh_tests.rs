use pocket_scan::action::Action;
use pocket_scan::mesh::{inbound_text, node_label, truncate_payload, MAX_PAYLOAD_BYTES, TEXT_MESSAGE_APP};

#[test]
fn port_number_matches_meshtastic() {
    assert_eq!(meshtastic::protobufs::PortNum::TextMessageApp as i32, TEXT_MESSAGE_APP);
}

#[test]
fn short_payload_is_unchanged() {
    assert_eq!(truncate_payload(""), "");
    assert_eq!(truncate_payload("https://qrstud.io/qrmnky"), "https://qrstud.io/qrmnky");
    let exact = "x".repeat(MAX_PAYLOAD_BYTES);
    assert_eq!(truncate_payload(&exact), exact);
}

#[test]
fn long_payload_is_cut_with_ellipsis() {
    let long = "a".repeat(250);
    let out = truncate_payload(&long);
    assert_eq!(out, format!("{}…", "a".repeat(200)));
    assert_eq!(out.len(), 203);
}

#[test]
fn cut_lands_on_a_char_boundary() {
    // 199 ASCII bytes, then a 2-byte 'é' that straddles the 200-byte limit
    let s = format!("{}é{}", "a".repeat(199), "b".repeat(10));
    assert_eq!(truncate_payload(&s), format!("{}…", "a".repeat(199)));
    // 198 ASCII bytes, then 'é' ends exactly at 200
    let s = format!("{}é{}", "a".repeat(198), "b".repeat(10));
    assert_eq!(truncate_payload(&s), format!("{}é…", "a".repeat(198)));
    // a 4-byte character straddling the limit
    let s = format!("{}😀tail", "a".repeat(198));
    assert_eq!(truncate_payload(&s), format!("{}…", "a".repeat(198)));
}

#[test]
fn node_labels() {
    assert_eq!(node_label(0xdeadbeef), "!deadbeef");
    assert_eq!(node_label(1), "!00000001");
    assert_eq!(node_label(0), "!00000000");
    assert_eq!(node_label(0x1234abcd), format!("!{:08x}", 0x1234abcdu32));
}

#[test]
fn inbound_text_messages() {
    assert_eq!(
        inbound_text(0x12, TEXT_MESSAGE_APP, b"hi there"),
        Some(Action::MeshRx { from: "!00000012".to_string(), text: "hi there".to_string() })
    );
    assert_eq!(inbound_text(0x12, 3, b"position"), None);
    assert_eq!(
        inbound_text(7, TEXT_MESSAGE_APP, &[b'o', b'k', 0xff]),
        Some(Action::MeshRx { from: "!00000007".to_string(), text: "ok\u{fffd}".to_string() })
    );
}

#[test]
fn cutting_twice_is_cutting_once() {
    let cases = vec![
        String::new(),
        "a".repeat(250),
        format!("{}é{}", "a".repeat(199), "b".repeat(10)),
        format!("{}é{}", "a".repeat(198), "b".repeat(10)),
        format!("{}😀tail", "a".repeat(198)),
        format!("{}😀tail", "a".repeat(197)),
        "€".repeat(100),
    ];
    for s in cases {
        let once = truncate_payload(&s);
        assert_eq!(truncate_payload(&once), once);
    }
}

#[test]
fn cut_keeps_at_least_197_bytes() {
    for prefix in 190..=200 {
        let s = format!("{}😀{}", "a".repeat(prefix), "z".repeat(40));
        let out = truncate_payload(&s);
        let kept = out.len() - '…'.len_utf8();
        assert!(out.ends_with('…'));
        assert!((197..=200).contains(&kept), "prefix {prefix}: kept {kept}");
        assert!(s.starts_with(&out[..kept]));
    }
}
