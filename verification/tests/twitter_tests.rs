use pocket_scan::action::Action;
use pocket_scan::text::{replace_str, str_contains, take_chars};
use pocket_scan::twitter::{
    authorization_header, cheapen, compose_tweet, oauth_base_string, oauth_header, oauth_nonce,
    oauth_signature_value, oauth_signing_key, pct, Creds, PostOutcome, Poster, MAX_POSTS_PER_DAY,
};

use base64::Engine;
use hmac::Mac;

fn creds() -> Creds {
    Creds {
        consumer_key: "xvz1evFS4wEEPTGEFPHBog".to_string(),
        consumer_secret: "kAcSOqF21Fu85e7zjz7ZN2U4ZRhfV3WpwPAoE3Z7kBw".to_string(),
        token: "370773112-GmHxMAgYyLbNEtIKZeRNFsMKPR9EyMZeS9weJAEb".to_string(),
        token_secret: "LswwdoUaIvS8ltyTt5jkRh4J50vUPVVHtR2YPi5kE".to_string(),
    }
}

#[test]
fn timestamps_in_decimal() {
    let c = creds();
    let h = authorization_header(&c, 0, "n", "s");
    assert!(h.contains("oauth_timestamp=\"0\""));
    let h = authorization_header(&c, 7, "n", "s");
    assert!(h.contains("oauth_timestamp=\"7\""));
    let h = authorization_header(&c, u64::MAX, "n", "s");
    assert!(h.contains("oauth_timestamp=\"18446744073709551615\""));
}

#[test]
fn substring_search_and_replace() {
    assert!(str_contains("see http://x", "http"));
    assert!(!str_contains("see htt", "http"));
    assert!(str_contains("abc", ""));
    assert!(!str_contains("", "a"));
    assert_eq!(replace_str("a.b.c", ".", " dot "), "a dot b dot c");
    assert_eq!(replace_str("aaaa", "aa", "b"), "bb");
    assert_eq!(replace_str("xyz", "q", "r"), "xyz");
    assert_eq!(take_chars("héllo wörld", 4), "héll");
    assert_eq!(take_chars("ab", 48), "ab");
}

#[test]
fn pct_leaves_unreserved_and_escapes_the_rest() {
    assert_eq!(pct("AZaz09-._~"), "AZaz09-._~");
    assert_eq!(pct("Hello World!"), "Hello%20World%21");
    assert_eq!(pct("a&b=c/d"), "a%26b%3Dc%2Fd");
    assert_eq!(pct("é"), "%C3%A9");
    assert_eq!(pct("☃"), "%E2%98%83");
    assert_eq!(pct(""), "");
}

#[test]
fn cheapen_defangs_links() {
    assert_eq!(cheapen("https://qrstud.io/qrmnky"), "qrstud dot io/qrmnky");
    assert_eq!(cheapen("http://example.com"), "example dot com");
    assert_eq!(cheapen("plain text"), "plain text");
    assert_eq!(cheapen("a.b.c"), "a dot b dot c");
    assert!(!cheapen("https://x.y.z/..").contains('.'));
}

#[test]
fn tweet_text_wraps_the_cheapened_payload() {
    assert_eq!(
        compose_tweet("https://qrstud.io/qrmnky"),
        "Pocket Scan!\nI just scanned this QR code at DefCon, it also sent over meshtastic:\n\nqrstud dot io/qrmnky"
    );
}

#[test]
fn nonce_is_two_hex_numbers() {
    assert_eq!(oauth_nonce(255, 16), "ff10");
    assert_eq!(oauth_nonce(0, 0), "00");
    assert_eq!(oauth_nonce(0xdeadbeef, 1234), "deadbeef4d2");
}

#[test]
fn base_string_and_signing_key() {
    let c = creds();
    let base = oauth_base_string(&c, "POST", "https://api.x.com/2/tweets", 1318622958, "abc");
    assert_eq!(
        base,
        "POST&https%3A%2F%2Fapi.x.com%2F2%2Ftweets&oauth_consumer_key%3Dxvz1evFS4wEEPTGEFPHBog%26oauth_nonce%3Dabc%26oauth_signature_method%3DHMAC-SHA1%26oauth_timestamp%3D1318622958%26oauth_token%3D370773112-GmHxMAgYyLbNEtIKZeRNFsMKPR9EyMZeS9weJAEb%26oauth_version%3D1.0"
    );
    assert_eq!(
        oauth_signing_key(&c),
        "kAcSOqF21Fu85e7zjz7ZN2U4ZRhfV3WpwPAoE3Z7kBw&LswwdoUaIvS8ltyTt5jkRh4J50vUPVVHtR2YPi5kE"
    );
}

fn reference_signature(key: &str, base: &str) -> String {
    let mut mac = hmac::Hmac::<sha1::Sha1>::new_from_slice(key.as_bytes()).unwrap();
    mac.update(base.as_bytes());
    base64::engine::general_purpose::STANDARD.encode(mac.finalize().into_bytes())
}

#[test]
fn signature_is_base64_hmac_sha1_of_the_base_string() {
    let c = creds();
    let sig = oauth_signature_value(&c, "POST", "https://api.x.com/2/tweets", 1318622958, "abc");
    let base = oauth_base_string(&c, "POST", "https://api.x.com/2/tweets", 1318622958, "abc");
    assert_eq!(sig, reference_signature(&oauth_signing_key(&c), &base));
    assert_eq!(sig.len(), 28);
}

#[test]
fn signature_follows_the_signing_key() {
    let c = Creds {
        consumer_key: String::new(),
        consumer_secret: "Jefe".to_string(),
        token: String::new(),
        token_secret: String::new(),
    };
    // The signing key is "Jefe&"; compare against the crates directly.
    let sig = oauth_signature_value(&c, "GET", "u", 0, "n");
    let base = oauth_base_string(&c, "GET", "u", 0, "n");
    assert_eq!(sig, reference_signature("Jefe&", &base));
}

#[test]
fn authorization_header_layout() {
    let c = creds();
    let h = authorization_header(&c, 1318622958, "abc", "a+b/c=");
    assert_eq!(
        h,
        "OAuth oauth_consumer_key=\"xvz1evFS4wEEPTGEFPHBog\", oauth_nonce=\"abc\", oauth_signature=\"a%2Bb%2Fc%3D\", oauth_signature_method=\"HMAC-SHA1\", oauth_timestamp=\"1318622958\", oauth_token=\"370773112-GmHxMAgYyLbNEtIKZeRNFsMKPR9EyMZeS9weJAEb\", oauth_version=\"1.0\""
    );
    let full = oauth_header(&c, "POST", "https://api.x.com/2/tweets", 1318622958, "abc");
    let sig = oauth_signature_value(&c, "POST", "https://api.x.com/2/tweets", 1318622958, "abc");
    assert_eq!(full, authorization_header(&c, 1318622958, "abc", &sig));
}

#[test]
fn poster_day_rollover_and_budget() {
    let mut p = Poster::new(3 * 86400 + 5);
    assert_eq!(p.day, 3);
    assert_eq!(p.posts_today, 0);
    assert!(p.media_id.is_none());
    assert!(!p.roll_day(3 * 86400 + 80000));
    p.posts_today = MAX_POSTS_PER_DAY;
    match p.prepare("x") {
        Err(Action::XTx { ok, text }) => {
            assert!(!ok);
            assert_eq!(text, "daily cap — dropped");
        }
        _ => panic!("expected the daily cap"),
    }
    assert!(p.roll_day(4 * 86400));
    assert_eq!(p.day, 4);
    assert_eq!(p.posts_today, 0);
    assert_eq!(p.prepare("a.b").unwrap(), compose_tweet("a.b"));
}

#[test]
fn poster_records_answers() {
    let mut p = Poster::new(0);
    let a = p.record_initial_upload("123".to_string());
    assert_eq!(a, Action::XTx { ok: true, text: "gif uploaded".to_string() });
    assert_eq!(p.media_id.as_deref(), Some("123"));

    let r = p.record_response("t1".to_string(), PostOutcome::Posted);
    assert_eq!(r.action, Action::XTx { ok: true, text: "t1".to_string() });
    assert_eq!(r.pause_secs, 3);
    assert_eq!(p.posts_today, 1);

    let r = p.record_response(
        "t2".to_string(),
        PostOutcome::Rejected {
            status: 429,
            status_text: "429 Too Many Requests".to_string(),
            body: "slow down".to_string(),
        },
    );
    assert_eq!(r.action, Action::XTx { ok: false, text: "HTTP 429 Too Many Requests".to_string() });
    assert_eq!(r.pause_secs, 63);
    assert_eq!(p.media_id.as_deref(), Some("123"));
    assert_eq!(p.posts_today, 1);

    let r = p.record_response(
        "t3".to_string(),
        PostOutcome::Rejected {
            status: 400,
            status_text: "400 Bad Request".to_string(),
            body: "{\"detail\":\"media id invalid\"}".to_string(),
        },
    );
    assert_eq!(r.action, Action::XTx { ok: false, text: "HTTP 400 Bad Request".to_string() });
    assert_eq!(r.pause_secs, 3);
    assert!(p.media_id.is_none());

    p.record_upload("456".to_string());
    assert_eq!(p.media_id.as_deref(), Some("456"));

    let r = p.record_response("t4".to_string(), PostOutcome::RequestFailed);
    assert_eq!(r.action, Action::XTx { ok: false, text: "request error".to_string() });
    assert_eq!(r.pause_secs, 3);
}

#[test]
fn pct_keeps_texts_apart() {
    assert_ne!(pct("a b"), pct("a%20b"));
    assert_eq!(pct("a%20b"), "a%2520b");
    assert_ne!(pct("é"), pct("e"));
}

#[test]
fn daily_cap_over_a_day() {
    let mut p = Poster::new(10 * 86400);
    let mut accepted = 0;
    let mut dropped = 0;
    for i in 0..320u64 {
        assert!(!p.roll_day(10 * 86400 + i));
        match p.prepare("payload") {
            Ok(text) => {
                p.record_response(text, PostOutcome::Posted);
                accepted += 1;
            }
            Err(Action::XTx { ok: false, text }) => {
                assert_eq!(text, "daily cap — dropped");
                dropped += 1;
            }
            Err(other) => panic!("unexpected {other:?}"),
        }
    }
    assert_eq!(accepted, 300);
    assert_eq!(dropped, 20);
    assert_eq!(p.posts_today, 300);
    assert!(p.roll_day(11 * 86400));
    assert_eq!(p.posts_today, 0);
    assert!(p.prepare("payload").is_ok());
}

#[test]
fn post_body_carries_the_text_and_the_picture() {
    let mut p = Poster::new(0);
    let text = "Pocket Scan!\nsaid \"hi\" \\ tab\there \u{1} é";
    let body = p.tweet_body(text);
    let v: serde_json::Value = serde_json::from_str(&body).unwrap();
    assert_eq!(v["text"].as_str(), Some(text));
    assert!(v.get("media").is_none());
    assert_eq!(body, format!("{{\"text\":{}}}", serde_json::to_string(text).unwrap()));
    assert!(body.contains("\\u0001"));

    p.record_upload("1234567890".to_string());
    let body = p.tweet_body("x");
    assert_eq!(body, "{\"text\":\"x\",\"media\":{\"media_ids\":[\"1234567890\"]}}");
    let v: serde_json::Value = serde_json::from_str(&body).unwrap();
    assert_eq!(v["media"]["media_ids"][0].as_str(), Some("1234567890"));
}

#[test]
fn stale_media_leaves_later_bodies_without_a_picture() {
    let mut p = Poster::new(0);
    p.record_upload("42".to_string());
    assert!(p.tweet_body("a").contains("media_ids"));
    let reply = p.record_response(
        "a".to_string(),
        PostOutcome::Rejected {
            status: 400,
            status_text: "400 Bad Request".to_string(),
            body: "{\"detail\":\"media id invalid\"}".to_string(),
        },
    );
    assert_eq!(reply.pause_secs, 3);
    assert_eq!(p.tweet_body("b"), "{\"text\":\"b\"}");
    p.roll_day(100);
    assert_eq!(p.tweet_body("c"), "{\"text\":\"c\"}");
}
