use pocket_scan::action::Action;
use pocket_scan::home::{Display, Home, Screen, MIN_FRAME_NANOS};

const MS: u64 = 1_000_000;

fn dashboard_lines(h: &Home, rows: u16) -> Vec<String> {
    match h.screen(rows) {
        Screen::Dashboard { log_lines, .. } => log_lines,
        _ => panic!("expected the dashboard"),
    }
}

#[test]
fn starts_empty() {
    let h = Home::new();
    assert_eq!(h.display, Display::Dashboard);
    assert_eq!(h.sand_count, 0);
    assert!(h.log.is_empty());
    assert!(!h.mesh_connected && !h.twitter_connected);
    let d = Home::default();
    assert_eq!(d.x_cents, 0);
    match h.screen(10) {
        Screen::Dashboard { mesh_detail, log_lines } => {
            assert_eq!(mesh_detail, "sand thrown: 0");
            assert!(log_lines.is_empty());
        }
        _ => panic!("expected the dashboard"),
    }
}

#[test]
fn frames_have_a_minimum_duration() {
    let mut h = Home::new();
    h.push_frame(10 * MS);
    h.push_frame(100 * MS);
    assert_eq!(h.frame_durations, vec![MIN_FRAME_NANOS, 100 * MS]);
    assert_eq!(h.gif_total, 130 * MS);
}

#[test]
fn sand_animation_plays_and_ends() {
    let mut h = Home::new();
    h.push_frame(50 * MS);
    h.push_frame(50 * MS);
    h.update(Action::SandStart, 1000 * MS);
    assert_eq!(h.sand_count, 1);
    assert_eq!(h.display, Display::Sand { started: 1000 * MS, frame: 0, last_advance: 1000 * MS });
    assert!(matches!(h.screen(10), Screen::SandFrame(0)));
    h.update(Action::Render, 1020 * MS);
    assert_eq!(h.display, Display::Sand { started: 1000 * MS, frame: 0, last_advance: 1000 * MS });
    h.update(Action::Render, 1050 * MS);
    assert_eq!(h.display, Display::Sand { started: 1000 * MS, frame: 1, last_advance: 1050 * MS });
    h.update(Action::Render, 1100 * MS);
    assert_eq!(h.display, Display::Sand { started: 1000 * MS, frame: 0, last_advance: 1100 * MS });
    h.update(Action::Tick, 1099 * MS);
    assert!(matches!(h.display, Display::Sand { .. }));
    assert_eq!(h.pulse, 1);
    h.update(Action::Tick, 1100 * MS);
    assert_eq!(h.display, Display::Dashboard);
    assert_eq!(h.pulse, 2);
}

#[test]
fn sand_without_frames_draws_nothing() {
    let mut h = Home::new();
    h.update(Action::SandStart, 5);
    assert!(matches!(h.screen(10), Screen::Blank));
    h.update(Action::Tick, 5);
    assert_eq!(h.display, Display::Dashboard);
}

#[test]
fn pulse_wraps() {
    let mut h = Home::new();
    h.pulse = u16::MAX;
    h.update(Action::Tick, 0);
    assert_eq!(h.pulse, 0);
}

#[test]
fn log_lines_for_each_report() {
    let mut h = Home::new();
    h.update(Action::Scan("https://qrstud.io/qrmnky".to_string()), 7);
    assert_eq!(h.last_scan, Some(7));
    h.update(Action::MeshStatus(true), 8);
    h.update(Action::MeshStatus(false), 8);
    assert!(!h.mesh_connected);
    h.update(Action::MeshTx { ok: true, text: "hello".to_string() }, 9);
    h.update(Action::MeshTx { ok: false, text: "x".repeat(60) }, 9);
    h.update(Action::MeshRx { from: "!00000012".to_string(), text: "yo".to_string() }, 9);
    h.update(Action::XStatus(true), 9);
    assert!(h.twitter_connected);
    h.update(Action::XStatus(false), 9);
    h.update(Action::XTx { ok: true, text: "see https://a.b".to_string() }, 9);
    h.update(Action::XTx { ok: true, text: "see a dot b".to_string() }, 9);
    h.update(Action::XTx { ok: false, text: "HTTP 500".to_string() }, 9);
    h.update(Action::Quit, 9);
    assert_eq!(
        h.log,
        vec![
            "SCAN  https://qrstud.io/qrmnky".to_string(),
            "MESH  connected".to_string(),
            "MESH  disconnected — retrying".to_string(),
            "MESH  → sent hello".to_string(),
            format!("MESH  ✗ FAILED {}", "x".repeat(48)),
            "MESH  ← !00000012: yo".to_string(),
            "X     creds loaded".to_string(),
            "X     no creds — idle".to_string(),
            "X     → posted see https://a.b".to_string(),
            "X     → posted see a dot b".to_string(),
            "X     ✗ HTTP 500".to_string(),
        ]
    );
    assert_eq!(h.x_posts, 2);
    assert_eq!(h.x_cents, 22);
}

#[test]
fn dashboard_shows_newest_lines_that_fit() {
    let mut h = Home::new();
    for i in 0..5 {
        h.update(Action::Scan(format!("p{i}")), i);
    }
    h.update(Action::SandStart, 10);
    h.update(Action::Tick, 10);
    assert_eq!(dashboard_lines(&h, 5), vec!["SCAN  p4", "SCAN  p3", "SCAN  p2"]);
    assert_eq!(dashboard_lines(&h, 2), Vec::<String>::new());
    assert_eq!(dashboard_lines(&h, 0), Vec::<String>::new());
    assert_eq!(dashboard_lines(&h, 100).len(), 5);
    match h.screen(4) {
        Screen::Dashboard { mesh_detail, .. } => assert_eq!(mesh_detail, "sand thrown: 1"),
        _ => panic!("expected the dashboard"),
    }
}

#[test]
fn counters_follow_the_actions() {
    let mut h = Home::new();
    let actions = vec![
        Action::SandStart,
        Action::XTx { ok: true, text: "http://x".to_string() },
        Action::Tick,
        Action::XTx { ok: false, text: "no".to_string() },
        Action::SandStart,
        Action::XTx { ok: true, text: "plain".to_string() },
        Action::Render,
        Action::Resize(1, 2),
    ];
    let mut t = 0;
    for a in actions {
        t += 1;
        if matches!(a, Action::Render) && matches!(h.display, Display::Sand { .. }) && h.frame_durations.is_empty() {
            continue;
        }
        h.update(a, t);
    }
    assert_eq!(h.sand_count, 2);
    assert_eq!(h.x_posts, 2);
    assert_eq!(h.x_cents, 22);
    assert!(2 * h.x_posts <= h.x_cents && h.x_cents <= 20 * h.x_posts);
    assert_eq!(h.log.len(), 3);
}

#[test]
fn cheap_post_fits_at_the_top_of_the_cost_counter() {
    let mut h = Home::new();
    h.x_cents = u64::MAX - 2;
    h.update(Action::XTx { ok: true, text: "plain".to_string() }, 1);
    assert_eq!(h.x_cents, u64::MAX);
    assert_eq!(h.x_posts, 1);
}
