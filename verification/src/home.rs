//! The dashboard state of the terminal user interface: what each action does
//! to it, and what the screen shows.
use vstd::prelude::*;
use vstd::string::*;
use crate::action::Action;
use crate::text::{contains_seq, decimal, first_chars, push_decimal, str_contains, take_chars};

verus! {

/// Shortest time a picture frame stays on screen (30 ms, in nanoseconds).
pub const MIN_FRAME_NANOS: u64 = 30_000_000;

/// Log lines show at most this many characters of a message.
pub const SHORT_CHARS: usize = 48;

/// What the screen is busy with.
#[derive(Clone, Copy, Debug, PartialEq, Eq)]
pub enum Display {
    /// Connection tiles and the log.
    Dashboard,
    /// The pocket-sand animation, started at `started`, showing `frame`
    /// since `last_advance` (times in nanoseconds on a monotonic clock).
    Sand { started: u64, frame: usize, last_advance: u64 },
}

/// The dashboard component.
pub struct Home {
    pub display: Display,
    /// How long each animation frame shows, in nanoseconds.
    pub frame_durations: Vec<u64>,
    /// Length of the whole animation, in nanoseconds.
    pub gif_total: u64,
    pub sand_count: u64,
    pub mesh_connected: bool,
    pub twitter_connected: bool,
    /// Time of the last scan.
    pub last_scan: Option<u64>,
    pub log: Vec<String>,
    /// Loading-bar animation counter.
    pub pulse: u16,
    pub x_posts: u64,
    /// What the posts cost, in cents.
    pub x_cents: u64,
}

/// The dashboard component as values.
pub struct HomeView {
    pub display: Display,
    pub frame_durations: Seq<u64>,
    pub gif_total: u64,
    pub sand_count: u64,
    pub mesh_connected: bool,
    pub twitter_connected: bool,
    pub last_scan: Option<u64>,
    pub log: Seq<Seq<char>>,
    pub pulse: u16,
    pub x_posts: u64,
    pub x_cents: u64,
}

impl View for Home {
    type V = HomeView;

    open spec fn view(&self) -> HomeView {
        HomeView {
            display: self.display,
            frame_durations: self.frame_durations@,
            gif_total: self.gif_total,
            sand_count: self.sand_count,
            mesh_connected: self.mesh_connected,
            twitter_connected: self.twitter_connected,
            last_scan: self.last_scan,
            log: self.log@.map_values(|s: String| s@),
            pulse: self.pulse,
            x_posts: self.x_posts,
            x_cents: self.x_cents,
        }
    }
}

/// Time from `start` to `now`, zero when `now` is earlier.
pub open spec fn since(start: u64, now: u64) -> int {
    if now >= start { now - start } else { 0 }
}

/// The line an action adds to the log, if any.
pub open spec fn log_line(action: Action) -> Option<Seq<char>> {
    match action {
        Action::Scan(payload) => Some("SCAN  "@ + payload@),
        Action::MeshStatus(connected) => Some(
            "MESH  "@ + if connected { "connected"@ } else { "disconnected — retrying"@ },
        ),
        Action::MeshTx { ok, text } => Some(
            "MESH  "@ + (if ok { "→ sent"@ } else { "✗ FAILED"@ }) + " "@
                + first_chars(text@, SHORT_CHARS as nat),
        ),
        Action::MeshRx { from, text } => Some(
            "MESH  ← "@ + from@ + ": "@ + first_chars(text@, SHORT_CHARS as nat),
        ),
        Action::XStatus(connected) => Some(
            "X     "@ + if connected { "creds loaded"@ } else { "no creds — idle"@ },
        ),
        Action::XTx { ok, text } => Some(
            "X     "@ + (if ok { "→ posted"@ } else { "✗"@ }) + " "@
                + first_chars(text@, SHORT_CHARS as nat),
        ),
        _ => None,
    }
}

/// What a successful post costs, in cents: 20 when its text holds a link
/// (`http`), 2 otherwise.
pub open spec fn post_cost(text: Seq<char>) -> u64 {
    if contains_seq(text, "http"@) { 20 } else { 2 }
}

impl HomeView {
    /// The animation frame index is always a frame of the animation (or the
    /// first one, before any frame is known).
    pub open spec fn wf(self) -> bool {
        match self.display {
            Display::Sand { frame, .. } => frame == 0 || frame < self.frame_durations.len(),
            Display::Dashboard => true,
        }
    }

    /// The state after `action` is handled at time `now`, log aside.
    pub open spec fn next_fields(self, action: Action, now: u64) -> HomeView {
        match action {
            Action::SandStart => HomeView {
                sand_count: (self.sand_count + 1) as u64,
                display: Display::Sand { started: now, frame: 0, last_advance: now },
                ..self
            },
            Action::Scan(_) => HomeView { last_scan: Some(now), ..self },
            Action::Tick => HomeView {
                pulse: if self.pulse == u16::MAX { 0 } else { (self.pulse + 1) as u16 },
                display: match self.display {
                    Display::Sand { started, .. } => if since(started, now) >= self.gif_total {
                        Display::Dashboard
                    } else {
                        self.display
                    },
                    Display::Dashboard => Display::Dashboard,
                },
                ..self
            },
            Action::Render => HomeView {
                display: match self.display {
                    Display::Sand { started, frame, last_advance } =>
                        if since(last_advance, now) >= self.frame_durations[frame as int] {
                            Display::Sand {
                                started,
                                frame: ((frame + 1) as int % (self.frame_durations.len() as int)) as usize,
                                last_advance: now,
                            }
                        } else {
                            self.display
                        },
                    Display::Dashboard => Display::Dashboard,
                },
                ..self
            },
            Action::MeshStatus(connected) => HomeView { mesh_connected: connected, ..self },
            Action::XStatus(connected) => HomeView { twitter_connected: connected, ..self },
            Action::XTx { ok, text } => if ok {
                HomeView {
                    x_posts: (self.x_posts + 1) as u64,
                    x_cents: (self.x_cents + post_cost(text@)) as u64,
                    ..self
                }
            } else {
                self
            },
            _ => self,
        }
    }

    /// The state after `action` is handled at time `now`.
    pub open spec fn next(self, action: Action, now: u64) -> HomeView {
        let v = self.next_fields(action, now);
        match log_line(action) {
            Some(line) => HomeView { log: self.log.push(line), ..v },
            None => v,
        }
    }

    /// Handling `action` is defined (no counter overflows, a frame to show).
    pub open spec fn can_handle(self, action: Action) -> bool {
        match action {
            Action::SandStart => self.sand_count < u64::MAX,
            Action::XTx { ok, text } => ok ==> self.x_posts < u64::MAX && self.x_cents + post_cost(text@) <= u64::MAX,
            Action::Render => self.display is Sand ==> self.frame_durations.len() > 0,
            _ => true,
        }
    }
}

/// The log only grows: an action keeps every earlier line and adds at most one.
pub proof fn lemma_log_append_only(v: HomeView, action: Action, now: u64)
    ensures
        v.log.len() <= v.next(action, now).log.len() <= v.log.len() + 1,
        v.next(action, now).log.take(v.log.len() as int) == v.log,
{
    assert(v.log.push(Seq::empty()).take(v.log.len() as int) =~= v.log);
    match log_line(action) {
        Some(line) => {
            assert(v.log.push(line).take(v.log.len() as int) =~= v.log);
        },
        None => {
            assert(v.log.take(v.log.len() as int) =~= v.log);
        },
    }
}

/// A `Render` during the animation advances the frame only once the current
/// frame has been shown for its whole duration, counted from the previous
/// advance (not from the start of the animation): before that the display is
/// unchanged; then the next frame (wrapping to the first) shows from `now` on.
pub proof fn lemma_render_advances_after_frame_duration(v: HomeView, now: u64)
    requires
        v.display matches Display::Sand { frame, .. } && frame < v.frame_durations.len(),
    ensures
        ({
            let after = v.next(Action::Render, now);
            let started = v.display->started;
            let frame = v.display->frame;
            let last_advance = v.display->last_advance;
            let shown = if now >= last_advance { now - last_advance } else { 0 };
            &&& shown < v.frame_durations[frame as int] ==> after.display == v.display
            &&& shown >= v.frame_durations[frame as int] ==> after.display == Display::Sand {
                started,
                frame: if frame + 1 == v.frame_durations.len() { 0 } else { (frame + 1) as usize },
                last_advance: now,
            }
            &&& after.log == v.log
            &&& after.frame_durations == v.frame_durations
        }),
{
    let frame = v.display->frame;
    let n = v.frame_durations.len() as int;
    if frame + 1 == n {
        assert((frame + 1) as int % n == 0) by (nonlinear_arith)
            requires frame + 1 == n, n > 0;
    } else {
        assert((frame + 1) as int % n == frame + 1) by (nonlinear_arith)
            requires 0 <= frame + 1 < n;
    }
}

/// A message line in the log shows at most `SHORT_CHARS` characters of the
/// message: its fixed head, then the first `min(SHORT_CHARS, len)` characters
/// of the text, and nothing more.
pub proof fn lemma_message_lines_are_short(action: Action)
    ensures
        ({
            let k = |t: Seq<char>| if t.len() < SHORT_CHARS { t.len() as int } else { SHORT_CHARS as int };
            &&& action matches Action::XTx { ok, text } ==> log_line(action) == Some(
                (if ok { "X     → posted "@ } else { "X     ✗ "@ }) + text@.subrange(0, k(text@)),
            )
            &&& action matches Action::MeshTx { ok, text } ==> log_line(action) == Some(
                (if ok { "MESH  → sent "@ } else { "MESH  ✗ FAILED "@ }) + text@.subrange(0, k(text@)),
            )
            &&& action matches Action::MeshRx { from, text } ==> log_line(action) == Some(
                "MESH  ← "@ + from@ + ": "@ + text@.subrange(0, k(text@)),
            )
        }),
{
    reveal_strlit("X     ");
    reveal_strlit("→ posted");
    reveal_strlit("✗");
    reveal_strlit(" ");
    reveal_strlit("X     → posted ");
    reveal_strlit("X     ✗ ");
    reveal_strlit("MESH  ");
    reveal_strlit("→ sent");
    reveal_strlit("✗ FAILED");
    reveal_strlit("MESH  → sent ");
    reveal_strlit("MESH  ✗ FAILED ");
    match action {
        Action::XTx { ok, text } => {
            assert(first_chars(text@, SHORT_CHARS as nat) =~= text@.subrange(0, if text@.len() < SHORT_CHARS { text@.len() as int } else { SHORT_CHARS as int }));
            if ok {
                assert("X     "@ + "→ posted"@ + " "@ =~= "X     → posted "@);
            } else {
                assert("X     "@ + "✗"@ + " "@ =~= "X     ✗ "@);
            }
        },
        Action::MeshTx { ok, text } => {
            assert(first_chars(text@, SHORT_CHARS as nat) =~= text@.subrange(0, if text@.len() < SHORT_CHARS { text@.len() as int } else { SHORT_CHARS as int }));
            if ok {
                assert("MESH  "@ + "→ sent"@ + " "@ =~= "MESH  → sent "@);
            } else {
                assert("MESH  "@ + "✗ FAILED"@ + " "@ =~= "MESH  ✗ FAILED "@);
            }
        },
        Action::MeshRx { from, text } => {
            assert(first_chars(text@, SHORT_CHARS as nat) =~= text@.subrange(0, if text@.len() < SHORT_CHARS { text@.len() as int } else { SHORT_CHARS as int }));
        },
        _ => {},
    }
}

/// The pocket-sand animation plays once: after `SandStart` at `t0`, a tick
/// returns to the dashboard exactly when the whole animation has had time to
/// play.
pub proof fn lemma_sand_plays_once(v: HomeView, t0: u64, t1: u64)
    requires
        t0 <= t1,
    ensures
        ({
            let playing = v.next(Action::SandStart, t0);
            let after = playing.next(Action::Tick, t1);
            &&& playing.display is Sand
            &&& (t1 - t0 >= v.gif_total <==> after.display is Dashboard)
        }),
{
}

/// Each successful post adds its cost to the running total, and a failed one
/// costs nothing.
pub proof fn lemma_post_costs(v: HomeView, ok: bool, text: String, now: u64)
    requires
        v.can_handle(Action::XTx { ok, text }),
    ensures
        v.next(Action::XTx { ok, text }, now).x_cents == v.x_cents + if ok { post_cost(text@) } else { 0 },
        v.next(Action::XTx { ok, text }, now).x_posts == v.x_posts + if ok { 1int } else { 0 },
{
}

/// The state after the actions, each handled at its time.
pub open spec fn run_actions(v: HomeView, acts: Seq<(Action, u64)>) -> HomeView
    decreases acts.len(),
{
    if acts.len() == 0 {
        v
    } else {
        run_actions(v, acts.drop_last()).next(acts.last().0, acts.last().1)
    }
}

/// Every action is handled from a state where handling it is defined.
pub open spec fn all_handled(v: HomeView, acts: Seq<(Action, u64)>) -> bool
    decreases acts.len(),
{
    acts.len() == 0 || (all_handled(v, acts.drop_last())
        && run_actions(v, acts.drop_last()).can_handle(acts.last().0))
}

/// How many of the actions report a successful post.
pub open spec fn successful_posts(acts: Seq<(Action, u64)>) -> nat
    decreases acts.len(),
{
    if acts.len() == 0 {
        0
    } else {
        successful_posts(acts.drop_last()) + if acts.last().0 matches Action::XTx { ok, .. } && ok { 1nat } else { 0 }
    }
}

/// How many of the actions start the pocket-sand animation.
pub open spec fn sand_starts(acts: Seq<(Action, u64)>) -> nat
    decreases acts.len(),
{
    if acts.len() == 0 {
        0
    } else {
        sand_starts(acts.drop_last()) + if acts.last().0 is SandStart { 1nat } else { 0 }
    }
}

/// How many of the actions add a log line.
pub open spec fn logged(acts: Seq<(Action, u64)>) -> nat
    decreases acts.len(),
{
    if acts.len() == 0 {
        0
    } else {
        logged(acts.drop_last()) + if log_line(acts.last().0) is Some { 1nat } else { 0 }
    }
}

/// Over any run of actions: the post counter counts the successful posts, the
/// sand counter the animations started, the log gains one line per reported
/// event and keeps the old ones, and the cost stays between 2 and 20 cents a
/// post when it was so before.
pub proof fn lemma_run_counts(v: HomeView, acts: Seq<(Action, u64)>)
    requires
        all_handled(v, acts),
    ensures
        run_actions(v, acts).x_posts == v.x_posts + successful_posts(acts),
        run_actions(v, acts).sand_count == v.sand_count + sand_starts(acts),
        run_actions(v, acts).log.len() == v.log.len() + logged(acts),
        run_actions(v, acts).log.take(v.log.len() as int) == v.log,
        2 * v.x_posts <= v.x_cents <= 20 * v.x_posts ==> 2 * run_actions(v, acts).x_posts
            <= run_actions(v, acts).x_cents <= 20 * run_actions(v, acts).x_posts,
    decreases acts.len(),
{
    if acts.len() > 0 {
        let prev = acts.drop_last();
        lemma_run_counts(v, prev);
        let w = run_actions(v, prev);
        lemma_log_append_only(w, acts.last().0, acts.last().1);
        let u = run_actions(v, acts);
        assert(u.log.take(w.log.len() as int) == w.log);
        assert(u.log.take(v.log.len() as int) =~= w.log.take(v.log.len() as int));
    }
}

/// From a fresh dashboard, after any run of actions: the counters count the
/// successful posts and the animations, every reported event left one log
/// line, and the posts cost between 2 and 20 cents each.
pub proof fn lemma_fresh_run_counts(acts: Seq<(Action, u64)>, v: HomeView)
    requires
        v == (HomeView {
            display: Display::Dashboard,
            frame_durations: Seq::empty(),
            gif_total: 0,
            sand_count: 0,
            mesh_connected: false,
            twitter_connected: false,
            last_scan: None,
            log: Seq::empty(),
            pulse: 0,
            x_posts: 0,
            x_cents: 0,
        }),
        all_handled(v, acts),
    ensures
        run_actions(v, acts).x_posts == successful_posts(acts),
        run_actions(v, acts).sand_count == sand_starts(acts),
        run_actions(v, acts).log.len() == logged(acts),
        2 * run_actions(v, acts).x_posts <= run_actions(v, acts).x_cents <= 20 * run_actions(v, acts).x_posts,
{
    lemma_run_counts(v, acts);
}

/// The line an action adds to the log, if any.
fn log_line_text(action: &Action) -> (line: Option<String>)
    ensures
        line is Some <==> log_line(*action) is Some,
        line matches Some(l) ==> log_line(*action) == Some(l@),
{
    match action {
        Action::Scan(payload) => {
            let mut l = String::from_str("SCAN  ");
            l.append(payload.as_str());
            Some(l)
        },
        Action::MeshStatus(connected) => {
            let mut l = String::from_str("MESH  ");
            l.append(if *connected { "connected" } else { "disconnected — retrying" });
            Some(l)
        },
        Action::MeshTx { ok, text } => {
            let short = take_chars(text.as_str(), SHORT_CHARS);
            let mut l = String::from_str("MESH  ");
            l.append(if *ok { "→ sent" } else { "✗ FAILED" });
            l.append(" ");
            l.append(short.as_str());
            Some(l)
        },
        Action::MeshRx { from, text } => {
            let short = take_chars(text.as_str(), SHORT_CHARS);
            let mut l = String::from_str("MESH  ← ");
            l.append(from.as_str());
            l.append(": ");
            l.append(short.as_str());
            Some(l)
        },
        Action::XStatus(connected) => {
            let mut l = String::from_str("X     ");
            l.append(if *connected { "creds loaded" } else { "no creds — idle" });
            Some(l)
        },
        Action::XTx { ok, text } => {
            let short = take_chars(text.as_str(), SHORT_CHARS);
            let mut l = String::from_str("X     ");
            l.append(if *ok { "→ posted" } else { "✗" });
            l.append(" ");
            l.append(short.as_str());
            Some(l)
        },
        _ => None,
    }
}

impl Home {
    /// A dashboard with everything offline, no animation frames and an empty log.
    pub fn new() -> (h: Home)
        ensures
            h@ == (HomeView {
                display: Display::Dashboard,
                frame_durations: Seq::empty(),
                gif_total: 0,
                sand_count: 0,
                mesh_connected: false,
                twitter_connected: false,
                last_scan: None,
                log: Seq::empty(),
                pulse: 0,
                x_posts: 0,
                x_cents: 0,
            }),
            h@.wf(),
    {
        let h = Home {
            display: Display::Dashboard,
            frame_durations: Vec::new(),
            gif_total: 0,
            sand_count: 0,
            mesh_connected: false,
            twitter_connected: false,
            last_scan: None,
            log: Vec::new(),
            pulse: 0,
            x_posts: 0,
            x_cents: 0,
        };
        assert(h@.log =~= Seq::<Seq<char>>::empty());
        h
    }

    /// Adds an animation frame that lasts `duration` nanoseconds, or 30 ms
    /// when it is shorter than that.
    pub fn push_frame(&mut self, duration: u64)
        requires
            old(self)@.wf(),
            old(self).gif_total + (if duration < MIN_FRAME_NANOS { MIN_FRAME_NANOS } else { duration }) <= u64::MAX,
        ensures
            final(self)@.wf(),
            final(self)@ == (HomeView {
                frame_durations: old(self)@.frame_durations.push(
                    if duration < MIN_FRAME_NANOS { MIN_FRAME_NANOS } else { duration },
                ),
                gif_total: (old(self).gif_total + (if duration < MIN_FRAME_NANOS { MIN_FRAME_NANOS } else { duration })) as u64,
                ..old(self)@
            }),
    {
        let d = if duration < MIN_FRAME_NANOS { MIN_FRAME_NANOS } else { duration };
        self.frame_durations.push(d);
        self.gif_total = self.gif_total + d;
    }

    /// Handles an action at time `now` (nanoseconds on a monotonic clock):
    /// counters, connection flags, the animation and the log.
    pub fn update(&mut self, action: Action, now: u64)
        requires
            old(self)@.wf(),
            old(self)@.can_handle(action),
        ensures
            final(self)@.wf(),
            final(self)@ == old(self)@.next(action, now),
    {
        let line = log_line_text(&action);
        match action {
            Action::SandStart => {
                self.sand_count = self.sand_count + 1;
                self.display = Display::Sand { started: now, frame: 0, last_advance: now };
            },
            Action::Scan(_) => {
                self.last_scan = Some(now);
            },
            Action::Tick => {
                self.pulse = self.pulse.wrapping_add(1);
                if let Display::Sand { started, .. } = self.display {
                    if now.saturating_sub(started) >= self.gif_total {
                        self.display = Display::Dashboard;
                    }
                }
            },
            Action::Render => {
                if let Display::Sand { started, frame, last_advance } = self.display {
                    if now.saturating_sub(last_advance) >= self.frame_durations[frame] {
                        let n = self.frame_durations.len();
                        self.display = Display::Sand { started, frame: (frame + 1) % n, last_advance: now };
                    }
                }
            },
            Action::MeshStatus(connected) => {
                self.mesh_connected = connected;
            },
            Action::XStatus(connected) => {
                self.twitter_connected = connected;
            },
            Action::XTx { ok, text } => {
                if ok {
                    self.x_posts = self.x_posts + 1;
                    let cost: u64 = if str_contains(text.as_str(), "http") { 20 } else { 2 };
                    self.x_cents = self.x_cents + cost;
                }
            },
            _ => {},
        }
        if let Some(l) = line {
            let ghost before = self.log@;
            self.log.push(l);
            assert(self.log@.map_values(|s: String| s@) =~= before.map_values(|s: String| s@).push(l@));
        }
    }
}

/// What the screen shows.
pub enum Screen {
    /// The animation is on: this frame covers the whole screen.
    SandFrame(usize),
    /// The animation is on but no frame is loaded: nothing is drawn.
    Blank,
    /// The connection tiles and the log pane.
    Dashboard {
        /// Detail line of the radio tile.
        mesh_detail: String,
        /// Log lines that fit in the pane, newest first.
        log_lines: Vec<String>,
    },
}

/// The last `rows` lines of `log` (all of it when shorter), newest first.
pub open spec fn newest_first(log: Seq<Seq<char>>, rows: nat) -> Seq<Seq<char>> {
    let k = if rows < log.len() { rows } else { log.len() };
    Seq::new(k, |i: int| log[log.len() - 1 - i])
}

/// Rows of a bordered pane of the given height that hold text.
pub open spec fn inner_rows(height: u16) -> nat {
    if height >= 2 { (height - 2) as nat } else { 0 }
}

impl Home {
    /// What to draw when the log pane is `log_height` rows high (borders included).
    pub fn screen(&self, log_height: u16) -> (s: Screen)
        requires
            self@.wf(),
        ensures
            match self.display {
                Display::Sand { frame, .. } => if self.frame_durations.len() > 0 {
                    s == Screen::SandFrame(frame) && frame < self.frame_durations.len()
                } else {
                    s is Blank
                },
                Display::Dashboard => s matches Screen::Dashboard { mesh_detail, log_lines }
                    && mesh_detail@ == "sand thrown: "@ + decimal(self.sand_count as nat)
                    && log_lines@.map_values(|l: String| l@) == newest_first(self@.log, inner_rows(log_height)),
            },
    {
        match self.display {
            Display::Sand { frame, .. } => {
                if self.frame_durations.len() > 0 {
                    Screen::SandFrame(frame)
                } else {
                    Screen::Blank
                }
            },
            Display::Dashboard => {
                let mut detail = String::from_str("sand thrown: ");
                push_decimal(&mut detail, self.sand_count);
                let rows = log_height.saturating_sub(2) as usize;
                let n = self.log.len();
                let k = if rows < n { rows } else { n };
                let ghost log = self@.log;
                let mut lines: Vec<String> = Vec::new();
                let mut i: usize = 0;
                while i < k
                    invariant
                        n == self.log@.len(),
                        log == self@.log,
                        k <= n,
                        i <= k,
                        lines@.len() == i,
                        forall|j: int| 0 <= j < i ==> #[trigger] lines@[j]@ == log[n - 1 - j],
                    decreases k - i,
                {
                    let line = self.log[n - 1 - i].clone();
                    lines.push(line);
                    i += 1;
                }
                assert(lines@.map_values(|l: String| l@) =~= newest_first(log, inner_rows(log_height)));
                Screen::Dashboard { mesh_detail: detail, log_lines: lines }
            },
        }
    }
}

impl Default for Home {
    fn default() -> (h: Home)
        ensures
            h@ == (HomeView {
                display: Display::Dashboard,
                frame_durations: Seq::empty(),
                gif_total: 0,
                sand_count: 0,
                mesh_connected: false,
                twitter_connected: false,
                last_scan: None,
                log: Seq::empty(),
                pulse: 0,
                x_posts: 0,
                x_cents: 0,
            }),
    {
        Home::new()
    }
}

} // verus!
