//! The focus tracker: from focus notifications to heartbeats.
//!
//! The tracker remembers the interval that is open, that is the window
//! believed to hold focus and since when. Each notification that a window
//! took focus closes that interval with a merge heartbeat, opens a new one,
//! and reports that the user is at the keyboard.

use vstd::prelude::*;
use vstd::string::StringExecFns;

verus! {

/// Extra time, in milliseconds, by which a closed interval may reach past
/// its last known timestamp, so that close notifications merge.
pub const MERGE_GRACE_MS: i128 = 1000;

/// Pulse window, in milliseconds, of every "not away" heartbeat.
pub const AFK_PULSE_MS: i128 = 120000;

/// The two buckets that heartbeats go to.
#[derive(Debug, Clone, Copy, PartialEq, Eq, Structural)]
pub enum BucketKind {
    /// The "current window" bucket.
    Window,
    /// The "away from keyboard" bucket.
    Afk,
}

/// What a heartbeat reports.
#[derive(Debug, Clone)]
pub enum Activity {
    /// The window of application `app` with title `title` holds focus.
    Window { app: String, title: String },
    /// The user is not away from the keyboard.
    NotAfk,
}

/// Model of an [`Activity`].
pub ghost enum ActivityView {
    Window { app: Seq<char>, title: Seq<char> },
    NotAfk,
}

impl View for Activity {
    type V = ActivityView;

    open spec fn view(&self) -> ActivityView {
        match self {
            Activity::Window { app, title } => ActivityView::Window { app: app@, title: title@ },
            Activity::NotAfk => ActivityView::NotAfk,
        }
    }
}

/// The attributes, as key and value, that a heartbeat of `a` carries.
pub open spec fn attributes_of(a: ActivityView) -> Seq<(Seq<char>, Seq<char>)> {
    match a {
        ActivityView::Window { app, title } => seq![("app"@, app), ("title"@, title)],
        ActivityView::NotAfk => seq![("status"@, "not-afk"@)],
    }
}

impl Activity {
    /// The attributes, as key and value, that a heartbeat of this activity
    /// carries: `app` and `title` for a window, `status` = `not-afk` else.
    pub fn attributes(&self) -> (r: Vec<(String, String)>)
        ensures
            r@.len() == attributes_of(self@).len(),
            forall|i: int|
                0 <= i < r@.len() ==> (#[trigger] r@[i]).0@ == attributes_of(self@)[i].0
                    && r@[i].1@ == attributes_of(self@)[i].1,
    {
        let mut r: Vec<(String, String)> = Vec::new();
        match self {
            Activity::Window { app, title } => {
                r.push(("app".to_owned(), app.clone()));
                r.push(("title".to_owned(), title.clone()));
            },
            Activity::NotAfk => {
                r.push(("status".to_owned(), "not-afk".to_owned()));
            },
        }
        r
    }
}

/// A heartbeat to submit: at `timestamp_ms` (milliseconds since the Unix
/// epoch), with a merge window of `pulsetime_ms` milliseconds.
#[derive(Debug, Clone)]
pub struct Heartbeat {
    pub bucket: BucketKind,
    pub timestamp_ms: i64,
    pub pulsetime_ms: i128,
    pub activity: Activity,
}

/// Model of a [`Heartbeat`].
pub ghost struct HeartbeatView {
    pub bucket: BucketKind,
    pub timestamp_ms: int,
    pub pulsetime_ms: int,
    pub activity: ActivityView,
}

impl View for Heartbeat {
    type V = HeartbeatView;

    open spec fn view(&self) -> HeartbeatView {
        HeartbeatView {
            bucket: self.bucket,
            timestamp_ms: self.timestamp_ms as int,
            pulsetime_ms: self.pulsetime_ms as int,
            activity: self.activity@,
        }
    }
}

/// The interval that is open: the window that holds focus, since `start_ms`.
#[derive(Debug, Clone)]
pub struct Interval {
    pub start_ms: i64,
    pub app_name: String,
    pub title: String,
}

/// Model of an [`Interval`].
pub ghost struct IntervalView {
    pub start_ms: int,
    pub app_name: Seq<char>,
    pub title: Seq<char>,
}

impl View for Interval {
    type V = IntervalView;

    open spec fn view(&self) -> IntervalView {
        IntervalView { start_ms: self.start_ms as int, app_name: self.app_name@, title: self.title@ }
    }
}

/// A focus notification, as read from a payload.
#[derive(Debug, Clone)]
pub struct WindowEvent {
    pub focused: bool,
    pub window_class: String,
    pub window_title: String,
}

/// Whether `beats` are, one by one, the heartbeats that `plan` models.
pub open spec fn beats_match(beats: Seq<Heartbeat>, plan: Seq<HeartbeatView>) -> bool {
    &&& beats.len() == plan.len()
    &&& forall|i: int| 0 <= i < beats.len() ==> #[trigger] beats[i]@ == plan[i]
}

/// Merge window that closes an interval opened at `start_ms` at `now_ms`.
pub open spec fn merge_pulsetime(start_ms: int, now_ms: int) -> int {
    now_ms - start_ms + MERGE_GRACE_MS
}

/// The heartbeat that closes `prev` at `now_ms`.
pub open spec fn merge_beat(prev: IntervalView, now_ms: int) -> HeartbeatView {
    HeartbeatView {
        bucket: BucketKind::Window,
        timestamp_ms: now_ms,
        pulsetime_ms: merge_pulsetime(prev.start_ms, now_ms),
        activity: ActivityView::Window { app: prev.app_name, title: prev.title },
    }
}

/// The zero-length heartbeat that opens an interval on `app`/`title`.
pub open spec fn open_beat(app: Seq<char>, title: Seq<char>, now_ms: int) -> HeartbeatView {
    HeartbeatView {
        bucket: BucketKind::Window,
        timestamp_ms: now_ms,
        pulsetime_ms: 0,
        activity: ActivityView::Window { app, title },
    }
}

/// The "not away" heartbeat at `now_ms`.
pub open spec fn afk_beat(now_ms: int) -> HeartbeatView {
    HeartbeatView {
        bucket: BucketKind::Afk,
        timestamp_ms: now_ms,
        pulsetime_ms: AFK_PULSE_MS as int,
        activity: ActivityView::NotAfk,
    }
}

/// The heartbeats that a focus change to `app`/`title` at `now_ms` gives,
/// in the order of submission: the merge heartbeat of the previous
/// interval if there is one, the opening heartbeat, the "not away" one.
pub open spec fn focus_beats(
    prev: Option<IntervalView>,
    app: Seq<char>,
    title: Seq<char>,
    now_ms: int,
) -> Seq<HeartbeatView> {
    match prev {
        Some(p) => seq![merge_beat(p, now_ms), open_beat(app, title, now_ms), afk_beat(now_ms)],
        None => seq![open_beat(app, title, now_ms), afk_beat(now_ms)],
    }
}

/// The interval that a focus change to `app`/`title` at `now_ms` opens.
pub open spec fn opened(app: Seq<char>, title: Seq<char>, now_ms: int) -> IntervalView {
    IntervalView { start_ms: now_ms, app_name: app, title }
}

/// Tracks the open interval across focus notifications.
#[derive(Debug, Clone)]
pub struct FocusTracker {
    pub previous: Option<Interval>,
}

impl FocusTracker {
    /// Model of the open interval, if any.
    pub open spec fn previous_view(&self) -> Option<IntervalView> {
        match self.previous {
            Some(i) => Some(i@),
            None => None,
        }
    }

    /// A tracker with no open interval.
    pub fn new() -> (r: FocusTracker)
        ensures
            r.previous_view() == None::<IntervalView>,
    {
        FocusTracker { previous: None }
    }

    /// Handles one notification at `now_ms`. One whose window is not
    /// focused gives nothing and changes nothing. Otherwise the previous
    /// interval, if any, is closed, a new one is opened on the event's
    /// window, and the heartbeats to submit come back in order.
    pub fn handle_event(&mut self, event: &WindowEvent, now_ms: i64) -> (beats: Vec<Heartbeat>)
        ensures
            !event.focused ==> beats@.len() == 0 && *final(self) == *old(self),
            event.focused ==> beats_match(
                beats@,
                focus_beats(
                    old(self).previous_view(),
                    event.window_class@,
                    event.window_title@,
                    now_ms as int,
                ),
            ),
            event.focused ==> final(self).previous_view() == Some(
                opened(event.window_class@, event.window_title@, now_ms as int),
            ),
    {
        let mut beats: Vec<Heartbeat> = Vec::new();
        if !event.focused {
            return beats;
        }
        match &self.previous {
            Some(prev) => {
                let pulsetime = now_ms as i128 - prev.start_ms as i128 + MERGE_GRACE_MS;
                beats.push(
                    Heartbeat {
                        bucket: BucketKind::Window,
                        timestamp_ms: now_ms,
                        pulsetime_ms: pulsetime,
                        activity: Activity::Window {
                            app: prev.app_name.clone(),
                            title: prev.title.clone(),
                        },
                    },
                );
            },
            None => {},
        }
        beats.push(
            Heartbeat {
                bucket: BucketKind::Window,
                timestamp_ms: now_ms,
                pulsetime_ms: 0,
                activity: Activity::Window {
                    app: event.window_class.clone(),
                    title: event.window_title.clone(),
                },
            },
        );
        beats.push(
            Heartbeat {
                bucket: BucketKind::Afk,
                timestamp_ms: now_ms,
                pulsetime_ms: AFK_PULSE_MS,
                activity: Activity::NotAfk,
            },
        );
        self.previous = Some(
            Interval {
                start_ms: now_ms,
                app_name: event.window_class.clone(),
                title: event.window_title.clone(),
            },
        );
        beats
    }
}

/// Every focus change plans the "not away" heartbeat, last, after the
/// window heartbeats: the plan is whole before anything is submitted, so a
/// window heartbeat that the sink refuses cannot take it out.
pub proof fn lemma_afk_always_planned(
    prev: Option<IntervalView>,
    app: Seq<char>,
    title: Seq<char>,
    now_ms: int,
)
    ensures
        focus_beats(prev, app, title, now_ms).last() == afk_beat(now_ms),
        forall|i: int|
            0 <= i < focus_beats(prev, app, title, now_ms).len() - 1 ==> (#[trigger] focus_beats(
                prev,
                app,
                title,
                now_ms,
            )[i]).bucket == BucketKind::Window,
{
}

/// Prefix of the identifier of the bucket of `kind`, before the host name.
pub open spec fn bucket_prefix(kind: BucketKind) -> Seq<char> {
    match kind {
        BucketKind::Window => "aw-watcher-window_"@,
        BucketKind::Afk => "aw-watcher-afk_"@,
    }
}

/// The identifier of the bucket of `kind` on host `hostname`.
pub fn bucket_id(kind: BucketKind, hostname: &str) -> (r: String)
    ensures
        r@ == bucket_prefix(kind) + hostname@,
{
    let mut id = match kind {
        BucketKind::Window => "aw-watcher-window_".to_owned(),
        BucketKind::Afk => "aw-watcher-afk_".to_owned(),
    };
    id.append(hostname);
    id
}

} // verus!
