//! The report that can be handed on: room codes and transport figures, without
//! addresses and secrets.
use vstd::prelude::*;
use vstd::string::*;

use super::app::{AppModel, AppState};
use super::hosting::{HostingModel, PresenterView, ViewerEntryView};
use super::labels;
use super::moments::{BitrateHistory, Moment};
use super::watching::{ViewerView, WatchingModel};
use crate::protocol::SharingState;
use crate::text;

verus! {

/// What is reported of a viewer.
#[derive(Debug, PartialEq, Eq)]
pub struct ViewerReport {
    pub name: String,
    pub connected: bool,
    pub bitrate_kbps: Option<u32>,
    pub target_kbps: u32,
    pub round_trip_us: Option<u64>,
    pub packets_lost: Option<i64>,
    pub packets_sent: Option<u64>,
    pub codec: Option<String>,
}

/// What a [`ViewerReport`] holds.
#[verifier::ext_equal]
pub struct ViewerReportView {
    pub name: Seq<char>,
    pub connected: bool,
    pub bitrate_kbps: Option<u32>,
    pub target_kbps: u32,
    pub round_trip_us: Option<u64>,
    pub packets_lost: Option<i64>,
    pub packets_sent: Option<u64>,
    pub codec: Option<Seq<char>>,
}

impl View for ViewerReport {
    type V = ViewerReportView;

    open spec fn view(&self) -> ViewerReportView {
        ViewerReportView {
            name: self.name@,
            connected: self.connected,
            bitrate_kbps: self.bitrate_kbps,
            target_kbps: self.target_kbps,
            round_trip_us: self.round_trip_us,
            packets_lost: self.packets_lost,
            packets_sent: self.packets_sent,
            codec: self.codec.deep_view(),
        }
    }
}

impl DeepView for ViewerReport {
    type V = ViewerReportView;

    open spec fn deep_view(&self) -> ViewerReportView {
        self@
    }
}

impl Clone for ViewerReport {
    fn clone(&self) -> (r: Self)
        ensures
            r@ == self@,
    {
        let r = ViewerReport {
            name: self.name.clone(),
            connected: self.connected,
            bitrate_kbps: self.bitrate_kbps,
            target_kbps: self.target_kbps,
            round_trip_us: self.round_trip_us,
            packets_lost: self.packets_lost,
            packets_sent: self.packets_sent,
            codec: self.codec.clone(),
        };
        r
    }
}

/// What is reported of the watched stream.
#[derive(Debug, PartialEq, Eq)]
pub struct StreamReport {
    pub resolution: Option<String>,
    pub milli_fps: Option<u64>,
    pub codec: Option<String>,
    pub bitrate_kbps: Option<u32>,
    pub round_trip_us: Option<u64>,
    pub packets_lost: Option<i64>,
    pub packets_received: Option<u64>,
}

/// What a [`StreamReport`] holds.
#[verifier::ext_equal]
pub struct StreamReportView {
    pub resolution: Option<Seq<char>>,
    pub milli_fps: Option<u64>,
    pub codec: Option<Seq<char>>,
    pub bitrate_kbps: Option<u32>,
    pub round_trip_us: Option<u64>,
    pub packets_lost: Option<i64>,
    pub packets_received: Option<u64>,
}

impl View for StreamReport {
    type V = StreamReportView;

    open spec fn view(&self) -> StreamReportView {
        StreamReportView {
            resolution: self.resolution.deep_view(),
            milli_fps: self.milli_fps,
            codec: self.codec.deep_view(),
            bitrate_kbps: self.bitrate_kbps,
            round_trip_us: self.round_trip_us,
            packets_lost: self.packets_lost,
            packets_received: self.packets_received,
        }
    }
}

impl DeepView for StreamReport {
    type V = StreamReportView;

    open spec fn deep_view(&self) -> StreamReportView {
        self@
    }
}

impl Clone for StreamReport {
    fn clone(&self) -> (r: Self)
        ensures
            r@ == self@,
    {
        let r = StreamReport {
            resolution: self.resolution.clone(),
            milli_fps: self.milli_fps,
            codec: self.codec.clone(),
            bitrate_kbps: self.bitrate_kbps,
            round_trip_us: self.round_trip_us,
            packets_lost: self.packets_lost,
            packets_received: self.packets_received,
        };
        r
    }
}

/// What is reported.
#[derive(Debug, PartialEq, Eq)]
#[allow(inconsistent_fields)]
pub enum Report {
    Presenter {
        room: Option<String>,
        sharing: String,
        expires_in_seconds: Option<u64>,
        force_relay: bool,
        viewers: Vec<ViewerReport>,
        outgoing_kbps: Vec<u32>,
    },
    Viewer {
        room: Option<String>,
        sharing: Option<String>,
        connected: bool,
        force_relay: bool,
        stream: StreamReport,
        incoming_kbps: Vec<u32>,
    },
}

/// What a [`Report`] holds.
#[verifier::ext_equal]
#[allow(inconsistent_fields)]
pub enum ReportView {
    Presenter { room: Option<Seq<char>>, sharing: Seq<char>, expires_in_seconds: Option<u64>, force_relay: bool, viewers: Seq<ViewerReportView>, outgoing_kbps: Seq<u32> },
    Viewer { room: Option<Seq<char>>, sharing: Option<Seq<char>>, connected: bool, force_relay: bool, stream: StreamReportView, incoming_kbps: Seq<u32> },
}

impl View for Report {
    type V = ReportView;

    open spec fn view(&self) -> ReportView {
        match self {
            Report::Presenter { room, sharing, expires_in_seconds, force_relay, viewers, outgoing_kbps } => ReportView::Presenter {
                room: room.deep_view(),
                sharing: sharing@,
                expires_in_seconds: *expires_in_seconds,
                force_relay: *force_relay,
                viewers: viewers.deep_view(),
                outgoing_kbps: outgoing_kbps@,
            },
            Report::Viewer { room, sharing, connected, force_relay, stream, incoming_kbps } => ReportView::Viewer {
                room: room.deep_view(),
                sharing: sharing.deep_view(),
                connected: *connected,
                force_relay: *force_relay,
                stream: stream@,
                incoming_kbps: incoming_kbps@,
            },
        }
    }
}

impl DeepView for Report {
    type V = ReportView;

    open spec fn deep_view(&self) -> ReportView {
        self@
    }
}

/// How a share is, as the report says it.
pub open spec fn sharing_text(sharing: SharingState) -> Seq<char> {
    match sharing {
        SharingState::Idle => "idle"@,
        SharingState::Live => "live"@,
        SharingState::Paused => "paused"@,
    }
}

/// The room of a report: its short code.
pub open spec fn room_text(room: Option<Seq<char>>) -> Option<Seq<char>> {
    match room {
        Some(room) => Some(labels::code_of(room)),
        None => None,
    }
}

/// The bitrates of a history.
pub open spec fn rates(history: Seq<(Moment, u32)>) -> Seq<u32> {
    history.map_values(|sample: (Moment, u32)| sample.1)
}

/// What is reported of a viewer.
pub open spec fn viewer_of(entry: ViewerEntryView) -> ViewerReportView {
    ViewerReportView {
        name: entry.card.name,
        connected: entry.card.connected,
        bitrate_kbps: entry.card.bitrate_kbps,
        target_kbps: entry.card.target_kbps,
        round_trip_us: entry.card.round_trip_us,
        packets_lost: entry.card.packets_lost,
        packets_sent: entry.card.packets_sent,
        codec: entry.card.codec,
    }
}

/// What is reported of the hosted room.
pub open spec fn of_hosting(m: HostingModel, force_relay: bool, now: Moment) -> ReportView {
    ReportView::Presenter {
        room: room_text(m.room_id),
        sharing: sharing_text(m.sharing),
        expires_in_seconds: match m.countdown {
            Some(countdown) => Some(countdown.left(now) as u64),
            None => None,
        },
        force_relay,
        viewers: m.viewers.map_values(|entry: ViewerEntryView| viewer_of(entry)),
        outgoing_kbps: rates(m.bitrate_history),
    }
}

/// What is reported of the watched room.
pub open spec fn of_watching(m: WatchingModel, force_relay: bool) -> ReportView {
    ReportView::Viewer {
        room: room_text(m.room_code),
        sharing: match m.sharing {
            Some(sharing) => Some(sharing_text(sharing)),
            None => None,
        },
        connected: m.live,
        force_relay,
        stream: StreamReportView {
            resolution: match m.frame_size {
                Some(size) => Some(
                    text::decimal(size.0 as nat) + "x"@ + text::decimal(size.1 as nat),
                ),
                None => None,
            },
            milli_fps: m.milli_fps,
            codec: m.codec,
            bitrate_kbps: m.bitrate_kbps,
            round_trip_us: m.round_trip_us,
            packets_lost: m.packets_lost,
            packets_received: m.packets_received,
        },
        incoming_kbps: rates(m.bitrate_history),
    }
}

impl AppModel {
    /// What is reported: the hosted room, or else the watched one.
    pub open spec fn reported(self, now: Moment) -> ReportView {
        if self.presenter_view.active {
            of_hosting(self.presenter_view, self.settings.always_relay, now)
        } else {
            of_watching(self.viewer_view, self.settings.always_relay)
        }
    }
}

fn sharing_word(sharing: SharingState) -> (r: String)
    ensures
        r@ == sharing_text(sharing),
{
    match sharing {
        SharingState::Idle => "idle".to_owned(),
        SharingState::Live => "live".to_owned(),
        SharingState::Paused => "paused".to_owned(),
    }
}

fn room_code(room: &Option<String>) -> (r: Option<String>)
    ensures
        r.deep_view() == room_text(room.deep_view()),
{
    match room {
        Some(room) => Some(labels::short_code(room.as_str())),
        None => None,
    }
}

fn kbps_history(history: &BitrateHistory) -> (r: Vec<u32>)
    ensures
        r@ == rates(history@),
{
    let samples = history.samples();
    let ghost all = rates(history@);
    let mut r: Vec<u32> = Vec::new();
    for i in 0..samples.len()
        invariant
            all == rates(history@),
            samples@ == history@,
            r@ == all.take(i as int),
    {
        r.push(samples[i].1);
        assert(r@ =~= all.take(i + 1));
    }
    assert(all.take(all.len() as int) =~= all);
    r
}

fn hosting_report(view: &PresenterView, force_relay: bool, now: Moment) -> (r: Report)
    ensures
        r@ == of_hosting(view@, force_relay, now),
{
    let ghost all = view@.viewers.map_values(|entry: ViewerEntryView| viewer_of(entry));
    let mut viewers: Vec<ViewerReport> = Vec::new();
    assert(viewers.deep_view() =~= all.take(0));
    for i in 0..view.viewers.len()
        invariant
            all == view@.viewers.map_values(|entry: ViewerEntryView| viewer_of(entry)),
            viewers.deep_view() == all.take(i as int),
    {
        let ghost before = viewers.deep_view();
        let card = &view.viewers[i].card;
        assert(view.viewers@[i as int]@ == view@.viewers[i as int]);
        viewers.push(
            ViewerReport {
                name: card.name.clone(),
                connected: card.connected,
                bitrate_kbps: card.bitrate_kbps,
                target_kbps: card.target_kbps,
                round_trip_us: card.round_trip_us,
                packets_lost: card.packets_lost,
                packets_sent: card.packets_sent,
                codec: card.codec.clone(),
            },
        );
        assert(viewers.deep_view() =~= before.push(all[i as int]));
        assert(viewers.deep_view() =~= all.take(i + 1));
    }
    assert(all.take(all.len() as int) =~= all);
    let expires_in_seconds: Option<u64> = match view.countdown {
        Some(countdown) => Some(countdown.remaining_seconds(now)),
        None => None,
    };
    Report::Presenter {
        room: room_code(&view.room_id),
        sharing: sharing_word(view.sharing),
        expires_in_seconds,
        force_relay,
        viewers,
        outgoing_kbps: kbps_history(&view.bitrate_history),
    }
}

fn watching_report(view: &ViewerView, force_relay: bool) -> (r: Report)
    ensures
        r@ == of_watching(view@, force_relay),
{
    let sharing = match view.sharing {
        Some(sharing) => Some(sharing_word(sharing)),
        None => None,
    };
    let resolution = match view.frame_size {
        Some(size) => {
            let mut text = text::decimal_text(size.0 as u64);
            text.push_str("x");
            text.push_str(text::decimal_text(size.1 as u64).as_str());
            Some(text)
        },
        None => None,
    };
    Report::Viewer {
        room: room_code(&view.room_code),
        sharing,
        connected: view.live,
        force_relay,
        stream: StreamReport {
            resolution,
            milli_fps: view.milli_fps,
            codec: view.codec.clone(),
            bitrate_kbps: view.bitrate_kbps,
            round_trip_us: view.round_trip_us,
            packets_lost: view.packets_lost,
            packets_received: view.packets_received,
        },
        incoming_kbps: kbps_history(&view.bitrate_history),
    }
}

impl AppState {
    /// What is reported of the present session.
    pub fn report(&self, now: Moment) -> (r: Report)
        ensures
            r@ == self@.reported(now),
    {
        if self.presenter_view.active {
            hosting_report(&self.presenter_view, self.settings.always_relay, now)
        } else {
            watching_report(&self.viewer_view, self.settings.always_relay)
        }
    }
}

/// A report tells nothing of the link to a room, of its secrets, of chat or of
/// who waits: rooms that differ in those alone have the same report.
pub proof fn law_reports_are_redacted(
    a: HostingModel,
    b: HostingModel,
    force_relay: bool,
    now: Moment,
)
    requires
        (HostingModel {
            viewer_url: b.viewer_url,
            presenter_secret: b.presenter_secret,
            messages: b.messages,
            requests: b.requests,
            status: b.status,
            ..a
        }) == b,
    ensures
        of_hosting(a, force_relay, now) == of_hosting(b, force_relay, now),
{
}

/// Of a room id, no more than the short code is reported.
pub proof fn law_reports_shorten_rooms(
    m: HostingModel,
    other: Seq<char>,
    force_relay: bool,
    now: Moment,
)
    requires
        m.room_id is Some,
        text::head(other, 8) == text::head(m.room_id->0, 8),
    ensures
        of_hosting(HostingModel { room_id: Some(other), ..m }, force_relay, now) == of_hosting(
            m,
            force_relay,
            now,
        ),
{
}

} // verus!
