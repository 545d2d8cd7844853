//! What can be relied on in a viewer session.
use vstd::prelude::*;

use super::model;
use super::model::ViewerModel;
use super::types::{
    PlaybackEventView, ViewerActionView, ViewerCallView, ViewerCommandView, ViewerOutcomeView,
    ViewerPhase, ViewerUpdateView,
};
use crate::client::presenter::types::ConnectionState;
use crate::protocol::{ClientMessageView, ErrorCode, ServerMessageView};

verus! {

/// Answering an offer that renegotiates the connection that is up leaves the
/// playback alone: it is asked to answer, and is not closed.
pub proof fn law_renegotiation_keeps_the_playback(
    m: ViewerModel,
    source_peer_id: Seq<char>,
    sdp: Seq<char>,
    ice_restart: bool,
)
    requires
        m.has_playback,
        m.same_connection(sdp, ice_restart),
    ensures
        ({
            let (after, outcome) = m.offered(source_peer_id, sdp, ice_restart);
            &&& outcome == ViewerOutcomeView::Continue
            &&& after.has_playback
            &&& after.connection == m.connection
            &&& after.asking == Some(ViewerCallView::AcceptOffer { sdp })
            &&& after.outgoing == m.set_phase(ViewerPhase::Negotiating).outgoing
        }),
{
}

/// An offer from a rebuilt connection closes the playback and starts another
/// with the latest ICE configuration.
pub proof fn law_a_rebuilt_connection_restarts_the_playback(
    m: ViewerModel,
    source_peer_id: Seq<char>,
    sdp: Seq<char>,
    ice_restart: bool,
)
    requires
        m.has_playback,
        m.ice is Some,
        !m.same_connection(sdp, ice_restart),
    ensures
        ({
            let after = m.offered(source_peer_id, sdp, ice_restart).0;
            &&& after.outgoing.contains(ViewerActionView::ClosePlayback)
            &&& after.asking == Some(ViewerCallView::Start { configuration: m.ice->0 })
            &&& after.offer == Some(sdp)
        }),
{
    let after = m.offered(source_peer_id, sdp, ice_restart).0;
    assert(after.outgoing[after.outgoing.len() - 1] == ViewerActionView::ClosePlayback);
}

/// Two offers of one session are taken for the same connection, whether or not
/// an offer without a session came between them.
pub proof fn law_the_session_identifier_is_remembered(
    m: ViewerModel,
    peer: Seq<char>,
    first: Seq<char>,
    between: Seq<char>,
    again: Seq<char>,
)
    requires
        model::session_id(first) is Some,
        model::session_id(between) is None,
        model::session_id(again) == model::session_id(first),
    ensures
        m.offered(peer, first, false).0.same_connection(again, false),
        m.offered(peer, first, false).0.offered(peer, between, true).0.same_connection(
            again,
            false,
        ),
{
}

/// Automatic restart requests are not stacked: within the interval after one,
/// none is made but by hand.
pub proof fn law_restart_requests_are_spaced(m: ViewerModel, first: int, second: int)
    requires
        m.presenter_peer_id is Some,
        first <= second < first + model::ICE_RESTART_MIN_INTERVAL,
    ensures
        ({
            let asked = m.request_ice_restart(true, first);
            let destination_peer_id = m.presenter_peer_id->0;
            let request = ViewerActionView::Send {
                message: ClientMessageView::SignalIceRestart { destination_peer_id },
            };
            &&& asked.outgoing == m.outgoing.push(request)
            &&& asked.request_ice_restart(false, second) == asked
            &&& asked.request_ice_restart(true, second).outgoing == asked.outgoing.push(request)
        }),
{
}

/// A connection that healed before its check asks for nothing.
pub proof fn law_healed_connections_ask_for_nothing(m: ViewerModel, now: int)
    requires
        m.connection == ConnectionState::Connected,
    ensures
        m.restart_check_fired(now).outgoing == m.outgoing,
        !m.restart_check_fired(now).restart_check_pending,
{
}

/// The phase is reported only where it changes.
pub proof fn law_phases_are_reported_once(m: ViewerModel, phase: ViewerPhase)
    ensures
        m.set_phase(phase).set_phase(phase) == m.set_phase(phase),
        m.phase != phase ==> m.set_phase(phase).outgoing == m.outgoing.push(
            ViewerActionView::Report { update: ViewerUpdateView::Phase { phase } },
        ),
{
}

/// A refused message does not end the session, and changes nothing.
pub proof fn law_refusals_do_not_end_the_session(m: ViewerModel, message: ServerMessageView)
    requires
        message matches ServerMessageView::Error { code, .. } && code != ErrorCode::RoomClosed
            && code != ErrorCode::RoomExpired,
    ensures
        m.handle_message(message) == (m, ViewerOutcomeView::Continue),
{
}

/// Only what concerns this viewer ends its session: the rejection or the
/// removal of another changes nothing.
pub proof fn law_others_leave_alone(m: ViewerModel, message: ServerMessageView)
    requires
        match message {
            ServerMessageView::ViewerRejected { peer_id, .. } => m.self_peer_id != Some(peer_id),
            ServerMessageView::ViewerKicked { peer_id, .. } => m.self_peer_id != Some(peer_id),
            ServerMessageView::ViewerApproved { peer_id, .. } => m.self_peer_id != Some(peer_id),
            _ => false,
        },
    ensures
        m.handle_message(message) == (m, ViewerOutcomeView::Continue),
{
}

/// Signaling drops are ridden out while media keeps flowing: joining again
/// leaves the playback alone.
pub proof fn law_signaling_drops_keep_media(m: ViewerModel, message: ServerMessageView)
    requires
        message is AuthSucceeded,
    ensures
        m.handle_message(message).0.has_playback == m.has_playback,
        m.handle_message(message).0.connection == m.connection,
        m.handle_message(message).0.asking == m.asking,
{
}

/// Chat from before the playback goes out when it starts, in order and before
/// anything that is said later.
pub proof fn law_early_chat_is_kept(m: ViewerModel, text: Seq<char>, now: int)
    requires
        m.valid(),
        !m.has_playback,
        m.asking is None,
    ensures
        ({
            let said = m.handle_command(ViewerCommandView::Chat { text }, now).0;
            let started = (ViewerModel {
                asking: Some(ViewerCallView::Start { configuration: m.ice->0 }),
                offer: Some(Seq::empty()),
                ..said
            }).answered(None).0;
            &&& said.pending_chat.len() == m.pending_chat.len() + 1
            &&& said.pending_chat.last().text == text
            &&& started.pending_chat.len() == 0
            &&& started.outgoing.len() == m.outgoing.len() + m.pending_chat.len() + 1
            &&& started.outgoing.last() == (ViewerActionView::SendChat {
                message: said.pending_chat.last(),
            })
        }),
{
}

} // verus!
