//! What the window shows of friends.
use vstd::prelude::*;
use vstd::string::*;

use crate::client::presence::{
    PresenceConfig, PresenceConfigView, PresenceEvent, PresenceEventView, PresenceState,
};
use crate::clock;
use crate::protocol::{
    FriendPresence, FriendPresenceView, HostedRoom, HostedRoomView, SharingState,
};
use crate::seqs;
use crate::sorting;
use crate::text;

verus! {

/// Someone on the contact list.
#[derive(Debug, PartialEq, Eq)]
pub struct Contact {
    pub code: String,
    pub name: String,
    /// Whether they have yet to add this identity back.
    pub pending: bool,
}

/// What a [`Contact`] holds.
#[verifier::ext_equal]
pub struct ContactView {
    pub code: Seq<char>,
    pub name: Seq<char>,
    pub pending: bool,
}

impl View for Contact {
    type V = ContactView;

    open spec fn view(&self) -> ContactView {
        ContactView {
            code: self.code@,
            name: self.name@,
            pending: self.pending,
        }
    }
}

impl DeepView for Contact {
    type V = ContactView;

    open spec fn deep_view(&self) -> ContactView {
        self@
    }
}

impl Clone for Contact {
    fn clone(&self) -> (r: Self)
        ensures
            r@ == self@,
    {
        let r = Contact {
            code: self.code.clone(),
            name: self.name.clone(),
            pending: self.pending,
        };
        r
    }
}

/// The latest presence of friends.
pub struct PresenceView {
    /// The friends that were seen, each once.
    pub friends: Vec<FriendPresence>,
    /// The code of this identity, as the server derived it.
    pub self_code: Option<String>,
    pub connected: bool,
    /// The codes that wait to be added back.
    pub requests: Vec<String>,
}

/// What a [`PresenceView`] holds.
#[verifier::ext_equal]
pub struct FriendsModel {
    pub friends: Seq<FriendPresenceView>,
    pub self_code: Option<Seq<char>>,
    pub connected: bool,
    pub requests: Seq<Seq<char>>,
}

impl View for PresenceView {
    type V = FriendsModel;

    open spec fn view(&self) -> FriendsModel {
        FriendsModel {
            friends: self.friends.deep_view(),
            self_code: self.self_code.deep_view(),
            connected: self.connected,
            requests: self.requests.deep_view(),
        }
    }
}

impl DeepView for PresenceView {
    type V = FriendsModel;

    open spec fn deep_view(&self) -> FriendsModel {
        self@
    }
}

/// A room that a friend has open.
#[derive(Debug, PartialEq, Eq)]
pub struct LiveRow {
    pub name: String,
    pub viewer_url: String,
    pub viewer_count: u32,
    pub sharing: SharingState,
}

/// What a [`LiveRow`] holds.
#[verifier::ext_equal]
pub struct LiveRowView {
    pub name: Seq<char>,
    pub viewer_url: Seq<char>,
    pub viewer_count: u32,
    pub sharing: SharingState,
}

impl View for LiveRow {
    type V = LiveRowView;

    open spec fn view(&self) -> LiveRowView {
        LiveRowView {
            name: self.name@,
            viewer_url: self.viewer_url@,
            viewer_count: self.viewer_count,
            sharing: self.sharing,
        }
    }
}

impl DeepView for LiveRow {
    type V = LiveRowView;

    open spec fn deep_view(&self) -> LiveRowView {
        self@
    }
}

impl Clone for LiveRow {
    fn clone(&self) -> (r: Self)
        ensures
            r@ == self@,
    {
        let r = LiveRow {
            name: self.name.clone(),
            viewer_url: self.viewer_url.clone(),
            viewer_count: self.viewer_count,
            sharing: self.sharing,
        };
        r
    }
}

/// What is shown beside a friend.
#[derive(Debug, PartialEq, Eq)]
pub enum FriendStatus {
    /// They have not added this identity back.
    Pending,
    Online,
    /// How long they have been away.
    LastSeen(String),
    /// They were never seen.
    Offline,
}

/// What a [`FriendStatus`] holds.
#[verifier::ext_equal]
pub enum FriendStatusView {
    Pending,
    Online,
    LastSeen(Seq<char>),
    Offline,
}

impl View for FriendStatus {
    type V = FriendStatusView;

    open spec fn view(&self) -> FriendStatusView {
        match self {
            FriendStatus::Pending => FriendStatusView::Pending,
            FriendStatus::Online => FriendStatusView::Online,
            FriendStatus::LastSeen(first) => FriendStatusView::LastSeen(first@),
            FriendStatus::Offline => FriendStatusView::Offline,
        }
    }
}

impl DeepView for FriendStatus {
    type V = FriendStatusView;

    open spec fn deep_view(&self) -> FriendStatusView {
        self@
    }
}

impl Clone for FriendStatus {
    fn clone(&self) -> (r: Self)
        ensures
            r@ == self@,
    {
        match self {
            FriendStatus::Pending => FriendStatus::Pending,
            FriendStatus::Online => FriendStatus::Online,
            FriendStatus::LastSeen(first) => FriendStatus::LastSeen(first.clone()),
            FriendStatus::Offline => FriendStatus::Offline,
        }
    }
}

/// A friend as it is listed.
#[derive(Debug, PartialEq, Eq)]
pub struct FriendRow {
    pub name: String,
    pub status: FriendStatus,
}

/// What a [`FriendRow`] holds.
#[verifier::ext_equal]
pub struct FriendRowView {
    pub name: Seq<char>,
    pub status: FriendStatusView,
}

impl View for FriendRow {
    type V = FriendRowView;

    open spec fn view(&self) -> FriendRowView {
        FriendRowView {
            name: self.name@,
            status: self.status@,
        }
    }
}

impl DeepView for FriendRow {
    type V = FriendRowView;

    open spec fn deep_view(&self) -> FriendRowView {
        self@
    }
}

impl Clone for FriendRow {
    fn clone(&self) -> (r: Self)
        ensures
            r@ == self@,
    {
        let r = FriendRow {
            name: self.name.clone(),
            status: self.status.clone(),
        };
        r
    }
}

/// The entries of a code.
pub open spec fn of_code(code: Seq<char>) -> spec_fn(FriendPresenceView) -> bool {
    |friend: FriendPresenceView| friend.code == code
}

/// The contacts of a code.
pub open spec fn contact_of(code: Seq<char>) -> spec_fn(ContactView) -> bool {
    |contact: ContactView| contact.code == code
}

/// The friends with this known of one of them.
pub open spec fn with_friend(
    friends: Seq<FriendPresenceView>,
    friend: FriendPresenceView,
) -> Seq<FriendPresenceView> {
    match seqs::first_where(friends, of_code(friend.code)) {
        Some(i) => friends.update(i, friend),
        None => friends.push(friend),
    }
}

/// Friends by their codes; of several entries the last one counts.
pub open spec fn by_code(friends: Seq<FriendPresenceView>) -> Seq<FriendPresenceView>
    decreases friends.len(),
{
    if friends.len() == 0 {
        Seq::empty()
    } else {
        with_friend(by_code(friends.drop_last()), friends.last())
    }
}

/// What is known of a friend.
pub open spec fn presence_of(friends: Seq<FriendPresenceView>, code: Seq<char>) -> Option<
    FriendPresenceView,
> {
    match seqs::first_where(friends, of_code(code)) {
        Some(i) => Some(friends[i]),
        None => None,
    }
}

/// What a code goes by: the name on the contact list, or the code itself.
pub open spec fn known_as(contacts: Seq<ContactView>, code: Seq<char>) -> Seq<char> {
    match seqs::first_where(contacts, contact_of(code)) {
        Some(i) => contacts[i].name,
        None => code,
    }
}

/// Whether a code is on the contact list.
pub open spec fn is_contact(contacts: Seq<ContactView>, code: Seq<char>) -> bool {
    exists|i: int| 0 <= i < contacts.len() && (#[trigger] contacts[i]).code == code
}

/// Whether each friend is listed once.
pub open spec fn listed_once(friends: Seq<FriendPresenceView>) -> bool {
    forall|i: int, j: int|
        0 <= i < j < friends.len() ==> (#[trigger] friends[i]).code != (#[trigger] friends[j]).code
}

impl FriendsModel {
    /// Something is reported.
    pub open spec fn applied(self, event: PresenceEventView) -> FriendsModel {
        match event {
            PresenceEventView::State(state) => FriendsModel {
                connected: state == PresenceState::Connected,
                ..self
            },
            PresenceEventView::Ready { code } => FriendsModel { self_code: Some(code), ..self },
            PresenceEventView::Snapshot(friends) => FriendsModel {
                friends: by_code(friends),
                ..self
            },
            PresenceEventView::Update(friend) => FriendsModel {
                friends: with_friend(self.friends, friend),
                ..self
            },
            PresenceEventView::Requests(codes) => FriendsModel { requests: codes, ..self },
        }
    }
}

/// The rooms that friends have open, under the names that the friends go by.
pub open spec fn live_rooms(
    friends: Seq<FriendPresenceView>,
    contacts: Seq<ContactView>,
) -> Seq<LiveRowView>
    decreases friends.len(),
{
    if friends.len() == 0 {
        Seq::empty()
    } else {
        let before = live_rooms(friends.drop_last(), contacts);
        match friends.last().hosting {
            Some(room) => before.push(
                LiveRowView {
                    name: known_as(contacts, friends.last().code),
                    viewer_url: room.viewer_url,
                    viewer_count: room.viewer_count,
                    sharing: room.sharing_state,
                },
            ),
            None => before,
        }
    }
}

/// What is shown beside a contact.
pub open spec fn status_of(friends: Seq<FriendPresenceView>, contact: ContactView) -> FriendStatusView {
    let presence = presence_of(friends, contact.code);
    if contact.pending {
        FriendStatusView::Pending
    } else {
        match presence {
            None => FriendStatusView::Offline,
            Some(friend) => if friend.online {
                FriendStatusView::Online
            } else {
                match friend.last_seen_seconds_ago {
                    Some(seconds) => FriendStatusView::LastSeen(clock::ago(seconds as nat)),
                    None => FriendStatusView::Offline,
                }
            },
        }
    }
}

/// The contacts as they are listed.
pub open spec fn friend_rows(
    friends: Seq<FriendPresenceView>,
    contacts: Seq<ContactView>,
) -> Seq<FriendRowView> {
    contacts.map_values(
        |contact: ContactView|
            FriendRowView { name: contact.name, status: status_of(friends, contact) },
    )
}

/// The requests that were neither answered nor put away.
pub open spec fn open_invites(
    requests: Seq<Seq<char>>,
    contacts: Seq<ContactView>,
    dismissed: Seq<Seq<char>>,
) -> Seq<Seq<char>> {
    requests.filter(
        |code: Seq<char>| !is_contact(contacts, code) && !dismissed.contains(code),
    )
}

/// The contacts, with those confirmed that were seen. A friend is only revealed
/// where the pair is mutual, so a sighting is the confirmation.
pub open spec fn confirmed(
    contacts: Seq<ContactView>,
    friends: Seq<FriendPresenceView>,
) -> Seq<ContactView> {
    contacts.map_values(
        |contact: ContactView|
            ContactView {
                pending: contact.pending && presence_of(friends, contact.code) is None,
                ..contact
            },
    )
}

/// The text without this character at its end.
pub open spec fn strip_end(s: Seq<char>, c: char) -> Seq<char>
    decreases s.len(),
{
    if s.len() > 0 && s.last() == c {
        strip_end(s.drop_last(), c)
    } else {
        s
    }
}

/// The presence endpoint and the origin that go with a server.
pub open spec fn endpoint(server: Seq<char>) -> Option<(Seq<char>, Seq<char>)> {
    let origin = strip_end(text::trim(server), '/');
    if text::has_prefix(origin, "https://"@) {
        Some(
            (
                "wss://"@ + origin.skip("https://"@.len() as int) + "/api/v1/presence"@,
                origin,
            ),
        )
    } else if text::has_prefix(origin, "http://"@) {
        Some(
            ("ws://"@ + origin.skip("http://"@.len() as int) + "/api/v1/presence"@, origin),
        )
    } else {
        None
    }
}

/// The text without this character at its end.
fn without_end(s: &str, c: char) -> (r: String)
    ensures
        r@ == strip_end(s@, c),
{
    let chars = text::chars_of(s);
    let mut size: usize = chars.len();
    assert(chars@.take(size as int) =~= chars@);
    while size > 0 && chars[size - 1] == c
        invariant
            chars@ == s@,
            size <= chars@.len(),
            strip_end(s@, c) == strip_end(chars@.take(size as int), c),
        decreases size,
    {
        proof {
            let part = chars@.take(size as int);
            assert(part.last() == chars@[size - 1]);
            assert(part.drop_last() =~= chars@.take(size - 1));
        }
        size -= 1;
    }
    proof {
        if size > 0 {
            assert(chars@.take(size as int).last() == chars@[size - 1]);
        }
        assert(text::head(s@, size as nat) =~= chars@.take(size as int));
    }
    text::first_chars(s, size)
}

/// The presence WebSocket and the origin that go with a server, an `http` or
/// `https` base URL.
pub fn presence_endpoint(server: &str) -> (r: Option<(String, String)>)
    ensures
        match r {
            Some((url, origin)) => endpoint(server@) == Some((url@, origin@)),
            None => endpoint(server@) is None,
        },
{
    let origin = without_end(text::trimmed(server).as_str(), '/');
    if let Some(rest) = text::after_prefix(origin.as_str(), "https://") {
        let mut url = "wss://".to_owned();
        url.push_str(rest.as_str());
        url.push_str("/api/v1/presence");
        return Some((url, origin));
    }
    if let Some(rest) = text::after_prefix(origin.as_str(), "http://") {
        let mut url = "ws://".to_owned();
        url.push_str(rest.as_str());
        url.push_str("/api/v1/presence");
        return Some((url, origin));
    }
    None
}

fn find_friend(friends: &Vec<FriendPresence>, code: &str) -> (r: Option<usize>)
    ensures
        match r {
            Some(i) => seqs::first_where(friends.deep_view(), of_code(code@)) == Some(i as int) && i
                < friends@.len(),
            None => seqs::first_where(friends.deep_view(), of_code(code@)) is None,
        },
{
    let ghost all = friends.deep_view();
    for i in 0..friends.len()
        invariant
            all == friends.deep_view(),
            forall|j: int| 0 <= j < i ==> !of_code(code@)(#[trigger] all[j]),
    {
        if text::same(friends[i].code.as_str(), code) {
            proof {
                assert(of_code(code@)(all[i as int]));
                seqs::lemma_first(all, of_code(code@), i as int);
            }
            return Some(i);
        }
        assert(!of_code(code@)(all[i as int]));
    }
    proof {
        seqs::lemma_no_first(all, of_code(code@));
    }
    None
}

fn find_contact(contacts: &Vec<Contact>, code: &str) -> (r: Option<usize>)
    ensures
        match r {
            Some(i) => seqs::first_where(contacts.deep_view(), contact_of(code@)) == Some(i as int)
                && i < contacts@.len() && is_contact(contacts.deep_view(), code@),
            None => seqs::first_where(contacts.deep_view(), contact_of(code@)) is None
                && !is_contact(contacts.deep_view(), code@),
        },
{
    let ghost all = contacts.deep_view();
    for i in 0..contacts.len()
        invariant
            all == contacts.deep_view(),
            forall|j: int| 0 <= j < i ==> !contact_of(code@)(#[trigger] all[j]),
    {
        if text::same(contacts[i].code.as_str(), code) {
            proof {
                assert(contact_of(code@)(all[i as int]));
                seqs::lemma_first(all, contact_of(code@), i as int);
            }
            return Some(i);
        }
        assert(!contact_of(code@)(all[i as int]));
    }
    proof {
        seqs::lemma_no_first(all, contact_of(code@));
        if is_contact(all, code@) {
            let i = choose|i: int| 0 <= i < all.len() && (#[trigger] all[i]).code == code@;
            assert(contact_of(code@)(all[i]));
        }
    }
    None
}

/// What a presence connection needs, where the server address can be used.
pub open spec fn config_of(server: Seq<char>, public_key: Seq<u8>) -> Option<PresenceConfigView> {
    match endpoint(server) {
        Some((url, origin)) => Some(PresenceConfigView { url, origin, public_key }),
        None => None,
    }
}

/// What a presence connection needs. Presence is best effort: without a server
/// address that can be used there is none.
pub fn presence_config(server: &str, public_key: Vec<u8>) -> (r: Option<PresenceConfig>)
    ensures
        r.deep_view() == config_of(server@, public_key@),
{
    match presence_endpoint(server) {
        Some((url, origin)) => Some(PresenceConfig { url, origin, public_key }),
        None => None,
    }
}

/// What a code goes by.
pub fn name_of(contacts: &Vec<Contact>, code: &str) -> (r: String)
    ensures
        r@ == known_as(contacts.deep_view(), code@),
{
    match find_contact(contacts, code) {
        Some(i) => contacts[i].name.clone(),
        None => code.to_owned(),
    }
}

fn put_friend(friends: &mut Vec<FriendPresence>, friend: FriendPresence)
    ensures
        final(friends).deep_view() == with_friend(old(friends).deep_view(), friend@),
{
    match find_friend(friends, friend.code.as_str()) {
        Some(i) => {
            friends[i] = friend;
            assert(friends.deep_view() =~= old(friends).deep_view().update(i as int, friend@));
        },
        None => {
            friends.push(friend);
            assert(friends.deep_view() =~= old(friends).deep_view().push(friend@));
        },
    }
}

impl PresenceView {
    /// Nobody seen yet.
    pub fn new() -> (r: Self)
        ensures
            r@ == (FriendsModel {
                friends: Seq::empty(),
                self_code: None,
                connected: false,
                requests: Seq::empty(),
            }),
    {
        let r = PresenceView {
            friends: Vec::new(),
            self_code: None,
            connected: false,
            requests: Vec::new(),
        };
        assert(r@.friends =~= Seq::empty() && r@.requests =~= Seq::empty());
        r
    }

    /// Something is reported.
    pub fn apply(&mut self, event: PresenceEvent)
        ensures
            final(self)@ == old(self)@.applied(event@),
            listed_once(old(self)@.friends) ==> listed_once(final(self)@.friends),
    {
        proof {
            law_friends_are_listed_once(self@, event@);
        }
        match event {
            PresenceEvent::State(state) => {
                self.connected = state == PresenceState::Connected;
            },
            PresenceEvent::Ready { code } => {
                self.self_code = Some(code);
            },
            PresenceEvent::Snapshot(friends) => {
                let ghost all = friends.deep_view();
                let mut known: Vec<FriendPresence> = Vec::new();
                assert(known.deep_view() =~= by_code(all.take(0)));
                for i in 0..friends.len()
                    invariant
                        all == friends.deep_view(),
                        known.deep_view() == by_code(all.take(i as int)),
                {
                    proof {
                        let next = all.take(i + 1);
                        assert(next.drop_last() =~= all.take(i as int));
                        assert(next.last() == all[i as int]);
                    }
                    put_friend(&mut known, friends[i].clone());
                }
                assert(all.take(all.len() as int) =~= all);
                self.friends = known;
            },
            PresenceEvent::Update(friend) => put_friend(&mut self.friends, friend),
            PresenceEvent::Requests(codes) => {
                self.requests = codes;
            },
        }
        assert(self@ =~= old(self)@.applied(event@));
    }

    /// The rooms that friends have open.
    pub fn live(&self, contacts: &Vec<Contact>) -> (r: Vec<LiveRow>)
        ensures
            r.deep_view() == live_rooms(self@.friends, contacts.deep_view()),
    {
        let ghost all = self@.friends;
        let mut r: Vec<LiveRow> = Vec::new();
        assert(r.deep_view() =~= live_rooms(all.take(0), contacts.deep_view()));
        for i in 0..self.friends.len()
            invariant
                all == self@.friends,
                r.deep_view() == live_rooms(all.take(i as int), contacts.deep_view()),
        {
            let ghost before = r.deep_view();
            let friend = &self.friends[i];
            proof {
                let next = all.take(i + 1);
                assert(next.drop_last() =~= all.take(i as int));
                assert(next.last() == all[i as int]);
                assert(friend@ == all[i as int]);
            }
            if let Some(room) = &friend.hosting {
                let row = LiveRow {
                    name: name_of(contacts, friend.code.as_str()),
                    viewer_url: room.viewer_url.clone(),
                    viewer_count: room.viewer_count,
                    sharing: room.sharing_state,
                };
                r.push(row);
                assert(r.deep_view() =~= before.push(row@));
            }
        }
        assert(all.take(all.len() as int) =~= all);
        r
    }

    /// What is shown beside a contact.
    pub fn status(&self, contact: &Contact) -> (r: FriendStatus)
        ensures
            r@ == status_of(self@.friends, contact@),
    {
        if contact.pending {
            return FriendStatus::Pending;
        }
        match find_friend(&self.friends, contact.code.as_str()) {
            None => FriendStatus::Offline,
            Some(i) => {
                let friend = &self.friends[i];
                if friend.online {
                    FriendStatus::Online
                } else {
                    match friend.last_seen_seconds_ago {
                        Some(seconds) => FriendStatus::LastSeen(clock::ago_compact(seconds)),
                        None => FriendStatus::Offline,
                    }
                }
            },
        }
    }

    /// The room that a friend has open.
    pub fn hosting(&self, code: &str) -> (r: Option<HostedRoom>)
        ensures
            r.deep_view() == match presence_of(self@.friends, code@) {
                Some(friend) => friend.hosting,
                None => None,
            },
    {
        match find_friend(&self.friends, code) {
            Some(i) => match &self.friends[i].hosting {
                Some(room) => Some(room.clone()),
                None => None,
            },
            None => None,
        }
    }

    /// The contacts as they are listed.
    pub fn rows(&self, contacts: &Vec<Contact>) -> (r: Vec<FriendRow>)
        ensures
            r.deep_view() == friend_rows(self@.friends, contacts.deep_view()),
    {
        let ghost all = friend_rows(self@.friends, contacts.deep_view());
        let mut r: Vec<FriendRow> = Vec::new();
        assert(r.deep_view() =~= all.take(0));
        for i in 0..contacts.len()
            invariant
                all == friend_rows(self@.friends, contacts.deep_view()),
                r.deep_view() == all.take(i as int),
        {
            let ghost before = r.deep_view();
            let contact = &contacts[i];
            assert(contact@ == contacts.deep_view()[i as int]);
            r.push(FriendRow { name: contact.name.clone(), status: self.status(contact) });
            assert(r.deep_view() =~= before.push(all[i as int]));
            assert(r.deep_view() =~= all.take(i + 1));
        }
        assert(all.take(all.len() as int) =~= all);
        r
    }

    /// How many requests were neither answered nor put away.
    pub fn invites(&self, contacts: &Vec<Contact>, dismissed: &Vec<String>) -> (r: usize)
        ensures
            r == open_invites(
                self@.requests,
                contacts.deep_view(),
                dismissed.deep_view(),
            ).len(),
    {
        let ghost all = self@.requests;
        let ghost keep = |code: Seq<char>|
            !is_contact(contacts.deep_view(), code) && !dismissed.deep_view().contains(code);
        let mut r: usize = 0;
        assert(all.take(0).filter(keep) =~= Seq::empty()) by {
            reveal(Seq::filter);
        }
        for i in 0..self.requests.len()
            invariant
                all == self@.requests,
                keep == |code: Seq<char>|
                    !is_contact(contacts.deep_view(), code) && !dismissed.deep_view().contains(
                        code,
                    ),
                r <= i,
                r == all.take(i as int).filter(keep).len(),
        {
            proof {
                assert(all.take(i + 1) =~= all.take(i as int).push(all[i as int]));
                seqs::lemma_filter_push(all.take(i as int), all[i as int], keep);
            }
            let code = self.requests[i].as_str();
            if find_contact(contacts, code).is_none() && !lists(dismissed, code) {
                r += 1;
            }
        }
        assert(all.take(all.len() as int) =~= all);
        r
    }

    /// Marks the contacts confirmed that were seen; whether there were any.
    pub fn confirm_seen_contacts(&self, contacts: &mut Vec<Contact>) -> (any: bool)
        ensures
            final(contacts).deep_view() == confirmed(old(contacts).deep_view(), self@.friends),
            any == (final(contacts).deep_view() != old(contacts).deep_view()),
    {
        let ghost all = old(contacts).deep_view();
        let ghost done = confirmed(all, self@.friends);
        let count: usize = contacts.len();
        let mut any = false;
        let mut kept: Vec<Contact> = Vec::new();
        assert(kept.deep_view() =~= done.take(0));
        for i in 0..count
            invariant
                count == contacts@.len(),
                contacts.deep_view() == all,
                done == confirmed(all, self@.friends),
                kept.deep_view() == done.take(i as int),
                any == exists|j: int| 0 <= j < i && #[trigger] done[j] != all[j],
        {
            let ghost before = kept.deep_view();
            let mut contact = contacts[i].clone();
            assert(contact@ == all[i as int]);
            if contact.pending && find_friend(&self.friends, contact.code.as_str()).is_some() {
                contact.pending = false;
                any = true;
                assert(done[i as int] != all[i as int]);
            } else {
                assert(done[i as int] == all[i as int]);
            }
            kept.push(contact);
            assert(kept.deep_view() =~= before.push(done[i as int]));
            assert(kept.deep_view() =~= done.take(i + 1));
        }
        assert(done.take(all.len() as int) =~= done);
        proof {
            if !any {
                assert(done =~= all);
            }
        }
        *contacts = kept;
        any
    }
}

/// Whether a text is on a list.
pub fn lists(list: &Vec<String>, entry: &str) -> (r: bool)
    ensures
        r == list.deep_view().contains(entry@),
{
    for i in 0..list.len()
        invariant
            forall|j: int| 0 <= j < i ==> (#[trigger] list.deep_view()[j]) != entry@,
    {
        if text::same(list[i].as_str(), entry) {
            assert(list.deep_view()[i as int] == entry@);
            return true;
        }
    }
    false
}

/// The codes on the contact list.
pub open spec fn codes_of(contacts: Seq<ContactView>) -> Seq<Seq<char>> {
    contacts.map_values(|contact: ContactView| contact.code)
}

/// The codes on the contact list.
pub fn contact_codes(contacts: &Vec<Contact>) -> (r: Vec<String>)
    ensures
        r.deep_view() == codes_of(contacts.deep_view()),
{
    let ghost all = codes_of(contacts.deep_view());
    let mut r: Vec<String> = Vec::new();
    assert(r.deep_view() =~= all.take(0));
    for i in 0..contacts.len()
        invariant
            all == codes_of(contacts.deep_view()),
            r.deep_view() == all.take(i as int),
    {
        let ghost before = r.deep_view();
        r.push(contacts[i].code.clone());
        assert(r.deep_view() =~= before.push(all[i as int]));
        assert(r.deep_view() =~= all.take(i + 1));
    }
    assert(all.take(all.len() as int) =~= all);
    r
}

/// The codes that are to be watched: each once, in order.
pub open spec fn watched(codes: Seq<Seq<char>>) -> Seq<Seq<char>> {
    seqs::deduped(sorting::sorted(codes))
}

/// What to watch instead of `subscribed`, where that is not what the contacts
/// ask for.
pub fn sync(subscribed: &Vec<String>, codes: &Vec<String>) -> (r: Option<Vec<String>>)
    ensures
        r.deep_view() == if watched(codes.deep_view()) == subscribed.deep_view() {
            None
        } else {
            Some(watched(codes.deep_view()))
        },
{
    let wanted = sorting::dedup_texts(&sorting::sort_texts(codes));
    let ghost new = wanted.deep_view();
    let ghost now = subscribed.deep_view();
    if wanted.len() != subscribed.len() {
        return Some(wanted);
    }
    for i in 0..wanted.len()
        invariant
            new == wanted.deep_view(),
            new == watched(codes.deep_view()),
            now == subscribed.deep_view(),
            new.len() == now.len(),
            forall|j: int| 0 <= j < i ==> new[j] == now[j],
    {
        if !text::same(wanted[i].as_str(), subscribed[i].as_str()) {
            assert(new[i as int] != now[i as int]);
            return Some(wanted);
        }
    }
    assert(new =~= now);
    None
}

/// How a room is shared and how many are there, the presenter among them.
pub open spec fn live_text(row: LiveRowView) -> Seq<char> {
    let here = text::decimal(
        if row.viewer_count < u32::MAX {
            (row.viewer_count + 1) as nat
        } else {
            u32::MAX as nat
        },
    );
    match row.sharing {
        SharingState::Live => "sharing · "@ + here + " here"@,
        SharingState::Paused => "paused · "@ + here + " here"@,
        SharingState::Idle => "idle room · "@ + here + " here"@,
    }
}

/// How a room is shared and how many are there, the presenter among them.
pub fn live_label(row: &LiveRow) -> (r: String)
    ensures
        r@ == live_text(row@),
{
    let here: u32 = row.viewer_count.saturating_add(1);
    let mut r = match row.sharing {
        SharingState::Live => "sharing · ".to_owned(),
        SharingState::Paused => "paused · ".to_owned(),
        SharingState::Idle => "idle room · ".to_owned(),
    };
    r.push_str(text::decimal_text(here as u64).as_str());
    r.push_str(" here");
    r
}

/// The headline of a room card.
pub open spec fn headline_text(name: Seq<char>, sharing: SharingState) -> Seq<char> {
    match sharing {
        SharingState::Live => name + " is sharing"@,
        SharingState::Paused => name + " paused their share"@,
        SharingState::Idle => name + " has a room open"@,
    }
}

/// The headline of a room card.
pub fn headline(name: &str, sharing: SharingState) -> (r: String)
    ensures
        r@ == headline_text(name@, sharing),
{
    let mut r = name.to_owned();
    match sharing {
        SharingState::Live => r.push_str(" is sharing"),
        SharingState::Paused => r.push_str(" paused their share"),
        SharingState::Idle => r.push_str(" has a room open"),
    }
    r
}

/// How many watch a room.
pub open spec fn watchers_text(count: nat) -> Seq<char> {
    if count == 0 {
        "no one watching yet · peer to peer"@
    } else if count == 1 {
        "1 watching · peer to peer"@
    } else {
        text::decimal(count) + " watching · peer to peer"@
    }
}

/// How many watch a room.
pub fn watchers(count: u32) -> (r: String)
    ensures
        r@ == watchers_text(count as nat),
{
    if count == 0 {
        "no one watching yet · peer to peer".to_owned()
    } else if count == 1 {
        "1 watching · peer to peer".to_owned()
    } else {
        let mut r = text::decimal_text(count as u64);
        r.push_str(" watching · peer to peer");
        r
    }
}

/// Who is in a room that is open and idle.
pub open spec fn idle_text(count: nat) -> Seq<char> {
    if count == 0 {
        "Open, nobody sharing yet"@
    } else {
        "Open, nobody sharing yet · "@ + text::decimal(count) + " here"@
    }
}

/// Who is in a room that is open and idle.
pub fn idle_room_line(count: u32) -> (r: String)
    ensures
        r@ == idle_text(count as nat),
{
    if count == 0 {
        return "Open, nobody sharing yet".to_owned();
    }
    let mut r = "Open, nobody sharing yet · ".to_owned();
    r.push_str(text::decimal_text(count as u64).as_str());
    r.push_str(" here");
    r
}

/// The button that adds a friend, with how many ask.
pub open spec fn add_friend_text(invites: nat) -> Seq<char> {
    if invites == 0 {
        "Add a friend"@
    } else if invites == 1 {
        "Add a friend · 1 invite"@
    } else {
        "Add a friend · "@ + text::decimal(invites) + " invites"@
    }
}

/// The button that adds a friend, with how many ask.
pub fn add_friend_label(invites: usize) -> (r: String)
    ensures
        r@ == add_friend_text(invites as nat),
{
    if invites == 0 {
        "Add a friend".to_owned()
    } else if invites == 1 {
        "Add a friend · 1 invite".to_owned()
    } else {
        let mut r = "Add a friend · ".to_owned();
        r.push_str(text::decimal_text(invites as u64).as_str());
        r.push_str(" invites");
        r
    }
}

/// When an invite was sent, as far as that is known.
pub open spec fn invite_text(code: Seq<char>, sent: Option<u64>) -> Seq<char> {
    match sent {
        Some(seconds) => if seconds < 60 {
            code + " · sent just now"@
        } else {
            code + " · sent "@ + clock::ago(seconds as nat) + " ago"@
        },
        None => code + " · pending"@,
    }
}

/// When an invite was sent, as far as that is known.
pub fn invite_line(code: &str, sent: Option<u64>) -> (r: String)
    ensures
        r@ == invite_text(code@, sent),
{
    let mut r = code.to_owned();
    match sent {
        Some(seconds) => {
            if seconds < 60 {
                r.push_str(" · sent just now");
            } else {
                r.push_str(" · sent ");
                r.push_str(clock::ago_compact(seconds).as_str());
                r.push_str(" ago");
            }
        },
        None => r.push_str(" · pending"),
    }
    r
}

/// Putting a friend in keeps each listed once.
proof fn lemma_with_friend(friends: Seq<FriendPresenceView>, friend: FriendPresenceView)
    requires
        listed_once(friends),
    ensures
        listed_once(with_friend(friends, friend)),
{
    seqs::lemma_first_where(friends, of_code(friend.code));
}

proof fn lemma_by_code(friends: Seq<FriendPresenceView>)
    ensures
        listed_once(by_code(friends)),
    decreases friends.len(),
{
    if friends.len() > 0 {
        lemma_by_code(friends.drop_last());
        lemma_with_friend(by_code(friends.drop_last()), friends.last());
    }
}

/// Whatever is reported, each friend stays listed once.
pub proof fn law_friends_are_listed_once(m: FriendsModel, event: PresenceEventView)
    ensures
        listed_once(m.friends) ==> listed_once(m.applied(event).friends),
        event is Snapshot ==> listed_once(m.applied(event).friends),
{
    match event {
        PresenceEventView::Snapshot(friends) => lemma_by_code(friends),
        PresenceEventView::Update(friend) => {
            if listed_once(m.friends) {
                lemma_with_friend(m.friends, friend);
            }
        },
        _ => {},
    }
}

/// What a friend was last reported as is what is known of it.
pub proof fn law_the_latest_report_counts(m: FriendsModel, friend: FriendPresenceView)
    ensures
        presence_of(m.applied(PresenceEventView::Update(friend)).friends, friend.code) == Some(
            friend,
        ),
{
    let after = m.applied(PresenceEventView::Update(friend)).friends;
    seqs::lemma_first_where(m.friends, of_code(friend.code));
    match seqs::first_where(m.friends, of_code(friend.code)) {
        Some(i) => {
            assert forall|j: int| 0 <= j < i implies !of_code(friend.code)(
                #[trigger] after[j],
            ) by {
                assert(!of_code(friend.code)(m.friends[j]));
            }
            seqs::lemma_first(after, of_code(friend.code), i);
        },
        None => {
            let last = m.friends.len() as int;
            assert forall|j: int| 0 <= j < last implies !of_code(friend.code)(
                #[trigger] after[j],
            ) by {
                assert(!of_code(friend.code)(m.friends[j]));
            }
            seqs::lemma_first(after, of_code(friend.code), last);
        },
    }
}

/// A contact is confirmed once it was seen, and never becomes pending.
pub proof fn law_seeing_confirms(
    contacts: Seq<ContactView>,
    friends: Seq<FriendPresenceView>,
    i: int,
)
    requires
        0 <= i < contacts.len(),
    ensures
        presence_of(friends, contacts[i].code) is Some ==> !confirmed(contacts, friends)[i].pending,
        !contacts[i].pending ==> !confirmed(contacts, friends)[i].pending,
        confirmed(contacts, friends)[i].code == contacts[i].code,
        confirmed(contacts, friends)[i].name == contacts[i].name,
{
}

} // verus!
