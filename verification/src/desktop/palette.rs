//! The command palette.
use vstd::prelude::*;
use vstd::string::*;

use super::app::{AppModel, AppState, Screen};
use super::friends;
use super::friends::{
    Contact, ContactView, FriendStatus, FriendStatusView, LiveRow, LiveRowView, PresenceView,
};
use crate::protocol::{FriendPresenceView, SharingState};
use crate::seqs;
use crate::text;

verus! {

/// What a row of the palette does.
#[derive(Debug, PartialEq, Eq)]
pub enum PaletteAction {
    Create,
    JoinByLink,
    Go(Screen),
    /// Join a room by its viewer URL.
    Join(String),
}

/// What a [`PaletteAction`] holds.
#[verifier::ext_equal]
pub enum PaletteActionView {
    Create,
    JoinByLink,
    Go(Screen),
    Join(Seq<char>),
}

impl View for PaletteAction {
    type V = PaletteActionView;

    open spec fn view(&self) -> PaletteActionView {
        match self {
            PaletteAction::Create => PaletteActionView::Create,
            PaletteAction::JoinByLink => PaletteActionView::JoinByLink,
            PaletteAction::Go(first) => PaletteActionView::Go(*first),
            PaletteAction::Join(first) => PaletteActionView::Join(first@),
        }
    }
}

impl DeepView for PaletteAction {
    type V = PaletteActionView;

    open spec fn deep_view(&self) -> PaletteActionView {
        self@
    }
}

impl Clone for PaletteAction {
    fn clone(&self) -> (r: Self)
        ensures
            r@ == self@,
    {
        match self {
            PaletteAction::Create => PaletteAction::Create,
            PaletteAction::JoinByLink => PaletteAction::JoinByLink,
            PaletteAction::Go(first) => PaletteAction::Go(*first),
            PaletteAction::Join(first) => PaletteAction::Join(first.clone()),
        }
    }
}

/// A row of the palette: its label, which the query is matched with, a hint, and
/// what it does.
#[derive(Debug, PartialEq, Eq)]
pub struct PaletteEntry {
    pub label: String,
    pub hint: String,
    pub action: PaletteAction,
}

/// What a [`PaletteEntry`] holds.
#[verifier::ext_equal]
pub struct PaletteEntryView {
    pub label: Seq<char>,
    pub hint: Seq<char>,
    pub action: PaletteActionView,
}

impl View for PaletteEntry {
    type V = PaletteEntryView;

    open spec fn view(&self) -> PaletteEntryView {
        PaletteEntryView {
            label: self.label@,
            hint: self.hint@,
            action: self.action@,
        }
    }
}

impl DeepView for PaletteEntry {
    type V = PaletteEntryView;

    open spec fn deep_view(&self) -> PaletteEntryView {
        self@
    }
}

impl Clone for PaletteEntry {
    fn clone(&self) -> (r: Self)
        ensures
            r@ == self@,
    {
        let r = PaletteEntry {
            label: self.label.clone(),
            hint: self.hint.clone(),
            action: self.action.clone(),
        };
        r
    }
}

/// The rows of the palette.
#[derive(Debug, PartialEq, Eq)]
pub struct PaletteGroups {
    pub actions: Vec<PaletteEntry>,
    pub rooms: Vec<PaletteEntry>,
    pub friends: Vec<PaletteEntry>,
}

/// What a [`PaletteGroups`] holds.
#[verifier::ext_equal]
pub struct PaletteGroupsView {
    pub actions: Seq<PaletteEntryView>,
    pub rooms: Seq<PaletteEntryView>,
    pub friends: Seq<PaletteEntryView>,
}

impl View for PaletteGroups {
    type V = PaletteGroupsView;

    open spec fn view(&self) -> PaletteGroupsView {
        PaletteGroupsView {
            actions: self.actions.deep_view(),
            rooms: self.rooms.deep_view(),
            friends: self.friends.deep_view(),
        }
    }
}

impl DeepView for PaletteGroups {
    type V = PaletteGroupsView;

    open spec fn deep_view(&self) -> PaletteGroupsView {
        self@
    }
}

/// The characters of a query that count.
pub open spec fn wanted(query: Seq<char>) -> Seq<char> {
    query.filter(|c: char| !text::white(c))
}

/// Whether a label matches a query, both in lower case: the query is a part of
/// it, or the characters of the query occur in it in their order.
pub open spec fn fits(query: Seq<char>, label: Seq<char>) -> bool {
    ||| query.len() == 0
    ||| text::occurs(query, label)
    ||| text::in_sequence(wanted(query), label)
}

/// Whether a label matches a query, whatever the case.
pub open spec fn matched(query: Seq<char>, label: Seq<char>) -> bool {
    fits(text::lowercase_of(text::trim(query)), text::lowercase_of(label))
}

/// Whether a label matches a query, both in lower case.
pub fn matches_lowered(query: &str, label: &str) -> (r: bool)
    ensures
        r == fits(query@, label@),
{
    let chars = text::chars_of(query);
    if chars.len() == 0 {
        return true;
    }
    let hay = text::chars_of(label);
    if text::contains_text(&hay, &chars) {
        return true;
    }
    let ghost keep = |c: char| !text::white(c);
    let mut needle: Vec<char> = Vec::new();
    assert(chars@.take(0).filter(keep) =~= Seq::empty()) by {
        reveal(Seq::filter);
    }
    for i in 0..chars.len()
        invariant
            keep == |c: char| !text::white(c),
            needle@ == chars@.take(i as int).filter(keep),
    {
        proof {
            assert(chars@.take(i + 1) =~= chars@.take(i as int).push(chars@[i as int]));
            seqs::lemma_filter_push(chars@.take(i as int), chars@[i as int], keep);
        }
        if !text::is_white(chars[i]) {
            needle.push(chars[i]);
        }
    }
    assert(chars@.take(chars@.len() as int) =~= chars@);
    text::is_in_sequence(&needle, &hay)
}

/// Whether a label matches a query.
pub fn palette_match(query: &str, label: &str) -> (r: bool)
    ensures
        r == matched(query@, label@),
        vstd::utf8::is_ascii_chars(query@) && vstd::utf8::is_ascii_chars(label@) ==> r == fits(
            text::ascii_lowered(text::trim(query@)),
            text::ascii_lowered(label@),
        ),
{
    proof {
        if vstd::utf8::is_ascii_chars(query@) {
            text::lemma_trim_ascii(query@);
        }
    }
    let query = text::lowercase(text::trimmed(query).as_str());
    let label = text::lowercase(label);
    matches_lowered(query.as_str(), label.as_str())
}

/// The rows that are always there.
pub open spec fn action_entries(modifier: Seq<char>) -> Seq<PaletteEntryView> {
    seq![
        PaletteEntryView {
            label: "Create a room"@,
            hint: modifier + " N"@,
            action: PaletteActionView::Create,
        },
        PaletteEntryView {
            label: "Join a room by link"@,
            hint: Seq::empty(),
            action: PaletteActionView::JoinByLink,
        },
        PaletteEntryView {
            label: "Add a friend"@,
            hint: modifier + " Shift A"@,
            action: PaletteActionView::Go(Screen::Friends),
        },
        PaletteEntryView {
            label: "Open settings"@,
            hint: modifier + " ,"@,
            action: PaletteActionView::Go(Screen::Settings),
        },
    ]
}

/// The row of a room that a friend has open.
pub open spec fn room_entry(row: LiveRowView) -> PaletteEntryView {
    PaletteEntryView {
        label: "Join "@ + row.name + "'s room"@,
        hint: match row.sharing {
            SharingState::Live => "live"@,
            SharingState::Paused => "paused"@,
            SharingState::Idle => "idle"@,
        },
        action: PaletteActionView::Join(row.viewer_url),
    }
}

/// The row of a contact. One that has a room open leads into it.
pub open spec fn friend_entry(
    friends: Seq<FriendPresenceView>,
    contact: ContactView,
) -> PaletteEntryView {
    PaletteEntryView {
        label: contact.name,
        hint: match friends::status_of(friends, contact) {
            FriendStatusView::Pending => "pending"@,
            FriendStatusView::Online => "online"@,
            FriendStatusView::LastSeen(ago) => ago,
            FriendStatusView::Offline => "friend"@,
        },
        action: match friends::presence_of(friends, contact.code) {
            Some(friend) => match friend.hosting {
                Some(room) => PaletteActionView::Join(room.viewer_url),
                None => PaletteActionView::Go(Screen::Friends),
            },
            None => PaletteActionView::Go(Screen::Friends),
        },
    }
}

/// The rows of the palette.
pub open spec fn groups(
    friends: Seq<FriendPresenceView>,
    contacts: Seq<ContactView>,
    modifier: Seq<char>,
) -> PaletteGroupsView {
    PaletteGroupsView {
        actions: action_entries(modifier),
        rooms: friends::live_rooms(friends, contacts).map_values(
            |row: LiveRowView| room_entry(row),
        ),
        friends: contacts.map_values(|contact: ContactView| friend_entry(friends, contact)),
    }
}

/// The rows that match the query.
pub open spec fn visible(entries: Seq<PaletteEntryView>, query: Seq<char>) -> Seq<
    PaletteEntryView,
> {
    entries.filter(|entry: PaletteEntryView| matched(query, entry.label))
}

fn key_hint(modifier: &str, key: &str) -> (r: String)
    ensures
        r@ == modifier@ + key@,
{
    let mut r = modifier.to_owned();
    r.push_str(key);
    r
}

fn fixed_entries(modifier: &str) -> (r: Vec<PaletteEntry>)
    ensures
        r.deep_view() == action_entries(modifier@),
{
    let no_hint = String::new();
    assert(no_hint@ =~= Seq::empty());
    let r: Vec<PaletteEntry> = vec![
        PaletteEntry {
            label: "Create a room".to_owned(),
            hint: key_hint(modifier, " N"),
            action: PaletteAction::Create,
        },
        PaletteEntry {
            label: "Join a room by link".to_owned(),
            hint: no_hint,
            action: PaletteAction::JoinByLink,
        },
        PaletteEntry {
            label: "Add a friend".to_owned(),
            hint: key_hint(modifier, " Shift A"),
            action: PaletteAction::Go(Screen::Friends),
        },
        PaletteEntry {
            label: "Open settings".to_owned(),
            hint: key_hint(modifier, " ,"),
            action: PaletteAction::Go(Screen::Settings),
        },
    ];
    assert(r.deep_view() =~= action_entries(modifier@));
    r
}

fn room_row(row: &LiveRow) -> (r: PaletteEntry)
    ensures
        r@ == room_entry(row@),
{
    let mut label = "Join ".to_owned();
    label.push_str(row.name.as_str());
    label.push_str("'s room");
    let hint = match row.sharing {
        SharingState::Live => "live",
        SharingState::Paused => "paused",
        SharingState::Idle => "idle",
    };
    PaletteEntry {
        label,
        hint: hint.to_owned(),
        action: PaletteAction::Join(row.viewer_url.clone()),
    }
}

fn friend_row(presence: &PresenceView, contact: &Contact) -> (r: PaletteEntry)
    ensures
        r@ == friend_entry(presence@.friends, contact@),
{
    let hint = match presence.status(contact) {
        FriendStatus::Pending => "pending".to_owned(),
        FriendStatus::Online => "online".to_owned(),
        FriendStatus::LastSeen(ago) => ago,
        FriendStatus::Offline => "friend".to_owned(),
    };
    let action = match presence.hosting(contact.code.as_str()) {
        Some(room) => PaletteAction::Join(room.viewer_url),
        None => PaletteAction::Go(Screen::Friends),
    };
    PaletteEntry { label: contact.name.clone(), hint, action }
}

/// The rows of the palette: the actions, every room that friends have open, and
/// the contacts.
pub fn palette_entries(presence: &PresenceView, contacts: &Vec<Contact>, modifier: &str) -> (r:
    PaletteGroups)
    ensures
        r@ == groups(presence@.friends, contacts.deep_view(), modifier@),
{
    let ghost all = groups(presence@.friends, contacts.deep_view(), modifier@);
    let live = presence.live(contacts);
    let mut rooms: Vec<PaletteEntry> = Vec::new();
    assert(rooms.deep_view() =~= all.rooms.take(0));
    for i in 0..live.len()
        invariant
            all == groups(presence@.friends, contacts.deep_view(), modifier@),
            live.deep_view() == friends::live_rooms(presence@.friends, contacts.deep_view()),
            rooms.deep_view() == all.rooms.take(i as int),
    {
        let ghost before = rooms.deep_view();
        assert(live@[i as int]@ == live.deep_view()[i as int]);
        rooms.push(room_row(&live[i]));
        assert(rooms.deep_view() =~= before.push(all.rooms[i as int]));
        assert(rooms.deep_view() =~= all.rooms.take(i + 1));
    }
    let mut people: Vec<PaletteEntry> = Vec::new();
    assert(people.deep_view() =~= all.friends.take(0));
    for i in 0..contacts.len()
        invariant
            all == groups(presence@.friends, contacts.deep_view(), modifier@),
            people.deep_view() == all.friends.take(i as int),
    {
        let ghost before = people.deep_view();
        assert(contacts@[i as int]@ == contacts.deep_view()[i as int]);
        people.push(friend_row(presence, &contacts[i]));
        assert(people.deep_view() =~= before.push(all.friends[i as int]));
        assert(people.deep_view() =~= all.friends.take(i + 1));
    }
    assert(rooms.deep_view() =~= all.rooms);
    assert(people.deep_view() =~= all.friends);
    PaletteGroups { actions: fixed_entries(modifier), rooms, friends: people }
}

/// The rows that match the query.
pub fn visible_entries(entries: &Vec<PaletteEntry>, query: &str) -> (r: Vec<PaletteEntry>)
    ensures
        r.deep_view() == visible(entries.deep_view(), query@),
{
    let ghost all = entries.deep_view();
    let ghost keep = |entry: PaletteEntryView| matched(query@, entry.label);
    let mut r: Vec<PaletteEntry> = Vec::new();
    assert(all.take(0).filter(keep) =~= Seq::empty()) by {
        reveal(Seq::filter);
    }
    assert(r.deep_view() =~= all.take(0).filter(keep));
    for i in 0..entries.len()
        invariant
            all == entries.deep_view(),
            keep == |entry: PaletteEntryView| matched(query@, entry.label),
            r.deep_view() == all.take(i as int).filter(keep),
    {
        let ghost before = r.deep_view();
        proof {
            assert(all.take(i + 1) =~= all.take(i as int).push(all[i as int]));
            seqs::lemma_filter_push(all.take(i as int), all[i as int], keep);
        }
        if palette_match(query, entries[i].label.as_str()) {
            r.push(entries[i].clone());
            assert(r.deep_view() =~= before.push(all[i as int]));
        }
    }
    assert(all.take(all.len() as int) =~= all);
    r
}

impl AppModel {
    /// A row of the palette is chosen.
    pub open spec fn chosen(self, action: PaletteActionView) -> AppModel {
        match action {
            PaletteActionView::Create => self.create_shown(),
            PaletteActionView::JoinByLink => self.join_shown(),
            PaletteActionView::Go(screen) => self.gone(screen),
            PaletteActionView::Join(url) => self.joining(url),
        }
    }
}

impl AppState {
    /// Does what a row of the palette says.
    pub fn run_action(&mut self, action: PaletteAction)
        ensures
            final(self)@ == old(self)@.chosen(action@),
    {
        match action {
            PaletteAction::Create => self.open_create(),
            PaletteAction::JoinByLink => self.open_join(),
            PaletteAction::Go(screen) => self.go(screen),
            PaletteAction::Join(url) => self.join_room(url),
        }
    }
}

/// Whatever is chosen, the palette closes.
pub proof fn law_choosing_closes_the_palette(m: AppModel, action: PaletteActionView)
    ensures
        !m.chosen(action).palette_open,
{
}

/// A query that is part of a label matches it, and so does one whose characters
/// stand in it in their order.
pub proof fn law_parts_match(query: Seq<char>, label: Seq<char>, at: Seq<int>)
    requires
        text::occurs(query, label) || text::embeds(wanted(query), label, at),
    ensures
        fits(query, label),
{
    if text::embeds(wanted(query), label, at) {
        text::lemma_embedded(wanted(query), label, at);
    }
}

/// A label that matches without holding the query has its characters in order.
pub proof fn law_matches_are_in_order(query: Seq<char>, label: Seq<char>)
    requires
        fits(query, label),
        query.len() > 0,
        !text::occurs(query, label),
    ensures
        exists|at: Seq<int>| text::embeds(wanted(query), label, at),
{
    text::lemma_embedding(wanted(query), label);
}

} // verus!
