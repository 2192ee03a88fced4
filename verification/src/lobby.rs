//! The chat lobby: sessions, rooms, and what each event sends to whom.
use vstd::prelude::*;
use std::collections::HashMap;
use std::collections::HashSet;
use vstd::std_specs::iter::IteratorSpec;
use crate::ids::hyphenated;
use crate::ids::parse_uuid;
use crate::ids::uuid_parse;
use crate::ids::uuid_text;
use crate::messages::deliveries_view;
use crate::messages::texts;
use crate::messages::ClientActorMessage;
use crate::messages::Connect;
use crate::messages::Delivery;
use crate::messages::DeliveryView;
use crate::messages::Disconnect;
use crate::messages::MessageValue;
use crate::messages::MessageValueView;
use crate::messages::OutgoingMessageType;
use crate::messages::TextMessage;
use crate::messages::TextMessageView;
use crate::messages::WebSocketMessage;
use crate::messages::WebSocketMessageView;
use crate::outside::json_of_names;
use crate::outside::is_utc_stamp;
use crate::outside::json_text_array;
use crate::outside::clock_text;
use crate::text::is_whisper;
use crate::text::is_whisper_text;
use crate::text::second_field;
use crate::text::second_field_text;

verus! {

broadcast use vstd::std_specs::hash::group_hash_axioms;

/// `order` lists the elements of `s`, each once.
pub open spec fn is_listing(order: Seq<u128>, s: Set<u128>) -> bool {
    order.no_duplicates() && order.to_set() == s
}

/// The elements of a set in the order in which the set hands them out.
pub open spec fn set_order(room: HashSet<u128>) -> Seq<u128> {
    vstd::std_specs::hash::into_iter_hash_keys(vstd::std_specs::hash::spec_hash_keys_iter(&room))
}

/// The members of a room, in the order in which the set hands them out.
fn listing_of(room: &HashSet<u128>) -> (v: Vec<u128>)
    ensures
        v@ == set_order(*room),
        is_listing(v@, room@),
{
    let mut v: Vec<u128> = Vec::new();
    let ghost keys = vstd::std_specs::hash::spec_hash_keys_iter(room).remaining().unref();
    let members = room.iter();
    assert(keys == set_order(*room));
    for m in it: members
        invariant
            it.seq().unref() == keys,
            v@ == keys.take(it.index()),
    {
        v.push(*m);
        proof {
            assert(v@ =~= keys.take(it.index() + 1));
        }
    }
    proof {
        assert(v@ =~= keys);
    }
    v
}


/// A chat session: who it is and where its messages go.
pub struct ConnectedUser<S> {
    pub id: u128,
    pub name: String,
    pub socket: S,
}

/// The chat lobby: the connected sessions, by identifier, and the rooms, each
/// the set of the sessions in it.
pub struct Lobby<S> {
    sessions: HashMap<u128, ConnectedUser<S>>,
    rooms: HashMap<u128, HashSet<u128>>,
}

/// Mathematical value of a [`Lobby`].
pub struct LobbyModel<S> {
    pub users: Map<u128, ConnectedUser<S>>,
    pub rooms: Map<u128, Set<u128>>,
}

/// Why a private message could not be delivered.
#[derive(Clone, Copy, Debug, PartialEq, Eq, Structural)]
pub enum LobbyError {
    /// The addressee is not the text of an identifier.
    InvalidRecipient,
    /// No session has the addressee's identifier.
    UnknownRecipient,
    /// No session has the sender's identifier.
    UnknownSender,
}

/// The message that tells every member of a room who is in it.
pub open spec fn roster_message(json: Seq<char>) -> WebSocketMessageView {
    WebSocketMessageView { msg_type: OutgoingMessageType::Roster, data: MessageValueView::Text(json) }
}

/// The message that tells a new session its own identifier.
pub open spec fn user_info_message(id: u128) -> WebSocketMessageView {
    WebSocketMessageView {
        msg_type: OutgoingMessageType::UserInfo,
        data: MessageValueView::Text(hyphenated(id)),
    }
}

/// A chat line from the user called `name` with identifier `sender_id`.
pub open spec fn chat_line(name: Seq<char>, sender_id: u128, message: Seq<char>, time: Seq<char>)
    -> WebSocketMessageView {
    WebSocketMessageView {
        msg_type: OutgoingMessageType::Msg,
        data: MessageValueView::Message(
            TextMessageView { sender: name, sender_id: hyphenated(sender_id), message, time },
        ),
    }
}

/// The roster `json` for each of `targets` in turn, leaving out `except`.
pub open spec fn roster_deliveries(targets: Seq<u128>, except: Option<u128>, json: Seq<char>) -> Seq<
    DeliveryView,
>
    decreases targets.len(),
{
    if targets.len() == 0 {
        Seq::empty()
    } else {
        let rest = roster_deliveries(targets.drop_last(), except, json);
        if except == Some(targets.last()) {
            rest
        } else {
            rest.push(DeliveryView { to: targets.last(), message: roster_message(json) })
        }
    }
}

impl<S> LobbyModel<S> {
    /// The sessions in a room; none where there is no such room.
    pub open spec fn members(self, room: u128) -> Set<u128> {
        if self.rooms.contains_key(room) {
            self.rooms[room]
        } else {
            Set::empty()
        }
    }

    /// The lobby's invariant: each session is filed under its own identifier,
    /// each room is a finite set of one or more sessions, and each member of
    /// a room is a connected session.
    pub open spec fn wf(self) -> bool {
        &&& forall|k: u128| #[trigger] self.users.contains_key(k) ==> self.users[k].id == k
        &&& forall|r: u128| #[trigger]
            self.rooms.contains_key(r) ==> self.rooms[r].finite() && self.rooms[r].len() > 0
        &&& forall|r: u128, m: u128| #[trigger]
            self.rooms.contains_key(r) && #[trigger] self.rooms[r].contains(m)
                ==> self.users.contains_key(m)
    }

    /// Every member of `room` other than `id` is a connected session.
    pub open spec fn room_known_except(self, room: u128, id: u128) -> bool {
        forall|m: u128| #[trigger] self.members(room).contains(m) && m != id ==> self.users.contains_key(m)
    }

    /// `room` exists and, if it has members, they and `sender` are connected.
    pub open spec fn can_broadcast(self, room: u128, sender: u128) -> bool {
        &&& self.rooms.contains_key(room)
        &&& forall|m: u128| #[trigger]
            self.members(room).contains(m) ==> self.users.contains_key(m) && self.users.contains_key(sender)
    }

    /// `id` is in no room other than `room`.
    pub open spec fn only_in(self, id: u128, room: u128) -> bool {
        forall|r: u128| #[trigger] self.rooms.contains_key(r) && r != room ==> !self.rooms[r].contains(id)
    }

    /// The names of the sessions in `order`.
    pub open spec fn names(self, order: Seq<u128>) -> Seq<Seq<char>> {
        order.map_values(|m: u128| self.users[m].name@)
    }

    /// The roster of the sessions in `order`, sent to each of them but `except`.
    pub open spec fn roster(self, order: Seq<u128>, except: Option<u128>) -> Seq<DeliveryView> {
        roster_deliveries(order, except, json_text_array(self.names(order)))
    }

    /// `out` is the roster of `room` for some order of its members.
    pub open spec fn is_roster_for(self, room: u128, except: Option<u128>, out: Seq<DeliveryView>) -> bool {
        exists|order: Seq<u128>| is_listing(order, self.members(room)) && out == self.roster(order, except)
    }

    /// `d` is the chat line `message` from `sender` to `to`, stamped with a
    /// UTC time.
    pub open spec fn is_chat_line(self, d: DeliveryView, message: Seq<char>, sender: u128, to: u128) -> bool {
        &&& d.to == to
        &&& is_utc_stamp(d.message.data->Message_0.time)
        &&& d.message == chat_line(
            self.users[sender].name@,
            self.users[sender].id,
            message,
            d.message.data->Message_0.time,
        )
    }

    /// A private line in `text` from `sender` names, as its second piece, the
    /// identifier of a connected session, and `sender` is connected; other
    /// lines ask for nothing.
    pub open spec fn whisper_ready(self, text: Seq<char>, sender: u128) -> bool {
        is_whisper(text) && second_field(text) is Some ==> {
            &&& uuid_parse(second_field(text)->0) is Some
            &&& self.users.contains_key(uuid_parse(second_field(text)->0)->0)
            &&& self.users.contains_key(sender)
        }
    }

    /// `out` is the chat line `message` from `sender` for each of `order`, in turn.
    pub open spec fn is_broadcast_in(self, order: Seq<u128>, message: Seq<char>, sender: u128, out: Seq<DeliveryView>) -> bool {
        out.len() == order.len() && forall|j: int|
            0 <= j < order.len() ==> #[trigger] self.is_chat_line(out[j], message, sender, order[j])
    }

    /// `out` is the chat line `message` from `sender` for each member of
    /// `room`, in some order of the members.
    pub open spec fn is_broadcast(self, room: u128, message: Seq<char>, sender: u128, out: Seq<DeliveryView>) -> bool {
        exists|order: Seq<u128>|
            #![trigger is_listing(order, self.members(room))]
            is_listing(order, self.members(room)) && out.len() == order.len() && forall|j: int|
                0 <= j < order.len() ==> #[trigger] self.is_chat_line(out[j], message, sender, order[j])
    }

    /// The lobby after session `id` joins `room` as `user`.
    pub open spec fn connected(self, room: u128, id: u128, user: ConnectedUser<S>) -> Self {
        LobbyModel {
            users: self.users.insert(id, user),
            rooms: self.rooms.insert(room, self.members(room).insert(id)),
        }
    }

    /// The lobby after session `id` leaves `room`: nothing changes for an
    /// unknown session; a room of one member or none is closed.
    pub open spec fn disconnected(self, room: u128, id: u128) -> Self {
        if !self.users.contains_key(id) {
            self
        } else if !self.rooms.contains_key(room) {
            LobbyModel { users: self.users.remove(id), rooms: self.rooms }
        } else if self.rooms[room].len() > 1 {
            LobbyModel {
                users: self.users.remove(id),
                rooms: self.rooms.insert(room, self.rooms[room].remove(id)),
            }
        } else {
            LobbyModel { users: self.users.remove(id), rooms: self.rooms.remove(room) }
        }
    }
}

impl<S> View for Lobby<S> {
    type V = LobbyModel<S>;

    closed spec fn view(&self) -> LobbyModel<S> {
        LobbyModel {
            users: self.sessions@,
            rooms: self.rooms@.map_values(|r: HashSet<u128>| r@),
        }
    }
}

impl<S> Lobby<S> {
    /// An empty lobby.
    pub fn new() -> (l: Self)
        ensures
            l@.users == Map::<u128, ConnectedUser<S>>::empty(),
            l@.rooms == Map::<u128, Set<u128>>::empty(),
            l@.wf(),
    {
        let l = Lobby { sessions: HashMap::new(), rooms: HashMap::new() };
        assert(l@.rooms =~= Map::<u128, Set<u128>>::empty());
        l
    }

    /// The members of a room in the order in which its set hands them out:
    /// the order of the roster, and of the recipients of a broadcast.
    pub closed spec fn room_order(&self, room_id: u128) -> Seq<u128> {
        set_order(self.rooms@[room_id])
    }

    /// Every room of a lobby is a finite set.
    pub proof fn lemma_rooms_finite(&self)
        ensures
            forall|r: u128| #[trigger] self@.rooms.contains_key(r) ==> self@.rooms[r].finite(),
    {
        assert forall|r: u128| #[trigger] self@.rooms.contains_key(r) implies self@.rooms[r].finite() by {
            let room = self.rooms@[r];
            let keys = vstd::std_specs::hash::spec_hash_keys_iter(&room).remaining();
            assert(keys.unref().to_set() == room@);
            keys.unref().lemma_cardinality_of_set();
        }
    }

    /// The message that tells `user` its identifier.
    fn send_user_info(user: &ConnectedUser<S>) -> (d: Delivery)
        ensures
            d@ == (DeliveryView { to: user.id, message: user_info_message(user.id) }),
    {
        Delivery {
            to: user.id,
            message: WebSocketMessage {
                msgType: OutgoingMessageType::UserInfo,
                data: MessageValue::String(uuid_text(user.id)),
            },
        }
    }

    /// The roster of a room, in the room's order, for each of its members but
    /// `except`. Whoever is left out, the text is the same: it names every
    /// member.
    pub fn send_roster(&self, room_id: u128, except: Option<u128>) -> (out: Vec<Delivery>)
        requires
            self@.rooms.contains_key(room_id),
            forall|m: u128| #[trigger] self@.rooms[room_id].contains(m) ==> self@.users.contains_key(m),
        ensures
            deliveries_view(out@) == self@.roster(self.room_order(room_id), except),
            forall|i: int| #![trigger out@[i]] 0 <= i < out@.len() ==> out@[i]@.message == (WebSocketMessageView {
                msg_type: OutgoingMessageType::Roster,
                data: MessageValueView::Text(json_text_array(Seq::new(
                    self.room_order(room_id).len(),
                    |j: int| self@.users[self.room_order(room_id)[j]].name@,
                ))),
            }),
            is_listing(self.room_order(room_id), self@.members(room_id)),
            self@.is_roster_for(room_id, except, deliveries_view(out@)),
    {
        let room = self.rooms.get(&room_id).unwrap();
        let order = listing_of(room);
        assert(order@.to_set() == self@.rooms[room_id]);
        let mut names: Vec<String> = Vec::new();
        let mut i: usize = 0;
        while i < order.len()
            invariant
                i <= order.len(),
                self@.rooms.contains_key(room_id),
                order@.to_set() == self@.rooms[room_id],
                forall|m: u128| #[trigger] self@.rooms[room_id].contains(m) ==> self@.users.contains_key(m),
                texts(names@) == self@.names(order@.take(i as int)),
            decreases order.len() - i,
        {
            let m = order[i];
            assert(order@.to_set().contains(m));
            let user = self.sessions.get(&m).unwrap();
            assert(*user == self@.users[m]);
            let name = user.name.clone();
            assert(name@ == self@.users[m].name@);
            let ghost prev = names@;
            names.push(name);
            proof {
                assert(order@.take(i + 1) =~= order@.take(i as int).push(m));
                assert(texts(names@) =~= texts(prev).push(name@));
                assert(self@.names(order@.take(i + 1)) =~= self@.names(order@.take(i as int)).push(self@.users[m].name@));
            }
            i = i + 1;
        }
        assert(order@.take(order.len() as int) =~= order@);
        let json = match json_of_names(&names) {
            Ok(s) => s,
            Err(_) => String::new(),
        };
        assert(json@ == json_text_array(self@.names(order@)));
        let mut out: Vec<Delivery> = Vec::new();
        let mut j: usize = 0;
        while j < order.len()
            invariant
                j <= order.len(),
                deliveries_view(out@) == roster_deliveries(order@.take(j as int), except, json@),
            decreases order.len() - j,
        {
            let m = order[j];
            let skip = match except {
                Some(e) => e == m,
                None => false,
            };
            assert(order@.take(j + 1).drop_last() =~= order@.take(j as int));
            if !skip {
                out.push(
                    Delivery {
                        to: m,
                        message: WebSocketMessage {
                            msgType: OutgoingMessageType::Roster,
                            data: MessageValue::String(json.clone()),
                        },
                    },
                );
                assert(deliveries_view(out@) =~= roster_deliveries(order@.take(j + 1), except, json@));
            } else {
                assert(deliveries_view(out@) =~= roster_deliveries(order@.take(j + 1), except, json@));
            }
            j = j + 1;
        }
        assert(is_listing(order@, self@.members(room_id)));
        assert(order@.take(order.len() as int) =~= order@);
        assert(deliveries_view(out@) == self@.roster(order@, except));
        proof {
            lemma_roster_names_everyone(self@, order@, except);
            assert forall|i: int| #![trigger out@[i]] 0 <= i < out@.len() implies out@[i]@.message == (WebSocketMessageView {
                msg_type: OutgoingMessageType::Roster,
                data: MessageValueView::Text(json_text_array(Seq::new(
                    self.room_order(room_id).len(),
                    |j: int| self@.users[self.room_order(room_id)[j]].name@,
                ))),
            }) by {
                assert(deliveries_view(out@)[i] == out@[i]@);
                assert(self@.roster(order@, except)[i].message == (WebSocketMessageView {
                    msg_type: OutgoingMessageType::Roster,
                    data: MessageValueView::Text(json_text_array(Seq::new(order@.len(), |j: int| self@.users[order@[j]].name@))),
                }));
            }
        }
        out
    }

    /// Session `msg.self_id` joins room `msg.lobby_id`, which is opened if
    /// need be. The session is told its identifier, then every member of the
    /// room, the newcomer included, gets the room's roster.
    pub fn handle_connect(&mut self, msg: Connect<S>) -> (out: Vec<Delivery>)
        requires
            old(self)@.room_known_except(msg.lobby_id, msg.self_id),
        ensures
            final(self)@ == old(self)@.connected(
                msg.lobby_id,
                msg.self_id,
                ConnectedUser { id: msg.self_id, name: msg.username, socket: msg.addr },
            ),
            out@.len() >= 1,
            out@[0]@ == (DeliveryView { to: msg.self_id, message: user_info_message(msg.self_id) }),
            out@[0]@ == (DeliveryView {
                to: msg.self_id,
                message: WebSocketMessageView {
                    msg_type: OutgoingMessageType::UserInfo,
                    data: MessageValueView::Text(hyphenated(msg.self_id)),
                },
            }),
            deliveries_view(out@).drop_first() == final(self)@.roster(final(self).room_order(msg.lobby_id), None),
            is_listing(final(self).room_order(msg.lobby_id), final(self)@.members(msg.lobby_id)),
            final(self)@.is_roster_for(msg.lobby_id, None, deliveries_view(out@).drop_first()),
            old(self)@.wf() ==> final(self)@.wf(),
    {
        let ghost before = self@;
        let Connect { addr, lobby_id, self_id, username } = msg;
        let mut room = match self.rooms.remove(&lobby_id) {
            Some(r) => r,
            None => HashSet::new(),
        };
        room.insert(self_id);
        self.rooms.insert(lobby_id, room);
        let connected_user = ConnectedUser { id: self_id, name: username, socket: addr };
        let info = Self::send_user_info(&connected_user);
        self.sessions.insert(self_id, connected_user);
        proof {
            assert(self@.rooms =~= before.rooms.insert(lobby_id, before.members(lobby_id).insert(self_id)));
            assert(self@ == before.connected(lobby_id, self_id, connected_user));
            assert forall|m: u128| #[trigger] self@.rooms[lobby_id].contains(m) implies self@.users.contains_key(m) by {
                if m != self_id {
                    assert(before.members(lobby_id).contains(m));
                }
            }
        }
        let mut roster = self.send_roster(lobby_id, None);
        let mut out: Vec<Delivery> = Vec::new();
        out.push(info);
        let ghost roster_view = deliveries_view(roster@);
        out.append(&mut roster);
        proof {
            assert(deliveries_view(out@).drop_first() =~= roster_view);
            if before.wf() {
                lemma_join_keeps_wf(before, lobby_id, self_id, connected_user);
            }
        }
        out
    }

    /// Session `msg.id` leaves room `msg.room_id`. An unknown session changes
    /// nothing. Otherwise the session is dropped; a room of several members
    /// loses it and sends its new roster to the rest, a room of one closes.
    pub fn handle_disconnect(&mut self, msg: Disconnect) -> (out: Vec<Delivery>)
        requires
            old(self)@.users.contains_key(msg.id) && old(self)@.rooms.contains_key(msg.room_id)
                && old(self)@.rooms[msg.room_id].len() > 1 ==> old(self)@.room_known_except(msg.room_id, msg.id),
        ensures
            final(self)@ == old(self)@.disconnected(msg.room_id, msg.id),
            if old(self)@.users.contains_key(msg.id) && old(self)@.rooms.contains_key(msg.room_id)
                && old(self)@.rooms[msg.room_id].len() > 1 {
                &&& deliveries_view(out@) == final(self)@.roster(final(self).room_order(msg.room_id), None)
                &&& is_listing(final(self).room_order(msg.room_id), final(self)@.members(msg.room_id))
                &&& final(self)@.is_roster_for(msg.room_id, None, deliveries_view(out@))
            } else {
                out@.len() == 0
            },
            old(self)@.wf() && old(self)@.only_in(msg.id, msg.room_id) ==> final(self)@.wf(),
    {
        let ghost before = self@;
        let out = if self.sessions.remove(&msg.id).is_some() {
            match self.rooms.remove(&msg.room_id) {
                Some(mut room) => {
                    if room.len() > 1 {
                        room.remove(&msg.id);
                        self.rooms.insert(msg.room_id, room);
                        proof {
                            assert(self@.rooms =~= before.rooms.insert(msg.room_id, before.rooms[msg.room_id].remove(msg.id)));
                            assert forall|m: u128| #[trigger] self@.rooms[msg.room_id].contains(m)
                                implies self@.users.contains_key(m) by {
                                assert(before.members(msg.room_id).contains(m));
                            }
                        }
                        assert(self@ == before.disconnected(msg.room_id, msg.id));
                        self.send_roster(msg.room_id, None)
                    } else {
                        proof {
                            assert(self@.rooms =~= before.rooms.remove(msg.room_id));
                            assert(self@ == before.disconnected(msg.room_id, msg.id));
                        }
                        Vec::new()
                    }
                },
                None => {
                    proof {
                        assert(self@.rooms =~= before.rooms);
                        assert(self@ == before.disconnected(msg.room_id, msg.id));
                    }
                    Vec::new()
                },
            }
        } else {
            proof {
                assert(self@.users =~= before.users);
                assert(self@.rooms =~= before.rooms);
            }
            Vec::new()
        };
        proof {
            if before.wf() && before.only_in(msg.id, msg.room_id) {
                lemma_leave_keeps_wf(before, msg.room_id, msg.id);
            }
        }
        out
    }

    /// The chat line `message` from session `sender` to session `id_to`,
    /// stamped `time`.
    pub fn text_delivery(&self, message: &String, sender: u128, id_to: u128, time: String) -> (d: Delivery)
        requires
            self@.users.contains_key(id_to),
            self@.users.contains_key(sender),
        ensures
            d@ == (DeliveryView {
                to: id_to,
                message: chat_line(self@.users[sender].name@, self@.users[sender].id, message@, time@),
            }),
            d.to == id_to,
            d.message.msgType == OutgoingMessageType::Msg,
            d.message.data is Message,
            d.message.data->Message_0.message@ == message@,
            d.message.data->Message_0.sender@ == self@.users[sender].name@,
            d.message.data->Message_0.senderId@ == hyphenated(self@.users[sender].id),
            d.message.data->Message_0.time == time,
    {
        let user = self.sessions.get(&sender).unwrap();
        Delivery {
            to: id_to,
            message: WebSocketMessage {
                msgType: OutgoingMessageType::Msg,
                data: MessageValue::Message(
                    TextMessage {
                        sender: user.name.clone(),
                        senderId: uuid_text(user.id),
                        message: message.clone(),
                        time,
                    },
                ),
            },
        }
    }

    /// The chat line `message` from `sender` to `id_to`, stamped with the
    /// current time.
    fn send_message(&self, message: &String, sender: u128, id_to: u128) -> (d: Delivery)
        requires
            self@.users.contains_key(id_to),
            self@.users.contains_key(sender),
        ensures
            self@.is_chat_line(d@, message@, sender, id_to),
            d.message.data->Message_0.message@ == message@,
            call_ensures(clock_text, (), d.message.data->Message_0.time),
    {
        let time = clock_text();
        self.text_delivery(message, sender, id_to, time)
    }

    /// The chat line of `msg` for every member of its room, in the room's
    /// order, each stamped with the time at which it is made.
    fn broadcast(&self, msg: &ClientActorMessage) -> (out: Vec<Delivery>)
        requires
            self@.can_broadcast(msg.room_id, msg.id),
        ensures
            self@.is_broadcast_in(self.room_order(msg.room_id), msg.msg@, msg.id, deliveries_view(out@)),
            is_listing(self.room_order(msg.room_id), self@.members(msg.room_id)),
            forall|j: int| #![trigger out@[j]] 0 <= j < out@.len() ==> call_ensures(clock_text, (), out@[j].message.data->Message_0.time)
                && out@[j].message.data is Message && out@[j].message.data->Message_0.message@ == msg.msg@,
    {
        let room = self.rooms.get(&msg.room_id).unwrap();
        let order = listing_of(room);
        let mut out: Vec<Delivery> = Vec::new();
        let mut i: usize = 0;
        while i < order.len()
            invariant
                i <= order.len(),
                self@.can_broadcast(msg.room_id, msg.id),
                order@.to_set() == self@.members(msg.room_id),
                out@.len() == i,
                forall|j: int| 0 <= j < i ==> #[trigger] self@.is_chat_line(out@[j]@, msg.msg@, msg.id, order@[j]),
                forall|j: int| #![trigger out@[j]] 0 <= j < out@.len() ==> call_ensures(clock_text, (), out@[j].message.data->Message_0.time)
                && out@[j].message.data is Message && out@[j].message.data->Message_0.message@ == msg.msg@,
            decreases order.len() - i,
        {
            let m = order[i];
            assert(order@.to_set().contains(m));
            let d = self.send_message(&msg.msg, msg.id, m);
            let ghost prev = out@;
            out.push(d);
            proof {
                assert forall|j: int| #![trigger out@[j]] 0 <= j < out@.len() implies call_ensures(clock_text, (), out@[j].message.data->Message_0.time)
                    && out@[j].message.data is Message && out@[j].message.data->Message_0.message@ == msg.msg@ by {
                    if j < i {
                        assert(out@[j] == prev[j]);
                    }
                }
            }
            i = i + 1;
        }
        proof {
            let outv = deliveries_view(out@);
            assert(forall|j: int| 0 <= j < order@.len() ==> #[trigger] self@.is_chat_line(outv[j], msg.msg@, msg.id, order@[j]));
        }
        out
    }

    /// A line typed by the client of session `msg.id` in room `msg.room_id`.
    /// A line that starts with a backslash and `w` is private: it goes, whole,
    /// to the session whose identifier is its second space-separated piece,
    /// and nowhere if there is no such piece. Any other line goes to every
    /// member of the room, in the room's order.
    pub fn handle_client_message(&self, msg: &ClientActorMessage) -> (out: Vec<Delivery>)
        requires
            !is_whisper(msg.msg@) ==> self@.can_broadcast(msg.room_id, msg.id),
            self@.whisper_ready(msg.msg@, msg.id),
        ensures
            !is_whisper(msg.msg@) ==> self@.is_broadcast_in(
                self.room_order(msg.room_id),
                msg.msg@,
                msg.id,
                deliveries_view(out@),
            ) && is_listing(self.room_order(msg.room_id), self@.members(msg.room_id)),
            !is_whisper(msg.msg@) ==> self@.is_broadcast(msg.room_id, msg.msg@, msg.id, deliveries_view(out@)),
            // A line that does not start with a backslash goes to every member.
            msg.msg@.len() == 0 || msg.msg@[0] != '\\' ==> self@.is_broadcast_in(
                self.room_order(msg.room_id),
                msg.msg@,
                msg.id,
                deliveries_view(out@),
            ),
            is_whisper(msg.msg@) && second_field(msg.msg@) is None ==> out@.len() == 0,
            is_whisper(msg.msg@) && second_field(msg.msg@) is Some ==> out@.len() == 1 && self@.is_chat_line(
                out@[0]@,
                msg.msg@,
                msg.id,
                uuid_parse(second_field(msg.msg@)->0)->0,
            ),
            // A private message addressed by the text of a connected session's
            // identifier reaches that session, and only it.
            forall|target: u128|
                #![trigger self@.users.contains_key(target)]
                is_whisper(msg.msg@) && second_field(msg.msg@) == Some(hyphenated(target))
                    && self@.users.contains_key(target) ==> out@.len() == 1 && out@[0].to == target,
            // Every line delivered is the whole line typed, stamped with a
            // reading of the clock taken for it.
            forall|j: int| #![trigger out@[j]] 0 <= j < out@.len() ==> call_ensures(clock_text, (), out@[j].message.data->Message_0.time)
                && out@[j].message.data is Message && out@[j].message.data->Message_0.message@ == msg.msg@,
    {
        if is_whisper_text(msg.msg.as_str()) {
            match second_field_text(msg.msg.as_str()) {
                Some(field) => {
                    match parse_uuid(field) {
                        Ok(target) => {
                            let mut out: Vec<Delivery> = Vec::new();
                            out.push(self.send_message(&msg.msg, msg.id, target));
                            out
                        },
                        Err(_) => Vec::new(),
                    }
                },
                None => Vec::new(),
            }
        } else {
            let out = self.broadcast(msg);
            proof {
                assert(is_listing(self.room_order(msg.room_id), self@.members(msg.room_id)));
            }
            out
        }
    }

    /// [`Lobby::handle_client_message`] where the private message's
    /// addressee is tested first: an addressee that is not the text of an
    /// identifier, an unknown addressee and an unknown sender, checked in this
    /// order, each give their error and no deliveries.
    pub fn try_handle_client_message(&self, msg: &ClientActorMessage) -> (r: Result<Vec<Delivery>, LobbyError>)
        requires
            !is_whisper(msg.msg@) ==> self@.can_broadcast(msg.room_id, msg.id),
        ensures
            self@.whisper_ready(msg.msg@, msg.id) ==> r is Ok,
            is_whisper(msg.msg@) && second_field(msg.msg@) is Some ==> match uuid_parse(
                second_field(msg.msg@)->0,
            ) {
                None => r == Err::<Vec<Delivery>, LobbyError>(LobbyError::InvalidRecipient),
                Some(target) => if !self@.users.contains_key(target) {
                    r == Err::<Vec<Delivery>, LobbyError>(LobbyError::UnknownRecipient)
                } else if !self@.users.contains_key(msg.id) {
                    r == Err::<Vec<Delivery>, LobbyError>(LobbyError::UnknownSender)
                } else {
                    r is Ok
                },
            },
            r matches Ok(out) ==> self@.whisper_ready(msg.msg@, msg.id) && (!is_whisper(msg.msg@)
                ==> self@.is_broadcast_in(self.room_order(msg.room_id), msg.msg@, msg.id, deliveries_view(out@))
                && is_listing(self.room_order(msg.room_id), self@.members(msg.room_id))) && (is_whisper(msg.msg@)
                && second_field(msg.msg@) is None ==> out@.len() == 0) && (is_whisper(msg.msg@)
                && second_field(msg.msg@) is Some ==> out@.len() == 1 && self@.is_chat_line(
                out@[0]@,
                msg.msg@,
                msg.id,
                uuid_parse(second_field(msg.msg@)->0)->0,
            )),
            r matches Ok(out) ==> forall|j: int| #![trigger out@[j]] 0 <= j < out@.len() ==> call_ensures(clock_text, (), out@[j].message.data->Message_0.time)
                && out@[j].message.data is Message && out@[j].message.data->Message_0.message@ == msg.msg@,
    {
        if is_whisper_text(msg.msg.as_str()) {
            if let Some(field) = second_field_text(msg.msg.as_str()) {
                match parse_uuid(field) {
                    Ok(target) => {
                        if !self.sessions.contains_key(&target) {
                            return Err(LobbyError::UnknownRecipient);
                        }
                        if !self.sessions.contains_key(&msg.id) {
                            return Err(LobbyError::UnknownSender);
                        }
                    },
                    Err(_) => {
                        return Err(LobbyError::InvalidRecipient);
                    },
                }
            }
        }
        Ok(self.handle_client_message(msg))
    }

    /// The session with identifier `id`, if it is connected.
    pub fn user(&self, id: u128) -> (r: Option<&ConnectedUser<S>>)
        ensures
            match r {
                Some(u) => self@.users.contains_key(id) && *u == self@.users[id],
                None => !self@.users.contains_key(id),
            },
    {
        self.sessions.get(&id)
    }

    /// The members of a room, in some order, if the room is open.
    pub fn room_members(&self, room_id: u128) -> (r: Option<Vec<u128>>)
        ensures
            match r {
                Some(v) => self@.rooms.contains_key(room_id) && is_listing(v@, self@.rooms[room_id]),
                None => !self@.rooms.contains_key(room_id),
            },
    {
        match self.rooms.get(&room_id) {
            Some(room) => Some(listing_of(room)),
            None => None,
        }
    }

    /// Whether every member of `room_id` other than `id` is connected: what
    /// [`Lobby::handle_connect`] needs.
    pub fn room_known_except(&self, room_id: u128, id: u128) -> (b: bool)
        ensures
            b == self@.room_known_except(room_id, id),
    {
        match self.rooms.get(&room_id) {
            None => true,
            Some(room) => {
                let order = listing_of(room);
                let mut i: usize = 0;
                while i < order.len()
                    invariant
                        i <= order.len(),
                        self@.rooms.contains_key(room_id),
                        order@.to_set() == self@.members(room_id),
                        forall|j: int| 0 <= j < i && order@[j] != id ==> self@.users.contains_key(#[trigger] order@[j]),
                    decreases order.len() - i,
                {
                    let m = order[i];
                    if m != id && !self.sessions.contains_key(&m) {
                        assert(order@.to_set().contains(m));
                        return false;
                    }
                    i = i + 1;
                }
                proof {
                    assert forall|m: u128| #[trigger] self@.members(room_id).contains(m) && m != id
                        implies self@.users.contains_key(m) by {
                        assert(order@.to_set().contains(m));
                        let j = choose|j: int| 0 <= j < order@.len() && order@[j] == m;
                        assert(order@[j] == m);
                    }
                }
                true
            },
        }
    }

    /// Whether a line from `sender` can go to the whole of `room_id`: what
    /// [`Lobby::handle_client_message`] needs of a line that is not private.
    pub fn can_broadcast(&self, room_id: u128, sender: u128) -> (b: bool)
        ensures
            b == self@.can_broadcast(room_id, sender),
    {
        match self.rooms.get(&room_id) {
            None => false,
            Some(room) => {
                let sender_known = self.sessions.contains_key(&sender);
                let order = listing_of(room);
                let mut i: usize = 0;
                while i < order.len()
                    invariant
                        i <= order.len(),
                        self@.rooms.contains_key(room_id),
                        sender_known == self@.users.contains_key(sender),
                        order@.to_set() == self@.members(room_id),
                        forall|j: int| 0 <= j < i ==> self@.users.contains_key(#[trigger] order@[j]) && sender_known,
                    decreases order.len() - i,
                {
                    let m = order[i];
                    if !self.sessions.contains_key(&m) || !sender_known {
                        assert(order@.to_set().contains(m));
                        return false;
                    }
                    i = i + 1;
                }
                proof {
                    assert forall|m: u128| #[trigger] self@.members(room_id).contains(m)
                        implies self@.users.contains_key(m) && self@.users.contains_key(sender) by {
                        assert(order@.to_set().contains(m));
                        let j = choose|j: int| 0 <= j < order@.len() && order@[j] == m;
                        assert(order@[j] == m);
                    }
                }
                true
            },
        }
    }
}

impl<S> Default for Lobby<S> {
    fn default() -> (l: Self)
        ensures
            l@.users == Map::<u128, ConnectedUser<S>>::empty(),
            l@.rooms == Map::<u128, Set<u128>>::empty(),
            l@.wf(),
    {
        Lobby::new()
    }
}

/// A session that joins a room and then leaves it leaves the lobby as it was
/// before: the room gets back its members, or closes again if the session
/// opened it.
pub proof fn lemma_leave_undoes_join<S>(l: LobbyModel<S>, room: u128, id: u128, user: ConnectedUser<S>)
    requires
        l.wf(),
        !l.users.contains_key(id),
    ensures
        l.connected(room, id, user).disconnected(room, id) == l,
{
    let c = l.connected(room, id, user);
    let d = c.disconnected(room, id);
    assert(d.users =~= l.users);
    if l.rooms.contains_key(room) {
        let old_room = l.rooms[room];
        assert(!old_room.contains(id));
        assert(old_room.insert(id).len() == old_room.len() + 1);
        assert(old_room.insert(id).remove(id) =~= old_room);
        assert(d.rooms =~= l.rooms);
    } else {
        assert(l.members(room).insert(id) =~= set![id]);
        assert(set![id].len() == 1) by {
            assert(Set::<u128>::empty().insert(id).len() == 1);
        }
        assert(d.rooms =~= l.rooms);
    }
}

/// Leaving a second time changes nothing: a session that has left is unknown.
pub proof fn lemma_leave_twice<S>(l: LobbyModel<S>, room: u128, id: u128)
    ensures
        l.disconnected(room, id).disconnected(room, id) == l.disconnected(room, id),
{
    assert(!l.disconnected(room, id).users.contains_key(id));
}

/// A roster that leaves no one out goes to each listed session once, in the
/// order of the listing, and carries the same text to all of them.
pub proof fn lemma_roster_reaches_all(targets: Seq<u128>, json: Seq<char>)
    ensures
        roster_deliveries(targets, None, json).len() == targets.len(),
        forall|i: int|
            0 <= i < targets.len() ==> #[trigger] roster_deliveries(targets, None, json)[i] == (DeliveryView {
                to: targets[i],
                message: roster_message(json),
            }),
    decreases targets.len(),
{
    if targets.len() > 0 {
        lemma_roster_reaches_all(targets.drop_last(), json);
    }
}

/// A joining session becomes a connected member of its room; the other rooms
/// and the other sessions stay as they were.
pub proof fn lemma_join_admits<S>(l: LobbyModel<S>, room: u128, id: u128, user: ConnectedUser<S>)
    ensures
        l.connected(room, id, user).users[id] == user,
        l.connected(room, id, user).members(room) == l.members(room).insert(id),
        forall|r: u128| r != room ==> #[trigger] l.connected(room, id, user).members(r) == l.members(r),
        forall|k: u128| k != id ==> #[trigger] l.connected(room, id, user).users.contains_key(k) == l.users.contains_key(k),
{
}

/// Joining keeps the lobby's invariant, for a session filed under its own
/// identifier.
pub proof fn lemma_join_keeps_wf<S>(l: LobbyModel<S>, room: u128, id: u128, user: ConnectedUser<S>)
    requires
        l.wf(),
        user.id == id,
    ensures
        l.connected(room, id, user).wf(),
{
    let after = l.connected(room, id, user);
    assert forall|r: u128| #[trigger] after.rooms.contains_key(r) implies after.rooms[r].finite()
        && after.rooms[r].len() > 0 by {
        if r == room {
            assert(after.rooms[r].contains(id));
        }
    }
    assert forall|r: u128, m: u128| #[trigger] after.rooms.contains_key(r) && #[trigger] after.rooms[r].contains(m)
        implies after.users.contains_key(m) by {
        if r != room || m != id {
            assert(l.rooms.contains_key(r) && l.rooms[r].contains(m));
        }
    }
}

/// Leaving keeps the lobby's invariant when the leaving session is in no
/// room other than the one it leaves.
pub proof fn lemma_leave_keeps_wf<S>(l: LobbyModel<S>, room: u128, id: u128)
    requires
        l.wf(),
        l.only_in(id, room),
    ensures
        l.disconnected(room, id).wf(),
{
    let after = l.disconnected(room, id);
    assert forall|r: u128| #[trigger] after.rooms.contains_key(r) implies after.rooms[r].finite()
        && after.rooms[r].len() > 0 by {
        assert(l.rooms.contains_key(r));
        if r == room && l.users.contains_key(id) {
            let old_room = l.rooms[r];
            if old_room.contains(id) {
                assert(old_room.remove(id).len() == old_room.len() - 1);
            } else {
                assert(old_room.remove(id) =~= old_room);
            }
        }
    }
    assert forall|r: u128, m: u128| #[trigger] after.rooms.contains_key(r) && #[trigger] after.rooms[r].contains(m)
        implies after.users.contains_key(m) by {
        assert(l.rooms.contains_key(r) && l.rooms[r].contains(m));
    }
}

/// A lobby whose only room is `room` stays well-formed, with no other room,
/// through any join of `room` and any leave of `room`: the server puts every
/// chat session in one room.
pub proof fn lemma_single_room_stays_wf<S>(l: LobbyModel<S>, room: u128, id: u128, user: ConnectedUser<S>)
    requires
        l.wf(),
        forall|r: u128| #[trigger] l.rooms.contains_key(r) ==> r == room,
        user.id == id,
    ensures
        l.connected(room, id, user).wf(),
        forall|r: u128| #[trigger] l.connected(room, id, user).rooms.contains_key(r) ==> r == room,
        l.disconnected(room, id).wf(),
        forall|r: u128| #[trigger] l.disconnected(room, id).rooms.contains_key(r) ==> r == room,
{
    lemma_join_keeps_wf(l, room, id, user);
    lemma_leave_keeps_wf(l, room, id);
}

/// A roster withheld from a session that is not listed is the whole roster.
proof fn lemma_roster_except_absent(targets: Seq<u128>, x: u128, json: Seq<char>)
    requires
        !targets.contains(x),
    ensures
        roster_deliveries(targets, Some(x), json) == roster_deliveries(targets, None, json),
    decreases targets.len(),
{
    if targets.len() > 0 {
        assert(targets.drop_last().contains(x) ==> targets.contains(x)) by {
            if targets.drop_last().contains(x) {
                let i = choose|i: int| 0 <= i < targets.drop_last().len() && targets.drop_last()[i] == x;
                assert(targets[i] == x);
            }
        }
        assert(targets.last() != x) by {
            assert(targets[targets.len() - 1] == targets.last());
        }
        lemma_roster_except_absent(targets.drop_last(), x, json);
    }
}

/// The roster that leaves out the `k`-th listed session is the full roster
/// without the delivery to that session: the same text, which still lists
/// that session's name, goes to everyone else in the same order.
pub proof fn lemma_roster_leaving_out(targets: Seq<u128>, k: int, json: Seq<char>)
    requires
        targets.no_duplicates(),
        0 <= k < targets.len(),
    ensures
        roster_deliveries(targets, Some(targets[k]), json) == roster_deliveries(targets, None, json).remove(k),
    decreases targets.len(),
{
    let n = targets.len();
    let rest = targets.drop_last();
    let x = targets[k];
    lemma_roster_reaches_all(rest, json);
    let full_rest = roster_deliveries(rest, None, json);
    let d = DeliveryView { to: targets.last(), message: roster_message(json) };
    if k == n - 1 {
        assert(!rest.contains(x)) by {
            if rest.contains(x) {
                let i = choose|i: int| 0 <= i < rest.len() && rest[i] == x;
                assert(targets[i] == targets[k]);
            }
        }
        lemma_roster_except_absent(rest, x, json);
        assert(full_rest.push(d).remove(k) =~= full_rest);
    } else {
        assert(targets.last() != x) by {
            assert(targets[n - 1] == targets.last());
        }
        assert(rest[k] == x);
        lemma_roster_leaving_out(rest, k, json);
        assert(full_rest.push(d).remove(k) =~= full_rest.remove(k).push(d));
    }
}

/// In a lobby, the roster of the members listed in `order` that leaves out
/// the `k`-th of them differs from the full roster only by the delivery to
/// that member; the text is the same, and still names that member.
pub proof fn lemma_roster_leaving_out_member<S>(l: LobbyModel<S>, order: Seq<u128>, k: int)
    requires
        order.no_duplicates(),
        0 <= k < order.len(),
    ensures
        l.roster(order, Some(order[k])) == l.roster(order, None).remove(k),
        l.names(order)[k] == l.users[order[k]].name@,
{
    lemma_roster_leaving_out(order, k, json_text_array(l.names(order)));
}

/// Every delivery of a roster carries the one roster text.
proof fn lemma_roster_deliveries_carry(targets: Seq<u128>, except: Option<u128>, json: Seq<char>)
    ensures
        forall|i: int|
            0 <= i < roster_deliveries(targets, except, json).len() ==> #[trigger] roster_deliveries(
                targets,
                except,
                json,
            )[i].message == roster_message(json),
        roster_deliveries(targets, except, json).len() <= targets.len(),
    decreases targets.len(),
{
    if targets.len() > 0 {
        lemma_roster_deliveries_carry(targets.drop_last(), except, json);
    }
}

/// A roster names every listed member, in the listed order, however many
/// there are, and every delivery of it carries that same text.
pub proof fn lemma_roster_names_everyone<S>(l: LobbyModel<S>, order: Seq<u128>, except: Option<u128>)
    ensures
        forall|i: int|
            0 <= i < l.roster(order, except).len() ==> #[trigger] l.roster(order, except)[i].message == (WebSocketMessageView {
                msg_type: OutgoingMessageType::Roster,
                data: MessageValueView::Text(json_text_array(Seq::new(order.len(), |j: int| l.users[order[j]].name@))),
            }),
{
    assert(l.names(order) =~= Seq::new(order.len(), |j: int| l.users[order[j]].name@));
    lemma_roster_deliveries_carry(order, except, json_text_array(l.names(order)));
}

/// A chat line carries the whole text typed, the sender's name, the text of
/// the sender's identifier and the given time, whatever their lengths.
pub proof fn lemma_chat_line_fields(name: Seq<char>, id: u128, message: Seq<char>, time: Seq<char>)
    ensures
        chat_line(name, id, message, time).msg_type == OutgoingMessageType::Msg,
        chat_line(name, id, message, time).data is Message,
        chat_line(name, id, message, time).data->Message_0.message == message,
        chat_line(name, id, message, time).data->Message_0.sender == name,
        chat_line(name, id, message, time).data->Message_0.sender_id == hyphenated(id),
        chat_line(name, id, message, time).data->Message_0.time == time,
{
}

/// The message a joining session gets carries the text of its own
/// identifier.
pub proof fn lemma_user_info_names_own_id(id: u128)
    ensures
        user_info_message(id).msg_type == OutgoingMessageType::UserInfo,
        user_info_message(id).data == MessageValueView::Text(hyphenated(id)),
{
}

/// Two sessions are told the same identifier text only if they are the same
/// session.
pub proof fn lemma_user_info_distinct(a: u128, b: u128)
    requires
        user_info_message(a) == user_info_message(b),
    ensures
        a == b,
{
    crate::ids::lemma_hyphenated_injective(a, b);
}

} // verus!
