//! The video lobby: who is in the call, and the relaying of WebRTC signals.
use vstd::prelude::*;
use std::collections::HashMap;
use vstd::std_specs::iter::IteratorSpec;
use crate::ids::hyphenated;
use crate::ids::uuid_text;
use crate::lobby::is_listing;
use crate::messages::SDPType;
use crate::messages::SDPTypeView;
use crate::messages::Signal;
use crate::messages::SignalConnect;
use crate::messages::SignalDelivery;
use crate::messages::SignalDeliveryView;
use crate::messages::SignalDisconnect;
use crate::messages::SignalMessage;
use crate::messages::texts;

verus! {

broadcast use vstd::std_specs::hash::group_hash_axioms;

/// A user of the video call: who it is and where its messages go.
pub struct VideoUser<S> {
    pub name: String,
    pub id: u128,
    pub socket: S,
}

/// The users of the video call, by identifier.
pub struct VideoLobby<S> {
    users: HashMap<u128, VideoUser<S>>,
}

/// The video lobby's invariant: each user is filed under its own identifier.
pub open spec fn video_wf<S>(users: Map<u128, VideoUser<S>>) -> bool {
    forall|k: u128| #[trigger] users.contains_key(k) ==> users[k].id == k
}

/// The roster of the users listed in `order`: the text of each one's identifier.
pub open spec fn video_roster<S>(users: Map<u128, VideoUser<S>>, order: Seq<u128>) -> Seq<Seq<char>> {
    order.map_values(|k: u128| hyphenated(users[k].id))
}

/// `names` is the roster of all of `users`, in some order.
pub open spec fn is_video_roster<S>(users: Map<u128, VideoUser<S>>, names: Seq<Seq<char>>) -> bool {
    exists|order: Seq<u128>| is_listing(order, users.dom()) && names == video_roster(users, order)
}

/// The keys of a map in the order in which the map hands them out.
pub open spec fn key_order<V>(m: HashMap<u128, V>) -> Seq<u128> {
    vstd::std_specs::hash::into_iter_keys(vstd::std_specs::hash::spec_keys_iter(&m))
}

/// The keys of a map, in the order in which the map hands them out.
fn key_listing<V>(m: &HashMap<u128, V>) -> (v: Vec<u128>)
    ensures
        v@ == key_order(*m),
        is_listing(v@, m@.dom()),
{
    let mut v: Vec<u128> = Vec::new();
    let ghost keys = vstd::std_specs::hash::spec_keys_iter(m).remaining().unref();
    let users = m.keys();
    assert(keys == key_order(*m));
    for k in it: users
        invariant
            it.seq().unref() == keys,
            v@ == keys.take(it.index()),
    {
        v.push(*k);
        proof {
            assert(v@ =~= keys.take(it.index() + 1));
        }
    }
    proof {
        assert(v@ =~= keys);
    }
    v
}

impl<S> View for VideoLobby<S> {
    type V = Map<u128, VideoUser<S>>;

    closed spec fn view(&self) -> Map<u128, VideoUser<S>> {
        self.users@
    }
}

impl<S> VideoLobby<S> {
    /// The users in the order in which the map hands them out: the order of
    /// the roster.
    pub closed spec fn user_order(&self) -> Seq<u128> {
        key_order(self.users)
    }

    /// An empty call.
    pub fn new() -> (l: Self)
        ensures
            l@ == Map::<u128, VideoUser<S>>::empty(),
            video_wf(l@),
    {
        VideoLobby { users: HashMap::new() }
    }

    /// The roster of the call, for user `to`.
    fn send_roster(&self, to: u128) -> (d: SignalDelivery)
        requires
            self@.contains_key(to),
        ensures
            d.to == to,
            d@.message == SDPTypeView::Roster(video_roster(self@, self.user_order())),
            is_listing(self.user_order(), self@.dom()),
            d@.message matches SDPTypeView::Roster(names) && is_video_roster(self@, names),
    {
        let order = key_listing(&self.users);
        let mut names: Vec<String> = Vec::new();
        let mut i: usize = 0;
        while i < order.len()
            invariant
                i <= order.len(),
                order@.to_set() == self@.dom(),
                texts(names@) == video_roster(self@, order@.take(i as int)),
            decreases order.len() - i,
        {
            let k = order[i];
            assert(order@.to_set().contains(k));
            let user = self.users.get(&k).unwrap();
            let ghost prev = names@;
            let text = uuid_text(user.id);
            names.push(text);
            proof {
                assert(order@.take(i + 1) =~= order@.take(i as int).push(k));
                assert(texts(names@) =~= texts(prev).push(text@));
                assert(video_roster(self@, order@.take(i + 1)) =~= video_roster(self@, order@.take(i as int)).push(
                    hyphenated(self@[k].id),
                ));
            }
            i = i + 1;
        }
        proof {
            assert(order@.take(order.len() as int) =~= order@);
            assert(is_listing(order@, self@.dom()));
        }
        SignalDelivery { to, message: SignalMessage { MsgType: SDPType::Roster(names) } }
    }

    /// User `msg.user_id` joins the call. It is told its identifier, then the
    /// roster of the call, itself included.
    pub fn handle_connect(&mut self, msg: SignalConnect<S>) -> (out: Vec<SignalDelivery>)
        ensures
            final(self)@ == old(self)@.insert(
                msg.user_id,
                VideoUser { name: msg.username, id: msg.user_id, socket: msg.addr },
            ),
            out@.len() == 2,
            out@[0]@ == (SignalDeliveryView { to: msg.user_id, message: SDPTypeView::UserInfo(hyphenated(msg.user_id)) }),
            out@[1].to == msg.user_id,
            out@[1]@.message == SDPTypeView::Roster(video_roster(final(self)@, final(self).user_order())),
            is_listing(final(self).user_order(), final(self)@.dom()),
            out@[1]@.message matches SDPTypeView::Roster(names) && is_video_roster(final(self)@, names),
            video_wf(old(self)@) ==> video_wf(final(self)@),
    {
        let SignalConnect { user_id, username, addr } = msg;
        let video_user = VideoUser { id: user_id, name: username, socket: addr };
        let info = SignalDelivery {
            to: video_user.id,
            message: SignalMessage { MsgType: SDPType::UserInfo(uuid_text(user_id)) },
        };
        self.users.insert(user_id, video_user);
        let roster = self.send_roster(user_id);
        let mut out: Vec<SignalDelivery> = Vec::new();
        out.push(info);
        out.push(roster);
        out
    }

    /// User `msg.user_id` leaves the call; the user is handed back.
    pub fn handle_disconnect(&mut self, msg: SignalDisconnect) -> (user: VideoUser<S>)
        requires
            old(self)@.contains_key(msg.user_id),
        ensures
            final(self)@ == old(self)@.remove(msg.user_id),
            user == old(self)@[msg.user_id],
            video_wf(old(self)@) ==> video_wf(final(self)@),
    {
        self.users.remove(&msg.user_id).unwrap()
    }

    /// A signal is relayed, unchanged, to the user it is addressed to.
    pub fn handle_signal(&self, msg: Signal) -> (d: SignalDelivery)
        requires
            self@.contains_key(msg.user_id),
        ensures
            d@ == (SignalDeliveryView { to: msg.user_id, message: SDPTypeView::Signal(msg@) }),
    {
        SignalDelivery { to: msg.user_id, message: SignalMessage { MsgType: SDPType::Signal(msg) } }
    }

    /// The user with identifier `id`, if it is in the call.
    pub fn user(&self, id: u128) -> (r: Option<&VideoUser<S>>)
        ensures
            match r {
                Some(u) => self@.contains_key(id) && *u == self@[id],
                None => !self@.contains_key(id),
            },
    {
        self.users.get(&id)
    }
}

impl<S> Default for VideoLobby<S> {
    fn default() -> (l: Self)
        ensures
            l@ == Map::<u128, VideoUser<S>>::empty(),
    {
        VideoLobby::new()
    }
}

/// A user who joins the call and then leaves it leaves the call as it was.
pub proof fn lemma_video_leave_undoes_join<S>(users: Map<u128, VideoUser<S>>, user: VideoUser<S>)
    requires
        !users.contains_key(user.id),
    ensures
        users.insert(user.id, user).remove(user.id) == users,
{
    assert(users.insert(user.id, user).remove(user.id) =~= users);
}

/// In a well-formed call the roster is the texts of all the users'
/// identifiers, each once.
pub proof fn lemma_video_roster_lists_ids<S>(users: Map<u128, VideoUser<S>>, order: Seq<u128>)
    requires
        video_wf(users),
        is_listing(order, users.dom()),
    ensures
        video_roster(users, order) == order.map_values(|k: u128| hyphenated(k)),
{
    assert forall|i: int| 0 <= i < order.len() implies users.contains_key(#[trigger] order[i]) by {
        assert(order.to_set().contains(order[i]));
    }
    assert(video_roster(users, order) =~= order.map_values(|k: u128| hyphenated(k)));
}

/// The roster of the users listed in `order` has one entry for each of them,
/// in order: the text of that user's identifier.
pub proof fn lemma_video_roster_entries<S>(users: Map<u128, VideoUser<S>>, order: Seq<u128>)
    ensures
        video_roster(users, order).len() == order.len(),
        forall|j: int| 0 <= j < order.len() ==> #[trigger] video_roster(users, order)[j] == hyphenated(users[order[j]].id),
{
}

} // verus!
