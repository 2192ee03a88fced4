use vstd::prelude::*;

verus! {

/// What kind of payload a message to a chat client carries.
#[derive(Clone, Copy, Debug, PartialEq, Eq, Structural)]
pub enum OutgoingMessageType {
    Roster,
    Msg,
    UserInfo,
}

/// A chat line as the receiving client sees it.
#[allow(non_snake_case)]
#[derive(Clone, Debug, PartialEq, Eq)]
pub struct TextMessage {
    pub sender: String,
    pub senderId: String,
    pub message: String,
    pub time: String,
}

/// The payload of a message to a chat client.
#[derive(Clone, Debug, PartialEq, Eq)]
pub enum MessageValue {
    Message(TextMessage),
    String(String),
}

/// A message sent to a chat client.
#[allow(non_snake_case)]
#[derive(Clone, Debug, PartialEq, Eq)]
pub struct WebSocketMessage {
    pub msgType: OutgoingMessageType,
    pub data: MessageValue,
}

/// Mathematical value of a [`TextMessage`].
pub struct TextMessageView {
    pub sender: Seq<char>,
    pub sender_id: Seq<char>,
    pub message: Seq<char>,
    pub time: Seq<char>,
}

/// Mathematical value of a [`MessageValue`].
pub enum MessageValueView {
    Message(TextMessageView),
    Text(Seq<char>),
}

/// Mathematical value of a [`WebSocketMessage`].
pub struct WebSocketMessageView {
    pub msg_type: OutgoingMessageType,
    pub data: MessageValueView,
}

impl View for TextMessage {
    type V = TextMessageView;

    open spec fn view(&self) -> TextMessageView {
        TextMessageView {
            sender: self.sender@,
            sender_id: self.senderId@,
            message: self.message@,
            time: self.time@,
        }
    }
}

impl View for MessageValue {
    type V = MessageValueView;

    open spec fn view(&self) -> MessageValueView {
        match self {
            MessageValue::Message(m) => MessageValueView::Message(m@),
            MessageValue::String(s) => MessageValueView::Text(s@),
        }
    }
}

impl View for WebSocketMessage {
    type V = WebSocketMessageView;

    open spec fn view(&self) -> WebSocketMessageView {
        WebSocketMessageView { msg_type: self.msgType, data: self.data@ }
    }
}

/// A message for the chat client of the session `to`.
#[derive(Clone, Debug, PartialEq, Eq)]
pub struct Delivery {
    pub to: u128,
    pub message: WebSocketMessage,
}

/// Mathematical value of a [`Delivery`].
pub struct DeliveryView {
    pub to: u128,
    pub message: WebSocketMessageView,
}

impl View for Delivery {
    type V = DeliveryView;

    open spec fn view(&self) -> DeliveryView {
        DeliveryView { to: self.to, message: self.message@ }
    }
}

/// The values of a sequence of deliveries.
pub open spec fn deliveries_view(v: Seq<Delivery>) -> Seq<DeliveryView> {
    v.map_values(|d: Delivery| d@)
}

/// The texts of a sequence of strings.
pub open spec fn texts(v: Seq<String>) -> Seq<Seq<char>> {
    v.map_values(|n: String| n@)
}

/// A chat session joins a room; `addr` is where its messages go.
pub struct Connect<R> {
    pub addr: R,
    pub lobby_id: u128,
    pub self_id: u128,
    pub username: String,
}

/// A chat session leaves a room.
#[derive(Clone, Copy, Debug, PartialEq, Eq)]
pub struct Disconnect {
    pub room_id: u128,
    pub id: u128,
}

/// A line typed by the client of session `id` in room `room_id`.
#[derive(Clone, Debug, PartialEq, Eq)]
pub struct ClientActorMessage {
    pub id: u128,
    pub msg: String,
    pub room_id: u128,
}

/// A WebRTC signal from one video user to another.
#[derive(Clone, Debug, PartialEq, Eq)]
pub struct Signal {
    pub user_id: u128,
    pub signal: String,
    pub from_user_id: u128,
}

/// Mathematical value of a [`Signal`].
pub struct SignalView {
    pub user_id: u128,
    pub signal: Seq<char>,
    pub from_user_id: u128,
}

impl View for Signal {
    type V = SignalView;

    open spec fn view(&self) -> SignalView {
        SignalView { user_id: self.user_id, signal: self.signal@, from_user_id: self.from_user_id }
    }
}

/// The payload of a message to a video client.
#[derive(Clone, Debug, PartialEq, Eq)]
pub enum SDPType {
    Signal(Signal),
    Roster(Vec<String>),
    UserInfo(String),
}

/// Mathematical value of an [`SDPType`].
pub enum SDPTypeView {
    Signal(SignalView),
    Roster(Seq<Seq<char>>),
    UserInfo(Seq<char>),
}

impl View for SDPType {
    type V = SDPTypeView;

    open spec fn view(&self) -> SDPTypeView {
        match self {
            SDPType::Signal(s) => SDPTypeView::Signal(s@),
            SDPType::Roster(names) => SDPTypeView::Roster(texts(names@)),
            SDPType::UserInfo(s) => SDPTypeView::UserInfo(s@),
        }
    }
}

/// A message sent to a video client.
#[allow(non_snake_case)]
#[derive(Clone, Debug, PartialEq, Eq)]
pub struct SignalMessage {
    pub MsgType: SDPType,
}

/// A message for the video client of user `to`.
#[derive(Clone, Debug, PartialEq, Eq)]
pub struct SignalDelivery {
    pub to: u128,
    pub message: SignalMessage,
}

/// Mathematical value of a [`SignalDelivery`].
pub struct SignalDeliveryView {
    pub to: u128,
    pub message: SDPTypeView,
}

impl View for SignalDelivery {
    type V = SignalDeliveryView;

    open spec fn view(&self) -> SignalDeliveryView {
        SignalDeliveryView { to: self.to, message: self.message.MsgType@ }
    }
}

/// A video user joins; `addr` is where its messages go.
pub struct SignalConnect<R> {
    pub user_id: u128,
    pub username: String,
    pub addr: R,
}

/// A video user leaves.
#[derive(Clone, Copy, Debug, PartialEq, Eq)]
pub struct SignalDisconnect {
    pub user_id: u128,
}

} // verus!
