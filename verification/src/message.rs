//! Messages: the traits that sort them, the concrete types, and what travels on the queues.

use vstd::prelude::*;

use crate::layer::{refines, GetLayer2Type, GetLayer3Type, Layer2Type, Layer3Type};

verus! {

/// A message that can travel between a client and an actor.
pub trait IMessage: Send + Sync {
    /// The name under which the message type is registered.
    spec fn kind_name(&self) -> Seq<char>;

    fn get_type_name(&self) -> (r: &str)
        ensures
            r@ == self.kind_name(),
    ;
}

/// A message that is owed an answer with the same `rpc_id`.
pub trait IRequest: IMessage {
    spec fn rpc_id(&self) -> i32;

    fn get_rpc_id(&self) -> (r: i32)
        ensures
            r == self.rpc_id(),
    ;
}

/// The answer to a request.
pub trait IResponse: IMessage {
    spec fn rpc_id(&self) -> i32;

    spec fn error(&self) -> i32;

    spec fn error_text(&self) -> Seq<char>;

    fn get_rpc_id(&self) -> (r: i32)
        ensures
            r == self.rpc_id(),
    ;

    fn get_error(&self) -> (r: i32)
        ensures
            r == self.error(),
    ;

    fn get_message(&self) -> (r: String)
        ensures
            r@ == self.error_text(),
    ;
}

/// A message to an actor.
pub trait IActorMessage: IMessage {

}

/// A request to an actor.
pub trait IActorRequest: IRequest {

}

/// An answer from an actor.
pub trait IActorResponse: IResponse {

}

/// A message to an actor that is found by its location.
pub trait IActorLocationMessage: IActorMessage {

}

/// A request to an actor that is found by its location.
pub trait IActorLocationRequest: IActorRequest {

}

/// An answer from an actor that is found by its location.
pub trait IActorLocationResponse: IActorResponse {

}

/// A player moves. Nothing is answered.
#[derive(Debug)]
pub struct C2M_MoveToMessage {
    pub _t: String,
    pub player_id: i64,
}

/// Asks for what is known of a player.
#[derive(Debug)]
pub struct C2M_GetPlayerInfoRequest {
    pub rpc_id: i32,
    pub _t: String,
    pub player_id: i64,
}

/// Answers a [`C2M_GetPlayerInfoRequest`].
#[derive(Debug)]
pub struct M2C_GetPlayerInfoResponse {
    pub rpc_id: i32,
    pub _t: String,
    pub error: i32,
    pub message: String,
}

/// Asks whether the server is there.
#[derive(Debug)]
pub struct C2M_PingRequest {
    pub rpc_id: i32,
    pub _t: String,
}

/// Answers a [`C2M_PingRequest`].
#[derive(Debug)]
pub struct C2M_PingResponse {
    pub rpc_id: i32,
    pub _t: String,
    pub error: i32,
    pub message: String,
    pub count: i64,
}

impl IMessage for C2M_MoveToMessage {
    open spec fn kind_name(&self) -> Seq<char> {
        "C2M_MoveToMessage"@
    }

    fn get_type_name(&self) -> (r: &str)
        ensures
            r@ == "C2M_MoveToMessage"@,
    {
        "C2M_MoveToMessage"
    }
}

impl IActorMessage for C2M_MoveToMessage {

}

impl IActorLocationMessage for C2M_MoveToMessage {

}

impl GetLayer2Type for C2M_MoveToMessage {
    open spec fn layer2() -> Layer2Type {
        Layer2Type::ActorMessage
    }

    fn get_layer2_type() -> (r: &'static Layer2Type)
        ensures
            *r == Layer2Type::ActorMessage,
    {
        &Layer2Type::ActorMessage
    }
}

impl GetLayer3Type for C2M_MoveToMessage {
    open spec fn layer3() -> Layer3Type {
        Layer3Type::ActorLocationMessage
    }

    fn get_layer3_type() -> (r: &'static Layer3Type)
        ensures
            *r == Layer3Type::ActorLocationMessage,
    {
        &Layer3Type::ActorLocationMessage
    }
}

impl IMessage for C2M_GetPlayerInfoRequest {
    open spec fn kind_name(&self) -> Seq<char> {
        "C2M_GetPlayerInfoRequest"@
    }

    fn get_type_name(&self) -> (r: &str)
        ensures
            r@ == "C2M_GetPlayerInfoRequest"@,
    {
        "C2M_GetPlayerInfoRequest"
    }
}

impl IRequest for C2M_GetPlayerInfoRequest {
    open spec fn rpc_id(&self) -> i32 {
        self.rpc_id
    }

    fn get_rpc_id(&self) -> (r: i32)
        ensures
            r == self.rpc_id,
    {
        self.rpc_id
    }
}

impl IActorRequest for C2M_GetPlayerInfoRequest {

}

impl IActorLocationRequest for C2M_GetPlayerInfoRequest {

}

impl GetLayer2Type for C2M_GetPlayerInfoRequest {
    open spec fn layer2() -> Layer2Type {
        Layer2Type::ActorRequest
    }

    fn get_layer2_type() -> (r: &'static Layer2Type)
        ensures
            *r == Layer2Type::ActorRequest,
    {
        &Layer2Type::ActorRequest
    }
}

impl GetLayer3Type for C2M_GetPlayerInfoRequest {
    open spec fn layer3() -> Layer3Type {
        Layer3Type::ActorLocationRequest
    }

    fn get_layer3_type() -> (r: &'static Layer3Type)
        ensures
            *r == Layer3Type::ActorLocationRequest,
    {
        &Layer3Type::ActorLocationRequest
    }
}

impl M2C_GetPlayerInfoResponse {
    /// Whether this answers the request `rpc_id` without an error.
    pub open spec fn says(&self, rpc_id: i32) -> bool {
        &&& self.rpc_id == rpc_id
        &&& self._t@ == self.kind_name()
        &&& self.error == 0
        &&& self.message@ == Seq::<char>::empty()
    }

    /// The answer to the request `rpc_id`, before a handler has seen it.
    pub fn answering(rpc_id: i32) -> (r: Self)
        ensures
            r.says(rpc_id),
            r.rpc_id == rpc_id,
            r._t@ == "M2C_GetPlayerInfoResponse"@,
            r.error == 0,
            r.message@.len() == 0,
    {
        M2C_GetPlayerInfoResponse {
            rpc_id,
            _t: "M2C_GetPlayerInfoResponse".to_owned(),
            error: 0,
            message: String::new(),
        }
    }
}

impl IMessage for M2C_GetPlayerInfoResponse {
    open spec fn kind_name(&self) -> Seq<char> {
        "M2C_GetPlayerInfoResponse"@
    }

    fn get_type_name(&self) -> (r: &str)
        ensures
            r@ == "M2C_GetPlayerInfoResponse"@,
    {
        "M2C_GetPlayerInfoResponse"
    }
}

impl IResponse for M2C_GetPlayerInfoResponse {
    open spec fn rpc_id(&self) -> i32 {
        self.rpc_id
    }

    open spec fn error(&self) -> i32 {
        self.error
    }

    open spec fn error_text(&self) -> Seq<char> {
        self.message@
    }

    fn get_rpc_id(&self) -> (r: i32)
        ensures
            r == self.rpc_id,
    {
        self.rpc_id
    }

    fn get_error(&self) -> (r: i32)
        ensures
            r == self.error,
    {
        self.error
    }

    fn get_message(&self) -> (r: String)
        ensures
            r@ == self.message@,
    {
        self.message.clone()
    }
}

impl IActorResponse for M2C_GetPlayerInfoResponse {

}

impl IActorLocationResponse for M2C_GetPlayerInfoResponse {

}

impl GetLayer2Type for M2C_GetPlayerInfoResponse {
    open spec fn layer2() -> Layer2Type {
        Layer2Type::ActorResponse
    }

    fn get_layer2_type() -> (r: &'static Layer2Type)
        ensures
            *r == Layer2Type::ActorResponse,
    {
        &Layer2Type::ActorResponse
    }
}

impl GetLayer3Type for M2C_GetPlayerInfoResponse {
    open spec fn layer3() -> Layer3Type {
        Layer3Type::ActorLocationResponse
    }

    fn get_layer3_type() -> (r: &'static Layer3Type)
        ensures
            *r == Layer3Type::ActorLocationResponse,
    {
        &Layer3Type::ActorLocationResponse
    }
}

impl IMessage for C2M_PingRequest {
    open spec fn kind_name(&self) -> Seq<char> {
        "C2M_PingRequest"@
    }

    fn get_type_name(&self) -> (r: &str)
        ensures
            r@ == "C2M_PingRequest"@,
    {
        "C2M_PingRequest"
    }
}

impl IRequest for C2M_PingRequest {
    open spec fn rpc_id(&self) -> i32 {
        self.rpc_id
    }

    fn get_rpc_id(&self) -> (r: i32)
        ensures
            r == self.rpc_id,
    {
        self.rpc_id
    }
}

impl IActorRequest for C2M_PingRequest {

}

impl IActorLocationRequest for C2M_PingRequest {

}

impl GetLayer2Type for C2M_PingRequest {
    open spec fn layer2() -> Layer2Type {
        Layer2Type::ActorRequest
    }

    fn get_layer2_type() -> (r: &'static Layer2Type)
        ensures
            *r == Layer2Type::ActorRequest,
    {
        &Layer2Type::ActorRequest
    }
}

impl GetLayer3Type for C2M_PingRequest {
    open spec fn layer3() -> Layer3Type {
        Layer3Type::ActorLocationRequest
    }

    fn get_layer3_type() -> (r: &'static Layer3Type)
        ensures
            *r == Layer3Type::ActorLocationRequest,
    {
        &Layer3Type::ActorLocationRequest
    }
}

impl C2M_PingResponse {
    /// Whether this answers the request `rpc_id` without an error, with the given count.
    pub open spec fn says(&self, rpc_id: i32, count: int) -> bool {
        &&& self.rpc_id == rpc_id
        &&& self._t@ == self.kind_name()
        &&& self.error == 0
        &&& self.message@ == Seq::<char>::empty()
        &&& self.count == count
    }

    /// The answer to the request `rpc_id`, before a handler has seen it.
    pub fn answering(rpc_id: i32) -> (r: Self)
        ensures
            r.says(rpc_id, 0),
            r.rpc_id == rpc_id,
            r._t@ == "C2M_PingResponse"@,
            r.error == 0,
            r.message@.len() == 0,
            r.count == 0,
    {
        C2M_PingResponse {
            rpc_id,
            _t: "C2M_PingResponse".to_owned(),
            error: 0,
            message: String::new(),
            count: 0,
        }
    }
}

impl IMessage for C2M_PingResponse {
    open spec fn kind_name(&self) -> Seq<char> {
        "C2M_PingResponse"@
    }

    fn get_type_name(&self) -> (r: &str)
        ensures
            r@ == "C2M_PingResponse"@,
    {
        "C2M_PingResponse"
    }
}

impl IResponse for C2M_PingResponse {
    open spec fn rpc_id(&self) -> i32 {
        self.rpc_id
    }

    open spec fn error(&self) -> i32 {
        self.error
    }

    open spec fn error_text(&self) -> Seq<char> {
        self.message@
    }

    fn get_rpc_id(&self) -> (r: i32)
        ensures
            r == self.rpc_id,
    {
        self.rpc_id
    }

    fn get_error(&self) -> (r: i32)
        ensures
            r == self.error,
    {
        self.error
    }

    fn get_message(&self) -> (r: String)
        ensures
            r@ == self.message@,
    {
        self.message.clone()
    }
}

impl IActorResponse for C2M_PingResponse {

}

impl IActorLocationResponse for C2M_PingResponse {

}

impl GetLayer2Type for C2M_PingResponse {
    open spec fn layer2() -> Layer2Type {
        Layer2Type::ActorResponse
    }

    fn get_layer2_type() -> (r: &'static Layer2Type)
        ensures
            *r == Layer2Type::ActorResponse,
    {
        &Layer2Type::ActorResponse
    }
}

impl GetLayer3Type for C2M_PingResponse {
    open spec fn layer3() -> Layer3Type {
        Layer3Type::ActorLocationResponse
    }

    fn get_layer3_type() -> (r: &'static Layer3Type)
        ensures
            *r == Layer3Type::ActorLocationResponse,
    {
        &Layer3Type::ActorLocationResponse
    }
}

/// A message of any of the types known here.
#[derive(Debug)]
pub enum AnyMessage {
    MoveTo(C2M_MoveToMessage),
    GetPlayerInfo(C2M_GetPlayerInfoRequest),
    PlayerInfo(M2C_GetPlayerInfoResponse),
    Ping(C2M_PingRequest),
    Pong(C2M_PingResponse),
}

impl IMessage for AnyMessage {
    open spec fn kind_name(&self) -> Seq<char> {
        match self {
            AnyMessage::MoveTo(m) => m.kind_name(),
            AnyMessage::GetPlayerInfo(m) => m.kind_name(),
            AnyMessage::PlayerInfo(m) => m.kind_name(),
            AnyMessage::Ping(m) => m.kind_name(),
            AnyMessage::Pong(m) => m.kind_name(),
        }
    }

    fn get_type_name(&self) -> (r: &str)
        ensures
            match self {
                AnyMessage::MoveTo(_) => r@ == "C2M_MoveToMessage"@,
                AnyMessage::GetPlayerInfo(_) => r@ == "C2M_GetPlayerInfoRequest"@,
                AnyMessage::PlayerInfo(_) => r@ == "M2C_GetPlayerInfoResponse"@,
                AnyMessage::Ping(_) => r@ == "C2M_PingRequest"@,
                AnyMessage::Pong(_) => r@ == "C2M_PingResponse"@,
            },
    {
        match self {
            AnyMessage::MoveTo(m) => m.get_type_name(),
            AnyMessage::GetPlayerInfo(m) => m.get_type_name(),
            AnyMessage::PlayerInfo(m) => m.get_type_name(),
            AnyMessage::Ping(m) => m.get_type_name(),
            AnyMessage::Pong(m) => m.get_type_name(),
        }
    }
}

/// What travels on the queues of a server.
#[derive(Debug)]
pub enum NetworkMessage<M> {
    /// A message from a client.
    Request { client_id: usize, data: M },
    /// A message to a client.
    Response { client_id: usize, data: M },
    /// A message that concerns no client.
    Message { data: M },
}

/// Every message goes by the name of its type, whatever it holds.
pub proof fn law_messages_go_by_their_type(message: AnyMessage)
    ensures
        match message {
            AnyMessage::MoveTo(m) => m.kind_name() == "C2M_MoveToMessage"@,
            AnyMessage::GetPlayerInfo(m) => m.kind_name() == "C2M_GetPlayerInfoRequest"@,
            AnyMessage::PlayerInfo(m) => m.kind_name() == "M2C_GetPlayerInfoResponse"@,
            AnyMessage::Ping(m) => m.kind_name() == "C2M_PingRequest"@,
            AnyMessage::Pong(m) => m.kind_name() == "C2M_PingResponse"@,
        },
        match message {
            AnyMessage::MoveTo(m) => message.kind_name() == m.kind_name(),
            AnyMessage::GetPlayerInfo(m) => message.kind_name() == m.kind_name(),
            AnyMessage::PlayerInfo(m) => message.kind_name() == m.kind_name(),
            AnyMessage::Ping(m) => message.kind_name() == m.kind_name(),
            AnyMessage::Pong(m) => message.kind_name() == m.kind_name(),
        },
{
}

/// Requests and answers carry what their fields hold.
pub proof fn law_fields_are_carried(message: AnyMessage)
    ensures
        message matches AnyMessage::GetPlayerInfo(m) ==> IRequest::rpc_id(&m) == m.rpc_id,
        message matches AnyMessage::Ping(m) ==> IRequest::rpc_id(&m) == m.rpc_id,
        message matches AnyMessage::PlayerInfo(m) ==> {
            &&& IResponse::rpc_id(&m) == m.rpc_id
            &&& IResponse::error(&m) == m.error
            &&& m.error_text() == m.message@
        },
        message matches AnyMessage::Pong(m) ==> {
            &&& IResponse::rpc_id(&m) == m.rpc_id
            &&& IResponse::error(&m) == m.error
            &&& m.error_text() == m.message@
        },
{
}

/// Messages are sorted by what they are to an actor: what wants no answer is a message, what wants
/// one is a request, and what is sent back is a response.
pub proof fn law_layers_sort_messages()
    ensures
        C2M_MoveToMessage::layer2() == Layer2Type::ActorMessage,
        C2M_GetPlayerInfoRequest::layer2() == Layer2Type::ActorRequest,
        M2C_GetPlayerInfoResponse::layer2() == Layer2Type::ActorResponse,
        C2M_PingRequest::layer2() == Layer2Type::ActorRequest,
        C2M_PingResponse::layer2() == Layer2Type::ActorResponse,
        C2M_MoveToMessage::layer3() == Layer3Type::ActorLocationMessage,
        C2M_GetPlayerInfoRequest::layer3() == Layer3Type::ActorLocationRequest,
        M2C_GetPlayerInfoResponse::layer3() == Layer3Type::ActorLocationResponse,
        C2M_PingRequest::layer3() == Layer3Type::ActorLocationRequest,
        C2M_PingResponse::layer3() == Layer3Type::ActorLocationResponse,
{
}

/// The two layers of a message type agree: what it is to an actor found by its location refines
/// what it is to an actor.
pub proof fn law_layers_agree()
    ensures
        C2M_MoveToMessage::layer2() == refines(C2M_MoveToMessage::layer3()),
        C2M_GetPlayerInfoRequest::layer2() == refines(C2M_GetPlayerInfoRequest::layer3()),
        M2C_GetPlayerInfoResponse::layer2() == refines(M2C_GetPlayerInfoResponse::layer3()),
        C2M_PingRequest::layer2() == refines(C2M_PingRequest::layer3()),
        C2M_PingResponse::layer2() == refines(C2M_PingResponse::layer3()),
{
}

} // verus!
