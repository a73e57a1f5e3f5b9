//! Handlers: what an actor does with a message.

use vstd::prelude::*;

use crate::message::{
    AnyMessage, C2M_GetPlayerInfoRequest, C2M_MoveToMessage, C2M_PingRequest, C2M_PingResponse,
    IActorLocationMessage, IActorLocationRequest, IActorLocationResponse, IActorMessage,
    IActorRequest, IActorResponse, IMessage, M2C_GetPlayerInfoResponse, NetworkMessage,
};

verus! {

/// Handles requests to an actor that is found by its location.
pub trait AMActorLocationRpcHandler<T1: IActorLocationRequest, T2: IActorLocationResponse> {
    /// The answers that the handler can work on.
    spec fn accepts(&self, request: &T1, response: &T2) -> bool;

    /// How the handler leaves an answer that it found as `before`.
    spec fn fills(&self, request: &T1, before: &T2, after: &T2) -> bool;

    fn handler(&self, request: &T1, response: &mut T2)
        requires
            self.accepts(request, old(response)),
        ensures
            self.fills(request, old(response), final(response)),
    ;
}

/// Handles requests to an actor.
pub trait AMActorRpcHandler<T1: IActorRequest, T2: IActorResponse> {
    /// The answers that the handler can work on.
    spec fn accepts(&self, request: &T1, response: &T2) -> bool;

    /// How the handler leaves an answer that it found as `before`.
    spec fn fills(&self, request: &T1, before: &T2, after: &T2) -> bool;

    fn handler(&self, request: &T1, response: &mut T2)
        requires
            self.accepts(request, old(response)),
        ensures
            self.fills(request, old(response), final(response)),
    ;
}

/// Handles messages to an actor that is found by its location.
pub trait AMActorLocationHandler<T: IActorLocationMessage> {
    fn handler(&self, message: &T);
}

/// Handles messages to an actor.
pub trait AMActorHandler<T: IActorMessage> {
    fn handler(&self, message: &T);
}

/// Handles any message, and says what is to be sent back.
pub trait IMActorHandler<M: IMessage>: Send + Sync {
    /// Whether `reply` is what the handler sends back for a message of `client_id`. Where
    /// `can_answer` does not hold there is nowhere to send a reply to.
    spec fn replies(
        &self,
        message: M,
        client_id: usize,
        can_answer: bool,
        reply: Option<NetworkMessage<M>>,
    ) -> bool;

    fn handle_message(&self, message: &M, client_id: usize, can_answer: bool) -> (reply: Option<
        NetworkMessage<M>,
    >)
        ensures
            self.replies(*message, client_id, can_answer, reply),
    ;
}

/// Handles [`C2M_MoveToMessage`].
#[derive(Clone, Copy, Debug, Default)]
pub struct C2M_MoveToMessageHandler;

impl C2M_MoveToMessageHandler {
    /// There is nothing to do.
    fn run(&self, _request: &C2M_MoveToMessage) {
    }
}

impl AMActorLocationHandler<C2M_MoveToMessage> for C2M_MoveToMessageHandler {
    fn handler(&self, message: &C2M_MoveToMessage) {
        self.run(message);
    }
}

impl IMActorHandler<AnyMessage> for C2M_MoveToMessageHandler {
    open spec fn replies(
        &self,
        message: AnyMessage,
        client_id: usize,
        can_answer: bool,
        reply: Option<NetworkMessage<AnyMessage>>,
    ) -> bool {
        reply is None
    }

    fn handle_message(
        &self,
        message: &AnyMessage,
        client_id: usize,
        can_answer: bool,
    ) -> (reply: Option<NetworkMessage<AnyMessage>>)
        ensures
            reply is None,
    {
        match message {
            AnyMessage::MoveTo(message) => self.handler(message),
            _ => {},
        }
        None
    }
}

/// Handles [`C2M_GetPlayerInfoRequest`].
#[derive(Clone, Copy, Debug, Default)]
pub struct C2M_GetPlayerInfoHandler;

impl C2M_GetPlayerInfoHandler {
    /// Leaves the answer as it is.
    pub fn run(
        &self,
        _request: &C2M_GetPlayerInfoRequest,
        _response: &mut M2C_GetPlayerInfoResponse,
    )
        ensures
            *final(_response) == *old(_response),
    {
    }
}

impl AMActorLocationRpcHandler<
    C2M_GetPlayerInfoRequest,
    M2C_GetPlayerInfoResponse,
> for C2M_GetPlayerInfoHandler {
    open spec fn accepts(
        &self,
        request: &C2M_GetPlayerInfoRequest,
        response: &M2C_GetPlayerInfoResponse,
    ) -> bool {
        true
    }

    open spec fn fills(
        &self,
        request: &C2M_GetPlayerInfoRequest,
        before: &M2C_GetPlayerInfoResponse,
        after: &M2C_GetPlayerInfoResponse,
    ) -> bool {
        *after == *before
    }

    fn handler(
        &self,
        request: &C2M_GetPlayerInfoRequest,
        response: &mut M2C_GetPlayerInfoResponse,
    )
        ensures
            *final(response) == *old(response),
    {
        self.run(request, response);
    }
}

impl IMActorHandler<AnyMessage> for C2M_GetPlayerInfoHandler {
    open spec fn replies(
        &self,
        message: AnyMessage,
        client_id: usize,
        can_answer: bool,
        reply: Option<NetworkMessage<AnyMessage>>,
    ) -> bool {
        match message {
            AnyMessage::GetPlayerInfo(request) if can_answer => {
                &&& reply matches Some(NetworkMessage::Response { client_id: to, data })
                &&& to == client_id
                &&& data matches AnyMessage::PlayerInfo(response)
                &&& response.says(request.rpc_id)
            },
            _ => reply is None,
        }
    }

    fn handle_message(
        &self,
        message: &AnyMessage,
        client_id: usize,
        can_answer: bool,
    ) -> (reply: Option<NetworkMessage<AnyMessage>>)
        ensures
            match message {
                AnyMessage::GetPlayerInfo(request) if can_answer => {
                    &&& reply matches Some(NetworkMessage::Response { client_id: to, data })
                    &&& to == client_id
                    &&& data matches AnyMessage::PlayerInfo(answer)
                    &&& answer.rpc_id == request.rpc_id
                    &&& answer._t@ == "M2C_GetPlayerInfoResponse"@
                    &&& answer.error == 0
                    &&& answer.message@.len() == 0
                },
                _ => reply is None,
            },
    {
        match message {
            AnyMessage::GetPlayerInfo(request) => {
                let mut response = M2C_GetPlayerInfoResponse::answering(request.rpc_id);
                self.handler(request, &mut response);
                if can_answer {
                    let data = AnyMessage::PlayerInfo(response);
                    Some(NetworkMessage::Response { client_id, data })
                } else {
                    None
                }
            },
            _ => None,
        }
    }
}

/// Handles [`C2M_PingRequest`].
#[derive(Clone, Copy, Debug, Default)]
pub struct C2M_PingHandler;

impl C2M_PingHandler {
    /// Whether `after` is `before` with its count raised by one.
    pub open spec fn counted(before: &C2M_PingResponse, after: &C2M_PingResponse) -> bool {
        &&& after.rpc_id == before.rpc_id
        &&& after._t == before._t
        &&& after.error == before.error
        &&& after.message == before.message
        &&& after.count == before.count + 1
    }

    /// Counts the ping.
    pub fn run(&self, _request: &C2M_PingRequest, _response: &mut C2M_PingResponse)
        requires
            old(_response).count < i64::MAX,
        ensures
            Self::counted(old(_response), final(_response)),
            final(_response).count == old(_response).count + 1,
            final(_response).rpc_id == old(_response).rpc_id,
            final(_response)._t == old(_response)._t,
            final(_response).error == old(_response).error,
            final(_response).message == old(_response).message,
    {
        _response.count += 1;
    }
}

impl AMActorLocationRpcHandler<C2M_PingRequest, C2M_PingResponse> for C2M_PingHandler {
    open spec fn accepts(&self, request: &C2M_PingRequest, response: &C2M_PingResponse) -> bool {
        response.count < i64::MAX
    }

    open spec fn fills(
        &self,
        request: &C2M_PingRequest,
        before: &C2M_PingResponse,
        after: &C2M_PingResponse,
    ) -> bool {
        Self::counted(before, after)
    }

    fn handler(&self, request: &C2M_PingRequest, response: &mut C2M_PingResponse)
        ensures
            final(response).count == old(response).count + 1,
            final(response).rpc_id == old(response).rpc_id,
            final(response)._t == old(response)._t,
            final(response).error == old(response).error,
            final(response).message == old(response).message,
    {
        self.run(request, response);
    }
}

impl IMActorHandler<AnyMessage> for C2M_PingHandler {
    open spec fn replies(
        &self,
        message: AnyMessage,
        client_id: usize,
        can_answer: bool,
        reply: Option<NetworkMessage<AnyMessage>>,
    ) -> bool {
        match message {
            AnyMessage::Ping(request) if can_answer => {
                &&& reply matches Some(NetworkMessage::Response { client_id: to, data })
                &&& to == client_id
                &&& data matches AnyMessage::Pong(response)
                &&& response.says(request.rpc_id, 1)
            },
            _ => reply is None,
        }
    }

    fn handle_message(
        &self,
        message: &AnyMessage,
        client_id: usize,
        can_answer: bool,
    ) -> (reply: Option<NetworkMessage<AnyMessage>>)
        ensures
            match message {
                AnyMessage::Ping(request) if can_answer => {
                    &&& reply matches Some(NetworkMessage::Response { client_id: to, data })
                    &&& to == client_id
                    &&& data matches AnyMessage::Pong(answer)
                    &&& answer.rpc_id == request.rpc_id
                    &&& answer._t@ == "C2M_PingResponse"@
                    &&& answer.error == 0
                    &&& answer.message@.len() == 0
                    &&& answer.count == 1
                },
                _ => reply is None,
            },
    {
        match message {
            AnyMessage::Ping(request) => {
                let mut response = C2M_PingResponse::answering(request.rpc_id);
                self.handler(request, &mut response);
                if can_answer {
                    let data = AnyMessage::Pong(response);
                    Some(NetworkMessage::Response { client_id, data })
                } else {
                    None
                }
            },
            _ => None,
        }
    }
}

/// Any of the handlers known here.
#[derive(Clone, Copy, Debug)]
pub enum AnyHandler {
    MoveTo(C2M_MoveToMessageHandler),
    GetPlayerInfo(C2M_GetPlayerInfoHandler),
    Ping(C2M_PingHandler),
}

impl IMActorHandler<AnyMessage> for AnyHandler {
    open spec fn replies(
        &self,
        message: AnyMessage,
        client_id: usize,
        can_answer: bool,
        reply: Option<NetworkMessage<AnyMessage>>,
    ) -> bool {
        match self {
            AnyHandler::MoveTo(h) => h.replies(message, client_id, can_answer, reply),
            AnyHandler::GetPlayerInfo(h) => h.replies(message, client_id, can_answer, reply),
            AnyHandler::Ping(h) => h.replies(message, client_id, can_answer, reply),
        }
    }

    fn handle_message(
        &self,
        message: &AnyMessage,
        client_id: usize,
        can_answer: bool,
    ) -> (reply: Option<NetworkMessage<AnyMessage>>)
        ensures
            match (self, message) {
                (AnyHandler::GetPlayerInfo(_), AnyMessage::GetPlayerInfo(
                    request,
                )) if can_answer => {
                    &&& reply matches Some(NetworkMessage::Response { client_id: to, data })
                    &&& to == client_id
                    &&& data matches AnyMessage::PlayerInfo(answer)
                    &&& answer.rpc_id == request.rpc_id
                    &&& answer._t@ == "M2C_GetPlayerInfoResponse"@
                    &&& answer.error == 0
                    &&& answer.message@.len() == 0
                },
                (AnyHandler::Ping(_), AnyMessage::Ping(request)) if can_answer => {
                    &&& reply matches Some(NetworkMessage::Response { client_id: to, data })
                    &&& to == client_id
                    &&& data matches AnyMessage::Pong(answer)
                    &&& answer.rpc_id == request.rpc_id
                    &&& answer._t@ == "C2M_PingResponse"@
                    &&& answer.error == 0
                    &&& answer.message@.len() == 0
                    &&& answer.count == 1
                },
                _ => reply is None,
            },
    {
        match self {
            AnyHandler::MoveTo(h) => h.handle_message(message, client_id, can_answer),
            AnyHandler::GetPlayerInfo(h) => h.handle_message(message, client_id, can_answer),
            AnyHandler::Ping(h) => h.handle_message(message, client_id, can_answer),
        }
    }
}

/// Handlers take every request: that for player info any answer at all, and that for pings any
/// whose count can still be raised.
pub proof fn law_handlers_take_every_request(
    query: C2M_GetPlayerInfoRequest,
    info: M2C_GetPlayerInfoResponse,
    ping: C2M_PingRequest,
    pong: C2M_PingResponse,
)
    ensures
        C2M_GetPlayerInfoHandler.accepts(&query, &info),
        pong.count < i64::MAX ==> C2M_PingHandler.accepts(&ping, &pong),
{
}

/// Handlers change nothing of an answer but the count of a ping, which goes up by one: whose answer
/// it is and whether it is an error stay as they were.
pub proof fn law_handlers_only_count(
    query: C2M_GetPlayerInfoRequest,
    info: M2C_GetPlayerInfoResponse,
    info_after: M2C_GetPlayerInfoResponse,
    ping: C2M_PingRequest,
    pong: C2M_PingResponse,
    pong_after: C2M_PingResponse,
)
    requires
        C2M_GetPlayerInfoHandler.fills(&query, &info, &info_after),
        C2M_PingHandler.fills(&ping, &pong, &pong_after),
    ensures
        info_after == info,
        pong_after == (C2M_PingResponse { count: pong_after.count, ..pong }),
        pong_after.count - pong.count == 1,
{
}

} // verus!
