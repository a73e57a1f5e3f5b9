//! From a received frame to the handler of the message inside it.

use serde_json::Value;
use vstd::prelude::*;

use crate::envelope::{msgpack_value, text_field, text_fields, value_from_msgpack};
use crate::errors::{MyError, RetResult};
use crate::handler::{
    AnyHandler, C2M_GetPlayerInfoHandler, C2M_MoveToMessageHandler, C2M_PingHandler, IMActorHandler,
};
use crate::message::{AnyMessage, C2M_PingRequest, IMessage, NetworkMessage};
use crate::registry::{registered, KeyedMap};

verus! {

/// The message types that a client may send.
#[derive(Clone, Copy, Debug, PartialEq, Eq, Structural)]
pub enum MessageParaser {
    MoveTo,
    GetPlayerInfo,
    Ping,
}

/// The handler of each message type that has one.
pub open spec fn standard_handlers() -> Map<Seq<char>, AnyHandler> {
    map![
        "C2M_MoveToMessage"@ => AnyHandler::MoveTo(C2M_MoveToMessageHandler),
        "C2M_GetPlayerInfoRequest"@ => AnyHandler::GetPlayerInfo(C2M_GetPlayerInfoHandler),
        "C2M_PingRequest"@ => AnyHandler::Ping(C2M_PingHandler),
    ]
}

/// The message types that a client may send, by name.
pub open spec fn standard_parasers() -> Map<Seq<char>, MessageParaser> {
    map![
        "C2M_MoveToMessage"@ => MessageParaser::MoveTo,
        "C2M_GetPlayerInfoRequest"@ => MessageParaser::GetPlayerInfo,
        "C2M_PingRequest"@ => MessageParaser::Ping,
    ]
}

/// The table of the handlers known here.
pub fn handler_map() -> (r: KeyedMap<AnyHandler>)
    ensures
        r@ == standard_handlers(),
{
    let entries: Vec<(String, AnyHandler)> = vec![
        ("C2M_MoveToMessage".to_owned(), AnyHandler::MoveTo(C2M_MoveToMessageHandler)),
        (
            "C2M_GetPlayerInfoRequest".to_owned(),
            AnyHandler::GetPlayerInfo(C2M_GetPlayerInfoHandler),
        ),
        ("C2M_PingRequest".to_owned(), AnyHandler::Ping(C2M_PingHandler)),
    ];
    proof {
        reveal_with_fuel(registered, 4);
    }
    assert(registered(entries@) =~= standard_handlers());
    KeyedMap::from_entries(entries)
}

/// The table of the message types known here.
pub fn paraser_map() -> (r: KeyedMap<MessageParaser>)
    ensures
        r@ == standard_parasers(),
{
    let entries: Vec<(String, MessageParaser)> = vec![
        ("C2M_MoveToMessage".to_owned(), MessageParaser::MoveTo),
        ("C2M_GetPlayerInfoRequest".to_owned(), MessageParaser::GetPlayerInfo),
        ("C2M_PingRequest".to_owned(), MessageParaser::Ping),
    ];
    proof {
        reveal_with_fuel(registered, 4);
    }
    assert(registered(entries@) =~= standard_parasers());
    KeyedMap::from_entries(entries)
}

/// The handler of the message type `key`.
pub fn get_handler<'a, H>(handlers: &'a KeyedMap<H>, key: &str) -> (r: Option<&'a H>)
    ensures
        match r {
            Some(handler) => handlers@.contains_key(key@) && *handler == handlers@[key@],
            None => !handlers@.contains_key(key@),
        },
{
    handlers.get(key)
}

/// What turns data into messages of the type `key`.
pub fn get_paraser<'a, P>(parasers: &'a KeyedMap<P>, key: &str) -> (r: Option<&'a P>)
    ensures
        match r {
            Some(paraser) => parasers@.contains_key(key@) && *paraser == parasers@[key@],
            None => !parasers@.contains_key(key@),
        },
{
    parasers.get(key)
}

/// What became of a message that was to be handled.
#[derive(Debug)]
pub enum Dispatched<M> {
    /// Nothing is registered for its type.
    NoHandler,
    /// A handler took it, and may have something to send back.
    Handled { reply: Option<NetworkMessage<M>> },
}

/// Whether `outcome` is what becomes of the message `data` of `client_id`.
pub open spec fn dispatches<M: IMessage, H: IMActorHandler<M>>(
    handlers: Map<Seq<char>, H>,
    data: M,
    client_id: usize,
    can_answer: bool,
    outcome: Dispatched<M>,
) -> bool {
    if handlers.contains_key(data.kind_name()) {
        &&& outcome matches Dispatched::Handled { reply }
        &&& handlers[data.kind_name()].replies(data, client_id, can_answer, reply)
    } else {
        outcome is NoHandler
    }
}

/// Hands a message to the handler of its type.
pub fn process_message_msgpack<M: IMessage, H: IMActorHandler<M>>(
    handlers: &KeyedMap<H>,
    data: &M,
    client_id: usize,
    can_answer: bool,
) -> (outcome: Dispatched<M>)
    ensures
        dispatches(handlers@, *data, client_id, can_answer, outcome),
        outcome is Handled <==> handlers@.contains_key(data.kind_name()),
        outcome matches Dispatched::Handled { reply } ==> handlers@[data.kind_name()].replies(
            *data,
            client_id,
            can_answer,
            reply,
        ),
{
    match get_handler(handlers, data.get_type_name()) {
        Some(handler) => Dispatched::Handled {
            reply: handler.handle_message(data, client_id, can_answer),
        },
        None => Dispatched::NoHandler,
    }
}

/// Data that is to become a message: what turns it into one, and whose it is.
#[derive(Debug)]
pub struct FrameJob<P> {
    pub client_id: usize,
    pub paraser: P,
    pub value: Value,
}

/// Finds what turns data into messages, by the message type that the data names.
pub fn find_paraser<P: Copy>(
    parasers: &KeyedMap<P>,
    message_type: Option<String>,
) -> (r: RetResult<P>)
    ensures
        match message_type {
            None => r matches Err(MyError::MessageNoTField()),
            Some(name) => if parasers@.contains_key(name@) {
                r matches Ok(paraser) && paraser == parasers@[name@]
            } else {
                r matches Err(MyError::MessageHandlerNotFound(unknown)) && unknown@ == name@
            },
        },
{
    match message_type {
        None => Err(MyError::MessageNoTField()),
        Some(name) => match get_paraser(parasers, name.as_str()) {
            Some(paraser) => Ok(*paraser),
            None => Err(MyError::MessageHandlerNotFound(name)),
        },
    }
}

/// Whether `r` is what becomes of the data decoded from a frame of `client_id`, where `None` stands
/// for a frame that could not be decoded.
pub open spec fn sorts<P>(
    parasers: Map<Seq<char>, P>,
    decoded: Option<Value>,
    client_id: usize,
    r: RetResult<FrameJob<P>>,
) -> bool {
    match decoded {
        None => r matches Err(MyError::NotMessagePack()),
        Some(value) => if !text_fields(value).contains_key("_t"@) {
            r matches Err(MyError::MessageNoTField())
        } else if !parasers.contains_key(text_fields(value)["_t"@]) {
            r matches Err(MyError::MessageHandlerNotFound(unknown)) && unknown@ == text_fields(
                value,
            )["_t"@]
        } else {
            &&& r matches Ok(job)
            &&& job.client_id == client_id
            &&& job.paraser == parasers[text_fields(value)["_t"@]]
            &&& job.value == value
        },
    }
}

/// Sorts the data decoded from a frame by the message type that it names.
pub fn sort_value<P: Copy>(
    parasers: &KeyedMap<P>,
    decoded: Option<Value>,
    client_id: usize,
) -> (r: RetResult<FrameJob<P>>)
    ensures
        sorts(parasers@, decoded, client_id, r),
        decoded is None ==> r matches Err(MyError::NotMessagePack()),
        decoded matches Some(value) ==> if !text_fields(value).contains_key("_t"@) {
            r matches Err(MyError::MessageNoTField())
        } else if !parasers@.contains_key(text_fields(value)["_t"@]) {
            r matches Err(MyError::MessageHandlerNotFound(unknown)) && unknown@ == text_fields(
                value,
            )["_t"@]
        } else {
            &&& r matches Ok(job)
            &&& job.client_id == client_id
            &&& job.paraser == parasers@[text_fields(value)["_t"@]]
            &&& job.value == value
        },
{
    match decoded {
        None => Err(MyError::NotMessagePack()),
        Some(value) => match find_paraser(parasers, text_field(&value, "_t")) {
            Ok(paraser) => Ok(FrameJob { client_id, paraser, value }),
            Err(e) => Err(e),
        },
    }
}

/// Takes the payload of a frame as far as the data it holds: what is left is to turn that data into
/// a message ([`request_from`]) and to put the message on the request queue ([`request_sent`]).
pub fn process_frame_message<P: Copy>(
    parasers: &KeyedMap<P>,
    message: &[u8],
    client_id: usize,
) -> (r: RetResult<FrameJob<P>>)
    ensures
        sorts(parasers@, msgpack_value(message@), client_id, r),
        msgpack_value(message@) is None ==> r matches Err(MyError::NotMessagePack()),
        msgpack_value(message@) matches Some(value) ==> if !text_fields(value).contains_key("_t"@) {
            r matches Err(MyError::MessageNoTField())
        } else if !parasers@.contains_key(text_fields(value)["_t"@]) {
            r matches Err(MyError::MessageHandlerNotFound(unknown)) && unknown@ == text_fields(
                value,
            )["_t"@]
        } else {
            &&& r matches Ok(job)
            &&& job.client_id == client_id
            &&& job.paraser == parasers@[text_fields(value)["_t"@]]
            &&& job.value == value
        },
{
    match value_from_msgpack(message) {
        Ok(value) => sort_value(parasers, Some(value), client_id),
        Err(_) => sort_value(parasers, None, client_id),
    }
}

/// Whether `r` is what becomes of data that was turned into `converted`, where `None` stands for
/// data that does not fit its message type.
pub open spec fn requests<M>(
    client_id: usize,
    converted: Option<M>,
    r: RetResult<NetworkMessage<M>>,
) -> bool {
    match converted {
        Some(data) => r == Ok::<NetworkMessage<M>, MyError>(
            NetworkMessage::Request { client_id, data },
        ),
        None => r matches Err(MyError::MessageObjectConvertFailed()),
    }
}

/// The request for the queue, from what the data was turned into.
pub fn request_from<M>(client_id: usize, converted: Option<M>) -> (r: RetResult<NetworkMessage<M>>)
    ensures
        requests(client_id, converted, r),
        match converted {
            Some(data) => {
                &&& r matches Ok(NetworkMessage::Request { client_id: from, data: asked })
                &&& from == client_id
                &&& asked == data
            },
            None => r matches Err(MyError::MessageObjectConvertFailed()),
        },
{
    match converted {
        Some(data) => Ok(NetworkMessage::Request { client_id, data }),
        None => Err(MyError::MessageObjectConvertFailed()),
    }
}

/// Whether `r` is how a frame ends whose request the queue accepted, or did not.
pub open spec fn ends(accepted: bool, r: RetResult<()>) -> bool {
    if accepted {
        r is Ok
    } else {
        r matches Err(MyError::SendRequestFailed())
    }
}

/// How a frame ended whose request was put on the queue, or was not because the queue is closed.
pub fn request_sent(accepted: bool) -> (r: RetResult<()>)
    ensures
        ends(accepted, r),
        r is Ok <==> accepted,
        !accepted ==> r matches Err(MyError::SendRequestFailed()),
{
    if accepted {
        Ok(())
    } else {
        Err(MyError::SendRequestFailed())
    }
}

/// Whether two errors say the same.
pub open spec fn same_error(first: MyError, second: MyError) -> bool {
    match (first, second) {
        (MyError::NotMessagePack(), MyError::NotMessagePack()) => true,
        (MyError::MessageNoTField(), MyError::MessageNoTField()) => true,
        (MyError::MessageHandlerNotFound(one), MyError::MessageHandlerNotFound(other)) => one@
            == other@,
        (MyError::MessageObjectConvertFailed(), MyError::MessageObjectConvertFailed()) => true,
        (MyError::SendRequestFailed(), MyError::SendRequestFailed()) => true,
        _ => false,
    }
}

/// What becomes of a frame depends on its payload alone, not on who sent it nor on what came
/// before: the same payload from two clients, or twice from one, is refused with the same error or
/// gets as far with the same data, each time for its own client.
pub proof fn law_frames_are_judged_alone<P, M>(
    parasers: Map<Seq<char>, P>,
    payload: Seq<u8>,
    first: usize,
    first_result: RetResult<FrameJob<P>>,
    second: usize,
    second_result: RetResult<FrameJob<P>>,
    converted: Option<M>,
    first_request: RetResult<NetworkMessage<M>>,
    second_request: RetResult<NetworkMessage<M>>,
)
    requires
        sorts(parasers, msgpack_value(payload), first, first_result),
        sorts(parasers, msgpack_value(payload), second, second_result),
        requests(first, converted, first_request),
        requests(second, converted, second_request),
    ensures
        match (first_result, second_result) {
            (Ok(one), Ok(other)) => {
                &&& one.client_id == first
                &&& other.client_id == second
                &&& one.paraser == other.paraser
                &&& one.value == other.value
            },
            (Err(one), Err(other)) => same_error(one, other),
            _ => false,
        },
        match (first_request, second_request) {
            (Ok(one), Ok(other)) => {
                &&& one matches NetworkMessage::Request { client_id, data }
                &&& client_id == first
                &&& other == NetworkMessage::Request { client_id: second, data }
            },
            (Err(one), Err(other)) => same_error(one, other),
            _ => false,
        },
{
}

/// The names of the message types that a client may send differ.
proof fn lemma_names_differ()
    ensures
        "C2M_MoveToMessage"@ != "C2M_GetPlayerInfoRequest"@,
        "C2M_MoveToMessage"@ != "C2M_PingRequest"@,
        "C2M_GetPlayerInfoRequest"@ != "C2M_PingRequest"@,
        "M2C_GetPlayerInfoResponse"@ != "C2M_MoveToMessage"@,
        "M2C_GetPlayerInfoResponse"@ != "C2M_GetPlayerInfoRequest"@,
        "M2C_GetPlayerInfoResponse"@ != "C2M_PingRequest"@,
        "C2M_PingResponse"@ != "C2M_MoveToMessage"@,
        "C2M_PingResponse"@ != "C2M_GetPlayerInfoRequest"@,
        "C2M_PingResponse"@ != "C2M_PingRequest"@,
{
    reveal_strlit("C2M_MoveToMessage");
    reveal_strlit("C2M_GetPlayerInfoRequest");
    reveal_strlit("C2M_PingRequest");
    reveal_strlit("M2C_GetPlayerInfoResponse");
    reveal_strlit("C2M_PingResponse");
    assert("C2M_MoveToMessage"@.len() == 17);
    assert("C2M_GetPlayerInfoRequest"@.len() == 24);
    assert("C2M_PingRequest"@.len() == 15);
    assert("M2C_GetPlayerInfoResponse"@.len() == 25);
    assert("C2M_PingResponse"@.len() == 16);
}

/// Whatever a client may send has a handler, and nothing else has one: a frame that gets as far as
/// the request queue is never dropped for want of a handler.
pub proof fn law_what_can_be_sent_is_handled()
    ensures
        standard_parasers().dom() == standard_handlers().dom(),
{
    assert(standard_parasers().dom() =~= standard_handlers().dom());
}

/// Every request is answered, if there is somewhere to answer to: the answer goes to the client
/// that asked, is of the type that belongs to the request and carries its `rpc_id`.
pub proof fn law_requests_are_answered(
    data: AnyMessage,
    client_id: usize,
    outcome: Dispatched<AnyMessage>,
)
    requires
        dispatches(standard_handlers(), data, client_id, true, outcome),
    ensures
        data matches AnyMessage::Ping(request) ==> {
            &&& outcome matches Dispatched::Handled {
                reply: Some(
                    NetworkMessage::Response { client_id: to, data: AnyMessage::Pong(answer) },
                ),
            }
            &&& to == client_id
            &&& answer.rpc_id == request.rpc_id
            &&& answer._t@ == "C2M_PingResponse"@
            &&& answer.error == 0
            &&& answer.message@.len() == 0
            &&& answer.count == 1
        },
        data matches AnyMessage::GetPlayerInfo(request) ==> {
            &&& outcome matches Dispatched::Handled {
                reply: Some(
                    NetworkMessage::Response {
                        client_id: to,
                        data: AnyMessage::PlayerInfo(answer),
                    },
                ),
            }
            &&& to == client_id
            &&& answer.rpc_id == request.rpc_id
            &&& answer._t@ == "M2C_GetPlayerInfoResponse"@
            &&& answer.error == 0
            &&& answer.message@.len() == 0
        },
{
    lemma_names_differ();
}

/// A plain message is handled and never answered, nothing is answered where there is nowhere to
/// answer to, and an answer is not handled at all.
pub proof fn law_nothing_else_is_answered(
    data: AnyMessage,
    client_id: usize,
    can_answer: bool,
    outcome: Dispatched<AnyMessage>,
)
    requires
        dispatches(standard_handlers(), data, client_id, can_answer, outcome),
    ensures
        data is MoveTo ==> outcome == (Dispatched::Handled::<AnyMessage> { reply: None }),
        data is Ping && !can_answer ==> outcome == (Dispatched::Handled::<AnyMessage> {
            reply: None,
        }),
        data is GetPlayerInfo && !can_answer ==> outcome == (Dispatched::Handled::<AnyMessage> {
            reply: None,
        }),
        data is Pong ==> outcome is NoHandler,
        data is PlayerInfo ==> outcome is NoHandler,
{
    lemma_names_differ();
}

/// Answers tell requests apart: the answers to two pings carry the same `rpc_id` only if the pings
/// do, and then it is theirs.
pub proof fn law_answers_tell_pings_apart(
    first: C2M_PingRequest,
    first_client: usize,
    first_outcome: Dispatched<AnyMessage>,
    second: C2M_PingRequest,
    second_client: usize,
    second_outcome: Dispatched<AnyMessage>,
)
    requires
        dispatches(
            standard_handlers(),
            AnyMessage::Ping(first),
            first_client,
            true,
            first_outcome,
        ),
        dispatches(
            standard_handlers(),
            AnyMessage::Ping(second),
            second_client,
            true,
            second_outcome,
        ),
    ensures
        first_outcome matches Dispatched::Handled {
            reply: Some(NetworkMessage::Response { client_id: to, data: AnyMessage::Pong(one) }),
        } && second_outcome matches Dispatched::Handled {
            reply: Some(
                NetworkMessage::Response { client_id: also_to, data: AnyMessage::Pong(other) },
            ),
        } && {
            &&& to == first_client
            &&& also_to == second_client
            &&& one.rpc_id == other.rpc_id <==> first.rpc_id == second.rpc_id
            &&& one.rpc_id == other.rpc_id ==> one.rpc_id == first.rpc_id
            &&& one.rpc_id - other.rpc_id == first.rpc_id - second.rpc_id
        },
{
    law_requests_are_answered(AnyMessage::Ping(first), first_client, first_outcome);
    law_requests_are_answered(AnyMessage::Ping(second), second_client, second_outcome);
}

/// What a client may send are exactly the messages that are no answers, each under the name of its
/// type; each becomes a message of that type, and each has the handler of that type.
pub proof fn law_registered_types(name: Seq<char>)
    ensures
        standard_parasers().contains_key(name) <==> {
            ||| name == "C2M_MoveToMessage"@
            ||| name == "C2M_GetPlayerInfoRequest"@
            ||| name == "C2M_PingRequest"@
        },
        standard_handlers().contains_key(name) <==> standard_parasers().contains_key(name),
        name == "C2M_MoveToMessage"@ ==> standard_parasers()[name] == MessageParaser::MoveTo
            && standard_handlers()[name] is MoveTo,
        name == "C2M_GetPlayerInfoRequest"@ ==> standard_parasers()[name]
            == MessageParaser::GetPlayerInfo && standard_handlers()[name] is GetPlayerInfo,
        name == "C2M_PingRequest"@ ==> standard_parasers()[name] == MessageParaser::Ping
            && standard_handlers()[name] is Ping,
{
    lemma_names_differ();
}

/// A message is handed to what is registered for its type, and to nothing else; it goes unhandled
/// exactly if nothing is.
pub proof fn law_messages_reach_their_handler<M: IMessage, H: IMActorHandler<M>>(
    handlers: Map<Seq<char>, H>,
    handler: H,
    data: M,
    client_id: usize,
    can_answer: bool,
    outcome: Dispatched<M>,
)
    ensures
        dispatches(
            handlers.insert(data.kind_name(), handler),
            data,
            client_id,
            can_answer,
            outcome,
        ) <==> (outcome matches Dispatched::Handled { reply } && handler.replies(
            data,
            client_id,
            can_answer,
            reply,
        )),
        dispatches(handlers.remove(data.kind_name()), data, client_id, can_answer, outcome)
            <==> outcome is NoHandler,
{
}

/// A frame gets through exactly if it decodes, names a type and the type is registered: nothing
/// else about it, its sender or the other types counts. What gets through is the decoded data with
/// what is registered for its type.
pub proof fn law_known_frames_get_through<P>(
    parasers: Map<Seq<char>, P>,
    paraser: P,
    value: Value,
    client_id: usize,
    r: RetResult<FrameJob<P>>,
)
    requires
        text_fields(value).contains_key("_t"@),
    ensures
        sorts(
            parasers.insert(text_fields(value)["_t"@], paraser),
            Some(value),
            client_id,
            r,
        ) ==> r == Ok::<FrameJob<P>, MyError>(FrameJob { client_id, paraser, value }),
        sorts(parasers.remove(text_fields(value)["_t"@]), Some(value), client_id, r) ==> {
            &&& r matches Err(MyError::MessageHandlerNotFound(unknown))
            &&& unknown@ == text_fields(value)["_t"@]
        },
{
}

/// A frame that does not decode, or names no type, is refused for that and nothing else.
pub proof fn law_unnamed_frames_are_refused<P>(
    parasers: Map<Seq<char>, P>,
    decoded: Option<Value>,
    client_id: usize,
    r: RetResult<FrameJob<P>>,
)
    requires
        sorts(parasers, decoded, client_id, r),
    ensures
        r matches Err(MyError::NotMessagePack()) <==> decoded is None,
        r matches Err(MyError::MessageNoTField()) <==> (decoded matches Some(value)
            && !text_fields(value).contains_key("_t"@)),
        !(r matches Err(MyError::MessageObjectConvertFailed())),
        !(r matches Err(MyError::SendRequestFailed())),
{
}

/// What a frame was turned into goes on the queue whole, under the id of its client, and the frame
/// fails only if it could not be turned into anything or the queue does not take it.
pub proof fn law_requests_go_on_the_queue_whole<M>(
    client_id: usize,
    data: M,
    requested: RetResult<NetworkMessage<M>>,
    refused: RetResult<NetworkMessage<M>>,
    accepted: bool,
    result: RetResult<()>,
)
    requires
        requests(client_id, Some(data), requested),
        requests(client_id, None, refused),
        ends(accepted, result),
    ensures
        requested matches Ok(NetworkMessage::Request { client_id: from, data: asked }) && from
            == client_id && asked == data,
        refused matches Err(MyError::MessageObjectConvertFailed()),
        result is Ok <==> accepted,
        result matches Err(e) ==> e is SendRequestFailed,
{
}

} // verus!
