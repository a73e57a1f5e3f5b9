use tiangz::handler::{
    AMActorLocationHandler, AMActorLocationRpcHandler, C2M_GetPlayerInfoHandler,
    C2M_MoveToMessageHandler, C2M_PingHandler, IMActorHandler,
};
use tiangz::layer::{GetLayer2Type, GetLayer3Type, Layer2Type, Layer3Type, Root, Singleton};
use tiangz::message::{
    AnyMessage, C2M_GetPlayerInfoRequest, C2M_MoveToMessage, C2M_PingRequest, C2M_PingResponse,
    IMessage, IRequest, IResponse, M2C_GetPlayerInfoResponse,
};
use tiangz::priority::{priority_class, set_process_priority, PriorityClass};

fn ping_request() -> C2M_PingRequest {
    C2M_PingRequest { rpc_id: 1, _t: "C2M_PingRequest".to_string() }
}

#[test]
fn messages_know_their_type() {
    assert_eq!(ping_request().get_type_name(), "C2M_PingRequest");
    assert_eq!(ping_request().get_rpc_id(), 1);
    assert_eq!(AnyMessage::Ping(ping_request()).get_type_name(), "C2M_PingRequest");
    let info = C2M_GetPlayerInfoRequest {
        rpc_id: 5,
        _t: "C2M_GetPlayerInfoRequest".to_string(),
        player_id: 0,
    };
    assert_eq!(info.get_type_name(), "C2M_GetPlayerInfoRequest");
    assert_eq!(info.get_rpc_id(), 5);
    assert_eq!(AnyMessage::GetPlayerInfo(info).get_type_name(), "C2M_GetPlayerInfoRequest");
    let moved = C2M_MoveToMessage { _t: "C2M_MoveToMessage".to_string(), player_id: 0 };
    assert_eq!(moved.get_type_name(), "C2M_MoveToMessage");
    assert_eq!(AnyMessage::MoveTo(moved).get_type_name(), "C2M_MoveToMessage");
}

#[test]
fn answers_carry_what_was_asked() {
    let pong = C2M_PingResponse::answering(9);
    assert_eq!(pong.get_rpc_id(), 9);
    assert_eq!(pong.get_error(), 0);
    assert_eq!(pong.get_message(), "");
    assert_eq!(pong.get_type_name(), "C2M_PingResponse");
    assert_eq!(pong.count, 0);
    assert_eq!(AnyMessage::Pong(pong).get_type_name(), "C2M_PingResponse");
    let mut info = M2C_GetPlayerInfoResponse::answering(10);
    info.error = 1;
    info.message = "no player".to_string();
    assert_eq!(info.get_rpc_id(), 10);
    assert_eq!(info.get_error(), 1);
    assert_eq!(info.get_message(), "no player");
    assert_eq!(info.get_type_name(), "M2C_GetPlayerInfoResponse");
    assert_eq!(AnyMessage::PlayerInfo(info).get_type_name(), "M2C_GetPlayerInfoResponse");
}

#[test]
fn ping_handler_counts() {
    let mut pong = C2M_PingResponse::answering(9);
    C2M_PingHandler.run(&ping_request(), &mut pong);
    assert_eq!(pong.count, 1);
    C2M_PingHandler.handler(&ping_request(), &mut pong);
    assert_eq!(pong.count, 2);
    assert_eq!(pong.rpc_id, 9);
}

#[test]
fn other_handlers_leave_things_alone() {
    let request = C2M_GetPlayerInfoRequest {
        rpc_id: 5,
        _t: "C2M_GetPlayerInfoRequest".to_string(),
        player_id: 0,
    };
    let mut info = M2C_GetPlayerInfoResponse::answering(5);
    C2M_GetPlayerInfoHandler.handler(&request, &mut info);
    assert_eq!(info.error, 0);
    assert_eq!(info.rpc_id, 5);
    let moved = C2M_MoveToMessage { _t: "C2M_MoveToMessage".to_string(), player_id: 3 };
    C2M_MoveToMessageHandler.handler(&moved);
    assert!(C2M_MoveToMessageHandler
        .handle_message(&AnyMessage::MoveTo(moved), 1, true)
        .is_none());
}

#[test]
fn handler_ignores_messages_of_other_types() {
    assert!(C2M_GetPlayerInfoHandler
        .handle_message(&AnyMessage::Ping(ping_request()), 1, true)
        .is_none());
}

#[test]
fn location_layer_refines_actor_layer() {
    assert_eq!(*C2M_MoveToMessage::get_layer2_type(), Layer2Type::ActorMessage);
    assert_eq!(*C2M_MoveToMessage::get_layer3_type(), Layer3Type::ActorLocationMessage);
    assert_eq!(*C2M_PingRequest::get_layer2_type(), Layer2Type::ActorRequest);
    assert_eq!(*C2M_PingRequest::get_layer3_type(), Layer3Type::ActorLocationRequest);
    assert_eq!(*C2M_PingResponse::get_layer2_type(), Layer2Type::ActorResponse);
    assert_eq!(*C2M_PingResponse::get_layer3_type(), Layer3Type::ActorLocationResponse);
    assert_eq!(*C2M_GetPlayerInfoRequest::get_layer2_type(), Layer2Type::ActorRequest);
    assert_eq!(
        *C2M_GetPlayerInfoRequest::get_layer3_type(),
        Layer3Type::ActorLocationRequest
    );
    assert_eq!(*M2C_GetPlayerInfoResponse::get_layer2_type(), Layer2Type::ActorResponse);
    assert_eq!(
        *M2C_GetPlayerInfoResponse::get_layer3_type(),
        Layer3Type::ActorLocationResponse
    );
}

#[test]
fn root_has_one_instance() {
    assert!(std::ptr::eq(Root::instance(), Root::instance()));
}

#[test]
fn priority_is_chosen_by_the_flag() {
    assert_eq!(priority_class(true), PriorityClass::High);
    assert_eq!(priority_class(false), PriorityClass::Normal);
    assert!(set_process_priority(true).is_ok());
    assert!(set_process_priority(false).is_ok());
}
