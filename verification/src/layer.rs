//! The layers that a message type belongs to, and the process-wide root.

use vstd::prelude::*;

verus! {

/// A type with one instance for the whole process.
pub trait Singleton {
    fn instance() -> &'static Self;
}

/// The root of the process.
#[derive(Clone, Copy, Debug, PartialEq, Eq, Structural)]
pub struct Root {}

impl Singleton for Root {
    fn instance() -> (r: &'static Self)
        ensures
            *r == (Root {  }),
    {
        &Root {  }
    }
}

/// What a message is to an actor.
#[derive(Clone, Copy, Debug, PartialEq, Eq, Structural)]
pub enum Layer2Type {
    ActorMessage,
    ActorRequest,
    ActorResponse,
}

/// What a message is to an actor that is found by its location.
#[derive(Clone, Copy, Debug, PartialEq, Eq, Structural)]
pub enum Layer3Type {
    ActorLocationMessage,
    ActorLocationRequest,
    ActorLocationResponse,
}

/// The layer that a location layer refines.
pub open spec fn refines(layer: Layer3Type) -> Layer2Type {
    match layer {
        Layer3Type::ActorLocationMessage => Layer2Type::ActorMessage,
        Layer3Type::ActorLocationRequest => Layer2Type::ActorRequest,
        Layer3Type::ActorLocationResponse => Layer2Type::ActorResponse,
    }
}

/// A message type that knows its actor layer.
pub trait GetLayer2Type {
    spec fn layer2() -> Layer2Type;

    fn get_layer2_type() -> (r: &'static Layer2Type)
        ensures
            *r == Self::layer2(),
    ;
}

/// A message type that knows its location layer.
pub trait GetLayer3Type {
    spec fn layer3() -> Layer3Type;

    fn get_layer3_type() -> (r: &'static Layer3Type)
        ensures
            *r == Self::layer3(),
    ;
}

} // verus!
