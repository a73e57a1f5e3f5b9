//! The outside of a message: MessagePack data that names its message type in a field `_t`.

use serde_json::Value;
use vstd::prelude::*;

verus! {

/// A value of the data model that MessagePack is decoded into.
#[verifier::external_type_specification]
#[verifier::external_body]
pub struct ExValue(serde_json::Value);

/// Why some bytes are no MessagePack.
#[verifier::external_type_specification]
#[verifier::external_body]
pub struct ExDecodeError(rmp_serde::decode::Error);

/// What `rmp_serde::from_slice` makes of some bytes, `None` where it fails.
pub uninterp spec fn msgpack_value(message: Seq<u8>) -> Option<Value>;

/// The entries of a value that are text: of an object each key whose value is a string, with that
/// string, and of any other value nothing.
pub uninterp spec fn text_fields(value: Value) -> Map<Seq<char>, Seq<char>>;

/// Decodes MessagePack by `rmp_serde::from_slice`. Claimed of it is that the bytes alone decide
/// whether it succeeds and which value comes out.
#[verifier::external_body]
pub(crate) fn value_from_msgpack(message: &[u8]) -> (r: Result<Value, rmp_serde::decode::Error>)
    ensures
        match r {
            Ok(value) => msgpack_value(message@) == Some(value),
            Err(_) => msgpack_value(message@) is None,
        },
{
    rmp_serde::from_slice::<Value>(message)
}

/// Looks up a text field by indexing a `serde_json::Value` with a key and asking for a string by
/// `Value::as_str`. Claimed is that this finds exactly the text entries of the value: indexing
/// anything but an object, or an object without the key, gives null, which is no string.
#[verifier::external_body]
pub(crate) fn text_field(value: &Value, key: &str) -> (r: Option<String>)
    ensures
        match r {
            Some(text) => text_fields(*value).contains_key(key@) && text_fields(*value)[key@]
                == text@,
            None => !text_fields(*value).contains_key(key@),
        },
{
    value[key].as_str().map(|text| text.to_string())
}

} // verus!
