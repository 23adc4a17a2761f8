use vstd::prelude::*;

use crate::json::{get_member, member, JsonValue};

verus! {

/// The layout of a response of the key-value secrets engine.
#[derive(Debug, Clone, Copy, PartialEq, Eq)]
pub enum KvShape {
    /// Version 1: `data` holds the secrets.
    V1,
    /// Version 2: `data.metadata.version` is a number and `data.data` holds
    /// the secrets.
    V2,
}

/// The layout of a response whose `data` member is `data`.
pub open spec fn kv_shape(data: JsonValue) -> KvShape {
    if member(member(data, "metadata"@), "version"@) is Number {
        KvShape::V2
    } else {
        KvShape::V1
    }
}

/// The node of a response that should hold the secrets.
pub open spec fn secret_node(response: JsonValue) -> JsonValue {
    let data = member(response, "data"@);
    match kv_shape(data) {
        KvShape::V2 => member(data, "data"@),
        KvShape::V1 => data,
    }
}

/// Tells the two layouts apart by `data.metadata.version`.
pub fn detect_kv_shape(data: &JsonValue) -> (r: KvShape)
    ensures
        r == kv_shape(*data),
{
    let metadata_key = "metadata".to_owned();
    let version_key = "version".to_owned();
    match get_member(data, &metadata_key) {
        Some(metadata) => match get_member(metadata, &version_key) {
            Some(JsonValue::Number(_)) => KvShape::V2,
            _ => KvShape::V1,
        },
        None => KvShape::V1,
    }
}

/// The secrets of a response: the members of `data.data` for version 2, of
/// `data` for version 1. `None` where that node is no object.
pub fn normalize_response<'a>(response: &'a JsonValue) -> (r: Option<&'a Vec<(String, JsonValue)>>)
    ensures
        r is Some <==> secret_node(*response) is Object,
        r matches Some(secrets) ==> secret_node(*response) == JsonValue::Object(*secrets),
{
    let data_key = "data".to_owned();
    let data = match get_member(response, &data_key) {
        Some(d) => d,
        None => {
            return None;
        },
    };
    let node = match detect_kv_shape(data) {
        KvShape::V2 => match get_member(data, &data_key) {
            Some(d) => d,
            None => {
                return None;
            },
        },
        KvShape::V1 => data,
    };
    match node {
        JsonValue::Object(secrets) => Some(secrets),
        _ => None,
    }
}

} // verus!
