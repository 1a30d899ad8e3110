//! The texts of the API's "not found" answers.
use vstd::prelude::*;

use crate::text::{chars_of, owned, push_chars};

verus! {

fn concat2(a: &str, b: &str) -> (r: String)
    ensures
        r@ == a@ + b@,
{
    let mut r = owned(a);
    push_chars(&mut r, &chars_of(b));
    r
}

fn concat4(a: &str, b: &str, c: &str, d: &str) -> (r: String)
    ensures
        r@ == a@ + b@ + c@ + d@,
{
    let mut r = owned(a);
    push_chars(&mut r, &chars_of(b));
    push_chars(&mut r, &chars_of(c));
    push_chars(&mut r, &chars_of(d));
    r
}

/// "Device not found: ID".
pub fn device_not_found(id: &str) -> (m: String)
    ensures
        m@ == "Device not found: "@ + id@,
{
    concat2("Device not found: ", id)
}

/// "Memory not found: ID".
pub fn memory_not_found(id: &str) -> (m: String)
    ensures
        m@ == "Memory not found: "@ + id@,
{
    concat2("Memory not found: ", id)
}

/// "Collection not found: ID".
pub fn collection_not_found(id: &str) -> (m: String)
    ensures
        m@ == "Collection not found: "@ + id@,
{
    concat2("Collection not found: ", id)
}

/// "Item ITEM not found in memory MEMORY".
pub fn item_not_in_memory(item_id: &str, memory_id: &str) -> (m: String)
    ensures
        m@ == "Item "@ + item_id@ + " not found in memory "@ + memory_id@,
{
    concat4("Item ", item_id, " not found in memory ", memory_id)
}

/// "Memory MEMORY not in collection COLLECTION".
pub fn memory_not_in_collection(memory_id: &str, collection_id: &str) -> (m: String)
    ensures
        m@ == "Memory "@ + memory_id@ + " not in collection "@ + collection_id@,
{
    concat4("Memory ", memory_id, " not in collection ", collection_id)
}

} // verus!
