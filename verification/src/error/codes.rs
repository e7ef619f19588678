//! JSON-RPC error codes per the MCP / JSON-RPC 2.0 spec.

use vstd::prelude::*;

verus! {

pub const INVALID_PARAMS: i32 = -32602i32;

pub const INTERNAL_ERROR: i32 = -32603i32;

} // verus!
