use vstd::prelude::*;

verus! {

/// The code of a request that the handler refuses (bad or missing parameters).
pub const INVALID_PARAMS: i64 = -32602;

/// The code of a failure inside the handler.
pub const INTERNAL_ERROR: i64 = -32000;

/// A failed request: a JSON-RPC error code and a message.
#[derive(Debug)]
pub struct PluginFailure {
    pub code: i64,
    pub message: String,
}

/// A failure with `code` and the literal message `message`.
pub fn failure(code: i64, message: &str) -> (f: PluginFailure)
    ensures
        f.code == code,
        f.message@ == message@,
{
    PluginFailure { code, message: String::from_str(message) }
}

} // verus!
