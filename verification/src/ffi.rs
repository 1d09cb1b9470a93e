//! What comes back from the registry client that is linked in as a C library, and
//! what may be handed to it.

use vstd::prelude::*;

use crate::text;

verus! {

/// The envelope of every answer.
pub struct GoResponse {
    pub ok: bool,
    pub data: String,
    pub error: String,
}

/// How far a transfer has come.
pub struct ProgressSnapshot {
    pub status: String,
    pub total: i64,
    pub completed: i64,
}

/// The data of an answer, or its error.
pub fn consume(resp: GoResponse) -> (r: Result<String, String>)
    ensures
        r == if resp.ok {
            Ok::<String, String>(resp.data)
        } else {
            Err::<String, String>(resp.error)
        },
{
    if resp.ok {
        Ok(resp.data)
    } else {
        Err(resp.error)
    }
}

/// Whether a text can be handed to the library: it ends at the first NUL there.
pub fn is_c_string(s: &str) -> (r: bool)
    ensures
        r == !s@.contains('\0'),
{
    !text::contains_char(s, '\0')
}

/// Whether a transfer has pushed anything, by the data of its answer.
pub fn is_changed(data: &str) -> (r: bool)
    ensures
        r == (data@ == "changed"@),
{
    text::same(data, "changed")
}

} // verus!
