//! Names of queues.

use crate::error::{IoFailure, ShmError, ShmResult};
use vstd::prelude::*;
use vstd::string::*;
use vstd::utf8::encode_utf8;

verus! {

/// The first zero among `bytes` from `from` on, or their number where there is
/// none.
pub open spec fn first_nul(bytes: Seq<u8>, from: int) -> int
    decreases bytes.len() - from,
{
    if from >= bytes.len() {
        bytes.len() as int
    } else if bytes[from] == 0 {
        from
    } else {
        first_nul(bytes, from + 1)
    }
}

/// What `first_nul` finds.
pub proof fn lemma_first_nul(bytes: Seq<u8>, from: int)
    requires
        0 <= from <= bytes.len(),
    ensures
        ({
            let found = first_nul(bytes, from);
            &&& from <= found <= bytes.len()
            &&& found < bytes.len() ==> bytes[found] == 0
            &&& forall|i: int| from <= i < found ==> bytes[i] != 0
        }),
    decreases bytes.len() - from,
{
    if from < bytes.len() && bytes[from] != 0 {
        lemma_first_nul(bytes, from + 1);
    }
}

/// Takes `path` as the name of a queue. The operating system ends a name at its
/// first NUL byte, so one that holds such a byte is refused.
pub fn queue_name(path: &str) -> (r: ShmResult<String>)
    ensures
        ({
            let bytes = encode_utf8(path@);
            let nul = first_nul(bytes, 0);
            if nul < bytes.len() {
                r == Err::<String, ShmError>(ShmError::Io(IoFailure::InteriorNul(nul as usize)))
            } else {
                r is Ok && r->Ok_0@ == path@
            }
        }),
{
    let bytes = path.as_bytes();
    let mut i: usize = 0;
    while i < bytes.len()
        invariant
            i <= bytes@.len(),
            bytes@ == encode_utf8(path@),
            first_nul(bytes@, 0) == first_nul(bytes@, i as int),
        decreases bytes@.len() - i,
    {
        if bytes[i] == 0 {
            return Err(ShmError::from(IoFailure::InteriorNul(i)));
        }
        i = i + 1;
    }
    Ok(path.to_owned())
}

} // verus!
