//! Binary sniffing: a byte stream is classified binary when a zero byte
//! occurs among its first 1024 bytes.

use vstd::prelude::*;

verus! {

/// How many leading bytes the sniffer examines.
pub open spec fn sniff_window() -> int {
    1024
}

/// A byte sequence is binary when some byte inside the sniff window is zero.
pub open spec fn is_binary_spec(bytes: Seq<u8>) -> bool {
    exists|i: int|
        0 <= i < bytes.len() && i < sniff_window() && bytes[i] == 0u8
}

/// Classifies content as binary or text from its leading bytes.
pub fn is_binary(content: &[u8]) -> (r: bool)
    ensures
        r == is_binary_spec(content@),
{
    let n = content.len();
    let limit = if n < 1024 {
        n
    } else {
        1024
    };
    let mut i: usize = 0;
    while i < limit
        invariant
            limit <= content@.len(),
            limit <= 1024,
            n < 1024 ==> limit == n,
            n >= 1024 ==> limit == 1024,
            n == content@.len(),
            i <= limit,
            forall|j: int| 0 <= j < i ==> content@[j] != 0u8,
        decreases limit - i,
    {
        if content[i] == 0u8 {
            assert(is_binary_spec(content@));
            return true;
        }
        i += 1;
    }
    assert(!is_binary_spec(content@)) by {
        assert(forall|j: int|
            0 <= j < content@.len() && j < sniff_window() ==> #[trigger] content@[j] != 0u8);
    }
    false
}

} // verus!
