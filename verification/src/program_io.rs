//! What the I/O transports decide: where a terminator ends in received data.

use vstd::prelude::*;

verus! {

/// `terminator` fills the window of `data` that starts at `pos`.
pub open spec fn terminator_at(data: Seq<u8>, terminator: Seq<u8>, pos: int) -> bool {
    0 <= pos && pos + terminator.len() <= data.len() && data.subrange(
        pos,
        pos + terminator.len(),
    ) == terminator
}

/// The position of the first occurrence of `terminator` in `data`.
pub fn find_terminator(data: &[u8], terminator: &[u8]) -> (found: Option<usize>)
    requires
        terminator@.len() > 0,
    ensures
        match found {
            Some(pos) => terminator_at(data@, terminator@, pos as int) && forall|q: int|
                0 <= q < pos ==> !terminator_at(data@, terminator@, q),
            None => forall|q: int| !terminator_at(data@, terminator@, q),
        },
{
    let m = terminator.len();
    let len = data.len();
    if m > len {
        return None;
    }
    let mut pos: usize = 0;
    while pos <= len - m
        invariant
            0 < m <= len,
            m == terminator@.len(),
            len == data@.len(),
            pos <= len - m + 1,
            forall|q: int| 0 <= q < pos ==> !terminator_at(data@, terminator@, q),
        decreases len - m + 1 - pos,
    {
        let mut i: usize = 0;
        let mut same = true;
        while i < m
            invariant
                0 < m <= len,
                m == terminator@.len(),
                len == data@.len(),
                pos <= len - m,
                i <= m,
                same ==> forall|j: int| 0 <= j < i ==> data@[pos + j] == terminator@[j],
                !same ==> exists|j: int| 0 <= j < m && data@[pos + j] != terminator@[j],
            decreases m - i,
        {
            if data[pos + i] != terminator[i] {
                same = false;
            }
            i += 1;
        }
        if same {
            assert(data@.subrange(pos as int, pos + m) =~= terminator@);
            return Some(pos);
        }
        pos += 1;
    }
    None
}

/// How many bytes a receive up to a terminator takes from the stream: all up
/// to and including the first occurrence of the terminator, if it has come.
pub fn bytes_until(data: &[u8], terminator: &[u8]) -> (taken: Option<usize>)
    requires
        terminator@.len() > 0,
    ensures
        match taken {
            Some(n) => n >= terminator@.len() && n <= data@.len() && terminator_at(
                data@,
                terminator@,
                n - terminator@.len(),
            ) && forall|q: int| 0 <= q < n - terminator@.len() ==> !terminator_at(data@, terminator@, q),
            None => forall|q: int| !terminator_at(data@, terminator@, q),
        },
{
    let len = data.len();
    match find_terminator(data, terminator) {
        Some(pos) => {
            Some(pos + terminator.len())
        },
        None => None,
    }
}

} // verus!
