//! Byte-string search: what it means for a needle to occur in a haystack, and
//! the two searches that the rest of the library is built on.

use vstd::prelude::*;

verus! {

/// `needle` stands in `hay` with its first byte at index `i`.
pub open spec fn occurs_at(hay: Seq<u8>, needle: Seq<u8>, i: int) -> bool {
    &&& 0 <= i
    &&& i + needle.len() <= hay.len()
    &&& hay.subrange(i, i + needle.len()) == needle
}

/// `i` is the index of the first occurrence of `needle` in `hay`.
pub open spec fn first_at(hay: Seq<u8>, needle: Seq<u8>, i: int) -> bool {
    &&& occurs_at(hay, needle, i)
    &&& forall|j: int| 0 <= j < i ==> !occurs_at(hay, needle, j)
}

/// `needle` occurs somewhere in `hay`.
pub open spec fn occurs(hay: Seq<u8>, needle: Seq<u8>) -> bool {
    exists|i: int| occurs_at(hay, needle, i)
}

/// The index of the first occurrence of `needle` in `hay`, where it occurs.
pub open spec fn first_index(hay: Seq<u8>, needle: Seq<u8>) -> int {
    choose|i: int| first_at(hay, needle, i)
}

/// `hay` with its first occurrence of `needle` replaced by `with`, and `hay`
/// itself where `needle` does not occur in it.
pub open spec fn replace_first(hay: Seq<u8>, needle: Seq<u8>, with: Seq<u8>) -> Seq<u8> {
    if occurs(hay, needle) {
        let c = first_index(hay, needle);
        hay.subrange(0, c) + with + hay.subrange(c + needle.len(), hay.len() as int)
    } else {
        hay
    }
}

/// A needle has at most one first occurrence.
pub proof fn lemma_first_at_unique(hay: Seq<u8>, needle: Seq<u8>, i: int, j: int)
    requires
        first_at(hay, needle, i),
        first_at(hay, needle, j),
    ensures
        i == j,
{
}

/// Where the first occurrence of `needle` in `hay` starts at `c`, replacing it
/// keeps the bytes before `c` and the bytes behind the occurrence as they are,
/// later occurrences among them, and puts `with` between them.
pub proof fn lemma_replace_first_at(hay: Seq<u8>, needle: Seq<u8>, with: Seq<u8>, c: int)
    requires
        first_at(hay, needle, c),
    ensures
        replace_first(hay, needle, with) == hay.subrange(0, c) + with + hay.subrange(
            c + needle.len(),
            hay.len() as int,
        ),
{
    lemma_first_at_unique(hay, needle, c, first_index(hay, needle));
}

/// Calls `memchr::memchr`: the index of the first byte of `hay` that equals
/// `needle`, or `None` where no byte of `hay` equals it.
#[verifier::external_body]
pub(crate) fn find_byte(needle: u8, hay: &[u8]) -> (r: Option<usize>)
    ensures
        match r {
            Some(i) => {
                &&& i < hay@.len()
                &&& hay@[i as int] == needle
                &&& forall|j: int| 0 <= j < i ==> hay@[j] != needle
            },
            None => forall|j: int| 0 <= j < hay@.len() ==> hay@[j] != needle,
        },
{
    memchr::memchr(needle, hay)
}

/// Calls `memchr::memmem::find`: the index of the first occurrence of `needle`
/// in `hay`, or `None` where `needle` does not occur in it.
#[verifier::external_body]
pub(crate) fn find_sub(hay: &[u8], needle: &[u8]) -> (r: Option<usize>)
    ensures
        match r {
            Some(i) => first_at(hay@, needle@, i as int),
            None => forall|j: int| !occurs_at(hay@, needle@, j),
        },
{
    memchr::memmem::find(hay, needle)
}

} // verus!
