//! Extraction of `<CR><LF>`-terminated lines from a growing byte buffer.

use bstr::ByteSlice;
use vstd::prelude::*;

verus! {

/// Carriage return.
pub const CR: u8 = 13;

/// Line feed.
pub const LF: u8 = 10;

/// Full stop, which alone on a line ends a mail body.
pub const DOT: u8 = 46;

/// Space, which separates an SMTP verb from its arguments.
pub const SP: u8 = 32;

/// True when `needle` occurs in `haystack` starting at index `i`.
pub open spec fn occurs_at(haystack: Seq<u8>, needle: Seq<u8>, i: int) -> bool {
    0 <= i && i + needle.len() <= haystack.len() && haystack.subrange(i, i + needle.len()) == needle
}

/// Relies on bstr's `ByteSlice::find`: the index of the first occurrence of
/// `needle` in `haystack`, or `None` when it does not occur.
#[verifier::external_body]
pub(crate) fn find_bytes(haystack: &[u8], needle: &[u8]) -> (r: Option<usize>)
    ensures
        match r {
            Some(i) => occurs_at(haystack@, needle@, i as int) && forall|j: int|
                0 <= j < i ==> !occurs_at(haystack@, needle@, j),
            None => forall|j: int| !occurs_at(haystack@, needle@, j),
        },
{
    haystack.find(needle)
}

/// True when the line terminator `<CR><LF>` starts at index `i` of `b`.
pub open spec fn crlf_at(b: Seq<u8>, i: int) -> bool {
    0 <= i && i + 1 < b.len() && b[i] == CR && b[i + 1] == LF
}

/// The index of the first `<CR><LF>` in `b`, if there is one.
pub open spec fn line_end(b: Seq<u8>) -> Option<nat>
    decreases b.len(),
{
    if b.len() < 2 {
        None
    } else if b[0] == CR && b[1] == LF {
        Some(0)
    } else {
        match line_end(b.drop_first()) {
            Some(n) => Some(n + 1),
            None => None,
        }
    }
}

/// The first complete line of `b` (without its terminator) and what follows
/// the terminator, or `None` when `b` holds no complete line.
pub open spec fn split_line(b: Seq<u8>) -> Option<(Seq<u8>, Seq<u8>)> {
    match line_end(b) {
        Some(n) => Some((b.take(n as int), b.skip(n + 2int))),
        None => None,
    }
}

/// `line_end` finds the first terminator, and only a terminator.
pub proof fn lemma_line_end(b: Seq<u8>)
    ensures
        match line_end(b) {
            Some(n) => crlf_at(b, n as int) && forall|j: int| 0 <= j < n ==> !crlf_at(b, j),
            None => forall|j: int| !crlf_at(b, j),
        },
    decreases b.len(),
{
    if b.len() >= 2 && !(b[0] == CR && b[1] == LF) {
        lemma_line_end(b.drop_first());
        assert forall|j: int| 0 <= j implies crlf_at(b, j + 1) == crlf_at(b.drop_first(), j) by {}
        assert forall|j: int| crlf_at(b, j) implies j >= 1 && crlf_at(b.drop_first(), j - 1) by {}
    }
}

/// The terminator found in `a` is also the first one in `a + c`.
pub proof fn lemma_line_end_prefix(a: Seq<u8>, c: Seq<u8>)
    requires
        line_end(a) is Some,
    ensures
        line_end(a + c) == line_end(a),
    decreases a.len(),
{
    if !(a[0] == CR && a[1] == LF) {
        assert((a + c).drop_first() =~= a.drop_first() + c);
        lemma_line_end_prefix(a.drop_first(), c);
    }
}

/// Removes the first complete line from `buffer` and returns it without its
/// terminator; the terminator is dropped as well. Leaves `buffer` untouched
/// and returns `None` when it holds no complete line.
pub fn next_line(buffer: &mut Vec<u8>) -> (r: Option<Vec<u8>>)
    ensures
        match split_line(old(buffer)@) {
            Some((line, rest)) => r is Some && r->0@ == line && final(buffer)@ == rest,
            None => r is None && final(buffer)@ == old(buffer)@,
        },
{
    let crlf: [u8; 2] = [CR, LF];
    let found = find_bytes(buffer.as_slice(), crlf.as_slice());
    proof {
        lemma_line_end(buffer@);
    }
    match found {
        Some(index) => {
            proof {
                assert(crlf@ == seq![CR, LF]);
                assert(crlf_at(buffer@, index as int));
                assert forall|j: int| 0 <= j < index implies !crlf_at(buffer@, j) by {
                    assert(!occurs_at(buffer@, crlf@, j));
                    if crlf_at(buffer@, j) {
                        assert(buffer@.subrange(j, j + 2) =~= crlf@);
                    }
                }
                if line_end(buffer@) is Some {
                    let n = line_end(buffer@)->0;
                    assert(n == index);
                }
            }
            let mut tail = buffer.split_off(index);
            let mut rest = tail.split_off(2);
            std::mem::swap(buffer, &mut rest);
            Some(rest)
        },
        None => {
            proof {
                assert(crlf@ == seq![CR, LF]);
                assert forall|j: int| !crlf_at(buffer@, j) by {
                    assert(!occurs_at(buffer@, crlf@, j));
                    if crlf_at(buffer@, j) {
                        assert(buffer@.subrange(j, j + 2) =~= crlf@);
                    }
                }
            }
            None
        },
    }
}

} // verus!
