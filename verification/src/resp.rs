use crate::resp_result::{RESPError, RESPResult};
use vstd::prelude::*;

verus! {

/// Carriage return, the first byte of the line terminator.
pub const CR: u8 = 13;

/// Line feed, the second byte of the line terminator.
pub const LF: u8 = 10;

/// A CRLF terminator stands at position `i` of `buf`: the byte at `i` is CR
/// and the byte at `i + 1` is LF, both inside the buffer. A lone CR, a lone
/// LF, or an LF not immediately preceded by CR is never a terminator.
pub open spec fn is_terminator_at(buf: Seq<u8>, i: int) -> bool {
    &&& 0 <= i
    &&& i + 1 < buf.len()
    &&& buf[i] == CR
    &&& buf[i + 1] == LF
}

/// No CRLF terminator stands at any position of `buf` in `[lo, hi)`.
pub open spec fn no_terminator_in(buf: Seq<u8>, lo: int, hi: int) -> bool {
    forall|i: int| lo <= i < hi ==> !is_terminator_at(buf, i)
}

/// Extract the next CRLF-terminated line of `buffer`, scanning forward from
/// `*index`.
///
/// When `*index` is already at or beyond the end of the buffer, the call
/// fails with `OutOfBounds(*index)` and the cursor is left unchanged: this is
/// the only failure that does not advance the cursor. When a terminator is
/// found, with its CR at the first position `p >= *index` holding one, the
/// payload `buffer[*index..p]` is returned (terminator excluded) and the
/// cursor advances to `p + 2`, one past the LF. When the scan exhausts the
/// buffer without a match, the call fails with `OutOfBounds(len)` and the
/// cursor moves to the buffer's length. The cursor never decreases; a failure
/// only signals that more bytes are needed before a retry.
pub fn binary_extract_line(buffer: &[u8], index: &mut usize) -> (r: RESPResult<Vec<u8>>)
    ensures
        *old(index) <= *final(index),
        *old(index) >= buffer@.len() ==> {
            &&& *final(index) == *old(index)
            &&& r matches Err(e) && e == RESPError::OutOfBounds(*old(index))
        },
        (*old(index) < buffer@.len() && no_terminator_in(
            buffer@,
            *old(index) as int,
            buffer@.len() as int,
        )) ==> {
            &&& *final(index) == buffer@.len()
            &&& r matches Err(e) && e == RESPError::OutOfBounds(buffer@.len() as usize)
        },
        forall|p: int|
            (*old(index) <= p && #[trigger] is_terminator_at(buffer@, p) && no_terminator_in(
                buffer@,
                *old(index) as int,
                p,
            )) ==> {
                &&& *final(index) == p + 2
                &&& r matches Ok(line) && line@ == buffer@.subrange(*old(index) as int, p)
            },
{
    let len: usize = buffer.len();

    if *index >= len {
        return Err(RESPError::OutOfBounds(*index));
    }

    let start: usize = *index;
    let mut i: usize = start;

    while i < len - 1 && !(buffer[i] == CR && buffer[i + 1] == LF)
        invariant
            start <= i <= len,
            start < len == buffer@.len(),
            *index == start,
            no_terminator_in(buffer@, start as int, i as int),
        decreases len - i,
    {
        i = i + 1;
    }

    if i >= len - 1 {
        proof {
            assert forall|p: int| start <= p < len as int implies !is_terminator_at(
                buffer@,
                p,
            ) by {
                if i <= p {
                    assert(p + 1 >= len);
                }
            }
        }
        *index = len;
        return Err(RESPError::OutOfBounds(len));
    }

    assert(is_terminator_at(buffer@, i as int));

    let mut output: Vec<u8> = Vec::new();
    let mut j: usize = start;

    while j < i
        invariant
            start <= j <= i,
            len == buffer@.len(),
            *index == start,
            is_terminator_at(buffer@, i as int),
            no_terminator_in(buffer@, start as int, i as int),
            output@ == buffer@.subrange(start as int, j as int),
        decreases i - j,
    {
        let b: u8 = buffer[j];
        proof {
            assert(buffer@.subrange(start as int, j + 1) =~= buffer@.subrange(
                start as int,
                j as int,
            ).push(buffer@[j as int]));
        }
        output.push(b);
        j = j + 1;
    }

    proof {
        // The terminator the scan stopped on is the one at the first
        // qualifying position, so the contract's quantified clause speaks of
        // exactly this line.
        assert forall|p: int|
            (start <= p && #[trigger] is_terminator_at(buffer@, p) && no_terminator_in(
                buffer@,
                start as int,
                p,
            )) implies p == i as int by {
            if p < i as int {
                assert(!is_terminator_at(buffer@, p));
            }
            if p > i as int {
                assert(!is_terminator_at(buffer@, i as int));
            }
        }
    }
    *index = i + 2;
    Ok(output)
}

/// Composability of successive scans. A successful scan from `cur` stops on
/// the first terminator at or after `cur`, with its CR at `p`, and hands the
/// caller the cursor `p + 2`; when a further scan from `p + 2` succeeds in the
/// same way, with its CR at `q`, it extracts exactly the line that follows the
/// first one: the two payloads, each followed by its own CRLF terminator,
/// tile the consumed region `[cur, q + 2)` of the buffer.
pub proof fn lemma_scan_composes(buf: Seq<u8>, cur: int, p: int, q: int)
    requires
        0 <= cur <= p,
        is_terminator_at(buf, p),
        no_terminator_in(buf, cur, p),
        p + 2 <= q,
        is_terminator_at(buf, q),
        no_terminator_in(buf, p + 2, q),
    ensures
        buf.subrange(cur, q + 2) == buf.subrange(cur, p) + seq![CR, LF] + buf.subrange(p + 2, q)
            + seq![CR, LF],
{
    assert(buf.subrange(cur, q + 2) =~= buf.subrange(cur, p) + seq![CR, LF] + buf.subrange(
        p + 2,
        q,
    ) + seq![CR, LF]);
}

} // verus!
