//! The integer and text tests that the cadence detector applies to a stream of
//! outputs: which outputs fall in the sliding window, whether an output adds new
//! content after the one before it, and whether an output trails off.

use vstd::prelude::*;

verus! {

/// The position where the window of the `window_size` most recent of `len`
/// outputs starts: the window is the outputs at `start..len`.
pub open spec fn spec_window_start(len: nat, window_size: nat) -> nat {
    if len > window_size {
        (len - window_size) as nat
    } else {
        0
    }
}

/// The bytes end with three full stops, `"..."`.
pub open spec fn ends_with_ellipsis(bytes: Seq<u8>) -> bool {
    &&& bytes.len() >= 3
    &&& bytes[bytes.len() - 3] == 46u8
    &&& bytes[bytes.len() - 2] == 46u8
    &&& bytes[bytes.len() - 1] == 46u8
}

/// The three bytes of `"..."`: three full stops.
pub open spec fn ellipsis() -> Seq<u8> {
    seq![46u8, 46u8, 46u8]
}

/// Bytes end with `"..."` exactly when they are some bytes followed by three full
/// stops; in particular bytes shorter than three, or whose third-from-last,
/// second-from-last or last byte is not a full stop, do not.
pub proof fn law_ellipsis_is_a_suffix_of_three_full_stops(bytes: Seq<u8>)
    ensures
        ends_with_ellipsis(bytes) <==> exists|prefix: Seq<u8>|
            bytes == #[trigger] prefix.add(ellipsis()),
        ends_with_ellipsis(bytes) <==> (bytes.len() >= 3 && bytes.subrange(bytes.len() - 3, bytes.len() as int)
            == seq![46u8, 46u8, 46u8]),
        bytes.len() < 3 ==> !ends_with_ellipsis(bytes),
        bytes.len() >= 3 && (bytes[bytes.len() - 3] != 46u8 || bytes[bytes.len() - 2] != 46u8
            || bytes[bytes.len() - 1] != 46u8) ==> !ends_with_ellipsis(bytes),
{
    let dots = ellipsis();
    assert(dots =~= seq![46u8, 46u8, 46u8]);
    if bytes.len() >= 3 {
        assert(ends_with_ellipsis(bytes) <==> bytes.subrange(bytes.len() - 3, bytes.len() as int) =~= dots);
    }
    if ends_with_ellipsis(bytes) {
        let prefix = bytes.subrange(0, bytes.len() - 3);
        assert(bytes =~= prefix.add(dots));
    }
    if exists|prefix: Seq<u8>| bytes == #[trigger] prefix.add(dots) {
        let prefix = choose|prefix: Seq<u8>| bytes == #[trigger] prefix.add(dots);
        assert(bytes.len() == prefix.len() + 3);
        assert(bytes[bytes.len() - 3] == dots[0]);
        assert(bytes[bytes.len() - 2] == dots[1]);
        assert(bytes[bytes.len() - 1] == dots[2]);
    }
}

/// Where the window of the most recent `window_size` outputs starts in a stream
/// of `len` outputs. The window keeps the stream's order and holds
/// `min(len, window_size)` outputs.
pub fn window_start(len: usize, window_size: usize) -> (start: usize)
    ensures
        start == spec_window_start(len as nat, window_size as nat),
        start <= len,
        len - start == if len < window_size { len as int } else { window_size as int },
{
    if len > window_size {
        len - window_size
    } else {
        0
    }
}

/// The latest output brings new content: its text is longer, in bytes, than
/// half (rounded down) of the text of the output before it.
pub fn adds_new_content(latest: &str, previous: &str) -> (fresh: bool)
    ensures
        fresh == (vstd::utf8::encode_utf8(latest@).len() > vstd::utf8::encode_utf8(previous@).len() / 2),
{
    latest.as_bytes().len() > previous.as_bytes().len() / 2
}

/// The output trails off: its text ends with `"..."`.
pub fn trails_off(content: &str) -> (trailing: bool)
    ensures
        trailing == ends_with_ellipsis(vstd::utf8::encode_utf8(content@)),
        trailing <==> exists|prefix: Seq<u8>|
            vstd::utf8::encode_utf8(content@) == #[trigger] prefix.add(ellipsis()),
        trailing <==> ({
            let bytes = vstd::utf8::encode_utf8(content@);
            bytes.len() >= 3 && bytes.subrange(bytes.len() - 3, bytes.len() as int) == seq![46u8, 46u8, 46u8]
        }),
{
    proof {
        law_ellipsis_is_a_suffix_of_three_full_stops(vstd::utf8::encode_utf8(content@));
    }
    let bytes = content.as_bytes();
    let n = bytes.len();
    if n < 3 {
        return false;
    }
    bytes[n - 3] == 46u8 && bytes[n - 2] == 46u8 && bytes[n - 1] == 46u8
}

} // verus!
