//! Filling the output buffer of the audio device from a two-channel track.
use vstd::prelude::*;

verus! {

/// The playable length of a track: the shorter of its two channels.
pub open spec fn track_length<T>(left: Seq<T>, right: Seq<T>) -> int {
    if left.len() < right.len() {
        left.len() as int
    } else {
        right.len() as int
    }
}

/// How many output samples a callback writes from `position` on: the
/// buffer, or up to the end of the track (both channels of each frame).
pub open spec fn samples_written(len: int, position: int, out_len: int) -> int {
    if 2 * (len - position) < out_len {
        2 * (len - position)
    } else {
        out_len
    }
}

/// The output buffer after a callback: interleaved samples (left at even
/// indices, right at odd ones) from `position` on, as many as
/// `samples_written`; the rest of the buffer keeps what it held.
pub open spec fn mixed<T>(left: Seq<T>, right: Seq<T>, position: int, out: Seq<T>) -> Seq<T> {
    let n = samples_written(track_length(left, right), position, out.len() as int);
    Seq::new(
        out.len(),
        |i: int|
            if i < n {
                if i % 2 == 0 {
                    left[position + i / 2]
                } else {
                    right[position + i / 2]
                }
            } else {
                out[i]
            },
    )
}

/// Fills `out` from the track `(left, right)` starting at frame `position`
/// (a frame is one left and one right sample, interleaved).  Where the end
/// of the track is reached the callback stops: the position goes back to
/// zero and the rest of the buffer is left as it was; a track that does not
/// loop is then dropped.  Without a track the buffer is filled with
/// `silence`.  Gives the new position and whether the track is kept.
pub fn mix<T: Copy>(
    track: Option<(&[T], &[T])>,
    silence: T,
    position: usize,
    should_loop: bool,
    out: &mut [T],
) -> (r: (usize, bool))
    requires
        track matches Some((l, rt)) ==> (old(out)@.len() > 0 ==> position < track_length(l@, rt@)),
    ensures
        match track {
            None => {
                &&& final(out)@ == Seq::new(old(out)@.len(), |i: int| silence)
                &&& r == (position, false)
            },
            Some((l, rt)) => {
                let len = track_length(l@, rt@);
                let ends = old(out)@.len() > 0 && 2 * (len - position) <= old(out)@.len();
                &&& final(out)@ == mixed(l@, rt@, position as int, old(out)@)
                &&& r == if ends {
                    (0usize, should_loop)
                } else {
                    ((position + old(out)@.len() / 2) as usize, true)
                }
            },
        },
{
    match track {
        None => {
            let mut i: usize = 0;
            while i < out.len()
                invariant
                    i <= out@.len(),
                    out@.len() == old(out)@.len(),
                    forall|j: int| 0 <= j < i ==> out@[j] == silence,
                decreases out@.len() - i,
            {
                out[i] = silence;
                i = i + 1;
            }
            assert(out@ =~= Seq::new(old(out)@.len(), |i: int| silence));
            (position, false)
        },
        Some((left, right)) => {
            let len = if left.len() < right.len() {
                left.len()
            } else {
                right.len()
            };
            let ghost start = out@;
            let ghost n = samples_written(len as int, position as int, start.len() as int);
            let mut p = position;
            let mut ended = false;
            let mut i: usize = 0;
            while i < out.len()
                invariant_except_break
                    start.len() > 0 ==> p < len,
                    p == position + i / 2,
                    start.len() > 0 ==> 2 * (len - position) > i,
                    !ended,
                invariant
                    i <= out@.len(),
                    out@.len() == start.len(),
                    start == old(out)@,
                    len == track_length(left@, right@),
                    position < len || start.len() == 0,
                    n == samples_written(len as int, position as int, start.len() as int),
                    forall|j: int| 0 <= j < i && j < n ==> out@[j] == (if j % 2 == 0 {
                        left@[position + j / 2]
                    } else {
                        right@[position + j / 2]
                    }),
                    forall|j: int| i <= j < out@.len() ==> out@[j] == start[j],
                ensures
                    ended ==> start.len() > 0 && 2 * (len - position) <= start.len() && i == 2 * (
                    len - position),
                    !ended ==> i == out@.len() && p == position + i / 2 && (start.len() == 0 || 2 * (
                    len - position) > start.len()),
                decreases out@.len() - i,
            {
                if i % 2 == 0 {
                    out[i] = left[p];
                } else {
                    out[i] = right[p];
                    p = p + 1;
                    if p >= len {
                        ended = true;
                        i = i + 1;
                        break;
                    }
                }
                i = i + 1;
            }
            proof {
                assert(out@ =~= mixed(left@, right@, position as int, start));
            }
            if ended {
                (0, should_loop)
            } else {
                (p, true)
            }
        },
    }
}

} // verus!
