//! The mathematical model of delimiter framing.
//!
//! A byte stream is cut at every occurrence of the two-byte marker
//! `0x55 0xAA`. The bytes between two neighbouring markers are one frame.
//! The protocol has no escaping: a payload that holds the marker is cut there.

use vstd::prelude::*;

verus! {

/// The marker as a sequence of bytes.
pub open spec fn delimiter() -> Seq<u8> {
    seq![0x55u8, 0xAAu8]
}

/// Whether the marker stands at index `i` of `s`.
pub open spec fn marker_at(s: Seq<u8>, i: int) -> bool {
    0 <= i && i + 2 <= s.len() && s[i] == 0x55u8 && s[i + 1] == 0xAAu8
}

/// How many markers lie wholly within the first `n` bytes of `s`.
pub open spec fn marker_count(s: Seq<u8>, n: int) -> nat
    decreases n,
{
    if n < 2 {
        0
    } else if marker_at(s, n - 2) {
        marker_count(s, n - 1) + 1
    } else {
        marker_count(s, n - 1)
    }
}

/// Index of the last marker that lies wholly within the first `n` bytes of
/// `s`, or -1 where there is none.
pub open spec fn last_marker(s: Seq<u8>, n: int) -> int
    decreases n,
{
    if n < 2 {
        -1
    } else if marker_at(s, n - 2) {
        n - 2
    } else {
        last_marker(s, n - 1)
    }
}

/// The frames that are closed within the first `n` bytes of `s`, in stream
/// order: for each marker but the first, the bytes between the marker before
/// it and itself.
pub open spec fn frames_within(s: Seq<u8>, n: int) -> Seq<Seq<u8>>
    decreases n,
{
    if n < 2 {
        Seq::empty()
    } else if marker_at(s, n - 2) && last_marker(s, n - 1) >= 0 {
        frames_within(s, n - 1).push(s.subrange(last_marker(s, n - 1) + 2, n - 2))
    } else {
        frames_within(s, n - 1)
    }
}

/// How many markers `s` holds.
pub open spec fn markers_of(s: Seq<u8>) -> nat {
    marker_count(s, s.len() as int)
}

/// All frames of `s`.
pub open spec fn frames_of(s: Seq<u8>) -> Seq<Seq<u8>> {
    frames_within(s, s.len() as int)
}

/// Where the bytes that stay buffered begin. Once a frame has been cut, that
/// is the last marker, which opens the frame still being received; before
/// that, every byte stays.
pub open spec fn retained_start(s: Seq<u8>) -> int {
    if marker_count(s, s.len() as int) >= 2 {
        last_marker(s, s.len() as int)
    } else {
        0
    }
}

/// The bytes that stay buffered after the frames of `s` have been cut.
pub open spec fn retained_of(s: Seq<u8>) -> Seq<u8> {
    s.subrange(retained_start(s), s.len() as int)
}

/// The last marker is a marker, no marker follows it, and there is one
/// exactly when the count is positive.
pub proof fn lemma_last_marker(s: Seq<u8>, n: int)
    requires
        n <= s.len(),
    ensures
        -1 <= last_marker(s, n),
        last_marker(s, n) + 2 <= n || last_marker(s, n) == -1,
        last_marker(s, n) >= 0 ==> marker_at(s, last_marker(s, n)),
        forall|j: int| last_marker(s, n) < j && j + 2 <= n ==> !marker_at(s, j),
        last_marker(s, n) >= 0 <==> marker_count(s, n) >= 1,
    decreases n,
{
    if n >= 2 {
        lemma_last_marker(s, n - 1);
    }
}

/// Two markers never overlap: the byte after a marker's first byte is not
/// a marker's first byte.
pub proof fn lemma_markers_apart(s: Seq<u8>, i: int)
    requires
        marker_at(s, i),
    ensures
        !marker_at(s, i + 1),
        !marker_at(s, i - 1),
{
}

/// A stream with `k` markers holds `k - 1` frames, and none where `k` is 0.
pub proof fn lemma_frame_count(s: Seq<u8>, n: int)
    requires
        n <= s.len(),
    ensures
        frames_within(s, n).len() == if marker_count(s, n) >= 1 {
            marker_count(s, n) - 1
        } else {
            0
        },
    decreases n,
{
    if n >= 2 {
        lemma_frame_count(s, n - 1);
        lemma_last_marker(s, n - 1);
    }
}

/// Bytes that hold no marker add no frame.
pub proof fn lemma_no_marker_between(s: Seq<u8>, m: int, n: int)
    requires
        m <= n <= s.len(),
        forall|j: int| m - 1 <= j && j + 2 <= n ==> !marker_at(s, j),
    ensures
        last_marker(s, n) == last_marker(s, m),
        marker_count(s, n) == marker_count(s, m),
        frames_within(s, n) == frames_within(s, m),
    decreases n - m,
{
    if m < n {
        lemma_no_marker_between(s, m, n - 1);
        if n >= 2 {
            assert(!marker_at(s, n - 2));
        }
    }
}

/// What is cut within the first `n` bytes depends on those bytes alone.
pub proof fn lemma_same_prefix(s: Seq<u8>, t: Seq<u8>, n: int)
    requires
        n <= s.len(),
        n <= t.len(),
        forall|i: int| 0 <= i < n ==> s[i] == t[i],
    ensures
        last_marker(s, n) == last_marker(t, n),
        marker_count(s, n) == marker_count(t, n),
        frames_within(s, n) == frames_within(t, n),
    decreases n,
{
    if n >= 2 {
        lemma_same_prefix(s, t, n - 1);
        lemma_last_marker(s, n - 1);
        assert(marker_at(s, n - 2) == marker_at(t, n - 2));
        let p = last_marker(s, n - 1);
        if marker_at(s, n - 2) && p >= 0 {
            lemma_markers_apart(s, n - 2);
            assert(s.subrange(p + 2, n - 2) =~= t.subrange(p + 2, n - 2));
        }
    }
}

/// Cutting a stream from one of its markers on gives the frames that the
/// whole stream has after that marker.
pub proof fn lemma_from_marker(s: Seq<u8>, o: int, n: int)
    requires
        marker_at(s, o),
        o + 2 <= n <= s.len(),
    ensures
        last_marker(s.subrange(o, s.len() as int), n - o) == last_marker(s, n) - o,
        marker_count(s, n) + 1 == marker_count(s, o + 2) + marker_count(
            s.subrange(o, s.len() as int),
            n - o,
        ),
        frames_within(s, n) == frames_within(s, o + 2) + frames_within(
            s.subrange(o, s.len() as int),
            n - o,
        ),
    decreases n,
{
    let t = s.subrange(o, s.len() as int);
    if n == o + 2 {
        assert(marker_at(t, 0));
        assert(last_marker(t, 1) == -1);
        assert(frames_within(t, 1) =~= Seq::empty());
        assert(frames_within(t, 2) =~= Seq::empty());
        assert(marker_count(t, 1) == 0);
        assert(frames_within(s, n) =~= frames_within(s, o + 2) + frames_within(t, 2));
    } else {
        lemma_from_marker(s, o, n - 1);
        lemma_last_marker(s, n - 1);
        lemma_last_marker(t, n - 1 - o);
        assert(marker_at(s, n - 2) == marker_at(t, n - 2 - o));
        let p = last_marker(s, n - 1);
        if marker_at(s, n - 2) {
            lemma_markers_apart(s, n - 2);
            assert(p >= o);
            assert(s.subrange(p + 2, n - 2) =~= t.subrange(p - o + 2, n - 2 - o));
            assert(frames_within(s, n) =~= frames_within(s, o + 2) + frames_within(t, n - o));
        }
    }
}

/// A longer prefix holds at least as many markers.
pub proof fn lemma_count_grows(s: Seq<u8>, m: int, n: int)
    requires
        m <= n,
    ensures
        marker_count(s, m) <= marker_count(s, n),
    decreases n - m,
{
    if m < n {
        lemma_count_grows(s, m, n - 1);
    }
}

/// A stream that begins with a marker and holds no second one has its last
/// marker at the start.
pub proof fn lemma_single_marker(s: Seq<u8>)
    requires
        marker_at(s, 0),
        marker_count(s, s.len() as int) <= 1,
    ensures
        last_marker(s, s.len() as int) == 0,
{
    let n = s.len() as int;
    lemma_last_marker(s, n);
    let p = last_marker(s, n);
    if p > 0 {
        lemma_count_grows(s, 2, p + 1);
        lemma_count_grows(s, p + 2, n);
        assert(marker_count(s, 1) == 0);
        assert(marker_count(s, 2) == 1);
        assert(marker_count(s, p + 2) == marker_count(s, p + 1) + 1);
    }
}

/// Feeding `a` and then `b` cuts the same frames, in the same order, and
/// leaves the same bytes buffered as feeding `a + b` at once.
pub proof fn lemma_feed_in_two(a: Seq<u8>, b: Seq<u8>)
    ensures
        frames_of(a + b) == frames_of(a) + frames_of(retained_of(a) + b),
        retained_of(a + b) == retained_of(retained_of(a) + b),
{
    let s = a + b;
    let la = a.len() as int;
    let ls = s.len() as int;
    let o = retained_start(a);
    lemma_frame_count(a, la);
    lemma_last_marker(a, la);
    if marker_count(a, la) < 2 {
        assert(retained_of(a) =~= a);
        assert(frames_of(a) =~= Seq::empty());
        assert(frames_of(s) =~= frames_of(a) + frames_of(s));
    } else {
        let t = retained_of(a) + b;
        let lt = t.len() as int;
        assert(marker_at(s, o));
        assert(t =~= s.subrange(o, ls));
        lemma_from_marker(s, o, ls);
        lemma_same_prefix(s, a, o + 2);
        lemma_no_marker_between(a, o + 2, la);
        lemma_last_marker(s, ls);
        lemma_last_marker(t, lt);
        assert(marker_at(t, 0));
        let l = last_marker(s, ls);
        assert(l >= o);
        if marker_count(t, lt) >= 2 {
            assert(t.subrange(l - o, lt) =~= s.subrange(l, ls));
        } else {
            lemma_single_marker(t);
        }
    }
}

/// The chunks joined end to end.
pub open spec fn joined(chunks: Seq<Seq<u8>>) -> Seq<u8>
    decreases chunks.len(),
{
    if chunks.len() == 0 {
        Seq::empty()
    } else {
        joined(chunks.drop_last()) + chunks.last()
    }
}

/// What stays buffered after the chunks were fed one by one, starting from
/// `buffer`.
pub open spec fn buffer_after(buffer: Seq<u8>, chunks: Seq<Seq<u8>>) -> Seq<u8>
    decreases chunks.len(),
{
    if chunks.len() == 0 {
        buffer
    } else {
        retained_of(buffer_after(buffer, chunks.drop_last()) + chunks.last())
    }
}

/// The frames that come out while the chunks are fed one by one, starting
/// from `buffer`, in the order in which they come out.
pub open spec fn frames_after(buffer: Seq<u8>, chunks: Seq<Seq<u8>>) -> Seq<Seq<u8>>
    decreases chunks.len(),
{
    if chunks.len() == 0 {
        Seq::empty()
    } else {
        frames_after(buffer, chunks.drop_last()) + frames_of(
            buffer_after(buffer, chunks.drop_last()) + chunks.last(),
        )
    }
}

/// Framing does not depend on where the stream is split: fed chunk by chunk
/// into an empty buffer, in any split whatever, a stream gives the frames
/// that it gives when fed at once, in the same order, and leaves the same
/// bytes buffered.
pub proof fn lemma_chunking_is_irrelevant(chunks: Seq<Seq<u8>>)
    ensures
        frames_after(Seq::empty(), chunks) == frames_of(joined(chunks)),
        buffer_after(Seq::empty(), chunks) == retained_of(joined(chunks)),
    decreases chunks.len(),
{
    if chunks.len() == 0 {
        assert(retained_of(Seq::<u8>::empty()) =~= Seq::<u8>::empty());
        assert(frames_of(Seq::<u8>::empty()) =~= Seq::<Seq<u8>>::empty());
    } else {
        lemma_chunking_is_irrelevant(chunks.drop_last());
        lemma_feed_in_two(joined(chunks.drop_last()), chunks.last());
    }
}

/// Two ways of splitting the same bytes give the same frames in the same
/// order, and leave the same bytes buffered.
pub proof fn lemma_same_bytes_same_frames(first: Seq<Seq<u8>>, second: Seq<Seq<u8>>)
    requires
        joined(first) == joined(second),
    ensures
        frames_after(Seq::empty(), first) == frames_after(Seq::empty(), second),
        buffer_after(Seq::empty(), first) == buffer_after(Seq::empty(), second),
{
    lemma_chunking_is_irrelevant(first);
    lemma_chunking_is_irrelevant(second);
}

/// A stream without a marker gives no frame and stays buffered whole.
pub proof fn lemma_no_marker_no_frame(s: Seq<u8>)
    requires
        marker_count(s, s.len() as int) == 0,
    ensures
        frames_of(s) == Seq::<Seq<u8>>::empty(),
        retained_of(s) == s,
{
    lemma_frame_count(s, s.len() as int);
    assert(frames_of(s) =~= Seq::<Seq<u8>>::empty());
    assert(retained_of(s) =~= s);
}

/// What stays buffered is a tail of the stream. Where no frame was cut it is
/// the whole stream. Where one was, it begins with the stream's last marker
/// and holds no frame of its own: nothing is cut twice.
pub proof fn lemma_retained_shape(s: Seq<u8>)
    ensures
        0 <= retained_start(s) <= s.len(),
        frames_of(s).len() == 0 ==> retained_of(s) == s,
        frames_of(s).len() > 0 ==> marker_at(s, retained_start(s)) && markers_of(retained_of(s))
            == 1,
        frames_of(retained_of(s)).len() == 0,
{
    let n = s.len() as int;
    lemma_frame_count(s, n);
    lemma_last_marker(s, n);
    if marker_count(s, n) >= 2 {
        let o = last_marker(s, n);
        let t = retained_of(s);
        lemma_from_marker(s, o, n);
        lemma_no_marker_between(s, o + 2, n);
        lemma_frame_count(t, t.len() as int);
    } else {
        assert(retained_of(s) =~= s);
    }
}

/// The indices of the markers that lie wholly within the first `n` bytes of
/// `s`, in ascending order.
pub open spec fn marker_positions(s: Seq<u8>, n: int) -> Seq<int>
    decreases n,
{
    if n < 2 {
        Seq::empty()
    } else if marker_at(s, n - 2) {
        marker_positions(s, n - 1).push(n - 2)
    } else {
        marker_positions(s, n - 1)
    }
}

/// `marker_positions` lists every marker once, in ascending order, and
/// nothing else; its length is the count and its last entry the last marker.
pub proof fn lemma_marker_positions(s: Seq<u8>, n: int)
    requires
        n <= s.len(),
    ensures
        marker_positions(s, n).len() == marker_count(s, n),
        marker_positions(s, n).len() > 0 ==> marker_positions(s, n).last() == last_marker(s, n),
        marker_positions(s, n).len() == 0 ==> last_marker(s, n) == -1,
        forall|i: int|
            0 <= i < marker_positions(s, n).len() ==> marker_at(
                s,
                #[trigger] marker_positions(s, n)[i],
            ) && marker_positions(s, n)[i] + 2 <= n,
        forall|i: int, j: int|
            0 <= i < j < marker_positions(s, n).len() ==> marker_positions(s, n)[i]
                < marker_positions(s, n)[j],
        forall|q: int| marker_at(s, q) && q + 2 <= n ==> marker_positions(s, n).contains(q),
    decreases n,
{
    if n >= 2 {
        lemma_marker_positions(s, n - 1);
        let before = marker_positions(s, n - 1);
        let now = marker_positions(s, n);
        assert forall|q: int| marker_at(s, q) && q + 2 <= n implies now.contains(q) by {
            if q + 2 <= n - 1 {
                assert(before.contains(q));
                let i = choose|i: int| 0 <= i < before.len() && before[i] == q;
                assert(now[i] == q);
            } else {
                assert(now[now.len() - 1] == q);
            }
        }
    }
}

/// The frames are the stretches between neighbouring markers: frame `i` runs
/// from the end of marker `i` to the start of marker `i + 1`.
pub proof fn lemma_frames_between_markers(s: Seq<u8>, n: int)
    requires
        n <= s.len(),
    ensures
        marker_positions(s, n).len() >= 1 ==> frames_within(s, n).len() + 1 == marker_positions(
            s,
            n,
        ).len(),
        marker_positions(s, n).len() == 0 ==> frames_within(s, n).len() == 0,
        forall|i: int|
            0 <= i < frames_within(s, n).len() ==> #[trigger] frames_within(s, n)[i] == s.subrange(
                marker_positions(s, n)[i] + 2,
                marker_positions(s, n)[i + 1],
            ),
    decreases n,
{
    if n >= 2 {
        lemma_frames_between_markers(s, n - 1);
        lemma_marker_positions(s, n - 1);
        lemma_marker_positions(s, n);
        lemma_frame_count(s, n - 1);
        lemma_frame_count(s, n);
    }
}

/// The frames as they stood in the stream: each behind a marker.
pub open spec fn framed(frames: Seq<Seq<u8>>) -> Seq<u8>
    decreases frames.len(),
{
    if frames.len() == 0 {
        Seq::empty()
    } else {
        framed(frames.drop_last()) + delimiter() + frames.last()
    }
}

/// From the first marker to the last one, the stream is its frames, each
/// behind its marker.
pub proof fn lemma_frames_cover(s: Seq<u8>, n: int)
    requires
        n <= s.len(),
        marker_count(s, n) >= 1,
    ensures
        marker_positions(s, n).len() >= 1,
        0 <= marker_positions(s, n)[0] <= last_marker(s, n),
        s.subrange(marker_positions(s, n)[0], last_marker(s, n)) == framed(frames_within(s, n)),
    decreases n,
{
    lemma_marker_positions(s, n);
    lemma_last_marker(s, n);
    if n >= 2 {
        lemma_marker_positions(s, n - 1);
        lemma_last_marker(s, n - 1);
        if !marker_at(s, n - 2) {
            lemma_frames_cover(s, n - 1);
        } else if marker_count(s, n - 1) == 0 {
            assert(frames_within(s, n) =~= Seq::<Seq<u8>>::empty()) by {
                lemma_frame_count(s, n - 1);
            }
            assert(s.subrange(n - 2, n - 2) =~= framed(frames_within(s, n)));
        } else {
            lemma_frames_cover(s, n - 1);
            lemma_markers_apart(s, n - 2);
            let first = marker_positions(s, n)[0];
            let prev = last_marker(s, n - 1);
            let old_frames = frames_within(s, n - 1);
            let frame = s.subrange(prev + 2, n - 2);
            assert(marker_positions(s, n - 1)[0] == first);
            assert(frames_within(s, n) == old_frames.push(frame));
            assert(old_frames.push(frame).drop_last() =~= old_frames);
            assert(s.subrange(prev, prev + 2) =~= delimiter());
            assert(s.subrange(first, n - 2) =~= s.subrange(first, prev) + s.subrange(
                prev,
                prev + 2,
            ) + frame);
        }
    }
}

/// No byte is lost and none comes out twice: a stream from which a frame
/// was cut is what stood before its first marker, then its frames, each
/// behind a marker, then what stays buffered.
pub proof fn lemma_nothing_lost(s: Seq<u8>)
    requires
        markers_of(s) >= 2,
    ensures
        0 <= marker_positions(s, s.len() as int)[0] <= s.len(),
        s == s.subrange(0, marker_positions(s, s.len() as int)[0]) + framed(frames_of(s))
            + retained_of(s),
{
    let n = s.len() as int;
    lemma_frames_cover(s, n);
    lemma_last_marker(s, n);
    let first = marker_positions(s, n)[0];
    let last = last_marker(s, n);
    assert(s =~= s.subrange(0, first) + s.subrange(first, last) + s.subrange(last, n));
}

} // verus!
