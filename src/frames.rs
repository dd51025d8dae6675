//! The mathematical model of cutting a buffer into frames.
use vstd::prelude::*;

verus! {

/// Target size of one frame of the upload body: 1 MiB.
pub const FRAME_SIZE: usize = 1048576;

/// Length of the next frame when `remaining` bytes are left.
pub open spec fn frame_len(remaining: nat) -> nat {
    if remaining < FRAME_SIZE as nat {
        remaining
    } else {
        FRAME_SIZE as nat
    }
}

/// The frames that a buffer `b` is cut into, in order.
pub open spec fn frames_of(b: Seq<u8>) -> Seq<Seq<u8>>
    decreases b.len(),
{
    if b.len() == 0 {
        Seq::empty()
    } else {
        let k = frame_len(b.len()) as int;
        seq![b.take(k)].add(frames_of(b.skip(k)))
    }
}

/// The concatenation of a sequence of frames.
pub open spec fn concat(fs: Seq<Seq<u8>>) -> Seq<u8>
    decreases fs.len(),
{
    if fs.len() == 0 {
        Seq::empty()
    } else {
        concat(fs.drop_last()) + fs.last()
    }
}

/// The sum of a sequence of progress events.
pub open spec fn total(es: Seq<u64>) -> int
    decreases es.len(),
{
    if es.len() == 0 {
        0
    } else {
        total(es.drop_last()) + es.last() as int
    }
}

/// Events paired one to one with frames: the `i`-th event is the length of the `i`-th frame.
pub open spec fn events_match(es: Seq<u64>, fs: Seq<Seq<u8>>) -> bool {
    &&& es.len() == fs.len()
    &&& forall|i: int| 0 <= i < fs.len() ==> #[trigger] es[i] as int == fs[i].len()
}

/// Frame sizes: every frame but the last holds exactly `FRAME_SIZE` bytes, the last
/// holds between one and `FRAME_SIZE` bytes.
pub open spec fn sizes_ok(fs: Seq<Seq<u8>>) -> bool {
    &&& forall|i: int| 0 <= i < fs.len() - 1 ==> #[trigger] fs[i].len() == FRAME_SIZE as nat
    &&& fs.len() > 0 ==> 0 < fs.last().len() <= FRAME_SIZE as nat
}

/// Appending a frame appends its bytes.
pub proof fn lemma_concat_push(fs: Seq<Seq<u8>>, f: Seq<u8>)
    ensures
        concat(fs.push(f)) == concat(fs) + f,
{
    assert(fs.push(f).drop_last() =~= fs);
}

/// Concatenation distributes over joining two sequences of frames.
pub proof fn lemma_concat_append(a: Seq<Seq<u8>>, b: Seq<Seq<u8>>)
    ensures
        concat(a + b) == concat(a) + concat(b),
    decreases b.len(),
{
    if b.len() == 0 {
        assert(a + b =~= a);
        assert(concat(a) + concat(b) =~= concat(a));
    } else {
        lemma_concat_append(a, b.drop_last());
        assert((a + b).drop_last() =~= a + b.drop_last());
        assert(concat(a) + concat(b.drop_last()) + b.last() =~= concat(a) + (concat(
            b.drop_last(),
        ) + b.last()));
    }
}

/// Conservation: the frames of a buffer, concatenated, give the buffer back.
pub proof fn lemma_frames_conserve(b: Seq<u8>)
    ensures
        concat(frames_of(b)) == b,
    decreases b.len(),
{
    if b.len() == 0 {
    } else {
        let k = frame_len(b.len()) as int;
        lemma_frames_conserve(b.skip(k));
        lemma_concat_append(seq![b.take(k)], frames_of(b.skip(k)));
        lemma_concat_push(Seq::empty(), b.take(k));
        assert(seq![b.take(k)] =~= Seq::<Seq<u8>>::empty().push(b.take(k)));
        assert(concat(Seq::<Seq<u8>>::empty()) + b.take(k) =~= b.take(k));
        assert(b.take(k) + b.skip(k) =~= b);
    }
}

/// Frame size discipline: every frame but the last has `FRAME_SIZE` bytes, the last
/// one between one and `FRAME_SIZE`, and no frame is empty.
pub proof fn lemma_frame_sizes(b: Seq<u8>)
    ensures
        sizes_ok(frames_of(b)),
        forall|i: int| 0 <= i < frames_of(b).len() ==> #[trigger] frames_of(b)[i].len() > 0,
    decreases b.len(),
{
    if b.len() > 0 {
        let k = frame_len(b.len()) as int;
        let rest = b.skip(k);
        lemma_frame_sizes(rest);
        let fs = frames_of(b);
        assert(fs == seq![b.take(k)].add(frames_of(rest)));
        if rest.len() > 0 {
            assert(k == FRAME_SIZE as int);
            assert(frames_of(rest).len() > 0);
        }
        assert forall|i: int| 0 <= i < fs.len() - 1 implies #[trigger] fs[i].len()
            == FRAME_SIZE as nat by {
            if i > 0 {
                assert(fs[i] == frames_of(rest)[i - 1]);
            }
        }
        assert forall|i: int| 0 <= i < fs.len() implies #[trigger] fs[i].len() > 0 by {
            if i > 0 {
                assert(fs[i] == frames_of(rest)[i - 1]);
            }
        }
    }
}

/// Paired events add up to the length of the concatenated frames.
pub proof fn lemma_total_concat(es: Seq<u64>, fs: Seq<Seq<u8>>)
    requires
        events_match(es, fs),
    ensures
        total(es) == concat(fs).len(),
    decreases fs.len(),
{
    if fs.len() > 0 {
        let es2 = es.drop_last();
        let fs2 = fs.drop_last();
        assert forall|i: int| 0 <= i < fs2.len() implies #[trigger] es2[i] as int == fs2[i].len() by {
            assert(es[i] as int == fs[i].len());
        }
        lemma_total_concat(es2, fs2);
        assert(es[es.len() - 1] as int == fs[fs.len() - 1].len());
    }
}

} // verus!
