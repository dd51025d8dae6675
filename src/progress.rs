//! The progress-reporting upload body: a buffer handed out frame by frame, with one
//! byte-count event published on a side channel before each frame.
use crate::buffer::{bytes_content, remaining, take_front};
use crate::channel::ProgressSender;
use crate::error::{Error, Result};
use crate::frames::{
    concat, events_match, frame_len, frames_of, lemma_concat_push, lemma_frame_sizes,
    lemma_frames_conserve, lemma_total_concat, sizes_ok, total, FRAME_SIZE,
};
use bytes::Bytes;
use tokio::sync::mpsc::UnboundedSender;
use vstd::prelude::*;

verus! {

/// An upload body that reports progress: each call of `progress` publishes the size of
/// the next frame on the channel, then hands the frame out.
#[derive(Clone)]
pub struct Progressbar {
    bytes: Bytes,
    tx: ProgressSender,
    failed: bool,
    origin: Ghost<Seq<u8>>,
    yielded: Ghost<Seq<Seq<u8>>>,
}

impl Progressbar {
    /// The whole buffer the adapter was built from.
    pub closed spec fn origin(&self) -> Seq<u8> {
        self.origin@
    }

    /// The bytes not handed out yet.
    pub closed spec fn rest(&self) -> Seq<u8> {
        bytes_content(self.bytes)
    }

    /// The frames handed out so far, in order.
    pub closed spec fn yielded(&self) -> Seq<Seq<u8>> {
        self.yielded@
    }

    /// The progress events this adapter has put on the channel so far, in order.
    pub closed spec fn events(&self) -> Seq<u64> {
        self.tx.sent()
    }

    /// Whether a send failed because the subscriber went away; this state is final.
    pub closed spec fn is_failed(&self) -> bool {
        self.failed
    }

    /// The adapter's invariant: what was handed out and what is left make up the
    /// buffer, the frames handed out are the first frames of the buffer, and each frame
    /// came with one event that carries its length.
    pub open spec fn wf(&self) -> bool {
        &&& self.frames_ok()
        &&& events_match(self.events(), self.yielded())
        &&& self.is_failed() ==> self.rest().len() > 0
    }

    /// What was handed out and what is left make up the buffer, and the frames handed
    /// out are the first frames of the buffer.
    pub open spec fn frames_ok(&self) -> bool {
        &&& self.origin() == concat(self.yielded()) + self.rest()
        &&& frames_of(self.origin()) == self.yielded() + frames_of(self.rest())
    }

    /// Builds the adapter over `bytes`, publishing to `tx`. Nothing is sent yet.
    pub fn new(bytes: Bytes, tx: UnboundedSender<u64>) -> (r: Self)
        ensures
            r.wf(),
            r.origin() == bytes_content(bytes),
            r.rest() == bytes_content(bytes),
            r.yielded() == Seq::<Seq<u8>>::empty(),
            r.events() == Seq::<u64>::empty(),
            !r.is_failed(),
    {
        let ghost b = bytes_content(bytes);
        let r = Progressbar {
            bytes,
            tx: ProgressSender::new(tx),
            failed: false,
            origin: Ghost(b),
            yielded: Ghost(Seq::empty()),
        };
        assert(concat(r.yielded()) + r.rest() =~= r.origin());
        assert(r.yielded() + frames_of(r.rest()) =~= frames_of(r.origin()));
        r
    }

    /// Hands out the next frame, after publishing its length as a progress event.
    ///
    /// With nothing left it returns `Ok(None)` and changes nothing, however often it
    /// is called. Otherwise the frame holds `min(left, FRAME_SIZE)` bytes. If the
    /// event cannot be published because the subscriber went away, the error is
    /// `ProgressChannelClosed`, no byte is consumed, and every later call fails the
    /// same way without sending.
    pub fn progress(&mut self) -> (r: Result<Option<Bytes>>)
        requires
            old(self).wf(),
        ensures
            final(self).wf(),
            final(self).origin() == old(self).origin(),
            old(self).is_failed() ==> r == Err::<Option<Bytes>, Error>(Error::ProgressChannelClosed)
                && *final(self) == *old(self),
            !old(self).is_failed() && old(self).rest().len() == 0 ==> r == Ok::<Option<Bytes>, Error>(None)
                && *final(self) == *old(self),
            !old(self).is_failed() && old(self).rest().len() > 0 ==> match r {
                Ok(Some(f)) => {
                    let k = frame_len(old(self).rest().len()) as int;
                    &&& bytes_content(f) == old(self).rest().take(k)
                    &&& final(self).rest() == old(self).rest().skip(k)
                    &&& final(self).yielded() == old(self).yielded().push(bytes_content(f))
                    &&& final(self).events() == old(self).events().push(k as u64)
                    &&& !final(self).is_failed()
                },
                Err(e) => {
                    &&& e == Error::ProgressChannelClosed
                    &&& final(self).is_failed()
                    &&& final(self).rest() == old(self).rest()
                    &&& final(self).yielded() == old(self).yielded()
                    &&& final(self).events() == old(self).events()
                },
                Ok(None) => false,
            },
    {
        if self.failed {
            return Err(Error::ProgressChannelClosed);
        }
        let n = remaining(&self.bytes);
        if n == 0 {
            return Ok(None);
        }
        let k: usize = if n < FRAME_SIZE {
            n
        } else {
            FRAME_SIZE
        };
        let sent = self.tx.send(k as u64);
        proof {
            let ys = self.yielded@.push(bytes_content(self.bytes).take(k as int));
            let es = self.tx.sent();
            if sent {
                assert forall|i: int| 0 <= i < ys.len() implies #[trigger] es[i] as int
                    == ys[i].len() by {
                    if i < ys.len() - 1 {
                        assert(es[i] == old(self).events()[i]);
                        assert(ys[i] == old(self).yielded()[i]);
                    }
                }
            }
        }
        self.finish_step(k, sent)
    }

    /// The second half of a step, once the send of the next frame's length `k` has
    /// been tried; `sent` tells whether it went through, and if it did, that event is
    /// already on the channel. After a successful send the next `k` bytes come out as
    /// the frame; after a failed one no byte is consumed and the adapter is failed for
    /// good.
    pub fn finish_step(&mut self, k: usize, sent: bool) -> (r: Result<Option<Bytes>>)
        requires
            old(self).frames_ok(),
            !old(self).is_failed(),
            old(self).rest().len() > 0,
            k == frame_len(old(self).rest().len()),
            sent ==> events_match(
                old(self).events(),
                old(self).yielded().push(old(self).rest().take(k as int)),
            ),
            !sent ==> events_match(old(self).events(), old(self).yielded()),
        ensures
            final(self).wf(),
            final(self).origin() == old(self).origin(),
            final(self).events() == old(self).events(),
            sent ==> match r {
                Ok(Some(f)) => {
                    &&& bytes_content(f) == old(self).rest().take(k as int)
                    &&& final(self).rest() == old(self).rest().skip(k as int)
                    &&& final(self).yielded() == old(self).yielded().push(bytes_content(f))
                    &&& !final(self).is_failed()
                },
                _ => false,
            },
            !sent ==> r == Err::<Option<Bytes>, Error>(Error::ProgressChannelClosed)
                && final(self).is_failed() && final(self).rest() == old(self).rest()
                && final(self).yielded() == old(self).yielded(),
    {
        if !sent {
            self.failed = true;
            return Err(Error::ProgressChannelClosed);
        }
        let ghost rest0 = bytes_content(self.bytes);
        let ghost ys0 = self.yielded@;
        let frame = take_front(&mut self.bytes, k);
        let ghost f = bytes_content(frame);
        let ghost rest1 = bytes_content(self.bytes);
        proof {
            lemma_concat_push(ys0, f);
            assert(f + rest1 =~= rest0);
            assert(concat(ys0) + rest0 =~= concat(ys0) + f + rest1);
            assert(frames_of(rest0) == seq![f].add(frames_of(rest1)));
            assert(ys0 + frames_of(rest0) =~= ys0.push(f) + frames_of(rest1));
        }
        self.yielded = Ghost(self.yielded@.push(f));
        Ok(Some(frame))
    }
}

/// Conservation: once everything is handed out, the frames concatenated are the buffer,
/// and they are exactly the buffer's frames.
pub proof fn law_conservation(p: &Progressbar)
    requires
        p.wf(),
        p.rest().len() == 0,
    ensures
        concat(p.yielded()) == p.origin(),
        p.yielded() == frames_of(p.origin()),
        concat(frames_of(p.origin())) == p.origin(),
{
    assert(concat(p.yielded()) + p.rest() =~= concat(p.yielded()));
    assert(p.yielded() + frames_of(p.rest()) =~= p.yielded());
    lemma_frames_conserve(p.origin());
}

/// The published events add up to the buffer's length exactly when the stream has
/// reached its end, that is when nothing is left and no send failed.
pub proof fn law_events_total(p: &Progressbar)
    requires
        p.wf(),
    ensures
        total(p.events()) == concat(p.yielded()).len(),
        total(p.events()) == p.origin().len() <==> (!p.is_failed() && p.rest().len() == 0),
{
    lemma_total_concat(p.events(), p.yielded());
}

/// Frame sizes: no frame handed out is empty or longer than `FRAME_SIZE`; while bytes
/// are left every frame handed out has exactly `FRAME_SIZE` bytes, and once none are
/// left only the last frame may be shorter.
pub proof fn law_frame_sizes(p: &Progressbar)
    requires
        p.wf(),
    ensures
        forall|i: int| 0 <= i < p.yielded().len() ==> 0 < #[trigger] p.yielded()[i].len()
            <= FRAME_SIZE as nat,
        p.rest().len() > 0 ==> forall|i: int| 0 <= i < p.yielded().len() ==> #[trigger] p.yielded()[i].len()
            == FRAME_SIZE as nat,
        p.rest().len() == 0 ==> sizes_ok(p.yielded()),
{
    let all = frames_of(p.origin());
    let ys = p.yielded();
    lemma_frame_sizes(p.origin());
    if p.rest().len() > 0 {
        assert(frames_of(p.rest()).len() > 0);
    }
    assert forall|i: int| 0 <= i < ys.len() implies 0 < #[trigger] ys[i].len() <= FRAME_SIZE as nat
        && (p.rest().len() > 0 ==> ys[i].len() == FRAME_SIZE as nat) by {
        assert(ys[i] == all[i]);
        assert(all[i].len() > 0);
        if i < all.len() - 1 {
            assert(all[i].len() == FRAME_SIZE as nat);
        }
    }
    if p.rest().len() == 0 {
        assert(ys + frames_of(p.rest()) =~= ys);
    }
}

/// Ordering: every frame handed out was preceded by its own event, so the `i`-th event
/// is on the channel by the time the `i`-th frame is, and it carries that frame's length.
pub proof fn law_event_before_frame(p: &Progressbar)
    requires
        p.wf(),
    ensures
        p.events().len() == p.yielded().len(),
        forall|i: int| 0 <= i < p.yielded().len() ==> #[trigger] p.events()[i] as int
            == p.yielded()[i].len(),
{
}

} // verus!
