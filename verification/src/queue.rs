use vstd::prelude::*;

use std::collections::VecDeque;

use crate::media::{is_video_frame, Frame, FrameDependency, FrameView};

verus! {

/// One consumer cursor of the fan-out queue: an absolute position in the
/// frame log, a pending lag signal, and ghost history of what it was handed.
pub struct Consumer {
    pub active: bool,
    pub next: usize,
    pub lagged: u64,
    pub video_delivered: bool,
    pub delivered: Ghost<Seq<FrameView>>,
    pub delivered_idxs: Ghost<Seq<int>>,
}

/// What a consumer read yields.
pub enum RecvEvent {
    Frame(Frame),
    LaggedBy(u64),
    Empty,
    EndOfStream,
}

/// Values of a sequence of frames.
pub open spec fn spec_frames_view(s: Seq<Frame>) -> Seq<FrameView> {
    s.map_values(|f: Frame| f@)
}

/// Live fan-out queue: one producer appends, each consumer reads through its
/// own cursor with a bounded backlog; the producer never waits, a consumer
/// that falls behind loses its oldest pending frames and is told by how many.
///
/// `window` holds the retained suffix of the frame log, the entries from
/// `base` on; `log` is the ghost history of every frame ever pushed.
pub struct MediaFrameQueue {
    pub bound: usize,
    pub base: usize,
    pub window: VecDeque<Frame>,
    pub consumers: Vec<Consumer>,
    pub key_idx: Option<usize>,
    pub closed: bool,
    pub log: Ghost<Seq<FrameView>>,
}

/// The first video frame of a delivery history is independently decodable.
pub open spec fn spec_first_video_independent(s: Seq<FrameView>) -> bool {
    forall|i: int|
        (0 <= i < s.len() && is_video_frame(#[trigger] s[i]) && (forall|j: int|
            0 <= j < i ==> !is_video_frame(#[trigger] s[j]))) ==> s[i].dependency
            == FrameDependency::Independent
}

impl MediaFrameQueue {
    /// Total number of frames ever pushed.
    pub open spec fn spec_end(self) -> int {
        self.log@.len() as int
    }

    /// Frames pushed but not yet read through cursor `k`.
    pub open spec fn spec_backlog(self, k: int) -> int {
        self.log@.len() - self.consumers@[k].next
    }

    /// Where a newly attached consumer starts: the retained keyframe if its
    /// backlog fits the bound, else the bound's worth of newest frames, else
    /// the end of the log.
    pub open spec fn spec_join_pos(self) -> int {
        match self.key_idx {
            Some(kk) => if self.log@.len() - kk > self.bound {
                self.log@.len() - self.bound
            } else {
                kk as int
            },
            None => self.log@.len() as int,
        }
    }

    pub open spec fn consumer_wf(self, k: int) -> bool {
        let c = self.consumers@[k];
        &&& c.lagged <= self.log@.len()
        &&& (c.active ==> {
            &&& self.base <= c.next <= self.log@.len()
            &&& self.log@.len() - c.next <= self.bound
            &&& c.delivered@.len() == c.delivered_idxs@.len()
            &&& (forall|i: int|
                0 <= i < c.delivered_idxs@.len() ==> 0 <= #[trigger] c.delivered_idxs@[i]
                    && c.delivered_idxs@[i] < c.next && c.delivered@[i]
                    == self.log@[c.delivered_idxs@[i]])
            &&& (forall|i: int, j: int|
                0 <= i < j < c.delivered_idxs@.len() ==> #[trigger] c.delivered_idxs@[i]
                    < #[trigger] c.delivered_idxs@[j])
            &&& (c.video_delivered <==> exists|i: int|
                0 <= i < c.delivered@.len() && is_video_frame(#[trigger] c.delivered@[i]))
            &&& spec_first_video_independent(c.delivered@)
        })
    }

    /// Well-formedness: the window is the log's suffix from `base`, the
    /// retained keyframe really is a video keyframe, and every cursor sits
    /// inside the log with a backlog within the bound.
    pub open spec fn wf(self) -> bool {
        &&& self.bound >= 1
        &&& self.log@.len() <= usize::MAX
        &&& self.base + self.window@.len() == self.log@.len()
        &&& spec_frames_view(self.window@) == self.log@.subrange(
            self.base as int,
            self.log@.len() as int,
        )
        &&& (match self.key_idx {
            Some(kk) => self.base <= kk < self.log@.len() && is_video_frame(self.log@[kk as int])
                && self.log@[kk as int].dependency == FrameDependency::Independent,
            None => true,
        })
        &&& (forall|k: int| 0 <= k < self.consumers@.len() ==> #[trigger] self.consumer_wf(k))
    }

    /// Creates an empty queue with the given per-consumer backlog bound.
    pub fn new(bound: usize) -> (q: MediaFrameQueue)
        requires
            bound >= 1,
        ensures
            q.wf(),
            q.bound == bound,
            q.log@ == Seq::<FrameView>::empty(),
            q.consumers@.len() == 0,
            !q.closed,
    {
        let q = MediaFrameQueue {
            bound,
            base: 0,
            window: VecDeque::new(),
            consumers: Vec::new(),
            key_idx: None,
            closed: false,
            log: Ghost(Seq::empty()),
        };
        proof {
            assert(spec_frames_view(q.window@) =~= q.log@.subrange(0, 0));
        }
        q
    }

    /// Number of frames ever pushed; the producer may push while this is
    /// below `usize::MAX`.
    pub fn frame_total(&self) -> (n: usize)
        requires
            self.wf(),
        ensures
            n == self.log@.len(),
    {
        self.base + self.window.len()
    }

    /// Appends a frame for every consumer.  A consumer already holding a full
    /// backlog loses its oldest pending frame and has its lag count raised;
    /// every other consumer is untouched.
    pub fn push(&mut self, frame: Frame)
        requires
            old(self).wf(),
            old(self).log@.len() < usize::MAX,
        ensures
            final(self).wf(),
            final(self).log@ == old(self).log@.push(frame@),
            final(self).bound == old(self).bound,
            final(self).closed == old(self).closed,
            final(self).consumers@.len() == old(self).consumers@.len(),
            is_video_frame(frame@) && frame@.dependency == FrameDependency::Independent
                ==> (final(self).key_idx matches Some(k) && k == old(self).log@.len()),
            !(is_video_frame(frame@) && frame@.dependency == FrameDependency::Independent)
                ==> final(self).key_idx == old(self).key_idx,
            forall|k: int|
                0 <= k < old(self).consumers@.len() ==> {
                    let c0 = old(self).consumers@[k];
                    let c1 = #[trigger] final(self).consumers@[k];
                    &&& c1.active == c0.active
                    &&& c1.delivered == c0.delivered
                    &&& c1.delivered_idxs == c0.delivered_idxs
                    &&& c1.video_delivered == c0.video_delivered
                    &&& (!c0.active ==> c1 == c0)
                    &&& (c0.active && old(self).log@.len() - c0.next < old(self).bound ==> c1.next
                        == c0.next && c1.lagged == c0.lagged)
                    &&& (c0.active && old(self).log@.len() - c0.next >= old(self).bound ==> c1.next
                        == c0.next + 1 && c1.lagged == c0.lagged + 1)
                },
    {
        let ghost fv = frame@;
        let ghost fr = frame;
        let is_key = frame.stream.id == 0 && matches!(
            frame.dependency,
            FrameDependency::Independent,
        );
        let old_end = self.base + self.window.len();
        self.window.push_back(frame);
        proof {
            self.log@ = self.log@.push(fv);
            let w = self.window@;
            let l = self.log@;
            let b = self.base as int;
            assert(w == old(self).window@.push(fr));
            assert(b + w.len() == l.len());
            assert forall|i: int| 0 <= i < w.len() implies spec_frames_view(w)[i] == l.subrange(
                b,
                l.len() as int,
            )[i] by {
                assert(spec_frames_view(w)[i] == w[i]@);
                if i < w.len() - 1 {
                    assert(w[i] == old(self).window@[i]);
                    assert(spec_frames_view(old(self).window@)[i] == old(self).window@[i]@);
                    assert(spec_frames_view(old(self).window@)[i] == old(self).log@.subrange(
                        b,
                        old(self).log@.len() as int,
                    )[i]);
                    assert(l[b + i] == old(self).log@[b + i]);
                } else {
                    assert(w[i]@ == fv);
                    assert(l[b + i] == fv);
                }
            }
            assert(spec_frames_view(w) =~= l.subrange(b, l.len() as int));
        }
        let end = old_end + 1;
        if is_key {
            self.key_idx = Some(old_end);
        }
        let ghost w1 = self.window@;
        let ghost l1 = self.log@;
        let ghost key1 = self.key_idx;
        let n = self.consumers.len();
        let mut k: usize = 0;
        while k < n
            invariant
                n == self.consumers@.len(),
                n == old(self).consumers@.len(),
                k <= n,
                self.bound == old(self).bound,
                self.base == old(self).base,
                self.window@ == w1,
                self.log@ == l1,
                self.key_idx == key1,
                self.closed == old(self).closed,
                l1 == old(self).log@.push(fv),
                end == l1.len(),
                old(self).log@.len() < usize::MAX,
                old(self).wf(),
                forall|m: int| k <= m < n ==> self.consumers@[m] == old(self).consumers@[m],
                forall|m: int|
                    0 <= m < k ==> {
                        let c0 = old(self).consumers@[m];
                        let c1 = #[trigger] self.consumers@[m];
                        &&& c1.active == c0.active
                        &&& c1.delivered == c0.delivered
                        &&& c1.delivered_idxs == c0.delivered_idxs
                        &&& c1.video_delivered == c0.video_delivered
                        &&& (!c0.active ==> c1 == c0)
                        &&& (c0.active && old(self).log@.len() - c0.next < old(self).bound
                            ==> c1.next == c0.next && c1.lagged == c0.lagged)
                        &&& (c0.active && old(self).log@.len() - c0.next >= old(self).bound
                            ==> c1.next == c0.next + 1 && c1.lagged == c0.lagged + 1)
                    },
            decreases n - k,
        {
            proof {
                assert(old(self).consumer_wf(k as int));
            }
            if self.consumers[k].active {
                let next = self.consumers[k].next;
                if end - next > self.bound {
                    self.consumers[k].next = next + 1;
                    let lg = self.consumers[k].lagged;
                    self.consumers[k].lagged = lg + 1;
                }
            }
            k = k + 1;
        }
        proof {
            assert forall|m: int|
                0 <= m < self.consumers@.len() implies #[trigger] self.consumer_wf(m) by {
                assert(old(self).consumer_wf(m));
            }
        }
        self.compact();
    }

    /// Evicts the frames at the front of the window that no cursor and no
    /// retained keyframe can reach any more, so that memory stays bounded.
    fn compact(&mut self)
        requires
            old(self).wf(),
        ensures
            final(self).wf(),
            final(self).log == old(self).log,
            final(self).consumers == old(self).consumers,
            final(self).bound == old(self).bound,
            final(self).closed == old(self).closed,
            final(self).key_idx == old(self).key_idx,
    {
        let end = self.base + self.window.len();
        let mut retain: usize = end;
        if let Some(kk) = self.key_idx {
            if kk < retain {
                retain = kk;
            }
        }
        let n = self.consumers.len();
        let mut k: usize = 0;
        while k < n
            invariant
                n == self.consumers@.len(),
                n == old(self).consumers@.len(),
                k <= n,
                *self == *old(self),
                old(self).wf(),
                end == old(self).log@.len(),
                old(self).base <= retain <= end,
                (match old(self).key_idx {
                    Some(kk) => retain <= kk,
                    None => true,
                }),
                forall|m: int|
                    0 <= m < k && old(self).consumers@[m].active ==> retain <= (
                    #[trigger] old(self).consumers@[m]).next,
            decreases n - k,
        {
            proof {
                assert(old(self).consumer_wf(k as int));
            }
            if self.consumers[k].active {
                let nx = self.consumers[k].next;
                if nx < retain {
                    retain = nx;
                }
            }
            k = k + 1;
        }
        while self.base < retain
            invariant
                self.bound == old(self).bound,
                self.log == old(self).log,
                self.consumers == old(self).consumers,
                self.key_idx == old(self).key_idx,
                self.closed == old(self).closed,
                old(self).wf(),
                old(self).base <= self.base <= retain <= end,
                end == self.log@.len(),
                self.base + self.window@.len() == self.log@.len(),
                spec_frames_view(self.window@) == self.log@.subrange(
                    self.base as int,
                    self.log@.len() as int,
                ),
                (match self.key_idx {
                    Some(kk) => retain <= kk,
                    None => true,
                }),
                forall|m: int|
                    0 <= m < self.consumers@.len() && self.consumers@[m].active ==> retain <= (
                    #[trigger] self.consumers@[m]).next,
            decreases retain - self.base,
        {
            let ghost wprev = self.window@;
            let ghost bprev = self.base as int;
            proof {
                assert(self.log@.subrange(bprev, self.log@.len() as int).len() == self.log@.len()
                    - bprev);
                assert(spec_frames_view(wprev).len() == wprev.len());
            }
            let _evicted = self.window.pop_front();
            self.base = self.base + 1;
            proof {
                let h = self.log@;
                let b = self.base as int;
                assert(self.window@ == wprev.subrange(1, wprev.len() as int));
                assert forall|i: int|
                    0 <= i < self.window@.len() implies spec_frames_view(self.window@)[i]
                    == h.subrange(b, h.len() as int)[i] by {
                    assert(self.window@[i] == wprev[i + 1]);
                    assert(spec_frames_view(wprev)[i + 1] == wprev[i + 1]@);
                    assert(spec_frames_view(wprev)[i + 1] == h.subrange(bprev, h.len() as int)[i
                        + 1]);
                    assert(spec_frames_view(self.window@)[i] == self.window@[i]@);
                }
                assert(spec_frames_view(self.window@) =~= h.subrange(b, h.len() as int));
            }
        }
        proof {
            assert forall|m: int|
                0 <= m < self.consumers@.len() implies #[trigger] self.consumer_wf(m) by {
                assert(old(self).consumer_wf(m));
            }
        }
    }

    /// Signals end of stream; consumers still drain their backlogs first.
    pub fn close(&mut self)
        requires
            old(self).wf(),
        ensures
            final(self).wf(),
            final(self).closed,
            final(self).log == old(self).log,
            final(self).consumers == old(self).consumers,
            final(self).bound == old(self).bound,
    {
        self.closed = true;
        proof {
            assert forall|m: int|
                0 <= m < self.consumers@.len() implies #[trigger] self.consumer_wf(m) by {
                assert(old(self).consumer_wf(m));
            }
        }
    }

    /// Attaches a new consumer.  It starts at the retained keyframe when one
    /// is cached (clamped to its backlog bound), else it waits for frames
    /// still to come; it has delivered nothing and carries no lag.
    pub fn get_receiver(&mut self) -> (id: usize)
        requires
            old(self).wf(),
        ensures
            final(self).wf(),
            id == old(self).consumers@.len(),
            final(self).consumers@.len() == old(self).consumers@.len() + 1,
            forall|k: int|
                0 <= k < old(self).consumers@.len() ==> final(self).consumers@[k] == old(
                    self,
                ).consumers@[k],
            final(self).log == old(self).log,
            final(self).bound == old(self).bound,
            final(self).closed == old(self).closed,
            final(self).base == old(self).base,
            final(self).window == old(self).window,
            final(self).key_idx == old(self).key_idx,
            ({
                let c = final(self).consumers@[id as int];
                &&& c.active
                &&& c.next == old(self).spec_join_pos()
                &&& c.lagged == 0
                &&& !c.video_delivered
                &&& c.delivered@ == Seq::<FrameView>::empty()
                &&& c.delivered_idxs@ == Seq::<int>::empty()
            }),
    {
        let end = self.base + self.window.len();
        let next = match self.key_idx {
            Some(kk) => if end - kk > self.bound {
                end - self.bound
            } else {
                kk
            },
            None => end,
        };
        let c = Consumer {
            active: true,
            next,
            lagged: 0,
            video_delivered: false,
            delivered: Ghost(Seq::empty()),
            delivered_idxs: Ghost(Seq::empty()),
        };
        let id = self.consumers.len();
        self.consumers.push(c);
        proof {
            assert forall|k: int|
                0 <= k < self.consumers@.len() implies #[trigger] self.consumer_wf(k) by {
                if k < id {
                    assert(old(self).consumer_wf(k));
                }
            }
        }
        id
    }

    /// Detaches a consumer; its cursor no longer retains frames.
    pub fn close_receiver(&mut self, id: usize)
        requires
            old(self).wf(),
            id < old(self).consumers@.len(),
        ensures
            final(self).wf(),
            final(self).consumers@.len() == old(self).consumers@.len(),
            !final(self).consumers@[id as int].active,
            forall|k: int|
                0 <= k < old(self).consumers@.len() && k != id ==> final(self).consumers@[k] == old(
                    self,
                ).consumers@[k],
            final(self).log == old(self).log,
    {
        proof {
            assert(old(self).consumer_wf(id as int));
        }
        self.consumers[id].active = false;
        proof {
            assert forall|k: int|
                0 <= k < self.consumers@.len() implies #[trigger] self.consumer_wf(k) by {
                assert(old(self).consumer_wf(k));
            }
        }
    }

    /// Reads the next event for cursor `id`: a pending lag signal first, then
    /// the next frame, `Empty` while the producer is still live, and
    /// `EndOfStream` once the queue is closed and drained.  A consumer that
    /// has not yet been handed a video frame skips dependent video frames, so
    /// its first video frame is always independently decodable.
    pub fn recv(&mut self, id: usize) -> (r: RecvEvent)
        requires
            old(self).wf(),
            id < old(self).consumers@.len(),
            old(self).consumers@[id as int].active,
        ensures
            final(self).wf(),
            final(self).log == old(self).log,
            final(self).base == old(self).base,
            final(self).window == old(self).window,
            final(self).bound == old(self).bound,
            final(self).closed == old(self).closed,
            final(self).key_idx == old(self).key_idx,
            final(self).consumers@.len() == old(self).consumers@.len(),
            forall|k: int|
                0 <= k < old(self).consumers@.len() && k != id ==> final(self).consumers@[k] == old(
                    self,
                ).consumers@[k],
            final(self).consumers@[id as int].active,
            ({
                let c0 = old(self).consumers@[id as int];
                let c1 = final(self).consumers@[id as int];
                match r {
                    RecvEvent::LaggedBy(k) => k == c0.lagged && k > 0 && c1.lagged == 0 && c1.next
                        == c0.next && c1.delivered == c0.delivered && c1.video_delivered
                        == c0.video_delivered,
                    RecvEvent::Frame(f) => {
                        &&& c0.lagged == 0 && c1.lagged == 0
                        &&& c0.next < c1.next <= old(self).log@.len()
                        &&& f@ == old(self).log@[c1.next - 1]
                        &&& c1.delivered@ == c0.delivered@.push(f@)
                        &&& c1.delivered_idxs@ == c0.delivered_idxs@.push(c1.next - 1)
                        &&& (forall|m: int|
                            c0.next <= m < c1.next - 1 ==> is_video_frame(
                                #[trigger] old(self).log@[m],
                            ) && old(self).log@[m].dependency == FrameDependency::Backwards
                                && !c0.video_delivered)
                        &&& (!c0.video_delivered && is_video_frame(f@) ==> f@.dependency
                            == FrameDependency::Independent)
                        &&& c1.video_delivered == (c0.video_delivered || is_video_frame(f@))
                    },
                    RecvEvent::Empty => {
                        &&& c0.lagged == 0 && c1.lagged == 0 && !old(self).closed
                        &&& c1.delivered == c0.delivered
                        &&& c1.delivered_idxs == c0.delivered_idxs
                        &&& c1.video_delivered == c0.video_delivered
                        &&& c1.next == old(self).log@.len()
                        &&& (forall|m: int|
                            c0.next <= m < c1.next ==> is_video_frame(
                                #[trigger] old(self).log@[m],
                            ) && old(self).log@[m].dependency == FrameDependency::Backwards
                                && !c0.video_delivered)
                    },
                    RecvEvent::EndOfStream => {
                        &&& c0.lagged == 0 && c1.lagged == 0 && old(self).closed
                        &&& c1.delivered == c0.delivered
                        &&& c1.delivered_idxs == c0.delivered_idxs
                        &&& c1.video_delivered == c0.video_delivered
                        &&& c1.next == old(self).log@.len()
                        &&& (forall|m: int|
                            c0.next <= m < c1.next ==> is_video_frame(
                                #[trigger] old(self).log@[m],
                            ) && old(self).log@[m].dependency == FrameDependency::Backwards
                                && !c0.video_delivered)
                    },
                }
            }),
    {
        proof {
            assert(old(self).consumer_wf(id as int));
        }
        let end = self.base + self.window.len();
        if self.consumers[id].lagged > 0 {
            let k = self.consumers[id].lagged;
            self.consumers[id].lagged = 0;
            proof {
                assert forall|m: int|
                    0 <= m < self.consumers@.len() implies #[trigger] self.consumer_wf(m) by {
                    assert(old(self).consumer_wf(m));
                }
            }
            return RecvEvent::LaggedBy(k);
        }
        while self.consumers[id].next < end
            invariant
                self.bound == old(self).bound,
                self.base == old(self).base,
                self.window == old(self).window,
                self.log == old(self).log,
                self.key_idx == old(self).key_idx,
                self.closed == old(self).closed,
                self.consumers@.len() == old(self).consumers@.len(),
                id < self.consumers@.len(),
                end == self.log@.len(),
                old(self).wf(),
                old(self).consumers@[id as int].active,
                old(self).consumers@[id as int].lagged == 0,
                forall|k: int|
                    0 <= k < old(self).consumers@.len() && k != id ==> self.consumers@[k] == old(
                        self,
                    ).consumers@[k],
                ({
                    let c0 = old(self).consumers@[id as int];
                    let c1 = self.consumers@[id as int];
                    &&& c1.active
                    &&& c1.lagged == 0
                    &&& c1.delivered == c0.delivered
                    &&& c1.delivered_idxs == c0.delivered_idxs
                    &&& c1.video_delivered == c0.video_delivered
                    &&& c0.next <= c1.next <= end
                    &&& (forall|m: int|
                        c0.next <= m < c1.next ==> is_video_frame(#[trigger] self.log@[m])
                            && self.log@[m].dependency == FrameDependency::Backwards
                            && !c0.video_delivered)
                }),
            decreases end - self.consumers@[id as int].next,
        {
            proof {
                assert(old(self).consumer_wf(id as int));
            }
            let next = self.consumers[id].next;
            let idx = next - self.base;
            proof {
                assert(spec_frames_view(self.window@) == self.log@.subrange(
                    self.base as int,
                    self.log@.len() as int,
                ));
                assert(spec_frames_view(self.window@)[idx as int] == self.log@[next as int]);
                assert(self.window@[idx as int]@ == self.log@[next as int]);
            }
            let fid = self.window[idx].stream.id;
            let dep = self.window[idx].dependency;
            if !self.consumers[id].video_delivered && fid == 0 && matches!(
                dep,
                FrameDependency::Backwards,
            ) {
                self.consumers[id].next = next + 1;
            } else {
                let out = self.window[idx].clone();
                self.consumers[id].next = next + 1;
                if fid == 0 {
                    self.consumers[id].video_delivered = true;
                }
                let ghost c0 = old(self).consumers@[id as int];
                let ghost d0 = self.consumers@[id as int].delivered@;
                let ghost x0 = self.consumers@[id as int].delivered_idxs@;
                self.consumers[id].delivered = Ghost(d0.push(out@));
                self.consumers[id].delivered_idxs = Ghost(x0.push(next as int));
                proof {
                    assert(out@ == self.log@[next as int]);
                    let c1 = self.consumers@[id as int];
                    assert(c1.delivered@ == c0.delivered@.push(out@));
                    assert(spec_first_video_independent(c1.delivered@)) by {
                        assert forall|i: int|
                            (0 <= i < c1.delivered@.len() && is_video_frame(
                                #[trigger] c1.delivered@[i],
                            ) && (forall|j: int|
                                0 <= j < i ==> !is_video_frame(
                                    #[trigger] c1.delivered@[j],
                                ))) implies c1.delivered@[i].dependency
                            == FrameDependency::Independent by {
                            if i < c0.delivered@.len() {
                                assert(forall|j: int|
                                    0 <= j < i ==> c1.delivered@[j] == c0.delivered@[j]);
                                assert(spec_first_video_independent(c0.delivered@));
                            } else {
                                assert(c1.delivered@[i] == out@);
                                assert(forall|j: int|
                                    0 <= j < c0.delivered@.len() ==> c1.delivered@[j]
                                        == c0.delivered@[j]);
                                assert(!c0.video_delivered);
                            }
                        }
                    }
                    assert(c1.video_delivered <==> exists|i: int|
                        0 <= i < c1.delivered@.len() && is_video_frame(
                            #[trigger] c1.delivered@[i],
                        )) by {
                        if c0.video_delivered {
                            let i = choose|i: int|
                                0 <= i < c0.delivered@.len() && is_video_frame(
                                    #[trigger] c0.delivered@[i],
                                );
                            assert(c1.delivered@[i] == c0.delivered@[i]);
                        } else if fid == 0 {
                            assert(is_video_frame(c1.delivered@[c1.delivered@.len() - 1]));
                        } else {
                            assert forall|i: int|
                                0 <= i < c1.delivered@.len() implies !is_video_frame(
                                    #[trigger] c1.delivered@[i],
                                ) by {
                                if i < c0.delivered@.len() {
                                    assert(c1.delivered@[i] == c0.delivered@[i]);
                                } else {
                                    assert(c1.delivered@[i] == out@);
                                }
                            }
                        }
                    }
                    assert forall|m: int|
                        0 <= m < self.consumers@.len() implies #[trigger] self.consumer_wf(m) by {
                        assert(old(self).consumer_wf(m));
                    }
                }
                return RecvEvent::Frame(out);
            }
        }
        proof {
            assert forall|m: int|
                0 <= m < self.consumers@.len() implies #[trigger] self.consumer_wf(m) by {
                assert(old(self).consumer_wf(m));
            }
        }
        if self.closed {
            RecvEvent::EndOfStream
        } else {
            RecvEvent::Empty
        }
    }
}

/// A live consumer's backlog never exceeds the queue's bound.
pub proof fn lemma_backlog_bounded(q: MediaFrameQueue, k: int)
    requires
        q.wf(),
        0 <= k < q.consumers@.len(),
        q.consumers@[k].active,
    ensures
        q.spec_backlog(k) <= q.bound,
{
    assert(q.consumer_wf(k));
}

/// The first video frame ever delivered to a consumer is independently
/// decodable: no consumer starts its video playback on a dependent frame.
pub proof fn lemma_first_delivered_video_independent(q: MediaFrameQueue, k: int, i: int)
    requires
        q.wf(),
        0 <= k < q.consumers@.len(),
        q.consumers@[k].active,
        0 <= i < q.consumers@[k].delivered@.len(),
        is_video_frame(q.consumers@[k].delivered@[i]),
        forall|j: int| 0 <= j < i ==> !is_video_frame(#[trigger] q.consumers@[k].delivered@[j]),
    ensures
        q.consumers@[k].delivered@[i].dependency == FrameDependency::Independent,
{
    assert(q.consumer_wf(k));
}

/// Frames reach a consumer in the order they were pushed and never twice:
/// the delivered log positions are strictly increasing.
pub proof fn lemma_delivery_in_order(q: MediaFrameQueue, k: int, i: int, j: int)
    requires
        q.wf(),
        0 <= k < q.consumers@.len(),
        q.consumers@[k].active,
        0 <= i < j < q.consumers@[k].delivered_idxs@.len(),
    ensures
        q.consumers@[k].delivered_idxs@[i] < q.consumers@[k].delivered_idxs@[j],
        q.consumers@[k].delivered@[i] == q.log@[q.consumers@[k].delivered_idxs@[i]],
        q.consumers@[k].delivered@[j] == q.log@[q.consumers@[k].delivered_idxs@[j]],
{
    assert(q.consumer_wf(k));
}

} // verus!
