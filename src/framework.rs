use vstd::prelude::*;
use crate::event::{frame_step, has_quit, reduce_events, FrameEvent, FrameStep};

verus! {

/// The loop's state as seen from outside: the current canvas size and
/// whether the loop still runs frames.
pub struct LoopModel {
    pub width: u32,
    pub height: u32,
    pub running: bool,
}

impl LoopModel {
    /// One iteration on the events drained in a frame: what it asks of the
    /// driver, and the state after it. A stopped loop stays stopped.
    pub open spec fn step(self, events: Seq<FrameEvent>) -> (FrameStep, LoopModel) {
        if !self.running {
            (FrameStep::Terminate, self)
        } else {
            match frame_step(events) {
                FrameStep::Terminate => (FrameStep::Terminate, LoopModel { running: false, ..self }),
                FrameStep::Frame(None) => (FrameStep::Frame(None), self),
                FrameStep::Frame(Some((w, h))) => (
                    FrameStep::Frame(Some((w, h))),
                    LoopModel { width: w, height: h, ..self },
                ),
            }
        }
    }

    /// The owning-thread driver over scripted frames: iterations run in order
    /// until one terminates; the result lists the argument of every callback.
    pub open spec fn run(self, frames: Seq<Seq<FrameEvent>>) -> (Seq<Option<(u32, u32)>>, LoopModel)
        decreases frames.len(),
    {
        if frames.len() == 0 {
            (Seq::empty(), self)
        } else {
            let (st, next) = self.step(frames[0]);
            match st {
                FrameStep::Terminate => (Seq::empty(), next),
                FrameStep::Frame(r) => {
                    let (rest, last) = next.run(frames.drop_first());
                    (seq![r] + rest, last)
                },
            }
        }
    }

    /// One host tick on top of what the earlier ticks produced: the host
    /// ticks only while the loop runs.
    pub open spec fn tick(
        acc: (Seq<Option<(u32, u32)>>, LoopModel),
        events: Seq<FrameEvent>,
    ) -> (Seq<Option<(u32, u32)>>, LoopModel) {
        let (done, state) = acc;
        if !state.running {
            acc
        } else {
            let (st, next) = state.step(events);
            match st {
                FrameStep::Terminate => (done, next),
                FrameStep::Frame(r) => (done.push(r), next),
            }
        }
    }

    /// The host-driven driver over scripted frames: one tick per frame, each
    /// appending its callback argument to what the earlier ticks produced.
    pub open spec fn hosted(self, frames: Seq<Seq<FrameEvent>>) -> (Seq<Option<(u32, u32)>>, LoopModel)
        decreases frames.len(),
    {
        if frames.len() == 0 {
            (Seq::empty(), self)
        } else {
            LoopModel::tick(self.hosted(frames.drop_last()), frames.last())
        }
    }
}

proof fn lemma_run_push(m: LoopModel, g: Seq<Seq<FrameEvent>>, f: Seq<FrameEvent>)
    ensures
        m.run(g.push(f)) == LoopModel::tick(m.run(g), f),
    decreases g.len(),
{
    let gf = g.push(f);
    if g.len() == 0 {
        assert(gf.drop_first() =~= Seq::<Seq<FrameEvent>>::empty());
        assert(gf[0] == f);
        let (st, next) = m.step(f);
        assert(next.run(gf.drop_first()) == (Seq::<Option<(u32, u32)>>::empty(), next));
        match st {
            FrameStep::Terminate => {
                assert(!next.running);
            },
            FrameStep::Frame(r) => {
                assert(Seq::<Option<(u32, u32)>>::empty().push(r) =~= seq![r] + Seq::<Option<(u32, u32)>>::empty());
            },
        }
    } else {
        assert(gf[0] == g[0]);
        assert(gf.drop_first() =~= g.drop_first().push(f));
        let (st, next) = m.step(g[0]);
        lemma_run_push(next, g.drop_first(), f);
        match st {
            FrameStep::Terminate => {
                assert(!next.running);
            },
            FrameStep::Frame(r) => {
                let (rest, last) = next.run(g.drop_first());
                if last.running {
                    let (st2, _) = last.step(f);
                    match st2 {
                        FrameStep::Terminate => {},
                        FrameStep::Frame(r2) => {
                            assert(seq![r] + rest.push(r2) =~= (seq![r] + rest).push(r2));
                        },
                    }
                }
            },
        }
    }
}

/// Both drivers, given the same frames of scripted events, hand the per-frame
/// callback the same arguments in the same order and stop at the same frame,
/// leaving the loop in the same state.
pub proof fn lemma_drivers_agree(m: LoopModel, frames: Seq<Seq<FrameEvent>>)
    ensures
        m.run(frames) == m.hosted(frames),
    decreases frames.len(),
{
    if frames.len() > 0 {
        let g = frames.drop_last();
        lemma_drivers_agree(m, g);
        assert(g.push(frames.last()) =~= frames);
        lemma_run_push(m, g, frames.last());
    }
}

/// A quit among the events of frame `k` stops the loop: at most `k` callbacks
/// run, none at or after that frame, and the loop ends stopped.
pub proof fn lemma_quit_ends_callbacks(m: LoopModel, frames: Seq<Seq<FrameEvent>>, k: int)
    requires
        0 <= k < frames.len(),
        has_quit(frames[k]),
    ensures
        m.run(frames).0.len() <= k,
        !m.run(frames).1.running,
    decreases k,
{
    if k > 0 {
        let (st, next) = m.step(frames[0]);
        match st {
            FrameStep::Terminate => {},
            FrameStep::Frame(r) => {
                assert(frames.drop_first()[k - 1] == frames[k]);
                lemma_quit_ends_callbacks(next, frames.drop_first(), k - 1);
            },
        }
    }
}

/// The per-frame state of the execution loop, shared by the owning-thread
/// driver and the host-driven driver.
pub struct DemoFramework {
    width: u32,
    height: u32,
    running: bool,
}

impl View for DemoFramework {
    type V = LoopModel;

    closed spec fn view(&self) -> LoopModel {
        LoopModel { width: self.width, height: self.height, running: self.running }
    }
}

impl DemoFramework {
    /// A running loop for a window of the given size.
    pub fn new(width: u32, height: u32) -> (r: DemoFramework)
        ensures
            r@ == (LoopModel { width, height, running: true }),
    {
        DemoFramework { width, height, running: true }
    }

    pub fn width(&self) -> (r: u32)
        ensures
            r == self@.width,
    {
        self.width
    }

    pub fn height(&self) -> (r: u32)
        ensures
            r == self@.height,
    {
        self.height
    }

    pub fn is_running(&self) -> (r: bool)
        ensures
            r == self@.running,
    {
        self.running
    }

    /// One iteration of the loop on the events drained this frame. The driver
    /// runs the per-frame callback and presents only on `Frame`; on
    /// `Terminate` it ends the process.
    pub fn one_pass(&mut self, events: &Vec<FrameEvent>) -> (r: FrameStep)
        ensures
            (r, final(self)@) == old(self)@.step(events@),
    {
        if !self.running {
            return FrameStep::Terminate;
        }
        let st = reduce_events(events);
        match st {
            FrameStep::Terminate => {
                self.running = false;
            },
            FrameStep::Frame(None) => {},
            FrameStep::Frame(Some((w, h))) => {
                self.width = w;
                self.height = h;
            },
        }
        st
    }

    /// The owning-thread loop over the events of successive frames: runs one
    /// iteration per frame until one terminates, and returns the argument that
    /// each per-frame callback received, in order.
    pub fn main_loop(&mut self, frames: &Vec<Vec<FrameEvent>>) -> (r: Vec<Option<(u32, u32)>>)
        ensures
            (r@, final(self)@) == old(self)@.run(frames@.map_values(|f: Vec<FrameEvent>| f@)),
    {
        let ghost all = frames@.map_values(|f: Vec<FrameEvent>| f@);
        let mut out: Vec<Option<(u32, u32)>> = Vec::new();
        let mut i: usize = 0;
        assert(all.skip(0) =~= all);
        assert(Seq::<Option<(u32, u32)>>::empty() + old(self)@.run(all).0 =~= old(self)@.run(all).0);
        while i < frames.len()
            invariant
                0 <= i <= frames@.len(),
                all == frames@.map_values(|f: Vec<FrameEvent>| f@),
                old(self)@.run(all) == (out@ + self@.run(all.skip(i as int)).0, self@.run(all.skip(i as int)).1),
            decreases frames@.len() - i,
        {
            let ghost rest = all.skip(i as int);
            assert(rest.drop_first() =~= all.skip(i + 1));
            assert(rest[0] == frames@[i as int]@);
            let st = self.one_pass(&frames[i]);
            match st {
                FrameStep::Terminate => {
                    assert(out@ + Seq::<Option<(u32, u32)>>::empty() =~= out@);
                    return out;
                },
                FrameStep::Frame(r) => {
                    let ghost before = out@;
                    out.push(r);
                    assert(before + (seq![r] + self@.run(all.skip(i + 1)).0) =~= out@ + self@.run(all.skip(i + 1)).0);
                },
            }
            i = i + 1;
        }
        assert(all.skip(frames@.len() as int) =~= Seq::<Seq<FrameEvent>>::empty());
        assert(out@ + Seq::<Option<(u32, u32)>>::empty() =~= out@);
        out
    }
}

} // verus!
