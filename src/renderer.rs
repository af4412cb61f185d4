use std::sync::Arc;

use vstd::prelude::*;
use vstd::rwlock::{RwLock, RwLockPredicate};

use crate::frame::Frame;
use crate::handle::SoundHandle;
use crate::sound::SoundView;

verus! {

/// The sum of `outputs`, left to right.
pub open spec fn mix(outputs: Seq<Frame>) -> Frame
    decreases outputs.len(),
{
    if outputs.len() == 0 {
        Frame::silent()
    } else {
        mix(outputs.drop_last()).plus(outputs.last())
    }
}

/// The handles of `handles` whose sound is not `done`, in order.
pub open spec fn survivors(handles: Seq<SoundHandle>, done: Seq<bool>) -> Seq<SoundHandle>
    decreases handles.len(),
{
    if handles.len() == 0 {
        Seq::empty()
    } else {
        let rest = survivors(handles.drop_last(), done.drop_last());
        if done.last() {
            rest
        } else {
            rest.push(handles.last())
        }
    }
}

/// The frames that one tick of each state plays.
pub open spec fn outputs(states: Seq<SoundView>, output_rate: u32) -> Seq<Frame> {
    states.map_values(|s: SoundView| s.tick(output_rate).1)
}

/// Whether each state is finished after one tick.
pub open spec fn done_after(states: Seq<SoundView>, output_rate: u32) -> Seq<bool> {
    states.map_values(|s: SoundView| s.tick(output_rate).0.finished())
}

/// The mixer's renderer: the sounds being played, in the order they were
/// added.
pub struct DefaultRenderer {
    /// The playing sounds.
    pub sounds: Vec<SoundHandle>,
    /// The length of the last buffer the output device asked for.
    pub last_buffer_size: usize,
}

impl DefaultRenderer {
    /// A renderer with no sounds.
    pub fn new() -> (r: DefaultRenderer)
        ensures
            r.sounds@ == Seq::<SoundHandle>::empty(),
            r.last_buffer_size == 0,
    {
        DefaultRenderer { sounds: Vec::new(), last_buffer_size: 0 }
    }

    /// Starts playing `sound`.
    pub fn add_sound(&mut self, sound: SoundHandle)
        ensures
            final(self).sounds@ == old(self).sounds@.push(sound),
            final(self).last_buffer_size == old(self).last_buffer_size,
    {
        self.sounds.push(sound);
    }

    /// Whether any sound is playing.
    pub fn has_sounds(&self) -> (r: bool)
        ensures
            r == (self.sounds@.len() > 0),
    {
        self.sounds.len() > 0
    }

    /// Notes the length of a buffer the output device has filled.
    pub fn on_buffer(&mut self, length: usize)
        ensures
            final(self).last_buffer_size == length,
            final(self).sounds@ == old(self).sounds@,
    {
        self.last_buffer_size = length;
    }

    /// Renders one tick at `output_rate`: each sound renders one tick under
    /// its own lock, the frames are summed, and the sounds that are finished
    /// afterwards are dropped.
    ///
    /// Each sound is rendered from whatever state it is in when its lock is
    /// taken; those states are well formed, and the result is the mix of
    /// their ticks.
    pub fn next_frame(&mut self, output_rate: u32) -> (r: Frame)
        requires
            output_rate > 0,
        ensures
            exists|states: Seq<SoundView>|
                {
                    &&& states.len() == old(self).sounds@.len()
                    &&& forall|i: int| 0 <= i < states.len() ==> (#[trigger] states[i]).wf()
                    &&& r == mix(outputs(states, output_rate))
                    &&& final(self).sounds@ == survivors(
                        old(self).sounds@,
                        done_after(states, output_rate),
                    )
                },
            final(self).last_buffer_size == old(self).last_buffer_size,
    {
        let ghost handles = self.sounds@;
        let ghost mut states: Seq<SoundView> = Seq::empty();
        let mut out = Frame::zero();
        let mut i: usize = 0;
        let ghost mut j: int = 0;
        while i < self.sounds.len()
            invariant
                output_rate > 0,
                0 <= j <= handles.len(),
                states.len() == j,
                forall|k: int| 0 <= k < states.len() ==> (#[trigger] states[k]).wf(),
                out == mix(outputs(states, output_rate)),
                i == survivors(handles.take(j), done_after(states, output_rate)).len(),
                self.sounds@ == survivors(handles.take(j), done_after(states, output_rate)) + handles.skip(j),
                self.last_buffer_size == old(self).last_buffer_size,
            decreases self.sounds@.len() - i,
        {
            let ghost kept = survivors(handles.take(j), done_after(states, output_rate));
            assert(self.sounds@[i as int] == handles[j]);
            let (frame, done, Ghost(st)) = self.sounds[i].render(output_rate);
            out = out.add(frame);
            proof {
                let states2 = states.push(st);
                assert(outputs(states2, output_rate) =~= outputs(states, output_rate).push(frame));
                assert(outputs(states, output_rate).push(frame).drop_last() =~= outputs(
                    states,
                    output_rate,
                ));
                assert(done_after(states2, output_rate) =~= done_after(states, output_rate).push(done));
                assert(handles.take(j + 1).drop_last() =~= handles.take(j));
                assert(done_after(states2, output_rate).drop_last() =~= done_after(states, output_rate));
                states = states2;
            }
            if done {
                self.sounds.remove(i);
                proof {
                    assert(self.sounds@ =~= kept + handles.skip(j + 1));
                }
            } else {
                proof {
                    assert(kept.push(handles[j]) + handles.skip(j + 1) =~= kept + handles.skip(j));
                }
                i = i + 1;
            }
            proof {
                j = j + 1;
            }
        }
        proof {
            assert(handles.take(j) =~= handles);
        }
        out
    }
}

/// Silence added to a frame leaves it as it is.
pub proof fn lemma_silence_adds_nothing(f: Frame)
    ensures
        Frame::silent().plus(f) == f,
{
}

/// Two sounds mix to the channel-wise sum of their own ticks, and each is
/// dropped exactly when it is itself finished after the tick.
pub proof fn lemma_mix_two(a: SoundView, b: SoundView, ha: SoundHandle, hb: SoundHandle, output_rate: u32)
    ensures
        mix(outputs(seq![a, b], output_rate)) == a.tick(output_rate).1.plus(b.tick(output_rate).1),
        survivors(seq![ha, hb], done_after(seq![a, b], output_rate)).contains(ha)
            <== !a.tick(output_rate).0.finished(),
        survivors(seq![ha, hb], done_after(seq![a, b], output_rate)).contains(hb)
            <== !b.tick(output_rate).0.finished(),
        survivors(seq![ha, hb], done_after(seq![a, b], output_rate)).len() == (if a.tick(
            output_rate,
        ).0.finished() { 0int } else { 1int }) + (if b.tick(output_rate).0.finished() {
            0int
        } else {
            1int
        }),
{
    let os = outputs(seq![a, b], output_rate);
    let ds = done_after(seq![a, b], output_rate);
    let hs = seq![ha, hb];
    assert(os.drop_last().drop_last() =~= Seq::<Frame>::empty());
    assert(os.drop_last() =~= seq![a.tick(output_rate).1]);
    assert(seq![a.tick(output_rate).1].drop_last() =~= Seq::<Frame>::empty());
    lemma_silence_adds_nothing(a.tick(output_rate).1);
    let one = seq![a.tick(output_rate).1];
    assert(mix(Seq::<Frame>::empty()) == Frame::silent());
    assert(one.last() == a.tick(output_rate).1);
    assert(mix(one) == mix(one.drop_last()).plus(one.last()));
    assert(mix(os.drop_last()) == Frame::silent().plus(a.tick(output_rate).1));
    assert(os.last() == b.tick(output_rate).1);
    assert(hs.drop_last() =~= seq![ha]);
    assert(ds.drop_last() =~= seq![a.tick(output_rate).0.finished()]);
    assert(hs.drop_last().drop_last() =~= Seq::<SoundHandle>::empty());
    let first = survivors(seq![ha], seq![a.tick(output_rate).0.finished()]);
    assert(survivors(Seq::<SoundHandle>::empty(), Seq::<bool>::empty()) == Seq::<SoundHandle>::empty());
    assert(seq![ha].drop_last() =~= Seq::<SoundHandle>::empty());
    assert(seq![a.tick(output_rate).0.finished()].drop_last() =~= Seq::<bool>::empty());
    if !a.tick(output_rate).0.finished() {
        assert(first =~= seq![ha]);
        assert(first.len() == 1);
    } else {
        assert(first.len() == 0);
    }
    let all = survivors(hs, ds);
    if !a.tick(output_rate).0.finished() {
        assert(all.contains(ha)) by {
            assert(all[0] == ha);
        }
    }
    if !b.tick(output_rate).0.finished() {
        assert(all.contains(hb)) by {
            assert(all[all.len() - 1] == hb);
        }
    }
}

/// What the renderer's lock always holds: nothing beyond its type.
pub struct RendererInv;

impl RwLockPredicate<DefaultRenderer> for RendererInv {
    open spec fn inv(self, r: DefaultRenderer) -> bool {
        true
    }
}

/// A shared, lock-guarded renderer.
#[derive(Clone)]
pub struct RendererHandle(Arc<RwLock<DefaultRenderer, RendererInv>>);

impl RendererHandle {
    /// A handle to a new shared renderer.
    pub fn new(renderer: DefaultRenderer) -> (r: RendererHandle) {
        RendererHandle(Arc::new(RwLock::new(renderer, Ghost(RendererInv))))
    }

    /// Starts playing `sound`.
    pub fn add_sound(&self, sound: SoundHandle) {
        let (mut r, handle) = self.0.acquire_write();
        r.add_sound(sound);
        handle.release_write(r);
    }

    /// Whether any sound is playing.
    pub fn has_sounds(&self) -> (r: bool) {
        let (r, handle) = self.0.acquire_write();
        let b = r.has_sounds();
        handle.release_write(r);
        b
    }

    /// Notes the length of a buffer the output device has filled.
    pub fn on_buffer(&self, length: usize) {
        let (mut r, handle) = self.0.acquire_write();
        r.on_buffer(length);
        handle.release_write(r);
    }

    /// Renders one tick at `output_rate`, holding the lock for it.
    pub fn next_frame(&self, output_rate: u32) -> (r: Frame)
        requires
            output_rate > 0,
    {
        let (mut r, handle) = self.0.acquire_write();
        let f = r.next_frame(output_rate);
        handle.release_write(r);
        f
    }

    /// Renders `frames.len()` ticks into `frames`, holding the lock
    /// throughout, so no other tick comes between them.
    pub fn fill(&self, output_rate: u32, frames: &mut Vec<Frame>)
        requires
            output_rate > 0,
        ensures
            final(frames)@.len() == old(frames)@.len(),
    {
        let (mut r, handle) = self.0.acquire_write();
        let mut i: usize = 0;
        while i < frames.len()
            invariant
                output_rate > 0,
                i <= frames@.len(),
                frames@.len() == old(frames)@.len(),
            decreases frames@.len() - i,
        {
            let f = r.next_frame(output_rate);
            frames.set(i, f);
            i = i + 1;
        }
        handle.release_write(r);
    }
}

} // verus!
