use crate::delay_enums::{
    capacity_of, delay_fits_capacity, delay_in_samples, delay_samples_of, max_delay_in_samples, DelayTime,
    DelayTiming,
};
use vstd::arithmetic::div_mod::{
    lemma_fundamental_div_mod, lemma_mod_add_multiples_vanish, lemma_mod_multiples_vanish,
    lemma_mod_pos_bound, lemma_small_mod,
};
use vstd::prelude::*;

verus! {

/// Position that a line of `cap` samples reads from, at write position `w`
/// and a delay of `d` samples: `d` places behind `w`, wrapping around.
pub open spec fn read_position(w: int, d: int, cap: int) -> int {
    (w + cap - d) % cap
}

/// Contents of `buf` after writing `xs` into it one after another from
/// position `w` on, wrapping around at the end: what `Delay::process` leaves
/// in the buffer when called on each of `xs` in turn.
pub open spec fn written<S>(buf: Seq<S>, w: int, xs: Seq<S>) -> Seq<S>
    decreases xs.len(),
{
    if xs.len() == 0 {
        buf
    } else {
        written(buf, w, xs.drop_last()).update((w + xs.len() - 1) % (buf.len() as int), xs.last())
    }
}

/// What a delay line holding `buf`, at write position `w` with a delay of
/// `d`, hands back when `Delay::process` is called on each of `xs` in turn.
pub open spec fn echoes<S>(buf: Seq<S>, w: int, d: int, xs: Seq<S>) -> Seq<S> {
    Seq::new(
        xs.len(),
        |j: int| written(buf, w, xs.take(j))[read_position((w + j) % (buf.len() as int), d, buf.len() as int)],
    )
}

/// One more sample extends `written` and `echoes` by exactly the step that
/// the contract of `Delay::process` states: the sample is stored at the
/// write position, after the one at the read position is handed back.
pub proof fn echoes_extend<S>(buf: Seq<S>, w: int, d: int, xs: Seq<S>, x: S)
    requires
        buf.len() > 0,
    ensures
        written(buf, w, xs.push(x)) == written(buf, w, xs).update((w + xs.len()) % (buf.len() as int), x),
        echoes(buf, w, d, xs.push(x)) == echoes(buf, w, d, xs).push(
            written(buf, w, xs)[read_position((w + xs.len()) % (buf.len() as int), d, buf.len() as int)],
        ),
{
    let ys = xs.push(x);
    assert(ys.drop_last() =~= xs);
    assert(ys.take(xs.len() as int) =~= xs);
    assert forall|j: int| 0 <= j < xs.len() implies ys.take(j) == xs.take(j) by {
        assert(ys.take(j) =~= xs.take(j));
    }
    assert(echoes(buf, w, d, ys) =~= echoes(buf, w, d, xs).push(
        written(buf, w, xs)[read_position((w + xs.len()) % (buf.len() as int), d, buf.len() as int)],
    ));
}

/// Writing from position 0, each of the last `buf.len()` samples written
/// stands at its own position, and the positions not yet reached still hold
/// what they held.
proof fn lemma_written<S>(buf: Seq<S>, xs: Seq<S>)
    requires
        buf.len() > 0,
    ensures
        written(buf, 0, xs).len() == buf.len(),
        forall|t: int|
            0 <= t < xs.len() && xs.len() - buf.len() <= t ==> #[trigger] written(buf, 0, xs)[t % (buf.len() as int)] == xs[t],
        forall|q: int| xs.len() <= q < buf.len() ==> #[trigger] written(buf, 0, xs)[q] == buf[q],
    decreases xs.len(),
{
    let cap = buf.len() as int;
    if xs.len() > 0 {
        let prev = xs.drop_last();
        let m = xs.len() as int;
        lemma_written(buf, prev);
        let p = (m - 1) % cap;
        lemma_mod_pos_bound(m - 1, cap);
        assert forall|t: int| 0 <= t < m && m - cap <= t implies #[trigger] written(buf, 0, xs)[t % cap] == xs[t] by {
            lemma_mod_pos_bound(t, cap);
            if t < m - 1 {
                lemma_fundamental_div_mod(t, cap);
                lemma_fundamental_div_mod(m - 1, cap);
                assert(t % cap != p) by (nonlinear_arith)
                    requires
                        t == cap * (t / cap) + t % cap,
                        m - 1 == cap * ((m - 1) / cap) + p,
                        0 < m - 1 - t < cap,
                {
                    if t % cap == p {
                        assert(m - 1 - t == cap * ((m - 1) / cap - t / cap));
                        if (m - 1) / cap - t / cap >= 1 {
                            assert(cap * ((m - 1) / cap - t / cap) >= cap);
                        } else {
                            assert(cap * ((m - 1) / cap - t / cap) <= 0);
                        }
                    }
                }
                assert(prev[t] == xs[t]);
            }
        }
        assert forall|q: int| m <= q < cap implies #[trigger] written(buf, 0, xs)[q] == buf[q] by {
            lemma_small_mod((m - 1) as nat, cap as nat);
        }
    }
}

/// A delay line that holds only silence and writes from position 0, with a
/// delay `d` of at least one sample and at most its capacity, hands back
/// each input exactly `d` samples later, and silence before that.
pub proof fn echoes_are_delayed<S>(buf: Seq<S>, silence: S, d: int, xs: Seq<S>)
    requires
        buf.len() > 0,
        forall|i: int| 0 <= i < buf.len() ==> buf[i] == silence,
        1 <= d <= buf.len(),
    ensures
        forall|j: int|
            0 <= j < xs.len() ==> #[trigger] echoes(buf, 0, d, xs)[j] == if j >= d {
                xs[j - d]
            } else {
                silence
            },
{
    let cap = buf.len() as int;
    assert forall|j: int| 0 <= j < xs.len() implies #[trigger] echoes(buf, 0, d, xs)[j] == if j >= d {
        xs[j - d]
    } else {
        silence
    } by {
        let ys = xs.take(j);
        lemma_written(buf, ys);
        lemma_mod_pos_bound(j, cap);
        let w = j % cap;
        let p = read_position(w, d, cap);
        lemma_fundamental_div_mod(j, cap);
        lemma_mod_pos_bound(w + cap - d, cap);
        if j >= d {
            assert(p == (j - d) % cap) by {
                lemma_mod_add_multiples_vanish(w - d, cap);
                lemma_mod_multiples_vanish(j / cap, w - d, cap);
                assert(j - d == cap * (j / cap) + (w - d));
            }
            assert(written(buf, 0, ys)[(j - d) % cap] == ys[j - d]);
        } else {
            lemma_small_mod(j as nat, cap as nat);
            lemma_small_mod((j + cap - d) as nat, cap as nat);
            assert(written(buf, 0, ys)[j + cap - d] == buf[j + cap - d]);
        }
    }
}

/// A circular buffer that hands back each sample written to it a set number
/// of samples later. The delay follows a note division at a tempo and sample
/// rate; the buffer is sized for the longest note division at that tempo.
pub struct Delay<S> {
    buffer: Vec<S>,
    current_sample: usize,
    delay_samples: usize,
    delay_time: DelayTime,
    delay_timing: DelayTiming,
    timebase: Option<(u32, u32)>,
    silence: S,
}

/// A buffer of `len` copies of `silence`.
fn silent_buffer<S: Copy>(silence: S, len: usize) -> (r: Vec<S>)
    ensures
        r@ == Seq::new(len as nat, |i: int| silence),
{
    let mut v: Vec<S> = Vec::with_capacity(len);
    let mut i: usize = 0;
    while i < len
        invariant
            i <= len,
            v@ == Seq::new(i as nat, |k: int| silence),
        decreases len - i,
    {
        v.push(silence);
        i = i + 1;
        assert(v@ =~= Seq::new(i as nat, |k: int| silence));
    }
    v
}

impl<S: Copy> Delay<S> {
    /// The samples held, oldest position first.
    pub closed spec fn samples(&self) -> Seq<S> {
        self.buffer@
    }

    /// Number of samples held.
    pub closed spec fn capacity(&self) -> nat {
        self.buffer@.len()
    }

    /// Position that the next sample is written to.
    pub closed spec fn write_index(&self) -> nat {
        self.current_sample as nat
    }

    /// The current delay, in samples.
    pub closed spec fn delay(&self) -> nat {
        self.delay_samples as nat
    }

    pub closed spec fn delay_time(&self) -> DelayTime {
        self.delay_time
    }

    pub closed spec fn delay_timing(&self) -> DelayTiming {
        self.delay_timing
    }

    /// Sample rate and tempo (in thousandths of a beat per minute) that the
    /// buffer was last sized for; `None` before the first sizing.
    pub closed spec fn timebase(&self) -> Option<(u32, u32)> {
        self.timebase
    }

    /// The value that a freshly sized buffer is filled with.
    pub closed spec fn silence(&self) -> S {
        self.silence
    }

    /// The buffer is not empty, the write position lies in it, the delay is
    /// no longer than the buffer, and once sized for a sample rate and tempo
    /// the buffer and the delay have the lengths that these give.
    pub open spec fn wf(&self) -> bool {
        &&& self.capacity() > 0
        &&& self.write_index() < self.capacity()
        &&& self.delay() <= self.capacity()
        &&& self.timebase() matches Some((sr, bpm)) ==> {
            &&& bpm > 0
            &&& self.capacity() == capacity_of(sr as int, bpm as int)
            &&& self.delay() == delay_samples_of(self.delay_time(), self.delay_timing(), sr as int, bpm as int)
        }
    }

    /// A line of ten samples of `silence`, not yet sized for a tempo, with no
    /// delay and a straight quarter note selected.
    pub fn new(silence: S) -> (r: Self)
        ensures
            r.wf(),
            r.samples() == Seq::new(10, |i: int| silence),
            r.write_index() == 0,
            r.delay() == 0,
            r.delay_time() == DelayTime::_1_4,
            r.delay_timing() == DelayTiming::Straight,
            r.timebase() is None,
            r.silence() == silence,
    {
        Delay {
            buffer: silent_buffer(silence, 10),
            current_sample: 0,
            delay_samples: 0,
            delay_time: DelayTime::_1_4,
            delay_timing: DelayTiming::Straight,
            timebase: None,
            silence,
        }
    }

    /// Hands back the sample written `delay` samples ago, then stores `x` at
    /// the write position and moves that position on by one, wrapping around.
    /// With a delay of zero, or of the whole buffer, the sample read is the
    /// one that `x` replaces.
    pub fn process(&mut self, x: S) -> (r: S)
        requires
            old(self).wf(),
        ensures
            final(self).wf(),
            r == old(self).samples()[read_position(
                old(self).write_index() as int,
                old(self).delay() as int,
                old(self).capacity() as int,
            )],
            final(self).samples() == old(self).samples().update(old(self).write_index() as int, x),
            final(self).write_index() == (old(self).write_index() + 1) % old(self).capacity(),
            final(self).delay() == old(self).delay(),
            final(self).delay_time() == old(self).delay_time(),
            final(self).delay_timing() == old(self).delay_timing(),
            final(self).timebase() == old(self).timebase(),
            final(self).silence() == old(self).silence(),
    {
        let cap = self.buffer.len();
        let read_index: usize;
        if self.current_sample >= self.delay_samples {
            read_index = self.current_sample - self.delay_samples;
            assert(read_index as int == read_position(self.current_sample as int, self.delay_samples as int, cap as int)) by {
                lemma_mod_add_multiples_vanish(read_index as int, cap as int);
                lemma_small_mod(read_index as nat, cap as nat);
            }
        } else {
            read_index = cap - (self.delay_samples - self.current_sample);
            assert(read_index as int == read_position(self.current_sample as int, self.delay_samples as int, cap as int)) by {
                lemma_small_mod(read_index as nat, cap as nat);
            }
        }
        let delayed_sample = self.buffer[read_index];
        self.buffer.set(self.current_sample, x);
        self.current_sample = (self.current_sample + 1) % cap;
        delayed_sample
    }

    /// Sizes the buffer for the longest note division, dotted, at this sample
    /// rate and tempo (`bpm_milli / 1000` beats per minute), fills it with
    /// silence and writes from its start again. The delay follows the note
    /// division held to the new tempo.
    pub fn resize_buffers(&mut self, sample_rate: u32, bpm_milli: u32)
        requires
            old(self).wf(),
            bpm_milli > 0,
            0 < capacity_of(sample_rate as int, bpm_milli as int) <= usize::MAX,
        ensures
            final(self).wf(),
            final(self).samples() == Seq::new(
                capacity_of(sample_rate as int, bpm_milli as int) as nat,
                |i: int| old(self).silence(),
            ),
            final(self).write_index() == 0,
            final(self).delay() == delay_samples_of(
                old(self).delay_time(),
                old(self).delay_timing(),
                sample_rate as int,
                bpm_milli as int,
            ),
            final(self).delay_time() == old(self).delay_time(),
            final(self).delay_timing() == old(self).delay_timing(),
            final(self).timebase() == Some((sample_rate, bpm_milli)),
            final(self).silence() == old(self).silence(),
    {
        proof {
            delay_fits_capacity(self.delay_time, self.delay_timing, sample_rate as int, bpm_milli as int);
        }
        let new_len = max_delay_in_samples(sample_rate, bpm_milli);
        self.buffer = silent_buffer(self.silence, new_len);
        self.current_sample = 0;
        self.delay_samples = delay_in_samples(self.delay_time, self.delay_timing, sample_rate, bpm_milli);
        self.timebase = Some((sample_rate, bpm_milli));
    }

    /// Selects a note division and timing modifier at this sample rate and
    /// tempo (`bpm_milli / 1000` beats per minute). The buffer is sized anew,
    /// and so cleared, only when the sample rate or tempo differs from the
    /// last sizing; otherwise its contents and write position stay as they
    /// are.
    pub fn set_delay(&mut self, delay_time: DelayTime, delay_timing: DelayTiming, sample_rate: u32, bpm_milli: u32)
        requires
            old(self).wf(),
            bpm_milli > 0,
            0 < capacity_of(sample_rate as int, bpm_milli as int) <= usize::MAX,
        ensures
            final(self).wf(),
            final(self).delay() == delay_samples_of(delay_time, delay_timing, sample_rate as int, bpm_milli as int),
            final(self).capacity() == capacity_of(sample_rate as int, bpm_milli as int),
            final(self).delay_time() == delay_time,
            final(self).delay_timing() == delay_timing,
            final(self).timebase() == Some((sample_rate, bpm_milli)),
            final(self).silence() == old(self).silence(),
            old(self).timebase() == Some((sample_rate, bpm_milli)) ==> {
                &&& final(self).samples() == old(self).samples()
                &&& final(self).write_index() == old(self).write_index()
            },
            old(self).timebase() != Some((sample_rate, bpm_milli)) ==> {
                &&& final(self).samples() == Seq::new(final(self).capacity(), |i: int| old(self).silence())
                &&& final(self).write_index() == 0
            },
    {
        let resize = match self.timebase {
            Some((sr, bpm)) => sr != sample_rate || bpm != bpm_milli,
            None => true,
        };
        if resize {
            self.resize_buffers(sample_rate, bpm_milli);
        }
        proof {
            delay_fits_capacity(delay_time, delay_timing, sample_rate as int, bpm_milli as int);
        }
        self.delay_time = delay_time;
        self.delay_timing = delay_timing;
        self.delay_samples = delay_in_samples(delay_time, delay_timing, sample_rate, bpm_milli);
    }

    pub fn get_delay_samples(&self) -> (r: usize)
        ensures
            r == self.delay(),
    {
        self.delay_samples
    }
}

} // verus!
