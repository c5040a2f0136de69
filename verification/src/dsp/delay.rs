//! A delay of a whole number of samples.
//!
//! The buffer is sized once for the longest delay it will be asked for, so
//! the length can be changed from the audio thread without allocating. The
//! sample type is a parameter: the circuit runs it on `f64`.

use vstd::prelude::*;

verus! {

/// One step of a delay line whose samples in flight are `pending`, oldest
/// first, when `x` goes in: what comes out, and what is then in flight.
///
/// With nothing in flight the input comes straight out.
pub open spec fn delay_step<T>(pending: Seq<T>, x: T) -> (T, Seq<T>) {
    (pending.push(x)[0], pending.push(x).drop_first())
}

/// Everything that comes out of a delay line with `pending` in flight when
/// `inputs` are fed through it in order.
pub open spec fn delay_outputs<T>(pending: Seq<T>, inputs: Seq<T>) -> Seq<T>
    decreases inputs.len(),
{
    if inputs.len() == 0 {
        Seq::empty()
    } else {
        let (out, next) = delay_step(pending, inputs[0]);
        seq![out] + delay_outputs(next, inputs.drop_first())
    }
}

/// What is in flight after `inputs` have been fed through a delay line
/// that had `pending` in flight.
pub open spec fn delay_pending<T>(pending: Seq<T>, inputs: Seq<T>) -> Seq<T>
    decreases inputs.len(),
{
    if inputs.len() == 0 {
        pending
    } else {
        delay_pending(delay_step(pending, inputs[0]).1, inputs.drop_first())
    }
}

/// A delay delays by exactly its length: fed a run of samples, it gives
/// back whatever was in flight followed by the run itself, cut to the
/// length of the run, and what stays in flight is the end of that stream.
pub proof fn lemma_delay_delays_by_its_length<T>(pending: Seq<T>, inputs: Seq<T>)
    ensures
        delay_outputs(pending, inputs) =~= (pending + inputs).take(inputs.len() as int),
        delay_pending(pending, inputs) =~= (pending + inputs).skip(inputs.len() as int),
    decreases inputs.len(),
{
    if inputs.len() > 0 {
        let x = inputs[0];
        let next = delay_step(pending, x).1;
        lemma_delay_delays_by_its_length(next, inputs.drop_first());
        assert(pending.push(x) =~= (pending + inputs).take(pending.len() + 1int));
        assert(next + inputs.drop_first() =~= (pending + inputs).drop_first());
    }
}

/// A delay line.
pub struct Delay<T> {
    buf: Vec<T>,
    /// Samples of delay. Zero passes the input straight through.
    len: usize,
    pos: usize,
    /// What an empty stretch of the line holds.
    silence: T,
}

impl<T> View for Delay<T> {
    type V = Seq<T>;

    /// The samples in flight, oldest first: the next one out is `self@[0]`.
    closed spec fn view(&self) -> Seq<T> {
        self.buf@.subrange(self.pos as int, self.len as int) + self.buf@.subrange(0, self.pos as int)
    }
}

impl<T: Copy + Default> Delay<T> {
    /// The buffer is in step with the length and the read position.
    pub closed spec fn well_formed(&self) -> bool {
        &&& self.len <= self.buf@.len()
        &&& self.len == 0 ==> self.pos == 0
        &&& self.len > 0 ==> self.pos < self.len
    }

    /// The longest delay the line can be set to without allocating.
    pub closed spec fn capacity(&self) -> nat {
        self.buf@.len()
    }

    /// The value a cleared line holds: what `T::default()` gave when the line
    /// was made.
    pub closed spec fn silence(&self) -> T {
        self.silence
    }

    /// `n` samples of silence.
    pub open spec fn quiet(&self, n: nat) -> Seq<T> {
        Seq::new(n, |i: int| self.silence())
    }

    /// A delay of `len` samples that can later be set to anything up to
    /// `capacity`.
    pub fn new(len: usize, capacity: usize) -> (r: Self)
        ensures
            r.well_formed(),
            r@ == r.quiet(len as nat),
            r.capacity() == if capacity < len { len } else { capacity },
            call_ensures(T::default, (), r.silence()),
    {
        let capacity = if capacity < len { len } else { capacity };
        let silence = T::default();
        let mut buf: Vec<T> = Vec::new();
        while buf.len() < capacity
            invariant
                buf@.len() <= capacity,
                forall|i: int| 0 <= i < buf@.len() ==> buf@[i] == silence,
            decreases capacity - buf@.len(),
        {
            buf.push(silence);
        }
        let r = Delay { buf, len, pos: 0, silence };
        proof {
            assert(r@ =~= r.quiet(len as nat));
        }
        r
    }

    /// Changes the length, and clears what is in flight: samples queued for
    /// one delay come out at the wrong time for another. Past the capacity
    /// it stops at the capacity rather than allocate.
    pub fn set_delay(&mut self, len: usize)
        requires
            old(self).well_formed(),
        ensures
            final(self).well_formed(),
            final(self).capacity() == old(self).capacity(),
            final(self).silence() == old(self).silence(),
            ({
                let wanted = if len < old(self).capacity() { len as nat } else { old(self).capacity() };
                if wanted == old(self)@.len() {
                    final(self)@ == old(self)@
                } else {
                    final(self)@ == final(self).quiet(wanted)
                }
            }),
    {
        let len = if len < self.buf.len() { len } else { self.buf.len() };
        if len != self.len {
            self.len = len;
            self.clear();
        }
    }

    /// The length of the delay, in samples.
    pub fn delay(&self) -> (r: usize)
        requires
            self.well_formed(),
        ensures
            r == self@.len(),
    {
        self.len
    }

    /// One sample in, one sample out.
    pub fn process(&mut self, x: T) -> (r: T)
        requires
            old(self).well_formed(),
        ensures
            final(self).well_formed(),
            final(self).capacity() == old(self).capacity(),
            final(self).silence() == old(self).silence(),
            (r, final(self)@) == delay_step(old(self)@, x),
    {
        if self.len == 0 {
            proof {
                assert(self@ =~= Seq::<T>::empty());
                assert(self@.push(x).drop_first() =~= self@);
            }
            return x;
        }
        let ghost before = self@;
        let out = self.buf[self.pos];
        self.buf.set(self.pos, x);
        let next = if self.pos + 1 == self.len { 0 } else { self.pos + 1 };
        self.pos = next;
        proof {
            assert(before.push(x)[0] == out);
            assert(self@ =~= before.push(x).drop_first());
        }
        out
    }

    /// Clears what is in flight and leaves the length alone.
    pub fn reset(&mut self)
        requires
            old(self).well_formed(),
        ensures
            final(self).well_formed(),
            final(self).capacity() == old(self).capacity(),
            final(self).silence() == old(self).silence(),
            final(self)@ == final(self).quiet(old(self)@.len()),
    {
        self.clear();
    }

    /// Fills the whole buffer with silence and rewinds, whatever the read
    /// position was.
    fn clear(&mut self)
        requires
            old(self).len <= old(self).buf@.len(),
        ensures
            final(self).well_formed(),
            final(self).len == old(self).len,
            final(self).capacity() == old(self).capacity(),
            final(self).silence() == old(self).silence(),
            final(self)@ == final(self).quiet(old(self).len as nat),
    {
        let mut i: usize = 0;
        while i < self.buf.len()
            invariant
                i <= self.buf@.len(),
                self.buf@.len() == old(self).buf@.len(),
                self.len == old(self).len,
                self.silence == old(self).silence,
                forall|j: int| 0 <= j < i ==> self.buf@[j] == self.silence,
            decreases self.buf@.len() - i,
        {
            let silence = self.silence;
            self.buf.set(i, silence);
            i = i + 1;
        }
        self.pos = 0;
        proof {
            assert(self@ =~= self.quiet(self.len as nat));
        }
    }
}

} // verus!
