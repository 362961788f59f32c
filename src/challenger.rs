use vstd::prelude::*;

verus! {

/// The abstract transcript: the sponge state, the inputs waiting to be
/// absorbed, and the outputs not yet released (released from the end).
pub struct Transcript<W> {
    pub state: Seq<W>,
    pub input: Seq<W>,
    pub output: Seq<W>,
}

/// `perm` maps every state of `width` wires to a state of `width` wires.
pub open spec fn keeps_width<W>(perm: spec_fn(Seq<W>) -> Seq<W>, width: nat) -> bool {
    forall|s: Seq<W>| s.len() == width ==> (#[trigger] perm(s)).len() == width
}

impl<W> Transcript<W> {
    /// The number of wires in the sponge state.
    pub open spec fn width(self) -> nat {
        self.state.len()
    }

    /// The state is not empty, and neither buffer is longer than the state.
    pub open spec fn wf(self) -> bool {
        &&& self.state.len() > 0
        &&& self.input.len() <= self.state.len()
        &&& self.output.len() <= self.state.len()
    }

    /// The state with the buffered inputs written over its first slots, in
    /// order, and the input buffer drained.
    pub open spec fn loaded(self) -> Self {
        Transcript {
            state: Seq::new(
                self.state.len(),
                |i: int|
                    if i < self.input.len() {
                        self.input[i]
                    } else {
                        self.state[i]
                    },
            ),
            input: Seq::empty(),
            output: self.output,
        }
    }

    /// The permuted state taken back: it is both the new state and a fresh
    /// output buffer.
    pub open spec fn refilled(self, permuted: Seq<W>) -> Self {
        Transcript { state: permuted, input: self.input, output: permuted }
    }

    /// One duplex: load the inputs, permute with `perm`, refill the outputs.
    pub open spec fn duplexed(self, perm: spec_fn(Seq<W>) -> Seq<W>) -> Self {
        self.loaded().refilled(perm(self.loaded().state))
    }

    /// `v` appended to the inputs, and the pending outputs discarded.
    pub open spec fn absorbed(self, v: W) -> Self {
        Transcript { state: self.state, input: self.input.push(v), output: Seq::empty() }
    }

    /// The input buffer is full: a duplex must run before anything else.
    pub open spec fn inputs_full(self) -> bool {
        self.input.len() == self.state.len()
    }

    /// A sample must run a duplex first: inputs are pending, or the outputs
    /// are used up.
    pub open spec fn needs_duplex(self) -> bool {
        self.input.len() > 0 || self.output.len() == 0
    }

    /// The last output released.
    pub open spec fn popped(self) -> Self {
        Transcript { state: self.state, input: self.input, output: self.output.drop_last() }
    }

    /// Observing one value: absorb it, and duplex when that fills the inputs.
    pub open spec fn observed(self, v: W, perm: spec_fn(Seq<W>) -> Seq<W>) -> Self {
        if self.absorbed(v).inputs_full() {
            self.absorbed(v).duplexed(perm)
        } else {
            self.absorbed(v)
        }
    }

    /// The number of permutations that observing `v` runs.
    pub open spec fn observe_permutations(self, v: W) -> nat {
        if self.absorbed(v).inputs_full() {
            1
        } else {
            0
        }
    }

    /// Observing each of `vs` in order.
    pub open spec fn observed_all(self, vs: Seq<W>, perm: spec_fn(Seq<W>) -> Seq<W>) -> Self
        decreases vs.len(),
    {
        if vs.len() == 0 {
            self
        } else {
            self.observed_all(vs.drop_last(), perm).observed(vs.last(), perm)
        }
    }

    /// The transcript from which a sample is taken: duplexed first if needed.
    pub open spec fn ready(self, perm: spec_fn(Seq<W>) -> Seq<W>) -> Self {
        if self.needs_duplex() {
            self.duplexed(perm)
        } else {
            self
        }
    }

    /// One sample: the transcript after it and the value released.
    pub open spec fn sampled(self, perm: spec_fn(Seq<W>) -> Seq<W>) -> (Self, W) {
        (self.ready(perm).popped(), self.ready(perm).output.last())
    }

    /// `n` samples in a row: the transcript after them, the values released
    /// in call order, and the number of permutations they ran.
    pub open spec fn sampled_n(self, perm: spec_fn(Seq<W>) -> Seq<W>, n: nat) -> (Self, Seq<W>, nat)
        decreases n,
    {
        if n == 0 {
            (self, Seq::empty(), 0)
        } else {
            let (t, v) = self.sampled(perm);
            let (rest, vs, count) = t.sampled_n(perm, (n - 1) as nat);
            (rest, seq![v] + vs, count + if self.needs_duplex() {
                1nat
            } else {
                0nat
            })
        }
    }
}

/// The state of a duplex-sponge transcript over circuit wires of type `W`.
pub struct DuplexChallengerTarget<W> {
    sponge_state: Vec<W>,
    input_buffer: Vec<W>,
    output_buffer: Vec<W>,
}

impl<W> View for DuplexChallengerTarget<W> {
    type V = Transcript<W>;

    closed spec fn view(&self) -> Transcript<W> {
        Transcript {
            state: self.sponge_state@,
            input: self.input_buffer@,
            output: self.output_buffer@,
        }
    }
}

impl<W: Copy> DuplexChallengerTarget<W> {
    /// A transcript whose sponge starts as `initial_state`, with both
    /// buffers empty. Its width is the length of `initial_state`.
    pub fn new(initial_state: Vec<W>) -> (r: Self)
        requires
            initial_state.len() > 0,
        ensures
            r@ == (Transcript {
                state: initial_state@,
                input: Seq::<W>::empty(),
                output: Seq::<W>::empty(),
            }),
            r@.wf(),
    {
        DuplexChallengerTarget {
            sponge_state: initial_state,
            input_buffer: Vec::new(),
            output_buffer: Vec::new(),
        }
    }

    /// The number of wires in the sponge state.
    pub fn width(&self) -> (r: usize)
        ensures
            r == self@.width(),
    {
        self.sponge_state.len()
    }

    /// Whether the input buffer is full, so that a duplex must run next.
    pub fn inputs_full(&self) -> (r: bool)
        ensures
            r == self@.inputs_full(),
    {
        self.input_buffer.len() == self.sponge_state.len()
    }

    /// Whether a sample must be preceded by a duplex.
    pub fn needs_duplex(&self) -> (r: bool)
        ensures
            r == self@.needs_duplex(),
    {
        self.input_buffer.len() > 0 || self.output_buffer.len() == 0
    }

    /// First half of a duplex: writes the buffered inputs over the first
    /// slots of the state, drains the input buffer, and returns the state
    /// that the permutation is to be applied to.
    pub fn load_inputs(&mut self) -> (to_permute: Vec<W>)
        requires
            old(self)@.wf(),
        ensures
            final(self)@ == old(self)@.loaded(),
            to_permute@ == final(self)@.state,
            final(self)@.wf(),
    {
        let n = self.input_buffer.len();
        let mut i: usize = 0;
        while i < n
            invariant
                n == self.input_buffer.len() == old(self)@.input.len(),
                self.input_buffer@ == old(self)@.input,
                self.output_buffer@ == old(self)@.output,
                n <= self.sponge_state.len(),
                self.sponge_state.len() == old(self)@.state.len(),
                0 <= i <= n,
                forall|j: int|
                    0 <= j < self.sponge_state.len() ==> #[trigger] self.sponge_state@[j] == if j
                        < i {
                        old(self)@.input[j]
                    } else {
                        old(self)@.state[j]
                    },
            decreases n - i,
        {
            let v = self.input_buffer[i];
            self.sponge_state.set(i, v);
            i = i + 1;
        }
        self.input_buffer.clear();
        assert(self@.state =~= old(self)@.loaded().state);
        assert(self@.input =~= old(self)@.loaded().input);
        copy_wires(&self.sponge_state)
    }

    /// Second half of a duplex: the permuted state becomes the sponge state,
    /// and a copy of it the output buffer.
    pub fn refill(&mut self, permuted: Vec<W>)
        requires
            old(self)@.wf(),
            permuted.len() == old(self)@.width(),
        ensures
            final(self)@ == old(self)@.refilled(permuted@),
            final(self)@.wf(),
    {
        self.output_buffer = copy_wires(&permuted);
        self.sponge_state = permuted;
    }

    /// Absorbs `value`: discards the pending outputs and appends `value` to
    /// the inputs. Returns whether the inputs are now full, in which case a
    /// duplex must run before the next observe or sample.
    pub fn observe_single(&mut self, value: W) -> (duplex_due: bool)
        requires
            old(self)@.wf(),
            !old(self)@.inputs_full(),
        ensures
            final(self)@ == old(self)@.absorbed(value),
            duplex_due == final(self)@.inputs_full(),
            final(self)@.wf(),
    {
        self.output_buffer.clear();
        self.input_buffer.push(value);
        assert(self@.output =~= Seq::<W>::empty());
        self.input_buffer.len() == self.sponge_state.len()
    }

    /// Absorbs `values[start..]` in order until the input buffer is full,
    /// and returns the index of the first value not absorbed. When that is
    /// not `values.len()`, a duplex is due before the rest can be absorbed.
    pub fn observe(&mut self, values: &Vec<W>, start: usize) -> (next: usize)
        requires
            old(self)@.wf(),
            !old(self)@.inputs_full(),
            start <= values.len(),
        ensures
            start <= next <= values.len(),
            next == values.len() || final(self)@.inputs_full(),
            final(self)@.wf(),
            final(self)@.state == old(self)@.state,
            final(self)@.input == old(self)@.input + values@.subrange(start as int, next as int),
            final(self)@.output == if next == start {
                old(self)@.output
            } else {
                Seq::<W>::empty()
            },
    {
        let mut i: usize = start;
        while i < values.len() && self.input_buffer.len() < self.sponge_state.len()
            invariant
                start <= i <= values.len(),
                self@.wf(),
                self@.state == old(self)@.state,
                self@.input == old(self)@.input + values@.subrange(start as int, i as int),
                self@.output == if i == start {
                    old(self)@.output
                } else {
                    Seq::<W>::empty()
                },
                i > start ==> old(self)@.input.len() + (i - start) <= old(self)@.width(),
            decreases values.len() - i,
        {
            let v = values[i];
            self.observe_single(v);
            assert(values@.subrange(start as int, i + 1) =~= values@.subrange(start as int, i as int).push(v));
            i = i + 1;
        }
        i
    }

    /// Releases the last pending output. A duplex must have made the
    /// outputs fresh first (see `needs_duplex`).
    pub fn sample(&mut self) -> (r: W)
        requires
            old(self)@.wf(),
            !old(self)@.needs_duplex(),
        ensures
            final(self)@ == old(self)@.popped(),
            r == old(self)@.output.last(),
            final(self)@.wf(),
    {
        let r = self.output_buffer.pop();
        assert(self@.output =~= old(self)@.output.drop_last());
        r.unwrap()
    }
}

/// A copy of `v`, wire by wire.
fn copy_wires<W: Copy>(v: &Vec<W>) -> (r: Vec<W>)
    ensures
        r@ == v@,
{
    let mut r: Vec<W> = Vec::new();
    let mut k: usize = 0;
    while k < v.len()
        invariant
            0 <= k <= v.len(),
            r@ =~= v@.take(k as int),
        decreases v.len() - k,
    {
        r.push(v[k]);
        k = k + 1;
    }
    assert(r@ =~= v@);
    r
}

} // verus!
