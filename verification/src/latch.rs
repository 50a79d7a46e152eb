//! Edge detection for buttons: a latch remembers the state sampled on the
//! previous tick beside the current one.

use vstd::prelude::*;

verus! {

/// The sampled state of one button on this tick and on the one before.
#[derive(Clone, Copy, Debug, PartialEq, Eq, Structural)]
pub struct Latch {
    pub prev: bool,
    pub curr: bool,
}

impl Latch {
    /// The latch after the button's state was recorded as `value`.
    pub open spec fn spec_set(self, value: bool) -> Latch {
        Latch { curr: value, ..self }
    }

    /// The button is down now and was up on the previous tick.
    pub open spec fn spec_front_edge(self) -> bool {
        self.curr && !self.prev
    }

    /// The latch after the end of a tick.
    pub open spec fn spec_tick(self) -> Latch {
        Latch { prev: self.curr, ..self }
    }

    /// The latch after one tick for each of `samples`, in order: the sample
    /// is recorded, then the tick ends.
    pub open spec fn run(self, samples: Seq<bool>) -> Latch
        decreases samples.len(),
    {
        if samples.len() == 0 {
            self
        } else {
            self.run(samples.drop_last()).spec_set(samples.last()).spec_tick()
        }
    }

    /// What `front_edge` answers during tick `i` of a run over `samples`.
    pub open spec fn edge_at(self, samples: Seq<bool>, i: int) -> bool {
        self.run(samples.take(i)).spec_set(samples[i]).spec_front_edge()
    }

    /// A latch of a button that is up and was up.
    pub fn new() -> (r: Latch)
        ensures
            r == (Latch { prev: false, curr: false }),
    {
        Latch { prev: false, curr: false }
    }

    /// Records the button's state. Of several calls within a tick the last counts.
    pub fn set(&mut self, value: bool)
        ensures
            *final(self) == old(self).spec_set(value),
    {
        self.curr = value;
    }

    /// Tells whether the button went down on this tick.
    pub fn front_edge(&self) -> (r: bool)
        ensures
            r == self.spec_front_edge(),
    {
        self.curr && !self.prev
    }

    /// Ends the tick: the current state becomes the previous one.
    pub fn tick(&mut self)
        ensures
            *final(self) == old(self).spec_tick(),
    {
        self.prev = self.curr;
    }
}

/// The six buttons of the game.
#[derive(Clone, Copy, Debug, PartialEq, Eq, Structural)]
pub struct Input {
    pub key_escape: Latch,
    pub key_enter: Latch,
    pub key_up: Latch,
    pub key_left: Latch,
    pub key_down: Latch,
    pub key_right: Latch,
}

impl Input {
    /// The input after the end of a tick: every latch has ticked.
    pub open spec fn spec_tick(self) -> Input {
        Input {
            key_escape: self.key_escape.spec_tick(),
            key_enter: self.key_enter.spec_tick(),
            key_up: self.key_up.spec_tick(),
            key_left: self.key_left.spec_tick(),
            key_down: self.key_down.spec_tick(),
            key_right: self.key_right.spec_tick(),
        }
    }

    /// All six buttons up.
    pub fn new() -> (r: Input)
        ensures
            r == (Input {
                key_escape: Latch { prev: false, curr: false },
                key_enter: Latch { prev: false, curr: false },
                key_up: Latch { prev: false, curr: false },
                key_left: Latch { prev: false, curr: false },
                key_down: Latch { prev: false, curr: false },
                key_right: Latch { prev: false, curr: false },
            }),
    {
        Input {
            key_escape: Latch::new(),
            key_enter: Latch::new(),
            key_up: Latch::new(),
            key_left: Latch::new(),
            key_down: Latch::new(),
            key_right: Latch::new(),
        }
    }

    /// Ends the tick for every button.
    pub fn tick(&mut self)
        ensures
            *final(self) == old(self).spec_tick(),
    {
        self.key_escape.tick();
        self.key_enter.tick();
        self.key_up.tick();
        self.key_left.tick();
        self.key_down.tick();
        self.key_right.tick();
    }
}

/// Within a tick, the last recorded state counts, and asking for the edge
/// changes nothing.
pub proof fn lemma_last_set_wins(l: Latch, a: bool, b: bool)
    ensures
        l.spec_set(a).spec_set(b) == l.spec_set(b),
        l.spec_set(a).spec_front_edge() == (a && !l.prev),
{
}

/// Over a run of ticks, the edge is reported on tick `i` exactly when the
/// button is down on tick `i` and was up on the tick before; on the first
/// tick, what the latch remembered stands for the tick before.
pub proof fn lemma_edge_at(l: Latch, samples: Seq<bool>, i: int)
    requires
        0 <= i < samples.len(),
    ensures
        i == 0 ==> l.edge_at(samples, i) == (samples[0] && !l.prev),
        i > 0 ==> l.edge_at(samples, i) == (samples[i] && !samples[i - 1]),
{
    let before = samples.take(i);
    if i > 0 {
        assert(before.last() == samples[i - 1]);
        assert(l.run(before) == l.run(before.drop_last()).spec_set(before.last()).spec_tick());
    } else {
        assert(before.len() == 0);
    }
}

/// While a button is held over two ticks in a row, the second of them
/// reports no edge; and a button that is up reports none.
pub proof fn lemma_no_edge_while_held(l: Latch, samples: Seq<bool>, i: int)
    requires
        0 <= i < samples.len(),
    ensures
        i > 0 && samples[i - 1] ==> !l.edge_at(samples, i),
        !samples[i] ==> !l.edge_at(samples, i),
{
    lemma_edge_at(l, samples, i);
}

} // verus!
