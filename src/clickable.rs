//! Click signals: widgets push one signal per click, and the application
//! drains them when it polls.
use vstd::prelude::*;

verus! {

/// The number of pending signals after one more is pushed onto `n`.
pub open spec fn one_more(n: nat) -> nat {
    if n < u64::MAX {
        n + 1
    } else {
        n
    }
}

/// What `a` and `b` pending signals make together.
pub open spec fn joined(a: nat, b: nat) -> nat {
    if a + b <= u64::MAX {
        a + b
    } else {
        u64::MAX as nat
    }
}

/// Implemented by every channel that reports left clicks.
pub trait Clickable {
    /// The clicks received and not yet reported.
    spec fn pending(&self) -> nat;

    /// Whether a click came in since the last call; it consumes them all.
    fn has_clicked(&mut self) -> (r: bool)
        ensures
            r == (old(self).pending() > 0),
            final(self).pending() == 0,
    ;
}

/// The application's end of a click channel: it holds the signals handed
/// over from the widget and reports them once.
pub struct BasicClickable {
    pending: u64,
}

/// The widget's end of a click channel: it keeps each click as a signal
/// until they are handed over to a `BasicClickable`.
pub struct ClickSetter {
    pending: u64,
}

impl View for BasicClickable {
    type V = nat;

    closed spec fn view(&self) -> nat {
        self.pending as nat
    }
}

impl View for ClickSetter {
    type V = nat;

    closed spec fn view(&self) -> nat {
        self.pending as nat
    }
}

impl Clickable for BasicClickable {
    open spec fn pending(&self) -> nat {
        self@
    }

    fn has_clicked(&mut self) -> (r: bool) {
        let r = self.pending > 0;
        self.pending = 0;
        r
    }
}

impl BasicClickable {
    /// Both ends of a fresh channel, with no signal in it.
    pub fn new() -> (r: (Self, ClickSetter))
        ensures
            r.0@ == 0,
            r.1@ == 0,
            r.1 == ClickSetter::spec_fresh(),
    {
        (BasicClickable { pending: 0 }, ClickSetter { pending: 0 })
    }

    /// A channel never holds more signals than a `u64` counts.
    pub proof fn lemma_bound(&self)
        ensures
            self@ <= u64::MAX,
    {
    }

    /// Returns true if the widget was clicked since the last call.
    pub fn has_clicked(&mut self) -> (r: bool)
        ensures
            r == (old(self)@ > 0),
            final(self)@ == 0,
    {
        <Self as Clickable>::has_clicked(self)
    }

    /// Takes over every signal that `from` holds.
    pub fn receive(&mut self, from: &mut ClickSetter)
        ensures
            final(self)@ == joined(old(self)@, old(from)@),
            final(from)@ == 0,
            *final(from) == ClickSetter::spec_fresh(),
    {
        let room = u64::MAX - self.pending;
        if from.pending <= room {
            self.pending = self.pending + from.pending;
        } else {
            self.pending = u64::MAX;
        }
        from.pending = 0;
    }
}

impl ClickSetter {
    /// A setter that holds no signal.
    pub closed spec fn spec_fresh() -> ClickSetter {
        ClickSetter { pending: 0 }
    }

    /// This setter after one more click.
    pub closed spec fn after_click(self) -> ClickSetter {
        ClickSetter { pending: one_more(self.pending as nat) as u64 }
    }

    /// What the spec functions above hold, seen through the view.
    pub proof fn lemma_views(self)
        ensures
            Self::spec_fresh()@ == 0,
            self.after_click()@ == one_more(self@),
    {
    }

    /// A setter with no signal in it.
    pub fn fresh() -> (r: ClickSetter)
        ensures
            r == Self::spec_fresh(),
    {
        ClickSetter { pending: 0 }
    }

    /// Records one click.
    pub fn clicked(&mut self)
        ensures
            final(self)@ == one_more(old(self)@),
            *final(self) == old(self).after_click(),
    {
        if self.pending < u64::MAX {
            self.pending = self.pending + 1;
        }
    }
}

} // verus!
