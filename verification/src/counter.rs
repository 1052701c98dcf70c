//! The shared counter behind the two buttons of the window.
//!
//! The window shows an increase button and a decrease button over one
//! counter.  A click on either button is an event; the counter is the only
//! state; the reaction to an event is a label update for the *other* button,
//! showing the new count.  The shell that owns the widgets performs the
//! update; the decisions live here.

use vstd::prelude::*;

verus! {

/// A click on one of the two buttons.
pub enum CounterEvent {
    /// The increase button was clicked.
    Increase,
    /// The decrease button was clicked.
    Decrease,
}

/// Which button's label is to be rewritten.
pub enum LabelTarget {
    /// The label of the increase button.
    IncreaseButton,
    /// The label of the decrease button.
    DecreaseButton,
}

/// The reaction to a click: write the given count on the given button.
pub struct LabelUpdate {
    pub target: LabelTarget,
    pub count: i32,
}

/// The one piece of state the two buttons share.
pub struct Counter {
    pub count: i32,
}

impl Counter {
    /// A fresh counter, showing zero.
    pub fn new() -> (c: Counter)
        ensures
            c.count == 0,
    {
        Counter { count: 0 }
    }

    /// React to one click: an increase raises the count by one and rewrites
    /// the decrease button's label; a decrease lowers it by one and rewrites
    /// the increase button's label.  Either way the update shows the new
    /// count.
    pub fn step(&mut self, event: CounterEvent) -> (update: LabelUpdate)
        requires
            old(self).count != i32::MAX || !(event is Increase),
            old(self).count != i32::MIN || !(event is Decrease),
        ensures
            event is Increase ==> final(self).count == old(self).count + 1 && update.target
                is DecreaseButton,
            event is Decrease ==> final(self).count == old(self).count - 1 && update.target
                is IncreaseButton,
            update.count == final(self).count,
    {
        match event {
            CounterEvent::Increase => {
                self.count = self.count + 1;
                LabelUpdate { target: LabelTarget::DecreaseButton, count: self.count }
            },
            CounterEvent::Decrease => {
                self.count = self.count - 1;
                LabelUpdate { target: LabelTarget::IncreaseButton, count: self.count }
            },
        }
    }
}

} // verus!
