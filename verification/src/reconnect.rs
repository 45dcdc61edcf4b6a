//! The reconnection driver of a client.
//!
//! When the stream of a client is lost, the caller's strategy is asked for
//! a new one, with the number of streams that were lost in a row before
//! this one. The count starts over once a packet has arrived on a new
//! stream. The driver sets no bound on the attempts: that is the
//! strategy's to decide.

use vstd::prelude::*;

verus! {

/// What to do about a lost stream.
#[derive(Debug, Clone, Copy, PartialEq, Eq, Structural)]
pub enum Recovery {
    /// Ask the strategy for a new stream, with this attempt count.
    Connect(usize),
    /// There is no strategy: the connection has ended.
    GiveUp,
}

/// The reconnection driver.
#[derive(Debug, Clone, Copy)]
pub struct Reconnect {
    enabled: bool,
    lost: usize,
}

/// The driver as a mathematical value: whether there is a strategy, and how
/// many streams were lost in a row.
pub struct ReconnectView {
    pub enabled: bool,
    pub lost: nat,
}

impl ReconnectView {
    /// What the driver asks for when a stream is lost. The count stays at
    /// the largest number that the machine can hold.
    pub open spec fn recovery(self) -> Recovery {
        if self.enabled {
            Recovery::Connect(self.lost as usize)
        } else {
            Recovery::GiveUp
        }
    }

    /// The driver after a stream was lost.
    pub open spec fn after_loss(self) -> ReconnectView {
        if self.enabled && self.lost < usize::MAX {
            ReconnectView { lost: self.lost + 1, ..self }
        } else {
            self
        }
    }

    /// The driver after `n` streams were lost in a row.
    pub open spec fn after_losses(self, n: nat) -> ReconnectView
        decreases n,
    {
        if n == 0 {
            self
        } else {
            self.after_losses((n - 1) as nat).after_loss()
        }
    }

    /// The driver after a packet has arrived.
    pub open spec fn after_progress(self) -> ReconnectView {
        ReconnectView { lost: 0, ..self }
    }
}

impl View for Reconnect {
    type V = ReconnectView;

    closed spec fn view(&self) -> ReconnectView {
        ReconnectView { enabled: self.enabled, lost: self.lost as nat }
    }
}

impl Reconnect {
    /// A driver for a client with a strategy (`enabled`) or without one.
    pub fn new(enabled: bool) -> (driver: Reconnect)
        ensures
            driver@ == (ReconnectView { enabled, lost: 0 }),
    {
        Reconnect { enabled, lost: 0 }
    }

    /// Whether there is a strategy.
    pub fn enabled(&self) -> (enabled: bool)
        ensures
            enabled == self@.enabled,
    {
        self.enabled
    }

    /// The number of streams lost in a row.
    pub fn lost(&self) -> (lost: usize)
        ensures
            lost == self@.lost,
    {
        self.lost
    }

    /// The stream was lost.
    pub fn on_lost(&mut self) -> (recovery: Recovery)
        ensures
            recovery == old(self)@.recovery(),
            final(self)@ == old(self)@.after_loss(),
    {
        if self.enabled {
            let attempt = self.lost;
            if self.lost < usize::MAX {
                self.lost = self.lost + 1;
            }
            Recovery::Connect(attempt)
        } else {
            Recovery::GiveUp
        }
    }

    /// A packet has arrived: the stream works.
    pub fn on_progress(&mut self)
        ensures
            final(self)@ == old(self)@.after_progress(),
    {
        self.lost = 0;
    }
}

/// While stream after stream is lost, the attempt counts that the strategy
/// sees go up by one each time, from zero for the first loss after a packet
/// arrived: the loss that follows `n` others asks for attempt `n`.
pub proof fn lemma_attempts_count_up(v: ReconnectView, n: nat)
    requires
        v.enabled,
        n <= usize::MAX,
    ensures
        v.after_progress().after_losses(n).recovery() == Recovery::Connect(n as usize),
        v.after_progress().after_losses(n).lost == n,
    decreases n,
{
    if n > 0 {
        lemma_attempts_count_up(v, (n - 1) as nat);
    }
}

/// Without a strategy every loss ends the connection.
pub proof fn lemma_no_strategy_gives_up(v: ReconnectView, n: nat)
    requires
        !v.enabled,
    ensures
        v.after_losses(n) == v,
        v.after_losses(n).recovery() == Recovery::GiveUp,
    decreases n,
{
    if n > 0 {
        lemma_no_strategy_gives_up(v, (n - 1) as nat);
    }
}

} // verus!
