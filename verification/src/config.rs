//! Connection configuration and the live-config channel.

use std::time::Duration;
use vstd::prelude::*;

verus! {

/// The settings of one connection: how long a read may stay idle and how
/// large the body of an inbound packet may be.
#[derive(Clone, Copy, Debug)]
pub struct Config {
    pub timeout: Duration,
    pub body_limit: u32,
}

/// The writing side of the live-config channel: a single slot that always
/// holds the latest configuration.
///
/// An update overwrites the slot whether or not anybody reads it; a read
/// returns the latest value and never an older one. The version changes
/// with every update, so that a reader can tell whether the slot changed
/// since it last looked.
#[derive(Debug, Clone)]
pub struct Configurator<C> {
    inner: C,
    version: u64,
}

/// The version after `version`.
pub open spec fn next_version(version: u64) -> u64 {
    if version == u64::MAX {
        0
    } else {
        (version + 1) as u64
    }
}

impl<C> Configurator<C> {
    /// The value that the slot holds.
    pub closed spec fn view(&self) -> C {
        self.inner
    }

    /// The number of updates that the slot has seen, starting over at zero
    /// after `u64::MAX`.
    pub closed spec fn spec_version(&self) -> u64 {
        self.version
    }

    /// A slot that holds `inner` and has seen no update.
    pub fn new(inner: C) -> (cfg: Self)
        ensures
            cfg@ == inner,
            cfg.spec_version() == 0,
    {
        Self { inner, version: 0 }
    }

    /// Replaces the current value. It is possible that nobody reads it.
    pub fn update(&mut self, cfg: C)
        ensures
            final(self)@ == cfg,
            final(self).spec_version() == next_version(old(self).spec_version()),
    {
        self.inner = cfg;
        self.version = if self.version == u64::MAX {
            0
        } else {
            self.version + 1
        };
    }

    /// A copy of the latest value.
    pub fn read(&self) -> (cfg: C) where C: Clone
        ensures
            cloned(self@, cfg),
    {
        self.inner.clone()
    }

    /// The version of the slot.
    #[verifier::when_used_as_spec(spec_version)]
    pub fn version(&self) -> (v: u64)
        ensures
            v == self.spec_version(),
    {
        self.version
    }
}

/// A reading side of the live-config channel. It remembers the version it
/// has seen, and so finds out whether the slot has changed.
#[derive(Debug, Clone, Copy)]
pub struct Watcher {
    seen: u64,
}

impl View for Watcher {
    type V = u64;

    /// The version that the reader has seen.
    closed spec fn view(&self) -> u64 {
        self.seen
    }
}

impl Watcher {
    /// A reader that has seen the slot as it is now.
    pub fn new<C>(slot: &Configurator<C>) -> (watcher: Watcher)
        ensures
            watcher@ == slot.spec_version(),
    {
        Watcher { seen: slot.version() }
    }

    /// Whether the slot has changed since this reader last looked.
    pub fn has_changed<C>(&self, slot: &Configurator<C>) -> (changed: bool)
        ensures
            changed == (self@ != slot.spec_version()),
    {
        self.seen != slot.version()
    }

    /// Looks at the slot: where it has changed since this reader last
    /// looked, a copy of the latest value, whatever was in the slot in
    /// between; else nothing.
    pub fn changed<C: Clone>(&mut self, slot: &Configurator<C>) -> (latest: Option<C>)
        ensures
            final(self)@ == slot.spec_version(),
            match latest {
                Some(cfg) => old(self)@ != slot.spec_version() && cloned(slot@, cfg),
                None => old(self)@ == slot.spec_version(),
            },
    {
        if self.seen != slot.version() {
            self.seen = slot.version();
            Some(slot.read())
        } else {
            None
        }
    }
}

} // verus!
