//! What a perft run reports: the nodes counted, the time taken, and the
//! throughput on a scale that people read.

use vstd::prelude::*;
use crate::contest::clock::{elapsed_nanos, now};
use crate::model::game::Game;
use crate::model::state::GwState;
use crate::perft::counting::{perft, perft_count, wrapped};

verus! {

/// The thousands by which a rate is scaled.
#[derive(Debug, Clone, Copy, PartialEq, Eq, Structural)]
pub enum Magnitude {
    Unit,
    Kilo,
    Mega,
    Giga,
    Tera,
    Peta,
    Exa,
}

impl Magnitude {
    /// What one of the magnitude is worth: 1, 1000, 1000000, ...
    pub open spec fn spec_factor(self) -> u64 {
        match self {
            Magnitude::Unit => 1,
            Magnitude::Kilo => 1_000,
            Magnitude::Mega => 1_000_000,
            Magnitude::Giga => 1_000_000_000,
            Magnitude::Tera => 1_000_000_000_000,
            Magnitude::Peta => 1_000_000_000_000_000,
            Magnitude::Exa => 1_000_000_000_000_000_000,
        }
    }

    /// Returns what one of the magnitude is worth.
    pub fn factor(&self) -> (f: u64)
        ensures
            f == self.spec_factor(),
    {
        match self {
            Magnitude::Unit => 1,
            Magnitude::Kilo => 1_000,
            Magnitude::Mega => 1_000_000,
            Magnitude::Giga => 1_000_000_000,
            Magnitude::Tera => 1_000_000_000_000,
            Magnitude::Peta => 1_000_000_000_000_000,
            Magnitude::Exa => 1_000_000_000_000_000_000,
        }
    }

    /// Returns the letter of the magnitude: none for units, then K, M, G, T,
    /// P and E.
    pub fn symbol(&self) -> (s: &'static str)
        ensures
            s@ == (match self {
                Magnitude::Unit => ""@,
                Magnitude::Kilo => "K"@,
                Magnitude::Mega => "M"@,
                Magnitude::Giga => "G"@,
                Magnitude::Tera => "T"@,
                Magnitude::Peta => "P"@,
                Magnitude::Exa => "E"@,
            }),
    {
        match self {
            Magnitude::Unit => "",
            Magnitude::Kilo => "K",
            Magnitude::Mega => "M",
            Magnitude::Giga => "G",
            Magnitude::Tera => "T",
            Magnitude::Peta => "P",
            Magnitude::Exa => "E",
        }
    }
}

/// The magnitude on which a rate reads as a number under a thousand: the
/// highest that the rate reaches.
pub open spec fn magnitude_of(rate: u64) -> Magnitude {
    if rate < 1_000 {
        Magnitude::Unit
    } else if rate < 1_000_000 {
        Magnitude::Kilo
    } else if rate < 1_000_000_000 {
        Magnitude::Mega
    } else if rate < 1_000_000_000_000 {
        Magnitude::Giga
    } else if rate < 1_000_000_000_000_000 {
        Magnitude::Tera
    } else if rate < 1_000_000_000_000_000_000 {
        Magnitude::Peta
    } else {
        Magnitude::Exa
    }
}

/// A rate on the scale of its magnitude, to three places.
#[derive(Debug, Clone, Copy, PartialEq, Eq, Structural)]
pub struct Throughput {
    pub whole: u64,
    pub thousandths: u64,
    pub magnitude: Magnitude,
}

/// Scales a rate to its magnitude: the whole part is under a thousand, and
/// the thousandths are cut off, not rounded.
pub fn scale(rate: u64) -> (t: Throughput)
    ensures
        t.magnitude == magnitude_of(rate),
        t.whole == rate / t.magnitude.spec_factor(),
        t.thousandths == (rate % t.magnitude.spec_factor()) * 1000 / (t.magnitude.spec_factor() as int),
        t.whole < 1000,
        t.thousandths < 1000,
{
    let magnitude = if rate < 1_000 {
        Magnitude::Unit
    } else if rate < 1_000_000 {
        Magnitude::Kilo
    } else if rate < 1_000_000_000 {
        Magnitude::Mega
    } else if rate < 1_000_000_000_000 {
        Magnitude::Giga
    } else if rate < 1_000_000_000_000_000 {
        Magnitude::Tera
    } else if rate < 1_000_000_000_000_000_000 {
        Magnitude::Peta
    } else {
        Magnitude::Exa
    };
    let factor = magnitude.factor();
    let whole = rate / factor;
    let rest: u128 = (rate % factor) as u128;
    let thousandths = (rest * 1000 / (factor as u128)) as u64;
    Throughput { whole, thousandths, magnitude }
}

/// The nodes that pass in a second where `nodes` pass in `nanos`
/// nanoseconds, rounded down; the highest rate where no time passed or the
/// rate does not fit.
pub open spec fn rate_of(nodes: u64, nanos: u128) -> u64 {
    if nanos == 0 || nodes * 1_000_000_000 / (nanos as int) > u64::MAX {
        u64::MAX
    } else {
        (nodes * 1_000_000_000 / (nanos as int)) as u64
    }
}

/// What a perft run found: the nodes counted, and the nanoseconds taken.
#[derive(Debug, Clone, Copy, PartialEq, Eq, Structural)]
pub struct PerftResult {
    pub nodes: u64,
    pub nanos: u128,
}

impl PerftResult {
    /// Returns the nodes counted.
    pub fn nodes(&self) -> (nodes: u64)
        ensures
            nodes == self.nodes,
    {
        self.nodes
    }

    /// Returns the nanoseconds taken.
    pub fn nanos(&self) -> (nanos: u128)
        ensures
            nanos == self.nanos,
    {
        self.nanos
    }

    /// Returns the nodes counted per second.
    pub fn nps(&self) -> (rate: u64)
        ensures
            rate == rate_of(self.nodes, self.nanos),
    {
        if self.nanos == 0 {
            return u64::MAX;
        }
        let rate: u128 = (self.nodes as u128) * 1_000_000_000 / self.nanos;
        if rate > u64::MAX as u128 {
            u64::MAX
        } else {
            rate as u64
        }
    }

    /// Returns the nodes counted per second, scaled to their magnitude.
    pub fn throughput(&self) -> (t: Throughput)
        ensures
            t.magnitude == magnitude_of(rate_of(self.nodes, self.nanos)),
            t.whole == rate_of(self.nodes, self.nanos) / t.magnitude.spec_factor(),
            t.thousandths == (rate_of(self.nodes, self.nanos) % t.magnitude.spec_factor()) * 1000 / (
            t.magnitude.spec_factor() as int),
            t.whole < 1000,
            t.thousandths < 1000,
    {
        scale(self.nps())
    }
}

/// Counts the nodes of `state` at `depth` as `perft` does, and measures the
/// time that the count takes.
pub fn perft_timed<G: Game>(state: &G::State, depth: u32) -> (result: PerftResult) where
    G::State: GwState<G>,

    ensures
        result.nodes == wrapped(perft_count::<G>(*state, depth as nat)),
{
    let start = now();
    let nodes = perft::<G>(state, depth);
    let nanos = elapsed_nanos(&start);
    PerftResult { nodes, nanos }
}

} // verus!
