//! The configuration of a changes trie and the digest schedule that follows
//! from it.

use crate::number::BlockNumber;
use crate::power::{
    checked_pow, lemma_divides_transitive, lemma_pow_divides, lemma_pow_next, lemma_round_up,
};
use vstd::arithmetic::div_mod::lemma_fundamental_div_mod;
use vstd::arithmetic::power::{
    lemma_pow0, lemma_pow1, lemma_pow_increases, lemma_pow_positive, pow,
};
use vstd::prelude::*;

verus! {

/// The largest exponent, not above `levels`, at which the power of `interval`
/// still fits in a `u32`.
pub open spec fn clamped_levels(interval: int, levels: nat) -> nat
    decreases levels,
{
    if levels == 0 || pow(interval, levels) <= u32::MAX {
        levels
    } else {
        clamped_levels(interval, (levels - 1) as nat)
    }
}

/// What [`clamped_levels`] picks: an exponent that fits, and the last one that
/// does unless all of them do.
pub proof fn lemma_clamped_levels(interval: int, levels: nat)
    ensures
        clamped_levels(interval, levels) <= levels,
        pow(interval, clamped_levels(interval, levels)) <= u32::MAX,
        clamped_levels(interval, levels) == levels || pow(
            interval,
            clamped_levels(interval, levels) + 1,
        ) > u32::MAX,
        levels >= 1 && interval <= u32::MAX ==> clamped_levels(interval, levels) >= 1,
    decreases levels,
{
    lemma_pow0(interval);
    lemma_pow1(interval);
    if !(levels == 0 || pow(interval, levels) <= u32::MAX) {
        lemma_clamped_levels(interval, (levels - 1) as nat);
    }
}

/// Changes trie configuration: how often digests are built, and how many
/// levels of them.
#[derive(Debug, Clone, Copy, PartialEq, Eq, Structural)]
pub struct ChangesTrieConfiguration {
    /// Interval (in blocks) at which level-1 digests are created. Digests are
    /// not created when this is less or equal to 1.
    pub digest_interval: u32,
    /// Maximal number of digest levels in the hierarchy. 0 means that digests
    /// are not created at all (even level-1 digests). 1 means that only
    /// level-1 digests are created. 2 means that every `digest_interval^2`
    /// blocks there is a level-2 digest, and so on. Where
    /// `digest_interval^digest_levels` does not fit in a `u32`, the levels that
    /// do not fit are never reached.
    pub digest_levels: u32,
}

impl Default for ChangesTrieConfiguration {
    /// The configuration with both fields zero, which builds no digests.
    fn default() -> (r: Self)
        ensures
            r.digest_interval == 0,
            r.digest_levels == 0,
    {
        ChangesTrieConfiguration { digest_interval: 0, digest_levels: 0 }
    }
}

impl ChangesTrieConfiguration {
    /// Whether digests are built at all: the interval is above 1 and there is
    /// at least one level.
    pub open spec fn spec_is_digest_build_enabled(&self) -> bool {
        self.digest_interval > 1 && self.digest_levels > 0
    }

    /// The number of blocks that one digest of the highest level covers:
    /// `digest_interval` to the power of the highest level that fits in a
    /// `u32`, and 1 where digests are not built.
    pub open spec fn spec_max_digest_interval(&self) -> int {
        if self.spec_is_digest_build_enabled() {
            pow(
                self.digest_interval as int,
                clamped_levels(self.digest_interval as int, self.digest_levels as nat),
            )
        } else {
            1
        }
    }

    /// Whether a digest of some level is built at `block`, counted from `zero`:
    /// digests are built at all, `block` lies after `zero`, and the distance
    /// between the two is a multiple of the digest interval.
    pub open spec fn spec_is_digest_build_required_at_block(&self, zero: int, block: int) -> bool {
        &&& block > zero
        &&& self.spec_is_digest_build_enabled()
        &&& (block - zero) % (self.digest_interval as int) == 0
    }

    /// Whether a digest of the given level ends `offset` blocks after zero:
    /// the level is one of the configured ones, its interval
    /// `digest_interval^level` fits in a `u32`, and `offset` is a multiple of
    /// that interval.
    pub open spec fn is_digest_level(&self, offset: int, level: nat) -> bool {
        &&& 1 <= level <= self.digest_levels
        &&& pow(self.digest_interval as int, level) <= u32::MAX
        &&& offset % pow(self.digest_interval as int, level) == 0
    }

    /// The range of blocks, both ends included, that the next digest of the
    /// highest level covers: the one that ends at `block` or, failing that,
    /// the first one that ends after it. A `block` at or before `zero` is taken
    /// for the first block after `zero`. The range ends at the first multiple
    /// of the max digest interval, counted from `zero`, that `block` does not
    /// lie after.
    pub open spec fn spec_next_max_level_digest_range(&self, zero: int, block: int) -> (int, int) {
        let interval = self.spec_max_digest_interval();
        let block = if block <= zero {
            zero + 1
        } else {
            block
        };
        let end = zero + ((block - zero - 1) / interval + 1) * interval;
        (end - interval + 1, end)
    }

    /// The last block, not after `block`, at which a digest of the highest
    /// level ends: the last multiple of the max digest interval, counted from
    /// `zero`, that does not lie after `block`, where digests are built and one
    /// such multiple lies after `zero`.
    pub open spec fn spec_prev_max_level_digest_block(&self, zero: int, block: int) -> Option<
        int,
    > {
        let interval = self.spec_max_digest_interval();
        if self.spec_is_digest_build_enabled() && block - zero >= interval {
            Some(zero + ((block - zero) / interval) * interval)
        } else {
            None
        }
    }

    /// The max digest interval is positive and fits in a `u32`.
    pub proof fn lemma_max_digest_interval_bounds(&self)
        ensures
            1 <= self.spec_max_digest_interval() <= u32::MAX,
    {
        if self.spec_is_digest_build_enabled() {
            lemma_clamped_levels(self.digest_interval as int, self.digest_levels as nat);
            lemma_pow_positive(
                self.digest_interval as int,
                clamped_levels(self.digest_interval as int, self.digest_levels as nat),
            );
        }
    }

    /// Create new configuration given digest interval and levels.
    pub fn new(digest_interval: u32, digest_levels: u32) -> (r: Self)
        ensures
            r.digest_interval == digest_interval,
            r.digest_levels == digest_levels,
    {
        Self { digest_interval, digest_levels }
    }

    /// Is digest build enabled?
    #[verifier::when_used_as_spec(spec_is_digest_build_enabled)]
    pub fn is_digest_build_enabled(&self) -> (r: bool)
        ensures
            r == self.spec_is_digest_build_enabled(),
    {
        self.digest_interval > 1 && self.digest_levels > 0
    }

    /// Do we need to build digest at given block?
    ///
    /// The block `zero` itself never needs one, nor does any block before it.
    pub fn is_digest_build_required_at_block<N: BlockNumber>(&self, zero: N, block: N) -> (r: bool)
        ensures
            r == self.spec_is_digest_build_required_at_block(zero.value(), block.value()),
    {
        zero.less_than(&block) && self.is_digest_build_enabled() && block.minus(zero).remainder(
            N::from_u32(self.digest_interval),
        ).is_zero()
    }

    /// Returns max digest interval. One if digests are not created at all.
    pub fn max_digest_interval(&self) -> (r: u32)
        ensures
            r == self.spec_max_digest_interval(),
    {
        if !self.is_digest_build_enabled() {
            return 1;
        }
        // more than one iteration only where the configured levels do not fit
        let mut current_level = self.digest_levels;
        loop
            invariant
                self.is_digest_build_enabled(),
                current_level <= self.digest_levels,
                clamped_levels(self.digest_interval as int, current_level as nat)
                    == clamped_levels(self.digest_interval as int, self.digest_levels as nat),
            decreases current_level,
        {
            if let Some(max_digest_interval) = checked_pow(self.digest_interval, current_level) {
                return max_digest_interval;
            }
            proof {
                lemma_pow0(self.digest_interval as int);
            }
            current_level = current_level - 1;
        }
    }

    /// The last block at or before `block` at which a digest of the highest
    /// level ends, or `zero` where no such digest has ended yet.
    fn last_max_level_digest_block<N: BlockNumber>(&self, zero: N, block: N) -> (r: N)
        requires
            self.is_digest_build_enabled(),
            zero.value() < block.value(),
        ensures
            r.value() == zero.value() + ((block.value() - zero.value())
                / self.spec_max_digest_interval()) * self.spec_max_digest_interval(),
            zero.value() <= r.value() <= block.value(),
    {
        proof {
            self.lemma_max_digest_interval_bounds();
            lemma_round_up(block.value() - zero.value(), self.spec_max_digest_interval());
            zero.value_in_range();
            block.value_in_range();
        }
        let max_digest_interval = N::from_u32(self.max_digest_interval());
        let max_digests_since_zero = block.minus(zero).quotient(max_digest_interval);
        let blocks_since_zero = max_digests_since_zero.checked_times(max_digest_interval).unwrap();
        zero.checked_plus(blocks_since_zero).unwrap()
    }

    /// Returns max level digest block number that has been created at block <=
    /// passed block number.
    ///
    /// Returns `None` if digests are not created at all, or if none of the
    /// highest level has been created yet.
    pub fn prev_max_level_digest_block<N: BlockNumber>(&self, zero: N, block: N) -> (r: Option<N>)
        ensures
            match r {
                Some(prev) => self.spec_prev_max_level_digest_block(zero.value(), block.value())
                    == Some(prev.value()),
                None => self.spec_prev_max_level_digest_block(zero.value(), block.value()) is None,
            },
    {
        proof {
            self.lemma_max_digest_interval_bounds();
        }
        if !zero.less_than(&block) || !self.is_digest_build_enabled() {
            return None;
        }
        proof {
            lemma_round_up(block.value() - zero.value(), self.spec_max_digest_interval());
        }
        let last_max_digest_block = self.last_max_level_digest_block(zero, block);
        // a digest that ends at zero block is no digest
        if last_max_digest_block.equals(&zero) {
            None
        } else {
            Some(last_max_digest_block)
        }
    }

    /// Returns max level digest blocks range (inclusive) which includes passed
    /// block.
    ///
    /// Returns `None` if digests are not created at all, or if the range ends
    /// after the last block that `N` can number.
    /// It will return the first max-level digest if block is <= zero.
    pub fn next_max_level_digest_range<N: BlockNumber>(&self, zero: N, block: N) -> (r: Option<
        (N, N),
    >)
        ensures
            r is Some <==> self.is_digest_build_enabled()
                && self.spec_next_max_level_digest_range(zero.value(), block.value()).1
                <= N::limit(),
            r matches Some((start, end)) ==> {
                &&& (start.value(), end.value()) == self.spec_next_max_level_digest_range(
                    zero.value(),
                    block.value(),
                )
                &&& start.value() <= end.value()
                &&& end.value() - start.value() + 1 == self.spec_max_digest_interval()
            },
    {
        if !self.is_digest_build_enabled() {
            return None;
        }
        let ghost interval = self.spec_max_digest_interval();
        let ghost offset = if block.value() <= zero.value() {
            1
        } else {
            block.value() - zero.value()
        };
        proof {
            self.lemma_max_digest_interval_bounds();
            zero.value_in_range();
            block.value_in_range();
            lemma_round_up(offset, interval);
        }
        let one = N::from_u32(1);
        let first = match zero.checked_plus(one) {
            Some(first) => first,
            None => return None,
        };
        let block = if zero.less_than(&block) {
            block
        } else {
            first
        };
        let max_digest_interval = N::from_u32(self.max_digest_interval());
        let last_max_digest_block = self.last_max_level_digest_block(zero, block);
        if last_max_digest_block.equals(&zero) {
            return match zero.checked_plus(max_digest_interval) {
                Some(end) => Some((first, end)),
                None => None,
            };
        }
        if block.equals(&last_max_digest_block) {
            let start = block.minus(max_digest_interval).checked_plus(one).unwrap();
            Some((start, block))
        } else {
            match last_max_digest_block.checked_plus(max_digest_interval) {
                Some(end) => Some((last_max_digest_block.checked_plus(one).unwrap(), end)),
                None => None,
            }
        }
    }

    /// Returns `Some` if a digest must be built at the given block number.
    /// The tuple is:
    /// (
    ///  digest level
    ///  digest interval (in blocks)
    ///  step between blocks we're interested in when digest is built
    /// )
    ///
    /// The level is the highest one whose digests end at `block`. The interval
    /// is `digest_interval^level`, the step `digest_interval^(level - 1)`.
    pub fn digest_level_at_block<N: BlockNumber>(&self, zero: N, block: N) -> (r: Option<
        (u32, u32, u32),
    >)
        ensures
            r is Some <==> self.spec_is_digest_build_required_at_block(
                zero.value(),
                block.value(),
            ),
            r matches Some((level, interval, step)) ==> {
                &&& self.is_digest_level(block.value() - zero.value(), level as nat)
                &&& forall|other: nat| #[trigger]
                    self.is_digest_level(block.value() - zero.value(), other) ==> other <= level
                &&& interval == pow(self.digest_interval as int, level as nat)
                &&& step == pow(self.digest_interval as int, (level - 1) as nat)
                &&& exists|k: int|
                    k > 0 && block.value() == zero.value() + #[trigger] (k * interval)
            },
    {
        if !self.is_digest_build_required_at_block(zero, block) {
            return None;
        }
        let relative_block = block.minus(zero);
        let mut digest_interval = self.digest_interval;
        let mut current_level = 1u32;
        let mut digest_step = 1u32;
        let ghost base = self.digest_interval as int;
        let ghost offset = relative_block.value();
        proof {
            lemma_pow0(base);
            lemma_pow1(base);
        }
        while current_level < self.digest_levels
            invariant
                base == self.digest_interval > 1,
                offset == relative_block.value() > 0,
                1 <= current_level <= self.digest_levels,
                digest_interval == pow(base, current_level as nat) > 0,
                digest_step == pow(base, (current_level - 1) as nat),
                offset % (digest_interval as int) == 0,
            ensures
                current_level == self.digest_levels || pow(base, (current_level + 1) as nat)
                    > u32::MAX || offset % pow(base, (current_level + 1) as nat) != 0,
            decreases self.digest_levels - current_level,
        {
            proof {
                lemma_pow_next(base, current_level as nat);
            }
            let new_digest_interval = match digest_interval.checked_mul(self.digest_interval) {
                Some(new_digest_interval) => new_digest_interval,
                None => break ,
            };
            assert(new_digest_interval > 0) by (nonlinear_arith)
                requires
                    new_digest_interval == digest_interval * base,
                    digest_interval > 0,
                    base > 1,
            ;
            if !relative_block.remainder(N::from_u32(new_digest_interval)).is_zero() {
                break ;
            }
            digest_step = digest_interval;
            digest_interval = new_digest_interval;
            current_level = current_level + 1;
        }
        proof {
            let level = current_level as nat;
            assert forall|other: nat| #[trigger] self.is_digest_level(offset, other) implies other
                <= level by {
                if other > level {
                    lemma_pow_increases(base as nat, level + 1, other);
                    lemma_pow_divides(base, level + 1, other);
                    lemma_divides_transitive(pow(base, level + 1), pow(base, other), offset);
                }
            }
            let k = offset / (digest_interval as int);
            lemma_fundamental_div_mod(offset, digest_interval as int);
            assert(k > 0 && offset == k * digest_interval) by (nonlinear_arith)
                requires
                    offset == digest_interval * k,
                    offset > 0,
                    digest_interval > 0,
            ;
            assert(block.value() == zero.value() + k * digest_interval);
        }
        Some((current_level, digest_interval, digest_step))
    }
}

} // verus!
