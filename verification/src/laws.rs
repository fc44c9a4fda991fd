//! What holds of the digest schedule as a whole: how the answers of
//! [`ChangesTrieConfiguration`] to different questions agree with each other.

use crate::changes_trie::{clamped_levels, lemma_clamped_levels, ChangesTrieConfiguration};
use crate::power::{lemma_divides_transitive, lemma_pow_divides, lemma_round_up};
use vstd::arithmetic::div_mod::{
    lemma_div_multiples_vanish, lemma_fundamental_div_mod, lemma_fundamental_div_mod_converse,
    lemma_mod_multiples_basic,
};
use vstd::arithmetic::power::{lemma0_pow, lemma_pow0, lemma_pow1, lemma_pow_increases, pow};
use vstd::prelude::*;

verus! {

impl ChangesTrieConfiguration {
    /// Digest levels nest: where a digest of some level ends, a digest of
    /// every lower level ends too.
    pub proof fn lemma_digest_levels_nest(&self, offset: int, level: nat, lower: nat)
        requires
            self.is_digest_level(offset, level),
            1 <= lower <= level,
        ensures
            self.is_digest_level(offset, lower),
    {
        let base = self.digest_interval as int;
        if base == 0 {
            lemma0_pow(lower);
            lemma0_pow(level);
        } else {
            lemma_pow_increases(base as nat, lower, level);
            lemma_pow_divides(base, lower, level);
            lemma_divides_transitive(pow(base, lower), pow(base, level), offset);
        }
    }

    /// Where digests are built, the max digest interval is the highest power
    /// of the digest interval that is within the configured levels and fits
    /// in a `u32`: it is such a power, and no other such power is higher.
    pub proof fn lemma_max_digest_interval_is_highest(&self, level: nat)
        requires
            self.is_digest_build_enabled(),
            level <= self.digest_levels,
            pow(self.digest_interval as int, level) <= u32::MAX,
        ensures
            1 <= clamped_levels(self.digest_interval as int, self.digest_levels as nat)
                <= self.digest_levels,
            level <= clamped_levels(self.digest_interval as int, self.digest_levels as nat),
            pow(self.digest_interval as int, level) <= self.spec_max_digest_interval()
                <= u32::MAX,
    {
        let base = self.digest_interval as int;
        let top = clamped_levels(base, self.digest_levels as nat);
        lemma_clamped_levels(base, self.digest_levels as nat);
        if level > top {
            lemma_pow_increases(base as nat, top + 1, level);
        }
        lemma_pow_increases(base as nat, level, top);
    }

    /// The next range of the highest level holds the block asked for (the
    /// first block after `zero`, where the block asked for is not after
    /// `zero`), has the length of the max digest interval, and ends a whole
    /// number of such intervals after `zero`.
    pub proof fn lemma_next_range_covers_block(&self, zero: int, block: int)
        ensures
            ({
                let (start, end) = self.spec_next_max_level_digest_range(zero, block);
                let queried = if block <= zero {
                    zero + 1
                } else {
                    block
                };
                &&& start <= queried <= end
                &&& end - start + 1 == self.spec_max_digest_interval()
                &&& (end - zero) % self.spec_max_digest_interval() == 0
            }),
    {
        let interval = self.spec_max_digest_interval();
        let offset = if block <= zero {
            1
        } else {
            block - zero
        };
        self.lemma_max_digest_interval_bounds();
        lemma_round_up(offset, interval);
        lemma_mod_multiples_basic((offset - 1) / interval + 1, interval);
        lemma_mod_multiples_basic(offset / interval, interval);
    }

    /// No other range does what [`lemma_next_range_covers_block`] says of the
    /// next range: a range that holds the block asked for, has the length of
    /// the max digest interval and ends a whole number of such intervals after
    /// `zero` is the next range.
    ///
    /// [`lemma_next_range_covers_block`]: ChangesTrieConfiguration::lemma_next_range_covers_block
    pub proof fn lemma_next_range_is_unique(&self, zero: int, block: int, start: int, end: int)
        requires
            start <= (if block <= zero {
                zero + 1
            } else {
                block
            }) <= end,
            end - start + 1 == self.spec_max_digest_interval(),
            (end - zero) % self.spec_max_digest_interval() == 0,
        ensures
            (start, end) == self.spec_next_max_level_digest_range(zero, block),
    {
        let interval = self.spec_max_digest_interval();
        let queried = if block <= zero {
            zero + 1
        } else {
            block
        };
        self.lemma_max_digest_interval_bounds();
        let spans = (end - zero) / interval;
        lemma_fundamental_div_mod(end - zero, interval);
        assert((spans - 1) * interval == interval * spans - interval && (spans - 1 + 1) * interval
            == interval * spans) by (nonlinear_arith);
        // queried - zero - 1 lies in the span before `end`
        lemma_fundamental_div_mod_converse(
            queried - zero - 1,
            interval,
            spans - 1,
            queried - start,
        );
    }

    /// A block that is not after `zero` is answered as the first block after
    /// `zero` is: with the first range of the highest level.
    pub proof fn lemma_next_range_before_zero(&self, zero: int, block: int)
        requires
            block <= zero,
        ensures
            self.spec_next_max_level_digest_range(zero, block)
                == self.spec_next_max_level_digest_range(zero, zero + 1),
            self.spec_next_max_level_digest_range(zero, block) == (
                zero + 1,
                zero + self.spec_max_digest_interval(),
            ),
    {
        self.lemma_max_digest_interval_bounds();
        lemma_round_up(1, self.spec_max_digest_interval());
    }

    /// The previous block of the highest level follows from the next range:
    /// where the range ends at `block`, it is `block` itself; else it is the
    /// block before the range, unless that is `zero`, where nothing was built.
    /// Blocks that are not after `zero` have none, and neither has any block
    /// where digests are not built.
    pub proof fn lemma_prev_block_from_next_range(&self, zero: int, block: int)
        ensures
            !self.is_digest_build_enabled() || block <= zero
                ==> self.spec_prev_max_level_digest_block(zero, block) is None,
            self.is_digest_build_enabled() && block > zero ==> ({
                let (next_begin, next_end) = self.spec_next_max_level_digest_range(zero, block);
                self.spec_prev_max_level_digest_block(zero, block) == if next_end == block {
                    Some(block)
                } else if next_begin - 1 == zero {
                    None
                } else {
                    Some(next_begin - 1)
                }
            }),
    {
        self.lemma_max_digest_interval_bounds();
        if block > zero {
            lemma_round_up(block - zero, self.spec_max_digest_interval());
        }
    }

    /// A previous block of the highest level lies after `zero`, not after the
    /// block asked for, and is its own previous block.
    pub proof fn lemma_prev_block_is_stable(&self, zero: int, block: int)
        requires
            self.spec_prev_max_level_digest_block(zero, block) is Some,
        ensures
            ({
                let prev = self.spec_prev_max_level_digest_block(zero, block)->0;
                &&& zero < prev <= block
                &&& self.spec_prev_max_level_digest_block(zero, prev) == Some(prev)
            }),
    {
        let interval = self.spec_max_digest_interval();
        let spans = (block - zero) / interval;
        self.lemma_max_digest_interval_bounds();
        lemma_round_up(block - zero, interval);
        lemma_div_multiples_vanish(spans, interval);
        assert(spans * interval == interval * spans && spans * interval >= interval)
            by (nonlinear_arith)
            requires
                spans * interval > 0,
                interval > 0,
        ;
    }

    /// At a previous block of the highest level a digest is required, and a
    /// digest of the highest level that fits ends there.
    pub proof fn lemma_prev_block_has_highest_level(&self, zero: int, block: int)
        requires
            self.spec_prev_max_level_digest_block(zero, block) is Some,
        ensures
            ({
                let prev = self.spec_prev_max_level_digest_block(zero, block)->0;
                let top = clamped_levels(self.digest_interval as int, self.digest_levels as nat);
                &&& self.spec_is_digest_build_required_at_block(zero, prev)
                &&& self.is_digest_level(prev - zero, top)
                &&& forall|level: nat| #[trigger]
                    self.is_digest_level(prev - zero, level) ==> level <= top
            }),
    {
        let interval = self.spec_max_digest_interval();
        let prev = self.spec_prev_max_level_digest_block(zero, block)->0;
        let top = clamped_levels(self.digest_interval as int, self.digest_levels as nat);
        self.lemma_max_digest_interval_bounds();
        lemma_pow0(self.digest_interval as int);
        self.lemma_max_digest_interval_is_highest(0);
        lemma_round_up(block - zero, interval);
        lemma_mod_multiples_basic((block - zero) / interval, interval);
        self.lemma_digest_levels_nest(prev - zero, top, 1);
        lemma_pow1(self.digest_interval as int);
        assert forall|level: nat| #[trigger] self.is_digest_level(prev - zero, level) implies level
            <= top by {
            self.lemma_max_digest_interval_is_highest(level);
        }
    }
}

} // verus!
