//! A deterministic pseudo-random ordering of every `u8` value.
//!
//! [`Config`] holds seed-derived parameters that define a bijective
//! permutation of the full `u8` range; [`RandomSequence`] is a cursor that
//! walks that permutation forward and backward and answers random-access
//! queries in O(1). All index arithmetic wraps modulo `2^8`, so the sequence
//! cycles through all `2^8` values and then repeats.

use crate::arith::{
    lemma_mod_diff_form, lemma_mod_pred, lemma_mod_succ, lemma_mod_sum_form, lemma_mul_inverse_cancels,
};
use vstd::prelude::*;

verus! {

/// Modulus of all index arithmetic in this module: `2^8`.
pub open spec fn range() -> int {
    0x100
}

/// Odd multiplier of the primitive permutation.
pub const MULTIPLIER: u8 = 0x9D;

/// Modular inverse of [`MULTIPLIER`]: their product is `1` modulo `2^8`.
pub const MULTIPLIER_INV: u8 = 0xB5;

/// Folds the high half of `x` into its low half. Applying it twice restores
/// `x`, so the fold is a bijection.
pub open spec fn xor_fold(x: u8) -> u8 {
    x ^ (x >> 4)
}

/// The primitive permutation: fold, multiply by the fixed odd constant
/// (wrapping), then scramble with the seed-derived xor constant. Each stage is
/// a bijection over the full `u8` range, so the whole is one.
pub open spec fn permute_spec(scramble: u8, x: u8) -> u8 {
    xor_fold(x).wrapping_mul(MULTIPLIER) ^ scramble
}

/// The inverse of [`permute_spec`]: undoes the scramble, the multiplication
/// and the fold, in that order.
pub open spec fn unpermute_spec(scramble: u8, y: u8) -> u8 {
    xor_fold((y ^ scramble).wrapping_mul(MULTIPLIER_INV))
}

/// The fixed product of the two multiplier constants is `1` modulo `2^8`.
proof fn lemma_multiplier_inverse()
    ensures
        (MULTIPLIER as int * MULTIPLIER_INV as int) % range() == 1,
        (MULTIPLIER_INV as int * MULTIPLIER as int) % range() == 1,
{
}

/// Law: the primitive permutation is a bijection over the full `u8` range —
/// [`unpermute_spec`] inverts it in both directions.
pub proof fn lemma_permute_bijective(scramble: u8, x: u8)
    ensures
        unpermute_spec(scramble, permute_spec(scramble, x)) == x,
        permute_spec(scramble, unpermute_spec(scramble, x)) == x,
{
    lemma_multiplier_inverse();
    let f = xor_fold(x);
    let m = f.wrapping_mul(MULTIPLIER);
    assert((m ^ scramble) ^ scramble == m) by (bit_vector);
    lemma_mul_inverse_cancels(f as int, MULTIPLIER as int, MULTIPLIER_INV as int, range());
    assert(m.wrapping_mul(MULTIPLIER_INV) == f);
    assert(xor_fold(xor_fold(x)) == x) by (bit_vector);

    let u = (x ^ scramble).wrapping_mul(MULTIPLIER_INV);
    assert(xor_fold(xor_fold(u)) == u) by (bit_vector);
    lemma_mul_inverse_cancels((x ^ scramble) as int, MULTIPLIER_INV as int, MULTIPLIER as int, range());
    assert(u.wrapping_mul(MULTIPLIER) == (x ^ scramble));
    assert(((x ^ scramble)) ^ scramble == x) by (bit_vector);
}

/// The primitive permutation never sends two indices to the same value.
pub proof fn lemma_permute_injective(scramble: u8, x: u8, y: u8)
    requires
        permute_spec(scramble, x) == permute_spec(scramble, y),
    ensures
        x == y,
{
    lemma_permute_bijective(scramble, x);
    lemma_permute_bijective(scramble, y);
}

/// Scatters a seed word into an unrelated-looking one; used only to derive
/// the parameters of a [`Config`] from a seed pair. Deterministic, so equal
/// seeds always derive equal parameters.
pub open spec fn mix_spec(z: u8) -> u8 {
    let a = (z ^ (z >> 4)).wrapping_mul(0x35);
    let b = (a ^ (a >> 3)).wrapping_mul(0x6B);
    b ^ (b >> 4)
}

/// Exec mirror of [`mix_spec`].
fn mix(z: u8) -> (r: u8)
    ensures
        r == mix_spec(z),
{
    let a = (z ^ (z >> 4)).wrapping_mul(0x35);
    let b = (a ^ (a >> 3)).wrapping_mul(0x6B);
    b ^ (b >> 4)
}

/// Seed-derived parameters that define one sequence.
///
/// A `Config` is immutable once built: every cursor bound to it sees the same
/// permutation, which is what makes the sequence deterministic and repeatable.
/// The permutation it describes is bijective by construction
/// ([`lemma_permute_bijective`], [`lemma_value_at_bijective`]), so a full
/// cycle visits every `u8` exactly once.
#[derive(Clone, Copy, Debug)]
pub struct Config {
    /// Xor constant folded into every primitive permutation call.
    pub scramble: u8,
    /// Intermediate xor mask applied between the two permutation calls.
    pub mix_mask: u8,
    /// Derived additive offset; each cursor caches a copy at construction.
    pub offset: u8,
    /// Absolute index at which a fresh cursor starts.
    pub origin: u8,
}

/// The parameters derived from a seed pair.
pub open spec fn config_spec(seed_base: u8, seed_offset: u8) -> Config {
    Config {
        scramble: mix_spec(seed_base.wrapping_add(0x9D)),
        mix_mask: mix_spec(seed_offset.wrapping_add(0x6A)),
        offset: mix_spec(seed_base ^ mix_spec(seed_offset.wrapping_add(0xBB))),
        origin: mix_spec(seed_offset ^ mix_spec(seed_base.wrapping_add(0x3C))),
    }
}

/// The sequence value at absolute index `i`: two applications of the
/// primitive permutation, composed with the cached additive offset and the
/// intermediate xor mask. A composition of bijections, so itself a bijection
/// ([`lemma_value_at_bijective`]).
pub open spec fn value_at_spec(config: Config, offset: u8, i: u8) -> u8 {
    permute_spec(
        config.scramble,
        permute_spec(config.scramble, i).wrapping_add(offset) ^ config.mix_mask,
    )
}

/// The absolute index that [`value_at_spec`] sent to `v`.
pub open spec fn value_at_inv_spec(config: Config, offset: u8, v: u8) -> u8 {
    unpermute_spec(
        config.scramble,
        (unpermute_spec(config.scramble, v) ^ config.mix_mask).wrapping_sub(offset),
    )
}

/// Law: the composed permutation is a bijection over the full `u8` range —
/// [`value_at_inv_spec`] inverts it in both directions.
pub proof fn lemma_value_at_bijective(config: Config, offset: u8, x: u8)
    ensures
        value_at_inv_spec(config, offset, value_at_spec(config, offset, x)) == x,
        value_at_spec(config, offset, value_at_inv_spec(config, offset, x)) == x,
{
    let s = config.scramble;
    let mask = config.mix_mask;

    let inner = permute_spec(s, x).wrapping_add(offset) ^ mask;
    lemma_permute_bijective(s, inner);
    assert((inner ^ mask) == permute_spec(s, x).wrapping_add(offset)) by (bit_vector)
        requires
            inner == permute_spec(s, x).wrapping_add(offset) ^ mask,
    ;
    lemma_permute_bijective(s, x);

    let back = (unpermute_spec(s, x) ^ mask).wrapping_sub(offset);
    lemma_permute_bijective(s, back);
    assert((back.wrapping_add(offset) ^ mask) == unpermute_spec(s, x)) by (bit_vector)
        requires
            back == (unpermute_spec(s, x) ^ mask).wrapping_sub(offset),
    ;
    lemma_permute_bijective(s, x);
}

/// The composed permutation never sends two indices to the same value.
pub proof fn lemma_value_at_injective(config: Config, offset: u8, x: u8, y: u8)
    requires
        value_at_spec(config, offset, x) == value_at_spec(config, offset, y),
    ensures
        x == y,
{
    lemma_value_at_bijective(config, offset, x);
    lemma_value_at_bijective(config, offset, y);
}

impl Config {
    /// Derives the sequence parameters from an explicit seed pair.
    /// Deterministic: equal seed pairs yield equal configurations, hence
    /// element-for-element identical sequences.
    pub fn new(seed_base: u8, seed_offset: u8) -> (r: Config)
        ensures
            r == config_spec(seed_base, seed_offset),
    {
        let scramble = mix(seed_base.wrapping_add(0x9D));
        let mix_mask = mix(seed_offset.wrapping_add(0x6A));
        let offset = mix(seed_base ^ mix(seed_offset.wrapping_add(0xBB)));
        let origin = mix(seed_offset ^ mix(seed_base.wrapping_add(0x3C)));
        Config { scramble, mix_mask, offset, origin }
    }
}

/// A cursor over the pseudo-random sequence defined by a [`Config`].
///
/// Tracks the absolute index of the next value [`next`] will produce; stepping
/// wraps modulo `2^8`, so the sequence cycles. Cloned cursors share the same
/// immutable configuration but step independently.
///
/// [`next`]: RandomSequence::next
#[derive(Clone, Copy, Debug)]
pub struct RandomSequence {
    /// The parameters that define the sequence this cursor walks.
    pub config: Config,
    /// Absolute index of logical position 0.
    pub start_index: u8,
    /// Absolute index of the next value `next` will produce.
    pub current_index: u8,
    /// Cached copy of the configuration's derived offset.
    pub intermediate_offset: u8,
}

/// The cursor a [`Config`] produces: positioned at the configured origin, with
/// the derived offset cached.
pub open spec fn fresh_cursor_spec(config: Config) -> RandomSequence {
    RandomSequence {
        config,
        start_index: config.origin,
        current_index: config.origin,
        intermediate_offset: config.offset,
    }
}

impl RandomSequence {
    /// Well-formedness: the cached fields mirror the configuration. Stepping
    /// only moves `current_index`, so every operation preserves this.
    pub open spec fn wf(self) -> bool {
        self.intermediate_offset == self.config.offset && self.start_index == self.config.origin
    }

    /// Builds a fresh cursor from a configuration: both indices sit at the
    /// configured origin and the derived offset is cached on the cursor.
    pub fn new(config: Config) -> (r: RandomSequence)
        ensures
            r == fresh_cursor_spec(config),
            r.wf(),
    {
        RandomSequence {
            config,
            start_index: config.origin,
            current_index: config.origin,
            intermediate_offset: config.offset,
        }
    }

    /// The sequence value at absolute index `index`, independent of the
    /// cursor's position.
    fn n_internal(&self, index: u8) -> (r: u8)
        ensures
            r == value_at_spec(self.config, self.intermediate_offset, index),
    {
        let inner_residue = self.permute(index).wrapping_add(self.intermediate_offset);
        self.permute(inner_residue ^ self.config.mix_mask)
    }

    /// One application of the primitive permutation under this cursor's
    /// configuration.
    fn permute(&self, x: u8) -> (r: u8)
        ensures
            r == permute_spec(self.config.scramble, x),
    {
        (x ^ (x >> 4)).wrapping_mul(MULTIPLIER) ^ self.config.scramble
    }

    /// Returns the value at the cursor's position, then steps forward
    /// (wrapping at the end of the cycle).
    pub fn next(&mut self) -> (r: u8)
        ensures
            r == value_at_spec(
                old(self).config,
                old(self).intermediate_offset,
                old(self).current_index,
            ),
            final(self).current_index == old(self).current_index.wrapping_add(1),
            final(self).config == old(self).config,
            final(self).start_index == old(self).start_index,
            final(self).intermediate_offset == old(self).intermediate_offset,
    {
        let next = self.n_internal(self.current_index);
        self.current_index = self.current_index.wrapping_add(1);
        next
    }

    /// Steps backward (wrapping at the start of the cycle), then returns the
    /// value at the new position. Exact inverse of [`next`]: one of each, in
    /// either order, restores the cursor and yields the same value twice.
    ///
    /// [`next`]: RandomSequence::next
    pub fn prev(&mut self) -> (r: u8)
        ensures
            r == value_at_spec(
                old(self).config,
                old(self).intermediate_offset,
                old(self).current_index.wrapping_sub(1),
            ),
            final(self).current_index == old(self).current_index.wrapping_sub(1),
            final(self).config == old(self).config,
            final(self).start_index == old(self).start_index,
            final(self).intermediate_offset == old(self).intermediate_offset,
    {
        self.current_index = self.current_index.wrapping_sub(1);
        self.n_internal(self.current_index)
    }

    /// The value at position `index` relative to the cursor's fixed origin:
    /// O(1) random access, independent of the cursor's current position.
    pub fn n(&self, index: u8) -> (r: u8)
        ensures
            r == value_at_spec(
                self.config,
                self.intermediate_offset,
                self.start_index.wrapping_add(index),
            ),
    {
        let actual_index = self.start_index.wrapping_add(index);
        self.n_internal(actual_index)
    }

    /// The cursor's position: forward steps net of backward steps since
    /// construction, modulo `2^8`.
    pub fn index(&self) -> (r: u8)
        ensures
            r == self.current_index.wrapping_sub(self.start_index),
    {
        self.current_index.wrapping_sub(self.start_index)
    }
}

/// Absolute index of a cursor after `k` forward steps from absolute index
/// `start`: each `next` call advances by one, wrapping at `2^8`.
pub open spec fn index_after(start: u8, k: nat) -> u8
    decreases k,
{
    if k == 0 {
        start
    } else {
        index_after(start, (k - 1) as nat).wrapping_add(1)
    }
}

/// The value the `k`-th `next` call (counting from zero) returns when a
/// cursor steps repeatedly forward from absolute index `start`.
pub open spec fn kth_value(config: Config, offset: u8, start: u8, k: nat) -> u8 {
    value_at_spec(config, offset, index_after(start, k))
}

/// Absolute index of a cursor after `k` backward steps from absolute index
/// `start`: each `prev` call retreats by one, wrapping at zero.
pub open spec fn back_index_after(start: u8, k: nat) -> u8
    decreases k,
{
    if k == 0 {
        start
    } else {
        back_index_after(start, (k - 1) as nat).wrapping_sub(1)
    }
}

/// The value the `k`-th `prev` call (counting from zero) returns when a
/// cursor steps repeatedly backward from absolute index `start`: `prev` steps
/// first and reads after, so the `k`-th call reads `k + 1` steps back.
pub open spec fn kth_back_value(config: Config, offset: u8, start: u8, k: nat) -> u8 {
    value_at_spec(config, offset, back_index_after(start, k + 1))
}

/// Stepping forward `k` times lands where a single wrapping jump of `k` does.
pub proof fn lemma_index_after_closed(start: u8, k: nat)
    requires
        k < range(),
    ensures
        index_after(start, k) == start.wrapping_add(k as u8),
    decreases k,
{
    if k > 0 {
        lemma_index_after_closed(start, (k - 1) as nat);
    }
}

/// Stepping backward `k` times lands where a single wrapping jump back of `k`
/// does; a full cycle of `2^8` backward steps returns to the start.
pub proof fn lemma_back_index_after_closed(start: u8, k: nat)
    requires
        k <= range(),
    ensures
        back_index_after(start, k) == if k == range() {
            start
        } else {
            start.wrapping_sub(k as u8)
        },
    decreases k,
{
    if k > 0 {
        lemma_back_index_after_closed(start, (k - 1) as nat);
    }
}

/// Law (bijectivity over a full cycle): within any prefix of at most `2^8`
/// repeated `next` calls from a fresh cursor, no value appears twice.
pub proof fn lemma_prefix_distinct(config: Config, offset: u8, start: u8, i: nat, j: nat)
    requires
        i < j < range(),
    ensures
        kth_value(config, offset, start, i) != kth_value(config, offset, start, j),
{
    lemma_index_after_closed(start, i);
    lemma_index_after_closed(start, j);
    if kth_value(config, offset, start, i) == kth_value(config, offset, start, j) {
        lemma_value_at_injective(
            config,
            offset,
            start.wrapping_add(i as u8),
            start.wrapping_add(j as u8),
        );
    }
}

/// Law (bijectivity over a full cycle, coverage): every u8 value is
/// produced within one full cycle of repeated `next` calls from a fresh
/// cursor — together with [`lemma_prefix_distinct`], the cycle visits every
/// value exactly once.
pub proof fn lemma_full_cycle_covers(config: Config, offset: u8, start: u8, v: u8)
    ensures
        exists|k: nat| k < range() && kth_value(config, offset, start, k) == v,
{
    let i = value_at_inv_spec(config, offset, v);
    let k = i.wrapping_sub(start) as nat;
    lemma_index_after_closed(start, k);
    lemma_value_at_bijective(config, offset, v);
    assert(k < range() && kth_value(config, offset, start, k) == v);
}

/// Law (determinism): two cursors built from the same seed pair produce
/// element-for-element identical output sequences.
pub proof fn lemma_determinism(
    a: RandomSequence,
    b: RandomSequence,
    seed_base: u8,
    seed_offset: u8,
    k: nat,
)
    requires
        a == fresh_cursor_spec(config_spec(seed_base, seed_offset)),
        b == fresh_cursor_spec(config_spec(seed_base, seed_offset)),
    ensures
        kth_value(a.config, a.intermediate_offset, a.start_index, k) == kth_value(
            b.config,
            b.intermediate_offset,
            b.start_index,
            k,
        ),
{
}

/// Law (random-access consistency): the `k`-th value obtained by repeated
/// `next` calls from a fresh cursor equals the value `n(k)` reads directly
/// from the cursor's fixed origin.
pub proof fn lemma_random_access_consistent(config: Config, offset: u8, start: u8, k: nat)
    requires
        k < range(),
    ensures
        kth_value(config, offset, start, k) == value_at_spec(
            config,
            offset,
            start.wrapping_add(k as u8),
        ),
{
    lemma_index_after_closed(start, k);
}

/// Law (reverse consistency, stepping): from any position `i`, `next` then
/// `prev` restores the cursor's index and both calls yield the value at `i`;
/// likewise `prev` then `next`.
pub proof fn lemma_reverse_consistency(config: Config, offset: u8, i: u8)
    ensures
        i.wrapping_add(1).wrapping_sub(1) == i,
        i.wrapping_sub(1).wrapping_add(1) == i,
        value_at_spec(config, offset, i.wrapping_add(1).wrapping_sub(1)) == value_at_spec(
            config,
            offset,
            i,
        ),
{
}

/// Law (reverse consistency, traversal): the `k`-th value produced by
/// backward stepping from a fresh cursor equals the value a full forward
/// traversal produces at index `2^8 - 1 - k` — the backward walk replays the
/// tail of the cycle in reverse order.
pub proof fn lemma_backward_matches_forward(config: Config, offset: u8, start: u8, k: nat)
    requires
        k < range(),
    ensures
        kth_back_value(config, offset, start, k) == kth_value(
            config,
            offset,
            start,
            (range() - 1 - k) as nat,
        ),
{
    lemma_back_index_after_closed(start, k + 1);
    lemma_index_after_closed(start, (range() - 1 - k) as nat);
}

/// How many entries of a step record are forward steps; the rest are
/// backward steps.
pub open spec fn count_forward(steps: Seq<bool>) -> nat
    decreases steps.len(),
{
    if steps.len() == 0 {
        0
    } else {
        count_forward(steps.drop_last()) + if steps.last() {
            1nat
        } else {
            0nat
        }
    }
}

/// Absolute cursor index after performing the recorded steps in order from
/// absolute index `start`: `true` entries step forward, `false` entries step
/// backward.
pub open spec fn index_after_walk(start: u8, steps: Seq<bool>) -> u8
    decreases steps.len(),
{
    if steps.len() == 0 {
        start
    } else {
        let before = index_after_walk(start, steps.drop_last());
        if steps.last() {
            before.wrapping_add(1)
        } else {
            before.wrapping_sub(1)
        }
    }
}

/// Law (index accounting): after `a` forward and `b` backward steps in any
/// order from a fresh cursor, `index()` reports `(a - b)` modulo `2^8`.
pub proof fn lemma_index_accounting(start: u8, steps: Seq<bool>)
    ensures
        index_after_walk(start, steps).wrapping_sub(start) as int == (count_forward(steps) as int
            - (steps.len() as int - count_forward(steps) as int)) % range(),
    decreases steps.len(),
{
    if steps.len() != 0 {
        let s0 = steps.drop_last();
        lemma_index_accounting(start, s0);
        let d0 = count_forward(s0) as int - (s0.len() as int - count_forward(s0) as int);
        let before = index_after_walk(start, s0);
        let r0 = before.wrapping_sub(start) as int;
        if steps.last() {
            lemma_mod_sum_form(r0, 1, range());
            lemma_mod_succ(d0, range());
        } else {
            lemma_mod_diff_form(r0, range());
            lemma_mod_pred(d0, range());
        }
    }
}

impl From<Config> for RandomSequence {
    /// Converting a configuration into a cursor positions it at the
    /// configured origin, as [`RandomSequence::new`] does.
    fn from(config: Config) -> (r: RandomSequence) {
        RandomSequence::new(config)
    }
}

impl vstd::std_specs::convert::FromSpecImpl<Config> for RandomSequence {
    open spec fn obeys_from_spec() -> bool {
        true
    }

    open spec fn from_spec(config: Config) -> RandomSequence {
        fresh_cursor_spec(config)
    }
}

} // verus!
