//! The counter word as a state machine, and the laws that its steps keep.
//!
//! Whatever the threads do, the word of a [`TimestampSequenceGenerator`]
//! changes only by [`CounterStep`]s: a successful compare-and-swap is an
//! `Advance` to the caller's tick, and the fetch-add of every call is an
//! `Increment`, whose value before the add is what [`decode_word`] reads the
//! call's result from. A run of the counter is therefore a sequence of
//! steps from its first word, and the laws below hold of every run.
//!
//! [`TimestampSequenceGenerator`]: crate::TimestampSequenceGenerator
use vstd::prelude::*;

use crate::config::{lemma_low_mask_is_pow2_minus_one, low_mask, BitLayout};
use crate::timestamp_sequence::{
    decode_word, sequence_region_mask, shifted_timestamp_mask, word_sequence, word_tick,
    TimestampSequence,
};

verus! {

/// One change of the counter word.
pub enum CounterStep {
    /// A caller with this tick found the stored tick behind it and swapped in
    /// its own tick, with sequence zero.
    Advance(u64),
    /// A caller took the next sequence number.
    Increment,
}

/// The word after an advance to tick `candidate`: unchanged unless the stored
/// tick is behind the candidate.
pub open spec fn advance_word(layout: BitLayout, word: u64, candidate: u64) -> u64 {
    if word_tick(layout, word) < candidate {
        candidate << layout.timestamp_shift()
    } else {
        word
    }
}

/// The word after one step; an increment wraps as the fetch-add does.
pub open spec fn step_word(layout: BitLayout, word: u64, step: CounterStep) -> u64 {
    match step {
        CounterStep::Advance(candidate) => advance_word(layout, word, candidate),
        CounterStep::Increment => (word + 1) as u64,
    }
}

/// The word after the first `n` steps of a run that starts at `start`.
pub open spec fn word_after(layout: BitLayout, start: u64, steps: Seq<CounterStep>, n: nat) -> u64
    decreases n,
{
    if n == 0 || n > steps.len() {
        start
    } else {
        step_word(layout, word_after(layout, start, steps, (n - 1) as nat), steps[n - 1])
    }
}

/// A word whose tick fits the timestamp field and whose sequence region has
/// not reached its all-ones value, so that one more increment cannot carry
/// into the tick.
pub open spec fn word_tidy(layout: BitLayout, word: u64) -> bool {
    &&& word >> layout.timestamp_shift() <= layout.timestamp_mask()
    &&& word_sequence(layout, word) < sequence_region_mask(layout)
}

/// Every word of the run is tidy: no tick takes `2^timestamp_shift - 1`
/// increments (over four million with the default layout), after which the
/// sequence region would carry into the tick.
pub open spec fn run_tidy(layout: BitLayout, start: u64, steps: Seq<CounterStep>) -> bool {
    forall|n: nat| n <= steps.len() ==> word_tidy(layout, #[trigger] word_after(layout, start, steps, n))
}

/// Every advance of the run is to a tick that fits the timestamp field.
pub open spec fn run_ticks_fit(layout: BitLayout, steps: Seq<CounterStep>) -> bool {
    forall|n: int|
        0 <= n < steps.len() ==> (#[trigger] steps[n] matches CounterStep::Advance(candidate)
            ==> candidate <= layout.timestamp_mask())
}

/// The number of increments among the first `n` steps.
pub open spec fn increments_before(steps: Seq<CounterStep>, n: nat) -> nat
    decreases n,
{
    if n == 0 || n > steps.len() {
        0
    } else {
        increments_before(steps, (n - 1) as nat) + if steps[n - 1] is Increment {
            1nat
        } else {
            0nat
        }
    }
}

proof fn lemma_tick_bits(t: u64, m: u64, s: u64, w: u64)
    by (bit_vector)
    requires
        0 < t,
        0 < m,
        0 < s,
        t + m + s <= 64,
        w >> ((m + s) as u64) <= low_mask(t),
    ensures
        (w & (low_mask(t) << ((m + s) as u64))) >> ((m + s) as u64) == w >> ((m + s) as u64),
{
}

proof fn lemma_increment_bits(t: u64, m: u64, s: u64, w: u64)
    by (bit_vector)
    requires
        0 < t,
        0 < m,
        0 < s,
        t + m + s <= 64,
        w >> ((m + s) as u64) <= low_mask(t),
        w & low_mask((m + s) as u64) < low_mask((m + s) as u64),
    ensures
        w < 0xffff_ffff_ffff_ffff,
        ((w + 1) as u64) >> ((m + s) as u64) == w >> ((m + s) as u64),
        ((w + 1) as u64) & low_mask((m + s) as u64) == (w & low_mask((m + s) as u64)) + 1,
{
}

proof fn lemma_advance_bits(t: u64, m: u64, s: u64, c: u64, w: u64)
    by (bit_vector)
    requires
        0 < t,
        0 < m,
        0 < s,
        t + m + s <= 64,
        c <= low_mask(t),
    ensures
        (c << ((m + s) as u64)) >> ((m + s) as u64) == c,
        (c << ((m + s) as u64)) & low_mask((m + s) as u64) == 0,
        0 < low_mask((m + s) as u64),
        w >> ((m + s) as u64) < c ==> w < c << ((m + s) as u64),
{
}

proof fn lemma_tidy_injective_bits(m: u64, s: u64, w1: u64, w2: u64)
    by (bit_vector)
    requires
        0 < m,
        0 < s,
        m + s < 64,
        w1 >> ((m + s) as u64) == w2 >> ((m + s) as u64),
        w1 & low_mask((m + s) as u64) == w2 & low_mask((m + s) as u64),
    ensures
        w1 == w2,
{
}

proof fn lemma_add_within_tick_bits(t: u64, m: u64, s: u64, w: u64, d: u64)
    by (bit_vector)
    requires
        0 < t,
        0 < m,
        0 < s,
        t + m + s <= 64,
        w >> ((m + s) as u64) <= low_mask(t),
        w & low_mask((m + s) as u64) == 0,
        d <= low_mask(s) + 1,
    ensures
        w + d <= 0xffff_ffff_ffff_ffff,
        ((w + d) as u64) >> ((m + s) as u64) == w >> ((m + s) as u64),
        ((w + d) as u64) & low_mask((m + s) as u64) == d,
        d < low_mask((m + s) as u64),
{
}

proof fn lemma_compare_shifted_bits(t: u64, m: u64, s: u64, c: u64, w: u64)
    by (bit_vector)
    requires
        0 < t,
        0 < m,
        0 < s,
        t + m + s <= 64,
        c <= low_mask(t),
    ensures
        (c << ((m + s) as u64)) <= (w & (low_mask(t) << ((m + s) as u64))) <==> c <= (w & (
        low_mask(t) << ((m + s) as u64))) >> ((m + s) as u64),
{
}

/// The counter compares ticks in place, without shifting them down: a
/// candidate's shifted tick is at or below the word's tick subfield exactly
/// when the candidate is at or below the word's tick. So when the counter
/// swaps in the shifted candidate, it makes exactly the `Advance` step.
pub proof fn lemma_swap_is_advance(layout: BitLayout, word: u64, candidate: u64)
    requires
        layout.valid(),
        candidate <= layout.timestamp_mask(),
    ensures
        (candidate << layout.timestamp_shift()) <= (word & shifted_timestamp_mask(layout))
            <==> advance_word(layout, word, candidate) == word && word_tick(layout, word)
            >= candidate,
        !((candidate << layout.timestamp_shift()) <= (word & shifted_timestamp_mask(layout)))
            ==> advance_word(layout, word, candidate) == candidate << layout.timestamp_shift(),
{
    lemma_compare_shifted_bits(
        layout.timestamp_bits,
        layout.machine_id_bits,
        layout.sequence_bits,
        candidate,
        word,
    );
}

/// Reads the tick and the sequence of a word whose tick fits its field.
proof fn lemma_word_fields(layout: BitLayout, word: u64)
    requires
        layout.valid(),
        word >> layout.timestamp_shift() <= layout.timestamp_mask(),
    ensures
        word_tick(layout, word) == word >> layout.timestamp_shift(),
{
    lemma_tick_bits(layout.timestamp_bits, layout.machine_id_bits, layout.sequence_bits, word);
}

proof fn lemma_tick_fits_bits(t: u64, m: u64, s: u64, w: u64)
    by (bit_vector)
    requires
        0 < t,
        0 < m,
        0 < s,
        t + m + s <= 64,
    ensures
        (w & (low_mask(t) << ((m + s) as u64))) >> ((m + s) as u64) <= low_mask(t),
{
}

/// What a call hands out fits its fields: a sequence number at most
/// `sequence_max` and a tick within the timestamp field.
pub proof fn lemma_decoded_bounds(layout: BitLayout, word: u64)
    requires
        layout.valid(),
    ensures
        decode_word(layout, word) matches Ok(ts) ==> ts.sequence <= layout.sequence_max()
            && ts.timestamp <= layout.timestamp_mask(),
{
    lemma_tick_fits_bits(layout.timestamp_bits, layout.machine_id_bits, layout.sequence_bits, word);
}

/// The first word of a tick reads as that tick with sequence zero.
pub proof fn lemma_start_word(layout: BitLayout, timestamp: u64)
    requires
        layout.valid(),
        timestamp <= layout.timestamp_mask(),
    ensures
        decode_word(layout, timestamp << layout.timestamp_shift()) == Ok::<
            TimestampSequence,
            crate::error::SnowflakeGeneratorError,
        >(TimestampSequence { sequence: 0, timestamp }),
{
    let w = timestamp << layout.timestamp_shift();
    lemma_advance_bits(layout.timestamp_bits, layout.machine_id_bits, layout.sequence_bits, timestamp, 0);
    lemma_word_fields(layout, w);
}

/// What one step does to a tidy word.
proof fn lemma_step(layout: BitLayout, word: u64, step: CounterStep)
    requires
        layout.valid(),
        word_tidy(layout, word),
        step matches CounterStep::Advance(candidate) ==> candidate <= layout.timestamp_mask(),
    ensures
        word <= step_word(layout, word, step),
        word_tick(layout, word) <= word_tick(layout, step_word(layout, word, step)),
        step is Increment ==> {
            &&& word < step_word(layout, word, step)
            &&& word_tick(layout, step_word(layout, word, step)) == word_tick(layout, word)
            &&& word_sequence(layout, step_word(layout, word, step)) == word_sequence(layout, word)
                + 1
        },
        step matches CounterStep::Advance(candidate) ==> {
            ||| step_word(layout, word, step) == word
            ||| {
                &&& word_tick(layout, step_word(layout, word, step)) == candidate
                &&& word_sequence(layout, step_word(layout, word, step)) == 0
            }
        },
{
    let t = layout.timestamp_bits;
    let m = layout.machine_id_bits;
    let s = layout.sequence_bits;
    lemma_word_fields(layout, word);
    match step {
        CounterStep::Advance(candidate) => {
            lemma_advance_bits(t, m, s, candidate, word);
            if word_tick(layout, word) < candidate {
                lemma_word_fields(layout, candidate << layout.timestamp_shift());
            }
        },
        CounterStep::Increment => {
            lemma_increment_bits(t, m, s, word);
            lemma_word_fields(layout, (word + 1) as u64);
        },
    }
}

/// Along a run the word never shrinks and its tick never goes back; after an
/// increment the word is strictly larger.
proof fn lemma_run_grows(layout: BitLayout, start: u64, steps: Seq<CounterStep>, i: nat, j: nat)
    requires
        layout.valid(),
        run_tidy(layout, start, steps),
        run_ticks_fit(layout, steps),
        i <= j <= steps.len(),
    ensures
        word_after(layout, start, steps, i) <= word_after(layout, start, steps, j),
        word_tick(layout, word_after(layout, start, steps, i)) <= word_tick(
            layout,
            word_after(layout, start, steps, j),
        ),
        i < j && steps[i as int] is Increment ==> word_after(layout, start, steps, i) < word_after(
            layout,
            start,
            steps,
            j,
        ),
    decreases j - i,
{
    if i < j {
        lemma_run_grows(layout, start, steps, i + 1, j);
        assert(word_tidy(layout, word_after(layout, start, steps, i)));
        lemma_step(layout, word_after(layout, start, steps, i), steps[i as int]);
    }
}

/// The call whose increment is step `n` gets a sequence number.
pub open spec fn succeeds_at(layout: BitLayout, start: u64, steps: Seq<CounterStep>, n: nat) -> bool {
    &&& n < steps.len()
    &&& steps[n as int] is Increment
    &&& decode_word(layout, word_after(layout, start, steps, n)) is Ok
}

/// The snowflake that the call whose increment is step `n` hands out on the
/// given machine, when it succeeds.
pub open spec fn snowflake_at(
    layout: BitLayout,
    machine_id: u64,
    start: u64,
    steps: Seq<CounterStep>,
    n: nat,
) -> u64 {
    let ts = decode_word(layout, word_after(layout, start, steps, n))->Ok_0;
    layout.compose(ts.timestamp, machine_id, ts.sequence)
}

/// The fields of the snowflake of a successful call are the tick and the
/// sequence of the word that its increment found.
proof fn lemma_snowflake_fields(
    layout: BitLayout,
    machine_id: u64,
    start: u64,
    steps: Seq<CounterStep>,
    n: nat,
)
    requires
        layout.valid(),
        run_tidy(layout, start, steps),
        succeeds_at(layout, start, steps, n),
    ensures
        layout.timestamp_of(snowflake_at(layout, machine_id, start, steps, n)) == word_tick(
            layout,
            word_after(layout, start, steps, n),
        ),
        layout.sequence_of(snowflake_at(layout, machine_id, start, steps, n)) == word_sequence(
            layout,
            word_after(layout, start, steps, n),
        ),
        word_tick(layout, word_after(layout, start, steps, n)) <= layout.timestamp_mask(),
        word_sequence(layout, word_after(layout, start, steps, n)) <= layout.sequence_mask(),
{
    let w = word_after(layout, start, steps, n);
    assert(word_tidy(layout, w));
    lemma_word_fields(layout, w);
    lemma_low_mask_is_pow2_minus_one(layout.sequence_bits);
    let ts = word_tick(layout, w);
    let sq = word_sequence(layout, w);
    let t = layout.timestamp_bits;
    let s = layout.sequence_bits;
    assert(ts & low_mask(t) == ts && sq & low_mask(s) == sq) by (bit_vector)
        requires
            ts <= low_mask(t),
            sq <= low_mask(s),
    ;
    crate::config::lemma_compose_fields(layout, ts, machine_id, sq);
}

/// No two successful calls on one counter hand out the same snowflake, as
/// long as no tick takes so many increments (`2^timestamp_shift - 1`) that
/// its sequence region would carry into the tick.
pub proof fn lemma_unique_snowflakes(
    layout: BitLayout,
    machine_id: u64,
    start: u64,
    steps: Seq<CounterStep>,
    i: nat,
    j: nat,
)
    requires
        layout.valid(),
        run_tidy(layout, start, steps),
        run_ticks_fit(layout, steps),
        i < j,
        succeeds_at(layout, start, steps, i),
        succeeds_at(layout, start, steps, j),
    ensures
        snowflake_at(layout, machine_id, start, steps, i) != snowflake_at(
            layout,
            machine_id,
            start,
            steps,
            j,
        ),
{
    let wi = word_after(layout, start, steps, i);
    let wj = word_after(layout, start, steps, j);
    lemma_run_grows(layout, start, steps, i, j);
    lemma_snowflake_fields(layout, machine_id, start, steps, i);
    lemma_snowflake_fields(layout, machine_id, start, steps, j);
    assert(word_tidy(layout, wi));
    assert(word_tidy(layout, wj));
    lemma_word_fields(layout, wi);
    lemma_word_fields(layout, wj);
    if word_tick(layout, wi) == word_tick(layout, wj) && word_sequence(layout, wi) == word_sequence(
        layout,
        wj,
    ) {
        lemma_tidy_injective_bits(layout.machine_id_bits, layout.sequence_bits, wi, wj);
    }
}

/// The timestamps of the successful calls on one counter never go back: a
/// later call's snowflake has a timestamp at least that of an earlier one.
pub proof fn lemma_tick_never_decreases(
    layout: BitLayout,
    machine_id: u64,
    start: u64,
    steps: Seq<CounterStep>,
    i: nat,
    j: nat,
)
    requires
        layout.valid(),
        run_tidy(layout, start, steps),
        run_ticks_fit(layout, steps),
        i <= j,
        succeeds_at(layout, start, steps, i),
        succeeds_at(layout, start, steps, j),
    ensures
        layout.timestamp_of(snowflake_at(layout, machine_id, start, steps, i))
            <= layout.timestamp_of(snowflake_at(layout, machine_id, start, steps, j)),
{
    lemma_run_grows(layout, start, steps, i, j);
    lemma_snowflake_fields(layout, machine_id, start, steps, i);
    lemma_snowflake_fields(layout, machine_id, start, steps, j);
}

/// Between a call at step `i` and the next successful one, the word keeps
/// the tick of step `i` until an advance puts it at sequence zero.
proof fn lemma_tick_kept_or_reset(layout: BitLayout, start: u64, steps: Seq<CounterStep>, i: nat, k: nat)
    requires
        layout.valid(),
        run_tidy(layout, start, steps),
        run_ticks_fit(layout, steps),
        i < k <= steps.len(),
        steps[i as int] is Increment,
        forall|q: nat| i < q < k ==> !succeeds_at(layout, start, steps, q),
    ensures
        word_tick(layout, word_after(layout, start, steps, k)) == word_tick(
            layout,
            word_after(layout, start, steps, i),
        ) || word_sequence(layout, word_after(layout, start, steps, k)) == 0,
    decreases k,
{
    let prev = word_after(layout, start, steps, (k - 1) as nat);
    assert(word_tidy(layout, prev));
    lemma_step(layout, prev, steps[k - 1]);
    if k > i + 1 {
        lemma_tick_kept_or_reset(layout, start, steps, i, (k - 1) as nat);
        assert(!succeeds_at(layout, start, steps, (k - 1) as nat));
    }
}

/// When a successful call has a later timestamp than the successful call
/// before it, its sequence number is zero.
pub proof fn lemma_sequence_resets(
    layout: BitLayout,
    machine_id: u64,
    start: u64,
    steps: Seq<CounterStep>,
    i: nat,
    j: nat,
)
    requires
        layout.valid(),
        run_tidy(layout, start, steps),
        run_ticks_fit(layout, steps),
        i < j,
        succeeds_at(layout, start, steps, i),
        succeeds_at(layout, start, steps, j),
        forall|k: nat| i < k < j ==> !succeeds_at(layout, start, steps, k),
        layout.timestamp_of(snowflake_at(layout, machine_id, start, steps, i))
            < layout.timestamp_of(snowflake_at(layout, machine_id, start, steps, j)),
    ensures
        layout.sequence_of(snowflake_at(layout, machine_id, start, steps, j)) == 0,
{
    lemma_snowflake_fields(layout, machine_id, start, steps, i);
    lemma_snowflake_fields(layout, machine_id, start, steps, j);
    lemma_tick_kept_or_reset(layout, start, steps, i, j);
}

proof fn lemma_same_tick_order_bits(m: u64, s: u64, w1: u64, w2: u64)
    by (bit_vector)
    requires
        0 < m,
        0 < s,
        m + s < 64,
        w1 < w2,
        w1 >> ((m + s) as u64) == w2 >> ((m + s) as u64),
    ensures
        w1 & low_mask((m + s) as u64) < w2 & low_mask((m + s) as u64),
{
}

/// Once a call in a tick fails with `SequenceOverflow`, every later call
/// that finds the same tick fails too: the slot that failed is used up and
/// no sequence number of that tick is handed out again.
pub proof fn lemma_overflow_persists(
    layout: BitLayout,
    start: u64,
    steps: Seq<CounterStep>,
    i: nat,
    j: nat,
)
    requires
        layout.valid(),
        run_tidy(layout, start, steps),
        run_ticks_fit(layout, steps),
        i < j < steps.len(),
        steps[i as int] is Increment,
        decode_word(layout, word_after(layout, start, steps, i)) is Err,
        word_tick(layout, word_after(layout, start, steps, j)) == word_tick(
            layout,
            word_after(layout, start, steps, i),
        ),
    ensures
        decode_word(layout, word_after(layout, start, steps, j)) is Err,
{
    let wi = word_after(layout, start, steps, i);
    let wj = word_after(layout, start, steps, j);
    lemma_run_grows(layout, start, steps, i, j);
    assert(word_tidy(layout, wi));
    assert(word_tidy(layout, wj));
    lemma_word_fields(layout, wi);
    lemma_word_fields(layout, wj);
    lemma_same_tick_order_bits(layout.machine_id_bits, layout.sequence_bits, wi, wj);
}

/// The count of increments never decreases along a run.
proof fn lemma_increments_grow(steps: Seq<CounterStep>, k: nat, n: nat)
    requires
        k <= n <= steps.len(),
    ensures
        increments_before(steps, k) <= increments_before(steps, n),
    decreases n - k,
{
    if k < n {
        lemma_increments_grow(steps, k, (n - 1) as nat);
    }
}

/// While the tick is held, the word is the tick's first word plus the number
/// of increments so far.
proof fn lemma_word_within_tick(layout: BitLayout, start: u64, steps: Seq<CounterStep>, k: nat, n: nat)
    requires
        layout.valid(),
        word_tidy(layout, start),
        start & low_mask(layout.timestamp_shift()) == 0,
        forall|q: int|
            0 <= q < steps.len() ==> (#[trigger] steps[q] matches CounterStep::Advance(candidate)
                ==> candidate <= word_tick(layout, start)),
        k <= n <= steps.len(),
        increments_before(steps, n) <= layout.sequence_max() + 1,
    ensures
        word_after(layout, start, steps, k) == start + increments_before(steps, k),
        word_tick(layout, word_after(layout, start, steps, k)) == word_tick(layout, start),
        word_sequence(layout, word_after(layout, start, steps, k)) == increments_before(steps, k),
    decreases k,
{
    let t = layout.timestamp_bits;
    let m = layout.machine_id_bits;
    let s = layout.sequence_bits;
    lemma_low_mask_is_pow2_minus_one(s);
    lemma_increments_grow(steps, k, n);
    let d = increments_before(steps, k) as u64;
    lemma_add_within_tick_bits(t, m, s, start, d);
    lemma_word_fields(layout, start);
    lemma_word_fields(layout, (start + d) as u64);
    if k > 0 {
        lemma_word_within_tick(layout, start, steps, (k - 1) as nat, n);
        lemma_increments_grow(steps, (k - 1) as nat, n);
        let e = increments_before(steps, (k - 1) as nat) as u64;
        lemma_add_within_tick_bits(t, m, s, start, e);
    }
}

/// Starting from the first word of a tick, and with every advance at or
/// below that tick, the first `sequence_max + 1` increments get the sequence
/// numbers 0, 1, ... in turn, and the next one fails.
pub proof fn lemma_sequence_exhaustion(layout: BitLayout, start: u64, steps: Seq<CounterStep>, n: nat)
    requires
        layout.valid(),
        word_tidy(layout, start),
        word_sequence(layout, start) == 0,
        forall|q: int|
            0 <= q < steps.len() ==> (#[trigger] steps[q] matches CounterStep::Advance(candidate)
                ==> candidate <= word_tick(layout, start)),
        n < steps.len(),
        increments_before(steps, n) <= layout.sequence_max() + 1,
    ensures
        decode_word(layout, word_after(layout, start, steps, n)) is Ok <==> increments_before(
            steps,
            n,
        ) <= layout.sequence_max(),
        decode_word(layout, word_after(layout, start, steps, n)) matches Ok(ts) ==> {
            &&& ts.sequence == increments_before(steps, n)
            &&& ts.timestamp == word_tick(layout, start)
        },
{
    lemma_word_fields(layout, start);
    lemma_word_within_tick(layout, start, steps, n, n);
}

} // verus!
