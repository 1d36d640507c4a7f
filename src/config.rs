use vstd::arithmetic::power2::{
    lemma2_to64, lemma2_to64_rest, lemma_pow2_pos, lemma_pow2_unfold, pow2,
};
use vstd::bits::{lemma_u64_pow2_no_overflow, lemma_u64_shl_is_mul};
use vstd::prelude::*;

use crate::error::SnowflakeGeneratorError;

verus! {

const DEFAULT_TIMESTAMP_BITS: u64 = 41;

const DEFAULT_MACHINE_ID_BITS: u64 = 10;

const DEFAULT_SEQUENCE_ID_BITS: u64 = 12;

/// The widths, in bits, of the three fields of a snowflake. This is the
/// mathematical model of a [`SnowflakeConfig`]: everything else in a
/// configuration is derived from these three numbers.
pub struct BitLayout {
    pub timestamp_bits: u64,
    pub machine_id_bits: u64,
    pub sequence_bits: u64,
}

impl BitLayout {
    /// Every width is positive and together they fit in 64 bits.
    pub open spec fn valid(self) -> bool {
        &&& 0 < self.timestamp_bits
        &&& 0 < self.machine_id_bits
        &&& 0 < self.sequence_bits
        &&& self.timestamp_bits + self.machine_id_bits + self.sequence_bits <= 64
    }

    /// Position of the timestamp field: above the machine id and the sequence.
    pub open spec fn timestamp_shift(self) -> u64 {
        (self.machine_id_bits + self.sequence_bits) as u64
    }

    /// Mask of the timestamp field's width.
    pub open spec fn timestamp_mask(self) -> u64 {
        low_mask(self.timestamp_bits)
    }

    /// Mask of the machine-id field's width.
    pub open spec fn machine_id_mask(self) -> u64 {
        low_mask(self.machine_id_bits)
    }

    /// Mask of the sequence field's width.
    pub open spec fn sequence_mask(self) -> u64 {
        low_mask(self.sequence_bits)
    }

    /// `2^timestamp_bits - 1`.
    pub open spec fn timestamp_max(self) -> u64 {
        (pow2(self.timestamp_bits as nat) - 1) as u64
    }

    /// `2^sequence_bits - 1`.
    pub open spec fn sequence_max(self) -> u64 {
        (pow2(self.sequence_bits as nat) - 1) as u64
    }

    /// The snowflake holding the given fields, high to low: timestamp,
    /// machine id, sequence; each is first cut to its field's width.
    pub open spec fn compose(self, timestamp: u64, machine_id: u64, sequence: u64) -> u64 {
        ((timestamp & self.timestamp_mask()) << self.timestamp_shift()) | ((machine_id
            & self.machine_id_mask()) << self.sequence_bits) | (sequence & self.sequence_mask())
    }

    /// The timestamp field of a snowflake.
    pub open spec fn timestamp_of(self, id: u64) -> u64 {
        (id >> self.timestamp_shift()) & self.timestamp_mask()
    }

    /// The machine-id field of a snowflake.
    pub open spec fn machine_id_of(self, id: u64) -> u64 {
        (id >> self.sequence_bits) & self.machine_id_mask()
    }

    /// The sequence field of a snowflake.
    pub open spec fn sequence_of(self, id: u64) -> u64 {
        id & self.sequence_mask()
    }

    /// The preset of 41 timestamp bits, 10 machine-id bits and 12 sequence bits.
    pub open spec fn default_layout() -> BitLayout {
        BitLayout { timestamp_bits: 41, machine_id_bits: 10, sequence_bits: 12 }
    }
}

/// `(1 << bits) - 1`: a word with its low `bits` bits set.
pub open spec fn low_mask(bits: u64) -> u64 {
    ((1u64 << bits) - 1) as u64
}

/// For a width below 64, the low mask is `2^bits - 1`.
pub proof fn lemma_low_mask_is_pow2_minus_one(bits: u64)
    requires
        bits < 64,
    ensures
        low_mask(bits) as int == pow2(bits as nat) - 1,
        0 < pow2(bits as nat) < 0x1_0000_0000_0000_0000,
{
    lemma_pow2_pos(bits as nat);
    lemma_u64_pow2_no_overflow(bits as nat);
    lemma_u64_shl_is_mul(1u64, bits);
    lemma2_to64_rest();
    assert(1u64 << bits == pow2(bits as nat));
}

/// Builds the mask of the low `bits` bits.
pub(crate) fn build_mask(bits: u64) -> (r: u64)
    requires
        bits < 64,
    ensures
        r == low_mask(bits),
{
    proof {
        lemma_low_mask_is_pow2_minus_one(bits);
        lemma_u64_shl_is_mul(1u64, bits);
    }
    (1u64 << bits) - 1
}

/// Each field of a composed snowflake reads back as the value put in, cut to
/// the field's width.
pub proof fn lemma_compose_fields(layout: BitLayout, timestamp: u64, machine_id: u64, sequence: u64)
    requires
        layout.valid(),
    ensures
        layout.timestamp_of(layout.compose(timestamp, machine_id, sequence)) == timestamp
            & layout.timestamp_mask(),
        layout.machine_id_of(layout.compose(timestamp, machine_id, sequence)) == machine_id
            & layout.machine_id_mask(),
        layout.sequence_of(layout.compose(timestamp, machine_id, sequence)) == sequence
            & layout.sequence_mask(),
{
    let t = layout.timestamp_bits;
    let m = layout.machine_id_bits;
    let s = layout.sequence_bits;
    assert({
        let id = ((timestamp & low_mask(t)) << ((m + s) as u64)) | ((machine_id & low_mask(m))
            << s) | (sequence & low_mask(s));
        &&& (id >> ((m + s) as u64)) & low_mask(t) == timestamp & low_mask(t)
        &&& (id >> s) & low_mask(m) == machine_id & low_mask(m)
        &&& id & low_mask(s) == sequence & low_mask(s)
    }) by (bit_vector)
        requires
            0 < t,
            0 < m,
            0 < s,
            t + m + s <= 64,
    ;
}

/// The default layout is valid; its largest timestamp is `2^41 - 1` and its
/// largest sequence `2^12 - 1`.
pub proof fn lemma_default_layout()
    ensures
        BitLayout::default_layout().valid(),
        BitLayout::default_layout().timestamp_max() == 0x1FF_FFFF_FFFF,
        BitLayout::default_layout().sequence_max() == 0xFFF,
        BitLayout::default_layout().timestamp_shift() == 22,
{
    lemma2_to64();
    lemma2_to64_rest();
}

/// Configuration of a snowflake generator: the number of bits of the
/// timestamp, machine id and sequence fields, with the masks and limits
/// derived from them. Its view is the [`BitLayout`] of the three widths.
#[derive(Debug, Clone, Copy)]
pub struct SnowflakeConfig {
    timestamp_bits: u64,
    machine_id_bits: u64,
    sequence_bits: u64,
    timestamp_mask: u64,
    machine_id_mask: u64,
    sequence_mask: u64,
    timestamp_max: u64,
    sequence_max: u64,
}

impl View for SnowflakeConfig {
    type V = BitLayout;

    closed spec fn view(&self) -> BitLayout {
        BitLayout {
            timestamp_bits: self.timestamp_bits,
            machine_id_bits: self.machine_id_bits,
            sequence_bits: self.sequence_bits,
        }
    }
}

impl SnowflakeConfig {
    /// The widths are valid and every derived value agrees with them.
    #[verifier::type_invariant]
    closed spec fn well_formed(self) -> bool {
        &&& self@.valid()
        &&& self.timestamp_mask == self@.timestamp_mask()
        &&& self.machine_id_mask == self@.machine_id_mask()
        &&& self.sequence_mask == self@.sequence_mask()
        &&& self.timestamp_max == self@.timestamp_max()
        &&& self.sequence_max == self@.sequence_max()
    }

    /// Creates a configuration with the given number of bits for each field.
    /// Fails with `InvalidBitConfig` exactly when a width is zero or the
    /// widths add up to more than 64.
    pub fn new(timestamp_bits: u64, machine_id_bits: u64, sequence_bits: u64) -> (r: Result<
        Self,
        SnowflakeGeneratorError,
    >)
        ensures
            r is Ok <==> (BitLayout { timestamp_bits, machine_id_bits, sequence_bits }).valid(),
            r matches Ok(c) ==> c@ == (BitLayout { timestamp_bits, machine_id_bits, sequence_bits }),
            r matches Err(e) ==> e == SnowflakeGeneratorError::InvalidBitConfig,
    {
        match Self::validate_config(machine_id_bits, sequence_bits, timestamp_bits) {
            Ok(()) => Ok(Self::from_valid_widths(timestamp_bits, machine_id_bits, sequence_bits)),
            Err(e) => Err(e),
        }
    }

    /// Derives the masks and limits of a valid layout.
    fn from_valid_widths(timestamp_bits: u64, machine_id_bits: u64, sequence_bits: u64) -> (r:
        Self)
        requires
            (BitLayout { timestamp_bits, machine_id_bits, sequence_bits }).valid(),
        ensures
            r@ == (BitLayout { timestamp_bits, machine_id_bits, sequence_bits }),
    {
        let timestamp_mask = build_mask(timestamp_bits);
        let machine_id_mask = build_mask(machine_id_bits);
        let sequence_mask = build_mask(sequence_bits);

        let timestamp_max = calc_max(timestamp_bits);
        let sequence_max = calc_max(sequence_bits);

        SnowflakeConfig {
            timestamp_bits,
            machine_id_bits,
            sequence_bits,
            timestamp_mask,
            machine_id_mask,
            sequence_mask,
            timestamp_max,
            sequence_max,
        }
    }

    /// Checks the widths: the sum first, then that none of them is zero.
    fn validate_config(machine_id_bits: u64, sequence_bits: u64, timestamp_bits: u64) -> (r: Result<
        (),
        SnowflakeGeneratorError,
    >)
        ensures
            r is Ok <==> (BitLayout { timestamp_bits, machine_id_bits, sequence_bits }).valid(),
            r matches Err(e) ==> e == SnowflakeGeneratorError::InvalidBitConfig,
    {
        // Each width is compared before it is added, so the sum cannot wrap.
        if timestamp_bits > 64 || machine_id_bits > 64 - timestamp_bits || sequence_bits > 64
            - timestamp_bits - machine_id_bits {
            return Err(SnowflakeGeneratorError::InvalidBitConfig);
        }
        if machine_id_bits == 0 || sequence_bits == 0 || timestamp_bits == 0 {
            Err(SnowflakeGeneratorError::InvalidBitConfig)
        } else {
            Ok(())
        }
    }

    /// Distance of the timestamp field from the low end of a snowflake.
    /// Calling it also tells the caller that the layout is valid.
    pub(crate) fn timestamp_shift(&self) -> (r: u64)
        ensures
            r == self@.timestamp_shift(),
            self@.valid(),
    {
        proof {
            use_type_invariant(self);
        }
        self.machine_id_bits + self.sequence_bits
    }

    /// The largest timestamp value, `2^timestamp_bits - 1`, which is also
    /// the mask of the timestamp field.
    pub fn timestamp_max(&self) -> (r: u64)
        ensures
            r == self@.timestamp_max(),
            r == self@.timestamp_mask(),
    {
        proof {
            use_type_invariant(self);
            lemma_low_mask_is_pow2_minus_one(self@.timestamp_bits);
        }
        self.timestamp_max
    }

    /// The largest sequence value, `2^sequence_bits - 1`.
    pub fn sequence_max(&self) -> (r: u64)
        ensures
            r == self@.sequence_max(),
    {
        proof {
            use_type_invariant(self);
        }
        self.sequence_max
    }

    pub(crate) fn sequence_bits(&self) -> (r: u64)
        ensures
            r == self@.sequence_bits,
    {
        self.sequence_bits
    }

    pub(crate) fn timestamp_mask(&self) -> (r: u64)
        ensures
            r == self@.timestamp_mask(),
    {
        proof {
            use_type_invariant(self);
        }
        self.timestamp_mask
    }

    pub(crate) fn machine_id_mask(&self) -> (r: u64)
        ensures
            r == self@.machine_id_mask(),
    {
        proof {
            use_type_invariant(self);
        }
        self.machine_id_mask
    }

    pub(crate) fn sequence_mask(&self) -> (r: u64)
        ensures
            r == self@.sequence_mask(),
    {
        proof {
            use_type_invariant(self);
        }
        self.sequence_mask
    }
}

impl Default for SnowflakeConfig {
    /// The preset layout of 41 timestamp bits, 10 machine-id bits and 12
    /// sequence bits.
    fn default() -> (r: Self)
        ensures
            r@ == BitLayout::default_layout(),
            r@.timestamp_max() == 0x1FF_FFFF_FFFF,
            r@.sequence_max() == 0xFFF,
    {
        proof {
            lemma_default_layout();
        }
        Self::from_valid_widths(
            DEFAULT_TIMESTAMP_BITS,
            DEFAULT_MACHINE_ID_BITS,
            DEFAULT_SEQUENCE_ID_BITS,
        )
    }
}

/// Computes `2^bits - 1`, the largest value that `bits` bits can hold.
pub(crate) fn calc_max(bits: u64) -> (r: u64)
    requires
        bits < 64,
    ensures
        r as int == pow2(bits as nat) - 1,
{
    proof {
        lemma_low_mask_is_pow2_minus_one(bits);
        lemma2_to64();
    }
    let mut power: u64 = 1;
    let mut i: u64 = 0;
    while i < bits
        invariant
            i <= bits < 64,
            power as int == pow2(i as nat),
        decreases bits - i,
    {
        proof {
            lemma_pow2_unfold((i + 1) as nat);
            lemma_low_mask_is_pow2_minus_one((i + 1) as u64);
        }
        power = power * 2;
        i = i + 1;
    }
    power - 1
}

} // verus!
