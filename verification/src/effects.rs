//! The bit-packed record of the effects that are active on a craft.
use vstd::prelude::*;

verus! {

/// An ability that can be used once per craft.
#[derive(Clone, Copy, Debug, PartialEq, Eq, Hash, Structural)]
pub enum SingleUse {
    Unavailable,
    Available,
    Active,
}

/// The effects as plain values: what an [`Effects`] word stands for.
pub struct EffectsData {
    pub inner_quiet: u8,
    pub waste_not: u8,
    pub innovation: u8,
    pub veneration: u8,
    pub great_strides: u8,
    pub muscle_memory: u8,
    pub manipulation: u8,
    pub trained_perfection: SingleUse,
    pub heart_and_soul: SingleUse,
    pub quick_innovation_available: bool,
    pub guard: u8,
}

impl EffectsData {
    /// Every counter is within the range that the game gives it.
    pub open spec fn in_range(self) -> bool {
        &&& self.inner_quiet <= 10
        &&& self.waste_not <= 8
        &&& self.innovation <= 4
        &&& self.veneration <= 4
        &&& self.great_strides <= 3
        &&& self.muscle_memory <= 5
        &&& self.manipulation <= 8
        &&& self.guard <= 1
    }

    /// The effects at the start of a craft, before the guard is set.
    pub open spec fn initial() -> EffectsData {
        EffectsData {
            inner_quiet: 0,
            waste_not: 0,
            innovation: 0,
            veneration: 0,
            great_strides: 0,
            muscle_memory: 0,
            manipulation: 0,
            trained_perfection: SingleUse::Available,
            heart_and_soul: SingleUse::Available,
            quick_innovation_available: true,
            guard: 0,
        }
    }

    /// One step passes: every timed counter that is running loses one tick.
    pub open spec fn tick_down(self) -> EffectsData {
        EffectsData {
            waste_not: tick(self.waste_not),
            innovation: tick(self.innovation),
            veneration: tick(self.veneration),
            great_strides: tick(self.great_strides),
            muscle_memory: tick(self.muscle_memory),
            manipulation: tick(self.manipulation),
            guard: tick(self.guard),
            ..self
        }
    }
}

/// A counter after one tick: one less, and never below zero.
pub open spec fn tick(counter: u8) -> u8 {
    if counter > 0 {
        (counter - 1) as u8
    } else {
        0
    }
}

spec fn low_mask(width: u32) -> u32 {
    ((1u32 << width) - 1) as u32
}

spec fn get_bits(bits: u32, shift: u32, width: u32) -> u32 {
    (bits >> shift) & low_mask(width)
}

spec fn set_bits(bits: u32, shift: u32, width: u32, value: u32) -> u32 {
    (bits & !(low_mask(width) << shift)) | (value << shift)
}

spec fn single_use_of(code: u32) -> SingleUse {
    if code == 1 {
        SingleUse::Available
    } else if code == 2 {
        SingleUse::Active
    } else {
        SingleUse::Unavailable
    }
}

spec fn code_of(value: SingleUse) -> u32 {
    match value {
        SingleUse::Unavailable => 0,
        SingleUse::Available => 1,
        SingleUse::Active => 2,
    }
}

/// A field reads back what was written to it.
proof fn lemma_get_own(bits: u32, shift: u32, width: u32, value: u32)
    by (bit_vector)
    requires
        width >= 1,
        shift + width <= 29,
        value <= low_mask(width),
    ensures
        get_bits(set_bits(bits, shift, width, value), shift, width) == value,
{
}

/// Writing one field leaves a field that does not overlap it as it was.
proof fn lemma_get_other(bits: u32, shift: u32, width: u32, value: u32, s2: u32, w2: u32)
    by (bit_vector)
    requires
        width >= 1,
        w2 >= 1,
        shift + width <= 29,
        s2 + w2 <= 29,
        value <= low_mask(width),
        shift + width <= s2 || s2 + w2 <= shift,
    ensures
        get_bits(set_bits(bits, shift, width, value), s2, w2) == get_bits(bits, s2, w2),
{
}

/// Writing a field keeps the unused high bits clear.
proof fn lemma_high_clear(bits: u32, shift: u32, width: u32, value: u32)
    by (bit_vector)
    requires
        width >= 1,
        shift + width <= 29,
        value <= low_mask(width),
        bits >> 29 == 0,
    ensures
        set_bits(bits, shift, width, value) >> 29 == 0,
{
}

proof fn lemma_masks()
    by (bit_vector)
    ensures
        low_mask(1) == 1,
        low_mask(2) == 3,
        low_mask(3) == 7,
        low_mask(4) == 15,
{
}

/// Two words with clear high bits and the same fields are the same word.
proof fn lemma_fields_determine(a: u32, b: u32)
    by (bit_vector)
    requires
        a >> 29 == 0,
        b >> 29 == 0,
        get_bits(a, 0, 4) == get_bits(b, 0, 4),
        get_bits(a, 4, 4) == get_bits(b, 4, 4),
        get_bits(a, 8, 3) == get_bits(b, 8, 3),
        get_bits(a, 11, 3) == get_bits(b, 11, 3),
        get_bits(a, 14, 2) == get_bits(b, 14, 2),
        get_bits(a, 16, 3) == get_bits(b, 16, 3),
        get_bits(a, 19, 4) == get_bits(b, 19, 4),
        get_bits(a, 23, 2) == get_bits(b, 23, 2),
        get_bits(a, 25, 2) == get_bits(b, 25, 2),
        get_bits(a, 27, 1) == get_bits(b, 27, 1),
        get_bits(a, 28, 1) == get_bits(b, 28, 1),
    ensures
        a == b,
{
}

proof fn lemma_initial_word()
    by (bit_vector)
    ensures
        0x0a80_0000u32 >> 29 == 0,
        get_bits(0x0a80_0000u32, 0, 4) == 0,
        get_bits(0x0a80_0000u32, 4, 4) == 0,
        get_bits(0x0a80_0000u32, 8, 3) == 0,
        get_bits(0x0a80_0000u32, 11, 3) == 0,
        get_bits(0x0a80_0000u32, 14, 2) == 0,
        get_bits(0x0a80_0000u32, 16, 3) == 0,
        get_bits(0x0a80_0000u32, 19, 4) == 0,
        get_bits(0x0a80_0000u32, 23, 2) == 1,
        get_bits(0x0a80_0000u32, 25, 2) == 1,
        get_bits(0x0a80_0000u32, 27, 1) == 1,
        get_bits(0x0a80_0000u32, 28, 1) == 0,
{
}

/// The effects of a craft, packed into one word.
///
/// From the low bit up: inner quiet (4 bits), waste not (4), innovation (3),
/// veneration (3), great strides (2), muscle memory (3), manipulation (4),
/// trained perfection (2), heart and soul (2), quick innovation available (1),
/// guard (1). The three bits above them stay clear. A counter takes any value that
/// fits its bits; the simulation keeps each within the range that the game gives it
/// (see [`EffectsData::in_range`]).
#[derive(Clone, Copy, Debug, PartialEq, Eq, Hash, Structural)]
pub struct Effects {
    bits: u32,
}

fn one_less(counter: u8) -> (r: u8)
    ensures
        r == tick(counter),
{
    if counter > 0 {
        counter - 1
    } else {
        0
    }
}

fn read_field(bits: u32, shift: u32, width: u32) -> (r: u32)
    requires
        1 <= width <= 4,
        shift + width <= 29,
    ensures
        r == get_bits(bits, shift, width),
        r <= low_mask(width),
        r <= 15,
{
    assert(1u32 << width >= 1 && ((bits >> shift) & (((1u32 << width) - 1) as u32)) <= (((1u32
        << width) - 1) as u32) && (((1u32 << width) - 1) as u32) <= 15) by (bit_vector)
        requires
            1 <= width <= 4,
    ;
    (bits >> shift) & ((1u32 << width) - 1)
}

fn write_field(bits: u32, shift: u32, width: u32, value: u32) -> (r: u32)
    requires
        1 <= width <= 4,
        shift + width <= 29,
        value <= low_mask(width),
        bits >> 29 == 0,
    ensures
        r == set_bits(bits, shift, width, value),
        r >> 29 == 0,
        get_bits(r, shift, width) == value,
        forall|s2: u32, w2: u32|
            1 <= w2 && s2 + w2 <= 29 && (shift + width <= s2 || s2 + w2 <= shift)
                ==> #[trigger] get_bits(r, s2, w2) == get_bits(bits, s2, w2),
{
    assert(1u32 << width >= 1) by (bit_vector)
        requires
            1 <= width <= 4,
    ;
    let r: u32 = (bits & !(((1u32 << width) - 1) << shift)) | (value << shift);
    proof {
        lemma_get_own(bits, shift, width, value);
        lemma_high_clear(bits, shift, width, value);
        assert forall|s2: u32, w2: u32|
            1 <= w2 && s2 + w2 <= 29 && (shift + width <= s2 || s2 + w2
                <= shift) implies #[trigger] get_bits(r, s2, w2) == get_bits(bits, s2, w2) by {
            lemma_get_other(bits, shift, width, value, s2, w2);
        }
    }
    r
}

impl Effects {
    /// The unused high bits are clear and both single-use fields hold one of their three codes.
    #[verifier::type_invariant]
    pub closed spec fn wf(self) -> bool {
        &&& self.bits >> 29 == 0
        &&& get_bits(self.bits, 23, 2) <= 2
        &&& get_bits(self.bits, 25, 2) <= 2
    }

    pub closed spec fn view(self) -> EffectsData {
        EffectsData {
            inner_quiet: get_bits(self.bits, 0, 4) as u8,
            waste_not: get_bits(self.bits, 4, 4) as u8,
            innovation: get_bits(self.bits, 8, 3) as u8,
            veneration: get_bits(self.bits, 11, 3) as u8,
            great_strides: get_bits(self.bits, 14, 2) as u8,
            muscle_memory: get_bits(self.bits, 16, 3) as u8,
            manipulation: get_bits(self.bits, 19, 4) as u8,
            trained_perfection: single_use_of(get_bits(self.bits, 23, 2)),
            heart_and_soul: single_use_of(get_bits(self.bits, 25, 2)),
            quick_innovation_available: get_bits(self.bits, 27, 1) == 1,
            guard: get_bits(self.bits, 28, 1) as u8,
        }
    }

    /// Well-formed effects that stand for the same values are the same effects.
    pub proof fn lemma_view_determines(a: Effects, b: Effects)
        requires
            a.wf(),
            b.wf(),
            a@ == b@,
        ensures
            a == b,
    {
        let x = a.bits;
        let y = b.bits;
        assert(forall|s: u32, w: u32| #[trigger] get_bits(x, s, w) <= low_mask(w)) by {
            assert forall|s: u32, w: u32| #[trigger] get_bits(x, s, w) <= low_mask(w) by {
                assert(((x >> s) & low_mask(w)) <= low_mask(w)) by (bit_vector);
            }
        }
        assert(forall|s: u32, w: u32| #[trigger] get_bits(y, s, w) <= low_mask(w)) by {
            assert forall|s: u32, w: u32| #[trigger] get_bits(y, s, w) <= low_mask(w) by {
                assert(((y >> s) & low_mask(w)) <= low_mask(w)) by (bit_vector);
            }
        }
        lemma_masks();
        assert(get_bits(x, 0, 4) == get_bits(y, 0, 4));
        assert(get_bits(x, 4, 4) == get_bits(y, 4, 4));
        assert(get_bits(x, 8, 3) == get_bits(y, 8, 3));
        assert(get_bits(x, 11, 3) == get_bits(y, 11, 3));
        assert(get_bits(x, 14, 2) == get_bits(y, 14, 2));
        assert(get_bits(x, 16, 3) == get_bits(y, 16, 3));
        assert(get_bits(x, 19, 4) == get_bits(y, 19, 4));
        assert(get_bits(x, 23, 2) == get_bits(y, 23, 2));
        assert(get_bits(x, 25, 2) == get_bits(y, 25, 2));
        assert(get_bits(x, 27, 1) == get_bits(y, 27, 1));
        assert(get_bits(x, 28, 1) == get_bits(y, 28, 1));
        lemma_fields_determine(x, y);
    }

    /// What the field widths alone say of the counters.
    pub proof fn lemma_view_bounds(self)
        ensures
            self@.fits(),
    {
        let x = self.bits;
        assert forall|s: u32, w: u32| #[trigger] get_bits(x, s, w) <= low_mask(w) by {
            assert(((x >> s) & low_mask(w)) <= low_mask(w)) by (bit_vector);
        }
        lemma_masks();
        assert(get_bits(x, 0, 4) <= 15);
        assert(get_bits(x, 4, 4) <= 15);
        assert(get_bits(x, 8, 3) <= 7);
        assert(get_bits(x, 11, 3) <= 7);
        assert(get_bits(x, 14, 2) <= 3);
        assert(get_bits(x, 16, 3) <= 7);
        assert(get_bits(x, 19, 4) <= 15);
        assert(get_bits(x, 28, 1) <= 1);
    }

    /// No effect is active and every single-use ability is still available.
    pub fn new() -> (r: Effects)
        ensures
            r@ == EffectsData::initial(),
    {
        proof {
            lemma_initial_word();
        }
        Effects { bits: 0x0a80_0000 }
    }

    /// The packed word, which names the effects: see [`EffectsData::lemma_word_names`].
    pub fn bits(&self) -> (r: u32)
        ensures
            r == self@.word(),
            r < 0x2000_0000,
    {
        proof {
            use_type_invariant(self);
            self.lemma_view_bounds();
            self@.lemma_word();
            Self::lemma_view_determines(*self, self@.packed());
            lemma_high_bound(self.bits);
        }
        self.bits
    }

    fn counter(&self, shift: u32, width: u32) -> (r: u8)
        requires
            1 <= width <= 4,
            shift + width <= 29,
        ensures
            r == get_bits(self.bits, shift, width),
            r <= low_mask(width),
    {
        read_field(self.bits, shift, width) as u8
    }

    fn with_field(self, shift: u32, width: u32, value: u32) -> (r: Effects)
        requires
            1 <= width <= 4,
            shift + width <= 23 || (shift == 23 && width == 2 && value <= 2) || (shift == 25
                && width == 2 && value <= 2) || (27 <= shift && shift + width <= 29),
            value <= low_mask(width),
        ensures
            get_bits(r.bits, shift, width) == value,
            forall|s2: u32, w2: u32|
                1 <= w2 && s2 + w2 <= 29 && (shift + width <= s2 || s2 + w2 <= shift)
                    ==> #[trigger] get_bits(r.bits, s2, w2) == get_bits(self.bits, s2, w2),
    {
        proof {
            use_type_invariant(self);
        }
        let bits = write_field(self.bits, shift, width, value);
        Effects { bits }
    }

    /// The stacks of Inner Quiet.
    pub fn inner_quiet(&self) -> (r: u8)
        ensures
            r == self@.inner_quiet,
            r <= 15,
    {
        proof {
            lemma_masks();
        }
        self.counter(0, 4)
    }

    pub fn with_inner_quiet(self, value: u8) -> (r: Effects)
        requires
            value <= 15,
        ensures
            r@ == (EffectsData { inner_quiet: value, ..self@ }),
    {
        proof {
            lemma_masks();
        }
        self.with_field(0, 4, value as u32)
    }

    pub fn set_inner_quiet(&mut self, value: u8)
        requires
            value <= 15,
        ensures
            final(self)@ == (EffectsData { inner_quiet: value, ..old(self)@ }),
    {
        *self = self.with_inner_quiet(value);
    }

    /// The steps for which Waste Not still halves durability loss.
    pub fn waste_not(&self) -> (r: u8)
        ensures
            r == self@.waste_not,
            r <= 15,
    {
        proof {
            lemma_masks();
        }
        self.counter(4, 4)
    }

    pub fn with_waste_not(self, value: u8) -> (r: Effects)
        requires
            value <= 15,
        ensures
            r@ == (EffectsData { waste_not: value, ..self@ }),
    {
        proof {
            lemma_masks();
        }
        self.with_field(4, 4, value as u32)
    }

    pub fn set_waste_not(&mut self, value: u8)
        requires
            value <= 15,
        ensures
            final(self)@ == (EffectsData { waste_not: value, ..old(self)@ }),
    {
        *self = self.with_waste_not(value);
    }

    /// The steps for which Innovation still raises quality.
    pub fn innovation(&self) -> (r: u8)
        ensures
            r == self@.innovation,
            r <= 7,
    {
        proof {
            lemma_masks();
        }
        self.counter(8, 3)
    }

    pub fn with_innovation(self, value: u8) -> (r: Effects)
        requires
            value <= 7,
        ensures
            r@ == (EffectsData { innovation: value, ..self@ }),
    {
        proof {
            lemma_masks();
        }
        self.with_field(8, 3, value as u32)
    }

    pub fn set_innovation(&mut self, value: u8)
        requires
            value <= 7,
        ensures
            final(self)@ == (EffectsData { innovation: value, ..old(self)@ }),
    {
        *self = self.with_innovation(value);
    }

    /// The steps for which Veneration still raises progress.
    pub fn veneration(&self) -> (r: u8)
        ensures
            r == self@.veneration,
            r <= 7,
    {
        proof {
            lemma_masks();
        }
        self.counter(11, 3)
    }

    pub fn with_veneration(self, value: u8) -> (r: Effects)
        requires
            value <= 7,
        ensures
            r@ == (EffectsData { veneration: value, ..self@ }),
    {
        proof {
            lemma_masks();
        }
        self.with_field(11, 3, value as u32)
    }

    pub fn set_veneration(&mut self, value: u8)
        requires
            value <= 7,
        ensures
            final(self)@ == (EffectsData { veneration: value, ..old(self)@ }),
    {
        *self = self.with_veneration(value);
    }

    /// The steps for which Great Strides still waits for a touch.
    pub fn great_strides(&self) -> (r: u8)
        ensures
            r == self@.great_strides,
            r <= 3,
    {
        proof {
            lemma_masks();
        }
        self.counter(14, 2)
    }

    pub fn with_great_strides(self, value: u8) -> (r: Effects)
        requires
            value <= 3,
        ensures
            r@ == (EffectsData { great_strides: value, ..self@ }),
    {
        proof {
            lemma_masks();
        }
        self.with_field(14, 2, value as u32)
    }

    pub fn set_great_strides(&mut self, value: u8)
        requires
            value <= 3,
        ensures
            final(self)@ == (EffectsData { great_strides: value, ..old(self)@ }),
    {
        *self = self.with_great_strides(value);
    }

    /// The steps for which Muscle Memory still waits for a synthesis.
    pub fn muscle_memory(&self) -> (r: u8)
        ensures
            r == self@.muscle_memory,
            r <= 7,
    {
        proof {
            lemma_masks();
        }
        self.counter(16, 3)
    }

    pub fn with_muscle_memory(self, value: u8) -> (r: Effects)
        requires
            value <= 7,
        ensures
            r@ == (EffectsData { muscle_memory: value, ..self@ }),
    {
        proof {
            lemma_masks();
        }
        self.with_field(16, 3, value as u32)
    }

    pub fn set_muscle_memory(&mut self, value: u8)
        requires
            value <= 7,
        ensures
            final(self)@ == (EffectsData { muscle_memory: value, ..old(self)@ }),
    {
        *self = self.with_muscle_memory(value);
    }

    /// The steps for which Manipulation still restores durability.
    pub fn manipulation(&self) -> (r: u8)
        ensures
            r == self@.manipulation,
            r <= 15,
    {
        proof {
            lemma_masks();
        }
        self.counter(19, 4)
    }

    pub fn with_manipulation(self, value: u8) -> (r: Effects)
        requires
            value <= 15,
        ensures
            r@ == (EffectsData { manipulation: value, ..self@ }),
    {
        proof {
            lemma_masks();
        }
        self.with_field(19, 4, value as u32)
    }

    pub fn set_manipulation(&mut self, value: u8)
        requires
            value <= 15,
        ensures
            final(self)@ == (EffectsData { manipulation: value, ..old(self)@ }),
    {
        *self = self.with_manipulation(value);
    }

    /// Whether the next step is safe from a Poor condition.
    pub fn guard(&self) -> (r: u8)
        ensures
            r == self@.guard,
            r <= 1,
    {
        proof {
            lemma_masks();
        }
        self.counter(28, 1)
    }

    pub fn with_guard(self, value: u8) -> (r: Effects)
        requires
            value <= 1,
        ensures
            r@ == (EffectsData { guard: value, ..self@ }),
    {
        proof {
            lemma_masks();
        }
        self.with_field(28, 1, value as u32)
    }

    pub fn set_guard(&mut self, value: u8)
        requires
            value <= 1,
        ensures
            final(self)@ == (EffectsData { guard: value, ..old(self)@ }),
    {
        *self = self.with_guard(value);
    }

    /// Where Trained Perfection stands: still to be used, in force, or spent.
    pub fn trained_perfection(&self) -> (r: SingleUse)
        ensures
            r == self@.trained_perfection,
    {
        let code = read_field(self.bits, 23, 2);
        if code == 1 {
            SingleUse::Available
        } else if code == 2 {
            SingleUse::Active
        } else {
            SingleUse::Unavailable
        }
    }

    pub fn with_trained_perfection(self, value: SingleUse) -> (r: Effects)
        ensures
            r@ == (EffectsData { trained_perfection: value, ..self@ }),
    {
        proof {
            lemma_masks();
        }
        let code: u32 = match value {
            SingleUse::Unavailable => 0,
            SingleUse::Available => 1,
            SingleUse::Active => 2,
        };
        self.with_field(23, 2, code)
    }

    pub fn set_trained_perfection(&mut self, value: SingleUse)
        ensures
            final(self)@ == (EffectsData { trained_perfection: value, ..old(self)@ }),
    {
        *self = self.with_trained_perfection(value);
    }

    /// Where Heart and Soul stands: still to be used, in force, or spent.
    pub fn heart_and_soul(&self) -> (r: SingleUse)
        ensures
            r == self@.heart_and_soul,
    {
        let code = read_field(self.bits, 25, 2);
        if code == 1 {
            SingleUse::Available
        } else if code == 2 {
            SingleUse::Active
        } else {
            SingleUse::Unavailable
        }
    }

    pub fn with_heart_and_soul(self, value: SingleUse) -> (r: Effects)
        ensures
            r@ == (EffectsData { heart_and_soul: value, ..self@ }),
    {
        proof {
            lemma_masks();
        }
        let code: u32 = match value {
            SingleUse::Unavailable => 0,
            SingleUse::Available => 1,
            SingleUse::Active => 2,
        };
        self.with_field(25, 2, code)
    }

    pub fn set_heart_and_soul(&mut self, value: SingleUse)
        ensures
            final(self)@ == (EffectsData { heart_and_soul: value, ..old(self)@ }),
    {
        *self = self.with_heart_and_soul(value);
    }

    /// Whether Quick Innovation can still be used.
    pub fn quick_innovation_available(&self) -> (r: bool)
        ensures
            r == self@.quick_innovation_available,
    {
        read_field(self.bits, 27, 1) == 1
    }

    pub fn with_quick_innovation_available(self, value: bool) -> (r: Effects)
        ensures
            r@ == (EffectsData { quick_innovation_available: value, ..self@ }),
    {
        proof {
            lemma_masks();
        }
        let code: u32 = if value {
            1
        } else {
            0
        };
        self.with_field(27, 1, code)
    }

    pub fn set_quick_innovation_available(&mut self, value: bool)
        ensures
            final(self)@ == (EffectsData { quick_innovation_available: value, ..old(self)@ }),
    {
        *self = self.with_quick_innovation_available(value);
    }

    /// One step passes: every timed counter that is running loses one tick; inner quiet
    /// and the single-use abilities stay as they are.
    pub fn tick_down(&mut self)
        ensures
            final(self)@ == old(self)@.tick_down(),
    {
        proof {
            lemma_masks();
        }
        let waste_not = self.counter(4, 4);
        let innovation = self.counter(8, 3);
        let veneration = self.counter(11, 3);
        let great_strides = self.counter(14, 2);
        let muscle_memory = self.counter(16, 3);
        let manipulation = self.counter(19, 4);
        let guard = self.counter(28, 1);
        let ticked = self.with_field(4, 4, one_less(waste_not) as u32).with_field(
            8,
            3,
            one_less(innovation) as u32,
        ).with_field(11, 3, one_less(veneration) as u32).with_field(
            14,
            2,
            one_less(great_strides) as u32,
        ).with_field(16, 3, one_less(muscle_memory) as u32).with_field(
            19,
            4,
            one_less(manipulation) as u32,
        ).with_field(28, 1, one_less(guard) as u32);
        *self = ticked;
    }
}

proof fn lemma_high_bound(x: u32)
    by (bit_vector)
    requires
        x >> 29 == 0,
    ensures
        x < 0x2000_0000,
{
}

proof fn lemma_zero_word()
    by (bit_vector)
    ensures
        0u32 >> 29 == 0,
{
}

/// What writing a field does to a word, in one place.
proof fn lemma_write(bits: u32, shift: u32, width: u32, value: u32)
    requires
        1 <= width <= 4,
        shift + width <= 29,
        value <= low_mask(width),
        bits >> 29 == 0,
    ensures
        set_bits(bits, shift, width, value) >> 29 == 0,
        get_bits(set_bits(bits, shift, width, value), shift, width) == value,
        forall|s2: u32, w2: u32|
            1 <= w2 && s2 + w2 <= 29 && (shift + width <= s2 || s2 + w2 <= shift)
                ==> #[trigger] get_bits(set_bits(bits, shift, width, value), s2, w2) == get_bits(
                bits,
                s2,
                w2,
            ),
{
    lemma_get_own(bits, shift, width, value);
    lemma_high_clear(bits, shift, width, value);
    assert forall|s2: u32, w2: u32|
        1 <= w2 && s2 + w2 <= 29 && (shift + width <= s2 || s2 + w2
            <= shift) implies #[trigger] get_bits(set_bits(bits, shift, width, value), s2, w2)
        == get_bits(bits, s2, w2) by {
        lemma_get_other(bits, shift, width, value, s2, w2);
    }
}

impl EffectsData {
    /// Every counter fits the bits that the word has for it.
    pub open spec fn fits(self) -> bool {
        &&& self.inner_quiet <= 15
        &&& self.waste_not <= 15
        &&& self.innovation <= 7
        &&& self.veneration <= 7
        &&& self.great_strides <= 3
        &&& self.muscle_memory <= 7
        &&& self.manipulation <= 15
        &&& self.guard <= 1
    }

    /// The word that holds these values.
    pub closed spec fn word(self) -> u32 {
        let w0 = set_bits(0, 0, 4, self.inner_quiet as u32);
        let w1 = set_bits(w0, 4, 4, self.waste_not as u32);
        let w2 = set_bits(w1, 8, 3, self.innovation as u32);
        let w3 = set_bits(w2, 11, 3, self.veneration as u32);
        let w4 = set_bits(w3, 14, 2, self.great_strides as u32);
        let w5 = set_bits(w4, 16, 3, self.muscle_memory as u32);
        let w6 = set_bits(w5, 19, 4, self.manipulation as u32);
        let w7 = set_bits(w6, 23, 2, code_of(self.trained_perfection));
        let w8 = set_bits(w7, 25, 2, code_of(self.heart_and_soul));
        let w9 = set_bits(
            w8,
            27,
            1,
            if self.quick_innovation_available {
                1u32
            } else {
                0u32
            },
        );
        set_bits(w9, 28, 1, self.guard as u32)
    }

    /// The effects that hold these values.
    pub closed spec fn packed(self) -> Effects {
        Effects { bits: self.word() }
    }

    /// The word of values that fit is well-formed and stands for the values.
    pub proof fn lemma_word(self)
        requires
            self.fits(),
        ensures
            self.packed().wf(),
            self.packed()@ == self,
            self.word() < 0x2000_0000,
    {
        lemma_masks();
        lemma_zero_word();
        let w0 = set_bits(0, 0, 4, self.inner_quiet as u32);
        lemma_write(0, 0, 4, self.inner_quiet as u32);
        let w1 = set_bits(w0, 4, 4, self.waste_not as u32);
        lemma_write(w0, 4, 4, self.waste_not as u32);
        let w2 = set_bits(w1, 8, 3, self.innovation as u32);
        lemma_write(w1, 8, 3, self.innovation as u32);
        let w3 = set_bits(w2, 11, 3, self.veneration as u32);
        lemma_write(w2, 11, 3, self.veneration as u32);
        let w4 = set_bits(w3, 14, 2, self.great_strides as u32);
        lemma_write(w3, 14, 2, self.great_strides as u32);
        let w5 = set_bits(w4, 16, 3, self.muscle_memory as u32);
        lemma_write(w4, 16, 3, self.muscle_memory as u32);
        let w6 = set_bits(w5, 19, 4, self.manipulation as u32);
        lemma_write(w5, 19, 4, self.manipulation as u32);
        let w7 = set_bits(w6, 23, 2, code_of(self.trained_perfection));
        lemma_write(w6, 23, 2, code_of(self.trained_perfection));
        let w8 = set_bits(w7, 25, 2, code_of(self.heart_and_soul));
        lemma_write(w7, 25, 2, code_of(self.heart_and_soul));
        let flag = if self.quick_innovation_available {
            1u32
        } else {
            0u32
        };
        let w9 = set_bits(w8, 27, 1, flag);
        lemma_write(w8, 27, 1, flag);
        let w10 = set_bits(w9, 28, 1, self.guard as u32);
        lemma_write(w9, 28, 1, self.guard as u32);
        assert(get_bits(w10, 0, 4) == self.inner_quiet) by {
            assert(get_bits(w1, 0, 4) == get_bits(w0, 0, 4));
            assert(get_bits(w2, 0, 4) == get_bits(w1, 0, 4));
            assert(get_bits(w3, 0, 4) == get_bits(w2, 0, 4));
            assert(get_bits(w4, 0, 4) == get_bits(w3, 0, 4));
            assert(get_bits(w5, 0, 4) == get_bits(w4, 0, 4));
            assert(get_bits(w6, 0, 4) == get_bits(w5, 0, 4));
            assert(get_bits(w7, 0, 4) == get_bits(w6, 0, 4));
            assert(get_bits(w8, 0, 4) == get_bits(w7, 0, 4));
            assert(get_bits(w9, 0, 4) == get_bits(w8, 0, 4));
            assert(get_bits(w10, 0, 4) == get_bits(w9, 0, 4));
        }
        assert(get_bits(w10, 4, 4) == self.waste_not) by {
            assert(get_bits(w2, 4, 4) == get_bits(w1, 4, 4));
            assert(get_bits(w3, 4, 4) == get_bits(w2, 4, 4));
            assert(get_bits(w4, 4, 4) == get_bits(w3, 4, 4));
            assert(get_bits(w5, 4, 4) == get_bits(w4, 4, 4));
            assert(get_bits(w6, 4, 4) == get_bits(w5, 4, 4));
            assert(get_bits(w7, 4, 4) == get_bits(w6, 4, 4));
            assert(get_bits(w8, 4, 4) == get_bits(w7, 4, 4));
            assert(get_bits(w9, 4, 4) == get_bits(w8, 4, 4));
            assert(get_bits(w10, 4, 4) == get_bits(w9, 4, 4));
        }
        assert(get_bits(w10, 8, 3) == self.innovation) by {
            assert(get_bits(w3, 8, 3) == get_bits(w2, 8, 3));
            assert(get_bits(w4, 8, 3) == get_bits(w3, 8, 3));
            assert(get_bits(w5, 8, 3) == get_bits(w4, 8, 3));
            assert(get_bits(w6, 8, 3) == get_bits(w5, 8, 3));
            assert(get_bits(w7, 8, 3) == get_bits(w6, 8, 3));
            assert(get_bits(w8, 8, 3) == get_bits(w7, 8, 3));
            assert(get_bits(w9, 8, 3) == get_bits(w8, 8, 3));
            assert(get_bits(w10, 8, 3) == get_bits(w9, 8, 3));
        }
        assert(get_bits(w10, 11, 3) == self.veneration) by {
            assert(get_bits(w4, 11, 3) == get_bits(w3, 11, 3));
            assert(get_bits(w5, 11, 3) == get_bits(w4, 11, 3));
            assert(get_bits(w6, 11, 3) == get_bits(w5, 11, 3));
            assert(get_bits(w7, 11, 3) == get_bits(w6, 11, 3));
            assert(get_bits(w8, 11, 3) == get_bits(w7, 11, 3));
            assert(get_bits(w9, 11, 3) == get_bits(w8, 11, 3));
            assert(get_bits(w10, 11, 3) == get_bits(w9, 11, 3));
        }
        assert(get_bits(w10, 14, 2) == self.great_strides) by {
            assert(get_bits(w5, 14, 2) == get_bits(w4, 14, 2));
            assert(get_bits(w6, 14, 2) == get_bits(w5, 14, 2));
            assert(get_bits(w7, 14, 2) == get_bits(w6, 14, 2));
            assert(get_bits(w8, 14, 2) == get_bits(w7, 14, 2));
            assert(get_bits(w9, 14, 2) == get_bits(w8, 14, 2));
            assert(get_bits(w10, 14, 2) == get_bits(w9, 14, 2));
        }
        assert(get_bits(w10, 16, 3) == self.muscle_memory) by {
            assert(get_bits(w6, 16, 3) == get_bits(w5, 16, 3));
            assert(get_bits(w7, 16, 3) == get_bits(w6, 16, 3));
            assert(get_bits(w8, 16, 3) == get_bits(w7, 16, 3));
            assert(get_bits(w9, 16, 3) == get_bits(w8, 16, 3));
            assert(get_bits(w10, 16, 3) == get_bits(w9, 16, 3));
        }
        assert(get_bits(w10, 19, 4) == self.manipulation) by {
            assert(get_bits(w7, 19, 4) == get_bits(w6, 19, 4));
            assert(get_bits(w8, 19, 4) == get_bits(w7, 19, 4));
            assert(get_bits(w9, 19, 4) == get_bits(w8, 19, 4));
            assert(get_bits(w10, 19, 4) == get_bits(w9, 19, 4));
        }
        assert(get_bits(w10, 23, 2) == code_of(self.trained_perfection)) by {
            assert(get_bits(w8, 23, 2) == get_bits(w7, 23, 2));
            assert(get_bits(w9, 23, 2) == get_bits(w8, 23, 2));
            assert(get_bits(w10, 23, 2) == get_bits(w9, 23, 2));
        }
        assert(get_bits(w10, 25, 2) == code_of(self.heart_and_soul)) by {
            assert(get_bits(w9, 25, 2) == get_bits(w8, 25, 2));
            assert(get_bits(w10, 25, 2) == get_bits(w9, 25, 2));
        }
        assert(get_bits(w10, 27, 1) == flag) by {
            assert(get_bits(w10, 27, 1) == get_bits(w9, 27, 1));
        }
        assert(get_bits(w10, 28, 1) == self.guard);
        assert(w10 == self.word());
        lemma_high_bound(w10);
    }

    /// The word names the values: values that fit and have the same word are the same.
    pub proof fn lemma_word_names(a: EffectsData, b: EffectsData)
        requires
            a.fits(),
            b.fits(),
            a.word() == b.word(),
        ensures
            a == b,
    {
        a.lemma_word();
        b.lemma_word();
    }
}

impl Default for Effects {
    fn default() -> (r: Effects)
        ensures
            r@ == EffectsData::initial(),
    {
        Effects::new()
    }
}

} // verus!
