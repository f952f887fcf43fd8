//! Dice, rolled by the `tyche` crate.

use tyche::dice::roller::FastRand;
use tyche::dice::roller::Roller;
use tyche::dice::Dice;
use vstd::prelude::*;

verus! {

/// `tyche::dice::roller::FastRand`: a dice roller backed by a pseudo-random
/// generator. Nothing is known of its state.
#[verifier::external_type_specification]
#[verifier::external_body]
pub struct ExFastRand(FastRand);

/// Calls `Roller::roll` on `count` plain dice of `sides` sides, then
/// `Rolled::total`. Without modifiers the roll cannot fail, every die of a
/// `FastRand` roller shows between one and `sides` (zero for a die without
/// sides), and the sum of at most 255 such values cannot overflow the total.
#[verifier::external_body]
pub(crate) fn roll_plain_dice(roller: &mut FastRand, count: u8, sides: u8) -> (total: Option<u16>)
    ensures
        total.is_some(),
        sides > 0 ==> count <= total.unwrap() <= count * sides,
        sides == 0 ==> total.unwrap() == 0,
{
    let dice = Dice::new(count, sides);
    match roller.roll(&dice, true) {
        Ok(rolled) => rolled.total().ok(),
        Err(_) => None,
    }
}

/// Calls `FastRand::default`: a roller whose generator is seeded by the
/// process.
#[verifier::external_body]
pub(crate) fn default_roller() -> (roller: FastRand) {
    FastRand::default()
}

/// Calls `FastRand::with_seed`: a roller whose generator starts from the
/// given seed.
#[verifier::external_body]
pub(crate) fn seeded_roller(seed: u64) -> (roller: FastRand) {
    FastRand::with_seed(seed)
}

/// Mathematical content of [`HitDice`].
pub ghost struct HitDiceView {
    pub count: u8,
    pub sides: u8,
    pub bonus: i32,
}

impl HitDiceView {
    /// Every die has a side, and even the lowest roll is not negative.
    pub open spec fn wf(self) -> bool {
        &&& self.sides >= 1
        &&& self.count + self.bonus >= 0
    }

    /// Whether the dice can come to `hit_points`: every die shows between
    /// one and `sides`, and the constant is added to their sum.
    pub open spec fn can_roll(self, hit_points: i32) -> bool {
        self.count + self.bonus <= hit_points <= self.count * self.sides + self.bonus
    }

    /// Whether whatever the dice show, their sum and the constant fit the
    /// number type of the total.
    pub open spec fn always_fits(self) -> bool {
        self.count * self.sides + self.bonus <= i32::MAX
    }
}

/// The dice that decide the hit points of a creature: `count` dice of
/// `sides` sides each, and a constant added to what they show, as in
/// `2d8+6`. A die has at least one side, and the constant does not take
/// the lowest roll below zero.
#[derive(Clone, Copy, Debug, PartialEq, Eq)]
pub struct HitDice {
    count: u8,
    sides: u8,
    bonus: i32,
}

impl View for HitDice {
    type V = HitDiceView;

    closed spec fn view(&self) -> HitDiceView {
        HitDiceView { count: self.count, sides: self.sides, bonus: self.bonus }
    }
}

impl HitDice {
    #[verifier::type_invariant]
    spec fn has_sides(self) -> bool {
        &&& self.sides >= 1
        &&& self.count + self.bonus >= 0
    }

    /// `count` dice of `sides` sides and the constant `bonus`; nothing
    /// where the dice would have no side or their lowest roll would be
    /// negative.
    pub fn new(count: u8, sides: u8, bonus: i32) -> (dice: Option<HitDice>)
        ensures
            dice.is_some() == (sides >= 1 && count + bonus >= 0),
            dice matches Some(d) ==> d@ == (HitDiceView { count: count, sides: sides, bonus: bonus })
                && d@.wf(),
    {
        if sides >= 1 && bonus >= -(count as i32) {
            Some(HitDice { count: count, sides: sides, bonus: bonus })
        } else {
            None
        }
    }

    pub fn count(&self) -> (count: u8)
        ensures
            count == self@.count,
    {
        self.count
    }

    pub fn sides(&self) -> (sides: u8)
        ensures
            sides == self@.sides,
            sides >= 1,
    {
        proof {
            use_type_invariant(self);
        }
        self.sides
    }

    pub fn bonus(&self) -> (bonus: i32)
        ensures
            bonus == self@.bonus,
    {
        self.bonus
    }

    /// What a total of `total` on the dice comes to with the constant
    /// added; nothing where the sum does not fit the number type.
    pub fn hit_points_for(&self, total: u16) -> (hit_points: Option<i32>)
        ensures
            hit_points.is_some() == (total + self@.bonus <= i32::MAX),
            hit_points matches Some(hp) ==> hp == total + self@.bonus,
    {
        (total as i32).checked_add(self.bonus)
    }

    /// Rolls the dice and adds the constant. Which number comes out is up
    /// to the roller; it is one the dice can come to. The roll fails only
    /// where the sum does not fit the number type, which cannot happen
    /// where even the highest roll fits.
    pub fn roll(&self, roller: &mut FastRand) -> (hit_points: Option<i32>)
        ensures
            self@.wf(),
            hit_points matches Some(hp) ==> self@.can_roll(hp) && hp >= 0,
            hit_points.is_none() ==> !self@.always_fits(),
    {
        proof {
            use_type_invariant(self);
        }
        let total: u16 = roll_plain_dice(roller, self.count, self.sides).unwrap();
        assert(total <= self.count * self.sides <= 255 * 255) by (nonlinear_arith)
            requires
                total <= self.count * self.sides,
                self.count <= 255,
                self.sides <= 255,
        ;
        self.hit_points_for(total)
    }
}

} // verus!
