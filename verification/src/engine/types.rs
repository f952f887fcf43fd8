//! Basic types of the rules: abilities, skills, sizes, coordinates.

use vstd::prelude::*;
use vstd::std_specs::ops::AddSpecImpl;
use vstd::std_specs::ops::SubSpecImpl;

verus! {

/// The six abilities of a creature.
#[derive(Clone, Copy, Debug, PartialEq, Eq, Structural)]
pub enum AbilityScoreType {
    Strength,
    Dexterity,
    Constitution,
    Intelligence,
    Wisdom,
    Charisma,
}

/// What a creature can be skilled in.
#[derive(Clone, Copy, Debug, PartialEq, Eq, Hash, Structural)]
pub enum Skill {
    Acrobatics,
    AnimalHandling,
    Arcana,
    Athletics,
    Deception,
    History,
    Insight,
    Intimidation,
    Investigation,
    Medicine,
    Nature,
    Perception,
    Performance,
    Persuasion,
    Religion,
    SlightOfHand,
    Stealth,
    Survival,
}

/// The kinds of damage.
#[derive(Clone, Copy, Debug, PartialEq, Eq, Structural)]
pub enum DamageType {
    Acid,
    Bludgeoning,
    Cold,
    Fire,
    Force,
    Lightning,
    Necrotic,
    Piercing,
    Poison,
    Psychic,
    Radiant,
    Slashing,
    Thunder,
}

/// Size class of an actor; it determines the side of its square footprint.
#[derive(Clone, Copy, Debug, PartialEq, Eq, Structural)]
pub enum Size {
    Tiny,
    Small,
    Medium,
    Large,
    Huge,
    Gargantuan,
}

/// The languages creatures speak.
#[derive(Clone, Copy, Debug, PartialEq, Eq, Hash, Structural)]
pub enum Language {
    Common,
    CommonSignLanguage,
    Draconic,
    Dwarvish,
    Elvish,
    Giant,
    Gnomish,
    Goblin,
    Halfling,
    Orc,
    Abyssal,
    Celestial,
    DeepSpeech,
    Druidic,
    Infernal,
    Primordial,
    Sylvan,
    ThievesCant,
    Undercommon,
}

/// Senses beyond sight, each with its range.
#[derive(Clone, Copy, Debug, PartialEq, Eq, Hash, Structural)]
pub enum SpecialSense {
    Blindsight(u32),
    Darkvision(u32),
    Tremorsense(u32),
    Truesight(u32),
}

/// A pair of signed grid coordinates.
///
/// The same type serves as an absolute cell address and as a relative
/// offset. Negative components are meaningful only for offsets.
#[derive(Clone, Copy, Debug, PartialEq, Eq, Hash, Structural)]
pub struct Coordinate {
    pub x: isize,
    pub y: isize,
}

impl Coordinate {
    pub fn new(x: isize, y: isize) -> (c: Self)
        ensures
            c.x == x,
            c.y == y,
    {
        Self { x: x, y: y }
    }

    /// The coordinate in the notation `(x, y)`.
    pub fn to_text(&self) -> (text: String)
        ensures
            text@ == crate::engine::util::spec_coord_text(*self),
    {
        crate::engine::util::format_coord(*self)
    }

    /// Whether both components of `self + rhs` fit the coordinate type.
    pub open spec fn can_add(self, rhs: Coordinate) -> bool {
        &&& isize::MIN <= self.x + rhs.x <= isize::MAX
        &&& isize::MIN <= self.y + rhs.y <= isize::MAX
    }

    /// Whether both components of `self - rhs` fit the coordinate type.
    pub open spec fn can_sub(self, rhs: Coordinate) -> bool {
        &&& isize::MIN <= self.x - rhs.x <= isize::MAX
        &&& isize::MIN <= self.y - rhs.y <= isize::MAX
    }

    /// Component-wise sum, or `None` when a component would leave the
    /// coordinate type.
    pub fn checked_add(self, rhs: Coordinate) -> (r: Option<Coordinate>)
        ensures
            self.can_add(rhs) ==> r == Some(
                Coordinate { x: (self.x + rhs.x) as isize, y: (self.y + rhs.y) as isize },
            ),
            !self.can_add(rhs) ==> r.is_none(),
    {
        match (self.x.checked_add(rhs.x), self.y.checked_add(rhs.y)) {
            (Some(x), Some(y)) => Some(Coordinate { x: x, y: y }),
            _ => None,
        }
    }
}

impl core::ops::Add for Coordinate {
    type Output = Coordinate;

    fn add(self, rhs: Coordinate) -> (sum: Coordinate) {
        Coordinate { x: self.x + rhs.x, y: self.y + rhs.y }
    }
}

impl AddSpecImpl for Coordinate {
    open spec fn obeys_add_spec() -> bool {
        true
    }

    open spec fn add_req(self, rhs: Coordinate) -> bool {
        self.can_add(rhs)
    }

    open spec fn add_spec(self, rhs: Coordinate) -> Coordinate {
        Coordinate { x: (self.x + rhs.x) as isize, y: (self.y + rhs.y) as isize }
    }
}

impl core::ops::Sub for Coordinate {
    type Output = Coordinate;

    fn sub(self, rhs: Coordinate) -> (diff: Coordinate) {
        Coordinate { x: self.x - rhs.x, y: self.y - rhs.y }
    }
}

impl SubSpecImpl for Coordinate {
    open spec fn obeys_sub_spec() -> bool {
        true
    }

    open spec fn sub_req(self, rhs: Coordinate) -> bool {
        self.can_sub(rhs)
    }

    open spec fn sub_spec(self, rhs: Coordinate) -> Coordinate {
        Coordinate { x: (self.x - rhs.x) as isize, y: (self.y - rhs.y) as isize }
    }
}

} // verus!
