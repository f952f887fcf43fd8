//! Creature templates, actors, and the resources an actor spends.

use crate::actions::action_template::ActionHandle;
use crate::engine::dice::HitDice;
use crate::engine::dice::roll_plain_dice;
use crate::engine::errors::SpawnError;
use crate::engine::side_effects::Resource;
use crate::engine::types::AbilityScoreType;
use crate::engine::types::Coordinate;
use crate::engine::types::Language;
use crate::engine::types::Size;
use crate::engine::types::Skill;
use crate::engine::types::SpecialSense;
use crate::engine::util::instance_name;
use crate::engine::util::modifier_from_score;
use crate::engine::util::spec_decimal;
use crate::engine::util::spec_modifier_from_score;
use tyche::dice::roller::FastRand;
use vstd::prelude::*;

verus! {

/// The statistics every instance of one kind of creature starts from.
#[derive(Debug)]
pub struct CreatureTemplate {
    pub name: &'static str,
    pub n_instances: usize,
    pub ac: u32,
    /// Dice rolled once per instance for its maximum hit points.
    pub hitpoints: HitDice,
    /// Base speed, in thousandths of a map unit per round.
    pub speed: u64,
    pub strength: u32,
    pub intelligence: u32,
    pub dexterity: u32,
    pub wisdom: u32,
    pub constitution: u32,
    pub charisma: u32,
    pub skills: Vec<Skill>,
    pub senses: Vec<SpecialSense>,
    pub languages: Vec<Language>,
    /// Challenge rating, in thousandths.
    pub cr: u32,
    pub size: Size,
    pub actions: Vec<ActionHandle>,
}

impl CreatureTemplate {
    /// Skills, senses and languages are sets: none of them occurs twice.
    pub open spec fn wf(&self) -> bool {
        &&& self.skills@.no_duplicates()
        &&& self.senses@.no_duplicates()
        &&& self.languages@.no_duplicates()
    }
}

/// Slots of one spell level: how many exist and how many are unspent.
#[derive(Clone, Copy, Debug, PartialEq, Eq, Structural)]
pub struct SpellSlotInfo {
    pub max_spell_slots: u32,
    pub spell_slots: u32,
}

/// Mathematical content of a [`SpellSlotManager`].
///
/// `by_lvl[i]` holds the slots of spell level `i + 1`.
pub ghost struct SpellSlotLedger {
    pub by_lvl: Seq<SpellSlotInfo>,
    pub warlock: SpellSlotInfo,
    pub warlock_lvl: u32,
}

impl SpellSlotLedger {
    /// No level, and not the pact pool either, has more unspent slots than
    /// it has slots.
    pub open spec fn wf(self) -> bool {
        &&& forall|i: int|
            0 <= i < self.by_lvl.len() ==> (#[trigger] self.by_lvl[i]).spell_slots
                <= self.by_lvl[i].max_spell_slots
        &&& self.warlock.spell_slots <= self.warlock.max_spell_slots
    }

    /// A spell level without any slot.
    pub open spec fn no_slots() -> SpellSlotInfo {
        SpellSlotInfo { max_spell_slots: 0, spell_slots: 0 }
    }

    /// Whether the ledger has an entry for spell level `lvl`.
    pub open spec fn has_level(self, lvl: u32) -> bool {
        1 <= lvl <= self.by_lvl.len()
    }

    /// The slots of level `lvl`; a level without an entry has none.
    pub open spec fn slots_at(self, lvl: u32) -> SpellSlotInfo {
        if self.has_level(lvl) {
            self.by_lvl[lvl - 1]
        } else {
            Self::no_slots()
        }
    }

    /// Whether a slot of level `lvl` is left to spend.
    pub open spec fn can_consume(self, lvl: u32) -> bool {
        self.slots_at(lvl).spell_slots >= 1
    }

    /// The ledger after one slot of level `lvl` was spent, if one was left.
    pub open spec fn consumed(self, lvl: u32) -> SpellSlotLedger {
        if self.can_consume(lvl) {
            SpellSlotLedger {
                by_lvl: self.by_lvl.update(
                    lvl - 1,
                    SpellSlotInfo {
                        max_spell_slots: self.slots_at(lvl).max_spell_slots,
                        spell_slots: (self.slots_at(lvl).spell_slots - 1) as u32,
                    },
                ),
                ..self
            }
        } else {
            self
        }
    }

    /// Restoring `qty` slots of level `lvl` stays within that level's maximum.
    pub open spec fn can_restore(self, lvl: u32, qty: u32) -> bool {
        &&& self.has_level(lvl)
        &&& self.slots_at(lvl).spell_slots + qty <= self.slots_at(lvl).max_spell_slots
    }

    /// The ledger after `qty` slots of level `lvl` were given back, if they
    /// fit below the maximum of the level; else the ledger as it is.
    pub open spec fn restored(self, lvl: u32, qty: u32) -> SpellSlotLedger {
        if self.can_restore(lvl, qty) {
            SpellSlotLedger {
                by_lvl: self.by_lvl.update(
                    lvl - 1,
                    SpellSlotInfo {
                        max_spell_slots: self.slots_at(lvl).max_spell_slots,
                        spell_slots: (self.slots_at(lvl).spell_slots + qty) as u32,
                    },
                ),
                ..self
            }
        } else {
            self
        }
    }

    /// Every level back at its maximum.
    pub open spec fn all_restored(self) -> SpellSlotLedger {
        SpellSlotLedger {
            by_lvl: Seq::new(
                self.by_lvl.len(),
                |i: int|
                    SpellSlotInfo {
                        max_spell_slots: self.by_lvl[i].max_spell_slots,
                        spell_slots: self.by_lvl[i].max_spell_slots,
                    },
            ),
            ..self
        }
    }

    /// The per-level entries padded with empty levels up to level `lvl`.
    pub open spec fn padded_to(self, lvl: u32) -> Seq<SpellSlotInfo> {
        if self.by_lvl.len() >= lvl {
            self.by_lvl
        } else {
            self.by_lvl + Seq::new((lvl - self.by_lvl.len()) as nat, |i: int| Self::no_slots())
        }
    }

    /// The ledger with `qty` more slots of level `lvl`, unspent; the levels up
    /// to `lvl` exist afterwards. Level zero does not exist.
    pub open spec fn max_increased(self, lvl: u32, qty: u32) -> SpellSlotLedger {
        if lvl == 0 {
            self
        } else {
            SpellSlotLedger {
                by_lvl: self.padded_to(lvl).update(
                    lvl - 1,
                    SpellSlotInfo {
                        max_spell_slots: (self.slots_at(lvl).max_spell_slots + qty) as u32,
                        spell_slots: (self.slots_at(lvl).spell_slots + qty) as u32,
                    },
                ),
                ..self
            }
        }
    }
}

/// The spell slots of one actor: a ledger by spell level, and a separate
/// pool of pact slots that all share one level.
#[derive(Debug)]
pub struct SpellSlotManager {
    ssi_by_lvl: Vec<SpellSlotInfo>,
    warlock_ssi: SpellSlotInfo,
    warlock_spell_slot_lvl: u32,
}

impl View for SpellSlotManager {
    type V = SpellSlotLedger;

    closed spec fn view(&self) -> SpellSlotLedger {
        SpellSlotLedger {
            by_lvl: self.ssi_by_lvl@,
            warlock: self.warlock_ssi,
            warlock_lvl: self.warlock_spell_slot_lvl,
        }
    }
}

impl Clone for SpellSlotManager {
    fn clone(&self) -> (copy: SpellSlotManager)
        ensures
            copy@ == self@,
    {
        proof {
            use_type_invariant(self);
        }
        SpellSlotManager {
            ssi_by_lvl: copy_vec(&self.ssi_by_lvl),
            warlock_ssi: self.warlock_ssi,
            warlock_spell_slot_lvl: self.warlock_spell_slot_lvl,
        }
    }
}

impl SpellSlotManager {
    #[verifier::type_invariant]
    spec fn never_over_maximum(self) -> bool {
        &&& forall|i: int|
            0 <= i < self.ssi_by_lvl@.len() ==> (#[trigger] self.ssi_by_lvl@[i]).spell_slots
                <= self.ssi_by_lvl@[i].max_spell_slots
        &&& self.warlock_ssi.spell_slots <= self.warlock_ssi.max_spell_slots
    }

    /// Writes the entry of one level.
    fn set_level(&mut self, i: usize, info: SpellSlotInfo)
        requires
            i < old(self)@.by_lvl.len(),
            info.spell_slots <= info.max_spell_slots,
        ensures
            final(self)@ == (SpellSlotLedger {
                by_lvl: old(self)@.by_lvl.update(i as int, info),
                ..old(self)@
            }),
    {
        proof {
            use_type_invariant(&*self);
        }
        let mut taken = SpellSlotManager::new();
        core::mem::swap(self, &mut taken);
        let SpellSlotManager { ssi_by_lvl, warlock_ssi, warlock_spell_slot_lvl } = taken;
        let mut levels = ssi_by_lvl;
        levels.set(i, info);
        *self = SpellSlotManager {
            ssi_by_lvl: levels,
            warlock_ssi: warlock_ssi,
            warlock_spell_slot_lvl: warlock_spell_slot_lvl,
        };
    }

    /// Adds an entry for the next level.
    fn push_level(&mut self, info: SpellSlotInfo)
        requires
            info.spell_slots <= info.max_spell_slots,
        ensures
            final(self)@ == (SpellSlotLedger { by_lvl: old(self)@.by_lvl.push(info), ..old(self)@ }),
    {
        proof {
            use_type_invariant(&*self);
        }
        let mut taken = SpellSlotManager::new();
        core::mem::swap(self, &mut taken);
        let SpellSlotManager { ssi_by_lvl, warlock_ssi, warlock_spell_slot_lvl } = taken;
        let mut levels = ssi_by_lvl;
        levels.push(info);
        *self = SpellSlotManager {
            ssi_by_lvl: levels,
            warlock_ssi: warlock_ssi,
            warlock_spell_slot_lvl: warlock_spell_slot_lvl,
        };
    }

    /// A manager without any slot.
    pub fn new() -> (m: SpellSlotManager)
        ensures
            m@ == (SpellSlotLedger {
                by_lvl: Seq::empty(),
                warlock: SpellSlotLedger::no_slots(),
                warlock_lvl: 0,
            }),
            m@.wf(),
    {
        SpellSlotManager {
            ssi_by_lvl: Vec::new(),
            warlock_ssi: SpellSlotInfo { max_spell_slots: 0, spell_slots: 0 },
            warlock_spell_slot_lvl: 0,
        }
    }

    /// The slots of spell level `lvl`; a level the ledger does not reach,
    /// and level zero, have none. No more slots are unspent than there are.
    pub fn spell_slots(&self, lvl: u32) -> (info: SpellSlotInfo)
        ensures
            info == self@.slots_at(lvl),
            info.spell_slots <= info.max_spell_slots,
            self@.wf(),
    {
        proof {
            use_type_invariant(self);
        }
        if lvl == 0 || lvl as usize > self.ssi_by_lvl.len() {
            SpellSlotInfo { max_spell_slots: 0, spell_slots: 0 }
        } else {
            self.ssi_by_lvl[(lvl - 1) as usize]
        }
    }

    /// Spends one slot of level `lvl` if one is left.
    pub fn consume_spell_slot(&mut self, lvl: u32) -> (spent: bool)
        ensures
            spent == old(self)@.can_consume(lvl),
            final(self)@ == old(self)@.consumed(lvl),
            final(self)@.wf(),
    {
        proof {
            use_type_invariant(&*self);
        }
        if lvl == 0 || lvl as usize > self.ssi_by_lvl.len() {
            return false;
        }
        let i: usize = (lvl - 1) as usize;
        let ssi = self.ssi_by_lvl[i];
        if ssi.spell_slots == 0 {
            return false;
        }
        self.set_level(
            i,
            SpellSlotInfo { max_spell_slots: ssi.max_spell_slots, spell_slots: ssi.spell_slots - 1 },
        );
        true
    }

    /// Gives back `qty` slots of level `lvl`, unless that would exceed the
    /// level's maximum; then nothing changes.
    pub fn restore_spell_slot(&mut self, lvl: u32, qty: u32) -> (restored: bool)
        ensures
            restored == old(self)@.can_restore(lvl, qty),
            final(self)@ == old(self)@.restored(lvl, qty),
            final(self)@.wf(),
    {
        proof {
            use_type_invariant(&*self);
        }
        if lvl == 0 || lvl as usize > self.ssi_by_lvl.len() {
            return false;
        }
        let i: usize = (lvl - 1) as usize;
        let ssi = self.ssi_by_lvl[i];
        if ssi.spell_slots as u64 + qty as u64 > ssi.max_spell_slots as u64 {
            return false;
        }
        self.set_level(
            i,
            SpellSlotInfo {
                max_spell_slots: ssi.max_spell_slots,
                spell_slots: ssi.spell_slots + qty,
            },
        );
        true
    }

    /// Refills every level to its maximum.
    pub fn restore_spell_slots(&mut self)
        ensures
            final(self)@ == old(self)@.all_restored(),
            final(self)@.wf(),
    {
        proof {
            use_type_invariant(&*self);
        }
        let n = self.ssi_by_lvl.len();
        let mut i: usize = 0;
        while i < n
            invariant
                n == self.ssi_by_lvl.len(),
                n == old(self).ssi_by_lvl.len(),
                i <= n,
                old(self)@.wf(),
                self.warlock_ssi == old(self).warlock_ssi,
                self.warlock_spell_slot_lvl == old(self).warlock_spell_slot_lvl,
                forall|j: int|
                    0 <= j < i ==> self.ssi_by_lvl[j] == old(self)@.all_restored().by_lvl[j],
                forall|j: int| i <= j < n ==> self.ssi_by_lvl[j] == old(self).ssi_by_lvl[j],
            decreases n - i,
        {
            let max = self.ssi_by_lvl[i].max_spell_slots;
            self.set_level(i, SpellSlotInfo { max_spell_slots: max, spell_slots: max });
            i += 1;
        }
        assert(self@.by_lvl =~= old(self)@.all_restored().by_lvl);
    }

    /// Adds `qty` slots of level `lvl`, unspent, creating the level (and the
    /// levels below it) when the ledger does not reach it yet. Level zero
    /// does not exist: for it nothing changes.
    pub fn increase_max_spell_slot(&mut self, lvl: u32, qty: u32)
        requires
            old(self)@.slots_at(lvl).max_spell_slots + qty <= u32::MAX,
        ensures
            final(self)@ == old(self)@.max_increased(lvl, qty),
            final(self)@.wf(),
    {
        proof {
            use_type_invariant(&*self);
        }
        if lvl == 0 {
            return ;
        }
        let i: usize = (lvl - 1) as usize;
        while self.ssi_by_lvl.len() <= i
            invariant
                i == lvl - 1,
                old(self)@.wf(),
                self.warlock_ssi == old(self).warlock_ssi,
                self.warlock_spell_slot_lvl == old(self).warlock_spell_slot_lvl,
                old(self).ssi_by_lvl.len() <= self.ssi_by_lvl.len(),
                self.ssi_by_lvl.len() <= lvl || self.ssi_by_lvl.len() == old(self).ssi_by_lvl.len(),
                forall|j: int|
                    0 <= j < old(self).ssi_by_lvl.len() ==> self.ssi_by_lvl[j] == old(
                        self,
                    ).ssi_by_lvl[j],
                forall|j: int|
                    old(self).ssi_by_lvl.len() <= j < self.ssi_by_lvl.len() ==> self.ssi_by_lvl[j]
                        == SpellSlotLedger::no_slots(),
            decreases lvl - self.ssi_by_lvl.len(),
        {
            self.push_level(SpellSlotInfo { max_spell_slots: 0, spell_slots: 0 });
        }
        assert(self.ssi_by_lvl@ =~= old(self)@.padded_to(lvl));
        let ssi = self.ssi_by_lvl[i];
        assert(ssi == old(self)@.slots_at(lvl));
        self.set_level(
            i,
            SpellSlotInfo {
                max_spell_slots: ssi.max_spell_slots + qty,
                spell_slots: ssi.spell_slots + qty,
            },
        );
    }

    /// The pact slots. No more of them are unspent than there are.
    pub fn warlock_spell_slots(&self) -> (info: SpellSlotInfo)
        ensures
            info == self@.warlock,
            info.spell_slots <= info.max_spell_slots,
    {
        proof {
            use_type_invariant(self);
        }
        self.warlock_ssi
    }

    pub fn warlock_spell_slot_lvl(&self) -> (lvl: u32)
        ensures
            lvl == self@.warlock_lvl,
    {
        self.warlock_spell_slot_lvl
    }

    /// Raises the level of the pact slots by `lvls`.
    pub fn upgrade_warlock_spell_slots(&mut self, lvls: u32)
        requires
            old(self)@.warlock_lvl + lvls <= u32::MAX,
        ensures
            final(self)@ == (SpellSlotLedger {
                warlock_lvl: (old(self)@.warlock_lvl + lvls) as u32,
                ..old(self)@
            }),
            final(self)@.wf(),
    {
        proof {
            use_type_invariant(&*self);
        }
        self.warlock_spell_slot_lvl += lvls;
    }

    /// Spends one pact slot if one is left.
    pub fn consume_warlock_spell_slot(&mut self) -> (spent: bool)
        ensures
            spent == (old(self)@.warlock.spell_slots >= 1),
            spent ==> final(self)@ == (SpellSlotLedger {
                warlock: SpellSlotInfo {
                    max_spell_slots: old(self)@.warlock.max_spell_slots,
                    spell_slots: (old(self)@.warlock.spell_slots - 1) as u32,
                },
                ..old(self)@
            }),
            !spent ==> final(self)@ == old(self)@,
            final(self)@.wf(),
    {
        proof {
            use_type_invariant(&*self);
        }
        if self.warlock_ssi.spell_slots == 0 {
            return false;
        }
        self.warlock_ssi.spell_slots -= 1;
        true
    }

    /// Refills the pact slots to their maximum.
    pub fn restore_warlock_spell_slots(&mut self)
        ensures
            final(self)@ == (SpellSlotLedger {
                warlock: SpellSlotInfo {
                    max_spell_slots: old(self)@.warlock.max_spell_slots,
                    spell_slots: old(self)@.warlock.max_spell_slots,
                },
                ..old(self)@
            }),
            final(self)@.wf(),
    {
        proof {
            use_type_invariant(&*self);
        }
        self.warlock_ssi.spell_slots = self.warlock_ssi.max_spell_slots;
    }

    /// Adds one pact slot, unspent.
    pub fn increase_max_warlock_spell_slots(&mut self)
        requires
            old(self)@.warlock.max_spell_slots < u32::MAX,
        ensures
            final(self)@ == (SpellSlotLedger {
                warlock: SpellSlotInfo {
                    max_spell_slots: (old(self)@.warlock.max_spell_slots + 1) as u32,
                    spell_slots: (old(self)@.warlock.spell_slots + 1) as u32,
                },
                ..old(self)@
            }),
            final(self)@.wf(),
    {
        proof {
            use_type_invariant(&*self);
        }
        self.warlock_ssi.max_spell_slots += 1;
        self.warlock_ssi.spell_slots += 1;
    }
}

/// Mathematical content of an [`ActorInstance`].
pub ghost struct ActorView {
    pub name: Seq<char>,
    pub location: Coordinate,
    pub team_id: usize,
    pub base_ac: u32,
    pub base_hitpoints: u32,
    pub base_speed: u64,
    pub base_size: Size,
    pub initiative: Option<i32>,
    pub strength: u32,
    pub intelligence: u32,
    pub dexterity: u32,
    pub wisdom: u32,
    pub constitution: u32,
    pub charisma: u32,
    pub skills: Seq<Skill>,
    pub senses: Seq<SpecialSense>,
    pub languages: Seq<Language>,
    pub cr: u32,
    pub hitpoints: u32,
    pub movement: u64,
    pub action_slots: u32,
    pub bonus_action_slots: u32,
    pub reaction_slots: u32,
    pub legendary_action_slots: u32,
    pub size: Size,
    pub spell_slots: SpellSlotLedger,
    pub actions: Seq<ActionHandle>,
}

/// The hit points that a total of `hp_roll` gives: the total, or none
/// where it is negative.
pub open spec fn spec_hit_points(hp_roll: i32) -> u32 {
    if hp_roll < 0 {
        0
    } else {
        hp_roll as u32
    }
}

/// `a + b`, or the largest `u64` where the sum exceeds it.
pub open spec fn saturating_sum_u64(a: u64, b: u64) -> u64 {
    if a + b > u64::MAX {
        u64::MAX
    } else {
        (a + b) as u64
    }
}

/// `a + 1`, or the largest `u32` where `a` is it already.
pub open spec fn saturating_succ_u32(a: u32) -> u32 {
    if a == u32::MAX {
        u32::MAX
    } else {
        (a + 1) as u32
    }
}

impl ActorView {
    /// Skills, senses and languages are sets: none of them occurs twice.
    pub open spec fn wf(self) -> bool {
        &&& self.skills.no_duplicates()
        &&& self.senses.no_duplicates()
        &&& self.languages.no_duplicates()
    }

    /// The actor a template yields at `location` for team `team_id`, as the
    /// `instance_n`-th of its kind, when its hit-point dice total `hp_roll`.
    /// It starts without any round resource and without an initiative.
    pub open spec fn from_template(
        ct: &CreatureTemplate,
        location: Coordinate,
        team_id: usize,
        hp_roll: i32,
        instance_n: usize,
    ) -> ActorView {
        ActorView {
            name: ct.name@ + seq![' '] + spec_decimal(instance_n as nat),
            location: location,
            team_id: team_id,
            base_ac: ct.ac,
            base_hitpoints: spec_hit_points(hp_roll),
            base_speed: ct.speed,
            base_size: ct.size,
            initiative: None,
            strength: ct.strength,
            intelligence: ct.intelligence,
            dexterity: ct.dexterity,
            wisdom: ct.wisdom,
            constitution: ct.constitution,
            charisma: ct.charisma,
            skills: ct.skills@,
            senses: ct.senses@,
            languages: ct.languages@,
            cr: ct.cr,
            hitpoints: spec_hit_points(hp_roll),
            movement: 0,
            action_slots: 0,
            bonus_action_slots: 0,
            reaction_slots: 0,
            legendary_action_slots: 0,
            size: ct.size,
            spell_slots: SpellSlotLedger {
                by_lvl: Seq::empty(),
                warlock: SpellSlotLedger::no_slots(),
                warlock_lvl: 0,
            },
            actions: ct.actions@,
        }
    }

    /// The score of one of the six abilities.
    pub open spec fn ability_score(self, ast: AbilityScoreType) -> u32 {
        match ast {
            AbilityScoreType::Strength => self.strength,
            AbilityScoreType::Intelligence => self.intelligence,
            AbilityScoreType::Dexterity => self.dexterity,
            AbilityScoreType::Wisdom => self.wisdom,
            AbilityScoreType::Constitution => self.constitution,
            AbilityScoreType::Charisma => self.charisma,
        }
    }

    /// Whether the actor holds enough of `resource` to spend it.
    pub open spec fn can_consume(self, resource: Resource) -> bool {
        match resource {
            Resource::Movement(amt) => amt <= self.movement,
            Resource::SpellSlot(lvl) => self.spell_slots.can_consume(lvl),
            Resource::Action => self.action_slots >= 1,
            Resource::BonusAction => self.bonus_action_slots >= 1,
            Resource::Reaction => self.reaction_slots >= 1,
            Resource::LegendaryAction => self.legendary_action_slots >= 1,
        }
    }

    /// The actor after spending `resource`, which it must hold.
    pub open spec fn consumed(self, resource: Resource) -> ActorView
        recommends
            self.can_consume(resource),
    {
        match resource {
            Resource::Movement(amt) => ActorView { movement: (self.movement - amt) as u64, ..self },
            Resource::SpellSlot(lvl) => ActorView {
                spell_slots: self.spell_slots.consumed(lvl),
                ..self
            },
            Resource::Action => ActorView { action_slots: (self.action_slots - 1) as u32, ..self },
            Resource::BonusAction => ActorView {
                bonus_action_slots: (self.bonus_action_slots - 1) as u32,
                ..self
            },
            Resource::Reaction => ActorView {
                reaction_slots: (self.reaction_slots - 1) as u32,
                ..self
            },
            Resource::LegendaryAction => ActorView {
                legendary_action_slots: (self.legendary_action_slots - 1) as u32,
                ..self
            },
        }
    }

    /// The actor after being handed `resource`. A spell slot is restored
    /// only below the level's maximum; the other budgets stop at the largest
    /// value they can hold.
    pub open spec fn given(self, resource: Resource) -> ActorView {
        match resource {
            Resource::Movement(amt) => ActorView {
                movement: saturating_sum_u64(self.movement, amt),
                ..self
            },
            Resource::SpellSlot(lvl) => ActorView {
                spell_slots: self.spell_slots.restored(lvl, 1),
                ..self
            },
            Resource::Action => ActorView {
                action_slots: saturating_succ_u32(self.action_slots),
                ..self
            },
            Resource::BonusAction => ActorView {
                bonus_action_slots: saturating_succ_u32(self.bonus_action_slots),
                ..self
            },
            Resource::Reaction => ActorView {
                reaction_slots: saturating_succ_u32(self.reaction_slots),
                ..self
            },
            Resource::LegendaryAction => ActorView {
                legendary_action_slots: saturating_succ_u32(self.legendary_action_slots),
                ..self
            },
        }
    }

    /// The actor at the start of its round: movement back at its speed, one
    /// action, one bonus action and one reaction.
    pub open spec fn round_reset(self) -> ActorView {
        ActorView {
            movement: self.base_speed,
            action_slots: 1,
            bonus_action_slots: 1,
            reaction_slots: 1,
            ..self
        }
    }

    /// What the actor adds to its initiative roll: its dexterity modifier.
    pub open spec fn initiative_mod(self) -> int {
        spec_modifier_from_score(self.dexterity)
    }

    /// The actor once a roll of `rolled` on one die decided its initiative:
    /// the roll plus the dexterity modifier.
    pub open spec fn with_rolled_initiative(self, rolled: u16) -> ActorView {
        ActorView { initiative: Some((rolled + self.initiative_mod()) as i32), ..self }
    }

    /// Whether every initiative the actor can roll fits the score type.
    pub open spec fn can_roll_initiative(self) -> bool {
        self.initiative_mod() + 6 <= i32::MAX
    }
}

/// One creature taking part in an encounter.
#[derive(Clone, Debug)]
pub struct ActorInstance {
    name: String,
    location: Coordinate,
    team_id: usize,
    base_ac: u32,
    base_hipoints: u32,
    base_speed: u64,
    base_size: Size,
    initiative: Option<i32>,
    strength: u32,
    intelligence: u32,
    dexterity: u32,
    wisdom: u32,
    constitution: u32,
    charisma: u32,
    skills: Vec<Skill>,
    senses: Vec<SpecialSense>,
    languages: Vec<Language>,
    cr: u32,
    hitpoints: u32,
    movement: u64,
    action_slots: u32,
    bonus_action_slots: u32,
    reaction_slots: u32,
    legendary_action_slots: u32,
    size: Size,
    spell_slot_manager: SpellSlotManager,
    actions: Vec<ActionHandle>,
}

impl View for ActorInstance {
    type V = ActorView;

    closed spec fn view(&self) -> ActorView {
        ActorView {
            name: self.name@,
            location: self.location,
            team_id: self.team_id,
            base_ac: self.base_ac,
            base_hitpoints: self.base_hipoints,
            base_speed: self.base_speed,
            base_size: self.base_size,
            initiative: self.initiative,
            strength: self.strength,
            intelligence: self.intelligence,
            dexterity: self.dexterity,
            wisdom: self.wisdom,
            constitution: self.constitution,
            charisma: self.charisma,
            skills: self.skills@,
            senses: self.senses@,
            languages: self.languages@,
            cr: self.cr,
            hitpoints: self.hitpoints,
            movement: self.movement,
            action_slots: self.action_slots,
            bonus_action_slots: self.bonus_action_slots,
            reaction_slots: self.reaction_slots,
            legendary_action_slots: self.legendary_action_slots,
            size: self.size,
            spell_slots: self.spell_slot_manager@,
            actions: self.actions@,
        }
    }
}

/// The mathematical content of a roster: each actor by its view.
pub open spec fn roster_view(actors: Map<usize, ActorInstance>) -> Map<usize, ActorView> {
    actors.map_values(|a: ActorInstance| a@)
}

/// A vector with the same elements in the same order.
pub fn copy_vec<T: Copy>(v: &Vec<T>) -> (r: Vec<T>)
    ensures
        r@ == v@,
{
    let mut r: Vec<T> = Vec::new();
    let mut i: usize = 0;
    while i < v.len()
        invariant
            i <= v.len(),
            r@ == v@.take(i as int),
        decreases v.len() - i,
    {
        r.push(v[i]);
        i += 1;
    }
    assert(v@.take(i as int) == v@);
    r
}

impl ActorInstance {
    /// Builds the actor that `ct` yields when its hit-point dice total
    /// `hp_roll`. A negative total gives no hit points.
    pub fn from_rolled_hitpoints(
        ct: &CreatureTemplate,
        location: Coordinate,
        team_id: usize,
        hp_roll: i32,
        instance_n: usize,
    ) -> (actor: ActorInstance)
        requires
            ct.wf(),
        ensures
            actor@ == ActorView::from_template(ct, location, team_id, hp_roll, instance_n),
            actor@.wf(),
    {
        let hp: u32 = if hp_roll < 0 {
            0
        } else {
            hp_roll as u32
        };
        ActorInstance {
            name: instance_name(ct.name, instance_n),
            location: location,
            team_id: team_id,
            base_ac: ct.ac,
            base_hipoints: hp,
            base_speed: ct.speed,
            base_size: ct.size,
            initiative: None,
            strength: ct.strength,
            intelligence: ct.intelligence,
            dexterity: ct.dexterity,
            wisdom: ct.wisdom,
            constitution: ct.constitution,
            charisma: ct.charisma,
            skills: copy_vec(&ct.skills),
            senses: copy_vec(&ct.senses),
            languages: copy_vec(&ct.languages),
            cr: ct.cr,
            hitpoints: hp,
            movement: 0,
            action_slots: 0,
            bonus_action_slots: 0,
            reaction_slots: 0,
            legendary_action_slots: 0,
            size: ct.size,
            spell_slot_manager: SpellSlotManager::new(),
            actions: copy_vec(&ct.actions),
        }
    }

    /// Rolls the template's hit-point dice and builds the actor from what
    /// they come to. Which number comes out is up to the roller. It fails
    /// only where the dice and their constant come to more than the number
    /// type holds, which cannot happen where even the highest roll fits.
    pub fn from_creature_template(
        ct: &CreatureTemplate,
        location: Coordinate,
        team_id: usize,
        roller: &mut FastRand,
        instance_n: usize,
    ) -> (r: Result<ActorInstance, SpawnError>)
        requires
            ct.wf(),
        ensures
            r matches Ok(actor) ==> actor@.wf(),
            ct.hitpoints@.always_fits() ==> r.is_ok(),
            r.is_err() ==> !ct.hitpoints@.always_fits(),
            r matches Ok(actor) ==> exists|hp_roll: i32|
                ct.hitpoints@.can_roll(hp_roll) && actor@ == #[trigger] ActorView::from_template(
                    ct,
                    location,
                    team_id,
                    hp_roll,
                    instance_n,
                ),
    {
        let hp_roll: i32 = match ct.hitpoints.roll(roller) {
            Some(v) => v,
            None => {
                return Err(SpawnError::HitPointOverflow);
            },
        };
        Ok(ActorInstance::from_rolled_hitpoints(ct, location, team_id, hp_roll, instance_n))
    }

    pub fn name(&self) -> (name: String)
        ensures
            name@ == self@.name,
    {
        self.name.clone()
    }

    pub fn team(&self) -> (team: usize)
        ensures
            team == self@.team_id,
    {
        self.team_id
    }

    pub fn ability_score(&self, ast: AbilityScoreType) -> (score: u32)
        ensures
            score == self@.ability_score(ast),
    {
        match ast {
            AbilityScoreType::Strength => self.strength,
            AbilityScoreType::Intelligence => self.intelligence,
            AbilityScoreType::Dexterity => self.dexterity,
            AbilityScoreType::Wisdom => self.wisdom,
            AbilityScoreType::Constitution => self.constitution,
            AbilityScoreType::Charisma => self.charisma,
        }
    }

    /// Whether the actor holds enough of `resource` to spend it: the
    /// distance for movement, one slot for the others.
    pub fn can_consume_resource(&self, resource: Resource) -> (ok: bool)
        ensures
            ok == self@.can_consume(resource),
    {
        match resource {
            Resource::Movement(movement_amt) => movement_amt <= self.movement,
            Resource::SpellSlot(spell_lvl) => {
                self.spell_slot_manager.spell_slots(spell_lvl).spell_slots >= 1
            },
            Resource::Action => self.action_slots >= 1,
            Resource::BonusAction => self.bonus_action_slots >= 1,
            Resource::Reaction => self.reaction_slots >= 1,
            Resource::LegendaryAction => self.legendary_action_slots >= 1,
        }
    }

    /// Spends `resource`. The caller has checked that the actor holds it;
    /// no budget can go below zero.
    pub fn consume_resource(&mut self, resource: Resource)
        requires
            old(self)@.can_consume(resource),
        ensures
            old(self)@.wf() ==> final(self)@.wf(),
            final(self)@ == old(self)@.consumed(resource),
            final(self)@.movement <= old(self)@.movement,
            final(self)@.action_slots <= old(self)@.action_slots,
            final(self)@.bonus_action_slots <= old(self)@.bonus_action_slots,
            final(self)@.reaction_slots <= old(self)@.reaction_slots,
            final(self)@.legendary_action_slots <= old(self)@.legendary_action_slots,
    {
        match resource {
            Resource::Movement(movement_amt) => {
                self.movement -= movement_amt;
            },
            Resource::SpellSlot(spell_lvl) => {
                self.spell_slot_manager.consume_spell_slot(spell_lvl);
            },
            Resource::Action => {
                self.action_slots -= 1;
            },
            Resource::BonusAction => {
                self.bonus_action_slots -= 1;
            },
            Resource::Reaction => {
                self.reaction_slots -= 1;
            },
            Resource::LegendaryAction => {
                self.legendary_action_slots -= 1;
            },
        }
    }

    /// Hands `resource` to the actor. A spell slot is restored only below
    /// the maximum of its level; the other budgets stop at the largest value
    /// they can hold.
    pub fn give_resource(&mut self, resource: Resource)
        ensures
            old(self)@.wf() ==> final(self)@.wf(),
            final(self)@ == old(self)@.given(resource),
    {
        match resource {
            Resource::Movement(movement_amt) => {
                self.movement = self.movement.saturating_add(movement_amt);
            },
            Resource::SpellSlot(spell_lvl) => {
                self.spell_slot_manager.restore_spell_slot(spell_lvl, 1);
            },
            Resource::Action => {
                self.action_slots = self.action_slots.saturating_add(1);
            },
            Resource::BonusAction => {
                self.bonus_action_slots = self.bonus_action_slots.saturating_add(1);
            },
            Resource::Reaction => {
                self.reaction_slots = self.reaction_slots.saturating_add(1);
            },
            Resource::LegendaryAction => {
                self.legendary_action_slots = self.legendary_action_slots.saturating_add(1);
            },
        }
    }

    pub fn armor_class(&self) -> (ac: u32)
        ensures
            ac == self@.base_ac,
    {
        self.base_ac
    }

    pub fn hitpoints(&self) -> (hp: u32)
        ensures
            hp == self@.hitpoints,
    {
        self.hitpoints
    }

    pub fn max_hitpoints(&self) -> (hp: u32)
        ensures
            hp == self@.base_hitpoints,
    {
        self.base_hipoints
    }

    /// Speed in thousandths of a map unit per round.
    pub fn speed(&self) -> (speed: u64)
        ensures
            speed == self@.base_speed,
    {
        self.base_speed
    }

    /// Movement left this round, in thousandths of a map unit.
    pub fn remaining_movement(&self) -> (movement: u64)
        ensures
            movement == self@.movement,
    {
        self.movement
    }

    pub fn size(&self) -> (size: Size)
        ensures
            size == self@.size,
    {
        self.size
    }

    pub fn set_location(&mut self, target: Coordinate)
        ensures
            old(self)@.wf() ==> final(self)@.wf(),
            final(self)@ == (ActorView { location: target, ..old(self)@ }),
    {
        self.location = target;
    }

    pub fn location(&self) -> (location: Coordinate)
        ensures
            location == self@.location,
    {
        self.location
    }

    pub fn initiative(&self) -> (initiative: Option<i32>)
        ensures
            initiative == self@.initiative,
    {
        self.initiative
    }

    pub fn initiative_mod(&self) -> (modifier: i32)
        ensures
            modifier == self@.initiative_mod(),
    {
        modifier_from_score(self.dexterity)
    }

    /// Records the initiative that a roll of `rolled` on one six-sided die
    /// gives: the roll plus the dexterity modifier.
    pub fn set_rolled_initiative(&mut self, rolled: u16)
        requires
            rolled <= 6,
            old(self)@.can_roll_initiative(),
        ensures
            old(self)@.wf() ==> final(self)@.wf(),
            final(self)@ == old(self)@.with_rolled_initiative(rolled),
    {
        self.initiative = Some(rolled as i32 + self.initiative_mod());
    }

    /// Rolls one six-sided die for the actor's initiative.
    pub fn roll_initiative(&mut self, roller: &mut FastRand)
        requires
            old(self)@.can_roll_initiative(),
        ensures
            old(self)@.wf() ==> final(self)@.wf(),
            exists|rolled: u16|
                1 <= rolled <= 6 && final(self)@ == #[trigger] old(self)@.with_rolled_initiative(
                    rolled,
                ),
    {
        let rolled: u16 = roll_plain_dice(roller, 1, 6).unwrap();
        self.set_rolled_initiative(rolled);
    }

    /// Gives the actor the resources of a new round: movement equal to its
    /// speed, one action, one bonus action and one reaction.
    pub fn reset_for_new_round(&mut self)
        ensures
            old(self)@.wf() ==> final(self)@.wf(),
            final(self)@ == old(self)@.round_reset(),
            final(self)@.movement == final(self)@.base_speed,
            final(self)@.action_slots == 1,
            final(self)@.bonus_action_slots == 1,
            final(self)@.reaction_slots == 1,
    {
        self.movement = self.speed();
        self.action_slots = 1;
        self.bonus_action_slots = 1;
        self.reaction_slots = 1;
    }

    pub fn action_slots(&self) -> (slots: u32)
        ensures
            slots == self@.action_slots,
    {
        self.action_slots
    }

    pub fn bonus_action_slots(&self) -> (slots: u32)
        ensures
            slots == self@.bonus_action_slots,
    {
        self.bonus_action_slots
    }

    /// The actions the actor can perform, in the order of its template.
    pub fn actions(&self) -> (actions: &Vec<ActionHandle>)
        ensures
            actions@ == self@.actions,
    {
        &self.actions
    }

    /// The actor's spell slots.
    pub fn spell_slot_manager(&self) -> (manager: &SpellSlotManager)
        ensures
            manager@ == self@.spell_slots,
    {
        &self.spell_slot_manager
    }

    /// Adds `qty` slots of spell level `lvl` to the actor's ledger.
    pub fn increase_max_spell_slot(&mut self, lvl: u32, qty: u32)
        requires
            old(self)@.spell_slots.slots_at(lvl).max_spell_slots + qty <= u32::MAX,
        ensures
            old(self)@.wf() ==> final(self)@.wf(),
            final(self)@ == (ActorView {
                spell_slots: old(self)@.spell_slots.max_increased(lvl, qty),
                ..old(self)@
            }),
    {
        self.spell_slot_manager.increase_max_spell_slot(lvl, qty);
    }
}

} // verus!
