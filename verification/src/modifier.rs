use vstd::prelude::*;
use crate::base_item::ItemClass;
use crate::gem_data::GemTag;
use crate::item::JewelRadius;
use crate::property;
use crate::slot::{Defence, Slot};
use crate::stackvec::StackVec;
use crate::stat_id::StatId;
use crate::buff::Buff;

verus! {

/// How a modifier's amount combines into a stat.
#[derive(Debug, Clone, Copy, PartialEq, Eq, Structural)]
pub enum Type {
    Base,
    /// Unlike `Base`, not scaled by multipliers.
    Flat,
    Inc,
    More,
    Override,
}

impl Default for Type {
    fn default() -> (r: Self)
        ensures
            r == Type::Base,
    {
        Type::Base
    }
}

/// A rule that rescales a modifier's amount when it is evaluated.
#[derive(Debug, Clone, Copy)]
pub enum Mutation {
    MultiplierStat((i64, StatId)),
    MultiplierStatLowest((i64, &'static [StatId])),
    MultiplierProperty((i64, property::Int)),
    MultiplierQuality(i64),
    StatPct((i64, StatId)),
    MultiplierSlotDefence((i64, Slot, Defence)),
    UpTo(i64),
    IncreasedEffect(i64),
    StatIncPct(i64, StatId),
    MultiplierOvercap(i64, StatId, StatId),
    StatMultExtra(StatId, i64),
    CustomMult(i64),
}

impl Mutation {
    /// The number a mutation carries (its divisor, percentage or bound).
    pub open spec fn amount(self) -> i64 {
        match self {
            Mutation::MultiplierStat(m) => m.0,
            Mutation::MultiplierStatLowest(m) => m.0,
            Mutation::MultiplierProperty(m) => m.0,
            Mutation::MultiplierQuality(a) => a,
            Mutation::StatPct(m) => m.0,
            Mutation::MultiplierSlotDefence(m) => m.0,
            Mutation::UpTo(a) => a,
            Mutation::IncreasedEffect(a) => a,
            Mutation::StatIncPct(a, _) => a,
            Mutation::MultiplierOvercap(a, _, _) => a,
            Mutation::StatMultExtra(_, a) => a,
            Mutation::CustomMult(a) => a,
        }
    }

    /// The mutation with its number replaced and everything else kept.
    pub open spec fn with_amount(self, amount: i64) -> Mutation {
        match self {
            Mutation::MultiplierStat(m) => Mutation::MultiplierStat((amount, m.1)),
            Mutation::MultiplierStatLowest(m) => Mutation::MultiplierStatLowest((amount, m.1)),
            Mutation::MultiplierProperty(m) => Mutation::MultiplierProperty((amount, m.1)),
            Mutation::MultiplierQuality(_) => Mutation::MultiplierQuality(amount),
            Mutation::StatPct(m) => Mutation::StatPct((amount, m.1)),
            Mutation::MultiplierSlotDefence(m) => Mutation::MultiplierSlotDefence((amount, m.1, m.2)),
            Mutation::UpTo(_) => Mutation::UpTo(amount),
            Mutation::IncreasedEffect(_) => Mutation::IncreasedEffect(amount),
            Mutation::StatIncPct(_, s) => Mutation::StatIncPct(amount, s),
            Mutation::MultiplierOvercap(_, a, b) => Mutation::MultiplierOvercap(amount, a, b),
            Mutation::StatMultExtra(s, _) => Mutation::StatMultExtra(s, amount),
            Mutation::CustomMult(_) => Mutation::CustomMult(amount),
        }
    }

    pub fn set_amount(&mut self, amount: i64)
        ensures
            *final(self) == old(self).with_amount(amount),
    {
        *self = match *self {
            Mutation::MultiplierStat(m) => Mutation::MultiplierStat((amount, m.1)),
            Mutation::MultiplierStatLowest(m) => Mutation::MultiplierStatLowest((amount, m.1)),
            Mutation::MultiplierProperty(m) => Mutation::MultiplierProperty((amount, m.1)),
            Mutation::MultiplierQuality(_) => Mutation::MultiplierQuality(amount),
            Mutation::StatPct(m) => Mutation::StatPct((amount, m.1)),
            Mutation::MultiplierSlotDefence(m) => Mutation::MultiplierSlotDefence((amount, m.1, m.2)),
            Mutation::UpTo(_) => Mutation::UpTo(amount),
            Mutation::IncreasedEffect(_) => Mutation::IncreasedEffect(amount),
            Mutation::StatIncPct(_, s) => Mutation::StatIncPct(amount, s),
            Mutation::MultiplierOvercap(_, a, b) => Mutation::MultiplierOvercap(amount, a, b),
            Mutation::StatMultExtra(s, _) => Mutation::StatMultExtra(s, amount),
            Mutation::CustomMult(_) => Mutation::CustomMult(amount),
        };
    }
}

/// A condition a modifier only applies under.
#[derive(Debug, Clone, Copy)]
pub enum Condition {
    GreaterEqualProperty((i64, property::Int)),
    GreaterEqualStat((i64, StatId)),
    LesserEqualProperty((i64, property::Int)),
    LesserEqualStat((i64, StatId)),
    PropertyBool((bool, property::Bool)),
    /// A set of item classes (see `ItemClass::bit`).
    WhileWielding(u64),
    WhileDualWielding,
    /// A set of item classes (see `ItemClass::bit`).
    WhileDualWieldingItems(u64),
    SlotsHaveDefence((Defence, &'static [Slot])),
    SlotLesserEqualStats((Slot, i64, &'static [StatId])),
    GreaterEqualMasteryAllocated((&'static str, u32)),
    WithThisWeapon,
    NoFlaskActive,
}

/// Where a modifier comes from.
#[derive(Debug, Clone, Copy)]
pub enum Source {
    Innate,
    Node(u32),
    Mastery((u32, u32)),
    Item(Slot),
    Gem(&'static str),
    Custom(&'static str),
}

/// A kind of damage or effect a modifier is restricted to.
#[derive(Debug, Clone, Copy, PartialEq, Eq, Structural, Hash)]
pub enum ModFlag {
    Hit,
    Ailment,
    Bleed,
    Ignite,
    Poison,
    Aura,
    Buff,
    Curse,
}

impl ModFlag {
    /// The one-variant flag set of this variant: one bit, at the variant's position.
    pub open spec fn spec_bit(self) -> u64 {
        match self {
            ModFlag::Hit => 0x1u64,
            ModFlag::Ailment => 0x2u64,
            ModFlag::Bleed => 0x4u64,
            ModFlag::Ignite => 0x8u64,
            ModFlag::Poison => 0x10u64,
            ModFlag::Aura => 0x20u64,
            ModFlag::Buff => 0x40u64,
            ModFlag::Curse => 0x80u64,
        }
    }

    pub fn bit(self) -> (r: u64)
        ensures
            r == self.spec_bit(),
    {
        match self {
            ModFlag::Hit => 0x1u64,
            ModFlag::Ailment => 0x2u64,
            ModFlag::Bleed => 0x4u64,
            ModFlag::Ignite => 0x8u64,
            ModFlag::Poison => 0x10u64,
            ModFlag::Aura => 0x20u64,
            ModFlag::Buff => 0x40u64,
            ModFlag::Curse => 0x80u64,
        }
    }
}
/// A rule that changes how the whole build is computed.
#[derive(Debug, Clone, Copy, PartialEq, Eq, Structural, Hash)]
pub enum BuildFlag {
    ItemsGrantLifeInsteadES,
    QualityNoDefences,
    EleMaxResHighest,
}

pub const MUTATIONS_COUNT: usize = 2;

pub const CONDITIONS_COUNT: usize = 2;

/// A modifier's effect on one stat.
#[derive(Debug)]
pub struct ModStat {
    pub stat: StatId,
    pub typ: Type,
    pub amount: i64,
    /// The amount once mutations are applied, if they were.
    pub revised_amount: Option<i64>,
    pub mutations: StackVec<Mutation, MUTATIONS_COUNT>,
}

impl ModStat {
    pub open spec fn spec_final_amount(&self) -> i64 {
        match self.revised_amount {
            Some(r) => r,
            None => self.amount,
        }
    }

    /// The amount that counts: the revised one when there is one.
    pub fn final_amount(&self) -> (r: i64)
        ensures
            r == self.spec_final_amount(),
    {
        match self.revised_amount {
            Some(r) => r,
            None => self.amount,
        }
    }

    /// `self` and `other` hold the same values.
    pub open spec fn same(&self, other: ModStat) -> bool {
        &&& self.stat == other.stat
        &&& self.typ == other.typ
        &&& self.amount == other.amount
        &&& self.revised_amount == other.revised_amount
        &&& self.mutations@ == other.mutations@
    }

    pub fn duplicate(&self) -> (r: ModStat)
        ensures
            r.same(*self),
    {
        ModStat {
            stat: self.stat,
            typ: self.typ,
            amount: self.amount,
            revised_amount: self.revised_amount,
            mutations: self.mutations.copied(),
        }
    }
}

impl Default for ModStat {
    fn default() -> (r: Self)
        ensures
            r.stat == StatId::Strength,
            r.typ == Type::Base,
            r.amount == 0,
            r.revised_amount is None,
            r.mutations@.len() == 0,
    {
        ModStat {
            stat: StatId::Strength,
            typ: Type::Base,
            amount: 0,
            revised_amount: None,
            mutations: StackVec::new(),
        }
    }
}

/// What a modifier does.
#[derive(Debug)]
pub enum ModEffect {
    Stat(ModStat),
    Allocate(u32),
    ForceBool(property::Bool, bool),
    RingSize(JewelRadius),
    BuildFlag(BuildFlag),
    LevelOfGems(u32),
    QualityOfGems(i32),
    Buff(Buff),
}

impl ModEffect {
    /// `self` and `other` hold the same values.
    pub open spec fn same(&self, other: ModEffect) -> bool {
        match (*self, other) {
            (ModEffect::Stat(a), ModEffect::Stat(b)) => a.same(b),
            (ModEffect::Stat(_), _) => false,
            (_, ModEffect::Stat(_)) => false,
            _ => *self == other,
        }
    }

    pub fn duplicate(&self) -> (r: ModEffect)
        ensures
            r.same(*self),
    {
        match self {
            ModEffect::Stat(s) => ModEffect::Stat(s.duplicate()),
            ModEffect::Allocate(n) => ModEffect::Allocate(*n),
            ModEffect::ForceBool(p, v) => ModEffect::ForceBool(*p, *v),
            ModEffect::RingSize(r) => ModEffect::RingSize(*r),
            ModEffect::BuildFlag(f) => ModEffect::BuildFlag(*f),
            ModEffect::LevelOfGems(l) => ModEffect::LevelOfGems(*l),
            ModEffect::QualityOfGems(q) => ModEffect::QualityOfGems(*q),
            ModEffect::Buff(b) => ModEffect::Buff(*b),
        }
    }
}

/// A modifier: an effect, the conditions it needs, and what it applies to.
#[derive(Debug)]
pub struct Mod {
    pub effect: ModEffect,
    pub conditions: StackVec<Condition, CONDITIONS_COUNT>,
    /// Gem tags the skill must have (see `GemTag::bit`).
    pub tags: u64,
    /// Gem tags the skill must not have (see `GemTag::bit`).
    pub tags_not: u64,
    pub source: Source,
    /// Item classes the modifier needs to be wielded, none meaning any (see `ItemClass::bit`).
    pub weapons: u64,
    /// Kinds of damage or effect the modifier is restricted to (see `ModFlag::bit`).
    pub flags: u64,
}


impl Mod {
    /// `self` and `other` hold the same values.
    pub open spec fn same(&self, other: Mod) -> bool {
        &&& self.effect.same(other.effect)
        &&& self.conditions@ == other.conditions@
        &&& self.tags == other.tags
        &&& self.tags_not == other.tags_not
        &&& self.source == other.source
        &&& self.weapons == other.weapons
        &&& self.flags == other.flags
    }

    /// A modifier adding `amount` of type `typ` to `stat`, with nothing else set.
    pub open spec fn is_plain_stat(&self, stat: StatId, typ: Type, amount: i64) -> bool {
        &&& self.effect matches ModEffect::Stat(s) && s.stat == stat && s.typ == typ && s.amount == amount
            && s.revised_amount is None && s.mutations@.len() == 0
        &&& self.conditions@.len() == 0
        &&& self.tags == 0
        &&& self.tags_not == 0
        &&& self.source == Source::Innate
        &&& self.weapons == 0
        &&& self.flags == 0
    }

    fn plain(effect: ModEffect) -> (r: Mod)
        ensures
            r.effect == effect,
            r.conditions@.len() == 0,
            r.tags == 0,
            r.tags_not == 0,
            r.source == Source::Innate,
            r.weapons == 0,
            r.flags == 0,
    {
        Mod {
            effect,
            conditions: StackVec::new(),
            tags: 0,
            tags_not: 0,
            source: Source::Innate,
            weapons: 0,
            flags: 0,
        }
    }

    /// A copy holding the same values.
    pub fn duplicate(&self) -> (r: Mod)
        ensures
            r.same(*self),
    {
        Mod {
            effect: self.effect.duplicate(),
            conditions: self.conditions.copied(),
            tags: self.tags,
            tags_not: self.tags_not,
            source: self.source,
            weapons: self.weapons,
            flags: self.flags,
        }
    }

    /// A modifier adding `amount` of type `typ` to `stat`.
    pub fn stat(stat: StatId, typ: Type, amount: i64) -> (r: Mod)
        ensures
            r.is_plain_stat(stat, typ, amount),
    {
        Mod::plain(ModEffect::Stat(ModStat { stat, typ, amount, revised_amount: None, mutations: StackVec::new() }))
    }

    pub fn allocate(node: u32) -> (r: Mod)
        ensures
            r.effect == ModEffect::Allocate(node),
            r.conditions@.len() == 0 && r.tags == 0 && r.tags_not == 0 && r.weapons == 0 && r.flags == 0,
            r.source == Source::Innate,
    {
        Mod::plain(ModEffect::Allocate(node))
    }

    pub fn build_flag(flag: BuildFlag) -> (r: Mod)
        ensures
            r.effect == ModEffect::BuildFlag(flag),
            r.conditions@.len() == 0 && r.tags == 0 && r.tags_not == 0 && r.weapons == 0 && r.flags == 0,
            r.source == Source::Innate,
    {
        Mod::plain(ModEffect::BuildFlag(flag))
    }

    pub fn gem_level(level: u32) -> (r: Mod)
        ensures
            r.effect == ModEffect::LevelOfGems(level),
            r.conditions@.len() == 0 && r.tags == 0 && r.tags_not == 0 && r.weapons == 0 && r.flags == 0,
            r.source == Source::Innate,
    {
        Mod::plain(ModEffect::LevelOfGems(level))
    }

    pub fn buff(buff: Buff) -> (r: Mod)
        ensures
            r.effect == ModEffect::Buff(buff),
            r.conditions@.len() == 0 && r.tags == 0 && r.tags_not == 0 && r.weapons == 0 && r.flags == 0,
            r.source == Source::Innate,
    {
        Mod::plain(ModEffect::Buff(buff))
    }

    pub fn gem_quality(quality: i32) -> (r: Mod)
        ensures
            r.effect == ModEffect::QualityOfGems(quality),
            r.conditions@.len() == 0 && r.tags == 0 && r.tags_not == 0 && r.weapons == 0 && r.flags == 0,
            r.source == Source::Innate,
    {
        Mod::plain(ModEffect::QualityOfGems(quality))
    }

    pub fn ring_size(size: JewelRadius) -> (r: Mod)
        ensures
            r.effect == ModEffect::RingSize(size),
            r.conditions@.len() == 0 && r.tags == 0 && r.tags_not == 0 && r.weapons == 0 && r.flags == 0,
            r.source == Source::Innate,
    {
        Mod::plain(ModEffect::RingSize(size))
    }

    pub fn force_bool(prop: property::Bool, val: bool) -> (r: Mod)
        ensures
            r.effect == ModEffect::ForceBool(prop, val),
            r.conditions@.len() == 0 && r.tags == 0 && r.tags_not == 0 && r.weapons == 0 && r.flags == 0,
            r.source == Source::Innate,
    {
        Mod::plain(ModEffect::ForceBool(prop, val))
    }

    /// Adds mutations to a stat modifier; other modifiers are returned unchanged.
    pub fn with_mutations(self, mutations: StackVec<Mutation, MUTATIONS_COUNT>) -> (r: Mod)
        requires
            self.effect matches ModEffect::Stat(s) ==> s.mutations@.len() + mutations@.len() <= MUTATIONS_COUNT,
        ensures
            self.effect matches ModEffect::Stat(s) ==> (r.effect matches ModEffect::Stat(t) && t.stat
                == s.stat && t.typ == s.typ && t.amount == s.amount && t.revised_amount == s.revised_amount
                && t.mutations@ == s.mutations@ + mutations@),
            !(self.effect is Stat) ==> r.effect == self.effect,
            r.conditions == self.conditions,
            r.tags == self.tags && r.tags_not == self.tags_not && r.source == self.source,
            r.weapons == self.weapons && r.flags == self.flags,
    {
        let Mod { effect, conditions, tags, tags_not, source, weapons, flags } = self;
        let effect = match effect {
            ModEffect::Stat(s) => {
                let ModStat { stat, typ, amount, revised_amount, mutations: mut muts } = s;
                muts.extend_from_slice(mutations.as_slice());
                ModEffect::Stat(ModStat { stat, typ, amount, revised_amount, mutations: muts })
            },
            other => other,
        };
        Mod { effect, conditions, tags, tags_not, source, weapons, flags }
    }

    /// Adds conditions, which must fit.
    pub fn with_conditions(self, conditions: StackVec<Condition, CONDITIONS_COUNT>) -> (r: Mod)
        requires
            self.conditions@.len() + conditions@.len() <= CONDITIONS_COUNT,
        ensures
            r.conditions@ == self.conditions@ + conditions@,
            r.effect == self.effect,
            r.tags == self.tags && r.tags_not == self.tags_not && r.source == self.source,
            r.weapons == self.weapons && r.flags == self.flags,
    {
        let Mod { effect, conditions: mut conds, tags, tags_not, source, weapons, flags } = self;
        conds.extend_from_slice(conditions.as_slice());
        Mod { effect, conditions: conds, tags, tags_not, source, weapons, flags }
    }

    /// Adds gem tags the skill must have.
    pub fn with_tags(self, tags: u64) -> (r: Mod)
        ensures
            r.tags == self.tags | tags,
            r.effect == self.effect && r.conditions == self.conditions,
            r.tags_not == self.tags_not && r.source == self.source,
            r.weapons == self.weapons && r.flags == self.flags,
    {
        Mod { tags: self.tags | tags, ..self }
    }

    /// Adds kinds of damage or effect the modifier is restricted to.
    pub fn with_flags(self, flags: u64) -> (r: Mod)
        ensures
            r.flags == self.flags | flags,
            r.effect == self.effect && r.conditions == self.conditions,
            r.tags == self.tags && r.tags_not == self.tags_not && r.source == self.source,
            r.weapons == self.weapons,
    {
        Mod { flags: self.flags | flags, ..self }
    }

    /// Adds item classes the modifier needs wielded.
    pub fn with_weapons(self, weapons: u64) -> (r: Mod)
        ensures
            r.weapons == self.weapons | weapons,
            r.effect == self.effect && r.conditions == self.conditions,
            r.tags == self.tags && r.tags_not == self.tags_not && r.source == self.source,
            r.flags == self.flags,
    {
        Mod { weapons: self.weapons | weapons, ..self }
    }

    pub fn with_source(self, source: Source) -> (r: Mod)
        ensures
            r.source == source,
            r.effect == self.effect && r.conditions == self.conditions,
            r.tags == self.tags && r.tags_not == self.tags_not,
            r.weapons == self.weapons && r.flags == self.flags,
    {
        Mod { source, ..self }
    }

    pub fn as_stat(&self) -> (r: Option<&ModStat>)
        ensures
            self.effect matches ModEffect::Stat(s) ==> r == Some(&s),
            !(self.effect is Stat) ==> r is None,
    {
        if let ModEffect::Stat(stat) = &self.effect {
            Some(stat)
        } else {
            None
        }
    }

    pub fn as_build_flag(&self) -> (r: Option<BuildFlag>)
        ensures
            self.effect matches ModEffect::BuildFlag(f) ==> r == Some(f),
            !(self.effect is BuildFlag) ==> r is None,
    {
        if let ModEffect::BuildFlag(flag) = &self.effect {
            Some(*flag)
        } else {
            None
        }
    }

    pub fn as_gem_level(&self) -> (r: Option<u32>)
        ensures
            self.effect matches ModEffect::LevelOfGems(l) ==> r == Some(l),
            !(self.effect is LevelOfGems) ==> r is None,
    {
        if let ModEffect::LevelOfGems(level) = &self.effect {
            Some(*level)
        } else {
            None
        }
    }

    pub fn as_buff(&self) -> (r: Option<Buff>)
        ensures
            self.effect matches ModEffect::Buff(b) ==> r == Some(b),
            !(self.effect is Buff) ==> r is None,
    {
        if let ModEffect::Buff(buff) = &self.effect {
            Some(*buff)
        } else {
            None
        }
    }

    pub fn as_gem_quality(&self) -> (r: Option<i32>)
        ensures
            self.effect matches ModEffect::QualityOfGems(q) ==> r == Some(q),
            !(self.effect is QualityOfGems) ==> r is None,
    {
        if let ModEffect::QualityOfGems(quality) = &self.effect {
            Some(*quality)
        } else {
            None
        }
    }

    pub fn as_ring_size(&self) -> (r: Option<JewelRadius>)
        ensures
            self.effect matches ModEffect::RingSize(j) ==> r == Some(j),
            !(self.effect is RingSize) ==> r is None,
    {
        if let ModEffect::RingSize(size) = &self.effect {
            Some(*size)
        } else {
            None
        }
    }

    pub fn as_allocate(&self) -> (r: Option<u32>)
        ensures
            self.effect matches ModEffect::Allocate(n) ==> r == Some(n),
            !(self.effect is Allocate) ==> r is None,
    {
        if let ModEffect::Allocate(id) = &self.effect {
            Some(*id)
        } else {
            None
        }
    }
}

impl Clone for Mod {
    fn clone(&self) -> (r: Self)
        ensures
            r.same(*self),
    {
        self.duplicate()
    }
}

} // verus!
