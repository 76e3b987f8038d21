use vstd::prelude::*;
use crate::base_item::ItemClass;
use crate::gem_data::{ActiveSkillType, Costs, GemStat, LevelStat, StatRequirements};
use crate::text::str_eq;

verus! {

/// The active skill a gem grants.
#[derive(Debug)]
pub struct ActiveSkill {
    pub description: String,
    pub display_name: String,
    pub id: String,
    pub stat_conversions: Option<Vec<(String, String)>>,
    pub weapon_restrictions: Vec<ItemClass>,
    pub types: Vec<ActiveSkillType>,
}

/// The item a gem is.
#[derive(Debug)]
pub struct GemBase {
    pub display_name: String,
    pub id: String,
    pub max_level: Option<i32>,
    pub release_state: String,
}

/// What a gem has at one level.
#[derive(Debug)]
pub struct Level {
    pub costs: Option<Costs>,
    pub stat_requirements: Option<StatRequirements>,
    pub stats: Option<Vec<Option<LevelStat>>>,
    pub damage_effectiveness: Option<i64>,
    pub damage_multiplier: Option<i64>,
    pub cost_multiplier: Option<i64>,
    pub stat_text: Option<Vec<(String, String)>>,
}

/// A stat quality gives a gem, with its value per stat id.
#[derive(Debug)]
pub struct QualityStat {
    pub stat: String,
    pub stats: Vec<(String, i32)>,
}

/// What a gem has at every level.
#[derive(Debug)]
pub struct Static {
    pub crit_chance: Option<i64>,
    pub cooldown: Option<i32>,
    pub damage_effectiveness: Option<i64>,
    pub damage_multiplier: Option<i64>,
    pub attack_speed_multiplier: Option<i32>,
    pub stats: Option<Vec<Option<GemStat>>>,
    pub quality_stats: Vec<QualityStat>,
    pub stat_text: Option<Vec<(String, String)>>,
}

/// What a support gem supports: the active skill types it needs one of, and those it
/// refuses.
#[derive(Debug)]
pub struct SupportGemData {
    pub allowed_types: Option<Vec<ActiveSkillType>>,
    pub excluded_types: Option<Vec<ActiveSkillType>>,
    pub support_text: String,
}

/// The data of a gem.
#[derive(Debug)]
pub struct GemData {
    pub active_skill: Option<ActiveSkill>,
    pub base_item: GemBase,
    pub cast_time: Option<i64>,
    pub is_support: bool,
    /// The data of each level, each level once.
    pub per_level: Vec<(u32, Level)>,
    pub static_data: Static,
    /// The gem's tags, as a set of `GemTag` bits.
    pub tags: u64,
    pub weapon_restrictions: Vec<ItemClass>,
    pub tooltip_order: Vec<String>,
    pub support_gem: Option<SupportGemData>,
    pub color: String,
}

/// The stat at `i` has the id `id`.
pub open spec fn stat_has_id(stats: Seq<Option<GemStat>>, i: int, id: Seq<char>) -> bool {
    stats[i] matches Some(st) && st.id matches Some(sid) && sid@ == id
}

/// The position of the first stat with the id `id`.
pub open spec fn first_stat(stats: Seq<Option<GemStat>>, id: Seq<char>) -> Option<int> {
    if exists|i: int| 0 <= i < stats.len() && #[trigger] stat_has_id(stats, i, id) {
        Some(choose|i: int| 0 <= i < stats.len() && stat_has_id(stats, i, id) && forall|j: int| 0 <= j < i ==> !#[trigger] stat_has_id(stats, j, id))
    } else {
        None
    }
}

impl Static {
    /// The position of the stat `id` among the gem's stats.
    pub open spec fn spec_stat_idx(&self, id: Seq<char>) -> Option<int> {
        match self.stats {
            Some(stats) => first_stat(stats@, id),
            None => None,
        }
    }

    /// The position of the stat `id` among the gem's stats.
    pub fn stat_idx(&self, id: &str) -> (r: Option<usize>)
        ensures
            match r {
                Some(i) => self.spec_stat_idx(id@) == Some(i as int) && (self.stats matches Some(s) && i < s@.len() && stat_has_id(s@, i as int, id@)),
                None => self.spec_stat_idx(id@) is None,
            },
    {
        match &self.stats {
            Some(stats) => {
                let mut i: usize = 0;
                while i < stats.len()
                    invariant
                        i <= stats@.len(),
                        self.stats == Some(*stats),
                        forall|j: int| 0 <= j < i ==> !#[trigger] stat_has_id(stats@, j, id@),
                    decreases stats@.len() - i,
                {
                    let found = match &stats[i] {
                        Some(stat) => match &stat.id {
                            Some(stat_id) => str_eq(stat_id.as_str(), id),
                            None => false,
                        },
                        None => false,
                    };
                    if found {
                        proof {
                            assert(stat_has_id(stats@, i as int, id@));
                            let k = choose|k: int| 0 <= k < stats@.len() && stat_has_id(stats@, k, id@) && forall|j: int| 0 <= j < k ==> !#[trigger] stat_has_id(stats@, j, id@);
                            if k < i {
                            } else if k > i {
                                assert(!stat_has_id(stats@, i as int, id@));
                            }
                        }
                        return Some(i);
                    }
                    i = i + 1;
                }
                None
            },
            None => None,
        }
    }
}

/// The position of the entry of `key` among (key, value) pairs: the first with that key.
pub open spec fn text_at(m: Seq<(String, String)>, key: Seq<char>) -> Option<int> {
    if exists|i: int| 0 <= i < m.len() && #[trigger] m[i].0@ == key {
        Some(choose|i: int| 0 <= i < m.len() && m[i].0@ == key && forall|j: int| 0 <= j < i ==> #[trigger] m[j].0@ != key)
    } else {
        None
    }
}

/// The value of `key` among (key, value) pairs.
fn text_get<'a>(m: &'a Vec<(String, String)>, key: &str) -> (r: Option<&'a String>)
    ensures
        match r {
            Some(v) => text_at(m@, key@) matches Some(i) && *v == m@[i].1,
            None => text_at(m@, key@) is None,
        },
{
    let mut i: usize = 0;
    while i < m.len()
        invariant
            i <= m@.len(),
            forall|j: int| 0 <= j < i ==> #[trigger] m@[j].0@ != key@,
        decreases m@.len() - i,
    {
        if str_eq(m[i].0.as_str(), key) {
            proof {
                assert(m@[i as int].0@ == key@);
                let k = choose|k: int| 0 <= k < m@.len() && m@[k].0@ == key@ && forall|j: int| 0 <= j < k ==> #[trigger] m@[j].0@ != key@;
                if k < i {
                } else if k > i {
                    assert(m@[i as int].0@ != key@);
                }
            }
            return Some(&m[i].1);
        }
        i = i + 1;
    }
    None
}

/// The position of the data of `level`.
pub open spec fn level_at(per_level: Seq<(u32, Level)>, level: u32) -> Option<int> {
    if exists|i: int| 0 <= i < per_level.len() && #[trigger] per_level[i].0 == level {
        Some(choose|i: int| 0 <= i < per_level.len() && per_level[i].0 == level && forall|j: int| 0 <= j < i ==> #[trigger] per_level[j].0 != level)
    } else {
        None
    }
}

/// The largest level with data, when there is one.
pub open spec fn top_level(per_level: Seq<(u32, Level)>) -> Option<u32>
    decreases per_level.len(),
{
    if per_level.len() == 0 {
        None
    } else {
        match top_level(per_level.drop_last()) {
            Some(m) => Some(if per_level.last().0 > m { per_level.last().0 } else { m }),
            None => Some(per_level.last().0),
        }
    }
}

impl GemData {
    /// The data of `level`.
    pub open spec fn spec_level(&self, level: u32) -> Option<Level> {
        match level_at(self.per_level@, level) {
            Some(i) => Some(self.per_level@[i].1),
            None => None,
        }
    }

    /// The data of `level`.
    pub fn level(&self, level: u32) -> (r: Option<&Level>)
        ensures
            match r {
                Some(l) => self.spec_level(level) == Some(*l),
                None => self.spec_level(level) is None,
            },
    {
        let mut i: usize = 0;
        while i < self.per_level.len()
            invariant
                i <= self.per_level@.len(),
                forall|j: int| 0 <= j < i ==> #[trigger] self.per_level@[j].0 != level,
            decreases self.per_level@.len() - i,
        {
            if self.per_level[i].0 == level {
                proof {
                    let p = self.per_level@;
                    assert(p[i as int].0 == level);
                    let k = choose|k: int| 0 <= k < p.len() && p[k].0 == level && forall|j: int| 0 <= j < k ==> #[trigger] p[j].0 != level;
                    if k < i {
                    } else if k > i {
                        assert(p[i as int].0 != level);
                    }
                }
                return Some(&self.per_level[i].1);
            }
            i = i + 1;
        }
        None
    }

    /// The name shown for the gem: its active skill's, else its item's.
    pub fn display_name(&self) -> (r: &str)
        ensures
            r@ == match self.active_skill {
                Some(a) => a.display_name@,
                None => self.base_item.display_name@,
            },
    {
        match &self.active_skill {
            Some(active_skill) => active_skill.display_name.as_str(),
            None => self.base_item.display_name.as_str(),
        }
    }

    /// The highest level of the gem: its item's, else the highest level with data (at
    /// most 20), else 20.
    pub open spec fn spec_max_level(&self) -> i32 {
        match self.base_item.max_level {
            Some(m) => m,
            None => match top_level(self.per_level@) {
                Some(t) => if t < 20 { t as i32 } else { 20 },
                None => 20,
            },
        }
    }

    pub fn max_level(&self) -> (r: i32)
        ensures
            r == self.spec_max_level(),
    {
        if let Some(max_level) = self.base_item.max_level {
            return max_level;
        }
        let mut top: Option<u32> = None;
        let mut i: usize = 0;
        while i < self.per_level.len()
            invariant
                i <= self.per_level@.len(),
                top == top_level(self.per_level@.take(i as int)),
            decreases self.per_level@.len() - i,
        {
            proof {
                assert(self.per_level@.take(i + 1).drop_last() == self.per_level@.take(i as int));
                assert(self.per_level@.take(i + 1).last() == self.per_level@[i as int]);
            }
            let l = self.per_level[i].0;
            top = match top {
                Some(m) => Some(if l > m { l } else { m }),
                None => Some(l),
            };
            i = i + 1;
        }
        assert(self.per_level@.take(self.per_level@.len() as int) == self.per_level@);
        match top {
            Some(t) => if t < 20 { t as i32 } else { 20 },
            None => 20,
        }
    }

    /// The text of `stat` at `level`: the level's, else the gem's.
    pub open spec fn spec_stat_text(&self, stat: Seq<char>, level: u32) -> Option<Seq<char>> {
        let from_level = match self.spec_level(level) {
            Some(l) => match l.stat_text {
                Some(m) => match text_at(m@, stat) {
                    Some(i) => Some(m@[i].1@),
                    None => None,
                },
                None => None,
            },
            None => None,
        };
        match from_level {
            Some(t) => Some(t),
            None => match self.static_data.stat_text {
                Some(m) => match text_at(m@, stat) {
                    Some(i) => Some(m@[i].1@),
                    None => None,
                },
                None => None,
            },
        }
    }

    pub fn stat_text(&self, stat: &str, level: u32) -> (r: Option<&str>)
        ensures
            match r {
                Some(t) => self.spec_stat_text(stat@, level) == Some(t@),
                None => self.spec_stat_text(stat@, level) is None,
            },
    {
        if let Some(l) = self.level(level) {
            if let Some(stat_text) = &l.stat_text {
                if let Some(text) = text_get(stat_text, stat) {
                    return Some(text.as_str());
                }
            }
        }
        if let Some(stat_text) = &self.static_data.stat_text {
            if let Some(text) = text_get(stat_text, stat) {
                return Some(text.as_str());
            }
        }
        None
    }

    /// The description of the gem: its active skill's, else its support text.
    pub fn description(&self) -> (r: Option<&str>)
        ensures
            match r {
                Some(d) => match self.active_skill {
                    Some(a) => d@ == a.description@,
                    None => self.support_gem matches Some(sg) && d@ == sg.support_text@,
                },
                None => self.active_skill is None && self.support_gem is None,
            },
    {
        if let Some(active_skill) = &self.active_skill {
            return Some(active_skill.description.as_str());
        } else if let Some(support_data) = &self.support_gem {
            return Some(support_data.support_text.as_str());
        }
        None
    }

    /// The mana cost at `level`, when the level's data has one.
    pub open spec fn spec_mana_cost(&self, level: u32) -> Option<i64> {
        match self.spec_level(level) {
            Some(l) => match l.costs {
                Some(c) => match c.mana {
                    Some(m) => Some(m as i64),
                    None => None,
                },
                None => None,
            },
            None => None,
        }
    }

    pub fn mana_cost(&self, level: u32) -> (r: Option<i64>)
        ensures
            r == self.spec_mana_cost(level),
    {
        let level_data = match self.level(level) {
            Some(l) => l,
            None => {
                return None;
            },
        };
        match &level_data.costs {
            Some(c) => match c.mana {
                Some(m) => Some(m as i64),
                None => None,
            },
            None => None,
        }
    }

    /// The cost multiplier at `level`.
    pub open spec fn spec_cost_multiplier(&self, level: u32) -> Option<i64> {
        match self.spec_level(level) {
            Some(l) => l.cost_multiplier,
            None => None,
        }
    }

    pub fn cost_multiplier(&self, level: u32) -> (r: Option<i64>)
        ensures
            r == self.spec_cost_multiplier(level),
    {
        match self.level(level) {
            Some(l) => l.cost_multiplier,
            None => None,
        }
    }

    /// The value of the stat `id` at `level`, from the level's data.
    pub open spec fn spec_stat_value_level(&self, id: Seq<char>, level: u32) -> Option<i64> {
        match self.static_data.spec_stat_idx(id) {
            Some(idx) => match self.spec_level(level) {
                Some(l) => match l.stats {
                    Some(stats) => if idx < stats@.len() {
                        match stats@[idx] {
                            Some(st) => st.value,
                            None => None,
                        }
                    } else {
                        None
                    },
                    None => None,
                },
                None => None,
            },
            None => None,
        }
    }

    pub fn stat_value_level(&self, id: &str, level: u32) -> (r: Option<i64>)
        ensures
            r == self.spec_stat_value_level(id@, level),
    {
        let idx = match self.static_data.stat_idx(id) {
            Some(i) => i,
            None => {
                return None;
            },
        };
        let level_data = match self.level(level) {
            Some(l) => l,
            None => {
                return None;
            },
        };
        let level_stats = match &level_data.stats {
            Some(s) => s,
            None => {
                return None;
            },
        };
        if idx < level_stats.len() {
            match &level_stats[idx] {
                Some(stat) => stat.value,
                None => None,
            }
        } else {
            None
        }
    }

    /// The value of a gem stat: the level's value if there is one, else the first value the
    /// gem's own stats give for that id.
    pub open spec fn spec_stat_value(&self, id: Seq<char>, level: u32) -> Option<i64> {
        match self.spec_stat_value_level(id, level) {
            Some(v) => Some(v),
            None => match self.static_data.stats {
                Some(stats) => match first_stat(stats@, id) {
                    Some(i) => stats@[i]->0.value,
                    None => None,
                },
                None => None,
            },
        }
    }

    pub fn stat_value(&self, id: &str, level: u32) -> (r: Option<i64>)
        ensures
            r == self.spec_stat_value(id@, level),
    {
        if let Some(value_level) = self.stat_value_level(id, level) {
            return Some(value_level);
        }
        match self.static_data.stat_idx(id) {
            Some(i) => {
                match &self.static_data.stats {
                    Some(stats) => match &stats[i] {
                        Some(gem_stat) => gem_stat.value,
                        None => None,
                    },
                    None => None,
                }
            },
            None => None,
        }
    }
}

/// A gem of a build: the gem's data, whether it is enabled, its level and quality.
#[derive(Debug)]
pub struct Gem {
    pub id: String,
    pub data: GemData,
    pub enabled: bool,
    pub level: u32,
    pub qual: i32,
    pub alt_qual: i32,
}

/// The two lists of skill types share one.
pub open spec fn types_meet(a: Seq<ActiveSkillType>, b: Seq<ActiveSkillType>) -> bool {
    exists|i: int, j: int| 0 <= i < a.len() && 0 <= j < b.len() && #[trigger] a[i] == #[trigger] b[j]
}

/// Whether the two lists of skill types share one.
fn types_intersect(a: &Vec<ActiveSkillType>, b: &Vec<ActiveSkillType>) -> (r: bool)
    ensures
        r == types_meet(a@, b@),
{
    let mut i: usize = 0;
    while i < a.len()
        invariant
            i <= a@.len(),
            forall|i2: int, j: int| 0 <= i2 < i && 0 <= j < b@.len() ==> #[trigger] a@[i2] != #[trigger] b@[j],
        decreases a@.len() - i,
    {
        let mut j: usize = 0;
        while j < b.len()
            invariant
                i < a@.len(),
                j <= b@.len(),
                forall|i2: int, j2: int| 0 <= i2 < i && 0 <= j2 < b@.len() ==> #[trigger] a@[i2] != #[trigger] b@[j2],
                forall|j2: int| 0 <= j2 < j ==> a@[i as int] != #[trigger] b@[j2],
            decreases b@.len() - j,
        {
            if a[i] == b[j] {
                assert(a@[i as int] == b@[j as int]);
                return true;
            }
            j = j + 1;
        }
        i = i + 1;
    }
    false
}

impl Gem {
    /// A support can support an active skill unless the skill has a type the support
    /// refuses, or the support needs types and the skill has none of them.
    pub open spec fn spec_can_support(&self, active_gem: &Gem) -> bool {
        match (active_gem.data.active_skill, self.data.support_gem) {
            (Some(active_skill), Some(support_gem)) => {
                &&& support_gem.excluded_types matches Some(ex) ==> !types_meet(ex@, active_skill.types@)
                &&& support_gem.allowed_types matches Some(al) ==> (al@.len() == 0 || types_meet(al@, active_skill.types@))
            },
            _ => true,
        }
    }

    pub fn can_support(&self, active_gem: &Gem) -> (r: bool)
        ensures
            r == self.spec_can_support(active_gem),
    {
        if let Some(active_skill) = &active_gem.data.active_skill {
            if let Some(support_gem) = &self.data.support_gem {
                if let Some(excluded_types) = &support_gem.excluded_types {
                    if types_intersect(excluded_types, &active_skill.types) {
                        return false;
                    }
                }
                if let Some(allowed_types) = &support_gem.allowed_types {
                    if allowed_types.len() != 0 && !types_intersect(allowed_types, &active_skill.types) {
                        return false;
                    }
                }
            }
        }
        true
    }

    /// The gem's base critical strike chance.
    pub fn crit_chance(&self) -> (r: Option<i64>)
        ensures
            r == self.data.static_data.crit_chance,
    {
        self.data.static_data.crit_chance
    }

    /// The gem's added damage effectiveness at its level plus `extra_level`: the level's,
    /// else the gem's.
    pub open spec fn spec_added_effectiveness(&self, extra_level: u32) -> Option<i64> {
        match self.data.spec_level((self.level + extra_level) as u32) {
            Some(l) if l.damage_effectiveness is Some => l.damage_effectiveness,
            _ => self.data.static_data.damage_effectiveness,
        }
    }

    pub fn added_effectiveness(&self, extra_level: u32) -> (r: Option<i64>)
        requires
            self.level + extra_level <= u32::MAX,
        ensures
            r == self.spec_added_effectiveness(extra_level),
    {
        if let Some(level_data) = self.data.level(self.level + extra_level) {
            if level_data.damage_effectiveness.is_some() {
                return level_data.damage_effectiveness;
            }
        }
        self.data.static_data.damage_effectiveness
    }

    /// The gem's damage multiplier at its level plus `extra_level`: the level's, else the gem's.
    pub open spec fn spec_damage_multiplier(&self, extra_level: u32) -> Option<i64> {
        match self.data.spec_level((self.level + extra_level) as u32) {
            Some(l) if l.damage_multiplier is Some => l.damage_multiplier,
            _ => self.data.static_data.damage_multiplier,
        }
    }

    pub fn damage_multiplier(&self, extra_level: u32) -> (r: Option<i64>)
        requires
            self.level + extra_level <= u32::MAX,
        ensures
            r == self.spec_damage_multiplier(extra_level),
    {
        if let Some(level_data) = self.data.level(self.level + extra_level) {
            if level_data.damage_multiplier.is_some() {
                return level_data.damage_multiplier;
            }
        }
        self.data.static_data.damage_multiplier
    }

    /// The mana cost at the gem's level plus `extra_level`.
    pub fn mana_cost_level(&self, extra_level: u32) -> (r: Option<i64>)
        requires
            self.level + extra_level <= u32::MAX,
        ensures
            r == self.data.spec_mana_cost((self.level + extra_level) as u32),
    {
        self.data.mana_cost(self.level + extra_level)
    }

    /// The cost multiplier at the gem's level plus `extra_level`.
    pub fn cost_multiplier_level(&self, extra_level: u32) -> (r: Option<i64>)
        requires
            self.level + extra_level <= u32::MAX,
        ensures
            r == self.data.spec_cost_multiplier((self.level + extra_level) as u32),
    {
        self.data.cost_multiplier(self.level + extra_level)
    }

    /// The value of the gem stat `id` at the gem's level.
    pub fn stat_value(&self, id: &str) -> (r: Option<i64>)
        ensures
            r == self.data.spec_stat_value(id@, self.level),
    {
        self.data.stat_value(id, self.level)
    }
}

} // verus!
