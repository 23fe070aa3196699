use vstd::prelude::*;
use crate::time_period::CurrentTimePeriod;

verus! {

/// A chance is stored in parts of this whole: `CHANCE_SCALE` is certainty.
pub const CHANCE_SCALE: u32 = 10000;

/// How a condition joins the chain built from the conditions before it.
#[derive(Clone, Copy, Debug, PartialEq, Eq, Structural)]
pub enum ConjunctionType {
    Or,
    And,
}

impl Default for ConjunctionType {
    fn default() -> (r: ConjunctionType)
        ensures
            r == ConjunctionType::Or,
    {
        ConjunctionType::Or
    }
}

impl ConjunctionType {
    /// Turns `Or` into `And` and back.
    pub fn switch(&mut self)
        ensures
            *final(self) != *old(self),
    {
        *self = match *self {
            ConjunctionType::Or => ConjunctionType::And,
            ConjunctionType::And => ConjunctionType::Or,
        };
    }

    /// The name shown for the conjunction.
    pub fn label(&self) -> (r: &'static str)
        ensures
            *self == ConjunctionType::Or ==> r@ == "Or"@,
            *self == ConjunctionType::And ==> r@ == "And"@,
    {
        proof {
            reveal_strlit("Or");
            reveal_strlit("And");
        }
        match self {
            ConjunctionType::Or => "Or",
            ConjunctionType::And => "And",
        }
    }
}

/// The phases of the cycle in which a time condition holds.
#[derive(Clone, Copy, Debug, PartialEq, Eq, Structural)]
pub struct TimePeriods {
    pub day: bool,
    pub dusk: bool,
    pub night: bool,
    pub dawn: bool,
}

impl Default for TimePeriods {
    fn default() -> (r: TimePeriods)
        ensures
            r == (TimePeriods { day: true, dusk: true, night: true, dawn: true }),
    {
        TimePeriods { day: true, dusk: true, night: true, dawn: true }
    }
}

impl TimePeriods {
    pub open spec fn allows(self, period: CurrentTimePeriod) -> bool {
        match period {
            CurrentTimePeriod::Day => self.day,
            CurrentTimePeriod::Dusk => self.dusk,
            CurrentTimePeriod::Night => self.night,
            CurrentTimePeriod::Dawn => self.dawn,
        }
    }

    /// Whether the flag of `period` is set.
    pub fn contains(&self, period: CurrentTimePeriod) -> (r: bool)
        ensures
            r == self.allows(period),
    {
        match period {
            CurrentTimePeriod::Day => self.day,
            CurrentTimePeriod::Dusk => self.dusk,
            CurrentTimePeriod::Night => self.night,
            CurrentTimePeriod::Dawn => self.dawn,
        }
    }
}

/// What a condition tests.
#[derive(Clone, Debug)]
pub enum ConditionData {
    /// The current map is one of these.
    Maps(Vec<u32>),
    /// The current map is none of these.
    BlacklistedMaps(Vec<u32>),
    /// The current phase of the cycle is one of these.
    Time(TimePeriods),
    /// A roll from 1 to `CHANCE_SCALE` is at most this.
    Chance(u32),
}

/// One condition of a rule, with the conjunction that joins it to the
/// conditions before it.
#[derive(Clone, Debug)]
pub struct RuleCondition {
    pub name: String,
    pub data: ConditionData,
    pub conjunction_type: ConjunctionType,
}

impl RuleCondition {
    pub fn new(rule_data: ConditionData, conjunction_type: ConjunctionType) -> (r: RuleCondition)
        ensures
            r.name@ == Seq::<char>::empty(),
            r.data == rule_data,
            r.conjunction_type == conjunction_type,
    {
        RuleCondition { name: String::new(), data: rule_data, conjunction_type }
    }
}

/// Whether a condition holds on the given map and phase, with `roll` the
/// number drawn for it if it is a chance.
pub open spec fn condition_holds(
    data: ConditionData,
    period: CurrentTimePeriod,
    map_id: u32,
    roll: u32,
) -> bool {
    match data {
        ConditionData::Maps(maps) => maps@.contains(map_id),
        ConditionData::BlacklistedMaps(maps) => !maps@.contains(map_id),
        ConditionData::Time(periods) => periods.allows(period),
        ConditionData::Chance(chance) => roll <= chance,
    }
}

/// Position `a` opens a group: it is the first, or its conjunction is `Or`.
pub open spec fn opens_group(conj: Seq<ConjunctionType>, a: int) -> bool {
    a == 0 || conj[a] == ConjunctionType::Or
}

/// Position `b` closes a group: it is the last, or the next one opens a group.
pub open spec fn closes_group(conj: Seq<ConjunctionType>, b: int) -> bool {
    b == conj.len() - 1 || conj[b + 1] == ConjunctionType::Or
}

/// Positions `a..=b` form one group: the conditions there are joined by `And`
/// and the group is bounded by `Or` conjunctions or the ends of the chain.
pub open spec fn is_group(conj: Seq<ConjunctionType>, a: int, b: int) -> bool {
    &&& 0 <= a <= b < conj.len()
    &&& opens_group(conj, a)
    &&& closes_group(conj, b)
    &&& forall|k: int| a < k <= b ==> conj[k] == ConjunctionType::And
}

/// Every condition in `a..=b` holds.
pub open spec fn all_hold(facts: Seq<bool>, a: int, b: int) -> bool {
    forall|k: int| a <= k <= b ==> facts[k]
}

/// A chain of conditions holds when it is empty or when some group of it has
/// all of its conditions true. `conj[i]` joins condition `i` to those before
/// it (the first one's is never read); `facts[i]` is whether condition `i` holds.
pub open spec fn chain_holds(conj: Seq<ConjunctionType>, facts: Seq<bool>) -> bool {
    conj.len() == 0 || exists|a: int, b: int| is_group(conj, a, b) && all_hold(facts, a, b)
}

pub open spec fn conjunctions(conds: Seq<RuleCondition>) -> Seq<ConjunctionType> {
    conds.map_values(|c: RuleCondition| c.conjunction_type)
}

pub open spec fn facts_of(
    conds: Seq<RuleCondition>,
    period: CurrentTimePeriod,
    map_id: u32,
    rolls: Seq<u32>,
) -> Seq<bool> {
    Seq::new(conds.len(), |i: int| condition_holds(conds[i].data, period, map_id, rolls[i]))
}

/// Whether a rule's conditions hold, with `rolls[i]` the number drawn for
/// condition `i`.
pub open spec fn conditions_hold(
    conds: Seq<RuleCondition>,
    period: CurrentTimePeriod,
    map_id: u32,
    rolls: Seq<u32>,
) -> bool {
    chain_holds(conjunctions(conds), facts_of(conds, period, map_id, rolls))
}

/// Whether `id` is among `maps`.
pub fn contains_map(maps: &Vec<u32>, id: u32) -> (r: bool)
    ensures
        r == maps@.contains(id),
{
    let mut i: usize = 0;
    while i < maps.len()
        invariant
            0 <= i <= maps.len(),
            forall|k: int| 0 <= k < i ==> maps@[k] != id,
        decreases maps.len() - i,
    {
        if maps[i] == id {
            return true;
        }
        i += 1;
    }
    false
}

/// Whether one condition holds, `roll` being the number drawn for it.
pub fn condition_fulfilled(
    data: &ConditionData,
    period: CurrentTimePeriod,
    map_id: u32,
    roll: u32,
) -> (r: bool)
    ensures
        r == condition_holds(*data, period, map_id, roll),
{
    match data {
        ConditionData::Maps(maps) => contains_map(maps, map_id),
        ConditionData::BlacklistedMaps(maps) => !contains_map(maps, map_id),
        ConditionData::Time(periods) => periods.contains(period),
        ConditionData::Chance(chance) => roll <= *chance,
    }
}

/// A group that reaches the current one (`start..=i`, joined by `And` and
/// opened at `start`) and ends no later than `i` is that group itself.
proof fn lemma_group_within(conj: Seq<ConjunctionType>, start: int, i: int, a: int, b: int)
    requires
        0 <= start <= i < conj.len(),
        opens_group(conj, start),
        forall|k: int| start < k <= i ==> conj[k] == ConjunctionType::And,
        is_group(conj, a, b),
        start <= b <= i,
    ensures
        a == start,
        b == i || (b + 1 <= i && conj[b + 1] == ConjunctionType::And),
{
    if a < start {
        assert(conj[start] == ConjunctionType::And);
    }
    if a > start {
        assert(conj[a] == ConjunctionType::And);
    }
}

/// Whether the conditions of a rule hold, scanning them once from the first:
/// a failed condition spoils the rest of its `And` group, an `Or` starts a
/// fresh group, and a group that holds to its end settles the answer.
/// `rolls[i]` is the number drawn for condition `i`.
pub fn conditions_fulfilled(
    conditions: &Vec<RuleCondition>,
    period: CurrentTimePeriod,
    map_id: u32,
    rolls: &Vec<u32>,
) -> (r: bool)
    requires
        rolls.len() == conditions.len(),
    ensures
        r == conditions_hold(conditions@, period, map_id, rolls@),
{
    let n = conditions.len();
    let ghost conj = conjunctions(conditions@);
    let ghost facts = facts_of(conditions@, period, map_id, rolls@);
    if n == 0 {
        return true;
    }
    let mut inside_failed_and_chain = false;
    let ghost mut start: int = 0;
    let mut i: usize = 0;
    while i < n
        invariant
            n == conditions.len(),
            n == rolls.len(),
            conj == conjunctions(conditions@),
            facts == facts_of(conditions@, period, map_id, rolls@),
            0 <= start <= i,
            i < n,
            opens_group(conj, start),
            forall|k: int| start < k <= i ==> conj[k] == ConjunctionType::And,
            inside_failed_and_chain == (exists|k: int| start <= k < i && !facts[k]),
            forall|a: int, b: int|
                is_group(conj, a, b) && b < start ==> !all_hold(facts, a, b),
        decreases n - i,
    {
        let fulfilled = condition_fulfilled(&conditions[i].data, period, map_id, rolls[i]);
        assert(fulfilled == facts[i as int]);
        let current = !inside_failed_and_chain && fulfilled;
        assert(current == all_hold(facts, start, i as int));
        if i + 1 == n {
            assert(is_group(conj, start, i as int));
            assert forall|a: int, b: int| is_group(conj, a, b) && all_hold(facts, a, b)
                implies a == start && b == i by {
                if b >= start {
                    lemma_group_within(conj, start, i as int, a, b);
                }
            }
            return current;
        }
        if conditions[i + 1].conjunction_type == ConjunctionType::Or {
            assert(conj[i + 1] == ConjunctionType::Or);
            assert(is_group(conj, start, i as int));
            if current {
                return true;
            }
            assert forall|a: int, b: int| is_group(conj, a, b) && b < i + 1
                implies !all_hold(facts, a, b) by {
                if b >= start {
                    lemma_group_within(conj, start, i as int, a, b);
                }
            }
            inside_failed_and_chain = false;
            proof {
                start = i + 1;
            }
        } else {
            assert(conj[i + 1] == ConjunctionType::And);
            inside_failed_and_chain = inside_failed_and_chain || !fulfilled;
        }
        i += 1;
    }
    false
}

/// A rule without conditions holds.
pub proof fn lemma_empty_conditions_hold(period: CurrentTimePeriod, map_id: u32, rolls: Seq<u32>)
    ensures
        conditions_hold(Seq::<RuleCondition>::empty(), period, map_id, rolls),
{
}

/// When every condition after the first is joined by `And`, the rule holds
/// exactly when every condition holds.
pub proof fn lemma_and_chain(
    conds: Seq<RuleCondition>,
    period: CurrentTimePeriod,
    map_id: u32,
    rolls: Seq<u32>,
)
    requires
        conds.len() > 0,
        rolls.len() == conds.len(),
        forall|k: int| 1 <= k < conds.len() ==> conds[k].conjunction_type == ConjunctionType::And,
    ensures
        conditions_hold(conds, period, map_id, rolls) == (forall|k: int|
            0 <= k < conds.len() ==> condition_holds(conds[k].data, period, map_id, rolls[k])),
{
    let conj = conjunctions(conds);
    let facts = facts_of(conds, period, map_id, rolls);
    let n = conds.len() as int;
    assert(is_group(conj, 0, n - 1));
    if chain_holds(conj, facts) {
        let (a, b) = choose|a: int, b: int| is_group(conj, a, b) && all_hold(facts, a, b);
        if a > 0 {
            assert(conj[a] == ConjunctionType::And);
        }
        if b < n - 1 {
            assert(conj[b + 1] == ConjunctionType::And);
        }
        assert forall|k: int| 0 <= k < n implies condition_holds(
            conds[k].data,
            period,
            map_id,
            rolls[k],
        ) by {
            assert(facts[k]);
        }
    }
    if forall|k: int| 0 <= k < n ==> condition_holds(conds[k].data, period, map_id, rolls[k]) {
        assert(all_hold(facts, 0, n - 1));
    }
}

/// When every condition after the first is joined by `Or`, the rule holds
/// exactly when at least one condition holds.
pub proof fn lemma_or_chain(
    conds: Seq<RuleCondition>,
    period: CurrentTimePeriod,
    map_id: u32,
    rolls: Seq<u32>,
)
    requires
        conds.len() > 0,
        rolls.len() == conds.len(),
        forall|k: int| 1 <= k < conds.len() ==> conds[k].conjunction_type == ConjunctionType::Or,
    ensures
        conditions_hold(conds, period, map_id, rolls) == (exists|k: int|
            0 <= k < conds.len() && condition_holds(conds[k].data, period, map_id, rolls[k])),
{
    let conj = conjunctions(conds);
    let facts = facts_of(conds, period, map_id, rolls);
    if chain_holds(conj, facts) {
        let (a, b) = choose|a: int, b: int| is_group(conj, a, b) && all_hold(facts, a, b);
        assert(facts[a]);
    }
    if exists|k: int| 0 <= k < conds.len() && condition_holds(conds[k].data, period, map_id, rolls[k]) {
        let k = choose|k: int| 0 <= k < conds.len() && condition_holds(conds[k].data, period, map_id, rolls[k]);
        assert(is_group(conj, k, k));
        assert(all_hold(facts, k, k));
    }
}

} // verus!
