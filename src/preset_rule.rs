use vstd::prelude::*;
use crate::condition::{
    conditions_fulfilled, conditions_hold, ConditionData, RuleCondition, CHANCE_SCALE,
};
use crate::context::Context;
use crate::key_combination::KeyCombination;
use crate::reshade::{shortcut_entries, ReshadeContext};
use crate::time_period::CurrentTimePeriod;

verus! {

/// Why a rule cannot be activated.
#[derive(Clone, Copy, Debug, PartialEq, Eq, Structural)]
pub enum RuleValidationError {
    NoPresetSelected,
}

/// The outcome of evaluating a rule: whether it is valid, and, for a valid
/// rule, whether its conditions hold.
#[derive(Clone, Copy, Debug)]
pub struct RuleProcessingResult {
    pub validation_result: Result<(), RuleValidationError>,
    pub activate_rule: Result<bool, ()>,
}

/// A named rule that selects a preset when its conditions hold.
#[derive(Clone, Debug)]
pub struct PresetRule {
    pub rule_name: String,
    pub preset_path: String,
    pub conditions: Vec<RuleCondition>,
}

/// A rule is valid when it names a preset and that preset exists.
pub open spec fn rule_valid(rule: PresetRule, preset_exists: bool) -> bool {
    rule.preset_path@.len() > 0 && preset_exists
}

/// Draws for the conditions of a rule: one number from 1 to `CHANCE_SCALE`
/// for each condition.
pub open spec fn rolls_in_range(rolls: Seq<u32>, n: nat) -> bool {
    rolls.len() == n && forall|i: int| 0 <= i < rolls.len() ==> 1 <= #[trigger] rolls[i] <= CHANCE_SCALE
}

/// What evaluating `rule` gives, with `rolls` the numbers drawn for it.
pub open spec fn rule_result(
    rule: PresetRule,
    period: CurrentTimePeriod,
    map_id: u32,
    preset_exists: bool,
    rolls: Seq<u32>,
) -> RuleProcessingResult {
    if rule_valid(rule, preset_exists) {
        RuleProcessingResult {
            validation_result: Ok(()),
            activate_rule: Ok(conditions_hold(rule.conditions@, period, map_id, rolls)),
        }
    } else {
        RuleProcessingResult {
            validation_result: Err(RuleValidationError::NoPresetSelected),
            activate_rule: Err(()),
        }
    }
}

/// Relies on rand's `thread_rng` and `Rng::gen_range`, which draws uniformly
/// from the range given, here 1 to `CHANCE_SCALE`.
#[verifier::external_body]
fn roll_chance() -> (r: u32)
    ensures
        1 <= r <= CHANCE_SCALE,
{
    rand::Rng::gen_range(&mut rand::thread_rng(), 1..=CHANCE_SCALE)
}

/// One draw for each condition; only chance conditions read theirs.
pub fn draw_rolls(conditions: &Vec<RuleCondition>) -> (r: Vec<u32>)
    ensures
        rolls_in_range(r@, conditions.len() as nat),
{
    let mut rolls: Vec<u32> = Vec::new();
    let mut i: usize = 0;
    while i < conditions.len()
        invariant
            0 <= i <= conditions.len(),
            rolls_in_range(rolls@, i as nat),
        decreases conditions.len() - i,
    {
        let roll = match conditions[i].data {
            ConditionData::Chance(_) => roll_chance(),
            _ => CHANCE_SCALE,
        };
        rolls.push(roll);
        i += 1;
    }
    rolls
}

impl Default for PresetRule {
    fn default() -> (r: PresetRule)
        ensures
            r.rule_name@ == "Rule"@,
            r.preset_path@.len() == 0,
            r.conditions@.len() == 0,
    {
        PresetRule {
            rule_name: crate::text::string_from_chars(&crate::text::chars_of("Rule")),
            preset_path: String::new(),
            conditions: Vec::new(),
        }
    }
}

impl PresetRule {
    /// Checks that the rule names a preset that exists.
    pub fn validate(&self, preset_exists: bool) -> (r: Result<(), RuleValidationError>)
        ensures
            r is Ok <==> rule_valid(*self, preset_exists),
            r is Err ==> r == Err::<(), RuleValidationError>(RuleValidationError::NoPresetSelected),
    {
        if self.preset_path.as_str().unicode_len() == 0 || !preset_exists {
            return Err(RuleValidationError::NoPresetSelected);
        }
        Ok(())
    }

    /// Evaluates the rule on the given phase and map, `rolls[i]` being the
    /// number drawn for condition `i`.
    pub fn evaluate_with_rolls(
        &self,
        current_time_period: CurrentTimePeriod,
        current_map_id: u32,
        preset_exists: bool,
        rolls: &Vec<u32>,
    ) -> (r: RuleProcessingResult)
        requires
            rolls.len() == self.conditions.len(),
        ensures
            r == rule_result(*self, current_time_period, current_map_id, preset_exists, rolls@),
    {
        match self.validate(preset_exists) {
            Ok(()) => {
                let fulfilled = conditions_fulfilled(
                    &self.conditions,
                    current_time_period,
                    current_map_id,
                    rolls,
                );
                RuleProcessingResult { validation_result: Ok(()), activate_rule: Ok(fulfilled) }
            },
            Err(e) => RuleProcessingResult { validation_result: Err(e), activate_rule: Err(()) },
        }
    }

    /// Evaluates the rule on the context's phase and the given map, drawing a
    /// fresh number for each chance condition.
    pub fn evaluate(&self, context: &Context, current_map_id: &u32, preset_exists: bool) -> (r:
        RuleProcessingResult)
        ensures
            exists|rolls: Seq<u32>|
                rolls_in_range(rolls, self.conditions.len() as nat) && r == rule_result(
                    *self,
                    context.current_time_period,
                    *current_map_id,
                    preset_exists,
                    rolls,
                ),
    {
        let rolls = draw_rolls(&self.conditions);
        self.evaluate_with_rolls(context.current_time_period, *current_map_id, preset_exists, &rolls)
    }

    /// The shortcut that selects this rule's preset, if the mirror knows one.
    pub fn activate(&self, reshade_context: &ReshadeContext) -> (r: Option<KeyCombination>)
        ensures
            r is Some == shortcut_entries(reshade_context.preset_shortcuts).values().contains(
                self.preset_path@,
            ),
            r matches Some(k) ==> shortcut_entries(reshade_context.preset_shortcuts)[k@]
                == self.preset_path@,
    {
        reshade_context.shortcut_for_preset(&self.preset_path)
    }
}

} // verus!
