use vstd::prelude::*;

verus! {

/// The player is on a selection screen whenever not in the game world.
pub fn is_on_character_select(in_game: bool) -> (r: bool)
    ensures
        r == !in_game,
{
    !in_game
}

/// Whether a configuration flag is set: it reads `1`.
pub fn true_if_1(value: &String) -> (r: bool)
    ensures
        r == (value@ == "1"@),
{
    proof {
        reveal_strlit("1");
    }
    let chars = crate::text::chars_of(value.as_str());
    let r = chars.len() == 1 && chars[0] == '1';
    proof {
        if r {
            assert(chars@ =~= "1"@);
        }
    }
    r
}

} // verus!
