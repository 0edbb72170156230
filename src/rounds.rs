use vstd::prelude::*;

verus! {

/// Round number from which the two teams swap sides.
pub const SIDE_SWAP_ROUND: u8 = 12;

/// Round number from which overtime starts and sides alternate every round.
pub const OVERTIME_ROUND: u8 = 24;

/// Whether the red team attacks in the given (zero-based) round.
pub open spec fn red_attacks(round_num: int) -> bool {
    if round_num < SIDE_SWAP_ROUND {
        true
    } else if round_num < OVERTIME_ROUND {
        false
    } else {
        round_num % 2 == 0
    }
}

/// The red team attacks in the first half, defends in the second, and in
/// overtime attacks in the even-numbered rounds.
pub fn is_attacker_red(round_num: u8) -> (r: bool)
    ensures
        r == red_attacks(round_num as int),
{
    if round_num < SIDE_SWAP_ROUND {
        return true;
    }
    if round_num < OVERTIME_ROUND {
        return false;
    }
    round_num % 2 == 0
}

/// A team's colour, as match records name it.
#[derive(PartialEq, Eq, Structural, Clone, Copy, Debug)]
pub enum TeamColor {
    Red,
    Blue,
    /// Any other team (such as a free-for-all player's own).
    Other,
}

pub open spec fn attacks(round_num: int, team: Option<TeamColor>) -> bool {
    match team {
        Some(TeamColor::Red) => red_attacks(round_num),
        Some(TeamColor::Blue) => !red_attacks(round_num),
        _ => false,
    }
}

/// Whether `team` attacks in the given round; a team that is neither red nor
/// blue, or none, never does.
pub fn is_attacker(round_num: u8, team: Option<TeamColor>) -> (r: bool)
    ensures
        r == attacks(round_num as int, team),
{
    match team {
        Some(TeamColor::Red) => is_attacker_red(round_num),
        Some(TeamColor::Blue) => !is_attacker_red(round_num),
        _ => false,
    }
}

} // verus!
