//! The battle and progression state machine. Selecting a monster cell
//! engages a battle: the player strikes first, dealing damage equal to
//! their level; a surviving monster strikes back for its level, and rounds
//! alternate until one side falls. Equal levels are an explicit instant
//! kill with no exchange of damage. A victory clears the monster and pays
//! the monster's level in experience; the level-up curve charges ten times
//! the current level per level, up to a cap.

use vstd::prelude::*;

verus! {

/// Highest player level; at the cap, experience keeps accumulating but no
/// further level-up happens.
pub const MAX_LEVEL: u8 = 99;

/// Hit points a fresh player starts with.
pub const BASE_HP: i8 = 10;

/// Experience needed to advance from `level` to the next: ten times the
/// level.
pub open spec fn threshold(level: int) -> int {
    10 * level
}

/// The player's progression state; the cursor lives on the game
/// controller.
#[derive(Clone, Copy, PartialEq, Eq, Structural, Debug)]
pub struct Player {
    /// Current level: how much damage the player deals per strike.
    pub level: u8,
    /// Hit points; at or below zero the player is defeated.
    pub hp: i8,
    /// Experience collected toward the next level.
    pub exp: u16,
    /// Experience still needed to reach the next level.
    pub exp_to_next: u16,
}

impl Player {
    /// The level lies in `1..=MAX_LEVEL` and the stored threshold matches
    /// the curve.
    pub open spec fn wf(self) -> bool {
        &&& 1 <= self.level <= MAX_LEVEL
        &&& self.exp_to_next == threshold(self.level as int)
    }

    /// The baseline a player starts or restarts with.
    pub open spec fn baseline() -> Player {
        Player { level: 1, hp: 10, exp: 0, exp_to_next: 10 }
    }

    pub fn new() -> (p: Player)
        ensures
            p == Player::baseline(),
            p.wf(),
    {
        Player { level: 1, hp: BASE_HP, exp: 0, exp_to_next: 10 }
    }
}

/// The terminal states of a battle.
#[derive(Clone, Copy, PartialEq, Eq, Structural, Debug)]
pub enum BattleOutcome {
    Victory,
    Defeat,
}

/// The rounds of a battle, player striking first: the monster loses
/// `p_level` hit points; if it survives, the player loses `m_level`, and
/// the rounds repeat. Yields whether the player won, and the player's
/// remaining hit points. Damage is strictly positive each round, so no
/// draw is possible and the rounds always terminate.
pub open spec fn battle_spec(p_level: int, p_hp: int, m_hp: int, m_level: int) -> (bool, int)
    decreases m_hp,
{
    if p_level < 1 {
        (true, p_hp)
    } else if m_hp - p_level <= 0 {
        (true, p_hp)
    } else if p_hp - m_level <= 0 {
        (false, p_hp - m_level)
    } else {
        battle_spec(p_level, p_hp - m_level, m_hp - p_level, m_level)
    }
}

/// Throughout a battle the player's hit points never increase.
proof fn lemma_battle_hp_bound(p_level: int, p_hp: int, m_hp: int, m_level: int)
    requires
        m_level >= 1,
    ensures
        battle_spec(p_level, p_hp, m_hp, m_level).1 <= p_hp,
    decreases m_hp,
{
    if p_level >= 1 && m_hp - p_level > 0 && p_hp - m_level > 0 {
        lemma_battle_hp_bound(p_level, p_hp - m_level, m_hp - p_level, m_level);
    }
}

/// Engaging a monster of strictly greater level costs the player at least
/// one full strike of that level's damage before the battle resolves
/// either way: the monster survives the player's first strike and strikes
/// back at least once.
pub proof fn lemma_battle_costly(p_level: int, p_hp: int, m_level: int)
    requires
        1 <= p_level < m_level,
        p_hp >= 1,
    ensures
        battle_spec(p_level, p_hp, m_level, m_level).1 <= p_hp - m_level,
{
    if p_hp - m_level > 0 {
        lemma_battle_hp_bound(p_level, p_hp - m_level, m_level - p_level, m_level);
    }
}

/// Resolve a battle at the moment of engagement. Equal levels are a
/// deliberate short-circuit before the round loop: an instant kill with no
/// exchange of damage. Otherwise rounds alternate, player first, exactly
/// as `battle_spec` lays them out. Only hit points change; experience and
/// level are the caller's to award.
pub fn battle(player: &mut Player, monster_level: u8) -> (outcome: BattleOutcome)
    requires
        old(player).wf(),
        1 <= monster_level <= 9,
        old(player).hp >= 1,
    ensures
        final(player).wf(),
        final(player).level == old(player).level,
        final(player).exp == old(player).exp,
        final(player).exp_to_next == old(player).exp_to_next,
        monster_level == old(player).level ==> outcome == BattleOutcome::Victory
            && final(player).hp == old(player).hp,
        monster_level != old(player).level ==> {
            let r = battle_spec(
                old(player).level as int,
                old(player).hp as int,
                monster_level as int,
                monster_level as int,
            );
            &&& (outcome == BattleOutcome::Victory <==> r.0)
            &&& final(player).hp == r.1
        },
        outcome == BattleOutcome::Victory ==> final(player).hp >= 1,
        outcome == BattleOutcome::Defeat ==> final(player).hp <= 0,
{
    if monster_level == player.level {
        return BattleOutcome::Victory;
    }
    let ghost p0 = *player;
    let mut m_hp: i16 = monster_level as i16;
    while m_hp > 0
        invariant
            player.wf(),
            p0 == *old(player),
            1 <= monster_level <= 9,
            monster_level != p0.level,
            player.level == p0.level,
            player.exp == p0.exp,
            player.exp_to_next == p0.exp_to_next,
            0 < m_hp <= monster_level as i16,
            1 <= player.hp <= p0.hp,
            battle_spec(
                p0.level as int,
                player.hp as int,
                m_hp as int,
                monster_level as int,
            ) == battle_spec(
                p0.level as int,
                p0.hp as int,
                monster_level as int,
                monster_level as int,
            ),
        decreases m_hp,
    {
        m_hp = m_hp - player.level as i16;
        if m_hp <= 0 {
            return BattleOutcome::Victory;
        }
        player.hp = player.hp - monster_level as i8;
        if player.hp <= 0 {
            return BattleOutcome::Defeat;
        }
    }
    proof {
        assert(false);
    }
    BattleOutcome::Victory
}

/// The level-up loop: while the collected experience meets the threshold
/// and the cap is not reached, spend the threshold and advance one level.
/// Yields the final level and leftover experience.
pub open spec fn level_ups(level: int, exp: int) -> (int, int)
    decreases MAX_LEVEL as int - level,
{
    if level < MAX_LEVEL && exp >= threshold(level) {
        level_ups(level + 1, exp - threshold(level))
    } else {
        (level, exp)
    }
}

/// What a victory reward does to level and experience: the documented
/// reward is exactly the defeated monster's level, saturating at the
/// experience counter's maximum, followed by the level-up loop.
pub open spec fn gain_spec(level: int, exp: int, amount: int) -> (int, int) {
    let e = if exp + amount > 0xFFFF {
        0xFFFF
    } else {
        exp + amount
    };
    level_ups(level, e)
}

/// Award the victory reward for a defeated monster of the given level and
/// apply level-ups. Hit points are untouched.
pub fn award_exp(player: &mut Player, amount: u8)
    requires
        old(player).wf(),
        1 <= amount <= 9,
    ensures
        final(player).wf(),
        final(player).hp == old(player).hp,
        (final(player).level as int, final(player).exp as int) == gain_spec(
            old(player).level as int,
            old(player).exp as int,
            amount as int,
        ),
{
    if player.exp > 0xFFFF - amount as u16 {
        player.exp = 0xFFFF;
    } else {
        player.exp = player.exp + amount as u16;
    }
    let ghost lv0 = player.level as int;
    let ghost e0 = player.exp as int;
    while player.level < MAX_LEVEL && player.exp >= player.exp_to_next
        invariant
            player.wf(),
            player.hp == old(player).hp,
            level_ups(player.level as int, player.exp as int) == level_ups(lv0, e0),
        decreases MAX_LEVEL as int - player.level as int,
    {
        player.exp = player.exp - player.exp_to_next;
        player.level = player.level + 1;
        player.exp_to_next = 10 * (player.level as u16);
    }
}

} // verus!

