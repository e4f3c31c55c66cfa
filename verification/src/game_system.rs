//! The two game systems whose data the library reads.
use vstd::prelude::*;

verus! {

#[derive(Debug, Clone, Copy, PartialEq, Eq, Structural)]
pub enum GameSystem {
    Pathfinder,
    Starfinder,
}

impl GameSystem {
    /// Pathfinder is the game system in effect until another is chosen.
    pub fn default() -> (r: GameSystem)
        ensures
            r == GameSystem::Pathfinder,
    {
        GameSystem::Pathfinder
    }

    /// The prefix of the database tables of the game system.
    pub fn to_string(&self) -> (r: String)
        ensures
            r@ == (match self {
                GameSystem::Pathfinder => "pf"@,
                GameSystem::Starfinder => "sf"@,
            }),
    {
        match self {
            GameSystem::Pathfinder => "pf".to_owned(),
            GameSystem::Starfinder => "sf".to_owned(),
        }
    }
}

/// The game system in effect: none chosen yet, or the one chosen last.
#[derive(Debug)]
pub struct GameSystemSlot {
    pub chosen: Option<GameSystem>,
}

impl GameSystemSlot {
    /// A slot where no game system has been chosen.
    pub fn new() -> (r: GameSystemSlot)
        ensures
            r.chosen is None,
    {
        GameSystemSlot { chosen: None }
    }

    /// The game system in effect: the one chosen last, Pathfinder before any.
    pub open spec fn current(&self) -> GameSystem {
        match self.chosen {
            Some(g) => g,
            None => GameSystem::Pathfinder,
        }
    }
}

/// Chooses the game system in effect.
pub fn set_game_system(slot: &mut GameSystemSlot, gs: GameSystem)
    ensures
        final(slot).chosen == Some(gs),
{
    slot.chosen = Some(gs);
}

/// The game system in effect.
pub fn current_game_system(slot: &GameSystemSlot) -> (r: GameSystem)
    ensures
        r == slot.current(),
{
    match slot.chosen {
        Some(g) => g,
        None => GameSystem::default(),
    }
}

/// Law: the game system in effect is the one chosen last, and Pathfinder
/// until one is chosen.
pub proof fn law_current_is_last_chosen(slot: GameSystemSlot, gs: GameSystem)
    ensures
        (GameSystemSlot { chosen: Some(gs) }).current() == gs,
        (GameSystemSlot { chosen: None }).current() == GameSystem::Pathfinder,
{
}

} // verus!
