//! What the game knows of its user interface: which parts there are, and what
//! the restart button does.

use vstd::prelude::*;
use crate::common::{GameState, NextState};

verus! {

/// Marks the text that shows the score.
#[derive(Clone, Copy, PartialEq, Eq, Structural, Debug)]
pub struct ScoreUI {}

/// Marks the sign that shows that the cannon is being reloaded.
#[derive(Clone, Copy, PartialEq, Eq, Structural, Debug)]
pub struct ReloadUI {}

/// Marks the button that starts a new game.
#[derive(Clone, Copy, PartialEq, Eq, Structural, Debug)]
pub struct RestartButton {}

/// What the cursor does to a button.
#[derive(Clone, Copy, PartialEq, Eq, Structural, Debug)]
pub enum Interaction {
    /// The button is pressed.
    Pressed,
    /// The cursor is over the button.
    Hovered,
    /// Nothing happens to the button.
    Idle,
}

/// Reads what happened to the restart button in this tick: once it has been
/// pressed, a new game is asked for.
pub fn restart_button_system(next_state: &mut NextState, interactions: &Vec<Interaction>)
    ensures
        final(next_state).0 == if interactions@.contains(Interaction::Pressed) {
            Some(GameState::Playing)
        } else {
            old(next_state).0
        },
{
    let mut i: usize = 0;
    while i < interactions.len()
        invariant
            i <= interactions.len(),
            next_state.0 == if interactions@.take(i as int).contains(Interaction::Pressed) {
                Some(GameState::Playing)
            } else {
                old(next_state).0
            },
        decreases interactions.len() - i,
    {
        proof {
            let prefix = interactions@.take(i as int);
            let next = interactions@.take(i + 1);
            assert(next =~= prefix.push(interactions@[i as int]));
            if prefix.contains(Interaction::Pressed) {
                let k = choose|k: int| 0 <= k < prefix.len() && prefix[k] == Interaction::Pressed;
                assert(next[k] == Interaction::Pressed);
            }
            if interactions@[i as int] == Interaction::Pressed {
                assert(next[i as int] == Interaction::Pressed);
            }
        }
        match interactions[i] {
            Interaction::Pressed => {
                next_state.set(GameState::Playing);
            },
            _ => {},
        }
        i += 1;
    }
    proof {
        assert(interactions@.take(i as int) =~= interactions@);
    }
}

} // verus!
