use vstd::prelude::*;
use crate::game::{App, GameState};

verus! {

/// A key the player pressed.
#[derive(Clone, Copy, Debug, PartialEq, Eq, Structural)]
pub enum Key {
    Char(char),
    Backspace,
    Enter,
    /// Any other key, which the game ignores.
    Other,
}

/// A key press, and whether Control was the one modifier held with it.
#[derive(Clone, Copy, Debug, PartialEq, Eq, Structural)]
pub struct KeyInput {
    pub key: Key,
    pub control_only: bool,
}

/// Whether the press is Control and one of the letters `lower` or `upper`.
pub open spec fn is_command(k: KeyInput, lower: char, upper: char) -> bool {
    &&& k.control_only
    &&& k.key matches Key::Char(c)
    &&& (c == lower || c == upper)
}

/// The state after a key press. Control-Q asks to leave; Control-R starts a
/// new game, on `new_target`; Control-V shows or hides the target; another
/// character is typed; Backspace erases; Enter submits the guess.
pub open spec fn step(s: GameState, k: KeyInput, new_target: Seq<char>) -> GameState {
    if is_command(k, 'q', 'Q') {
        s.quit()
    } else if is_command(k, 'r', 'R') {
        GameState::fresh(s.vocabulary, new_target)
    } else if is_command(k, 'v', 'V') {
        s.toggle_reveal()
    } else {
        match k.key {
            Key::Char(c) => s.type_letter(c),
            Key::Backspace => s.backspace(),
            Key::Enter => s.submit(),
            Key::Other => s,
        }
    }
}

/// The state after the key presses `keys`, in order, up to the first that
/// asks to leave; the `i`-th new game, if any, is on `targets[i]`.
pub open spec fn replay(s: GameState, keys: Seq<KeyInput>, targets: Seq<Seq<char>>) -> GameState
    decreases keys.len(),
{
    if keys.len() == 0 {
        s
    } else {
        let p = replay(s, keys.drop_last(), targets.drop_last());
        if p.exit {
            p
        } else {
            step(p, keys.last(), targets.last())
        }
    }
}

/// Once the player asked to leave, further key presses change nothing.
pub proof fn lemma_replay_stops_at_exit(
    s: GameState,
    keys: Seq<KeyInput>,
    targets: Seq<Seq<char>>,
    i: int,
)
    requires
        0 <= i <= keys.len(),
        targets.len() == keys.len(),
        replay(s, keys.take(i), targets.take(i)).exit,
    ensures
        replay(s, keys, targets) == replay(s, keys.take(i), targets.take(i)),
    decreases keys.len(),
{
    if keys.len() == i {
        assert(keys.take(i) =~= keys);
        assert(targets.take(i) =~= targets);
    } else {
        assert(keys.drop_last().take(i) =~= keys.take(i));
        assert(targets.drop_last().take(i) =~= targets.take(i));
        lemma_replay_stops_at_exit(s, keys.drop_last(), targets.drop_last(), i);
    }
}

impl App {
    /// Acts on one key press; Control-R starts a new game on a word of the
    /// vocabulary picked at random.
    pub fn handle_key_event(&mut self, key_event: KeyInput)
        requires
            old(self).wf(),
        ensures
            final(self).wf(),
            final(self)@ == step(old(self)@, key_event, final(self)@.target),
    {
        let control = key_event.control_only;
        match key_event.key {
            Key::Char(c) => {
                if control && (c == 'q' || c == 'Q') {
                    self.exit();
                } else if control && (c == 'r' || c == 'R') {
                    let _ = self.choose_random_word();
                } else if control && (c == 'v' || c == 'V') {
                    self.toggle_reveal();
                } else {
                    self.type_letter(c);
                }
            },
            Key::Backspace => self.backspace(),
            Key::Enter => self.submit_word(),
            Key::Other => {},
        }
    }

    /// Plays the key presses `inputs` in order, and stops at the first that
    /// asks to leave.
    pub fn run(&mut self, inputs: &[KeyInput])
        requires
            old(self).wf(),
        ensures
            final(self).wf(),
            exists|targets: Seq<Seq<char>>|
                targets.len() == inputs@.len() && final(self)@ == replay(
                    old(self)@,
                    inputs@,
                    targets,
                ),
    {
        let ghost start = self@;
        let ghost mut targets: Seq<Seq<char>> = Seq::empty();
        let mut i: usize = 0;
        while i < inputs.len() && !self.exited()
            invariant
                self.wf(),
                i <= inputs@.len(),
                targets.len() == i,
                self@ == replay(start, inputs@.take(i as int), targets),
            decreases inputs@.len() - i,
        {
            self.handle_key_event(inputs[i]);
            proof {
                let next = targets.push(self@.target);
                assert(inputs@.take(i + 1).drop_last() =~= inputs@.take(i as int));
                assert(next.drop_last() =~= targets);
                targets = next;
            }
            i += 1;
        }
        proof {
            let all = targets + Seq::new((inputs@.len() - i) as nat, |j: int| start.target);
            assert(all.take(i as int) =~= targets);
            if i < inputs.len() {
                lemma_replay_stops_at_exit(start, inputs@, all, i as int);
            } else {
                assert(inputs@.take(i as int) =~= inputs@);
            }
            assert(all.len() == inputs@.len() && self@ == replay(start, inputs@, all));
        }
    }
}

} // verus!
