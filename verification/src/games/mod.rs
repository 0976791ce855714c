//! The games that can be played on the keyboard.

use vstd::prelude::*;

pub mod typing;
pub mod wordle;

verus! {

/// A game's command name and a one-line description of it.
#[derive(Clone, Copy, Debug, PartialEq, Eq)]
pub struct GameDescriptor {
    pub name: &'static str,
    pub description: &'static str,
}

/// The games, in the order in which a menu lists them.
pub fn registry() -> (games: Vec<GameDescriptor>)
    ensures
        games@.len() == 2,
        games@[0].name@ == "typing"@,
        games@[0].description@ == "Fast typing with keyboard urgency colors"@,
        games@[1].name@ == "wordle"@,
        games@[1].description@ == "Wordle-like with attempt review on the keyboard"@,
{
    let mut games: Vec<GameDescriptor> = Vec::new();
    games.push(
        GameDescriptor {
            name: "typing",
            description: "Fast typing with keyboard urgency colors",
        },
    );
    games.push(
        GameDescriptor {
            name: "wordle",
            description: "Wordle-like with attempt review on the keyboard",
        },
    );
    games
}

/// A key press, as far as the games tell keys apart.
#[derive(Clone, Copy, Debug, PartialEq, Eq, Structural)]
pub enum Key {
    Escape,
    /// `c` with the control key held.
    Interrupt,
    Backspace,
    Enter,
    Left,
    Right,
    Char(char),
    /// Any other key.
    Other,
}

/// Whether `c` is one of `A`-`Z`, `a`-`z`.
pub open spec fn is_letter(c: char) -> bool {
    ('A' <= c && c <= 'Z') || ('a' <= c && c <= 'z')
}

/// Whether `c` is an ASCII letter.
pub fn char_is_letter(c: char) -> (r: bool)
    ensures
        r == is_letter(c),
{
    ('A' <= c && c <= 'Z') || ('a' <= c && c <= 'z')
}

/// Whether two texts are the same.
pub fn same_text(a: &Vec<char>, b: &Vec<char>) -> (same: bool)
    ensures
        same == (a@ == b@),
{
    if a.len() != b.len() {
        return false;
    }
    let mut i: usize = 0;
    while i < a.len()
        invariant
            i <= a@.len(),
            a@.len() == b@.len(),
            forall|k: int| 0 <= k < i ==> a@[k] == b@[k],
        decreases a@.len() - i,
    {
        if a[i] != b[i] {
            return false;
        }
        i += 1;
    }
    assert(a@ =~= b@);
    true
}

} // verus!
