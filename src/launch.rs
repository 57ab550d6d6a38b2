//! Which kind of program the focused compositor window runs, by its class.

use vstd::prelude::*;
use crate::status::chars_of;

verus! {

/// The programs whose launching data can be read.
#[derive(Clone, Copy, Debug, PartialEq, Eq)]
pub enum WindowKind {
    /// A terminal, asked over its remote-control socket.
    Kitty,
    /// An editor, read through its process.
    Neovide,
}

/// Why a window gives no launching data.
#[derive(Clone, Copy, Debug, PartialEq, Eq)]
pub enum KindError {
    /// The window has no class.
    NoClass,
    /// The window's class is not one that is understood.
    Unsupported,
}

pub open spec fn kitty_class() -> Seq<char> {
    seq!['k', 'i', 't', 't', 'y']
}

pub open spec fn neovide_class() -> Seq<char> {
    seq!['n', 'e', 'o', 'v', 'i', 'd', 'e']
}

fn equals_word(s: &Vec<char>, word: &[char]) -> (r: bool)
    ensures
        r == (s@ == word@),
{
    if s.len() != word.len() {
        return false;
    }
    let mut i: usize = 0;
    while i < word.len()
        invariant
            s@.len() == word@.len(),
            0 <= i <= word@.len(),
            forall|j: int| 0 <= j < i ==> s@[j] == word@[j],
        decreases word.len() - i,
    {
        if s[i] != word[i] {
            return false;
        }
        i = i + 1;
    }
    assert(s@ =~= word@);
    true
}

/// The kind of program that a window of class `app_id` runs.
pub fn window_kind(app_id: &Option<String>) -> (r: Result<WindowKind, KindError>)
    ensures
        r == match app_id {
            None => Err(KindError::NoClass),
            Some(class) => if class@ == kitty_class() {
                Ok(WindowKind::Kitty)
            } else if class@ == neovide_class() {
                Ok(WindowKind::Neovide)
            } else {
                Err(KindError::Unsupported)
            },
        },
{
    match app_id {
        None => Err(KindError::NoClass),
        Some(class) => {
            let chars = chars_of(class.as_str());
            let kitty: [char; 5] = ['k', 'i', 't', 't', 'y'];
            let neovide: [char; 7] = ['n', 'e', 'o', 'v', 'i', 'd', 'e'];
            assert(kitty@ =~= kitty_class());
            assert(neovide@ =~= neovide_class());
            if equals_word(&chars, &kitty) {
                Ok(WindowKind::Kitty)
            } else if equals_word(&chars, &neovide) {
                Ok(WindowKind::Neovide)
            } else {
                Err(KindError::Unsupported)
            }
        },
    }
}

} // verus!
