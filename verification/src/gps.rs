//! GPS direction and sea-level markers read from textual metadata.

use vstd::prelude::*;
use crate::strutil::{
    ascii_lower, chars_of, spec_ascii_lower, spec_lower, spec_trim, trimmed_string, push_char,
};

verus! {

/// A cardinal direction of a GPS reference field.
#[derive(Debug, Clone, Copy, PartialEq, Eq, Structural, Default)]
pub enum Direction {
    #[default]
    South,
    North,
    West,
    East,
}

/// Which side of the sea level an altitude refers to.
#[derive(Debug, Clone, Copy, PartialEq, Eq, Structural, Default)]
pub enum SeaLevel {
    #[default]
    AboveSeaLevel,
    BelowSeaLevel,
}

/// The direction named by `s`, after trimming whitespace and folding
/// ASCII letters to lowercase: the full word or the single letter.
pub open spec fn spec_direction_of(s: Seq<char>) -> Option<Direction> {
    let t = spec_lower(spec_trim(s));
    if t == seq!['s', 'o', 'u', 't', 'h'] || t == seq!['s'] {
        Some(Direction::South)
    } else if t == seq!['n', 'o', 'r', 't', 'h'] || t == seq!['n'] {
        Some(Direction::North)
    } else if t == seq!['w', 'e', 's', 't'] || t == seq!['w'] {
        Some(Direction::West)
    } else if t == seq!['e', 'a', 's', 't'] || t == seq!['e'] {
        Some(Direction::East)
    } else {
        None
    }
}

/// The single-letter label of a direction.
pub open spec fn spec_direction_letter(d: Direction) -> Seq<char> {
    match d {
        Direction::South => seq!['S'],
        Direction::North => seq!['N'],
        Direction::West => seq!['W'],
        Direction::East => seq!['E'],
    }
}

impl Direction {
    /// Read a direction from text: the word or single letter, in any
    /// ASCII case, surrounded by optional whitespace.
    pub fn from_str(s: &str) -> (r: Option<Direction>)
        ensures
            r == spec_direction_of(s@),
    {
        let v = chars_of(s);
        let trimmed = trimmed_string(&v, 0, v.len());
        let tv = chars_of(trimmed.as_str());
        proof {
            assert(v@.subrange(0, v@.len() as int) =~= v@);
        }
        let mut t: Vec<char> = Vec::new();
        let n = tv.len();
        for i in 0..n
            invariant
                n == tv@.len(),
                t@.len() == i,
                forall|j: int| 0 <= j < i ==> t@[j] == spec_ascii_lower(#[trigger] tv@[j]),
        {
            t.push(ascii_lower(tv[i]));
        }
        proof {
            assert(t@ =~= spec_lower(spec_trim(s@)));
        }
        proof {
            assert(seq!['s', 'o', 'u', 't', 'h'].take(5) =~= seq!['s', 'o', 'u', 't', 'h']);
            assert(seq!['n', 'o', 'r', 't', 'h'].take(5) =~= seq!['n', 'o', 'r', 't', 'h']);
            assert(seq!['w', 'e', 's', 't', 't'].take(4) =~= seq!['w', 'e', 's', 't']);
            assert(seq!['e', 'a', 's', 't', 't'].take(4) =~= seq!['e', 'a', 's', 't']);
        }
        let r = if Self::is_word(&t, 's', 'o', 'u', 't', 'h', 5) || Self::is_letter(&t, 's') {
            Some(Direction::South)
        } else if Self::is_word(&t, 'n', 'o', 'r', 't', 'h', 5) || Self::is_letter(&t, 'n') {
            Some(Direction::North)
        } else if Self::is_word(&t, 'w', 'e', 's', 't', 't', 4) || Self::is_letter(&t, 'w') {
            Some(Direction::West)
        } else if Self::is_word(&t, 'e', 'a', 's', 't', 't', 4) || Self::is_letter(&t, 'e') {
            Some(Direction::East)
        } else {
            None
        };
        r
    }

    /// Whether `t` is the one given character.
    fn is_letter(t: &Vec<char>, c0: char) -> (r: bool)
        ensures
            r == (t@ == seq![c0]),
    {
        if t.len() != 1 {
            proof {
                assert(t@.len() != seq![c0].len());
            }
            return false;
        }
        let ok = t[0] == c0;
        proof {
            if ok {
                assert(t@ =~= seq![c0]);
            } else {
                assert(t@ != seq![c0]);
            }
        }
        ok
    }

    /// Whether `t` spells the first `n` of the given characters.
    fn is_word(t: &Vec<char>, c0: char, c1: char, c2: char, c3: char, c4: char, n: usize) -> (r:
        bool)
        requires
            1 <= n <= 5,
        ensures
            r == (t@ == seq![c0, c1, c2, c3, c4].take(n as int)),
    {
        let ghost w = seq![c0, c1, c2, c3, c4].take(n as int);
        if t.len() != n {
            proof {
                assert(t@.len() != w.len());
            }
            return false;
        }
        let ok = (t[0] == c0) && (n < 2 || t[1] == c1) && (n < 3 || t[2] == c2) && (n < 4 || t[3]
            == c3) && (n < 5 || t[4] == c4);
        proof {
            if ok {
                assert(t@ =~= w);
            } else {
                assert(t@ != w);
            }
        }
        ok
    }

    /// The single-letter label of this direction.
    pub fn letter(self) -> (r: String)
        ensures
            r@ == spec_direction_letter(self),
    {
        let mut s = String::new();
        match self {
            Direction::South => push_char(&mut s, 'S'),
            Direction::North => push_char(&mut s, 'N'),
            Direction::West => push_char(&mut s, 'W'),
            Direction::East => push_char(&mut s, 'E'),
        }
        proof {
            assert(s@ =~= spec_direction_letter(self));
        }
        s
    }
}

} // verus!
