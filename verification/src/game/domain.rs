use crate::errors::{Error, Result};
use crate::game::mob::Mob;
use crate::game::player::Player;
use crate::game::room::Room;
use crate::utils::text::str_chars;
use vstd::prelude::*;
use vstd::string::StringExecFns;

verus! {

pub type Attribute = u32;

pub type Rd = u32;

/// `value` read as a 32 bit signed integer (two's complement), as `value as i32` does.
pub open spec fn as_signed(value: u32) -> int {
    if value < 0x8000_0000 {
        value as int
    } else {
        value as int - 0x1_0000_0000
    }
}

/// A bonus or penalty added to an attribute.
#[derive(Clone, Copy, PartialEq, Eq, Hash, Debug, Structural)]
pub struct Modifier(pub i32);

impl Modifier {
    /// The value the modifier gives to an attribute: the smaller of 0 and the modified value,
    /// read back as an unsigned number.
    pub fn apply(&self, value: Attribute) -> (r: Attribute)
        requires
            i32::MIN <= as_signed(value) + self.0 <= i32::MAX,
        ensures
            as_signed(value) + self.0 >= 0 ==> r == 0,
            as_signed(value) + self.0 < 0 ==> r == as_signed(value) + self.0 + 0x1_0000_0000,
    {
        let v: i32 = value as i32;
        proof {
            assert(v == as_signed(value)) by (bit_vector)
                requires
                    v == value as i32,
            ;
        }
        let s: i32 = v + self.0;
        let m: i32 = if 0 < s {
            0
        } else {
            s
        };
        let r: u32 = m as u32;
        proof {
            assert(m < 0 ==> r == m + 0x1_0000_0000) by (bit_vector)
                requires
                    r == m as u32,
            ;
            assert(m >= 0 ==> r == m) by (bit_vector)
                requires
                    r == m as u32,
            ;
        }
        r
    }
}

/// A direction to move between rooms.
#[derive(Clone, Copy, Debug, PartialEq, Eq, Structural)]
pub enum Dir {
    N,
    S,
    W,
    E,
}

impl Dir {
    pub open spec fn spec_inv(self) -> Dir {
        match self {
            Dir::N => Dir::S,
            Dir::S => Dir::N,
            Dir::E => Dir::E,
            Dir::W => Dir::W,
        }
    }

    /// The opposite direction for north and south; east and west are given back unchanged.
    pub fn inv(&self) -> (r: Self)
        ensures
            r == self.spec_inv(),
    {
        match self {
            Dir::N => Dir::S,
            Dir::S => Dir::N,
            Dir::E => Dir::E,
            Dir::W => Dir::W,
        }
    }

    pub open spec fn code(self) -> char {
        match self {
            Dir::N => 'n',
            Dir::S => 's',
            Dir::E => 'e',
            Dir::W => 'w',
        }
    }

    /// The one letter code of the direction.
    pub fn as_str(&self) -> (r: &'static str)
        ensures
            r@ == seq![self.code()],
    {
        match self {
            Dir::N => {
                proof {
                    reveal_strlit("n");
                }
                "n"
            },
            Dir::S => {
                proof {
                    reveal_strlit("s");
                }
                "s"
            },
            Dir::E => {
                proof {
                    reveal_strlit("e");
                }
                "e"
            },
            Dir::W => {
                proof {
                    reveal_strlit("w");
                }
                "w"
            },
        }
    }

    /// The direction whose code is `value`, if any.
    pub open spec fn spec_parse(value: Seq<char>) -> Option<Dir> {
        if value == seq!['n'] {
            Some(Dir::N)
        } else if value == seq!['s'] {
            Some(Dir::S)
        } else if value == seq!['e'] {
            Some(Dir::E)
        } else if value == seq!['w'] {
            Some(Dir::W)
        } else {
            None
        }
    }

    /// Read a direction from its one letter code; anything else is refused with a
    /// `ParseFailure` that names the kind "Dir" and holds the value.
    pub fn parse(value: &str) -> (r: Result<Dir>)
        ensures
            match Self::spec_parse(value@) {
                Some(d) => r == Ok::<Dir, Error>(d),
                None => r matches Err(Error::ParseFailure { kind, value: v }) && kind@ == seq![
                    'D',
                    'i',
                    'r',
                ] && v@ == value@,
            },
    {
        let cs = str_chars(value);
        if cs.len() == 1 {
            let c = cs[0];
            proof {
                assert(value@ =~= seq![c]);
            }
            if c == 'n' {
                return Ok(Dir::N);
            } else if c == 's' {
                return Ok(Dir::S);
            } else if c == 'e' {
                return Ok(Dir::E);
            } else if c == 'w' {
                return Ok(Dir::W);
            }
        }
        proof {
            reveal_strlit("Dir");
        }
        Err(Error::ParseFailure { kind: String::from_str("Dir"), value: value.to_owned() })
    }
}

/// Law: `parse` reads back what `as_str` writes.
pub proof fn lemma_dir_parse_as_str(d: Dir)
    ensures
        Dir::spec_parse(seq![d.code()]) == Some(d),
{
    assert(seq!['n'][0] == 'n' && seq!['s'][0] == 's');
    assert(seq!['e'][0] == 'e' && seq!['w'][0] == 'w');
}

/// Law: a text read as a direction is that direction's one letter code.
pub proof fn parse_reads_only_codes(d: Dir, s: Seq<char>)
    ensures
        Dir::spec_parse(s) == Some(d) ==> s == seq![d.code()],
{
}

/// Law: north and south are each other's inverse, so inverting them twice gives them back.
pub proof fn lemma_dir_inv_involutive(d: Dir)
    ensures
        d.spec_inv().spec_inv() == d,
{
}

/// Generator of sequential identifiers.
pub struct NextId {
    next: u32,
}

impl NextId {
    pub closed spec fn peek(&self) -> u32 {
        self.next
    }

    pub fn new() -> (r: Self)
        ensures
            r.peek() == 0,
    {
        NextId { next: 0 }
    }

    pub fn new_from(value: u32) -> (r: Self)
        ensures
            r.peek() == value,
    {
        NextId { next: value }
    }

    /// The identifier that `next` gives.
    pub fn current(&self) -> (r: u32)
        ensures
            r == self.peek(),
    {
        self.next
    }

    /// Give the current identifier and advance to the following one.
    pub fn next(&mut self) -> (r: u32)
        requires
            old(self).peek() < u32::MAX,
        ensures
            r == old(self).peek(),
            final(self).peek() == old(self).peek() + 1,
    {
        let v = self.next;
        self.next = self.next + 1;
        v
    }

    /// Make sure the next identifier given is above `id`.
    pub fn set_max(&mut self, id: u32)
        requires
            id < u32::MAX,
        ensures
            final(self).peek() == if old(self).peek() >= id + 1 {
                old(self).peek()
            } else {
                (id + 1) as u32
            },
    {
        let c = id + 1;
        if self.next < c {
            self.next = c;
        }
    }
}

/// A mob and the room it is in.
pub struct MobCtx<'a> {
    pub mob: &'a Mob,
    pub room: &'a Room,
}

/// A player, its avatar and the room the avatar is in.
pub struct PlayerCtx<'a> {
    pub player: &'a Player,
    pub mob: &'a Mob,
    pub room: &'a Room,
}

} // verus!
