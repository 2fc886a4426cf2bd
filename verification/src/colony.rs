//! The colonies of the game world and the client decisions that depend on
//! them.
use vstd::prelude::*;
use crate::text::{chars_of, same_text};

verus! {

/// A place a player can be in: one of the colonies, or the star map
/// between them.
#[derive(Debug, Clone, Copy, PartialEq, Eq, Hash, Structural)]
pub enum Colony {
    Iris,
    Cloning,
    StarMap,
    Liberte,
    Playground,
}

/// The name of a colony, as routes and logs write it.
pub open spec fn colony_name(c: Colony) -> Seq<char> {
    match c {
        Colony::Iris => seq!['I', 'r', 'i', 's'],
        Colony::Cloning => seq!['C', 'l', 'o', 'n', 'i', 'n', 'g'],
        Colony::StarMap => seq!['S', 't', 'a', 'r', 'M', 'a', 'p'],
        Colony::Liberte => seq!['L', 'i', 'b', 'e', 'r', 't', 'e'],
        Colony::Playground => seq!['P', 'l', 'a', 'y', 'g', 'r', 'o', 'u', 'n', 'd'],
    }
}

/// The colony named exactly `name`, if there is one.
pub open spec fn colony_named(name: Seq<char>) -> Option<Colony> {
    if name == colony_name(Colony::Iris) {
        Some(Colony::Iris)
    } else if name == colony_name(Colony::Cloning) {
        Some(Colony::Cloning)
    } else if name == colony_name(Colony::StarMap) {
        Some(Colony::StarMap)
    } else if name == colony_name(Colony::Liberte) {
        Some(Colony::Liberte)
    } else if name == colony_name(Colony::Playground) {
        Some(Colony::Playground)
    } else {
        None
    }
}

/// A colony's name reads back as that colony.
pub proof fn lemma_name_parses(c: Colony)
    ensures
        colony_named(colony_name(c)) == Some(c),
{
    match c {
        Colony::Iris => {},
        Colony::Cloning => {
            assert(colony_name(Colony::Cloning) != colony_name(Colony::Iris));
        },
        Colony::StarMap => {
            assert(colony_name(Colony::StarMap) != colony_name(Colony::Iris));
            assert(colony_name(Colony::StarMap)[0] != colony_name(Colony::Cloning)[0]);
        },
        Colony::Liberte => {
            assert(colony_name(Colony::Liberte)[0] != colony_name(Colony::Iris)[0]);
            assert(colony_name(Colony::Liberte)[0] != colony_name(Colony::Cloning)[0]);
            assert(colony_name(Colony::Liberte)[0] != colony_name(Colony::StarMap)[0]);
        },
        Colony::Playground => {
            assert(colony_name(Colony::Playground)[0] != colony_name(Colony::Iris)[0]);
            assert(colony_name(Colony::Playground)[0] != colony_name(Colony::Cloning)[0]);
            assert(colony_name(Colony::Playground)[0] != colony_name(Colony::StarMap)[0]);
            assert(colony_name(Colony::Playground)[0] != colony_name(Colony::Liberte)[0]);
        },
    }
}

/// Only a colony's exact name reads as that colony: a text that reads as a
/// colony is its name, so no two colonies share a name.
pub proof fn lemma_parse_is_exact(name: Seq<char>, c: Colony)
    requires
        colony_named(name) == Some(c),
    ensures
        name == colony_name(c),
{
}

impl Colony {
    /// The colony's name.
    pub fn name(&self) -> (r: &'static str)
        ensures
            r@ == colony_name(*self),
    {
        match self {
            Colony::Iris => {
                proof {
                    reveal_strlit("Iris");
                }
                "Iris"
            },
            Colony::Cloning => {
                proof {
                    reveal_strlit("Cloning");
                }
                "Cloning"
            },
            Colony::StarMap => {
                proof {
                    reveal_strlit("StarMap");
                }
                "StarMap"
            },
            Colony::Liberte => {
                proof {
                    reveal_strlit("Liberte");
                }
                "Liberte"
            },
            Colony::Playground => {
                proof {
                    reveal_strlit("Playground");
                }
                "Playground"
            },
        }
    }

    /// The colony whose name is exactly `name`; names are case sensitive.
    pub fn parse(name: &str) -> (r: Option<Colony>)
        ensures
            r == colony_named(name@),
    {
        let chars = chars_of(name);
        let all = [Colony::Iris, Colony::Cloning, Colony::StarMap, Colony::Liberte, Colony::Playground];
        let mut k: usize = 0;
        while k < 5
            invariant
                chars@ == name@,
                all@ == seq![Colony::Iris, Colony::Cloning, Colony::StarMap, Colony::Liberte, Colony::Playground],
                k <= 5,
                forall|j: int| 0 <= j < k ==> chars@ != colony_name(#[trigger] all@[j]),
            decreases 5 - k,
        {
            let candidate = all[k];
            let candidate_name = chars_of(candidate.name());
            if same_text(chars.as_slice(), candidate_name.as_slice()) {
                return Some(candidate);
            }
            k = k + 1;
        }
        assert(chars@ != colony_name(all@[0]));
        assert(chars@ != colony_name(all@[1]));
        assert(chars@ != colony_name(all@[2]));
        assert(chars@ != colony_name(all@[3]));
        assert(chars@ != colony_name(all@[4]));
        None
    }
}

} // verus!
