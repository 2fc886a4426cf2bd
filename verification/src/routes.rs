//! The routing table of the game proxy: which backend server serves each
//! colony.
use vstd::prelude::*;
use std::collections::HashMap;
use crate::colony::Colony;

verus! {

broadcast use vstd::std_specs::hash::group_hash_axioms;

/// The key under which a colony's route is stored.
pub open spec fn colony_code(c: Colony) -> u8 {
    match c {
        Colony::Iris => 0,
        Colony::Cloning => 1,
        Colony::StarMap => 2,
        Colony::Liberte => 3,
        Colony::Playground => 4,
    }
}

fn code_of(c: Colony) -> (r: u8)
    ensures
        r == colony_code(c),
{
    match c {
        Colony::Iris => 0,
        Colony::Cloning => 1,
        Colony::StarMap => 2,
        Colony::Liberte => 3,
        Colony::Playground => 4,
    }
}

/// No colony occurs twice among the entries.
pub open spec fn distinct_colonies(entries: Seq<(Colony, String)>) -> bool {
    forall|i: int, j: int|
        0 <= i < j < entries.len() ==> (#[trigger] entries[i]).0 != (#[trigger] entries[j]).0
}

/// Which backend address serves each colony.
pub struct RouteTable {
    addresses: HashMap<u8, String>,
}

impl RouteTable {
    /// The address of each routed colony.
    pub closed spec fn view(&self) -> Map<Colony, Seq<char>> {
        Map::new(
            |c: Colony| self.addresses@.contains_key(colony_code(c)),
            |c: Colony| self.addresses@[colony_code(c)]@,
        )
    }

    /// A table with no routes.
    pub fn new() -> (r: Self)
        ensures
            r.view() == Map::<Colony, Seq<char>>::empty(),
    {
        let r = RouteTable { addresses: HashMap::new() };
        assert(r.view() =~= Map::<Colony, Seq<char>>::empty());
        r
    }

    /// The address that serves `colony`, if it is routed.
    pub fn get(&self, colony: Colony) -> (r: Option<&String>)
        ensures
            match r {
                Some(address) => self.view().contains_key(colony) && address@ == self.view()[colony],
                None => !self.view().contains_key(colony),
            },
    {
        let code = code_of(colony);
        self.addresses.get(&code)
    }

    /// Routes `colony` to `address`, in place of any address it had.
    pub fn insert(&mut self, colony: Colony, address: String)
        ensures
            final(self).view() == old(self).view().insert(colony, address@),
    {
        let code = code_of(colony);
        let ghost a = address@;
        let ghost before = self.view();
        self.addresses.insert(code, address);
        proof {
            assert forall|c: Colony| colony_code(c) == colony_code(colony) implies c == colony by {}
            assert(self.view() =~= before.insert(colony, a));
        }
    }

    /// The routes, one entry per routed colony, each colony once, in the
    /// order of the colonies.
    pub fn entries(&self) -> (r: Vec<(Colony, String)>)
        ensures
            distinct_colonies(r@),
            forall|i: int|
                0 <= i < r@.len() ==> self.view().contains_key((#[trigger] r@[i]).0) && r@[i].1@
                    == self.view()[r@[i].0],
            forall|c: Colony|
                #[trigger] self.view().contains_key(c) ==> exists|i: int|
                    0 <= i < r@.len() && (#[trigger] r@[i]).0 == c,
    {
        let all = [Colony::Iris, Colony::Cloning, Colony::StarMap, Colony::Liberte, Colony::Playground];
        let ghost all_seq = seq![
            Colony::Iris,
            Colony::Cloning,
            Colony::StarMap,
            Colony::Liberte,
            Colony::Playground,
        ];
        assert(all@ == all_seq);
        assert forall|j: int| 0 <= j < 5 implies colony_code(#[trigger] all_seq[j]) == j by {
            if j == 0 {
            } else if j == 1 {
            } else if j == 2 {
            } else if j == 3 {
            } else {
            }
        }
        let mut out: Vec<(Colony, String)> = Vec::new();
        let mut k: usize = 0;
        while k < 5
            invariant
                k <= 5,
                all@ == all_seq,
                forall|j: int| 0 <= j < 5 ==> colony_code(#[trigger] all_seq[j]) == j,
                distinct_colonies(out@),
                forall|i: int|
                    0 <= i < out@.len() ==> self.view().contains_key((#[trigger] out@[i]).0)
                        && out@[i].1@ == self.view()[out@[i].0],
                forall|i: int|
                    0 <= i < out@.len() ==> exists|j: int|
                        0 <= j < k && all_seq[j] == (#[trigger] out@[i]).0,
                forall|j: int|
                    0 <= j < k && self.view().contains_key(#[trigger] all_seq[j]) ==> exists|i: int|
                        0 <= i < out@.len() && (#[trigger] out@[i]).0 == all_seq[j],
            decreases 5 - k,
        {
            let colony = all[k];
            let ghost before = out@;
            match self.get(colony) {
                Some(address) => {
                    out.push((colony, address.clone()));
                    proof {
                        assert(out@[before.len() as int].0 == all_seq[k as int]);
                        assert forall|x: int, y: int| 0 <= x < y < out@.len() implies (
                        #[trigger] out@[x]).0 != (#[trigger] out@[y]).0 by {
                            if y == before.len() {
                                assert(out@[x] == before[x]);
                                let j = choose|j: int| 0 <= j < k && all_seq[j] == before[x].0;
                                assert(colony_code(all_seq[j]) != colony_code(all_seq[k as int]));
                            } else {
                                assert(out@[x] == before[x]);
                                assert(out@[y] == before[y]);
                            }
                        }
                        assert forall|i: int| 0 <= i < out@.len() implies exists|j: int|
                            0 <= j < k + 1 && all_seq[j] == (#[trigger] out@[i]).0 by {
                            if i < before.len() {
                                assert(out@[i] == before[i]);
                                let j = choose|j: int| 0 <= j < k && all_seq[j] == before[i].0;
                                assert(all_seq[j] == out@[i].0);
                            } else {
                                assert(all_seq[k as int] == out@[i].0);
                            }
                        }
                        assert forall|j: int|
                            0 <= j < k + 1 && self.view().contains_key(#[trigger] all_seq[j]) implies exists|i: int|
                            0 <= i < out@.len() && (#[trigger] out@[i]).0 == all_seq[j] by {
                            if j < k {
                                let i = choose|i: int| 0 <= i < before.len() && (#[trigger] before[i]).0 == all_seq[j];
                                assert(out@[i] == before[i]);
                            } else {
                                assert(out@[before.len() as int].0 == all_seq[j]);
                            }
                        }
                    }
                },
                None => {},
            }
            k = k + 1;
        }
        proof {
            assert forall|c: Colony| #[trigger] self.view().contains_key(c) implies exists|i: int|
                0 <= i < out@.len() && (#[trigger] out@[i]).0 == c by {
                let j: int = match c {
                    Colony::Iris => 0,
                    Colony::Cloning => 1,
                    Colony::StarMap => 2,
                    Colony::Liberte => 3,
                    Colony::Playground => 4,
                };
                assert(all_seq[j] == c);
            }
        }
        out
    }
}

/// What a read of the routing table gives back after a write: the address
/// just written for that colony, and for any other colony what it held
/// before.
pub proof fn lemma_route_read_after_write(
    table: Map<Colony, Seq<char>>,
    written: Colony,
    address: Seq<char>,
    other: Colony,
)
    requires
        other != written,
    ensures
        table.insert(written, address).contains_key(written),
        table.insert(written, address)[written] == address,
        table.insert(written, address).contains_key(other) == table.contains_key(other),
        table.contains_key(other) ==> table.insert(written, address)[other] == table[other],
{
}

} // verus!
