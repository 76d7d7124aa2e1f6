//! Name-keyed tables used by the virtual machine: variable tables mapping
//! names to integer values and the function table mapping names to entry
//! addresses. Each is an association list whose view is a `Map`; a later
//! entry for the same name wins, so inserting is appending.

use vstd::prelude::*;

verus! {

/// The map an association list of integers denotes: later entries win.
pub open spec fn var_map_of(entries: Seq<(String, i64)>) -> Map<Seq<char>, i64>
    decreases entries,
{
    if entries.len() == 0 {
        Map::empty()
    } else {
        var_map_of(entries.subrange(0, entries.len() - 1)).insert(
            entries[entries.len() - 1].0@,
            entries[entries.len() - 1].1,
        )
    }
}

/// The map an association list of addresses denotes: later entries win.
pub open spec fn fn_map_of(entries: Seq<(String, usize)>) -> Map<Seq<char>, usize>
    decreases entries,
{
    if entries.len() == 0 {
        Map::empty()
    } else {
        fn_map_of(entries.subrange(0, entries.len() - 1)).insert(
            entries[entries.len() - 1].0@,
            entries[entries.len() - 1].1,
        )
    }
}

/// A table of named integer variables.
#[derive(Debug)]
pub struct VarTable {
    entries: Vec<(String, i64)>,
}

impl View for VarTable {
    type V = Map<Seq<char>, i64>;

    closed spec fn view(&self) -> Map<Seq<char>, i64> {
        var_map_of(self.entries@)
    }
}

impl VarTable {
    /// An empty table.
    pub fn new() -> (r: VarTable)
        ensures
            r@ == Map::<Seq<char>, i64>::empty(),
    {
        let r = VarTable { entries: Vec::new() };
        proof {
            assert(r.entries@.len() == 0);
        }
        r
    }

    /// Binds a name to a value, replacing any earlier binding.
    pub fn insert(&mut self, name: String, value: i64)
        ensures
            final(self)@ == old(self)@.insert(name@, value),
    {
        proof {
            let t = self.entries@.push((name, value));
            assert(t.subrange(0, t.len() - 1) =~= self.entries@);
        }
        self.entries.push((name, value));
    }

    /// The value bound to a name, if any.
    #[verifier::loop_isolation(false)]
    pub fn get(&self, name: &str) -> (r: Option<i64>)
        ensures
            match r {
                Some(v) => self@.contains_key(name@) && self@[name@] == v,
                None => !self@.contains_key(name@),
            },
    {
        let key = name.to_owned();
        let mut j: usize = self.entries.len();
        proof {
            assert(self.entries@.subrange(0, self.entries@.len() as int) =~= self.entries@);
        }
        while j > 0
            invariant
                j <= self.entries@.len(),
                ({
                    let whole = var_map_of(self.entries@);
                    let pre = var_map_of(self.entries@.subrange(0, j as int));
                    &&& (whole.contains_key(name@) <==> pre.contains_key(name@))
                    &&& (whole.contains_key(name@) ==> whole[name@] == pre[name@])
                }),
            decreases j,
        {
            j = j - 1;
            proof {
                let pre = self.entries@.subrange(0, j + 1);
                assert(pre.subrange(0, pre.len() - 1) =~= self.entries@.subrange(0, j as int));
            }
            if self.entries[j].0 == key {
                return Some(self.entries[j].1);
            }
        }
        proof {
            assert(self.entries@.subrange(0, 0) =~= Seq::<(String, i64)>::empty());
        }
        None
    }

    /// Removes every binding.
    pub fn clear(&mut self)
        ensures
            final(self)@ == Map::<Seq<char>, i64>::empty(),
    {
        self.entries.clear();
        proof {
            assert(self.entries@.len() == 0);
        }
    }
}

/// A table of function entry addresses.
#[derive(Debug)]
pub struct FnTable {
    entries: Vec<(String, usize)>,
}

impl View for FnTable {
    type V = Map<Seq<char>, usize>;

    closed spec fn view(&self) -> Map<Seq<char>, usize> {
        fn_map_of(self.entries@)
    }
}

impl FnTable {
    /// An empty table.
    pub fn new() -> (r: FnTable)
        ensures
            r@ == Map::<Seq<char>, usize>::empty(),
    {
        let r = FnTable { entries: Vec::new() };
        proof {
            assert(r.entries@.len() == 0);
        }
        r
    }

    /// Binds a name to an entry address, replacing any earlier binding.
    pub fn insert(&mut self, name: String, address: usize)
        ensures
            final(self)@ == old(self)@.insert(name@, address),
    {
        proof {
            let t = self.entries@.push((name, address));
            assert(t.subrange(0, t.len() - 1) =~= self.entries@);
        }
        self.entries.push((name, address));
    }

    /// The entry address bound to a name, if any.
    #[verifier::loop_isolation(false)]
    pub fn get(&self, name: &str) -> (r: Option<usize>)
        ensures
            match r {
                Some(a) => self@.contains_key(name@) && self@[name@] == a,
                None => !self@.contains_key(name@),
            },
    {
        let key = name.to_owned();
        let mut j: usize = self.entries.len();
        proof {
            assert(self.entries@.subrange(0, self.entries@.len() as int) =~= self.entries@);
        }
        while j > 0
            invariant
                j <= self.entries@.len(),
                ({
                    let whole = fn_map_of(self.entries@);
                    let pre = fn_map_of(self.entries@.subrange(0, j as int));
                    &&& (whole.contains_key(name@) <==> pre.contains_key(name@))
                    &&& (whole.contains_key(name@) ==> whole[name@] == pre[name@])
                }),
            decreases j,
        {
            j = j - 1;
            proof {
                let pre = self.entries@.subrange(0, j + 1);
                assert(pre.subrange(0, pre.len() - 1) =~= self.entries@.subrange(0, j as int));
            }
            if self.entries[j].0 == key {
                return Some(self.entries[j].1);
            }
        }
        proof {
            assert(self.entries@.subrange(0, 0) =~= Seq::<(String, usize)>::empty());
        }
        None
    }
}

} // verus!
