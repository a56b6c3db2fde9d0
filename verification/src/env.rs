//! The variable environment: the name-to-value binding set visible
//! during one evaluation scope.
//!
//! Its mathematical image is a map from character sequences to value
//! views. A binding overwrites any earlier binding of the same name;
//! a lookup finds the most recent binding.

use vstd::prelude::*;
use crate::ast::expression::{clone_value, Value, ValueView};

verus! {

/// An environment of variable bindings.
#[derive(Debug)]
pub struct Env {
    entries: Vec<(String, Value)>,
}

/// The map denoted by an ordered binding list: later entries overwrite
/// earlier ones.
pub open spec fn entries_map(s: Seq<(String, Value)>) -> Map<Seq<char>, ValueView>
    decreases s.len(),
{
    if s.len() == 0 {
        Map::empty()
    } else {
        entries_map(s.drop_last()).insert(s.last().0@, s.last().1@)
    }
}

impl View for Env {
    type V = Map<Seq<char>, ValueView>;

    closed spec fn view(&self) -> Map<Seq<char>, ValueView> {
        entries_map(self.entries@)
    }
}

impl Env {
    /// An empty environment.
    pub fn new() -> (r: Env)
        ensures
            r@ == Map::<Seq<char>, ValueView>::empty(),
    {
        Env { entries: Vec::new() }
    }

    /// Binds `name` to `value`, overwriting any existing binding.
    pub fn insert(&mut self, name: String, value: Value)
        ensures
            final(self)@ == old(self)@.insert(name@, value@),
    {
        let ghost prev = self.entries@;
        self.entries.push((name, value));
        proof {
            assert(self.entries@.drop_last() =~= prev);
        }
    }

    /// Looks the name up; `None` when it is not bound.
    pub fn get(&self, name: &String) -> (r: Option<&Value>)
        ensures
            match r {
                Some(v) => self@.contains_key(name@) && v@ == self@[name@],
                None => !self@.contains_key(name@),
            },
    {
        let mut j = self.entries.len();
        proof {
            assert(self.entries@.subrange(0, self.entries@.len() as int) =~= self.entries@);
        }
        loop
            invariant
                j <= self.entries.len(),
                self@.contains_key(name@) == entries_map(
                    self.entries@.subrange(0, j as int),
                ).contains_key(name@),
                entries_map(self.entries@.subrange(0, j as int)).contains_key(name@)
                    ==> self@[name@] == entries_map(self.entries@.subrange(0, j as int))[name@],
            decreases j,
        {
            if j == 0 {
                proof {
                    assert(self.entries@.subrange(0, 0) =~= Seq::<(String, Value)>::empty());
                    assert(entries_map(self.entries@.subrange(0, 0)) =~= Map::<
                        Seq<char>,
                        ValueView,
                    >::empty());
                }
                return None;
            }
            let entry_name = &self.entries[j - 1].0;
            proof {
                assert(self.entries@.subrange(0, j as int).drop_last() =~= self.entries@.subrange(
                    0,
                    j - 1,
                ));
                assert(self.entries@.subrange(0, j as int).last() == self.entries@[j - 1]);
            }
            if entry_name.eq(name) {
                return Some(&self.entries[j - 1].1);
            }
            j = j - 1;
        }
    }

    /// A deep copy with the same bindings.
    pub fn duplicate(&self) -> (r: Env)
        ensures
            r@ == self@,
    {
        let mut out: Vec<(String, Value)> = Vec::new();
        let mut i: usize = 0;
        while i < self.entries.len()
            invariant
                i <= self.entries.len(),
                out@.len() == i,
                forall|k: int|
                    0 <= k < i ==> out@[k].0@ == self.entries@[k].0@ && out@[k].1@
                        == self.entries@[k].1@,
            decreases self.entries.len() - i,
        {
            let name = self.entries[i].0.clone();
            let value = clone_value(&self.entries[i].1);
            out.push((name, value));
            i = i + 1;
        }
        proof {
            lemma_entries_map_congruent(out@, self.entries@);
        }
        Env { entries: out }
    }
}

/// Binding lists whose entries have pointwise equal images denote the
/// same map.
proof fn lemma_entries_map_congruent(s1: Seq<(String, Value)>, s2: Seq<(String, Value)>)
    requires
        s1.len() == s2.len(),
        forall|k: int| 0 <= k < s1.len() ==> s1[k].0@ == s2[k].0@ && s1[k].1@ == s2[k].1@,
    ensures
        entries_map(s1) == entries_map(s2),
    decreases s1.len(),
{
    if s1.len() > 0 {
        lemma_entries_map_congruent(s1.drop_last(), s2.drop_last());
    }
}

impl Clone for Env {
    /// Each compound block receives a copy of its enclosing environment
    /// on entry; this is that copy.
    fn clone(&self) -> (res: Self)
        ensures
            res@ == self@,
    {
        self.duplicate()
    }
}

} // verus!
