//! A mapping from variable names to integer values.
//!
//! Used both for the constant environment of the semantic transformer
//! and for the binding scenarios of the equivalence checker.  Viewed
//! as a `Map<Seq<char>, i64>`; where a name is set twice, the later
//! setting wins.

use vstd::prelude::*;

verus! {

/// The entries as a map; an entry added later overrides an earlier one.
pub open spec fn bindings_map(entries: Seq<(String, i64)>) -> Map<Seq<char>, i64>
    decreases entries,
{
    if entries.len() == 0 {
        Map::empty()
    } else {
        bindings_map(entries.subrange(1, entries.len() as int)).insert(
            entries[0].0@,
            entries[0].1,
        )
    }
}

/// One concrete assignment of integer values to variable names.
pub struct Bindings {
    entries: Vec<(String, i64)>,
}

impl View for Bindings {
    type V = Map<Seq<char>, i64>;

    closed spec fn view(&self) -> Map<Seq<char>, i64> {
        bindings_map(self.entries@)
    }
}

impl Bindings {
    /// An empty assignment.
    pub fn new() -> (r: Bindings)
        ensures
            r@ == Map::<Seq<char>, i64>::empty(),
    {
        Bindings { entries: Vec::new() }
    }

    /// Binds `name` to `value`, overriding any earlier binding.
    pub fn set(&mut self, name: String, value: i64)
        ensures
            final(self)@ == old(self)@.insert(name@, value),
    {
        let ghost prior = self.entries@;
        self.entries.insert(0, (name, value));
        proof {
            assert(self.entries@.subrange(1, self.entries@.len() as int) =~= prior);
        }
    }

    /// The value bound to `name`, if any.
    pub fn get(&self, name: &String) -> (r: Option<i64>)
        ensures
            r == if self@.contains_key(name@) {
                Some(self@[name@])
            } else {
                None::<i64>
            },
    {
        let r = Self::get_from(&self.entries, 0, name);
        proof {
            assert(self.entries@.subrange(0, self.entries@.len() as int) =~= self.entries@);
        }
        r
    }

    fn get_from(entries: &Vec<(String, i64)>, i: usize, name: &String) -> (r: Option<i64>)
        requires
            i <= entries@.len(),
        ensures
            r == ({
                let m = bindings_map(entries@.subrange(i as int, entries@.len() as int));
                if m.contains_key(name@) {
                    Some(m[name@])
                } else {
                    None::<i64>
                }
            }),
        decreases entries@.len() - i,
    {
        let ghost suffix = entries@.subrange(i as int, entries@.len() as int);
        if i == entries.len() {
            proof {
                assert(suffix.len() == 0);
            }
            None
        } else {
            proof {
                assert(suffix.subrange(1, suffix.len() as int) =~= entries@.subrange(
                    i + 1,
                    entries@.len() as int,
                ));
            }
            if entries[i].0 == *name {
                Some(entries[i].1)
            } else {
                Self::get_from(entries, i + 1, name)
            }
        }
    }
}

} // verus!
