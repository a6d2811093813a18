//! Class-id to class-name map for the configured classes of interest.
//! Detections whose class id is absent are filtered out before they reach
//! the tracker.

use vstd::prelude::*;

verus! {

/// An insertion-ordered list of `(class id, name)` pairs, viewed as a map in
/// which a later insertion for the same id shadows an earlier one.
pub struct ClassMap {
    entries: Vec<(i32, String)>,
}

/// The map an entry list denotes: entries applied left to right, each
/// insertion shadowing earlier ones for the same id.
pub open spec fn entries_map(s: Seq<(i32, String)>) -> Map<i32, Seq<char>>
    decreases s.len(),
{
    if s.len() == 0 {
        Map::empty()
    } else {
        entries_map(s.drop_last()).insert(s.last().0, s.last().1@)
    }
}

impl View for ClassMap {
    type V = Map<i32, Seq<char>>;

    closed spec fn view(&self) -> Self::V {
        entries_map(self.entries@)
    }
}

impl ClassMap {
    pub fn new() -> (m: ClassMap)
        ensures
            m@ == Map::<i32, Seq<char>>::empty(),
    {
        let m = ClassMap { entries: Vec::new() };
        proof {
            assert(m@ =~= Map::<i32, Seq<char>>::empty());
        }
        m
    }

    pub fn insert(&mut self, class_id: i32, name: String)
        ensures
            final(self)@ == old(self)@.insert(class_id, name@),
    {
        let ghost before = self.entries@;
        self.entries.push((class_id, name));
        proof {
            assert(self.entries@.drop_last() =~= before);
        }
    }

    pub fn contains(&self, class_id: i32) -> (r: bool)
        ensures
            r == self@.contains_key(class_id),
    {
        self.get(class_id).is_some()
    }

    /// The configured name for a class id, if the id is configured at all.
    pub fn get(&self, class_id: i32) -> (r: Option<&String>)
        ensures
            match r {
                Some(name) => self@.contains_key(class_id) && name@ == self@[class_id],
                None => !self@.contains_key(class_id),
            },
    {
        let mut found: Option<&String> = None;
        let mut i: usize = 0;
        while i < self.entries.len()
            invariant
                i <= self.entries@.len(),
                match found {
                    Some(name) => entries_map(self.entries@.take(i as int)).contains_key(class_id)
                        && name@ == entries_map(self.entries@.take(i as int))[class_id],
                    None => !entries_map(self.entries@.take(i as int)).contains_key(class_id),
                },
            decreases self.entries@.len() - i,
        {
            proof {
                assert(self.entries@.take(i + 1).drop_last() =~= self.entries@.take(i as int));
                assert(self.entries@.take(i + 1).last() == self.entries@[i as int]);
            }
            if self.entries[i].0 == class_id {
                found = Some(&self.entries[i].1);
            }
            i += 1;
        }
        proof {
            assert(self.entries@.take(self.entries@.len() as int) =~= self.entries@);
        }
        found
    }
}

} // verus!
