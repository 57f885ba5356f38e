//! The displays by name: which have come and which have gone.
use vstd::prelude::*;
use crate::assoc::{has_key, lemma_entry, place_of, Assoc};
use crate::monitors::lists_names;
use crate::strs::{lemma_take_more, texts};

verus! {

/// A change of the set of displays.
#[derive(Debug)]
pub struct DisplayDiff {
    pub added: Vec<String>,
    pub removed: Vec<String>,
}

/// The displays as last seen.
#[derive(Debug)]
pub struct Displays {
    pub names: Assoc<()>,
}

/// The names of one set that are not in another.
fn names_missing(from: &Assoc<()>, other: &Assoc<()>) -> (r: Vec<String>)
    requires
        from.wf(),
        other.wf(),
    ensures
        lists_names(r@, from@.dom().difference(other@.dom())),
{
    let mut list: Vec<String> = Vec::new();
    let ghost mut places: Seq<int> = Seq::empty();
    let mut i: usize = 0;
    while i < from.entries.len()
        invariant
            0 <= i <= from.entries@.len(),
            from.wf(),
            other.wf(),
            places.len() == list@.len(),
            forall|k: int|
                0 <= k < list@.len() ==> 0 <= #[trigger] places[k] < i && list@[k]
                    == from.entries@[places[k]].0 && !other@.dom().contains(list@[k]@),
            forall|k: int, l: int| 0 <= k < l < places.len() ==> places[k] < places[l],
            forall|j: int|
                0 <= j < i && !other@.dom().contains((#[trigger] from.entries@[j]).0@) ==> exists|
                    k: int,
                |
                    0 <= k < list@.len() && (#[trigger] list@[k])@ == from.entries@[j].0@,
        decreases from.entries@.len() - i,
    {
        let name = &from.entries[i].0;
        if !other.contains(name) {
            let ghost had = list@;
            list.push(name.clone());
            proof {
                places = places.push(i as int);
                assert(list@[had.len() as int]@ == from.entries@[i as int].0@);
                assert forall|j: int|
                    0 <= j < i + 1 && !other@.dom().contains((#[trigger] from.entries@[j]).0@) implies exists|
                    k: int,
                |
                    0 <= k < list@.len() && (#[trigger] list@[k])@ == from.entries@[j].0@ by {
                    if j < i {
                        let k = choose|k: int|
                            0 <= k < had.len() && (#[trigger] had[k])@ == from.entries@[j].0@;
                        assert(list@[k]@ == from.entries@[j].0@);
                    }
                }
            }
        }
        i += 1;
    }
    proof {
        let due = from@.dom().difference(other@.dom());
        assert forall|k: int| 0 <= k < list@.len() implies due.contains((#[trigger] list@[k])@) by {
            lemma_entry(from.entries@, places[k]);
        }
        assert forall|name: Seq<char>| #[trigger] due.contains(name) implies exists|k: int|
            0 <= k < list@.len() && (#[trigger] list@[k])@ == name by {
            let j = place_of(from.entries@, name);
            assert(has_key(from.entries@, name));
            assert(from.entries@[j].0@ == name);
        }
        assert forall|k: int, l: int| 0 <= k < l < list@.len() implies (#[trigger] list@[k])@ != (
        #[trigger] list@[l])@ by {
            assert(from.entries@[places[k]].0@ != from.entries@[places[l]].0@);
        }
    }
    list
}

impl Displays {
    pub fn new() -> (r: Self)
        ensures
            r.names.wf(),
            r.names@.dom() == Set::<Seq<char>>::empty(),
    {
        let r = Displays { names: Assoc::new() };
        proof {
            assert(r.names@.dom() =~= Set::<Seq<char>>::empty());
        }
        r
    }

    /// Takes in a report of the displays. A change comes out exactly where the
    /// set is not what it was.
    pub fn update(&mut self, reported: &Vec<String>) -> (r: Option<DisplayDiff>)
        requires
            old(self).names.wf(),
        ensures
            final(self).names.wf(),
            final(self).names@.dom() == texts(reported@).to_set(),
            r is None <==> texts(reported@).to_set() == old(self).names@.dom(),
            r matches Some(diff) ==> {
                &&& lists_names(
                    diff.added@,
                    texts(reported@).to_set().difference(old(self).names@.dom()),
                )
                &&& lists_names(
                    diff.removed@,
                    old(self).names@.dom().difference(texts(reported@).to_set()),
                )
            },
    {
        let ghost before = self.names@.dom();
        let ghost names = texts(reported@);
        let mut now: Assoc<()> = Assoc::new();
        let mut i: usize = 0;
        proof {
            assert(names.take(0).to_set() =~= now@.dom());
        }
        while i < reported.len()
            invariant
                0 <= i <= reported@.len(),
                names == texts(reported@),
                now.wf(),
                now@.dom() == names.take(i as int).to_set(),
            decreases reported@.len() - i,
        {
            now.insert(reported[i].clone(), ());
            proof {
                lemma_take_more(names, i as int);
                assert(now@.dom() =~= names.take(i + 1).to_set());
            }
            i += 1;
        }
        proof {
            assert(names.take(i as int) =~= names);
        }
        let added = names_missing(&now, &self.names);
        let removed = names_missing(&self.names, &now);
        self.names = now;
        proof {
            let set = names.to_set();
            if added@.len() == 0 && removed@.len() == 0 {
                assert forall|k: Seq<char>| set.contains(k) == before.contains(k) by {
                    if set.contains(k) && !before.contains(k) {
                        assert(set.difference(before).contains(k));
                    }
                    if before.contains(k) && !set.contains(k) {
                        assert(before.difference(set).contains(k));
                    }
                }
                assert(set =~= before);
            } else if added@.len() > 0 {
                assert(set.difference(before).contains(added@[0]@));
            } else {
                assert(before.difference(set).contains(removed@[0]@));
            }
        }
        if added.len() == 0 && removed.len() == 0 {
            None
        } else {
            Some(DisplayDiff { added, removed })
        }
    }
}

/// The old set, with what has come and without what has gone, is the new one.
pub proof fn law_diff_leads_to_new_set(before: Set<Seq<char>>, now: Set<Seq<char>>)
    ensures
        before.union(now.difference(before)).difference(before.difference(now)) == now,
{
    assert(before.union(now.difference(before)).difference(before.difference(now)) =~= now);
}

} // verus!
