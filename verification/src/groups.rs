//! Key groups collected under the names of secondary indexes.

use crate::code::same_text;
use vstd::prelude::*;
use vstd::string::*;

verus! {

/// Groups of entries under names, in the order in which the names were
/// first met.
#[derive(Debug, PartialEq, Eq)]
pub struct NamedGroups<T> {
    pub entries: Vec<(String, Vec<T>)>,
}

/// The names of `groups`, in their order.
pub open spec fn names_of<T>(groups: Seq<(Seq<char>, Seq<T>)>) -> Seq<Seq<char>> {
    Seq::new(groups.len(), |i: int| groups[i].0)
}

/// Where the first group under `name` stands, if there is one.
pub open spec fn first_named<T>(groups: Seq<(Seq<char>, Seq<T>)>, name: Seq<char>) -> Option<int>
    decreases groups.len(),
{
    if groups.len() == 0 {
        None
    } else if first_named(groups.drop_last(), name) is Some {
        first_named(groups.drop_last(), name)
    } else if groups.last().0 == name {
        Some(groups.len() - 1)
    } else {
        None
    }
}

/// The group that `groups` hold under `name`; the empty group when they
/// hold none.
pub open spec fn group_of<T>(groups: Seq<(Seq<char>, Seq<T>)>, name: Seq<char>) -> Seq<T> {
    match first_named(groups, name) {
        Some(at) => groups[at].1,
        None => Seq::empty(),
    }
}

/// `groups` with `items` added to the end of the group under `name`. A name
/// that is new comes last, with `items` as its group.
pub open spec fn extended<T>(
    groups: Seq<(Seq<char>, Seq<T>)>,
    name: Seq<char>,
    items: Seq<T>,
) -> Seq<(Seq<char>, Seq<T>)> {
    match first_named(groups, name) {
        Some(at) => groups.update(at, (name, groups[at].1 + items)),
        None => groups.push((name, items)),
    }
}

impl<T> View for NamedGroups<T> {
    type V = Seq<(Seq<char>, Seq<T>)>;

    open spec fn view(&self) -> Seq<(Seq<char>, Seq<T>)> {
        Seq::new(self.entries@.len(), |i: int| (self.entries@[i].0@, self.entries@[i].1@))
    }
}

impl<T> NamedGroups<T> {
    /// No name stands twice. Groups that are built from none by
    /// [`NamedGroups::extend`] are so.
    pub open spec fn wf(self) -> bool {
        names_of(self@).no_duplicates()
    }

    /// No groups.
    pub fn new() -> (groups: Self)
        ensures
            groups.wf(),
            groups@ == Seq::<(Seq<char>, Seq<T>)>::empty(),
    {
        let groups = NamedGroups { entries: Vec::new() };
        assert(groups@ =~= Seq::<(Seq<char>, Seq<T>)>::empty());
        groups
    }

    /// Tells whether no name stands twice.
    #[verifier::loop_isolation(false)]
    pub fn is_wf(&self) -> (wf: bool)
        ensures
            wf == self.wf(),
    {
        let ghost names = names_of(self@);
        let mut b: usize = 0;
        while b < self.entries.len()
            invariant
                b <= self@.len(),
                forall|i: int, j: int| 0 <= i < j < b ==> names[i] != names[j],
            decreases self@.len() - b,
        {
            let mut a: usize = 0;
            while a < b
                invariant
                    a <= b,
                    forall|i: int| 0 <= i < a ==> names[i] != names[b as int],
                decreases b - a,
            {
                if same_text(self.entries[a].0.as_str(), self.entries[b].0.as_str()) {
                    assert(names[a as int] == names[b as int]);
                    return false;
                }
                a += 1;
            }
            b += 1;
        }
        assert(names.no_duplicates()) by {
            assert forall|i: int, j: int| 0 <= i < names.len() && 0 <= j < names.len() && i
                != j implies names[i] != names[j] by {
                if i < j {
                    assert(names[i] != names[j]);
                } else {
                    assert(names[j] != names[i]);
                }
            }
        }
        true
    }

    /// How many names there are.
    pub fn len(&self) -> (n: usize)
        ensures
            n == self@.len(),
    {
        self.entries.len()
    }

    /// Where the first group under `name` stands, if there is one.
    #[verifier::loop_isolation(false)]
    pub fn position(&self, name: &str) -> (at: Option<usize>)
        ensures
            match at {
                Some(i) => i < self@.len() && first_named(self@, name@) == Some(i as int),
                None => first_named(self@, name@) is None,
            },
    {
        let mut i: usize = 0;
        assert(self@.take(0) =~= Seq::empty());
        while i < self.entries.len()
            invariant
                i <= self@.len(),
                first_named(self@.take(i as int), name@) is None,
            decreases self@.len() - i,
        {
            proof {
                assert(self@.take(i + 1).drop_last() =~= self@.take(i as int));
                assert(self@.take(i + 1).last() == self@[i as int]);
            }
            if same_text(self.entries[i].0.as_str(), name) {
                proof {
                    lemma_first_named_found(self@, name@, i as int);
                }
                return Some(i);
            }
            i += 1;
        }
        assert(self@.take(self@.len() as int) =~= self@);
        None
    }

    /// The first group under `name`, if there is one.
    pub fn get(&self, name: &str) -> (group: Option<&Vec<T>>)
        ensures
            group is Some <==> first_named(self@, name@) is Some,
            group matches Some(g) ==> g@ == group_of(self@, name@),
    {
        match self.position(name) {
            Some(i) => {
                assert(self@[i as int].1 == self.entries@[i as int].1@);
                Some(&self.entries[i].1)
            },
            None => None,
        }
    }

    /// Adds `items` to the end of the first group under `name`. A name that
    /// is new comes last, with `items` as its group. Names that were
    /// distinct stay so.
    #[verifier::loop_isolation(false)]
    pub fn extend(&mut self, name: &str, items: &Vec<T>) where T: Copy
        ensures
            final(self)@ == extended(old(self)@, name@, items@),
            old(self).wf() ==> final(self).wf(),
    {
        let ghost before = self@;
        proof {
            lemma_first_named(before, name@);
            if names_of(before).no_duplicates() {
                lemma_extended(before, name@, items@);
            }
        }
        let mut group: Vec<T>;
        let at = self.position(name);
        let ghost held = self.entries@;
        match at {
            Some(i) => {
                assert(before[i as int].1 == held[i as int].1@);
                let (_, found) = self.entries.remove(i);
                group = found;
            },
            None => {
                group = Vec::new();
            },
        }
        let ghost start = group@;
        let ghost rest = self.entries@;
        let mut k: usize = 0;
        while k < items.len()
            invariant
                k <= items@.len(),
                group@ == start + items@.take(k as int),
            decreases items@.len() - k,
        {
            group.push(items[k]);
            k += 1;
            assert(items@.take(k as int) =~= items@.take(k - 1).push(items@[k - 1]));
        }
        assert(items@.take(items@.len() as int) =~= items@);
        match at {
            Some(i) => {
                self.entries.insert(i, (String::from_str(name), group));
                let ghost expected = extended(before, name@, items@);
                assert(self@.len() == expected.len());
                assert forall|j: int| 0 <= j < self@.len() implies self@[j] == expected[j] by {
                    if j < i {
                        assert(self.entries@[j] == rest[j]);
                        assert(rest[j] == held[j]);
                        assert(before[j] == (held[j].0@, held[j].1@));
                    } else if j > i {
                        assert(self.entries@[j] == rest[j - 1]);
                        assert(rest[j - 1] == held[j]);
                        assert(before[j] == (held[j].0@, held[j].1@));
                    }
                }
            },
            None => {
                assert(start + items@ =~= items@);
                self.entries.push((String::from_str(name), group));
                let ghost expected = extended(before, name@, items@);
                assert(self@.len() == expected.len());
                assert forall|j: int| 0 <= j < self@.len() implies self@[j] == expected[j] by {
                    if j < held.len() {
                        assert(self.entries@[j] == held[j]);
                        assert(before[j] == (held[j].0@, held[j].1@));
                    }
                }
            },
        }
        assert(self@ =~= extended(before, name@, items@));
    }
}

/// Where no group before one under the name is under it, that one is the
/// first.
pub proof fn lemma_first_named_found<T>(groups: Seq<(Seq<char>, Seq<T>)>, name: Seq<char>, at: int)
    requires
        0 <= at < groups.len(),
        first_named(groups.take(at), name) is None,
        groups[at].0 == name,
    ensures
        first_named(groups, name) == Some(at),
    decreases groups.len(),
{
    if at == groups.len() - 1 {
        assert(groups.drop_last() =~= groups.take(at));
    } else {
        assert(groups.drop_last().take(at) =~= groups.take(at));
        lemma_first_named_found(groups.drop_last(), name, at);
    }
}

/// The first group under a name is under the name, and no group before it
/// is; where there is none, no group is under the name.
pub proof fn lemma_first_named<T>(groups: Seq<(Seq<char>, Seq<T>)>, name: Seq<char>)
    ensures
        match first_named(groups, name) {
            Some(at) => 0 <= at < groups.len() && groups[at].0 == name && forall|j: int|
                0 <= j < at ==> (#[trigger] groups[j]).0 != name,
            None => forall|j: int| 0 <= j < groups.len() ==> (#[trigger] groups[j]).0 != name,
        },
    decreases groups.len(),
{
    if groups.len() > 0 {
        let front = groups.drop_last();
        lemma_first_named(front, name);
        assert forall|j: int| 0 <= j < front.len() implies front[j] == groups[j] by {}
        match first_named(front, name) {
            Some(at) => {
                assert(front[at] == groups[at]);
                assert forall|j: int| 0 <= j < at implies (#[trigger] groups[j]).0 != name by {
                    assert(front[j] == groups[j]);
                }
            },
            None => {
                assert forall|j: int| 0 <= j < front.len() implies (#[trigger] groups[j]).0
                    != name by {
                    assert(front[j] == groups[j]);
                }
            },
        }
    }
}

/// Extending touches one group: the one under `name` grows by `items` at its
/// end, every other group stays, and the names stay distinct and in order,
/// a new one last.
pub proof fn lemma_extended<T>(groups: Seq<(Seq<char>, Seq<T>)>, name: Seq<char>, items: Seq<T>)
    requires
        names_of(groups).no_duplicates(),
    ensures
        names_of(extended(groups, name, items)).no_duplicates(),
        names_of(extended(groups, name, items)) == if names_of(groups).contains(name) {
            names_of(groups)
        } else {
            names_of(groups).push(name)
        },
        group_of(extended(groups, name, items), name) == group_of(groups, name) + items,
        forall|other: Seq<char>|
            other != name ==> #[trigger] group_of(extended(groups, name, items), other)
                == group_of(groups, other),
{
    let after = extended(groups, name, items);
    lemma_first_named(groups, name);
    lemma_first_named(after, name);
    match first_named(groups, name) {
        Some(at) => {
            assert(names_of(groups)[at] == name);
            assert(names_of(after) =~= names_of(groups));
            assert(after[at].0 == name);
            match first_named(after, name) {
                Some(found) => {
                    assert(names_of(after)[found] == name);
                    assert(found == at);
                },
                None => {
                    assert(after[at].0 != name);
                },
            }
            assert forall|other: Seq<char>| other != name implies #[trigger] group_of(
                after,
                other,
            ) == group_of(groups, other) by {
                lemma_first_named(groups, other);
                lemma_first_named(after, other);
                match first_named(groups, other) {
                    Some(j) => {
                        assert(after[j].0 == other);
                        match first_named(after, other) {
                            Some(k) => {
                                assert(names_of(after)[k] == other);
                                assert(names_of(after)[j] == other);
                            },
                            None => {},
                        }
                    },
                    None => {
                        match first_named(after, other) {
                            Some(k) => {
                                assert(groups[k].0 == other);
                            },
                            None => {},
                        }
                    },
                }
            }
        },
        None => {
            assert(!names_of(groups).contains(name)) by {
                if names_of(groups).contains(name) {
                    let j = choose|j: int|
                        0 <= j < names_of(groups).len() && names_of(groups)[j] == name;
                    assert(groups[j].0 == name);
                }
            }
            assert(names_of(after) =~= names_of(groups).push(name));
            assert(after[groups.len() as int].0 == name);
            match first_named(after, name) {
                Some(found) => {
                    if found < groups.len() {
                        assert(after[found] == groups[found]);
                    }
                },
                None => {},
            }
            assert(group_of(groups, name) + items =~= items);
            assert forall|other: Seq<char>| other != name implies #[trigger] group_of(
                after,
                other,
            ) == group_of(groups, other) by {
                lemma_first_named(groups, other);
                lemma_first_named(after, other);
                match first_named(groups, other) {
                    Some(j) => {
                        assert(after[j] == groups[j]);
                        match first_named(after, other) {
                            Some(k) => {
                                if k < j {
                                    assert(after[k] == groups[k]);
                                }
                            },
                            None => {},
                        }
                    },
                    None => {
                        match first_named(after, other) {
                            Some(k) => {
                                if k < groups.len() {
                                    assert(after[k] == groups[k]);
                                }
                            },
                            None => {},
                        }
                    },
                }
            }
        },
    }
}

} // verus!
