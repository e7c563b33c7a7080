//! An ordered set of strings.
use crate::text;
use vstd::prelude::*;

verus! {

/// A set of strings, kept in ascending order without repetition.
#[derive(Debug, Eq, PartialEq)]
pub struct StringSet {
    items: Vec<String>,
}

/// Each item comes strictly before the ones that follow it.
pub open spec fn ascending(items: Seq<Seq<char>>) -> bool {
    forall|i: int, j: int|
        0 <= i < j < items.len() ==> text::precedes(#[trigger] items[i], #[trigger] items[j])
}

impl View for StringSet {
    type V = Set<Seq<char>>;

    closed spec fn view(&self) -> Set<Seq<char>> {
        text::views(self.items@).to_set()
    }
}

impl StringSet {
    #[verifier::type_invariant]
    spec fn ordered(self) -> bool {
        ascending(text::views(self.items@))
    }

    pub closed spec fn listed(self) -> Seq<Seq<char>> {
        text::views(self.items@)
    }

    pub fn new() -> (r: StringSet)
        ensures
            r@ == Set::<Seq<char>>::empty(),
    {
        let r = StringSet { items: Vec::new() };
        assert(r@ =~= Set::<Seq<char>>::empty());
        r
    }

    /// The set of the strings in `list`.
    pub fn from_list(list: &Vec<String>) -> (r: StringSet)
        ensures
            r@ == text::views(list@).to_set(),
    {
        let mut r = StringSet::new();
        let mut i: usize = 0;
        assert(text::views(list@).take(0).to_set() =~= Set::<Seq<char>>::empty());
        while i < list.len()
            invariant
                i <= list@.len(),
                r@ == text::views(list@).take(i as int).to_set(),
            decreases list@.len() - i,
        {
            r.insert(list[i].as_str());
            proof {
                let before = text::views(list@).take(i as int);
                let after = text::views(list@).take(i + 1);
                assert(after =~= before.push(list@[i as int]@));
                assert forall|s: Seq<char>| after.contains(s) == (before.contains(s) || s
                    == list@[i as int]@) by {
                    if before.contains(s) {
                        let k = choose|k: int| 0 <= k < before.len() && before[k] == s;
                        assert(after[k] == s);
                    }
                    assert(after[i as int] == list@[i as int]@);
                }
                assert(after.to_set() =~= before.to_set().insert(list@[i as int]@));
            }
            i = i + 1;
        }
        assert(text::views(list@).take(list@.len() as int) =~= text::views(list@));
        r
    }

    /// The strings of the set, in ascending order.
    pub fn to_list(&self) -> (r: Vec<String>)
        ensures
            ascending(text::views(r@)),
            text::views(r@).to_set() == self@,
            text::views(r@) == self.listed(),
    {
        proof {
            use_type_invariant(self);
        }
        let mut r: Vec<String> = Vec::new();
        let mut i: usize = 0;
        while i < self.items.len()
            invariant
                i <= self.items@.len(),
                r@ == self.items@.take(i as int),
            decreases self.items@.len() - i,
        {
            r.push(self.items[i].clone());
            assert(self.items@.take(i + 1) =~= self.items@.take(i as int).push(
                self.items@[i as int],
            ));
            i = i + 1;
        }
        assert(self.items@.take(self.items@.len() as int) =~= self.items@);
        r
    }

    pub fn contains(&self, value: &str) -> (r: bool)
        ensures
            r == self@.contains(value@),
    {
        text::list_contains(&self.items, value)
    }

    /// Where `value` belongs: everything before that place comes before it, and
    /// nothing from there on does.
    fn place(&self, value: &str) -> (r: usize)
        ensures
            r <= self.items@.len(),
            forall|k: int| 0 <= k < r ==> text::precedes(#[trigger] self.items@[k]@, value@),
            forall|k: int|
                r <= k < self.items@.len() ==> !text::precedes(#[trigger] self.items@[k]@, value@),
    {
        proof {
            use_type_invariant(self);
        }
        let mut i: usize = 0;
        while i < self.items.len() && text::before(self.items[i].as_str(), value)
            invariant
                i <= self.items@.len(),
                forall|k: int| 0 <= k < i ==> text::precedes(#[trigger] self.items@[k]@, value@),
            decreases self.items@.len() - i,
        {
            i = i + 1;
        }
        proof {
            assert forall|k: int| i <= k < self.items@.len() implies !text::precedes(
                #[trigger] self.items@[k]@,
                value@,
            ) by {
                if k > i && text::precedes(self.items@[k]@, value@) {
                    let all = text::views(self.items@);
                    assert(text::precedes(all[i as int], all[k]));
                    text::lemma_precedes_transitive(all[i as int], all[k], value@);
                }
            }
        }
        i
    }

    pub fn insert(&mut self, value: &str)
        ensures
            final(self)@ == old(self)@.insert(value@),
    {
        if self.contains(value) {
            assert(self@ =~= self@.insert(value@));
            return;
        }
        let at: usize = self.place(value);
        let ghost before = self.items@;
        proof {
            use_type_invariant(&*self);
        }
        let mut items: Vec<String> = Vec::new();
        std::mem::swap(&mut self.items, &mut items);
        items.insert(at, value.to_owned());
        proof {
            let old_views = text::views(before);
            let new_views = text::views(items@);
            assert(new_views =~= old_views.insert(at as int, value@));
            assert forall|i: int, j: int| 0 <= i < j < new_views.len() implies text::precedes(
                #[trigger] new_views[i],
                #[trigger] new_views[j],
            ) by {
                if j == at {
                    assert(new_views[i] == before[i]@);
                } else if i == at {
                    assert(new_views[j] == before[j - 1]@);
                    text::lemma_precedes_total(before[j - 1]@, value@);
                    assert(old_views.contains(old_views[j - 1]));
                } else {
                    let a = if i < at { i } else { i - 1 };
                    let b = if j < at { j } else { j - 1 };
                    assert(text::precedes(old_views[a], old_views[b]));
                }
            }
            assert forall|s: Seq<char>| new_views.contains(s) == (old_views.contains(s) || s
                == value@) by {
                if old_views.contains(s) {
                    let k = choose|k: int| 0 <= k < old_views.len() && old_views[k] == s;
                    if k < at {
                        assert(new_views[k] == s);
                    } else {
                        assert(new_views[k + 1] == s);
                    }
                }
                assert(new_views[at as int] == value@);
                if new_views.contains(s) {
                    let k = choose|k: int| 0 <= k < new_views.len() && new_views[k] == s;
                    if k < at {
                        assert(old_views[k] == s);
                    } else if k > at {
                        assert(old_views[k - 1] == s);
                    }
                }
            }
            assert(new_views.to_set() =~= old_views.to_set().insert(value@));
        }
        self.items = items;
    }

    pub fn remove(&mut self, value: &str)
        ensures
            final(self)@ == old(self)@.remove(value@),
    {
        if !self.contains(value) {
            assert(self@ =~= self@.remove(value@));
            return;
        }
        let at: usize = self.place(value);
        let ghost before = self.items@;
        proof {
            use_type_invariant(&*self);
            let old_views = text::views(before);
            let k = choose|k: int| 0 <= k < old_views.len() && old_views[k] == value@;
            text::lemma_precedes_total(value@, value@);
            if k < at {
                assert(text::precedes(before[k]@, value@));
            }
            if k > at {
                assert(text::precedes(old_views[at as int], old_views[k]));
                assert(before[at as int]@ == old_views[at as int]);
            }
            assert(k == at);
        }
        let mut items: Vec<String> = Vec::new();
        std::mem::swap(&mut self.items, &mut items);
        let _ = items.remove(at);
        proof {
            let old_views = text::views(before);
            let new_views = text::views(items@);
            assert(new_views =~= old_views.remove(at as int));
            assert forall|i: int, j: int| 0 <= i < j < new_views.len() implies text::precedes(
                #[trigger] new_views[i],
                #[trigger] new_views[j],
            ) by {
                let a = if i < at { i } else { i + 1 };
                let b = if j < at { j } else { j + 1 };
                assert(text::precedes(old_views[a], old_views[b]));
            }
            assert forall|s: Seq<char>| new_views.contains(s) == (old_views.contains(s) && s
                != value@) by {
                if new_views.contains(s) {
                    let k = choose|k: int| 0 <= k < new_views.len() && new_views[k] == s;
                    let a = if k < at { k } else { k + 1 };
                    assert(old_views[a] == s);
                    if k < at {
                        assert(text::precedes(old_views[a], old_views[at as int]));
                    } else {
                        assert(text::precedes(old_views[at as int], old_views[a]));
                    }
                    text::lemma_precedes_total(value@, value@);
                }
                if old_views.contains(s) && s != value@ {
                    let k = choose|k: int| 0 <= k < old_views.len() && old_views[k] == s;
                    assert(k != at);
                    let a = if k < at { k } else { k - 1 };
                    assert(new_views[a] == s);
                }
            }
            assert(new_views.to_set() =~= old_views.to_set().remove(value@));
        }
        self.items = items;
    }
}

} // verus!
