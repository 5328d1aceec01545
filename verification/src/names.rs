//! A set of names that remembers the order in which the names came.
use vstd::prelude::*;
use crate::text::texts_view;

verus! {

/// A set of names, kept in the order in which they first came.
#[derive(Debug)]
pub struct NameSet {
    names: Vec<String>,
}

impl View for NameSet {
    type V = Set<Seq<char>>;

    closed spec fn view(&self) -> Set<Seq<char>> {
        self.order().to_set()
    }
}

impl NameSet {
    /// The names in the order in which they first came.
    pub closed spec fn order(&self) -> Seq<Seq<char>> {
        texts_view(self.names@)
    }

    /// No name is held twice. This holds of every set.
    #[verifier::type_invariant]
    pub closed spec fn wf(&self) -> bool {
        self.order().no_duplicates()
    }

    /// The set holds exactly the names of its order, each once.
    pub proof fn lemma_order(&self)
        requires
            self.wf(),
        ensures
            self.order().no_duplicates(),
            self.order().to_set() == self@,
            self.order().len() == self@.len(),
            self@.finite(),
    {
        self.order().unique_seq_to_set();
        vstd::seq_lib::seq_to_set_is_finite(self.order());
    }

    /// The empty set.
    pub fn new() -> (set: Self)
        ensures
            set@ == Set::<Seq<char>>::empty(),
            set.order() == Seq::<Seq<char>>::empty(),
    {
        let names: Vec<String> = Vec::new();
        assert(texts_view(names@) =~= Seq::<Seq<char>>::empty());
        let set = NameSet { names };
        assert(set@ =~= Set::<Seq<char>>::empty());
        set
    }

    /// How many names the set holds.
    pub fn len(&self) -> (count: usize)
        ensures
            count == self@.len(),
            count == self.order().len(),
    {
        proof {
            use_type_invariant(self);
            self.lemma_order();
        }
        self.names.len()
    }

    /// Whether the set holds no name.
    pub fn is_empty(&self) -> (empty: bool)
        ensures
            empty == (self@ == Set::<Seq<char>>::empty()),
    {
        proof {
            use_type_invariant(self);
            self.lemma_order();
            if self.order().len() == 0 {
                assert(self@ =~= Set::<Seq<char>>::empty());
            } else {
                assert(self@.contains(self.order()[0]));
            }
        }
        self.names.len() == 0
    }

    /// Whether `name` is in the set.
    pub fn contains(&self, name: &str) -> (found: bool)
        ensures
            found == self@.contains(name@),
    {
        let wanted = name.to_owned();
        let mut i: usize = 0;
        while i < self.names.len()
            invariant
                i <= self.names.len(),
                wanted@ == name@,
                forall|j: int| 0 <= j < i ==> self.order()[j] != name@,
            decreases self.names.len() - i,
        {
            if self.names[i] == wanted {
                assert(self.order()[i as int] == name@);
                return true;
            }
            i = i + 1;
        }
        false
    }

    /// Adds `name`; says whether it was new. A name that is already held keeps
    /// its place, a new one goes last.
    pub fn insert(&mut self, name: String) -> (added: bool)
        ensures
            final(self)@ == old(self)@.insert(name@),
            added == !old(self)@.contains(name@),
            final(self).order() == if added {
                old(self).order().push(name@)
            } else {
                old(self).order()
            },
    {
        proof {
            use_type_invariant(&*self);
        }
        if self.contains(name.as_str()) {
            assert(self@ =~= self@.insert(name@));
            false
        } else {
            let ghost before = self.order();
            // The list is taken out while it grows: the set itself is never seen
            // in between.
            let mut names: Vec<String> = Vec::new();
            assert(texts_view(names@) =~= Seq::<Seq<char>>::empty());
            core::mem::swap(&mut self.names, &mut names);
            names.push(name);
            assert(texts_view(names@) =~= before.push(name@));
            core::mem::swap(&mut self.names, &mut names);
            assert(self@ =~= old(self)@.insert(name@)) by {
                assert forall|s: Seq<char>| self@.contains(s) == old(self)@.insert(
                    name@,
                ).contains(s) by {
                    if self@.contains(s) {
                        let i = choose|i: int| 0 <= i < self.order().len() && self.order()[i] == s;
                        if i < before.len() {
                            assert(before[i] == s);
                        }
                    }
                    if old(self)@.contains(s) {
                        let i = choose|i: int| 0 <= i < before.len() && before[i] == s;
                        assert(self.order()[i] == s);
                    }
                    if s == name@ {
                        assert(self.order()[before.len() as int] == s);
                    }
                }
            }
            true
        }
    }

    /// The names, in the order in which they first came.
    pub fn names(&self) -> (names: &Vec<String>)
        ensures
            texts_view(names@) == self.order(),
    {
        &self.names
    }

    /// The names of this set that `other` does not hold, in the order in which
    /// they first came.
    pub open spec fn missing_from(&self, other: &NameSet) -> Seq<Seq<char>> {
        self.order().filter(|name: Seq<char>| !other@.contains(name))
    }

    /// The names of this set that `other` does not hold, in the order in which
    /// they first came.
    pub fn difference(&self, other: &NameSet) -> (names: Vec<String>)
        ensures
            texts_view(names@) == self.missing_from(other),
    {
        let ghost missing = |name: Seq<char>| !other@.contains(name);
        let mut names: Vec<String> = Vec::new();
        let mut i: usize = 0;
        assert(self.order().take(0).filter(missing) =~= Seq::<Seq<char>>::empty()) by {
            reveal(Seq::filter);
        }
        while i < self.names.len()
            invariant
                i <= self.names.len(),
                self.order().len() == self.names.len(),
                missing == |name: Seq<char>| !other@.contains(name),
                texts_view(names@) == self.order().take(i as int).filter(missing),
            decreases self.names.len() - i,
        {
            proof {
                reveal(Seq::filter);
                assert(self.order().take(i + 1).drop_last() =~= self.order().take(i as int));
                assert(self.order().take(i + 1).last() == self.names@[i as int]@);
            }
            if !other.contains(self.names[i].as_str()) {
                let ghost before = names@;
                names.push(self.names[i].clone());
                assert(texts_view(names@) =~= texts_view(before).push(self.names@[i as int]@));
            }
            i = i + 1;
        }
        assert(self.order().take(self.names.len() as int) =~= self.order());
        names
    }
}

} // verus!
