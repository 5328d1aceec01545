//! The headers of a signed-in session: a map from header name to value, kept as
//! a list in which no name comes twice.
use vstd::prelude::*;
use crate::text::pairs_view;

verus! {

/// The map that a list of name and value pairs stands for, a later pair
/// winning over an earlier one of the same name.
pub open spec fn pairs_to_map(pairs: Seq<(Seq<char>, Seq<char>)>) -> Map<Seq<char>, Seq<char>>
    decreases pairs.len(),
{
    if pairs.len() == 0 {
        Map::empty()
    } else {
        pairs_to_map(pairs.drop_last()).insert(pairs.last().0, pairs.last().1)
    }
}

/// No two of `pairs` have the same name.
pub open spec fn distinct_names(pairs: Seq<(Seq<char>, Seq<char>)>) -> bool {
    forall|i: int, j: int|
        0 <= i < j < pairs.len() ==> (#[trigger] pairs[i]).0 != (#[trigger] pairs[j]).0
}

/// A name is in the map of a list exactly if some pair of the list has it.
pub proof fn lemma_pairs_to_map_dom(pairs: Seq<(Seq<char>, Seq<char>)>, name: Seq<char>)
    ensures
        pairs_to_map(pairs).contains_key(name) <==> exists|i: int|
            0 <= i < pairs.len() && (#[trigger] pairs[i]).0 == name,
    decreases pairs.len(),
{
    if pairs.len() > 0 {
        let front = pairs.drop_last();
        lemma_pairs_to_map_dom(front, name);
        if pairs_to_map(pairs).contains_key(name) {
            if pairs.last().0 == name {
                assert(pairs[pairs.len() - 1].0 == name);
            } else {
                let i = choose|i: int| 0 <= i < front.len() && (#[trigger] front[i]).0 == name;
                assert(pairs[i].0 == name);
            }
        }
        if exists|i: int| 0 <= i < pairs.len() && (#[trigger] pairs[i]).0 == name {
            let i = choose|i: int| 0 <= i < pairs.len() && (#[trigger] pairs[i]).0 == name;
            if i < pairs.len() - 1 {
                assert(front[i].0 == name);
            }
        }
    }
}

/// Where names are distinct, the map gives each name the value it is paired
/// with.
pub proof fn lemma_pairs_to_map_value(pairs: Seq<(Seq<char>, Seq<char>)>, i: int)
    requires
        distinct_names(pairs),
        0 <= i < pairs.len(),
    ensures
        pairs_to_map(pairs).contains_key(pairs[i].0),
        pairs_to_map(pairs)[pairs[i].0] == pairs[i].1,
    decreases pairs.len(),
{
    let front = pairs.drop_last();
    if i < pairs.len() - 1 {
        assert(distinct_names(front)) by {
            assert forall|a: int, b: int| 0 <= a < b < front.len() implies (#[trigger] front[a]).0
                != (#[trigger] front[b]).0 by {
                assert(pairs[a].0 != pairs[b].0);
            }
        }
        lemma_pairs_to_map_value(front, i);
        assert(front[i] == pairs[i]);
        assert(pairs[i].0 != pairs[pairs.len() - 1].0);
    }
}

/// The headers of a signed-in session: one value for each header name.
#[derive(Debug)]
pub struct Headers {
    entries: Vec<(String, String)>,
}

impl View for Headers {
    type V = Map<Seq<char>, Seq<char>>;

    closed spec fn view(&self) -> Map<Seq<char>, Seq<char>> {
        pairs_to_map(self.pairs())
    }
}

impl Headers {
    /// The headers as a list, in the order in which their names first came.
    pub closed spec fn pairs(&self) -> Seq<(Seq<char>, Seq<char>)> {
        pairs_view(self.entries@)
    }

    /// No header name is held twice. This holds of every set of headers.
    #[verifier::type_invariant]
    pub closed spec fn wf(&self) -> bool {
        distinct_names(self.pairs())
    }

    /// The list and the map hold the same headers.
    pub proof fn lemma_pairs(&self)
        requires
            self.wf(),
        ensures
            distinct_names(self.pairs()),
            self@ == pairs_to_map(self.pairs()),
            self.pairs().len() == 0 <==> self@ == Map::<Seq<char>, Seq<char>>::empty(),
    {
        if self.pairs().len() > 0 {
            lemma_pairs_to_map_value(self.pairs(), 0);
            assert(self@.contains_key(self.pairs()[0].0));
        }
    }

    /// No headers at all.
    pub fn empty() -> (headers: Self)
        ensures
            headers@ == Map::<Seq<char>, Seq<char>>::empty(),
            headers.pairs() == Seq::<(Seq<char>, Seq<char>)>::empty(),
    {
        let entries: Vec<(String, String)> = Vec::new();
        assert(pairs_view(entries@) =~= Seq::<(Seq<char>, Seq<char>)>::empty());
        Headers { entries }
    }

    /// The headers that `pairs` lists; where a name comes twice, its later value
    /// stands.
    pub fn new(pairs: Vec<(String, String)>) -> (headers: Self)
        ensures
            headers@ == pairs_to_map(pairs_view(pairs@)),
    {
        let mut headers = Headers::empty();
        let mut i: usize = 0;
        while i < pairs.len()
            invariant
                i <= pairs.len(),
                headers@ == pairs_to_map(pairs_view(pairs@).take(i as int)),
            decreases pairs.len() - i,
        {
            let name = pairs[i].0.clone();
            let value = pairs[i].1.clone();
            headers.insert(name, value);
            proof {
                let all = pairs_view(pairs@);
                assert(all.take(i + 1).drop_last() =~= all.take(i as int));
                assert(all.take(i + 1).last() == all[i as int]);
            }
            i = i + 1;
        }
        assert(pairs_view(pairs@).take(pairs.len() as int) =~= pairs_view(pairs@));
        headers
    }

    /// Whether no header is held.
    pub fn is_empty(&self) -> (none: bool)
        ensures
            none == (self@ == Map::<Seq<char>, Seq<char>>::empty()),
            none == (self.pairs().len() == 0),
    {
        proof {
            use_type_invariant(self);
            self.lemma_pairs();
        }
        self.entries.len() == 0
    }

    fn position(&self, name: &String) -> (found: Option<usize>)
        ensures
            match found {
                Some(i) => i < self.pairs().len() && self.pairs()[i as int].0 == name@,
                None => forall|j: int| 0 <= j < self.pairs().len() ==> (#[trigger] self.pairs()[j]).0
                    != name@,
            },
    {
        let mut i: usize = 0;
        while i < self.entries.len()
            invariant
                i <= self.entries.len(),
                self.pairs().len() == self.entries.len(),
                forall|j: int| 0 <= j < i ==> (#[trigger] self.pairs()[j]).0 != name@,
            decreases self.entries.len() - i,
        {
            if self.entries[i].0 == *name {
                assert(self.pairs()[i as int].0 == name@);
                return Some(i);
            }
            i = i + 1;
        }
        None
    }

    /// Sets the header `name` to `value`, in place of any value it had.
    pub fn insert(&mut self, name: String, value: String)
        ensures
            final(self)@ == old(self)@.insert(name@, value@),
    {
        proof {
            use_type_invariant(&*self);
        }
        let ghost before = self.pairs();
        let found = self.position(&name);
        // The list is taken out while it changes: the headers themselves are
        // never seen in between.
        let mut entries: Vec<(String, String)> = Vec::new();
        assert(pairs_view(entries@) =~= Seq::<(Seq<char>, Seq<char>)>::empty());
        core::mem::swap(&mut self.entries, &mut entries);
        match found {
            Some(i) => {
                entries.set(i, (name, value));
                proof {
                    assert(pairs_view(entries@) =~= before.update(i as int, (name@, value@)));
                    lemma_update_value(before, i as int, value@);
                }
            },
            None => {
                entries.push((name, value));
                proof {
                    assert(pairs_view(entries@) =~= before.push((name@, value@)));
                    assert(pairs_view(entries@).drop_last() =~= before);
                }
            },
        }
        core::mem::swap(&mut self.entries, &mut entries);
    }

    /// The headers as a list of pairs, no name twice.
    pub fn entries(&self) -> (entries: &Vec<(String, String)>)
        ensures
            pairs_view(entries@) == self.pairs(),
    {
        &self.entries
    }
}

/// Giving a name of a list of distinct names a new value is setting it in the map.
pub proof fn lemma_update_value(pairs: Seq<(Seq<char>, Seq<char>)>, i: int, value: Seq<char>)
    requires
        distinct_names(pairs),
        0 <= i < pairs.len(),
    ensures
        distinct_names(pairs.update(i, (pairs[i].0, value))),
        pairs_to_map(pairs.update(i, (pairs[i].0, value))) == pairs_to_map(pairs).insert(
            pairs[i].0,
            value,
        ),
{
    let name = pairs[i].0;
    let changed = pairs.update(i, (name, value));
    assert(distinct_names(changed)) by {
        assert forall|a: int, b: int| 0 <= a < b < changed.len() implies (#[trigger] changed[a]).0
            != (#[trigger] changed[b]).0 by {
            assert(pairs[a].0 != pairs[b].0);
        }
    }
    let wanted = pairs_to_map(pairs).insert(name, value);
    assert forall|key: Seq<char>| pairs_to_map(changed).contains_key(key) <==> wanted.contains_key(
        key,
    ) by {
        lemma_pairs_to_map_dom(changed, key);
        lemma_pairs_to_map_dom(pairs, key);
        if exists|k: int| 0 <= k < changed.len() && (#[trigger] changed[k]).0 == key {
            let k = choose|k: int| 0 <= k < changed.len() && (#[trigger] changed[k]).0 == key;
            assert(pairs[k].0 == key);
        }
        if exists|k: int| 0 <= k < pairs.len() && (#[trigger] pairs[k]).0 == key {
            let k = choose|k: int| 0 <= k < pairs.len() && (#[trigger] pairs[k]).0 == key;
            assert(changed[k].0 == key);
        }
        if key == name {
            assert(changed[i].0 == key);
        }
    }
    assert forall|key: Seq<char>| pairs_to_map(changed).contains_key(key) implies pairs_to_map(
        changed,
    )[key] == wanted[key] by {
        lemma_pairs_to_map_dom(changed, key);
        let k = choose|k: int| 0 <= k < changed.len() && (#[trigger] changed[k]).0 == key;
        lemma_pairs_to_map_value(changed, k);
        lemma_pairs_to_map_value(pairs, k);
    }
    assert(pairs_to_map(changed) =~= wanted);
}

} // verus!
