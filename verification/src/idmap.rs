//! A small map from ids to values.

use crate::text::same_text;
use vstd::prelude::*;

verus! {

/// The map that a list of pairs gives.
pub open spec fn pairs_map<V>(pairs: Seq<(String, V)>) -> Map<Seq<char>, V>
    decreases pairs.len(),
{
    if pairs.len() == 0 {
        Map::empty()
    } else {
        pairs_map(pairs.drop_last()).insert(pairs.last().0@, pairs.last().1)
    }
}

/// No id stands in two pairs.
pub open spec fn distinct_ids<V>(pairs: Seq<(String, V)>) -> bool {
    forall|i: int, j: int|
        0 <= i < j < pairs.len() ==> (#[trigger] pairs[i]).0@ != (#[trigger] pairs[j]).0@
}

proof fn lemma_pair<V>(pairs: Seq<(String, V)>, id: Seq<char>)
    requires
        distinct_ids(pairs),
    ensures
        pairs_map(pairs).contains_key(id) <==> exists|i: int|
            0 <= i < pairs.len() && (#[trigger] pairs[i]).0@ == id,
        forall|i: int|
            0 <= i < pairs.len() && (#[trigger] pairs[i]).0@ == id ==> pairs_map(pairs)[id]
                == pairs[i].1,
    decreases pairs.len(),
{
    if pairs.len() > 0 {
        let shorter = pairs.drop_last();
        assert forall|i: int, j: int| 0 <= i < j < shorter.len() implies (#[trigger] shorter[i]).0@
            != (#[trigger] shorter[j]).0@ by {
            assert(shorter[i] == pairs[i] && shorter[j] == pairs[j]);
        }
        lemma_pair(shorter, id);
        let last = pairs.len() - 1;
        if pairs_map(pairs).contains_key(id) {
            if pairs[last].0@ != id {
                let i = choose|i: int| 0 <= i < shorter.len() && (#[trigger] shorter[i]).0@ == id;
                assert(pairs[i].0@ == id);
            }
        }
        assert forall|i: int| 0 <= i < pairs.len() && (#[trigger] pairs[i]).0@ == id implies {
            &&& pairs_map(pairs)[id] == pairs[i].1
            &&& pairs_map(pairs).contains_key(id)
        } by {
            if i < last {
                assert(shorter[i].0@ == id);
                assert(pairs[i].0@ != pairs[last].0@);
            }
        }
    }
}

proof fn lemma_removed<V>(pairs: Seq<(String, V)>, at: int)
    requires
        distinct_ids(pairs),
        0 <= at < pairs.len(),
    ensures
        distinct_ids(pairs.remove(at)),
        pairs_map(pairs.remove(at)) == pairs_map(pairs).remove(pairs[at].0@),
{
    let rest = pairs.remove(at);
    let id = pairs[at].0@;
    assert forall|i: int, j: int| 0 <= i < j < rest.len() implies (#[trigger] rest[i]).0@ != (
    #[trigger] rest[j]).0@ by {
        let a = if i < at {
            i
        } else {
            i + 1
        };
        let b = if j < at {
            j
        } else {
            j + 1
        };
        assert(rest[i] == pairs[a] && rest[j] == pairs[b]);
    }
    let m = pairs_map(rest);
    let n = pairs_map(pairs).remove(id);
    assert forall|k: Seq<char>| #[trigger]
        m.contains_key(k) == n.contains_key(k) && (m.contains_key(k) ==> m[k] == n[k]) by {
        lemma_pair(rest, k);
        lemma_pair(pairs, k);
        if m.contains_key(k) {
            let i = choose|i: int| 0 <= i < rest.len() && (#[trigger] rest[i]).0@ == k;
            let a = if i < at {
                i
            } else {
                i + 1
            };
            assert(pairs[a] == rest[i]);
            assert(pairs[a].0@ == k);
            assert(pairs[a].0@ != pairs[at].0@);
        }
        if n.contains_key(k) {
            let a = choose|a: int| 0 <= a < pairs.len() && (#[trigger] pairs[a]).0@ == k;
            let i = if a < at {
                a
            } else {
                a - 1
            };
            assert(rest[i] == pairs[a]);
            assert(rest[i].0@ == k);
        }
    }
    assert(m.dom() =~= n.dom());
    assert(m =~= n);
}

/// Values by their id.
#[derive(Debug, Clone)]
pub struct IdMap<V> {
    pairs: Vec<(String, V)>,
}

impl<V> View for IdMap<V> {
    type V = Map<Seq<char>, V>;

    closed spec fn view(&self) -> Map<Seq<char>, V> {
        pairs_map(self.pairs@)
    }
}

impl<V> IdMap<V> {
    /// No id is held twice.
    pub closed spec fn wf(self) -> bool {
        distinct_ids(self.pairs@)
    }

    /// The pairs, in the order in which they came.
    pub closed spec fn listed(self) -> Seq<(String, V)> {
        self.pairs@
    }

    /// Nothing.
    pub fn new() -> (m: IdMap<V>)
        ensures
            m.wf(),
            m@ == Map::<Seq<char>, V>::empty(),
    {
        IdMap { pairs: Vec::new() }
    }

    fn position(&self, id: &str) -> (r: Option<usize>)
        requires
            self.wf(),
        ensures
            match r {
                Some(i) => i < self.pairs@.len() && self.pairs@[i as int].0@ == id@
                    && self@.contains_key(id@) && self@[id@] == self.pairs@[i as int].1,
                None => !self@.contains_key(id@),
            },
    {
        proof {
            lemma_pair(self.pairs@, id@);
        }
        let mut i: usize = 0;
        while i < self.pairs.len()
            invariant
                i <= self.pairs@.len(),
                forall|j: int| 0 <= j < i ==> (#[trigger] self.pairs@[j]).0@ != id@,
                forall|j: int|
                    0 <= j < self.pairs@.len() && (#[trigger] self.pairs@[j]).0@ == id@
                        ==> self@.contains_key(id@) && self@[id@] == self.pairs@[j].1,
                self@.contains_key(id@) ==> exists|j: int|
                    0 <= j < self.pairs@.len() && (#[trigger] self.pairs@[j]).0@ == id@,
            decreases self.pairs@.len() - i,
        {
            if same_text(self.pairs[i].0.as_str(), id) {
                return Some(i);
            }
            i += 1;
        }
        None
    }

    /// The value under an id.
    pub fn get(&self, id: &str) -> (r: Option<&V>)
        requires
            self.wf(),
        ensures
            match r {
                Some(v) => self@.contains_key(id@) && *v == self@[id@],
                None => !self@.contains_key(id@),
            },
    {
        match self.position(id) {
            Some(i) => Some(&self.pairs[i].1),
            None => None,
        }
    }

    /// Puts a value under an id.
    pub fn insert(&mut self, id: &str, v: V)
        requires
            old(self).wf(),
        ensures
            final(self).wf(),
            final(self)@ == old(self)@.insert(id@, v),
    {
        let ghost all = self.pairs@;
        if let Some(i) = self.position(id) {
            let gone = self.pairs.remove(i);
            proof {
                lemma_removed(all, i as int);
            }
        }
        proof {
            lemma_pair(self.pairs@, id@);
        }
        let ghost rest = self.pairs@;
        self.pairs.push((id.to_owned(), v));
        proof {
            assert(self.pairs@.drop_last() =~= rest);
            assert(self@ =~= pairs_map(all).insert(id@, v));
            assert forall|i: int, j: int| 0 <= i < j < self.pairs@.len() implies (
            #[trigger] self.pairs@[i]).0@ != (#[trigger] self.pairs@[j]).0@ by {
                assert(self.pairs@[i] == rest[i]);
                if j < rest.len() {
                    assert(self.pairs@[j] == rest[j]);
                }
            }
        }
    }

    /// Takes away the value under an id; says whether there was one.
    pub fn remove(&mut self, id: &str) -> (r: bool)
        requires
            old(self).wf(),
        ensures
            final(self).wf(),
            final(self)@ == old(self)@.remove(id@),
            r == old(self)@.contains_key(id@),
    {
        let ghost all = self.pairs@;
        match self.position(id) {
            Some(i) => {
                let gone = self.pairs.remove(i);
                proof {
                    lemma_removed(all, i as int);
                }
                true
            },
            None => {
                assert(pairs_map(all).remove(id@) =~= pairs_map(all));
                false
            },
        }
    }

    /// The number of values.
    pub fn len(&self) -> (n: usize)
        ensures
            n == self.listed().len(),
    {
        self.pairs.len()
    }

    /// The pair at a place in the list.
    pub fn at(&self, i: usize) -> (r: &(String, V))
        requires
            i < self.listed().len(),
        ensures
            *r == self.listed()[i as int],
    {
        &self.pairs[i]
    }

    /// The list holds every value exactly once, under its id.
    pub proof fn lemma_listed(&self, id: Seq<char>)
        requires
            self.wf(),
        ensures
            distinct_ids(self.listed()),
            self@.contains_key(id) <==> exists|i: int|
                0 <= i < self.listed().len() && (#[trigger] self.listed()[i]).0@ == id,
            forall|i: int|
                0 <= i < self.listed().len() && (#[trigger] self.listed()[i]).0@ == id ==> self@[id]
                    == self.listed()[i].1,
    {
        lemma_pair(self.pairs@, id);
    }
}

} // verus!
