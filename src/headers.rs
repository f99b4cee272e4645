use vstd::prelude::*;

use crate::assoc::{
    keys_unique, lemma_pairs_map_at, lemma_pairs_map_len, lemma_pairs_map_push,
    lemma_pairs_map_update, pairs_map,
};

verus! {

/// A header mapping: names to values, names compared exactly (case-sensitive),
/// a later value for a name replacing the earlier one.
pub struct HttpHeaders {
    entries: Vec<(String, String)>,
}

impl HttpHeaders {
    /// The pairs in the order in which they are kept.
    pub closed spec fn pairs(&self) -> Seq<(Seq<char>, Seq<char>)> {
        self.entries@.map_values(|e: (String, String)| (e.0@, e.1@))
    }

    #[verifier::type_invariant]
    spec fn inv(&self) -> bool {
        keys_unique(self.pairs())
    }

    /// An empty mapping.
    pub fn new() -> (r: HttpHeaders)
        ensures
            r.pairs() == Seq::<(Seq<char>, Seq<char>)>::empty(),
            r@ == Map::<Seq<char>, Seq<char>>::empty(),
    {
        let r = HttpHeaders { entries: Vec::new() };
        assert(r@ =~= Map::<Seq<char>, Seq<char>>::empty());
        r
    }

    /// The number of names.
    pub fn len(&self) -> (r: usize)
        ensures
            r == self.pairs().len(),
            r == self@.dom().len(),
    {
        proof {
            use_type_invariant(self);
            lemma_pairs_map_len(self.pairs());
        }
        self.entries.len()
    }

    /// The name and value of the pair at `i`.
    pub fn entry(&self, i: usize) -> (r: (&String, &String))
        requires
            i < self.pairs().len(),
        ensures
            (r.0@, r.1@) == self.pairs()[i as int],
            self@.contains_key(r.0@),
            self@[r.0@] == r.1@,
    {
        proof {
            use_type_invariant(self);
            lemma_pairs_map_at(self.pairs(), i as int);
        }
        (&self.entries[i].0, &self.entries[i].1)
    }

    /// The position of `name` among the pairs, if it is there.
    fn position(&self, name: &String) -> (r: Option<usize>)
        ensures
            match r {
                Some(i) => i < self.pairs().len() && self.pairs()[i as int].0 == name@,
                None => !self@.contains_key(name@),
            },
    {
        let mut i: usize = 0;
        while i < self.entries.len()
            invariant
                i <= self.entries.len(),
                forall|j: int| 0 <= j < i ==> self.pairs()[j].0 != name@,
            decreases self.entries.len() - i,
        {
            if self.entries[i].0 == *name {
                return Some(i);
            }
            i += 1;
        }
        None
    }

    /// The value of `name`, if it has one.
    pub fn get(&self, name: &str) -> (r: Option<&String>)
        ensures
            match r {
                Some(v) => self@.contains_key(name@) && v@ == self@[name@],
                None => !self@.contains_key(name@),
            },
    {
        let key = name.to_owned();
        match self.position(&key) {
            Some(i) => {
                proof {
                    use_type_invariant(self);
                    lemma_pairs_map_at(self.pairs(), i as int);
                }
                Some(&self.entries[i].1)
            },
            None => None,
        }
    }

    /// Gives `name` the value `value`, replacing any value it had.
    pub fn insert(&mut self, name: &str, value: &str)
        ensures
            final(self)@ == old(self)@.insert(name@, value@),
    {
        proof {
            use_type_invariant(&*self);
        }
        let key = name.to_owned();
        let val = value.to_owned();
        let ghost s = self.pairs();
        let found = self.position(&key);
        let mut taken = HttpHeaders { entries: Vec::new() };
        std::mem::swap(self, &mut taken);
        let HttpHeaders { entries: mut entries } = taken;
        assert(entries@.map_values(|e: (String, String)| (e.0@, e.1@)) == s);
        match found {
            Some(i) => {
                entries.set(i, (key, val));
                proof {
                    lemma_pairs_map_update(s, i as int, value@);
                    assert(entries@.map_values(|e: (String, String)| (e.0@, e.1@)) =~= s.update(
                        i as int,
                        (name@, value@),
                    ));
                }
            },
            None => {
                entries.push((key, val));
                proof {
                    lemma_pairs_map_push(s, name@, value@);
                    assert(entries@.map_values(|e: (String, String)| (e.0@, e.1@)) =~= s.push(
                        (name@, value@),
                    ));
                }
            },
        }
        *self = HttpHeaders { entries };
    }
}

impl View for HttpHeaders {
    type V = Map<Seq<char>, Seq<char>>;

    open spec fn view(&self) -> Map<Seq<char>, Seq<char>> {
        pairs_map(self.pairs())
    }
}

} // verus!
