//! The dictionary (names to words, each name at most once) and the other
//! name collections the engine keeps: the set of immediate words and the
//! table of execution tokens.
use vstd::prelude::*;
use crate::text::{text_clone, text_eq, texts, lemma_texts_push};
use crate::types::{Word, WordV, clone_word};
use crate::order::{sort_texts, sorted_list, lemma_sorted_list};

verus! {

pub struct Entry {
    pub name: Vec<char>,
    pub word: Word,
}

pub struct Dict {
    entries: Vec<Entry>,
}

/// The position of `k` in `s` (meaningful when `s` holds it).
pub open spec fn index_in(s: Seq<Seq<char>>, k: Seq<char>) -> int {
    choose|i: int| 0 <= i < s.len() && s[i] == k
}

pub proof fn lemma_index_in(s: Seq<Seq<char>>, i: int)
    requires
        s.no_duplicates(),
        0 <= i < s.len(),
    ensures
        index_in(s, s[i]) == i,
{
    let j = index_in(s, s[i]);
    assert(0 <= j < s.len() && s[j] == s[i]);
}

impl Dict {
    pub closed spec fn names(&self) -> Seq<Seq<char>> {
        self.entries@.map_values(|e: Entry| e.name@)
    }

    pub closed spec fn wf(&self) -> bool {
        self.names().no_duplicates()
    }

    pub closed spec fn view(&self) -> Map<Seq<char>, WordV> {
        Map::new(
            |k: Seq<char>| self.names().contains(k),
            |k: Seq<char>| self.entries@[index_in(self.names(), k)].word@,
        )
    }

    pub proof fn lemma_dom(&self)
        ensures
            self@.dom() == self.names().to_set(),
            self@.dom().finite(),
    {
        assert(self@.dom() =~= self.names().to_set());
    }

    pub fn new() -> (d: Dict)
        ensures
            d.wf(),
            d@ == Map::<Seq<char>, WordV>::empty(),
    {
        let d = Dict { entries: Vec::new() };
        assert(d@ =~= Map::<Seq<char>, WordV>::empty());
        d
    }

    fn position(&self, name: &Vec<char>) -> (r: Option<usize>)
        requires
            self.wf(),
        ensures
            match r {
                Some(i) => i < self.entries@.len() && self.names()[i as int] == name@,
                None => !self.names().contains(name@),
            },
    {
        let mut i: usize = 0;
        while i < self.entries.len()
            invariant
                i <= self.entries@.len(),
                forall|j: int| 0 <= j < i ==> self.names()[j] != name@,
            decreases self.entries.len() - i,
        {
            if text_eq(&self.entries[i].name, name) {
                return Some(i);
            }
            i += 1;
        }
        None
    }

    pub fn contains(&self, name: &Vec<char>) -> (b: bool)
        requires
            self.wf(),
        ensures
            b == self@.contains_key(name@),
    {
        self.position(name).is_some()
    }

    /// A copy of the word named `name`, if any.
    pub fn get(&self, name: &Vec<char>) -> (r: Option<Word>)
        requires
            self.wf(),
        ensures
            match r {
                Some(w) => self@.contains_key(name@) && w@ == self@[name@],
                None => !self@.contains_key(name@),
            },
    {
        match self.position(name) {
            Some(i) => {
                proof {
                    lemma_index_in(self.names(), i as int);
                }
                Some(clone_word(&self.entries[i].word))
            },
            None => None,
        }
    }

    /// Binds `name` to `word`, replacing an earlier binding.
    pub fn insert(&mut self, name: Vec<char>, word: Word)
        requires
            old(self).wf(),
        ensures
            final(self).wf(),
            final(self)@ == old(self)@.insert(name@, word@),
    {
        let ghost old_names = self.names();
        let ghost nm = name@;
        let ghost w = word@;
        match self.position(&name) {
            Some(i) => {
                self.entries.set(i, Entry { name, word });
                proof {
                    assert(self.names() =~= old_names);
                    assert forall|k: Seq<char>| #[trigger] self@.contains_key(k) implies self@[k]
                        == old(self)@.insert(nm, w)[k] by {
                        let j = index_in(old_names, k);
                        lemma_index_in(old_names, j);
                        if j != i {
                            assert(old_names[j] != old_names[i as int]);
                        }
                    }
                    assert(self@ =~= old(self)@.insert(nm, w));
                }
            },
            None => {
                self.entries.push(Entry { name, word });
                proof {
                    assert(self.names() =~= old_names.push(nm));
                    assert forall|k: Seq<char>| #[trigger] self@.contains_key(k) <==> old(
                        self,
                    )@.insert(nm, w).contains_key(k) by {
                        if old_names.contains(k) {
                            let j = choose|j: int| 0 <= j < old_names.len() && old_names[j] == k;
                            assert(self.names()[j] == k);
                        }
                        if k == nm {
                            assert(self.names()[old_names.len() as int] == k);
                        }
                        if self.names().contains(k) {
                            let j = choose|j: int|
                                0 <= j < self.names().len() && self.names()[j] == k;
                            if j < old_names.len() {
                                assert(old_names[j] == k);
                            }
                        }
                    }
                    assert forall|k: Seq<char>| #[trigger] self@.contains_key(k) implies self@[k]
                        == old(self)@.insert(nm, w)[k] by {
                        let j = index_in(self.names(), k);
                        lemma_index_in(self.names(), j);
                        if k != nm {
                            let j0 = index_in(old_names, k);
                            lemma_index_in(old_names, j0);
                            lemma_index_in(self.names(), j0);
                        } else {
                            lemma_index_in(self.names(), old_names.len() as int);
                        }
                    }
                    assert(self@ =~= old(self)@.insert(nm, w));
                }
            },
        }
    }

    /// The names in increasing order.
    pub fn sorted_names(&self) -> (r: Vec<Vec<char>>)
        requires
            self.wf(),
        ensures
            texts(r@) == sorted_list(self@.dom()),
    {
        let mut v: Vec<Vec<char>> = Vec::new();
        let mut i: usize = 0;
        while i < self.entries.len()
            invariant
                i <= self.entries@.len(),
                texts(v@) == self.names().take(i as int),
            decreases self.entries.len() - i,
        {
            let c = text_clone(&self.entries[i].name);
            proof {
                lemma_texts_push(v@, c);
            }
            v.push(c);
            i += 1;
            assert(texts(v@) =~= self.names().take(i as int));
        }
        assert(self.names().take(i as int) =~= self.names());
        let r = sort_texts(v);
        proof {
            self.lemma_dom();
            lemma_sorted_list(texts(r@));
        }
        r
    }
}

/// A set of names kept as a list.
pub open spec fn name_set(v: Seq<Vec<char>>) -> Set<Seq<char>> {
    texts(v).to_set()
}

pub fn names_contain(v: &Vec<Vec<char>>, name: &Vec<char>) -> (b: bool)
    ensures
        b == name_set(v@).contains(name@),
{
    let mut i: usize = 0;
    while i < v.len()
        invariant
            i <= v@.len(),
            forall|j: int| 0 <= j < i ==> texts(v@)[j] != name@,
        decreases v.len() - i,
    {
        if text_eq(&v[i], name) {
            assert(texts(v@)[i as int] == name@);
            return true;
        }
        i += 1;
    }
    false
}

pub fn names_insert(v: &mut Vec<Vec<char>>, name: Vec<char>)
    ensures
        name_set(final(v)@) == name_set(old(v)@).insert(name@),
{
    if !names_contain(v, &name) {
        let ghost nm = name@;
        proof {
            lemma_texts_push(v@, name);
        }
        v.push(name);
        assert(name_set(v@) =~= name_set(old(v)@).insert(nm)) by {
            assert(texts(v@) == texts(old(v)@).push(nm));
            assert forall|k: Seq<char>| name_set(v@).contains(k) implies name_set(
                old(v)@,
            ).insert(nm).contains(k) by {
                let j = choose|j: int| 0 <= j < texts(v@).len() && texts(v@)[j] == k;
                if j < old(v)@.len() {
                    assert(texts(old(v)@)[j] == k);
                }
            }
            assert forall|k: Seq<char>| name_set(old(v)@).insert(nm).contains(k) implies name_set(
                v@,
            ).contains(k) by {
                if k == nm {
                    assert(texts(v@)[old(v)@.len() as int] == k);
                } else {
                    let j = choose|j: int| 0 <= j < texts(old(v)@).len() && texts(old(v)@)[j] == k;
                    assert(texts(v@)[j] == k);
                }
            }
        }
    } else {
        assert(name_set(old(v)@).insert(name@) =~= name_set(old(v)@));
    }
}

/// The execution token of `name` in a table: its first position, or the
/// position it takes when appended.
pub open spec fn xt_index(s: Seq<Seq<char>>, name: Seq<char>) -> int {
    if s.contains(name) {
        choose|i: int| 0 <= i < s.len() && s[i] == name && forall|j: int| 0 <= j < i ==> s[j] != name
    } else {
        s.len() as int
    }
}

proof fn lemma_min_index(s: Seq<Seq<char>>, name: Seq<char>, k: int)
    requires
        0 <= k < s.len(),
        s[k] == name,
    ensures
        exists|i: int|
            0 <= i < s.len() && s[i] == name && forall|j: int| 0 <= j < i ==> s[j] != name,
    decreases k,
{
    if exists|j: int| 0 <= j < k && s[j] == name {
        let j = choose|j: int| 0 <= j < k && s[j] == name;
        lemma_min_index(s, name, j);
    } else {
        assert(0 <= k < s.len() && s[k] == name && forall|j: int| 0 <= j < k ==> s[j] != name);
    }
}

/// The token of a name in the table is its first position.
pub proof fn lemma_xt_index(s: Seq<Seq<char>>, name: Seq<char>)
    requires
        s.contains(name),
    ensures
        0 <= xt_index(s, name) < s.len(),
        s[xt_index(s, name)] == name,
        forall|j: int| 0 <= j < xt_index(s, name) ==> s[j] != name,
{
    let k = choose|k: int| 0 <= k < s.len() && s[k] == name;
    lemma_min_index(s, name, k);
}

/// The table after interning `name`.
pub open spec fn xt_interned(s: Seq<Seq<char>>, name: Seq<char>) -> Seq<Seq<char>> {
    if s.contains(name) {
        s
    } else {
        s.push(name)
    }
}

/// Interns `name` in the table and gives its execution token.
pub fn intern(v: &mut Vec<Vec<char>>, name: &Vec<char>) -> (xt: i32)
    ensures
        texts(final(v)@) == xt_interned(texts(old(v)@), name@),
        xt == xt_index(texts(old(v)@), name@) as i32,
{
    let ghost s = texts(v@);
    let mut i: usize = 0;
    while i < v.len()
        invariant
            i <= v@.len(),
            s == texts(v@),
            forall|j: int| 0 <= j < i ==> s[j] != name@,
        decreases v.len() - i,
    {
        if text_eq(&v[i], name) {
            proof {
                assert(s[i as int] == name@);
                assert(s.contains(name@));
                let c = xt_index(s, name@);
                assert(0 <= c < s.len() && s[c] == name@ && forall|j: int|
                    0 <= j < c ==> s[j] != name@);
                if c < i {
                } else if c > i {
                    assert(s[i as int] != name@);
                }
            }
            return i as i32;
        }
        i += 1;
    }
    let n: usize = v.len();
    proof {
        if s.contains(name@) {
            let j = choose|j: int| 0 <= j < s.len() && s[j] == name@;
        }
        lemma_texts_push(v@, *name);
    }
    v.push(text_clone(name));
    assert(texts(v@) =~= s.push(name@));
    n as i32
}

} // verus!
