//! A string-keyed map stored as a vector of entries in strictly increasing
//! key order. Its view is a mathematical `Map`, and its entry order makes
//! listings lexicographic by construction.
use vstd::prelude::*;
use crate::strutil::{lex_lt, str_lt, str_eq, lemma_lex_trichotomy, lemma_lex_trans};

verus! {

/// The map denoted by an entry sequence; later entries win.
pub open spec fn map_of<V: View>(s: Seq<(String, V)>) -> Map<Seq<char>, V::V>
    decreases s.len(),
{
    if s.len() == 0 {
        Map::empty()
    } else {
        map_of(s.drop_last()).insert(s.last().0@, s.last().1@)
    }
}

/// Entry keys in strictly increasing lexicographic order.
pub open spec fn sorted_entries<V: View>(s: Seq<(String, V)>) -> bool {
    forall|i: int, j: int|
        0 <= i < j < s.len() ==> lex_lt(#[trigger] s[i].0@, #[trigger] s[j].0@)
}

pub proof fn lemma_map_of_contains<V: View>(s: Seq<(String, V)>, k: Seq<char>)
    ensures
        map_of(s).contains_key(k) <==> exists|i: int|
            0 <= i < s.len() && (#[trigger] s[i].0@) == k,
    decreases s.len(),
{
    if s.len() > 0 {
        lemma_map_of_contains(s.drop_last(), k);
        if s.last().0@ == k {
            assert(s[s.len() - 1].0@ == k);
        } else {
            if exists|i: int| 0 <= i < s.drop_last().len() && (#[trigger] s.drop_last()[i].0@)
                == k {
                let i = choose|i: int|
                    0 <= i < s.drop_last().len() && (#[trigger] s.drop_last()[i].0@) == k;
                assert(s[i].0@ == k);
            }
            if exists|i: int| 0 <= i < s.len() && (#[trigger] s[i].0@) == k {
                let i = choose|i: int| 0 <= i < s.len() && (#[trigger] s[i].0@) == k;
                assert(s.drop_last()[i].0@ == k);
            }
        }
    }
}

pub proof fn lemma_map_of_index<V: View>(s: Seq<(String, V)>, i: int)
    requires
        sorted_entries(s),
        0 <= i < s.len(),
    ensures
        map_of(s).contains_key(s[i].0@),
        map_of(s)[s[i].0@] == s[i].1@,
    decreases s.len(),
{
    if i < s.len() - 1 {
        lemma_lex_trichotomy(s[i].0@, s.last().0@);
        assert(forall|x: int, y: int|
            0 <= x < y < s.drop_last().len() ==> lex_lt(
                #[trigger] s.drop_last()[x].0@,
                #[trigger] s.drop_last()[y].0@,
            ));
        lemma_map_of_index(s.drop_last(), i);
    }
}

pub proof fn lemma_map_of_insert_entry<V: View>(s: Seq<(String, V)>, pos: int, k: String, v: V)
    requires
        0 <= pos <= s.len(),
        forall|i: int| 0 <= i < s.len() ==> (#[trigger] s[i].0@) != k@,
    ensures
        map_of(s.insert(pos, (k, v))) =~= map_of(s).insert(k@, v@),
    decreases s.len() - pos,
{
    let s2 = s.insert(pos, (k, v));
    if pos == s.len() {
        assert(s2.drop_last() =~= s);
        assert(s2.last() == (k, v));
    } else {
        assert(s2.last() == s[s.len() - 1]);
        assert(s2.drop_last() =~= s.drop_last().insert(pos, (k, v)));
        assert(forall|i: int|
            0 <= i < s.drop_last().len() ==> (#[trigger] s.drop_last()[i].0@) != k@);
        lemma_map_of_insert_entry(s.drop_last(), pos, k, v);
        assert(s[s.len() - 1].0@ != k@);
    }
}

pub proof fn lemma_map_of_update_entry<V: View>(s: Seq<(String, V)>, pos: int, k: String, v: V)
    requires
        0 <= pos < s.len(),
        s[pos].0@ == k@,
        forall|i: int| 0 <= i < s.len() && i != pos ==> (#[trigger] s[i].0@) != k@,
    ensures
        map_of(s.update(pos, (k, v))) =~= map_of(s).insert(k@, v@),
    decreases s.len(),
{
    let s2 = s.update(pos, (k, v));
    if pos == s.len() - 1 {
        assert(s2.drop_last() =~= s.drop_last());
        assert(s2.last() == (k, v));
    } else {
        assert(s2.drop_last() =~= s.drop_last().update(pos, (k, v)));
        assert(s2.last() == s.last());
        assert(forall|i: int|
            0 <= i < s.drop_last().len() && i != pos ==> (#[trigger] s.drop_last()[i].0@) != k@);
        assert(s.drop_last()[pos].0@ == k@);
        lemma_map_of_update_entry(s.drop_last(), pos, k, v);
        assert(s[s.len() - 1].0@ != k@);
    }
}

pub proof fn lemma_map_of_remove_entry<V: View>(s: Seq<(String, V)>, pos: int)
    requires
        0 <= pos < s.len(),
        forall|i: int| 0 <= i < s.len() && i != pos ==> (#[trigger] s[i].0@) != s[pos].0@,
    ensures
        map_of(s.remove(pos)) =~= map_of(s).remove(s[pos].0@),
    decreases s.len(),
{
    let s2 = s.remove(pos);
    if pos == s.len() - 1 {
        assert(s2 =~= s.drop_last());
        lemma_map_of_contains(s.drop_last(), s[pos].0@);
        assert(!map_of(s.drop_last()).contains_key(s[pos].0@));
    } else {
        assert(s2.last() == s.last());
        assert(s2.drop_last() =~= s.drop_last().remove(pos));
        assert(forall|i: int|
            0 <= i < s.drop_last().len() && i != pos ==> (#[trigger] s.drop_last()[i].0@)
                != s.drop_last()[pos].0@);
        lemma_map_of_remove_entry(s.drop_last(), pos);
        assert(s[s.len() - 1].0@ != s[pos].0@);
    }
}

pub proof fn lemma_map_of_finite<V: View>(s: Seq<(String, V)>)
    ensures
        map_of(s).dom().finite(),
        map_of(s).dom().len() <= s.len(),
    decreases s.len(),
{
    if s.len() > 0 {
        lemma_map_of_finite(s.drop_last());
    }
}

/// A map from strings to values, kept in increasing key order.
pub struct StringMap<V> {
    pub entries: Vec<(String, V)>,
}

impl<V: View> View for StringMap<V> {
    type V = Map<Seq<char>, V::V>;

    open spec fn view(&self) -> Map<Seq<char>, V::V> {
        map_of(self.entries@)
    }
}

impl<V: View> StringMap<V> {
    /// Well-formed: keys strictly increasing, hence unique.
    pub open spec fn wf(&self) -> bool {
        sorted_entries(self.entries@)
    }

    /// The keys, in increasing order.
    pub open spec fn key_seq(&self) -> Seq<Seq<char>> {
        Seq::new(self.entries@.len(), |i: int| self.entries@[i].0@)
    }

    /// The values, keyed as `key_seq`.
    pub open spec fn val_seq(&self) -> Seq<V::V> {
        Seq::new(self.entries@.len(), |i: int| self.entries@[i].1@)
    }

    /// Whether `v` is one of the stored values.
    pub open spec fn has_value(&self, v: V) -> bool {
        exists|i: int| 0 <= i < self.entries@.len() && self.entries@[i].1 == v
    }

    /// Each listed key is in the map and maps to the value listed with it.
    pub proof fn lemma_key_seq(&self)
        requires
            self.wf(),
        ensures
            forall|i: int, j: int|
                0 <= i < j < self.key_seq().len() ==> lex_lt(
                    #[trigger] self.key_seq()[i],
                    #[trigger] self.key_seq()[j],
                ),
            forall|k: Seq<char>|
                self@.contains_key(k) <==> exists|i: int|
                    0 <= i < self.key_seq().len() && (#[trigger] self.key_seq()[i]) == k,
            forall|i: int|
                0 <= i < self.key_seq().len() ==> self@.contains_key(#[trigger] self.key_seq()[i])
                    && self@[self.key_seq()[i]] == self.val_seq()[i],
    {
        assert forall|k: Seq<char>|
            self@.contains_key(k) <==> exists|i: int|
                0 <= i < self.key_seq().len() && (#[trigger] self.key_seq()[i]) == k by {
            lemma_map_of_contains(self.entries@, k);
            if exists|i: int| 0 <= i < self.entries@.len() && (#[trigger] self.entries@[i].0@)
                == k {
                let i = choose|i: int|
                    0 <= i < self.entries@.len() && (#[trigger] self.entries@[i].0@) == k;
                assert(self.key_seq()[i] == k);
            }
            if exists|i: int| 0 <= i < self.key_seq().len() && (#[trigger] self.key_seq()[i])
                == k {
                let i = choose|i: int|
                    0 <= i < self.key_seq().len() && (#[trigger] self.key_seq()[i]) == k;
                assert(self.entries@[i].0@ == k);
            }
        }
        assert forall|i: int| 0 <= i < self.key_seq().len() implies self@.contains_key(
            #[trigger] self.key_seq()[i],
        ) && self@[self.key_seq()[i]] == self.val_seq()[i] by {
            lemma_map_of_index(self.entries@, i);
        }
    }

    /// An empty map.
    pub fn new() -> (r: Self)
        ensures
            r.wf(),
            r@ =~= Map::<Seq<char>, V::V>::empty(),
            r.key_seq() =~= Seq::<Seq<char>>::empty(),
            forall|x: V| !(#[trigger] r.has_value(x)),
    {
        StringMap { entries: Vec::new() }
    }

    pub fn len(&self) -> (n: usize)
        ensures
            n == self.key_seq().len(),
    {
        self.entries.len()
    }

    pub fn key_at(&self, i: usize) -> (k: &String)
        requires
            i < self.key_seq().len(),
        ensures
            k@ == self.key_seq()[i as int],
    {
        &self.entries[i].0
    }

    pub fn value_at(&self, i: usize) -> (v: &V)
        requires
            i < self.key_seq().len(),
        ensures
            v@ == self.val_seq()[i as int],
            *v == self.entries@[i as int].1,
            self.has_value(*v),
    {
        &self.entries[i].1
    }

    /// Looks a key up.
    pub fn get(&self, k: &str) -> (r: Option<&V>)
        requires
            self.wf(),
        ensures
            match r {
                Some(v) => self@.contains_key(k@) && v@ == self@[k@] && self.has_value(*v),
                None => !self@.contains_key(k@),
            },
    {
        let n = self.entries.len();
        let mut i: usize = 0;
        while i < n
            invariant
                self.wf(),
                i <= n,
                n == self.entries@.len(),
                forall|j: int| 0 <= j < i ==> (#[trigger] self.entries@[j].0@) != k@,
            decreases n - i,
        {
            if str_eq(self.entries[i].0.as_str(), k) {
                proof {
                    lemma_map_of_index(self.entries@, i as int);
                }
                return Some(&self.entries[i].1);
            }
            i = i + 1;
        }
        proof {
            lemma_map_of_contains(self.entries@, k@);
        }
        None
    }

    pub fn contains_key(&self, k: &str) -> (r: bool)
        requires
            self.wf(),
        ensures
            r == self@.contains_key(k@),
    {
        self.get(k).is_some()
    }

    /// Inserts or replaces; the view gains exactly this binding.
    pub fn insert(&mut self, k: String, v: V)
        requires
            old(self).wf(),
        ensures
            final(self).wf(),
            final(self)@ =~= old(self)@.insert(k@, v@),
            forall|x: V|
                #[trigger] final(self).has_value(x) ==> x == v || old(self).has_value(x),
    {
        let ghost gv = v;
        let n = self.entries.len();
        let mut pos: usize = 0;
        while pos < n && str_lt(self.entries[pos].0.as_str(), k.as_str())
            invariant
                self.wf(),
                pos <= n,
                n == self.entries@.len(),
                forall|j: int| 0 <= j < pos ==> lex_lt(#[trigger] self.entries@[j].0@, k@),
            decreases n - pos,
        {
            pos = pos + 1;
        }
        let ghost old_entries = self.entries@;
        let ghost kv = k@;
        if pos < n && str_eq(self.entries[pos].0.as_str(), k.as_str()) {
            proof {
                assert forall|i: int|
                    0 <= i < self.entries@.len() && i != pos implies (#[trigger] self.entries@[i].0@)
                    != k@ by {
                    if i < pos {
                        lemma_lex_trichotomy(self.entries@[i].0@, k@);
                    } else {
                        assert(lex_lt(self.entries@[pos as int].0@, self.entries@[i].0@));
                        lemma_lex_trichotomy(k@, self.entries@[i].0@);
                    }
                }
                lemma_map_of_update_entry(self.entries@, pos as int, k, v);
            }
            let entry = &mut self.entries[pos];
            *entry = (k, v);
            proof {
                assert(self.entries@[pos as int].0@ == kv);
                assert forall|i: int, j: int|
                    0 <= i < j < self.entries@.len() implies lex_lt(
                    #[trigger] self.entries@[i].0@,
                    #[trigger] self.entries@[j].0@,
                ) by {
                    assert(self.entries@[i].0@ == old_entries[i].0@);
                    assert(self.entries@[j].0@ == old_entries[j].0@);
                }
                assert forall|x: V| #[trigger] self.has_value(x) implies x == gv
                    || old(self).has_value(x) by {
                    let i = choose|i: int|
                        0 <= i < self.entries@.len() && self.entries@[i].1 == x;
                    if i != pos {
                        assert(old(self).entries@[i].1 == x);
                    }
                }
            }
        } else {
            proof {
                assert forall|i: int| 0 <= i < self.entries@.len() implies (
                #[trigger] self.entries@[i].0@) != k@ by {
                    if i < pos {
                        lemma_lex_trichotomy(self.entries@[i].0@, k@);
                    } else {
                        // the scan stopped before i: entries[pos] is not below k
                        lemma_lex_trichotomy(k@, self.entries@[pos as int].0@);
                        if i > pos {
                            assert(lex_lt(self.entries@[pos as int].0@, self.entries@[i].0@));
                            lemma_lex_trichotomy(k@, self.entries@[i].0@);
                            lemma_lex_trans(k@, self.entries@[pos as int].0@, self.entries@[i].0@);
                        }
                    }
                }
                lemma_map_of_insert_entry(self.entries@, pos as int, k, v);
            }
            self.entries.insert(pos, (k, v));
            proof {
                assert forall|i: int, j: int|
                    0 <= i < j < self.entries@.len() implies lex_lt(
                    #[trigger] self.entries@[i].0@,
                    #[trigger] self.entries@[j].0@,
                ) by {
                    if i != pos && j != pos {
                        let i0 = if i < pos { i } else { i - 1 };
                        let j0 = if j < pos { j } else { j - 1 };
                        assert(self.entries@[i].0@ == old_entries[i0].0@);
                        assert(self.entries@[j].0@ == old_entries[j0].0@);
                    } else if i == pos {
                        // the new key precedes everything at and after pos
                        let j0 = j - 1;
                        assert(self.entries@[j].0@ == old_entries[j0].0@);
                        lemma_lex_trichotomy(k@, old_entries[pos as int].0@);
                        if j0 > pos {
                            lemma_lex_trans(k@, old_entries[pos as int].0@, old_entries[j0].0@);
                        }
                    } else {
                        let i0 = i;
                        assert(self.entries@[i].0@ == old_entries[i0].0@);
                    }
                }
                assert forall|x: V| #[trigger] self.has_value(x) implies x == gv
                    || old(self).has_value(x) by {
                    let i = choose|i: int|
                        0 <= i < self.entries@.len() && self.entries@[i].1 == x;
                    if i < pos {
                        assert(old(self).entries@[i].1 == x);
                    } else if i > pos {
                        assert(old(self).entries@[i - 1].1 == x);
                    }
                }
            }
        }
    }

    /// Removes a binding and hands its value back.
    pub fn take(&mut self, k: &str) -> (r: Option<V>)
        requires
            old(self).wf(),
        ensures
            final(self).wf(),
            final(self)@ =~= old(self)@.remove(k@),
            forall|x: V| #[trigger] final(self).has_value(x) ==> old(self).has_value(x),
            match r {
                Some(v) => old(self)@.contains_key(k@) && v@ == old(self)@[k@] && old(
                    self,
                ).has_value(v),
                None => !old(self)@.contains_key(k@),
            },
    {
        let n = self.entries.len();
        let mut i: usize = 0;
        while i < n
            invariant
                self.wf(),
                i <= n,
                self.entries@ == old(self).entries@,
                n == self.entries@.len(),
                forall|j: int| 0 <= j < i ==> (#[trigger] self.entries@[j].0@) != k@,
            decreases n - i,
        {
            if str_eq(self.entries[i].0.as_str(), k) {
                proof {
                    lemma_map_of_index(self.entries@, i as int);
                    assert forall|j: int|
                        0 <= j < self.entries@.len() && j != i implies (
                    #[trigger] self.entries@[j].0@) != self.entries@[i as int].0@ by {
                        if j < i {
                            assert(lex_lt(self.entries@[j].0@, self.entries@[i as int].0@));
                            lemma_lex_trichotomy(self.entries@[j].0@, self.entries@[i as int].0@);
                        } else {
                            assert(lex_lt(self.entries@[i as int].0@, self.entries@[j].0@));
                            lemma_lex_trichotomy(self.entries@[i as int].0@, self.entries@[j].0@);
                        }
                    }
                    lemma_map_of_remove_entry(self.entries@, i as int);
                }
                let ghost old_entries = self.entries@;
                let (_, v) = self.entries.remove(i);
                proof {
                    assert forall|x: int, y: int|
                        0 <= x < y < self.entries@.len() implies lex_lt(
                        #[trigger] self.entries@[x].0@,
                        #[trigger] self.entries@[y].0@,
                    ) by {
                        let x0 = if x < i { x } else { x + 1 };
                        let y0 = if y < i { y } else { y + 1 };
                        assert(self.entries@[x].0@ == old_entries[x0].0@);
                        assert(self.entries@[y].0@ == old_entries[y0].0@);
                    }
                    assert forall|x: V| #[trigger] self.has_value(x) implies old(
                        self,
                    ).has_value(x) by {
                        let j = choose|j: int|
                            0 <= j < self.entries@.len() && self.entries@[j].1 == x;
                        if j < i {
                            assert(old(self).entries@[j].1 == x);
                        } else {
                            assert(old(self).entries@[j + 1].1 == x);
                        }
                    }
                }
                return Some(v);
            }
            i = i + 1;
        }
        proof {
            lemma_map_of_contains(self.entries@, k@);
            assert(old(self)@.remove(k@) =~= old(self)@);
        }
        None
    }

    /// Removes a binding, dropping its value.
    pub fn remove(&mut self, k: &str)
        requires
            old(self).wf(),
        ensures
            final(self).wf(),
            final(self)@ =~= old(self)@.remove(k@),
            forall|x: V| #[trigger] final(self).has_value(x) ==> old(self).has_value(x),
    {
        let _ = self.take(k);
    }

    /// All keys, in increasing lexicographic order.
    pub fn keys(&self) -> (r: Vec<String>)
        ensures
            r@.len() == self.key_seq().len(),
            forall|i: int| 0 <= i < r@.len() ==> (#[trigger] r@[i]@) == self.key_seq()[i],
    {
        let n = self.entries.len();
        let mut r: Vec<String> = Vec::new();
        let mut i: usize = 0;
        while i < n
            invariant
                i <= n,
                n == self.entries@.len(),
                r@.len() == i,
                forall|j: int| 0 <= j < i ==> (#[trigger] r@[j]@) == self.key_seq()[j],
            decreases n - i,
        {
            let k = self.entries[i].0.clone();
            proof {
                assert(k@ == self.entries@[i as int].0@);
            }
            r.push(k);
            i = i + 1;
        }
        r
    }
}

} // verus!
