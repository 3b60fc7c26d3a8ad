use vstd::prelude::*;

use crate::text::same;

verus! {

/// The map that a list of pairs stands for: a later pair takes the place of an
/// earlier one with the same key.
pub open spec fn pairs_map(e: Seq<(String, String)>) -> Map<Seq<char>, Seq<char>>
    decreases e.len(),
{
    if e.len() == 0 {
        Map::empty()
    } else {
        pairs_map(e.drop_last()).insert(e.last().0@, e.last().1@)
    }
}

/// No key occurs twice.
pub open spec fn distinct_keys(e: Seq<(String, String)>) -> bool {
    forall|i: int, j: int| 0 <= i < j < e.len() ==> #[trigger] e[i].0@ != #[trigger] e[j].0@
}

/// A table from texts to texts.
pub struct Table {
    entries: Vec<(String, String)>,
}

impl View for Table {
    type V = Map<Seq<char>, Seq<char>>;

    closed spec fn view(&self) -> Map<Seq<char>, Seq<char>> {
        pairs_map(self.entries@)
    }
}

/// What a list of pairs with distinct keys holds.
pub proof fn lemma_pairs_map(e: Seq<(String, String)>)
    requires
        distinct_keys(e),
    ensures
        forall|i: int|
            0 <= i < e.len() ==> #[trigger] pairs_map(e).contains_key(e[i].0@) && pairs_map(
                e,
            )[e[i].0@] == e[i].1@,
        forall|k: Seq<char>| #[trigger]
            pairs_map(e).contains_key(k) ==> exists|i: int|
                0 <= i < e.len() && #[trigger] e[i].0@ == k,
    decreases e.len(),
{
    if e.len() > 0 {
        let f = e.drop_last();
        assert forall|i: int, j: int| 0 <= i < j < f.len() implies #[trigger] f[i].0@
            != #[trigger] f[j].0@ by {
            assert(e[i].0@ != e[j].0@);
        }
        lemma_pairs_map(f);
        let n = e.len() - 1;
        assert forall|i: int| 0 <= i < e.len() implies #[trigger] pairs_map(e).contains_key(
            e[i].0@,
        ) && pairs_map(e)[e[i].0@] == e[i].1@ by {
            if i < n {
                assert(f[i] == e[i]);
                assert(e[i].0@ != e[n].0@);
                assert(pairs_map(f).contains_key(f[i].0@));
            }
        }
        assert forall|k: Seq<char>| #[trigger] pairs_map(e).contains_key(k) implies exists|i: int|
            0 <= i < e.len() && #[trigger] e[i].0@ == k by {
            if k == e[n].0@ {
            } else {
                assert(pairs_map(f).contains_key(k));
                let i = choose|i: int| 0 <= i < f.len() && #[trigger] f[i].0@ == k;
                assert(e[i].0@ == k);
            }
        }
    }
}

impl Table {
    /// No key stands in the table twice.
    pub closed spec fn wf(&self) -> bool {
        distinct_keys(self.entries@)
    }

    /// The table with nothing in it.
    pub fn empty() -> (table: Table)
        ensures
            table.wf(),
            table@ == Map::<Seq<char>, Seq<char>>::empty(),
    {
        Table { entries: Vec::new() }
    }

    /// The table that a list of pairs stands for; a later pair takes the place
    /// of an earlier one with the same key.
    pub fn of(pairs: Vec<(String, String)>) -> (table: Table)
        ensures
            table.wf(),
            table@ == pairs_map(pairs@),
    {
        let mut table = Table::empty();
        for i in 0..pairs.len()
            invariant
                table.wf(),
                table@ == pairs_map(pairs@.take(i as int)),
        {
            proof {
                assert(pairs@.take(i + 1).drop_last() =~= pairs@.take(i as int));
            }
            table.put(pairs[i].0.clone(), pairs[i].1.clone());
        }
        proof {
            assert(pairs@.take(pairs@.len() as int) =~= pairs@);
        }
        table
    }

    fn position(&self, key: &str) -> (r: Option<usize>)
        requires
            self.wf(),
        ensures
            match r {
                Some(i) => i < self.entries@.len() && self.entries@[i as int].0@ == key@
                    && self@.contains_key(key@) && self@[key@] == self.entries@[i as int].1@,
                None => !self@.contains_key(key@),
            },
    {
        proof {
            lemma_pairs_map(self.entries@);
        }
        for i in 0..self.entries.len()
            invariant
                self.wf(),
                forall|j: int| 0 <= j < i ==> #[trigger] self.entries@[j].0@ != key@,
        {
            if same(self.entries[i].0.as_str(), key) {
                proof {
                    lemma_pairs_map(self.entries@);
                    assert(self@.contains_key(self.entries@[i as int].0@));
                }
                return Some(i);
            }
        }
        None
    }

    /// What stands under `key`.
    pub fn get(&self, key: &str) -> (r: Option<String>)
        requires
            self.wf(),
        ensures
            match r {
                Some(value) => self@.contains_key(key@) && value@ == self@[key@],
                None => !self@.contains_key(key@),
            },
    {
        match self.position(key) {
            Some(i) => Some(self.entries[i].1.clone()),
            None => None,
        }
    }

    /// Take out what stands under `key`.
    pub fn take(&mut self, key: &str)
        requires
            old(self).wf(),
        ensures
            final(self).wf(),
            final(self)@ == old(self)@.remove(key@),
    {
        let ghost m = self@;
        match self.position(key) {
            Some(i) => {
                let ghost e = self.entries@;
                let dropped = self.entries.remove(i);
                proof {
                    let f = self.entries@;
                    assert forall|a: int, b: int| 0 <= a < b < f.len() implies #[trigger] f[a].0@
                        != #[trigger] f[b].0@ by {
                        let x = if a < i { a } else { a + 1 };
                        let y = if b < i { b } else { b + 1 };
                        assert(f[a] == e[x] && f[b] == e[y]);
                        assert(e[x].0@ != e[y].0@);
                    }
                    lemma_pairs_map(e);
                    lemma_pairs_map(f);
                    let n = pairs_map(f);
                    assert forall|k: Seq<char>| n.contains_key(k) <==> #[trigger] m.remove(
                        key@,
                    ).contains_key(k) by {
                        if n.contains_key(k) {
                            let a = choose|a: int| 0 <= a < f.len() && #[trigger] f[a].0@ == k;
                            let x = if a < i { a } else { a + 1 };
                            assert(f[a] == e[x]);
                            assert(m.contains_key(e[x].0@));
                            if x < i {
                                assert(e[x].0@ != e[i as int].0@);
                            } else {
                                assert(e[i as int].0@ != e[x].0@);
                            }
                        }
                        if m.contains_key(k) && k != key@ {
                            let x = choose|x: int| 0 <= x < e.len() && #[trigger] e[x].0@ == k;
                            let a = if x < i { x } else { x - 1 };
                            assert(f[a] == e[x]);
                            assert(n.contains_key(f[a].0@));
                        }
                    }
                    assert forall|k: Seq<char>| #[trigger] n.contains_key(k) implies n[k]
                        == m[k] by {
                        let a = choose|a: int| 0 <= a < f.len() && #[trigger] f[a].0@ == k;
                        let x = if a < i { a } else { a + 1 };
                        assert(f[a] == e[x]);
                        assert(n.contains_key(f[a].0@));
                        assert(m.contains_key(e[x].0@));
                    }
                    assert(n =~= m.remove(key@));
                }
            },
            None => {
                proof {
                    assert(m =~= m.remove(key@));
                }
            },
        }
    }

    /// Put `value` under `key`, in the place of what stood there.
    pub fn put(&mut self, key: String, value: String)
        requires
            old(self).wf(),
        ensures
            final(self).wf(),
            final(self)@ == old(self)@.insert(key@, value@),
    {
        let ghost m = self@;
        self.take(key.as_str());
        let ghost e = self.entries@;
        let ghost k0 = key@;
        let ghost v0 = value@;
        self.entries.push((key, value));
        proof {
            lemma_pairs_map(e);
            let f = self.entries@;
            assert(f.drop_last() =~= e);
            assert forall|a: int, b: int| 0 <= a < b < f.len() implies #[trigger] f[a].0@
                != #[trigger] f[b].0@ by {
                if b == e.len() {
                    assert(f[a] == e[a]);
                    assert(pairs_map(e).contains_key(e[a].0@));
                } else {
                    assert(f[a] == e[a] && f[b] == e[b]);
                    assert(e[a].0@ != e[b].0@);
                }
            }
            assert(m.remove(k0).insert(k0, v0) =~= m.insert(k0, v0));
        }
    }

    /// Whether `value` stands under any key.
    pub fn holds_value(&self, value: &str) -> (r: bool)
        requires
            self.wf(),
        ensures
            r == self@.contains_value(value@),
    {
        proof {
            lemma_pairs_map(self.entries@);
        }
        for i in 0..self.entries.len()
            invariant
                self.wf(),
                forall|j: int| 0 <= j < i ==> #[trigger] self.entries@[j].1@ != value@,
        {
            if same(self.entries[i].1.as_str(), value) {
                proof {
                    lemma_pairs_map(self.entries@);
                    let k = self.entries@[i as int].0@;
                    assert(pairs_map(self.entries@).contains_key(self.entries@[i as int].0@));
                    assert(self@.contains_key(k) && self@[k] == value@);
                }
                return true;
            }
        }
        proof {
            assert forall|k: Seq<char>| #[trigger] self@.contains_key(k) implies self@[k]
                != value@ by {
                let i = choose|i: int| 0 <= i < self.entries@.len() && #[trigger] self.entries@[i].0@ == k;
                assert(self@.contains_key(self.entries@[i].0@));
                assert(self.entries@[i].1@ != value@);
            }
        }
        false
    }

    /// The pairs, in no particular order.
    pub fn pairs(&self) -> (r: &Vec<(String, String)>)
        requires
            self.wf(),
        ensures
            distinct_keys(r@),
            pairs_map(r@) == self@,
    {
        &self.entries
    }
}

} // verus!
