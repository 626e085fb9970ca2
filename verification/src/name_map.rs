//! A map keyed by text whose entries are kept in key order.

use vstd::prelude::*;
use crate::order::{
    lemma_lex_asymmetric, lemma_lex_irreflexive, lemma_lex_total, lemma_lex_transitive, lex_lt,
    str_lt,
};
use crate::text::str_eq;

verus! {

/// A map from names to values, kept in ascending order of the names.
#[derive(Debug)]
pub struct NameMap<V> {
    rows: Vec<(String, V)>,
}

/// Each text of `ks` comes strictly before those after it.
pub open spec fn strictly_ascending(ks: Seq<Seq<char>>) -> bool {
    forall|i: int, j: int| 0 <= i < j < ks.len() ==> lex_lt(#[trigger] ks[i], #[trigger] ks[j])
}

/// The keys of `rows` ascend strictly.
spec fn ascending<V>(rows: Seq<(String, V)>) -> bool {
    forall|i: int, j: int|
        0 <= i < j < rows.len() ==> lex_lt(#[trigger] rows[i].0@, #[trigger] rows[j].0@)
}

/// `k` is the key of row `i`.
spec fn key_at<V>(rows: Seq<(String, V)>, i: int, k: Seq<char>) -> bool {
    0 <= i < rows.len() && rows[i].0@ == k
}

/// The map that `rows` stand for.
spec fn map_of<V>(rows: Seq<(String, V)>) -> Map<Seq<char>, V> {
    Map::new(
        |k: Seq<char>| exists|i: int| key_at(rows, i, k),
        |k: Seq<char>| rows[choose|i: int| key_at(rows, i, k)].1,
    )
}

proof fn lemma_row<V>(rows: Seq<(String, V)>, i: int)
    requires
        ascending(rows),
        0 <= i < rows.len(),
    ensures
        map_of(rows).dom().contains(rows[i].0@),
        map_of(rows)[rows[i].0@] == rows[i].1,
{
    let k = rows[i].0@;
    assert(key_at(rows, i, k));
    let c = choose|c: int| key_at(rows, c, k);
    lemma_lex_irreflexive(k);
    if c < i {
        assert(lex_lt(rows[c].0@, rows[i].0@));
    } else if i < c {
        assert(lex_lt(rows[i].0@, rows[c].0@));
    }
}

impl<V> View for NameMap<V> {
    type V = Map<Seq<char>, V>;

    closed spec fn view(&self) -> Map<Seq<char>, V> {
        map_of(self.rows@)
    }
}

impl<V> NameMap<V> {
    #[verifier::type_invariant]
    spec fn well_formed(self) -> bool {
        ascending(self.rows@)
    }

    /// The keys, in ascending order.
    pub closed spec fn keys(self) -> Seq<Seq<char>> {
        self.rows@.map_values(|r: (String, V)| r.0@)
    }

    /// The empty map.
    pub fn new() -> (r: NameMap<V>)
        ensures
            r@ == Map::<Seq<char>, V>::empty(),
            r.keys() == Seq::<Seq<char>>::empty(),
    {
        let r = NameMap { rows: Vec::new() };
        proof {
            assert forall|k: Seq<char>| !r@.dom().contains(k) by {
                assert(forall|i: int| !key_at(r.rows@, i, k));
            }
            assert(r@ =~= Map::<Seq<char>, V>::empty());
            assert(r.keys() =~= Seq::<Seq<char>>::empty());
        }
        r
    }

    /// The number of entries; the keys ascend strictly and are those of the map.
    pub fn len(&self) -> (n: usize)
        ensures
            n == self.keys().len(),
            strictly_ascending(self.keys()),
            forall|k: Seq<char>| #[trigger] self@.dom().contains(k) <==> self.keys().contains(k),
    {
        proof {
            use_type_invariant(self);
            let ks = self.keys();
            assert forall|k: Seq<char>| #[trigger] self@.dom().contains(k) <==> ks.contains(k) by {
                if self@.dom().contains(k) {
                    let i = choose|i: int| key_at(self.rows@, i, k);
                    assert(ks[i] == k);
                }
                if ks.contains(k) {
                    let i = choose|i: int| 0 <= i < ks.len() && ks[i] == k;
                    assert(key_at(self.rows@, i, k));
                }
            }
        }
        self.rows.len()
    }

    /// The key and the value at place `i` of the key order.
    pub fn at(&self, i: usize) -> (r: (&String, &V))
        requires
            i < self.keys().len(),
        ensures
            r.0@ == self.keys()[i as int],
            self@.dom().contains(r.0@),
            self@[r.0@] == *r.1,
    {
        proof {
            use_type_invariant(self);
            lemma_row(self.rows@, i as int);
        }
        let row = &self.rows[i];
        (&row.0, &row.1)
    }

    /// The first place whose key does not come before `name`.
    fn place(rows: &Vec<(String, V)>, name: &str) -> (pos: usize)
        ensures
            pos <= rows@.len(),
            forall|i: int| 0 <= i < pos ==> lex_lt(#[trigger] rows@[i].0@, name@),
            pos < rows@.len() ==> !lex_lt(rows@[pos as int].0@, name@),
    {
        let mut pos: usize = 0;
        while pos < rows.len() && str_lt(rows[pos].0.as_str(), name)
            invariant
                pos <= rows@.len(),
                forall|i: int| 0 <= i < pos ==> lex_lt(#[trigger] rows@[i].0@, name@),
            decreases rows@.len() - pos,
        {
            pos = pos + 1;
        }
        pos
    }

    /// The value under `name`.
    pub fn get(&self, name: &str) -> (r: Option<&V>)
        ensures
            match r {
                Some(v) => self@.dom().contains(name@) && self@[name@] == *v,
                None => !self@.dom().contains(name@),
            },
    {
        proof {
            use_type_invariant(self);
        }
        let pos: usize = Self::place(&self.rows, name);
        if pos < self.rows.len() && str_eq(self.rows[pos].0.as_str(), name) {
            proof {
                lemma_row(self.rows@, pos as int);
            }
            Some(&self.rows[pos].1)
        } else {
            proof {
                lemma_absent(self.rows@, pos as int, name@);
            }
            None
        }
    }

    /// Whether `name` has an entry.
    pub fn contains(&self, name: &str) -> (r: bool)
        ensures
            r == self@.dom().contains(name@),
    {
        self.get(name).is_some()
    }

    /// Puts `value` under `name`, in place of what was there.
    pub fn insert(&mut self, name: String, value: V)
        ensures
            final(self)@ == old(self)@.insert(name@, value),
    {
        proof {
            use_type_invariant(&*self);
        }
        let ghost before = self.rows@;
        let mut rows: Vec<(String, V)> = Vec::new();
        std::mem::swap(&mut rows, &mut self.rows);
        let pos: usize = Self::place(&rows, name.as_str());
        if pos < rows.len() && str_eq(rows[pos].0.as_str(), name.as_str()) {
            let ghost n = name;
            rows[pos] = (name, value);
            proof {
                assert(rows@ =~= before.update(pos as int, (n, value)));
                lemma_update(before, pos as int, (n, value));
            }
        } else {
            proof {
                lemma_insert(before, pos as int, (name, value));
            }
            rows.insert(pos, (name, value));
        }
        self.rows = rows;
    }

    /// Takes the entry of `name` out.
    pub fn remove(&mut self, name: &str)
        ensures
            final(self)@ == old(self)@.remove(name@),
    {
        proof {
            use_type_invariant(&*self);
        }
        let ghost before = self.rows@;
        let mut rows: Vec<(String, V)> = Vec::new();
        std::mem::swap(&mut rows, &mut self.rows);
        let pos: usize = Self::place(&rows, name);
        if pos < rows.len() && str_eq(rows[pos].0.as_str(), name) {
            proof {
                lemma_remove(before, pos as int);
            }
            let _gone = rows.remove(pos);
        } else {
            proof {
                lemma_absent(before, pos as int, name@);
                assert(map_of(before).remove(name@) =~= map_of(before));
            }
        }
        self.rows = rows;
    }
}

proof fn lemma_absent<V>(rows: Seq<(String, V)>, pos: int, k: Seq<char>)
    requires
        ascending(rows),
        0 <= pos <= rows.len(),
        forall|i: int| 0 <= i < pos ==> lex_lt(#[trigger] rows[i].0@, k),
        pos < rows.len() ==> !lex_lt(rows[pos].0@, k) && rows[pos].0@ != k,
    ensures
        !map_of(rows).dom().contains(k),
        pos < rows.len() ==> lex_lt(k, rows[pos].0@),
        forall|i: int| pos <= i < rows.len() ==> lex_lt(k, #[trigger] rows[i].0@),
{
    if pos < rows.len() {
        lemma_lex_total(rows[pos].0@, k);
        assert forall|i: int| pos <= i < rows.len() implies lex_lt(k, #[trigger] rows[i].0@) by {
            if i > pos {
                assert(lex_lt(rows[pos].0@, rows[i].0@));
                lemma_lex_transitive(k, rows[pos].0@, rows[i].0@);
            }
        }
    }
    lemma_lex_irreflexive(k);
    if exists|i: int| key_at(rows, i, k) {
        let i = choose|i: int| key_at(rows, i, k);
        if i < pos {
            assert(lex_lt(rows[i].0@, k));
        } else {
            assert(lex_lt(k, rows[i].0@));
        }
    }
}

proof fn lemma_update<V>(rows: Seq<(String, V)>, pos: int, row: (String, V))
    requires
        ascending(rows),
        0 <= pos < rows.len(),
        rows[pos].0@ == row.0@,
    ensures
        ascending(rows.update(pos, row)),
        map_of(rows.update(pos, row)) == map_of(rows).insert(row.0@, row.1),
{
    let r = rows.update(pos, row);
    assert forall|i: int, j: int| 0 <= i < j < r.len() implies lex_lt(
        #[trigger] r[i].0@,
        #[trigger] r[j].0@,
    ) by {
        assert(lex_lt(rows[i].0@, rows[j].0@));
    }
    lemma_row(r, pos);
    assert forall|k: Seq<char>|
        map_of(r).dom().contains(k) == map_of(rows).insert(row.0@, row.1).dom().contains(k) by {
        if exists|i: int| key_at(r, i, k) {
            let i = choose|i: int| key_at(r, i, k);
            assert(key_at(rows, i, k));
        }
        if exists|i: int| key_at(rows, i, k) {
            let i = choose|i: int| key_at(rows, i, k);
            assert(key_at(r, i, k));
        }
    }
    assert forall|k: Seq<char>| map_of(r).dom().contains(k) implies map_of(r)[k]
        == map_of(rows).insert(row.0@, row.1)[k] by {
        let i = choose|i: int| key_at(r, i, k);
        lemma_row(r, i);
        lemma_row(rows, i);
        if k == row.0@ && i != pos {
            lemma_lex_irreflexive(k);
            if i < pos {
                assert(lex_lt(r[i].0@, r[pos].0@));
            } else {
                assert(lex_lt(r[pos].0@, r[i].0@));
            }
        }
    }
    assert(map_of(r) =~= map_of(rows).insert(row.0@, row.1));
}

proof fn lemma_insert<V>(rows: Seq<(String, V)>, pos: int, row: (String, V))
    requires
        ascending(rows),
        0 <= pos <= rows.len(),
        forall|i: int| 0 <= i < pos ==> lex_lt(#[trigger] rows[i].0@, row.0@),
        pos < rows.len() ==> !lex_lt(rows[pos].0@, row.0@) && rows[pos].0@ != row.0@,
    ensures
        ascending(rows.insert(pos, row)),
        map_of(rows.insert(pos, row)) == map_of(rows).insert(row.0@, row.1),
{
    let r = rows.insert(pos, row);
    let name = row.0@;
    lemma_absent(rows, pos, name);
    assert forall|i: int, j: int| 0 <= i < j < r.len() implies lex_lt(
        #[trigger] r[i].0@,
        #[trigger] r[j].0@,
    ) by {
        if i < pos && j < pos {
            assert(lex_lt(rows[i].0@, rows[j].0@));
        } else if i < pos && j == pos {
            assert(lex_lt(rows[i].0@, name));
        } else if i < pos {
            assert(lex_lt(rows[i].0@, rows[j - 1].0@));
        } else if i == pos {
            assert(lex_lt(name, rows[j - 1].0@));
        } else {
            assert(lex_lt(rows[i - 1].0@, rows[j - 1].0@));
        }
    }
    lemma_row(r, pos);
    assert forall|k: Seq<char>|
        map_of(r).dom().contains(k) == map_of(rows).insert(name, row.1).dom().contains(k) by {
        if exists|i: int| key_at(r, i, k) {
            let i = choose|i: int| key_at(r, i, k);
            if i < pos {
                assert(key_at(rows, i, k));
            } else if i > pos {
                assert(key_at(rows, i - 1, k));
            }
        }
        if exists|i: int| key_at(rows, i, k) {
            let i = choose|i: int| key_at(rows, i, k);
            if i < pos {
                assert(key_at(r, i, k));
            } else {
                assert(key_at(r, i + 1, k));
            }
        }
    }
    assert forall|k: Seq<char>| map_of(r).dom().contains(k) implies map_of(r)[k] == map_of(
        rows,
    ).insert(name, row.1)[k] by {
        let i = choose|i: int| key_at(r, i, k);
        lemma_row(r, i);
        if k == name {
            if i < pos {
                lemma_lex_asymmetric(rows[i].0@, name);
            } else if i > pos {
                lemma_lex_asymmetric(name, rows[i - 1].0@);
            }
        } else if i < pos {
            lemma_row(rows, i);
        } else {
            lemma_row(rows, i - 1);
        }
    }
    assert(map_of(r) =~= map_of(rows).insert(name, row.1));
}

proof fn lemma_remove<V>(rows: Seq<(String, V)>, pos: int)
    requires
        ascending(rows),
        0 <= pos < rows.len(),
    ensures
        ascending(rows.remove(pos)),
        map_of(rows.remove(pos)) == map_of(rows).remove(rows[pos].0@),
{
    let r = rows.remove(pos);
    let name = rows[pos].0@;
    assert forall|i: int, j: int| 0 <= i < j < r.len() implies lex_lt(
        #[trigger] r[i].0@,
        #[trigger] r[j].0@,
    ) by {
        let a = if i < pos {
            i
        } else {
            i + 1
        };
        let b = if j < pos {
            j
        } else {
            j + 1
        };
        assert(lex_lt(rows[a].0@, rows[b].0@));
    }
    assert forall|k: Seq<char>|
        map_of(r).dom().contains(k) == map_of(rows).remove(name).dom().contains(k) by {
        if exists|i: int| key_at(r, i, k) {
            let i = choose|i: int| key_at(r, i, k);
            let a = if i < pos {
                i
            } else {
                i + 1
            };
            assert(key_at(rows, a, k));
            lemma_lex_irreflexive(k);
            if a < pos {
                assert(lex_lt(rows[a].0@, rows[pos].0@));
            } else {
                assert(lex_lt(rows[pos].0@, rows[a].0@));
            }
        }
        if k != name && exists|i: int| key_at(rows, i, k) {
            let i = choose|i: int| key_at(rows, i, k);
            if i < pos {
                assert(key_at(r, i, k));
            } else {
                assert(key_at(r, i - 1, k));
            }
        }
    }
    assert forall|k: Seq<char>| map_of(r).dom().contains(k) implies map_of(r)[k] == map_of(
        rows,
    ).remove(name)[k] by {
        let i = choose|i: int| key_at(r, i, k);
        lemma_row(r, i);
        if i < pos {
            lemma_row(rows, i);
        } else {
            lemma_row(rows, i + 1);
        }
    }
    assert(map_of(r) =~= map_of(rows).remove(name));
}

} // verus!
