//! Names, their order, and tables keyed by name.
//!
//! A table maps a project name to a text (a branch, or a commit identifier).
//! It is stored as a vector of pairs kept strictly increasing by name, so that
//! no name occurs twice and the entries always come out in the same order.

use vstd::prelude::*;

verus! {

/// A name paired with the text that a table holds for it, both by view.
pub type Pair = (Seq<char>, Seq<char>);

/// The order of names: lexicographic by code point, a proper prefix first.
pub open spec fn name_lt(a: Seq<char>, b: Seq<char>) -> bool
    decreases a.len(),
{
    if b.len() == 0 {
        false
    } else if a.len() == 0 {
        true
    } else if a[0] == b[0] {
        name_lt(a.drop_first(), b.drop_first())
    } else {
        (a[0] as int) < (b[0] as int)
    }
}

/// No name comes before itself.
pub proof fn lemma_name_lt_irreflexive(a: Seq<char>)
    ensures
        !name_lt(a, a),
    decreases a.len(),
{
    if a.len() > 0 {
        lemma_name_lt_irreflexive(a.drop_first());
    }
}

/// The order of names is transitive.
pub proof fn lemma_name_lt_transitive(a: Seq<char>, b: Seq<char>, c: Seq<char>)
    requires
        name_lt(a, b),
        name_lt(b, c),
    ensures
        name_lt(a, c),
    decreases a.len(),
{
    if a.len() > 0 && a[0] == b[0] && b[0] == c[0] {
        lemma_name_lt_transitive(a.drop_first(), b.drop_first(), c.drop_first());
    }
}

/// Of two different names one comes before the other.
pub proof fn lemma_name_lt_total(a: Seq<char>, b: Seq<char>)
    requires
        a != b,
    ensures
        name_lt(a, b) || name_lt(b, a),
    decreases a.len(),
{
    if a.len() > 0 && b.len() > 0 && a[0] == b[0] {
        if a.drop_first() == b.drop_first() {
            assert(a =~= seq![a[0]] + a.drop_first());
            assert(b =~= seq![b[0]] + b.drop_first());
        }
        lemma_name_lt_total(a.drop_first(), b.drop_first());
    } else if a.len() == 0 && b.len() == 0 {
        assert(a =~= b);
    }
}

/// Whether `a` comes strictly before `b` in the order of names.
pub fn name_before(a: &str, b: &str) -> (r: bool)
    ensures
        r == name_lt(a@, b@),
{
    let la: usize = a.unicode_len();
    let lb: usize = b.unicode_len();
    let mut i: usize = 0;
    proof {
        assert(a@.skip(0) =~= a@);
        assert(b@.skip(0) =~= b@);
    }
    while i < la && i < lb
        invariant
            la == a@.len(),
            lb == b@.len(),
            i <= la,
            i <= lb,
            name_lt(a@, b@) == name_lt(a@.skip(i as int), b@.skip(i as int)),
        decreases la - i,
    {
        let ca: char = a.get_char(i);
        let cb: char = b.get_char(i);
        proof {
            assert(a@.skip(i as int).drop_first() =~= a@.skip(i as int + 1));
            assert(b@.skip(i as int).drop_first() =~= b@.skip(i as int + 1));
            assert(a@.skip(i as int)[0] == ca);
            assert(b@.skip(i as int)[0] == cb);
        }
        if ca != cb {
            return (ca as u32) < (cb as u32);
        }
        i = i + 1;
    }
    i < lb
}

/// Whether two names are the same text.
pub fn same_name(a: &str, b: &str) -> (r: bool)
    ensures
        r == (a@ == b@),
{
    let before: bool = name_before(a, b);
    let after: bool = name_before(b, a);
    proof {
        if a@ == b@ {
            lemma_name_lt_irreflexive(a@);
        } else {
            lemma_name_lt_total(a@, b@);
        }
    }
    !before && !after
}

/// The pairs of a vector of entries, each string by its view.
pub open spec fn pairs_of(v: Seq<(String, String)>) -> Seq<Pair> {
    Seq::new(v.len(), |i: int| (v[i].0@, v[i].1@))
}

/// The names increase strictly from each pair to the next.
pub open spec fn increasing(es: Seq<Pair>) -> bool {
    forall|i: int, j: int| 0 <= i < j < es.len() ==> name_lt(#[trigger] es[i].0, #[trigger] es[j].0)
}

/// Some pair of `es` carries the name `k`.
pub open spec fn has_name(es: Seq<Pair>, k: Seq<char>) -> bool {
    exists|i: int| 0 <= i < es.len() && (#[trigger] es[i]).0 == k
}

/// The place of a pair that carries the name `k`.
pub open spec fn place_of(es: Seq<Pair>, k: Seq<char>) -> int {
    choose|i: int| 0 <= i < es.len() && (#[trigger] es[i]).0 == k
}

/// The mapping that pairs with distinct names stand for.
pub open spec fn table_of(es: Seq<Pair>) -> Map<Seq<char>, Seq<char>> {
    Map::new(|k: Seq<char>| has_name(es, k), |k: Seq<char>| es[place_of(es, k)].1)
}

/// The mapping built by entering the pairs one after the other, a later pair
/// replacing an earlier one of the same name.
pub open spec fn collected(es: Seq<Pair>) -> Map<Seq<char>, Seq<char>>
    decreases es.len(),
{
    if es.len() == 0 {
        Map::empty()
    } else {
        collected(es.drop_last()).insert(es.last().0, es.last().1)
    }
}

/// In an increasing sequence no name occurs twice.
pub proof fn lemma_increasing_distinct(es: Seq<Pair>, i: int, j: int)
    requires
        increasing(es),
        0 <= i < es.len(),
        0 <= j < es.len(),
        es[i].0 == es[j].0,
    ensures
        i == j,
{
    lemma_name_lt_irreflexive(es[i].0);
}

/// In an increasing sequence each pair's name maps to that pair's text.
pub proof fn lemma_table_of_entry(es: Seq<Pair>, i: int)
    requires
        increasing(es),
        0 <= i < es.len(),
    ensures
        table_of(es).contains_key(es[i].0),
        table_of(es)[es[i].0] == es[i].1,
{
    lemma_increasing_distinct(es, i, place_of(es, es[i].0));
}

/// Putting a pair with a new name at its place enters it into the mapping.
pub proof fn lemma_table_of_insert(es: Seq<Pair>, p: int, e: Pair)
    requires
        0 <= p <= es.len(),
        increasing(es),
        increasing(es.insert(p, e)),
    ensures
        table_of(es.insert(p, e)) == table_of(es).insert(e.0, e.1),
{
    let after = es.insert(p, e);
    assert forall|k: Seq<char>| has_name(after, k) <==> (k == e.0 || has_name(es, k)) by {
        if has_name(after, k) {
            let j = place_of(after, k);
            if j < p {
                assert(es[j].0 == k);
            } else if j > p {
                assert(es[j - 1].0 == k);
            }
        }
        if k == e.0 {
            assert(after[p].0 == k);
        }
        if has_name(es, k) {
            let i = place_of(es, k);
            if i < p {
                assert(after[i].0 == k);
            } else {
                assert(after[i + 1].0 == k);
            }
        }
    }
    assert forall|k: Seq<char>| has_name(after, k) implies #[trigger] table_of(after)[k]
        == table_of(es).insert(e.0, e.1)[k] by {
        let j = place_of(after, k);
        if k == e.0 {
            lemma_increasing_distinct(after, j, p);
        } else {
            let i = if j < p { j } else { j - 1 };
            assert(after[p].0 == e.0);
            assert(es[i] == after[j]);
            lemma_increasing_distinct(es, i, place_of(es, k));
        }
    }
    assert(table_of(after) =~= table_of(es).insert(e.0, e.1));
}

/// Replacing the text of a pair replaces what its name maps to.
pub proof fn lemma_table_of_update(es: Seq<Pair>, p: int, text: Seq<char>)
    requires
        0 <= p < es.len(),
        increasing(es),
    ensures
        increasing(es.update(p, (es[p].0, text))),
        table_of(es.update(p, (es[p].0, text))) == table_of(es).insert(es[p].0, text),
{
    let after = es.update(p, (es[p].0, text));
    assert forall|i: int, j: int| 0 <= i < j < after.len() implies name_lt(
        #[trigger] after[i].0,
        #[trigger] after[j].0,
    ) by {
        assert(after[i].0 == es[i].0);
        assert(after[j].0 == es[j].0);
    }
    assert forall|k: Seq<char>| has_name(after, k) <==> (k == es[p].0 || has_name(es, k)) by {
        if has_name(after, k) {
            let j = place_of(after, k);
            assert(es[j].0 == k);
        }
        if k == es[p].0 {
            assert(after[p].0 == k);
        }
        if has_name(es, k) {
            let i = place_of(es, k);
            assert(after[i].0 == k);
        }
    }
    assert forall|k: Seq<char>| has_name(after, k) implies #[trigger] table_of(after)[k]
        == table_of(es).insert(es[p].0, text)[k] by {
        let j = place_of(after, k);
        assert(es[j].0 == k);
        if k == es[p].0 {
            lemma_increasing_distinct(after, j, p);
        } else {
            lemma_increasing_distinct(es, j, place_of(es, k));
        }
    }
    assert(table_of(after) =~= table_of(es).insert(es[p].0, text));
}

/// A mapping from names to texts, kept as pairs in increasing order of name.
#[derive(Clone, Debug, PartialEq, Eq)]
pub struct NameTable {
    entries: Vec<(String, String)>,
}

impl NameTable {
    /// The pairs in the order in which they are held.
    pub closed spec fn pairs(&self) -> Seq<Pair> {
        pairs_of(self.entries@)
    }

    /// The invariant: the names increase strictly, so none occurs twice.
    pub open spec fn wf(&self) -> bool {
        increasing(self.pairs())
    }

    /// The mapping that the table stands for.
    pub open spec fn view(&self) -> Map<Seq<char>, Seq<char>> {
        table_of(self.pairs())
    }

    /// The empty table.
    pub fn new() -> (r: NameTable)
        ensures
            r.wf(),
            r.pairs() == Seq::<Pair>::empty(),
            r@ == Map::<Seq<char>, Seq<char>>::empty(),
    {
        let r = NameTable { entries: Vec::new() };
        proof {
            assert(r.pairs() =~= Seq::<Pair>::empty());
            assert(r@ =~= Map::<Seq<char>, Seq<char>>::empty());
        }
        r
    }

    /// The number of names.
    pub fn len(&self) -> (n: usize)
        ensures
            n == self.pairs().len(),
    {
        self.entries.len()
    }

    /// The pairs, in increasing order of name.
    pub fn entries(&self) -> (v: &Vec<(String, String)>)
        ensures
            pairs_of(v@) == self.pairs(),
            self.wf() ==> increasing(pairs_of(v@)),
    {
        &self.entries
    }

    /// The text that `name` maps to, if any.
    pub fn get(&self, name: &str) -> (r: Option<&String>)
        requires
            self.wf(),
        ensures
            match r {
                Some(text) => self@.contains_key(name@) && self@[name@] == text@,
                None => !self@.contains_key(name@),
            },
    {
        let mut i: usize = 0;
        while i < self.entries.len()
            invariant
                self.wf(),
                i <= self.entries.len(),
                forall|j: int| 0 <= j < i ==> (#[trigger] self.pairs()[j]).0 != name@,
            decreases self.entries.len() - i,
        {
            if same_name(self.entries[i].0.as_str(), name) {
                proof {
                    assert(self.pairs()[i as int].0 == name@);
                    lemma_table_of_entry(self.pairs(), i as int);
                }
                return Some(&self.entries[i].1);
            }
            i = i + 1;
        }
        None
    }

    /// Enters `text` under `name`, replacing what the name mapped to before.
    pub fn insert(&mut self, name: String, text: String)
        requires
            old(self).wf(),
        ensures
            final(self).wf(),
            final(self)@ == old(self)@.insert(name@, text@),
    {
        let ghost before = self.pairs();
        let n: usize = self.entries.len();
        let mut i: usize = 0;
        let mut placed: bool = false;
        while i < n && !placed
            invariant
                self.pairs() == before,
                n == before.len(),
                n == self.entries.len(),
                i <= n,
                forall|j: int| 0 <= j < i ==> name_lt((#[trigger] before[j]).0, name@),
                placed ==> i < n && !name_lt(before[i as int].0, name@),
            decreases n - i + (if placed { 0int } else { 1int }),
        {
            if name_before(self.entries[i].0.as_str(), name.as_str()) {
                i = i + 1;
            } else {
                placed = true;
            }
        }
        if i < n && same_name(self.entries[i].0.as_str(), name.as_str()) {
            proof {
                lemma_table_of_update(before, i as int, text@);
            }
            self.entries.set(i, (name, text));
            proof {
                assert(self.pairs() =~= before.update(i as int, (before[i as int].0, text@)));
            }
        } else {
            let ghost e: Pair = (name@, text@);
            proof {
                let after = before.insert(i as int, e);
                assert forall|a: int, b: int| 0 <= a < b < after.len() implies name_lt(
                    #[trigger] after[a].0,
                    #[trigger] after[b].0,
                ) by {
                    if b == i {
                        assert(after[a] == before[a]);
                    } else if a == i {
                        assert(after[b] == before[b - 1]);
                        lemma_name_lt_total(before[i as int].0, name@);
                        if b - 1 > i {
                            assert(name_lt(before[i as int].0, before[b - 1].0));
                            lemma_name_lt_transitive(name@, before[i as int].0, before[b - 1].0);
                        }
                    } else {
                        let a0 = if a < i { a } else { a - 1 };
                        let b0 = if b < i { b } else { b - 1 };
                        assert(after[a] == before[a0]);
                        assert(after[b] == before[b0]);
                    }
                }
                lemma_table_of_insert(before, i as int, e);
            }
            self.entries.insert(i, (name, text));
            proof {
                assert(self.pairs() =~= before.insert(i as int, e));
            }
        }
    }

    /// The table that results from entering the pairs one after the other.
    pub fn from_entries(entries: Vec<(String, String)>) -> (r: NameTable)
        ensures
            r.wf(),
            r@ == collected(pairs_of(entries@)),
    {
        let mut r = NameTable::new();
        let mut i: usize = 0;
        while i < entries.len()
            invariant
                r.wf(),
                i <= entries.len(),
                r@ == collected(pairs_of(entries@).take(i as int)),
            decreases entries.len() - i,
        {
            let name: String = entries[i].0.clone();
            let text: String = entries[i].1.clone();
            proof {
                let upto = pairs_of(entries@).take(i as int + 1);
                assert(upto.drop_last() =~= pairs_of(entries@).take(i as int));
                assert(upto.last() == (name@, text@));
            }
            r.insert(name, text);
            i = i + 1;
        }
        proof {
            assert(pairs_of(entries@).take(i as int) =~= pairs_of(entries@));
        }
        r
    }
}

/// An increasing sequence stays increasing without its last pair.
pub proof fn lemma_increasing_drop_last(es: Seq<Pair>)
    requires
        increasing(es),
        es.len() > 0,
    ensures
        increasing(es.drop_last()),
        table_of(es) == table_of(es.drop_last()).insert(es.last().0, es.last().1),
        !table_of(es.drop_last()).contains_key(es.last().0),
{
    let head = es.drop_last();
    assert forall|i: int, j: int| 0 <= i < j < head.len() implies name_lt(
        #[trigger] head[i].0,
        #[trigger] head[j].0,
    ) by {
        assert(head[i] == es[i]);
        assert(head[j] == es[j]);
    }
    assert(head.insert(head.len() as int, es.last()) =~= es);
    lemma_table_of_insert(head, head.len() as int, es.last());
    if has_name(head, es.last().0) {
        let i = place_of(head, es.last().0);
        assert(head[i] == es[i]);
        lemma_increasing_distinct(es, i, es.len() - 1);
    }
}

/// The last name of an increasing sequence is the greatest: no other name
/// of the sequence comes after it.
pub proof fn lemma_last_is_greatest(es: Seq<Pair>, k: Seq<char>)
    requires
        increasing(es),
        has_name(es, k),
    ensures
        k == es.last().0 || name_lt(k, es.last().0),
{
    let i = place_of(es, k);
    if i < es.len() - 1 {
        assert(name_lt(es[i].0, es[es.len() - 1].0));
    }
}

/// Two increasing sequences that stand for the same mapping are the same
/// sequence.
pub proof fn lemma_increasing_by_table(a: Seq<Pair>, b: Seq<Pair>)
    requires
        increasing(a),
        increasing(b),
        table_of(a) == table_of(b),
    ensures
        a == b,
    decreases a.len(),
{
    if a.len() == 0 {
        if b.len() > 0 {
            lemma_table_of_entry(b, 0);
            assert(has_name(a, b[0].0));
        }
        assert(a =~= b);
    } else {
        lemma_table_of_entry(a, a.len() - 1);
        assert(has_name(b, a.last().0));
        lemma_table_of_entry(b, b.len() - 1);
        assert(has_name(a, b.last().0));
        lemma_last_is_greatest(b, a.last().0);
        lemma_last_is_greatest(a, b.last().0);
        if a.last().0 != b.last().0 {
            lemma_name_lt_transitive(a.last().0, b.last().0, a.last().0);
            lemma_name_lt_irreflexive(a.last().0);
        }
        assert(a.last() == b.last());
        lemma_increasing_drop_last(a);
        lemma_increasing_drop_last(b);
        let k = a.last().0;
        assert(table_of(a.drop_last()) =~= table_of(a).remove(k));
        assert(table_of(b.drop_last()) =~= table_of(b).remove(k));
        lemma_increasing_by_table(a.drop_last(), b.drop_last());
        assert(a =~= a.drop_last().push(a.last()));
        assert(b =~= b.drop_last().push(b.last()));
    }
}

/// Two tables that stand for the same mapping hold the same pairs in the
/// same order: what is written out for a table depends on its mapping alone.
pub proof fn law_pairs_by_mapping(a: NameTable, b: NameTable)
    requires
        a.wf(),
        b.wf(),
        a@ == b@,
    ensures
        a.pairs() == b.pairs(),
{
    lemma_increasing_by_table(a.pairs(), b.pairs());
}

/// Rebuilding a table from its own pairs gives the same mapping.
pub proof fn law_collected_of_increasing(es: Seq<Pair>)
    requires
        increasing(es),
    ensures
        collected(es) == table_of(es),
    decreases es.len(),
{
    if es.len() == 0 {
        assert(table_of(es) =~= Map::<Seq<char>, Seq<char>>::empty());
    } else {
        lemma_increasing_drop_last(es);
        law_collected_of_increasing(es.drop_last());
    }
}

} // verus!
