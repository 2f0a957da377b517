//! A table of named values keyed by symbolic name (`"<device>.<param>"`,
//! e.g. `"nmos.vth"`), for looking a value up by name rather than field by
//! field.

use vstd::prelude::*;

use crate::text::{
    lemma_seq_lt_irreflexive, lemma_seq_lt_total, lemma_seq_lt_transitive, seq_lt, str_eq,
    str_lt,
};

verus! {

/// The symbol under which parameter `param` of device `device` is filed.
pub open spec fn symbol_key_spec(device: Seq<char>, param: Seq<char>) -> Seq<char> {
    device + "."@ + param
}

/// The map that a list of entries describes; a later entry for a key
/// overrides an earlier one.
pub open spec fn entries_map<V>(e: Seq<(String, V)>) -> Map<Seq<char>, V>
    decreases e.len(),
{
    if e.len() == 0 {
        Map::empty()
    } else {
        entries_map(e.drop_last()).insert(e.last().0@, e.last().1)
    }
}

/// No two entries have the same key.
pub open spec fn keys_distinct<V>(e: Seq<(String, V)>) -> bool {
    forall|i: int, j: int| 0 <= i < j < e.len() ==> e[i].0@ != e[j].0@
}

/// `m` with each `(param, value)` of `named`, in order, filed under the
/// symbol of `param` for device `device`.
pub open spec fn insert_named<V>(
    m: Map<Seq<char>, V>,
    device: Seq<char>,
    named: Seq<(&'static str, V)>,
) -> Map<Seq<char>, V>
    decreases named.len(),
{
    if named.len() == 0 {
        m
    } else {
        insert_named(m, device, named.drop_last()).insert(
            symbol_key_spec(device, named.last().0@),
            named.last().1,
        )
    }
}

/// The sequence is in strictly increasing lexicographic order.
pub open spec fn strictly_sorted(s: Seq<Seq<char>>) -> bool {
    forall|i: int, j: int| 0 <= i < j < s.len() ==> seq_lt(s[i], s[j])
}

/// A strictly sorted sequence holds no name twice.
pub proof fn lemma_strictly_sorted_distinct(s: Seq<Seq<char>>)
    requires
        strictly_sorted(s),
    ensures
        forall|i: int, j: int| 0 <= i < s.len() && 0 <= j < s.len() && i != j ==> s[i] != s[j],
{
    assert forall|i: int, j: int| 0 <= i < s.len() && 0 <= j < s.len() && i != j implies s[i]
        != s[j] by {
        if i < j {
            assert(seq_lt(s[i], s[j]));
        } else {
            assert(seq_lt(s[j], s[i]));
        }
        lemma_seq_lt_irreflexive(s[i]);
    }
}

/// A strictly sorted listing of a set of names is unique: two strictly
/// sorted sequences holding the same names are equal. So `symbols()` is
/// the one sorted list of the table's symbols.
pub proof fn lemma_strictly_sorted_unique(s: Seq<Seq<char>>, t: Seq<Seq<char>>)
    requires
        strictly_sorted(s),
        strictly_sorted(t),
        forall|k: Seq<char>| s.contains(k) <==> t.contains(k),
    ensures
        s == t,
    decreases s.len(),
{
    if s.len() == 0 {
        if t.len() > 0 {
            assert(t.contains(t[0]));
        }
        assert(s =~= t);
    } else {
        assert(s.contains(s[0]));
        assert(t.len() > 0);
        assert(t.contains(t[0]));
        let j = choose|j: int| 0 <= j < t.len() && t[j] == s[0];
        let i = choose|i: int| 0 <= i < s.len() && s[i] == t[0];
        if j > 0 {
            assert(seq_lt(t[0], t[j]));
            if i > 0 {
                assert(seq_lt(s[0], s[i]));
                lemma_seq_lt_transitive(t[0], s[0], t[0]);
                lemma_seq_lt_irreflexive(t[0]);
            }
            lemma_seq_lt_irreflexive(t[0]);
        }
        if i > 0 {
            assert(seq_lt(s[0], s[i]));
            lemma_seq_lt_irreflexive(s[0]);
        }
        assert(s[0] == t[0]);
        let s2 = s.drop_first();
        let t2 = t.drop_first();
        assert(strictly_sorted(s2));
        assert(strictly_sorted(t2));
        assert forall|k: Seq<char>| s2.contains(k) <==> t2.contains(k) by {
            if s2.contains(k) {
                let a = choose|a: int| 0 <= a < s2.len() && s2[a] == k;
                assert(s[a + 1] == k && s.contains(k));
                assert(seq_lt(s[0], s[a + 1]));
                lemma_seq_lt_irreflexive(k);
                let b = choose|b: int| 0 <= b < t.len() && t[b] == k;
                assert(b != 0);
                assert(t2[b - 1] == k);
            }
            if t2.contains(k) {
                let a = choose|a: int| 0 <= a < t2.len() && t2[a] == k;
                assert(t[a + 1] == k && t.contains(k));
                assert(seq_lt(t[0], t[a + 1]));
                lemma_seq_lt_irreflexive(k);
                let b = choose|b: int| 0 <= b < s.len() && s[b] == k;
                assert(b != 0);
                assert(s2[b - 1] == k);
            }
        }
        lemma_strictly_sorted_unique(s2, t2);
        assert(s =~= seq![s[0]] + s2);
        assert(t =~= seq![t[0]] + t2);
    }
}

/// The views of a vector of string slices.
pub open spec fn strs_view(v: Seq<&str>) -> Seq<Seq<char>> {
    v.map_values(|s: &str| s@)
}

/// The keys of a set of entries are the keys of the map they describe, and
/// each key maps to the value of its entry.
proof fn lemma_entries_map<V>(e: Seq<(String, V)>)
    requires
        keys_distinct(e),
    ensures
        forall|k: Seq<char>|
            #[trigger] entries_map(e).contains_key(k) <==> exists|i: int|
                0 <= i < e.len() && e[i].0@ == k,
        forall|i: int| 0 <= i < e.len() ==> #[trigger] entries_map(e)[e[i].0@] == e[i].1,
        entries_map(e).dom().finite(),
        entries_map(e).dom().len() == e.len(),
    decreases e.len(),
{
    if e.len() > 0 {
        let p = e.drop_last();
        assert(keys_distinct(p));
        lemma_entries_map(p);
        let k = e.last().0@;
        assert(!entries_map(p).contains_key(k)) by {
            if entries_map(p).contains_key(k) {
                let i = choose|i: int| 0 <= i < p.len() && p[i].0@ == k;
                assert(e[i].0@ == e[e.len() - 1].0@);
            }
        }
        assert forall|k2: Seq<char>|
            #[trigger] entries_map(e).contains_key(k2) implies exists|i: int|
                0 <= i < e.len() && e[i].0@ == k2 by {
            if k2 == k {
                assert(e[e.len() - 1].0@ == k2);
            } else {
                let i = choose|i: int| 0 <= i < p.len() && p[i].0@ == k2;
                assert(e[i].0@ == k2);
            }
        }
        assert forall|k2: Seq<char>|
            (exists|i: int| 0 <= i < e.len() && e[i].0@ == k2) implies #[trigger] entries_map(
            e,
        ).contains_key(k2) by {
            let i = choose|i: int| 0 <= i < e.len() && e[i].0@ == k2;
            if i < e.len() - 1 {
                assert(p[i].0@ == k2);
            }
        }
        assert forall|i: int| 0 <= i < e.len() implies #[trigger] entries_map(e)[e[i].0@]
            == e[i].1 by {
            if i < e.len() - 1 {
                assert(p[i] == e[i]);
                assert(e[i].0@ != k);
            }
        }
    }
}

/// Replacing the entry at `i` by one with the same key changes only that
/// key's value.
proof fn lemma_entries_map_update<V>(e: Seq<(String, V)>, i: int, entry: (String, V))
    requires
        keys_distinct(e),
        0 <= i < e.len(),
        entry.0@ == e[i].0@,
    ensures
        keys_distinct(e.update(i, entry)),
        entries_map(e.update(i, entry)) == entries_map(e).insert(entry.0@, entry.1),
{
    let e2 = e.update(i, entry);
    assert(keys_distinct(e2)) by {
        assert forall|a: int, b: int| 0 <= a < b < e2.len() implies e2[a].0@ != e2[b].0@ by {
            assert(e2[a].0@ == e[a].0@);
            assert(e2[b].0@ == e[b].0@);
        }
    }
    lemma_entries_map(e);
    lemma_entries_map(e2);
    let m1 = entries_map(e2);
    let m2 = entries_map(e).insert(entry.0@, entry.1);
    assert forall|k: Seq<char>| m1.contains_key(k) <==> m2.contains_key(k) by {
        if m1.contains_key(k) {
            let j = choose|j: int| 0 <= j < e2.len() && e2[j].0@ == k;
            assert(e[j].0@ == k);
        }
        if m2.contains_key(k) && k != entry.0@ {
            let j = choose|j: int| 0 <= j < e.len() && e[j].0@ == k;
            assert(e2[j].0@ == k);
        }
        if k == entry.0@ {
            assert(e2[i].0@ == k);
        }
    }
    assert forall|k: Seq<char>| m1.contains_key(k) implies m1[k] == m2[k] by {
        let j = choose|j: int| 0 <= j < e2.len() && e2[j].0@ == k;
        if j != i {
            assert(e2[j] == e[j]);
            assert(k != entry.0@);
        }
    }
    assert(m1 =~= m2);
}

/// Appending an entry with a new key adds that key.
proof fn lemma_entries_map_push<V>(e: Seq<(String, V)>, entry: (String, V))
    requires
        keys_distinct(e),
        forall|j: int| 0 <= j < e.len() ==> e[j].0@ != entry.0@,
    ensures
        keys_distinct(e.push(entry)),
        entries_map(e.push(entry)) == entries_map(e).insert(entry.0@, entry.1),
{
    let e2 = e.push(entry);
    assert(e2.drop_last() =~= e);
    assert(keys_distinct(e2)) by {
        assert forall|a: int, b: int| 0 <= a < b < e2.len() implies e2[a].0@ != e2[b].0@ by {
            if b < e.len() {
                assert(e2[a] == e[a] && e2[b] == e[b]);
            }
        }
    }
}

/// Inserting `k` where everything before is smaller and everything after is
/// larger keeps a strictly sorted sequence strictly sorted.
proof fn lemma_insert_sorted(s: Seq<Seq<char>>, p: int, k: Seq<char>)
    requires
        strictly_sorted(s),
        0 <= p <= s.len(),
        forall|q: int| 0 <= q < p ==> seq_lt(#[trigger] s[q], k),
        forall|q: int| p <= q < s.len() ==> seq_lt(k, #[trigger] s[q]),
    ensures
        strictly_sorted(s.insert(p, k)),
{
    let t = s.insert(p, k);
    assert forall|i: int, j: int| 0 <= i < j < t.len() implies seq_lt(t[i], t[j]) by {
        if j < p {
            assert(t[i] == s[i] && t[j] == s[j]);
        } else if j == p {
            assert(t[i] == s[i]);
        } else if i < p {
            assert(t[i] == s[i] && t[j] == s[j - 1]);
        } else if i == p {
            assert(t[j] == s[j - 1]);
        } else {
            assert(t[i] == s[i - 1] && t[j] == s[j - 1]);
        }
    }
}

/// The symbol under which parameter `param` of device `device` is filed:
/// `"<device>.<param>"`.
pub fn symbol_key(device: &str, param: &str) -> (key: String)
    ensures
        key@ == symbol_key_spec(device@, param@),
{
    let mut key = String::from_str(device);
    key.append(".");
    key.append(param);
    key
}

/// Once filed, a value is what a lookup of its symbol finds, and filing it
/// leaves every other symbol as it was.
pub proof fn lemma_get_after_insert<V>(m: Map<Seq<char>, V>, k: Seq<char>, v: V, other: Seq<char>)
    ensures
        m.insert(k, v).contains_key(k),
        m.insert(k, v)[k] == v,
        other != k ==> (m.insert(k, v).contains_key(other) <==> m.contains_key(other)),
        other != k && m.contains_key(other) ==> m.insert(k, v)[other] == m[other],
{
}

/// Different parameters of one device are filed under different symbols.
pub proof fn lemma_symbol_key_injective(device: Seq<char>, p1: Seq<char>, p2: Seq<char>)
    ensures
        symbol_key_spec(device, p1) == symbol_key_spec(device, p2) ==> p1 == p2,
{
    let prefix = device + "."@;
    if symbol_key_spec(device, p1) == symbol_key_spec(device, p2) {
        assert((prefix + p1).skip(prefix.len() as int) =~= p1);
        assert((prefix + p2).skip(prefix.len() as int) =~= p2);
    }
}

/// Filing the parameters of one device, all with different names, into an
/// empty table gives a table of exactly as many symbols, each holding the
/// value filed under it.
pub proof fn lemma_device_params_fill_table<V>(device: Seq<char>, named: Seq<(&'static str, V)>)
    requires
        forall|i: int, j: int| 0 <= i < j < named.len() ==> named[i].0@ != named[j].0@,
    ensures
        insert_named(Map::<Seq<char>, V>::empty(), device, named).dom().finite(),
        insert_named(Map::<Seq<char>, V>::empty(), device, named).dom().len() == named.len(),
        forall|i: int|
            0 <= i < named.len() ==> #[trigger] insert_named(
                Map::<Seq<char>, V>::empty(),
                device,
                named,
            )[symbol_key_spec(device, named[i].0@)] == named[i].1,
    decreases named.len(),
{
    if named.len() > 0 {
        let p = named.drop_last();
        lemma_device_params_fill_table(device, p);
        let m = insert_named(Map::<Seq<char>, V>::empty(), device, p);
        let k = symbol_key_spec(device, named.last().0@);
        assert(!m.dom().contains(k)) by {
            lemma_insert_named_dom(device, p);
            if m.dom().contains(k) {
                let i = choose|i: int|
                    0 <= i < p.len() && #[trigger] symbol_key_spec(device, p[i].0@) == k;
                lemma_symbol_key_injective(device, p[i].0@, named.last().0@);
                assert(named[i].0@ == named[named.len() - 1].0@);
            }
        }
        assert forall|i: int| 0 <= i < named.len() implies #[trigger] insert_named(
            Map::<Seq<char>, V>::empty(),
            device,
            named,
        )[symbol_key_spec(device, named[i].0@)] == named[i].1 by {
            if i < named.len() - 1 {
                assert(p[i] == named[i]);
                lemma_symbol_key_injective(device, named[i].0@, named.last().0@);
            }
        }
    }
}

/// The symbols of a table filled from empty are those of the parameters
/// filed.
proof fn lemma_insert_named_dom<V>(device: Seq<char>, named: Seq<(&'static str, V)>)
    ensures
        forall|k: Seq<char>|
            #[trigger] insert_named(Map::<Seq<char>, V>::empty(), device, named).dom().contains(k)
                ==> exists|i: int|
                0 <= i < named.len() && #[trigger] symbol_key_spec(device, named[i].0@) == k,
    decreases named.len(),
{
    if named.len() > 0 {
        let p = named.drop_last();
        lemma_insert_named_dom(device, p);
        assert forall|k: Seq<char>|
            #[trigger] insert_named(Map::<Seq<char>, V>::empty(), device, named).dom().contains(
                k,
            ) implies exists|i: int|
            0 <= i < named.len() && #[trigger] symbol_key_spec(device, named[i].0@) == k by {
            if k == symbol_key_spec(device, named.last().0@) {
                assert(symbol_key_spec(device, named[named.len() - 1].0@) == k);
            } else {
                assert(insert_named(Map::<Seq<char>, V>::empty(), device, p).dom().contains(k));
                let i = choose|i: int|
                    0 <= i < p.len() && #[trigger] symbol_key_spec(device, p[i].0@) == k;
                assert(p[i] == named[i]);
            }
        }
    }
}

/// Filing a device's parameters only adds to a table, whatever it held
/// before: every filed parameter is then present under its symbol, and
/// every symbol that is not the symbol of a filed parameter keeps its
/// presence and its value.
pub proof fn lemma_filing_only_adds<V>(
    m: Map<Seq<char>, V>,
    device: Seq<char>,
    named: Seq<(&'static str, V)>,
    k: Seq<char>,
)
    ensures
        forall|i: int|
            0 <= i < named.len() ==> insert_named(m, device, named).contains_key(
                #[trigger] symbol_key_spec(device, named[i].0@),
            ),
        (forall|i: int|
            0 <= i < named.len() ==> #[trigger] symbol_key_spec(device, named[i].0@) != k) ==> {
            &&& insert_named(m, device, named).contains_key(k) == m.contains_key(k)
            &&& m.contains_key(k) ==> insert_named(m, device, named)[k] == m[k]
        },
    decreases named.len(),
{
    if named.len() > 0 {
        let p = named.drop_last();
        lemma_filing_only_adds(m, device, p, k);
        assert forall|i: int|
            0 <= i < named.len() implies insert_named(m, device, named).contains_key(
            #[trigger] symbol_key_spec(device, named[i].0@),
        ) by {
            if i < named.len() - 1 {
                assert(p[i] == named[i]);
                assert(insert_named(m, device, p).contains_key(symbol_key_spec(device, p[i].0@)));
            }
        }
        if forall|i: int|
            0 <= i < named.len() ==> #[trigger] symbol_key_spec(device, named[i].0@) != k {
            assert forall|i: int| 0 <= i < p.len() implies #[trigger] symbol_key_spec(
                device,
                p[i].0@,
            ) != k by {
                assert(p[i] == named[i]);
                assert(symbol_key_spec(device, named[i].0@) != k);
            }
            assert(symbol_key_spec(device, named[named.len() - 1].0@) != k);
        }
    }
}

/// A table of values filed under symbolic names, each name at most once.
#[derive(Debug)]
pub struct SymbolTable<V> {
    entries: Vec<(String, V)>,
}

impl<V> View for SymbolTable<V> {
    type V = Map<Seq<char>, V>;

    closed spec fn view(&self) -> Map<Seq<char>, V> {
        entries_map(self.entries@)
    }
}

impl<V> SymbolTable<V> {
    #[verifier::type_invariant]
    closed spec fn wf(self) -> bool {
        keys_distinct(self.entries@)
    }

    /// An empty table.
    pub fn new() -> (t: Self)
        ensures
            t@ == Map::<Seq<char>, V>::empty(),
    {
        SymbolTable { entries: Vec::new() }
    }

    /// Where `symbol` is filed, if it is.
    fn find(&self, symbol: &str) -> (r: Option<usize>)
        ensures
            r matches Some(i) ==> i < self.entries@.len() && self.entries@[i as int].0@
                == symbol@,
            r is None ==> forall|j: int|
                0 <= j < self.entries@.len() ==> self.entries@[j].0@ != symbol@,
    {
        let mut i: usize = 0;
        while i < self.entries.len()
            invariant
                i <= self.entries@.len(),
                forall|j: int| 0 <= j < i ==> self.entries@[j].0@ != symbol@,
            decreases self.entries@.len() - i,
        {
            if str_eq(self.entries[i].0.as_str(), symbol) {
                return Some(i);
            }
            i = i + 1;
        }
        None
    }

    /// Files `value` under `symbol`, replacing what was filed there.
    pub fn insert(&mut self, symbol: String, value: V)
        ensures
            final(self)@ == old(self)@.insert(symbol@, value),
    {
        proof {
            use_type_invariant(&*self);
        }
        let found = self.find(symbol.as_str());
        let mut entries: Vec<(String, V)> = Vec::new();
        std::mem::swap(&mut entries, &mut self.entries);
        match found {
            Some(i) => {
                proof {
                    lemma_entries_map_update(entries@, i as int, (symbol, value));
                }
                entries.set(i, (symbol, value));
            },
            None => {
                proof {
                    lemma_entries_map_push(entries@, (symbol, value));
                }
                entries.push((symbol, value));
            },
        }
        self.entries = entries;
    }

    /// All symbols in the table, each once, in increasing lexicographic
    /// order.
    pub fn symbols(&self) -> (names: Vec<&str>)
        ensures
            strictly_sorted(strs_view(names@)),
            names@.len() == self@.dom().len(),
            forall|k: Seq<char>| #[trigger]
                self@.contains_key(k) <==> strs_view(names@).contains(k),
    {
        proof {
            use_type_invariant(self);
            lemma_entries_map(self.entries@);
        }
        let mut names: Vec<&str> = Vec::new();
        let mut i: usize = 0;
        while i < self.entries.len()
            invariant
                keys_distinct(self.entries@),
                i <= self.entries@.len(),
                names@.len() == i,
                strictly_sorted(strs_view(names@)),
                forall|k: Seq<char>| #[trigger]
                    strs_view(names@).contains(k) <==> exists|j: int|
                        0 <= j < i && self.entries@[j].0@ == k,
            decreases self.entries@.len() - i,
        {
            let key: &str = self.entries[i].0.as_str();
            let ghost sv = strs_view(names@);
            assert forall|q: int| 0 <= q < sv.len() implies sv[q] != key@ by {
                assert(sv.contains(sv[q]));
                let j = choose|j: int| 0 <= j < i && self.entries@[j].0@ == sv[q];
            }
            let mut p: usize = 0;
            while p < names.len() && str_lt(names[p], key)
                invariant
                    p <= names@.len(),
                    sv == strs_view(names@),
                    forall|q: int| 0 <= q < p ==> seq_lt(#[trigger] sv[q], key@),
                decreases names@.len() - p,
            {
                p = p + 1;
            }
            proof {
                if p < sv.len() {
                    lemma_seq_lt_total(sv[p as int], key@);
                    assert(seq_lt(key@, sv[p as int]));
                    assert forall|q: int| p <= q < sv.len() implies seq_lt(key@, #[trigger] sv[q]) by {
                        if q > p {
                            lemma_seq_lt_transitive(key@, sv[p as int], sv[q]);
                        }
                    }
                }
                lemma_insert_sorted(sv, p as int, key@);
            }
            names.insert(p, key);
            assert(strs_view(names@) =~= sv.insert(p as int, key@));
            assert forall|k: Seq<char>| #[trigger]
                strs_view(names@).contains(k) <==> exists|j: int|
                    0 <= j < i + 1 && self.entries@[j].0@ == k by {
                if strs_view(names@).contains(k) {
                    let q = choose|q: int| 0 <= q < strs_view(names@).len() && strs_view(names@)[q] == k;
                    if q < p {
                        assert(sv[q] == k && sv.contains(k));
                    } else if q > p {
                        assert(sv[q - 1] == k && sv.contains(k));
                    }
                }
                if exists|j: int| 0 <= j < i + 1 && self.entries@[j].0@ == k {
                    let j = choose|j: int| 0 <= j < i + 1 && self.entries@[j].0@ == k;
                    if j < i {
                        assert(sv.contains(k));
                        let q = choose|q: int| 0 <= q < sv.len() && sv[q] == k;
                        if q < p {
                            assert(strs_view(names@)[q] == k);
                        } else {
                            assert(strs_view(names@)[q + 1] == k);
                        }
                    } else {
                        assert(strs_view(names@)[p as int] == k);
                    }
                }
            }
            i = i + 1;
        }
        names
    }

    /// The number of symbols in the table.
    pub fn len(&self) -> (n: usize)
        ensures
            n == self@.dom().len(),
    {
        proof {
            use_type_invariant(self);
            lemma_entries_map(self.entries@);
        }
        self.entries.len()
    }

    /// Whether the table holds no symbol.
    pub fn is_empty(&self) -> (b: bool)
        ensures
            b == (self@.dom().len() == 0),
    {
        proof {
            use_type_invariant(self);
            lemma_entries_map(self.entries@);
        }
        self.entries.len() == 0
    }
}

impl<V> Default for SymbolTable<V> {
    fn default() -> (t: Self)
        ensures
            t@ == Map::<Seq<char>, V>::empty(),
    {
        SymbolTable::new()
    }
}

impl<V: Copy> SymbolTable<V> {
    /// The value filed under `symbol`, if any.
    pub fn get(&self, symbol: &str) -> (r: Option<V>)
        ensures
            r == (if self@.contains_key(symbol@) {
                Some(self@[symbol@])
            } else {
                None
            }),
    {
        proof {
            use_type_invariant(self);
            lemma_entries_map(self.entries@);
        }
        match self.find(symbol) {
            Some(i) => {
                let v = self.entries[i].1;
                Some(v)
            },
            None => None,
        }
    }

    /// Files each `(param, value)` of `named`, in order, under the symbol
    /// of `param` for device `device`.
    pub fn insert_device_params(&mut self, device: &str, named: &Vec<(&'static str, V)>)
        ensures
            final(self)@ == insert_named(old(self)@, device@, named@),
            forall|i: int|
                0 <= i < named@.len() ==> final(self)@.contains_key(
                    #[trigger] symbol_key_spec(device@, named@[i].0@),
                ),
            forall|k: Seq<char>|
                (forall|i: int|
                    0 <= i < named@.len() ==> #[trigger] symbol_key_spec(device@, named@[i].0@)
                        != k) ==> (#[trigger] final(self)@.contains_key(k) == old(
                    self,
                )@.contains_key(k) && (old(self)@.contains_key(k) ==> final(self)@[k] == old(
                    self,
                )@[k])),
    {
        let mut i: usize = 0;
        while i < named.len()
            invariant
                i <= named@.len(),
                self@ == insert_named(old(self)@, device@, named@.take(i as int)),
            decreases named@.len() - i,
        {
            let (param, value) = named[i];
            assert(named@.take(i + 1).drop_last() == named@.take(i as int));
            self.insert(symbol_key(device, param), value);
            i = i + 1;
        }
        assert(named@.take(i as int) == named@);
        proof {
            assert forall|k: Seq<char>|
                (forall|i: int|
                    0 <= i < named@.len() ==> #[trigger] symbol_key_spec(device@, named@[i].0@)
                        != k) implies (#[trigger] self@.contains_key(k) == old(self)@.contains_key(
                k,
            ) && (old(self)@.contains_key(k) ==> self@[k] == old(self)@[k])) by {
                lemma_filing_only_adds(old(self)@, device@, named@, k);
            }
            lemma_filing_only_adds(old(self)@, device@, named@, Seq::empty());
        }
    }
}

} // verus!
