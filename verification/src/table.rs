//! Small association tables used for per-value field storage and for
//! type member tables: symbol-keyed and string-keyed, with unique keys.

use crate::symbol::Symbol;
use crate::value::RuntimeValue;
use vstd::prelude::*;

verus! {

/// Key uniqueness for a symbol-keyed table.
pub open spec fn table_wf(s: Seq<(Symbol, RuntimeValue)>) -> bool {
    forall|i: int, j: int| 0 <= i < j < s.len() ==> s[i].0 != s[j].0
}

pub open spec fn table_contains(s: Seq<(Symbol, RuntimeValue)>, key: Symbol) -> bool {
    exists|i: int| 0 <= i < s.len() && s[i].0 == key
}

pub open spec fn table_index(s: Seq<(Symbol, RuntimeValue)>, key: Symbol) -> int {
    choose|i: int| 0 <= i < s.len() && s[i].0 == key
}

pub open spec fn table_at(s: Seq<(Symbol, RuntimeValue)>, key: Symbol) -> RuntimeValue {
    s[table_index(s, key)].1
}

/// The keys of a table, in insertion order.
pub open spec fn table_keys(s: Seq<(Symbol, RuntimeValue)>) -> Seq<Symbol> {
    s.map(|i: int, e: (Symbol, RuntimeValue)| e.0)
}

/// The table after storing `val` under `key`: an existing entry is
/// replaced in place, a new key is appended.
pub open spec fn spec_table_set(
    s: Seq<(Symbol, RuntimeValue)>,
    key: Symbol,
    val: RuntimeValue,
) -> Seq<(Symbol, RuntimeValue)> {
    if table_contains(s, key) {
        s.update(table_index(s, key), (key, val))
    } else {
        s.push((key, val))
    }
}

/// What `spec_table_set` does to lookups and to the key sequence.
pub proof fn lemma_table_set(s: Seq<(Symbol, RuntimeValue)>, key: Symbol, val: RuntimeValue)
    requires
        table_wf(s),
    ensures
        table_wf(spec_table_set(s, key, val)),
        forall|k: Symbol|
            table_contains(spec_table_set(s, key, val), k) <==> (table_contains(s, k) || k
                == key),
        table_at(spec_table_set(s, key, val), key) == val,
        forall|k: Symbol|
            k != key && table_contains(s, k) ==> table_at(spec_table_set(s, key, val), k)
                == table_at(s, k),
        table_keys(spec_table_set(s, key, val)) == if table_contains(s, key) {
            table_keys(s)
        } else {
            table_keys(s).push(key)
        },
{
    let s1 = spec_table_set(s, key, val);
    if table_contains(s, key) {
        let w = table_index(s, key);
        assert(0 <= w < s.len() && s[w].0 == key);
        assert(table_keys(s1) =~= table_keys(s));
        assert forall|k: Symbol| table_contains(s1, k) implies (table_contains(s, k) || k
            == key) by {
            let i = choose|i: int| 0 <= i < s1.len() && s1[i].0 == k;
            if i != w {
                assert(s[i].0 == k);
            }
        }
        assert forall|k: Symbol| table_contains(s, k) implies table_contains(s1, k) by {
            let i = choose|i: int| 0 <= i < s.len() && s[i].0 == k;
            if i == w {
                assert(s1[w].0 == key);
            } else {
                assert(s1[i].0 == k);
            }
        }
        assert(s1[w].0 == key);
        assert(table_contains(s1, key));
        let w1 = table_index(s1, key);
        assert(s1[w1].0 == key);
        if w1 != w {
            assert(s[w1].0 == key);
        }
        assert(table_at(s1, key) == val);
        assert forall|k: Symbol| k != key && table_contains(s, k) implies table_at(s1, k)
            == table_at(s, k) by {
            let i = table_index(s, k);
            assert(0 <= i < s.len() && s[i].0 == k);
            assert(i != w);
            assert(s1[i] == s[i]);
            let i1 = table_index(s1, k);
            assert(0 <= i1 < s1.len() && s1[i1].0 == k);
            if i1 != i {
                if i1 == w {
                } else {
                    assert(s[i1].0 == k);
                }
            }
        }
    } else {
        assert(table_keys(s1) =~= table_keys(s).push(key));
        assert(s1[s.len() as int].0 == key);
        assert(table_contains(s1, key));
        assert forall|a: int, b: int| 0 <= a < b < s1.len() implies s1[a].0 != s1[b].0 by {
            if b < s.len() as int {
            } else {
                assert(s1[b].0 == key);
                assert(!table_contains(s, key));
                assert(s1[a] == s[a]);
            }
        }
        let w1 = table_index(s1, key);
        assert(s1[w1].0 == key);
        if w1 != s.len() as int {
            assert(s[w1].0 == key);
        }
        assert(table_at(s1, key) == val);
        assert forall|k: Symbol| table_contains(s1, k) implies (table_contains(s, k) || k
            == key) by {
            let i = choose|i: int| 0 <= i < s1.len() && s1[i].0 == k;
            if i < s.len() as int {
                assert(s[i].0 == k);
            }
        }
        assert forall|k: Symbol| table_contains(s, k) implies table_contains(s1, k) by {
            let i = choose|i: int| 0 <= i < s.len() && s[i].0 == k;
            assert(s1[i].0 == k);
        }
        assert forall|k: Symbol| k != key && table_contains(s, k) implies table_at(s1, k)
            == table_at(s, k) by {
            let i = table_index(s, k);
            assert(0 <= i < s.len() && s[i].0 == k);
            assert(s1[i].0 == k);
            let i1 = table_index(s1, k);
            assert(0 <= i1 < s1.len() && s1[i1].0 == k);
            if i1 == s.len() as int {
                assert(s1[i1].0 == key);
            } else {
                assert(s[i1].0 == k);
            }
        }
    }
}

/// Per-value field storage and type member tables: a symbol-keyed
/// association list with unique keys.
#[derive(Debug)]
pub struct FieldTable {
    entries: Vec<(Symbol, RuntimeValue)>,
}

impl View for FieldTable {
    type V = Seq<(Symbol, RuntimeValue)>;

    closed spec fn view(&self) -> Seq<(Symbol, RuntimeValue)> {
        self.entries@
    }
}

impl FieldTable {
    pub fn new() -> (r: FieldTable)
        ensures
            r@ =~= Seq::<(Symbol, RuntimeValue)>::empty(),
    {
        FieldTable { entries: Vec::new() }
    }

    pub fn get(&self, key: Symbol) -> (r: Option<RuntimeValue>)
        requires
            table_wf(self@),
        ensures
            match r {
                Some(v) => table_contains(self@, key) && v == table_at(self@, key),
                None => !table_contains(self@, key),
            },
    {
        let n = self.entries.len();
        let mut i: usize = 0;
        while i < n
            invariant
                table_wf(self@),
                n == self@.len(),
                i <= n,
                forall|k: int| 0 <= k < i ==> self@[k].0 != key,
            decreases n - i,
        {
            let (k, v) = self.entries[i];
            if k == key {
                proof {
                    assert(self@[i as int].0 == key);
                    let w = table_index(self@, key);
                    assert(self@[w].0 == key);
                    if w != i as int {
                        assert(false);
                    }
                }
                return Some(v);
            }
            i += 1;
        }
        None
    }


    /// Store `val` under `key`, replacing any existing entry.
    pub fn set(&mut self, key: Symbol, val: RuntimeValue)
        requires
            table_wf(old(self)@),
        ensures
            final(self)@ == spec_table_set(old(self)@, key, val),
            table_wf(final(self)@),
    {
        proof {
            lemma_table_set(old(self)@, key, val);
        }
        let n = self.entries.len();
        let mut i: usize = 0;
        while i < n
            invariant
                self == old(self),
                table_wf(self@),
                n == self@.len(),
                i <= n,
                forall|k: int| 0 <= k < i ==> self@[k].0 != key,
            decreases n - i,
        {
            let (k, _) = self.entries[i];
            if k == key {
                proof {
                    assert(self@[i as int].0 == key);
                    let w = table_index(self@, key);
                    assert(self@[w].0 == key);
                    if w != i as int {
                        assert(false);
                    }
                }
                self.entries[i] = (key, val);
                return ;
            }
            i += 1;
        }
        proof {
            assert(!table_contains(self@, key));
        }
        self.entries.push((key, val));
    }

    /// The keys in insertion order, for attribute enumeration.
    pub fn keys(&self) -> (r: Vec<Symbol>)
        ensures
            r@ == table_keys(self@),
    {
        let n = self.entries.len();
        let mut out: Vec<Symbol> = Vec::new();
        let mut i: usize = 0;
        while i < n
            invariant
                n == self@.len(),
                i <= n,
                out@ =~= table_keys(self@).take(i as int),
            decreases n - i,
        {
            out.push(self.entries[i].0);
            proof {
                assert(out@ =~= table_keys(self@).take(i as int + 1));
            }
            i += 1;
        }
        proof {
            assert(table_keys(self@).take(n as int) =~= table_keys(self@));
        }
        out
    }

    pub fn len(&self) -> (r: usize)
        ensures
            r == self@.len(),
    {
        self.entries.len()
    }
}

/// Key uniqueness for a string-keyed table, by string content.
pub open spec fn ntable_wf(s: Seq<(String, RuntimeValue)>) -> bool {
    forall|i: int, j: int| 0 <= i < j < s.len() ==> s[i].0@ != s[j].0@
}

pub open spec fn ntable_contains(s: Seq<(String, RuntimeValue)>, key: Seq<char>) -> bool {
    exists|i: int| 0 <= i < s.len() && s[i].0@ == key
}

pub open spec fn ntable_index(s: Seq<(String, RuntimeValue)>, key: Seq<char>) -> int {
    choose|i: int| 0 <= i < s.len() && s[i].0@ == key
}

pub open spec fn ntable_at(s: Seq<(String, RuntimeValue)>, key: Seq<char>) -> RuntimeValue {
    s[ntable_index(s, key)].1
}

/// A sequence of strings seen as a sequence of character sequences.
pub open spec fn strings_view(v: Seq<String>) -> Seq<Seq<char>> {
    v.map(|i: int, s: String| s@)
}

/// The key strings of a table, in insertion order.
pub open spec fn ntable_keys(s: Seq<(String, RuntimeValue)>) -> Seq<Seq<char>> {
    s.map(|i: int, e: (String, RuntimeValue)| e.0@)
}

/// The table after storing `val` under `key`, replacing in place or
/// appending.
pub open spec fn spec_ntable_set(
    s: Seq<(String, RuntimeValue)>,
    key: String,
    val: RuntimeValue,
) -> Seq<(String, RuntimeValue)> {
    if ntable_contains(s, key@) {
        s.update(ntable_index(s, key@), (key, val))
    } else {
        s.push((key, val))
    }
}

/// What `spec_ntable_set` does to lookups and to the key sequence.
pub proof fn lemma_ntable_set(s: Seq<(String, RuntimeValue)>, key: String, val: RuntimeValue)
    requires
        ntable_wf(s),
    ensures
        ntable_wf(spec_ntable_set(s, key, val)),
        forall|k: Seq<char>|
            ntable_contains(spec_ntable_set(s, key, val), k) <==> (ntable_contains(s, k) || k
                == key@),
        ntable_at(spec_ntable_set(s, key, val), key@) == val,
        forall|k: Seq<char>|
            k != key@ && ntable_contains(s, k) ==> ntable_at(spec_ntable_set(s, key, val), k)
                == ntable_at(s, k),
        ntable_keys(spec_ntable_set(s, key, val)) == if ntable_contains(s, key@) {
            ntable_keys(s)
        } else {
            ntable_keys(s).push(key@)
        },
{
    let s1 = spec_ntable_set(s, key, val);
    if ntable_contains(s, key@) {
        let w = ntable_index(s, key@);
        assert(0 <= w < s.len() && s[w].0@ == key@);
        assert(ntable_keys(s1) =~= ntable_keys(s));
        assert forall|k: Seq<char>| ntable_contains(s1, k) implies (ntable_contains(s, k) || k
            == key@) by {
            let i = choose|i: int| 0 <= i < s1.len() && s1[i].0@ == k;
            if i != w {
                assert(s[i].0@ == k);
            }
        }
        assert forall|k: Seq<char>| ntable_contains(s, k) implies ntable_contains(s1, k) by {
            let i = choose|i: int| 0 <= i < s.len() && s[i].0@ == k;
            if i == w {
                assert(s1[w].0@ == key@);
            } else {
                assert(s1[i].0@ == k);
            }
        }
        assert(s1[w].0@ == key@);
        assert(ntable_contains(s1, key@));
        let w1 = ntable_index(s1, key@);
        assert(s1[w1].0@ == key@);
        if w1 != w {
            assert(s[w1].0@ == key@);
        }
        assert(ntable_at(s1, key@) == val);
        assert forall|k: Seq<char>| k != key@ && ntable_contains(s, k) implies ntable_at(s1, k)
            == ntable_at(s, k) by {
            let i = ntable_index(s, k);
            assert(0 <= i < s.len() && s[i].0@ == k);
            assert(i != w);
            assert(s1[i] == s[i]);
            let i1 = ntable_index(s1, k);
            assert(0 <= i1 < s1.len() && s1[i1].0@ == k);
            if i1 != i {
                if i1 == w {
                } else {
                    assert(s[i1].0@ == k);
                }
            }
        }
    } else {
        assert(ntable_keys(s1) =~= ntable_keys(s).push(key@));
        assert(s1[s.len() as int].0@ == key@);
        assert(ntable_contains(s1, key@));
        assert forall|a: int, b: int| 0 <= a < b < s1.len() implies s1[a].0@ != s1[b].0@ by {
            if b < s.len() as int {
            } else {
                assert(s1[b].0@ == key@);
                assert(!ntable_contains(s, key@));
                assert(s1[a] == s[a]);
            }
        }
        let w1 = ntable_index(s1, key@);
        assert(s1[w1].0@ == key@);
        if w1 != s.len() as int {
            assert(s[w1].0@ == key@);
        }
        assert(ntable_at(s1, key@) == val);
        assert forall|k: Seq<char>| ntable_contains(s1, k) implies (ntable_contains(s, k) || k
            == key@) by {
            let i = choose|i: int| 0 <= i < s1.len() && s1[i].0@ == k;
            if i < s.len() as int {
                assert(s[i].0@ == k);
            }
        }
        assert forall|k: Seq<char>| ntable_contains(s, k) implies ntable_contains(s1, k) by {
            let i = choose|i: int| 0 <= i < s.len() && s[i].0@ == k;
            assert(s1[i].0@ == k);
        }
        assert forall|k: Seq<char>| k != key@ && ntable_contains(s, k) implies ntable_at(s1, k)
            == ntable_at(s, k) by {
            let i = ntable_index(s, k);
            assert(0 <= i < s.len() && s[i].0@ == k);
            assert(s1[i].0@ == k);
            let i1 = ntable_index(s1, k);
            assert(0 <= i1 < s1.len() && s1[i1].0@ == k);
            if i1 == s.len() as int {
                assert(s1[i1].0@ == key@);
            } else {
                assert(s[i1].0@ == k);
            }
        }
    }
}

/// String-addressed named-value storage, as modules use across module
/// boundaries.
#[derive(Debug)]
pub struct NameTable {
    entries: Vec<(String, RuntimeValue)>,
}

impl View for NameTable {
    type V = Seq<(String, RuntimeValue)>;

    closed spec fn view(&self) -> Seq<(String, RuntimeValue)> {
        self.entries@
    }
}

impl NameTable {
    pub fn new() -> (r: NameTable)
        ensures
            r@ =~= Seq::<(String, RuntimeValue)>::empty(),
    {
        NameTable { entries: Vec::new() }
    }

    pub fn get(&self, key: &String) -> (r: Option<RuntimeValue>)
        requires
            ntable_wf(self@),
        ensures
            match r {
                Some(v) => ntable_contains(self@, key@) && v == ntable_at(self@, key@),
                None => !ntable_contains(self@, key@),
            },
    {
        let n = self.entries.len();
        let mut i: usize = 0;
        while i < n
            invariant
                ntable_wf(self@),
                n == self@.len(),
                i <= n,
                forall|k: int| 0 <= k < i ==> self@[k].0@ != key@,
            decreases n - i,
        {
            if self.entries[i].0 == *key {
                let v = self.entries[i].1;
                proof {
                    assert(self@[i as int].0@ == key@);
                    let w = ntable_index(self@, key@);
                    assert(self@[w].0@ == key@);
                    if w != i as int {
                        assert(false);
                    }
                }
                return Some(v);
            }
            i += 1;
        }
        None
    }

    /// Store `val` under `key`, replacing any existing entry.
    pub fn set(&mut self, key: String, val: RuntimeValue)
        requires
            ntable_wf(old(self)@),
        ensures
            final(self)@ == spec_ntable_set(old(self)@, key, val),
            ntable_wf(final(self)@),
    {
        proof {
            lemma_ntable_set(old(self)@, key, val);
        }
        let n = self.entries.len();
        let mut i: usize = 0;
        while i < n
            invariant
                self == old(self),
                ntable_wf(self@),
                n == self@.len(),
                i <= n,
                forall|k: int| 0 <= k < i ==> self@[k].0@ != key@,
            decreases n - i,
        {
            if self.entries[i].0 == key {
                proof {
                    assert(self@[i as int].0@ == key@);
                    let w = ntable_index(self@, key@);
                    assert(self@[w].0@ == key@);
                    if w != i as int {
                        assert(false);
                    }
                }
                self.entries[i] = (key, val);
                return ;
            }
            i += 1;
        }
        proof {
            assert(!ntable_contains(self@, key@));
        }
        self.entries.push((key, val));
    }

    /// The names stored here, in insertion order.
    pub fn keys(&self) -> (r: Vec<String>)
        ensures
            strings_view(r@) == ntable_keys(self@),
    {
        let n = self.entries.len();
        let mut out: Vec<String> = Vec::new();
        let mut i: usize = 0;
        while i < n
            invariant
                n == self@.len(),
                i <= n,
                strings_view(out@) =~= ntable_keys(self@).take(i as int),
            decreases n - i,
        {
            let cl = self.entries[i].0.clone();
            proof {
                assert(cl@ == self@[i as int].0@);
            }
            let ghost prev = out@;
            out.push(cl);
            proof {
                assert(out@ == prev.push(cl));
                assert(strings_view(prev).len() == prev.len());
                assert(ntable_keys(self@).take(i as int).len() == i as int);
                assert(prev.len() == i as int);
                assert forall|j: int| 0 <= j <= i as int implies strings_view(out@)[j]
                    == ntable_keys(self@).take(i as int + 1)[j] by {
                    if j < i as int {
                        assert(strings_view(prev)[j] == ntable_keys(self@).take(i as int)[j]);
                        assert(out@[j] == prev[j]);
                    } else {
                        assert(out@[j] == cl);
                        assert(ntable_keys(self@)[j] == self@[j].0@);
                    }
                }
                assert(strings_view(out@) =~= ntable_keys(self@).take(i as int + 1));
            }
            i += 1;
        }
        proof {
            assert(ntable_keys(self@).take(n as int) =~= ntable_keys(self@));
        }
        out
    }

    pub fn len(&self) -> (r: usize)
        ensures
            r == self@.len(),
    {
        self.entries.len()
    }
}

} // verus!
