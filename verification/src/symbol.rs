//! The symbol interner: attribute and method names become small dense
//! integer handles, with reverse lookup for diagnostics.

use vstd::prelude::*;

verus! {

/// An interned name handle. Two symbols are equal exactly when they were
/// produced from the same string by the same interner; symbols are never
/// constructed outside an interner.
#[derive(Copy, Clone, Debug, PartialEq, Eq, Structural)]
pub struct Symbol(u32);

impl Symbol {
    /// The dense index this handle stands for.
    pub closed spec fn sid(self) -> nat {
        self.0 as nat
    }

}

/// Interning can fail only by exhausting the 32-bit handle space.
#[derive(Debug, PartialEq, Eq, Structural)]
pub enum InternError {
    TooManySymbols,
}

/// Append-only store of interned names. Symbol `i` stands for the `i`-th
/// distinct string ever interned; nothing is ever removed.
pub struct Interner {
    strings: Vec<String>,
}

impl View for Interner {
    type V = Seq<Seq<char>>;

    closed spec fn view(&self) -> Seq<Seq<char>> {
        self.strings@.map(|i: int, s: String| s@)
    }
}

/// The index `intern` hands out for `name` against the store `strs`:
/// the index of an existing occurrence, or the next fresh index.
pub open spec fn spec_intern_sym(strs: Seq<Seq<char>>, name: Seq<char>) -> nat {
    if strs.contains(name) {
        strs.index_of(name) as nat
    } else {
        strs.len()
    }
}

/// The store after interning `name`: unchanged if already present,
/// otherwise extended by `name`.
pub open spec fn spec_intern_strs(strs: Seq<Seq<char>>, name: Seq<char>) -> Seq<Seq<char>> {
    if strs.contains(name) {
        strs
    } else {
        strs.push(name)
    }
}

impl Interner {
    /// No two stored strings are equal, so each name has exactly one
    /// handle, and every handle fits in 32 bits.
    pub open spec fn wf(&self) -> bool {
        &&& forall|i: int, j: int|
            0 <= i < j < self@.len() ==> self@[i] != self@[j]
        &&& self@.len() <= u32::MAX
    }

    pub fn new() -> (r: Interner)
        ensures
            r@ =~= Seq::<Seq<char>>::empty(),
            r.wf(),
    {
        Interner { strings: Vec::new() }
    }

    /// Returns the existing handle if `name` was seen before; otherwise
    /// allocates the next sequential handle and stores the owned string.
    pub fn intern(&mut self, name: &str) -> (r: Result<Symbol, InternError>)
        requires
            old(self).wf(),
        ensures
            final(self).wf(),
            match r {
                Ok(sym) => {
                    &&& final(self)@ == spec_intern_strs(old(self)@, name@)
                    &&& sym.sid() == spec_intern_sym(old(self)@, name@)
                    &&& sym.sid() < final(self)@.len()
                    &&& final(self)@[sym.sid() as int] == name@
                },
                Err(e) => {
                    &&& e == InternError::TooManySymbols
                    &&& *final(self) == *old(self)
                    &&& old(self)@.len() >= u32::MAX
                    &&& !old(self)@.contains(name@)
                },
            },
    {
        let owned: String = name.to_owned();
        let n = self.strings.len();
        let mut i: usize = 0;
        while i < n
            invariant
                self == old(self),
                self.wf(),
                n == self.strings.len(),
                i <= n,
                forall|k: int| 0 <= k < i ==> self@[k] != name@,
                owned@ == name@,
            decreases n - i,
        {
            if self.strings[i] == owned {
                let sym = Symbol(i as u32);
                proof {
                    assert(self@[i as int] == name@);
                    assert(self@.contains(name@));
                    // the store has no duplicates, so `index_of` picks `i`
                    let w = self@.index_of(name@);
                    assert(self@[w] == name@);
                    assert(w == i as int);
                }
                return Ok(sym);
            }
            i += 1;
        }
        proof {
            assert(forall|k: int| 0 <= k < self@.len() ==> self@[k] != name@);
            assert(!self@.contains(name@));
        }
        if n >= u32::MAX as usize {
            return Err(InternError::TooManySymbols);
        }
        let sym = Symbol(n as u32);
        self.strings.push(owned);
        proof {
            assert(self@ =~= old(self)@.push(name@));
            assert(self@[n as int] == name@);
            assert forall|a: int, b: int| 0 <= a < b < self@.len() implies self@[a] != self@[b] by {
                if b < n as int {
                    assert(old(self)@[a] != old(self)@[b]);
                } else {
                    assert(self@[b] == name@);
                    assert(!old(self)@.contains(name@));
                    assert(old(self)@[a] == self@[a]);
                }
            }
        }
        Ok(sym)
    }

    /// Interning cannot fail while the store is below capacity; used by
    /// VM initialization, which interns a fixed handful of reserved names.
    pub fn must_intern(&mut self, name: &str) -> (sym: Symbol)
        requires
            old(self).wf(),
            old(self)@.len() < u32::MAX,
        ensures
            final(self).wf(),
            final(self)@ == spec_intern_strs(old(self)@, name@),
            sym.sid() == spec_intern_sym(old(self)@, name@),
            sym.sid() < final(self)@.len(),
            final(self)@[sym.sid() as int] == name@,
            forall|k: int| 0 <= k < old(self)@.len() ==> final(self)@[k] == old(self)@[k],
    {
        match self.intern(name) {
            Ok(sym) => sym,
            Err(_) => {
                proof {
                    assert(false);
                }
                Symbol(0)
            },
        }
    }

    /// Reverse lookup for diagnostics. `None` only for a handle minted by a
    /// foreign interner instance — a diagnostics failure, not an identity
    /// failure.
    pub fn resolve(&self, sym: Symbol) -> (r: Option<&String>)
        ensures
            match r {
                Some(s) => sym.sid() < self@.len() && s@ == self@[sym.sid() as int],
                None => sym.sid() >= self@.len(),
            },
    {
        let idx = sym.0 as usize;
        if idx < self.strings.len() {
            Some(&self.strings[idx])
        } else {
            None
        }
    }

    pub fn len(&self) -> (r: usize)
        ensures
            r == self@.len(),
    {
        self.strings.len()
    }
}

/// Interning the same name twice yields the same symbol, and resolving
/// that symbol recovers the name: the second interning neither grows the
/// store nor picks a different index.
pub proof fn lemma_intern_twice(strs: Seq<Seq<char>>, name: Seq<char>)
    requires
        forall|i: int, j: int| 0 <= i < j < strs.len() ==> strs[i] != strs[j],
    ensures
        spec_intern_strs(spec_intern_strs(strs, name), name) == spec_intern_strs(strs, name),
        spec_intern_sym(spec_intern_strs(strs, name), name) == spec_intern_sym(strs, name),
        spec_intern_strs(strs, name)[spec_intern_sym(strs, name) as int] == name,
{
    let strs1 = spec_intern_strs(strs, name);
    let sym = spec_intern_sym(strs, name);
    if strs.contains(name) {
        let w = strs.index_of(name);
        assert(strs[w] == name);
    } else {
        assert(strs1[strs.len() as int] == name);
        assert(strs1.contains(name));
    }
    assert(strs1[sym as int] == name);
    assert(strs1.contains(name));
    let w1 = strs1.index_of(name);
    assert(strs1[w1] == name);
    assert forall|i: int, j: int| 0 <= i < j < strs1.len() implies strs1[i] != strs1[j] by {
        if j < strs.len() as int {
        } else {
            assert(!strs.contains(name));
            assert(strs1[j] == name);
        }
    }
    assert(w1 == sym as int);
}

/// A store with no duplicates, as `Interner::wf` requires of the view.
pub open spec fn distinct_seq(strs: Seq<Seq<char>>) -> bool {
    forall|i: int, j: int| 0 <= i < j < strs.len() ==> strs[i] != strs[j]
}

/// The store after interning each of `names` in order.
pub open spec fn spec_intern_all_strs(strs: Seq<Seq<char>>, names: Seq<Seq<char>>) -> Seq<
    Seq<char>,
>
    decreases names.len(),
{
    if names.len() == 0 {
        strs
    } else {
        spec_intern_all_strs(spec_intern_strs(strs, names[0]), names.drop_first())
    }
}

/// The handles `intern` hands out for `names`, interned in order.
pub open spec fn spec_intern_all_syms(strs: Seq<Seq<char>>, names: Seq<Seq<char>>) -> Seq<nat>
    decreases names.len(),
{
    if names.len() == 0 {
        Seq::empty()
    } else {
        seq![spec_intern_sym(strs, names[0])] + spec_intern_all_syms(
            spec_intern_strs(strs, names[0]),
            names.drop_first(),
        )
    }
}

/// Interning a name keeps the store free of duplicates.
pub proof fn lemma_intern_strs_distinct(strs: Seq<Seq<char>>, name: Seq<char>)
    requires
        distinct_seq(strs),
    ensures
        distinct_seq(spec_intern_strs(strs, name)),
{
    let strs1 = spec_intern_strs(strs, name);
    assert forall|i: int, j: int| 0 <= i < j < strs1.len() implies strs1[i] != strs1[j] by {
        if j < strs.len() as int {
        } else {
            assert(!strs.contains(name));
            assert(strs1[j] == name);
        }
    }
}

/// In a duplicate-free store, an entry is never already among the
/// entries before it.
pub proof fn lemma_distinct_prefix_fresh(s: Seq<Seq<char>>, k: int)
    requires
        distinct_seq(s),
        0 <= k < s.len(),
    ensures
        !s.take(k).contains(s[k]),
{
    if s.take(k).contains(s[k]) {
        let i = choose|i: int| 0 <= i < s.take(k).len() && s.take(k)[i] == s[k];
        assert(s.take(k)[i] == s[i]);
    }
}

/// Interning only appends: every existing entry keeps its index.
pub proof fn lemma_intern_all_extends(strs: Seq<Seq<char>>, names: Seq<Seq<char>>)
    ensures
        spec_intern_all_strs(strs, names).len() >= strs.len(),
        forall|k: int|
            0 <= k < strs.len() ==> spec_intern_all_strs(strs, names)[k] == strs[k],
    decreases names.len(),
{
    if names.len() == 0 {
    } else {
        let strs1 = spec_intern_strs(strs, names[0]);
        lemma_intern_all_extends(strs1, names.drop_first());
        assert forall|k: int|
            0 <= k < strs.len() implies spec_intern_all_strs(strs, names)[k] == strs[k] by {
            assert(strs1[k] == strs[k]);
            assert(spec_intern_all_strs(strs1, names.drop_first())[k] == strs1[k]);
        }
    }
}

/// Interning N distinct names gives N handles that resolve back to
/// exactly the original N strings, with no two handles colliding.
pub proof fn lemma_intern_all_recovers(strs: Seq<Seq<char>>, names: Seq<Seq<char>>)
    requires
        distinct_seq(strs),
        distinct_seq(names),
    ensures
        spec_intern_all_syms(strs, names).len() == names.len(),
        forall|i: int|
            0 <= i < names.len() ==> spec_intern_all_syms(strs, names)[i]
                < spec_intern_all_strs(strs, names).len(),
        forall|i: int|
            0 <= i < names.len() ==> spec_intern_all_strs(strs, names)[spec_intern_all_syms(
                strs,
                names,
            )[i] as int] == #[trigger] names[i],
        forall|i: int, j: int|
            0 <= i < j < names.len() ==> spec_intern_all_syms(strs, names)[i]
                != spec_intern_all_syms(strs, names)[j],
    decreases names.len(),
{
    if names.len() == 0 {
    } else {
        let name0 = names[0];
        let sym0 = spec_intern_sym(strs, name0);
        let strs1 = spec_intern_strs(strs, name0);
        let rest = names.drop_first();
        let syms = spec_intern_all_syms(strs, names);
        let store = spec_intern_all_strs(strs, names);
        lemma_intern_twice(strs, name0);
        lemma_intern_strs_distinct(strs, name0);
        lemma_intern_all_recovers(strs1, rest);
        lemma_intern_all_extends(strs1, rest);
        if strs.contains(name0) {
            let w = strs.index_of(name0);
            assert(strs[w] == name0);
            assert(sym0 < strs1.len());
        } else {
            assert(sym0 < strs1.len());
        }
        assert(strs1[sym0 as int] == name0);
        assert(store == spec_intern_all_strs(strs1, rest));
        assert(store[sym0 as int] == name0);
        assert(syms[0] == sym0);
        assert forall|i: int| 0 <= i < names.len() implies syms[i] < store.len() && store[syms[i]
            as int] == #[trigger] names[i] by {
            if i == 0 {
            } else {
                assert(syms[i] == spec_intern_all_syms(strs1, rest)[i - 1]);
                assert(rest[i - 1] == names[i]);
            }
        }
        // no collisions: two handles with the same index would resolve to
        // the same string, but the names are pairwise distinct
        assert forall|i: int, j: int| 0 <= i < j < names.len() implies syms[i] != syms[j] by {
            assert(store[syms[i] as int] == names[i]);
            assert(store[syms[j] as int] == names[j]);
            assert(names[i] != names[j]);
        }
    }
}

} // verus!
