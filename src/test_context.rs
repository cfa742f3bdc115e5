//! The registry of mocked functions: a map from mocking key to an opaque,
//! address-sized handle of the replacement function.
//!
//! A key is set at most once between two clears; setting it again, or reading
//! a key that was never set, is reported as an error and leaves the registry
//! as it was. The registry checks nothing of what a handle stands for: the
//! caller that turns a handle back into a callable must ask for the type that
//! was stored under that key.
use vstd::prelude::*;

verus! {

/// A misuse of the registry.
#[derive(Debug, PartialEq)]
pub enum RegistryError {
    /// The key was set already since the last clear.
    DuplicateKey(String),
    /// The key was not set since the last clear.
    MissingKey(String),
}

/// The registry that setting `k` to `v` in a registry holding `m` leaves,
/// or `None` where `k` is set already and the call fails.
pub open spec fn set_result(m: Map<Seq<char>, usize>, k: Seq<char>, v: usize) -> Option<
    Map<Seq<char>, usize>,
> {
    if m.contains_key(k) {
        None
    } else {
        Some(m.insert(k, v))
    }
}

/// The handle that reading `k` from a registry holding `m` gives, or `None`
/// where `k` is not set and the call fails.
pub open spec fn get_result(m: Map<Seq<char>, usize>, k: Seq<char>) -> Option<usize> {
    if m.contains_key(k) {
        Some(m[k])
    } else {
        None
    }
}

/// The registry that the calls `set(k, v)` for each `(k, v)` of `sets`, in
/// order, leave behind them, starting from `m`; a call that fails changes nothing.
pub open spec fn after_sets(m: Map<Seq<char>, usize>, sets: Seq<(Seq<char>, usize)>) -> Map<
    Seq<char>,
    usize,
>
    decreases sets.len(),
{
    if sets.len() == 0 {
        m
    } else {
        let next = match set_result(m, sets[0].0, sets[0].1) {
            Some(m2) => m2,
            None => m,
        };
        after_sets(next, sets.drop_first())
    }
}

/// Setting a key that is not set succeeds, and a read of the key then gives
/// the handle that was set.
pub proof fn lemma_set_then_get(m: Map<Seq<char>, usize>, k: Seq<char>, h: usize)
    ensures
        set_result(m, k, h) is Some <==> !m.contains_key(k),
        set_result(m, k, h) matches Some(m2) ==> get_result(m2, k) == Some(h),
{
}

/// Once a key is set, setting it again fails, and the key keeps the first handle.
pub proof fn lemma_duplicate_set(m: Map<Seq<char>, usize>, k: Seq<char>, h1: usize, h2: usize)
    requires
        set_result(m, k, h1) is Some,
    ensures
        set_result(set_result(m, k, h1)->0, k, h2) is None,
        get_result(set_result(m, k, h1)->0, k) == Some(h1),
{
}

/// A read of a key that no call set since the registry was last empty fails.
pub proof fn lemma_unset_key_missing(sets: Seq<(Seq<char>, usize)>, k: Seq<char>)
    requires
        forall|t: int| 0 <= t < sets.len() ==> (#[trigger] sets[t]).0 != k,
    ensures
        get_result(after_sets(Map::empty(), sets), k) is None,
{
    lemma_after_sets_keeps_out(Map::empty(), sets, k);
}

proof fn lemma_after_sets_keeps_out(
    m: Map<Seq<char>, usize>,
    sets: Seq<(Seq<char>, usize)>,
    k: Seq<char>,
)
    requires
        !m.contains_key(k),
        forall|t: int| 0 <= t < sets.len() ==> (#[trigger] sets[t]).0 != k,
    ensures
        !after_sets(m, sets).contains_key(k),
    decreases sets.len(),
{
    if sets.len() > 0 {
        let next = match set_result(m, sets[0].0, sets[0].1) {
            Some(m2) => m2,
            None => m,
        };
        assert(sets[0].0 != k);
        assert forall|t: int| 0 <= t < sets.len() - 1 implies (
        #[trigger] sets.drop_first()[t]).0 != k by {
            assert(sets.drop_first()[t] == sets[t + 1]);
        }
        lemma_after_sets_keeps_out(next, sets.drop_first(), k);
    }
}

/// After a clear, whatever was set before, every read fails and every key
/// can be set anew.
pub proof fn lemma_clear_resets(k: Seq<char>, h: usize)
    ensures
        get_result(Map::empty(), k) is None,
        set_result(Map::empty(), k, h) == Some(Map::<Seq<char>, usize>::empty().insert(k, h)),
{
}

/// The registry of one epoch: the keys set since it was made or last cleared.
pub struct TextContext {
    entries: Vec<(String, usize)>,
}

impl TextContext {
    /// No two entries share a key.
    pub closed spec fn wf(&self) -> bool {
        forall|i: int, j: int|
            0 <= i < j < self.entries@.len() ==> #[trigger] self.entries@[i].0@
                != #[trigger] self.entries@[j].0@
    }

    spec fn has_key_at(&self, i: int, k: Seq<char>) -> bool {
        0 <= i < self.entries@.len() && self.entries@[i].0@ == k
    }
}

impl View for TextContext {
    type V = Map<Seq<char>, usize>;

    closed spec fn view(&self) -> Map<Seq<char>, usize> {
        Map::new(
            |k: Seq<char>| exists|i: int| self.has_key_at(i, k),
            |k: Seq<char>| self.entries@[choose|i: int| self.has_key_at(i, k)].1,
        )
    }
}

/// Starts an epoch: a registry with no key set.
pub fn get_test_context() -> (ctx: TextContext)
    ensures
        ctx.wf(),
        ctx@ == Map::<Seq<char>, usize>::empty(),
{
    let ctx = TextContext { entries: Vec::new() };
    assert(ctx@ =~= Map::<Seq<char>, usize>::empty());
    ctx
}

impl TextContext {
    /// The index of the entry with key `key`, if there is one.
    fn find(&self, key: &String) -> (r: Option<usize>)
        requires
            self.wf(),
        ensures
            match r {
                Some(i) => self.has_key_at(i as int, key@),
                None => !self@.contains_key(key@),
            },
    {
        let mut i: usize = 0;
        while i < self.entries.len()
            invariant
                i <= self.entries@.len(),
                forall|j: int| 0 <= j < i ==> self.entries@[j].0@ != key@,
            decreases self.entries@.len() - i,
        {
            if self.entries[i].0 == *key {
                return Some(i);
            }
            i = i + 1;
        }
        None
    }

    /// Stores `value` under `key`, unless `key` is set already.
    pub fn set(&mut self, key: String, value: usize) -> (r: Result<(), RegistryError>)
        requires
            old(self).wf(),
        ensures
            final(self).wf(),
            match set_result(old(self)@, key@, value) {
                None => r == Err::<(), RegistryError>(RegistryError::DuplicateKey(key))
                    && final(self)@ == old(self)@,
                Some(m) => r is Ok && final(self)@ == m,
            },
    {
        if self.find(&key).is_some() {
            return Err(RegistryError::DuplicateKey(key));
        }
        let ghost prev = *self;
        let ghost k = key@;
        self.entries.push((key, value));
        let ghost n = prev.entries@.len() as int;
        assert(self.has_key_at(n, k));
        assert forall|j: int| 0 <= j < n implies self.entries@[j] == prev.entries@[j]
            && prev.entries@[j].0@ != k by {
            if prev.entries@[j].0@ == k {
                assert(prev.has_key_at(j, k));
            }
        }
        assert forall|k2: Seq<char>| #[trigger] self@.contains_key(k2) <==> prev@.insert(
            k,
            value,
        ).contains_key(k2) by {
            if k2 != k && self@.contains_key(k2) {
                let j = choose|j: int| self.has_key_at(j, k2);
                assert(prev.has_key_at(j, k2));
            }
            if prev@.contains_key(k2) {
                let j = choose|j: int| prev.has_key_at(j, k2);
                assert(self.has_key_at(j, k2));
            }
        }
        assert forall|k2: Seq<char>| #[trigger] self@.contains_key(k2) implies self@[k2] == prev@.insert(
            k,
            value,
        )[k2] by {
            let j = choose|j: int| self.has_key_at(j, k2);
            if k2 == k {
                assert(j == n);
            } else {
                let j2 = choose|j2: int| prev.has_key_at(j2, k2);
                assert(self.has_key_at(j2, k2));
                assert(j == j2);
            }
        }
        assert(self@ =~= prev@.insert(k, value));
        Ok(())
    }

    /// The handle stored under `key`.
    pub fn get(&self, key: &str) -> (r: Result<usize, RegistryError>)
        requires
            self.wf(),
        ensures
            match get_result(self@, key@) {
                None => r matches Err(RegistryError::MissingKey(k)) && k@ == key@,
                Some(h) => r == Ok::<usize, RegistryError>(h),
            },
    {
        let key = key.to_owned();
        match self.find(&key) {
            Some(i) => {
                assert(self.has_key_at(i as int, key@));
                Ok(self.entries[i].1)
            },
            None => Err(RegistryError::MissingKey(key)),
        }
    }

    /// Ends the epoch: every key is unset.
    pub fn clear(&mut self)
        ensures
            final(self).wf(),
            final(self)@ == Map::<Seq<char>, usize>::empty(),
    {
        self.entries.clear();
        assert(self@ =~= Map::<Seq<char>, usize>::empty());
    }
}

} // verus!
