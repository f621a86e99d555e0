//! The set of updates that were already announced.

use vstd::prelude::*;

verus! {

/// An announced update: the image's repository and the new version or digest.
pub type IdentityKey = (String, String);

/// The key as a pair of character sequences.
pub open spec fn key_view(k: IdentityKey) -> (Seq<char>, Seq<char>) {
    (k.0@, k.1@)
}

/// The keys of a list, as a set.
pub open spec fn key_set(keys: Seq<IdentityKey>) -> Set<(Seq<char>, Seq<char>)> {
    keys.map_values(|k: IdentityKey| key_view(k)).to_set()
}

/// Pushing a key adds its view to the set.
pub proof fn lemma_key_set_push(keys: Seq<IdentityKey>, k: IdentityKey)
    ensures
        key_set(keys.push(k)) == key_set(keys).insert(key_view(k)),
{
    let m = keys.map_values(|k: IdentityKey| key_view(k));
    assert(keys.push(k).map_values(|k: IdentityKey| key_view(k)) =~= m.push(key_view(k)));
    m.lemma_push_to_set_commute(key_view(k));
}

/// Keys of updates that were announced. It only grows: there is no expiry and
/// no bound on its size.
pub struct DedupCache {
    keys: Vec<IdentityKey>,
}

impl View for DedupCache {
    type V = Set<(Seq<char>, Seq<char>)>;

    closed spec fn view(&self) -> Set<(Seq<char>, Seq<char>)> {
        key_set(self.keys@)
    }
}

impl DedupCache {
    /// No key is stored twice.
    pub closed spec fn wf(&self) -> bool {
        forall|i: int, j: int|
            0 <= i < j < self.keys@.len() ==> key_view(#[trigger] self.keys@[i]) != key_view(
                #[trigger] self.keys@[j],
            )
    }

    /// An empty cache.
    pub fn new() -> (r: DedupCache)
        ensures
            r.wf(),
            r@ == Set::<(Seq<char>, Seq<char>)>::empty(),
    {
        let r = DedupCache { keys: Vec::new() };
        assert(r.keys@.map_values(|k: IdentityKey| key_view(k)) =~= Seq::empty());
        r
    }

    /// Whether the key was announced before.
    pub fn contains(&self, key: &IdentityKey) -> (r: bool)
        ensures
            r == self@.contains(key_view(*key)),
    {
        let ghost vs = self.keys@.map_values(|k: IdentityKey| key_view(k));
        let mut i: usize = 0;
        while i < self.keys.len()
            invariant
                i <= self.keys@.len(),
                vs == self.keys@.map_values(|k: IdentityKey| key_view(k)),
                forall|j: int| 0 <= j < i ==> vs[j] != key_view(*key),
            decreases self.keys@.len() - i,
        {
            let k = &self.keys[i];
            if k.0 == key.0 && k.1 == key.1 {
                assert(vs[i as int] == key_view(*key));
                return true;
            }
            i = i + 1;
        }
        assert(!vs.contains(key_view(*key)));
        false
    }

    /// Adds one key; a key that is already there is left as it is.
    pub fn insert(&mut self, key: IdentityKey)
        requires
            old(self).wf(),
        ensures
            final(self).wf(),
            final(self)@ == old(self)@.insert(key_view(key)),
    {
        if !self.contains(&key) {
            let ghost before = self.keys@;
            self.keys.push(key);
            proof {
                lemma_key_set_push(before, key);
            }
            assert(self.keys@.map_values(|k: IdentityKey| key_view(k)) =~= before.map_values(
                |k: IdentityKey| key_view(k),
            ).push(key_view(key)));
            assert forall|i: int, j: int| 0 <= i < j < self.keys@.len() implies key_view(
                #[trigger] self.keys@[i],
            ) != key_view(#[trigger] self.keys@[j]) by {
                if j == before.len() {
                    assert(before.map_values(|k: IdentityKey| key_view(k))[i] == key_view(
                        before[i],
                    ));
                }
            }
        }
        assert(self@ =~= old(self)@.insert(key_view(key)));
    }

    /// Adds every key of the list; keys already present are left as they are.
    pub fn insert_all(&mut self, keys: &Vec<IdentityKey>)
        requires
            old(self).wf(),
        ensures
            final(self).wf(),
            final(self)@ == old(self)@.union(key_set(keys@)),
    {
        let mut i: usize = 0;
        while i < keys.len()
            invariant
                i <= keys@.len(),
                self.wf(),
                self@ == old(self)@.union(key_set(keys@.subrange(0, i as int))),
            decreases keys@.len() - i,
        {
            let ghost prefix = keys@.subrange(0, i as int);
            let k = &keys[i];
            self.insert((k.0.clone(), k.1.clone()));
            assert(keys@.subrange(0, i + 1) =~= prefix.push(keys@[i as int]));
            proof {
                lemma_key_set_push(prefix, keys@[i as int]);
            }
            i = i + 1;
        }
        assert(keys@.subrange(0, i as int) =~= keys@);
        assert(self@ =~= old(self)@.union(key_set(keys@)));
    }
}

} // verus!
