//! ConfigMap: a mapping from configuration key to value.
//!
//! Keys are unique and a later insertion for an existing key overwrites the
//! earlier value (last write wins). The map is viewed as a mathematical
//! `Map<Seq<char>, Seq<char>>`; insertion order is irrelevant to the view.

use vstd::prelude::*;
use vstd::string::*;

verus! {

/// The views of a sequence of owned key/value entries.
pub open spec fn kv_views(es: Seq<(String, String)>) -> Seq<(Seq<char>, Seq<char>)> {
    es.map_values(|p: (String, String)| (p.0@, p.1@))
}

/// The mapping a sequence of entries denotes, inserting in order so that a
/// later entry for the same key overwrites an earlier one.
pub open spec fn map_of_entries(es: Seq<(Seq<char>, Seq<char>)>) -> Map<Seq<char>, Seq<char>>
    decreases es.len(),
{
    if es.len() == 0 {
        Map::empty()
    } else {
        map_of_entries(es.drop_last()).insert(es.last().0, es.last().1)
    }
}

/// Pairwise-distinct keys.
pub open spec fn entry_keys_distinct(es: Seq<(Seq<char>, Seq<char>)>) -> bool {
    forall|i: int, j: int| 0 <= i < j < es.len() ==> es[i].0 != es[j].0
}

/// With distinct keys, the denoted mapping holds exactly the entries: its
/// domain is finite and as large as the entry list, and membership is
/// index-wise.
pub proof fn lemma_map_of_entries_props(es: Seq<(Seq<char>, Seq<char>)>)
    requires
        entry_keys_distinct(es),
    ensures
        map_of_entries(es).dom().finite(),
        map_of_entries(es).dom().len() == es.len(),
        forall|k: Seq<char>|
            map_of_entries(es).contains_key(k) <==> exists|i: int|
                0 <= i < es.len() && es[i].0 == k,
        forall|i: int|
            0 <= i < es.len() ==> map_of_entries(es).contains_key(#[trigger] es[i].0)
                && map_of_entries(es)[es[i].0] == es[i].1,
    decreases es.len(),
{
    if es.len() == 0 {
    } else {
        let prefix = es.drop_last();
        lemma_map_of_entries_props(prefix);
        let last = es.last();
        let m0 = map_of_entries(prefix);
        let m = map_of_entries(es);
        assert forall|i: int| 0 <= i < prefix.len() implies prefix[i] == es[i] by {}
        assert(!m0.contains_key(last.0)) by {
            if m0.contains_key(last.0) {
                let i = choose|i: int| 0 <= i < prefix.len() && prefix[i].0 == last.0;
                assert(es[i].0 == es[es.len() - 1].0);
            }
        }
        assert(m.dom() =~= m0.dom().insert(last.0));
        assert forall|k: Seq<char>| m.contains_key(k) implies exists|i: int|
            0 <= i < es.len() && es[i].0 == k by {
            if k == last.0 {
                assert(es[es.len() - 1].0 == k);
            } else {
                let i = choose|i: int| 0 <= i < prefix.len() && prefix[i].0 == k;
                assert(es[i].0 == k);
            }
        }
        assert forall|k: Seq<char>| (exists|i: int| 0 <= i < es.len() && es[i].0 == k)
            implies m.contains_key(k) by {
            let i = choose|i: int| 0 <= i < es.len() && es[i].0 == k;
            if i < es.len() - 1 {
                assert(prefix[i].0 == k);
            }
        }
        assert forall|i: int| 0 <= i < es.len() implies m.contains_key(#[trigger] es[i].0)
            && m[es[i].0] == es[i].1 by {
            if i < es.len() - 1 {
                assert(prefix[i].0 == es[i].0);
                assert(es[i].0 != last.0);
                assert(m[es[i].0] == m0[prefix[i].0]);
            }
        }
    }
}

/// Replacing the entry that holds a key with a new value for the same key
/// denotes the same mapping as inserting that key/value pair.
pub proof fn lemma_map_of_entries_update(
    es: Seq<(Seq<char>, Seq<char>)>,
    i: int,
    k: Seq<char>,
    v: Seq<char>,
)
    requires
        entry_keys_distinct(es),
        0 <= i < es.len(),
        es[i].0 == k,
    ensures
        map_of_entries(es.update(i, (k, v))) == map_of_entries(es).insert(k, v),
    decreases es.len(),
{
    let es2 = es.update(i, (k, v));
    if i == es.len() - 1 {
        assert(es2.drop_last() =~= es.drop_last());
        assert(es2.last() == (k, v));
        assert(map_of_entries(es.drop_last()).insert(k, es.last().1).insert(k, v)
            =~= map_of_entries(es.drop_last()).insert(k, v));
    } else {
        assert(es2.drop_last() =~= es.drop_last().update(i, (k, v)));
        assert(es2.last() == es.last());
        lemma_map_of_entries_update(es.drop_last(), i, k, v);
        let last = es.last();
        assert(last.0 != k);
        assert(map_of_entries(es.drop_last()).insert(k, v).insert(last.0, last.1)
            =~= map_of_entries(es.drop_last()).insert(last.0, last.1).insert(k, v));
    }
}

/// Character-wise string equality, proved against the string views.
pub fn str_eq(a: &str, b: &str) -> (r: bool)
    ensures
        r == (a@ == b@),
{
    let na = a.unicode_len();
    let nb = b.unicode_len();
    if na != nb {
        return false;
    }
    let mut i: usize = 0;
    while i < na
        invariant
            0 <= i <= na,
            na == a@.len(),
            na == b@.len(),
            forall|j: int| 0 <= j < i ==> a@[j] == b@[j],
        decreases na - i,
    {
        if a.get_char(i) != b.get_char(i) {
            return false;
        }
        i += 1;
    }
    proof {
        assert(a@ =~= b@);
    }
    true
}

/// A key-value lookup table with unique keys; last write wins.
pub struct ConfigMap {
    entries: Vec<(String, String)>,
}

impl View for ConfigMap {
    type V = Map<Seq<char>, Seq<char>>;

    closed spec fn view(&self) -> Map<Seq<char>, Seq<char>> {
        map_of_entries(kv_views(self.entries@))
    }
}

impl ConfigMap {
    #[verifier::type_invariant]
    spec fn distinct_keys(self) -> bool {
        entry_keys_distinct(kv_views(self.entries@))
    }

    /// An empty mapping.
    pub fn new() -> (r: Self)
        ensures
            r@ == Map::<Seq<char>, Seq<char>>::empty(),
    {
        let r = ConfigMap { entries: Vec::new() };
        proof {
            assert(kv_views(r.entries@) =~= Seq::<(Seq<char>, Seq<char>)>::empty());
        }
        r
    }

    /// The number of keys in the mapping.
    pub fn len(&self) -> (r: usize)
        ensures
            r as nat == self@.dom().len(),
    {
        proof {
            use_type_invariant(self);
            lemma_map_of_entries_props(kv_views(self.entries@));
        }
        self.entries.len()
    }

    /// Whether the mapping holds no keys.
    pub fn is_empty(&self) -> (r: bool)
        ensures
            r == (self@ == Map::<Seq<char>, Seq<char>>::empty()),
    {
        proof {
            use_type_invariant(self);
            lemma_map_of_entries_props(kv_views(self.entries@));
            if self.entries@.len() == 0 {
                assert(self@.dom() =~= Set::<Seq<char>>::empty());
                assert(self@ =~= Map::<Seq<char>, Seq<char>>::empty());
            } else {
                assert(self@.contains_key(kv_views(self.entries@)[0].0));
            }
        }
        self.entries.len() == 0
    }

    /// Binds `key` to `value`, overwriting any earlier value for `key`.
    pub fn insert(&mut self, key: String, value: String)
        ensures
            final(self)@ == old(self)@.insert(key@, value@),
    {
        proof {
            use_type_invariant(&*self);
        }
        let mut es: Vec<(String, String)> = Vec::new();
        std::mem::swap(&mut es, &mut self.entries);
        let ghost old_es = kv_views(es@);
        let n = es.len();
        let mut i: usize = 0;
        let mut found = false;
        while i < n && !found
            invariant
                0 <= i <= n,
                n == es@.len(),
                kv_views(es@) == old_es,
                entry_keys_distinct(old_es),
                !found ==> forall|j: int| 0 <= j < i ==> old_es[j].0 != key@,
                found ==> i < n && old_es[i as int].0 == key@,
            decreases n - i + if found { 0int } else { 1int },
        {
            if es[i].0 == key {
                found = true;
            } else {
                i += 1;
            }
        }
        if found {
            es[i] = (key, value);
            proof {
                assert(kv_views(es@) =~= old_es.update(i as int, (key@, value@)));
                lemma_map_of_entries_update(old_es, i as int, key@, value@);
            }
        } else {
            es.push((key, value));
            proof {
                assert(kv_views(es@) =~= old_es.push((key@, value@)));
                assert(kv_views(es@).drop_last() =~= old_es);
            }
        }
        self.entries = es;
    }

    /// Looks a key up; `None` exactly when the key is absent.
    pub fn get<'a>(&'a self, key: &str) -> (r: Option<&'a String>)
        ensures
            match r {
                Some(v) => self@.contains_key(key@) && v@ == self@[key@],
                None => !self@.contains_key(key@),
            },
    {
        let n = self.entries.len();
        let mut i: usize = 0;
        while i < n
            invariant
                0 <= i <= n,
                n == self.entries@.len(),
                forall|j: int| 0 <= j < i ==> kv_views(self.entries@)[j].0 != key@,
            decreases n - i,
        {
            if str_eq(self.entries[i].0.as_str(), key) {
                proof {
                    use_type_invariant(self);
                    lemma_map_of_entries_props(kv_views(self.entries@));
                    let es = kv_views(self.entries@);
                    assert(es[i as int] == (self.entries@[i as int].0@, self.entries@[i as int].1@));
                    assert(es[i as int].0 == key@);
                    assert(self@.contains_key(es[i as int].0) && self@[es[i as int].0]
                        == es[i as int].1);
                }
                return Some(&self.entries[i].1);
            }
            i += 1;
        }
        proof {
            use_type_invariant(self);
            lemma_map_of_entries_props(kv_views(self.entries@));
            if self@.contains_key(key@) {
                let j = choose|j: int|
                    0 <= j < kv_views(self.entries@).len() && kv_views(self.entries@)[j].0 == key@;
                assert(kv_views(self.entries@)[j].0 != key@);
            }
        }
        None
    }
}

} // verus!
