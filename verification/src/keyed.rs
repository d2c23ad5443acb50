//! A table from string keys to values with at most one entry per key.
//!
//! This is the shape behind every registry in the engine: "check if present"
//! and "insert if absent" both go through [`KeyTable::set`] and
//! [`KeyTable::get`], whose contracts speak of one abstract map, so a key can
//! never end up with two live entries.

use vstd::prelude::*;

verus! {

/// Relies on std's `==` for `str`: true exactly when the two slices hold
/// the same characters.
#[verifier::external_body]
pub fn str_eq(a: &str, b: &str) -> (r: bool)
    ensures
        r == (a@ == b@),
{
    a == b
}

/// What a trimmed string holds. Relies on `str::trim`; named because its
/// result depends on the characters alone.
pub uninterp spec fn trimmed(s: Seq<char>) -> Seq<char>;

/// Relies on str::trim: leading and trailing whitespace removed, a function
/// of the characters alone.
#[verifier::external_body]
pub fn str_trim(s: &str) -> (r: &str)
    ensures
        r@ == trimmed(s@),
{
    s.trim()
}

/// No two entries carry the same key.
pub open spec fn keys_unique<V>(s: Seq<(String, V)>) -> bool {
    forall|i: int, j: int| 0 <= i < j < s.len() ==> s[i].0@ != s[j].0@
}

/// The abstract map that a sequence of key-value pairs denotes; later
/// entries win, though a well-formed table never holds a key twice.
pub open spec fn map_of<V>(s: Seq<(String, V)>) -> Map<Seq<char>, V>
    decreases s.len(),
{
    if s.len() == 0 {
        Map::empty()
    } else {
        map_of(s.drop_last()).insert(s.last().0@, s.last().1)
    }
}

/// A key is in the abstract map exactly when some entry carries it.
pub proof fn lemma_map_of_contains<V>(s: Seq<(String, V)>, k: Seq<char>)
    ensures
        map_of(s).contains_key(k) <==> exists|i: int| 0 <= i < s.len() && s[i].0@ == k,
    decreases s.len(),
{
    if s.len() > 0 {
        lemma_map_of_contains(s.drop_last(), k);
        if map_of(s).contains_key(k) {
            if s.last().0@ != k {
                let i = choose|i: int| 0 <= i < s.drop_last().len() && s.drop_last()[i].0@ == k;
                assert(s[i].0@ == k);
            } else {
                assert(s[s.len() - 1].0@ == k);
            }
        } else {
            assert(forall|i: int| 0 <= i < s.len() - 1 ==> s.drop_last()[i] == s[i]);
        }
    }
}

/// Under unique keys, the abstract map sends each entry's key to that
/// entry's value.
pub proof fn lemma_map_of_index<V>(s: Seq<(String, V)>, i: int)
    requires
        keys_unique(s),
        0 <= i < s.len(),
    ensures
        map_of(s).contains_key(s[i].0@),
        map_of(s)[s[i].0@] == s[i].1,
    decreases s.len(),
{
    if i == s.len() - 1 {
    } else {
        assert(s.drop_last()[i] == s[i]);
        lemma_map_of_index(s.drop_last(), i);
        assert(s.last().0@ != s[i].0@);
    }
}

/// Replacing the value at one entry replaces just that key's image.
pub proof fn lemma_map_of_update<V>(s: Seq<(String, V)>, i: int, p: (String, V))
    requires
        keys_unique(s),
        0 <= i < s.len(),
        p.0@ == s[i].0@,
    ensures
        map_of(s.update(i, p)) == map_of(s).insert(p.0@, p.1),
        keys_unique(s.update(i, p)),
    decreases s.len(),
{
    let t = s.update(i, p);
    assert(t.len() == s.len());
    if i == s.len() - 1 {
        assert(t.drop_last() =~= s.drop_last());
        assert(t.last() == p);
    } else {
        assert(t.drop_last() =~= s.drop_last().update(i, p));
        assert(s.drop_last()[i] == s[i]);
        lemma_map_of_update(s.drop_last(), i, p);
        assert(t.last() == s.last());
        assert(s.last().0@ != p.0@);
        assert(map_of(t) =~= map_of(s).insert(p.0@, p.1));
    }
    assert(forall|x: int, y: int| 0 <= x < y < t.len() ==> t[x].0@ != t[y].0@);
}

/// Appending an entry with a fresh key inserts it into the abstract map.
pub proof fn lemma_map_of_push<V>(s: Seq<(String, V)>, p: (String, V))
    requires
        keys_unique(s),
        !map_of(s).contains_key(p.0@),
    ensures
        map_of(s.push(p)) == map_of(s).insert(p.0@, p.1),
        keys_unique(s.push(p)),
{
    let t = s.push(p);
    assert(t.drop_last() =~= s);
    assert(t.last() == p);
    lemma_map_of_contains(s, p.0@);
    assert(forall|x: int, y: int| 0 <= x < y < t.len() ==> t[x].0@ != t[y].0@);
}

/// Under unique keys, the abstract map has exactly one binding per entry.
pub proof fn lemma_map_of_len<V>(s: Seq<(String, V)>)
    requires
        keys_unique(s),
    ensures
        map_of(s).dom().finite(),
        map_of(s).dom().len() == s.len(),
    decreases s.len(),
{
    if s.len() > 0 {
        lemma_map_of_len(s.drop_last());
        lemma_map_of_contains(s.drop_last(), s.last().0@);
    }
}

/// The table: a vector of pairs whose keys are pairwise distinct.
pub struct KeyTable<V> {
    entries: Vec<(String, V)>,
}

impl<V> View for KeyTable<V> {
    type V = Map<Seq<char>, V>;

    closed spec fn view(&self) -> Map<Seq<char>, V> {
        map_of(self.entries@)
    }
}

impl<V> KeyTable<V> {
    #[verifier::type_invariant]
    closed spec fn wf(self) -> bool {
        keys_unique(self.entries@)
    }

    pub fn new() -> (s: Self)
        ensures
            s@ == Map::<Seq<char>, V>::empty(),
    {
        KeyTable { entries: Vec::new() }
    }

    /// Looks a key up; `Some` exactly when the key has an entry.
    pub fn get(&self, key: &str) -> (r: Option<&V>)
        ensures
            match r {
                Some(v) => self@.contains_key(key@) && *v == self@[key@],
                None => !self@.contains_key(key@),
            },
    {
        proof {
            use_type_invariant(self);
        }
        let n = self.entries.len();
        let mut i: usize = 0;
        while i < n
            invariant
                n == self.entries@.len(),
                0 <= i <= n,
                keys_unique(self.entries@),
                forall|j: int| 0 <= j < i ==> self.entries@[j].0@ != key@,
            decreases n - i,
        {
            if str_eq(self.entries[i].0.as_str(), key) {
                proof {
                    lemma_map_of_index(self.entries@, i as int);
                }
                return Some(&self.entries[i].1);
            }
            i = i + 1;
        }
        proof {
            lemma_map_of_contains(self.entries@, key@);
        }
        None
    }

    /// Binds a key to a value: the single atomic "check if present, insert
    /// or replace" step every registry path goes through.
    pub fn set(&mut self, key: String, value: V)
        ensures
            final(self)@ == old(self)@.insert(key@, value),
    {
        proof {
            use_type_invariant(&*self);
        }
        let mut taken: Vec<(String, V)> = Vec::new();
        core::mem::swap(&mut taken, &mut self.entries);
        let ghost orig = taken@;
        let n = taken.len();
        let mut found: Option<usize> = None;
        let mut i: usize = 0;
        while i < n
            invariant_except_break
                taken@ == orig,
                n == orig.len(),
                0 <= i <= n,
                keys_unique(orig),
                found.is_none(),
                forall|j: int| 0 <= j < i ==> orig[j].0@ != key@,
            ensures
                match found {
                    Some(f) => 0 <= f < n && orig[f as int].0@ == key@,
                    None => forall|j: int| 0 <= j < orig.len() ==> orig[j].0@ != key@,
                },
                taken@ == orig,
                keys_unique(orig),
            decreases n - i,
        {
            if str_eq(taken[i].0.as_str(), key.as_str()) {
                found = Some(i);
                break ;
            }
            i = i + 1;
        }
        match found {
            Some(f) => {
                proof {
                    lemma_map_of_update(orig, f as int, (key, value));
                }
                taken[f] = (key, value);
            },
            None => {
                proof {
                    lemma_map_of_contains(orig, key@);
                    lemma_map_of_push(orig, (key, value));
                }
                taken.push((key, value));
            },
        }
        core::mem::swap(&mut taken, &mut self.entries);
    }

    /// The entries as plain pairs, for read-only walks; their abstract map
    /// is the table's view and their keys are pairwise distinct.
    pub fn pairs(&self) -> (r: &Vec<(String, V)>)
        ensures
            map_of(r@) == self@,
            keys_unique(r@),
    {
        proof {
            use_type_invariant(self);
        }
        &self.entries
    }
}

} // verus!
