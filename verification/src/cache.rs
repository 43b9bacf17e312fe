//! The persisted state: credentials and their expiry, the append-only
//! seen-set of announced recording ids, and the per-folder color map.
//!
//! The process around the library loads and saves this record as one JSON
//! document; the library owns every mutation of it.

use vstd::prelude::*;
use crate::config::Config;

verus! {

/// The expiry written into a cache synthesized from the configuration: a UTC
/// instant far enough in the past that the first cycle forces a refresh
/// (2020-01-01T00:00:00Z in seconds since the Unix epoch).
pub const INITIAL_TOKEN_EXPIRY: i64 = 1577836800;

/// The map from folder id to its announcement color, a 24-bit RGB integer.
///
/// Backed by a vector of pairs with pairwise-distinct keys; its view is the
/// finite map those pairs denote.
#[derive(Debug, Clone)]
pub struct ColorMap {
    entries: Vec<(String, u32)>,
}

/// The finite map denoted by a sequence of key-value pairs, later pairs
/// winning.
spec fn map_of(s: Seq<(String, u32)>) -> Map<Seq<char>, u32>
    decreases s.len(),
{
    if s.len() == 0 {
        Map::empty()
    } else {
        map_of(s.drop_last()).insert(s.last().0@, s.last().1)
    }
}

/// A key is in `map_of(s)` exactly when some pair of `s` carries it.
proof fn lemma_map_of_contains(s: Seq<(String, u32)>, k: Seq<char>)
    ensures
        map_of(s).contains_key(k) <==> exists|i: int| 0 <= i < s.len() && s[i].0@ == k,
    decreases s.len(),
{
    if s.len() > 0 {
        lemma_map_of_contains(s.drop_last(), k);
        if s.last().0@ != k && map_of(s).contains_key(k) {
            let i = choose|i: int| 0 <= i < s.drop_last().len() && s.drop_last()[i].0@ == k;
            assert(s[i].0@ == k);
        }
        if exists|i: int| 0 <= i < s.len() && s[i].0@ == k {
            let i = choose|i: int| 0 <= i < s.len() && s[i].0@ == k;
            if i < s.len() - 1 {
                assert(s.drop_last()[i].0@ == k);
            }
        }
    }
}

impl View for ColorMap {
    type V = Map<Seq<char>, u32>;

    closed spec fn view(&self) -> Map<Seq<char>, u32> {
        map_of(self.entries@)
    }
}

impl ColorMap {
    /// The keys of the entries are pairwise distinct, so lookups are
    /// unambiguous and the persisted form has no duplicate keys.
    pub closed spec fn wf(self) -> bool {
        forall|i: int, j: int|
            0 <= i < j < self.entries@.len() ==> (#[trigger] self.entries@[i]).0@ != (
            #[trigger] self.entries@[j]).0@
    }

    /// Creates an empty map.
    pub fn new() -> (m: ColorMap)
        ensures
            m@ == Map::<Seq<char>, u32>::empty(),
            m.wf(),
    {
        ColorMap { entries: Vec::new() }
    }

    /// The number of folders that have a color.
    pub fn len(&self) -> (n: usize)
        requires
            self.wf(),
        ensures
            n == self@.dom().len(),
    {
        proof {
            self.lemma_len_entries();
        }
        self.entries.len()
    }

    /// The backing key-value pairs, for persisting the map; the pair at each
    /// index carries that key's color.
    pub fn entries(&self) -> (es: &Vec<(String, u32)>)
        requires
            self.wf(),
        ensures
            es@.len() == self@.dom().len(),
            forall|i: int|
                0 <= i < es@.len() ==> self@.contains_key((#[trigger] es@[i]).0@)
                    && self@[es@[i].0@] == es@[i].1,
    {
        proof {
            self.lemma_len_entries();
            assert forall|i: int| 0 <= i < self.entries@.len() implies self@.contains_key(
                (#[trigger] self.entries@[i]).0@) && self@[self.entries@[i].0@]
                == self.entries@[i].1 by {
                lemma_map_of_contains(self.entries@, self.entries@[i].0@);
                lemma_map_of_get(self.entries@, self.entries@[i].0@, i);
            }
        }
        &self.entries
    }

    /// Whether `k` has a color.
    pub fn contains_key(&self, k: &String) -> (r: bool)
        ensures
            r == self@.contains_key(k@),
    {
        proof {
            lemma_map_of_contains(self.entries@, k@);
        }
        let mut i: usize = 0;
        while i < self.entries.len()
            invariant
                0 <= i <= self.entries@.len(),
                forall|j: int| 0 <= j < i ==> (#[trigger] self.entries@[j]).0@ != k@,
            decreases self.entries@.len() - i,
        {
            if self.entries[i].0 == *k {
                proof {
                    lemma_map_of_contains(self.entries@, k@);
                }
                return true;
            }
            i += 1;
        }
        false
    }

    /// The color of `k`, if it has one.
    pub fn get(&self, k: &String) -> (r: Option<u32>)
        requires
            self.wf(),
        ensures
            match r {
                Some(c) => self@.contains_key(k@) && c == self@[k@],
                None => !self@.contains_key(k@),
            },
    {
        proof {
            lemma_map_of_contains(self.entries@, k@);
        }
        let mut i: usize = 0;
        while i < self.entries.len()
            invariant
                self.wf(),
                0 <= i <= self.entries@.len(),
                forall|j: int| 0 <= j < i ==> (#[trigger] self.entries@[j]).0@ != k@,
            decreases self.entries@.len() - i,
        {
            if self.entries[i].0 == *k {
                proof {
                    lemma_map_of_get(self.entries@, k@, i as int);
                }
                return Some(self.entries[i].1);
            }
            i += 1;
        }
        None
    }

    /// Gives `k` the color `v`. Existing entries are never overwritten: the
    /// caller checks membership first.
    pub fn insert(&mut self, k: String, v: u32)
        requires
            old(self).wf(),
            !old(self)@.contains_key(k@),
        ensures
            final(self)@ == old(self)@.insert(k@, v),
            final(self).wf(),
    {
        proof {
            lemma_map_of_contains(self.entries@, k@);
        }
        let ghost s0 = self.entries@;
        self.entries.push((k, v));
        proof {
            assert(self.entries@.drop_last() =~= s0);
        }
    }

    /// With distinct keys each entry carries its key's value in the map view.
    proof fn lemma_len_entries(&self)
        requires
            self.wf(),
        ensures
            self@.dom().len() == self.entries@.len(),
    {
        lemma_map_of_dom_len(self.entries@);
    }
}

/// Under pairwise-distinct keys, the domain of `map_of(s)` has one element
/// per pair.
proof fn lemma_map_of_dom_len(s: Seq<(String, u32)>)
    requires
        forall|i: int, j: int|
            0 <= i < j < s.len() ==> (#[trigger] s[i]).0@ != (#[trigger] s[j]).0@,
    ensures
        map_of(s).dom().len() == s.len(),
        map_of(s).dom().finite(),
    decreases s.len(),
{
    if s.len() > 0 {
        lemma_map_of_dom_len(s.drop_last());
        lemma_map_of_contains(s.drop_last(), s.last().0@);
        assert(!map_of(s.drop_last()).contains_key(s.last().0@));
        assert(map_of(s).dom() =~= map_of(s.drop_last()).dom().insert(s.last().0@));
    } else {
        assert(map_of(s).dom() =~= Set::<Seq<char>>::empty());
    }
}

/// The value at a pair's key is that pair's value, when keys are distinct.
proof fn lemma_map_of_get(s: Seq<(String, u32)>, k: Seq<char>, i: int)
    requires
        forall|p: int, q: int|
            0 <= p < q < s.len() ==> (#[trigger] s[p]).0@ != (#[trigger] s[q]).0@,
        0 <= i < s.len(),
        s[i].0@ == k,
    ensures
        map_of(s).contains_key(k),
        map_of(s)[k] == s[i].1,
    decreases s.len(),
{
    if i == s.len() - 1 {
    } else {
        assert(s.drop_last()[i] == s[i]);
        lemma_map_of_get(s.drop_last(), k, i);
        assert(s.last().0@ != k);
    }
}

/// The persisted state of the bridge.
#[derive(Debug, Clone)]
pub struct Cache {
    /// Ids already announced, in announcement order; append-only.
    pub cached_recordings: Vec<String>,
    pub refresh_token: String,
    pub access_token: String,
    /// UTC instant, seconds since the Unix epoch; the token is treated as
    /// expired once the clock reaches it.
    pub access_token_expires: i64,
    pub color_map: ColorMap,
    /// The credential values seen in the configuration at the last forced
    /// refresh, kept to detect operator-initiated rotation.
    pub last_changed_refresh_token: String,
    pub last_changed_access_token: String,
}

impl Cache {
    /// Well-formedness of the persisted state.
    pub open spec fn wf(self) -> bool {
        self.color_map.wf()
    }

    /// Whether `id` has already been announced.
    pub open spec fn is_seen(self, id: Seq<char>) -> bool {
        exists|i: int| 0 <= i < self.cached_recordings@.len() && (#[trigger] self.cached_recordings@[i])@ == id
    }

    /// The announced ids as a set.
    pub open spec fn seen_set(self) -> Set<Seq<char>> {
        Set::new(|id: Seq<char>| self.is_seen(id))
    }

    /// A fresh cache synthesized from the configuration: credentials copied
    /// verbatim, empty seen-set and color map, and an expiry far enough in
    /// the past that the next cycle forces a refresh.
    pub fn fresh_from_config(config: &Config) -> (c: Cache)
        ensures
            c.cached_recordings@.len() == 0,
            c.refresh_token@ == config.refresh_token@,
            c.access_token@ == config.access_token@,
            c.access_token_expires == INITIAL_TOKEN_EXPIRY,
            c.color_map@ == Map::<Seq<char>, u32>::empty(),
            c.last_changed_refresh_token@ == config.refresh_token@,
            c.last_changed_access_token@ == config.access_token@,
            c.wf(),
    {
        Cache {
            cached_recordings: Vec::new(),
            refresh_token: config.refresh_token.clone(),
            access_token: config.access_token.clone(),
            access_token_expires: INITIAL_TOKEN_EXPIRY,
            color_map: ColorMap::new(),
            last_changed_refresh_token: config.refresh_token.clone(),
            last_changed_access_token: config.access_token.clone(),
        }
    }

    /// Whether `id` is in the seen-set, by scanning the announced ids.
    pub fn contains_recording(&self, id: &String) -> (r: bool)
        ensures
            r == self.is_seen(id@),
    {
        let mut i: usize = 0;
        while i < self.cached_recordings.len()
            invariant
                0 <= i <= self.cached_recordings@.len(),
                forall|j: int| 0 <= j < i ==> (#[trigger] self.cached_recordings@[j])@ != id@,
            decreases self.cached_recordings@.len() - i,
        {
            if self.cached_recordings[i] == *id {
                return true;
            }
            i += 1;
        }
        false
    }

    /// Appends one announced id to the seen-set; every other field is kept.
    /// The seen-set only ever grows, and afterwards contains `id`.
    pub fn record_announced(&mut self, id: String)
        ensures
            final(self).cached_recordings@ == old(self).cached_recordings@.push(id),
            final(self).refresh_token == old(self).refresh_token,
            final(self).access_token == old(self).access_token,
            final(self).access_token_expires == old(self).access_token_expires,
            final(self).color_map == old(self).color_map,
            final(self).last_changed_refresh_token == old(self).last_changed_refresh_token,
            final(self).last_changed_access_token == old(self).last_changed_access_token,
            final(self).is_seen(id@),
            forall|k: Seq<char>| old(self).is_seen(k) ==> final(self).is_seen(k),
            final(self).seen_set() == old(self).seen_set().insert(id@),
            final(self).wf() == old(self).wf(),
    {
        let ghost n = self.cached_recordings@.len();
        self.cached_recordings.push(id);
        proof {
            assert(self.cached_recordings@[n as int]@ == id@);
            assert forall|k: Seq<char>| old(self).is_seen(k) implies self.is_seen(k) by {
                let i = choose|i: int|
                    0 <= i < old(self).cached_recordings@.len() && (
                    #[trigger] old(self).cached_recordings@[i])@ == k;
                assert(self.cached_recordings@[i]@ == k);
            }
            assert forall|k: Seq<char>| self.is_seen(k) implies old(self).is_seen(k) || k == id@ by {
                let i = choose|i: int|
                    0 <= i < self.cached_recordings@.len() && (
                    #[trigger] self.cached_recordings@[i])@ == k;
                if i < n {
                    assert(old(self).cached_recordings@[i]@ == k);
                }
            }
            assert(self.seen_set() =~= old(self).seen_set().insert(id@));
        }
    }
}

} // verus!
