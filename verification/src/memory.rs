//! The memory store: a durable key/value record with tags and timestamps for
//! cross-run recall. Writing replaces a whole entry by key; reads recall by
//! key, by recency or by exact tag.
use crate::text::{lemma_lex_le_total, lemma_lex_le_trans, lex_le, str_eq, str_le};
use vstd::map::*;
use vstd::prelude::*;

verus! {

/// One remembered fact: a unique key, a value, its tags, and the moment it
/// was written, as whole seconds.
#[derive(Debug)]
pub struct MemoryEntry {
    pub key: String,
    pub value: String,
    pub tags: Vec<String>,
    pub timestamp: u64,
}

/// The mathematical model of one entry.
#[verifier::ext_equal]
pub struct EntryModel {
    pub key: Seq<char>,
    pub value: Seq<char>,
    pub tags: Seq<Seq<char>>,
    pub timestamp: u64,
}

pub open spec fn entry_model(e: MemoryEntry) -> EntryModel {
    EntryModel { key: e.key@, value: e.value@, tags: e.tags.deep_view(), timestamp: e.timestamp }
}

/// Recall order: younger entries come first, and entries written in the same
/// second are ordered by key.
pub open spec fn before(a: EntryModel, b: EntryModel) -> bool {
    a.timestamp > b.timestamp || (a.timestamp == b.timestamp && lex_le(a.key, b.key))
}

pub proof fn lemma_before_total(a: EntryModel, b: EntryModel)
    ensures
        before(a, b) || before(b, a),
{
    lemma_lex_le_total(a.key, b.key);
}

pub proof fn lemma_before_trans(a: EntryModel, b: EntryModel, c: EntryModel)
    requires
        before(a, b),
        before(b, c),
    ensures
        before(a, c),
{
    if a.timestamp == b.timestamp && b.timestamp == c.timestamp {
        lemma_lex_le_trans(a.key, b.key, c.key);
    }
}

fn before_exec(a: &MemoryEntry, b: &MemoryEntry) -> (r: bool)
    ensures
        r == before(entry_model(*a), entry_model(*b)),
{
    if a.timestamp > b.timestamp {
        true
    } else if a.timestamp < b.timestamp {
        false
    } else {
        str_le(a.key.as_str(), b.key.as_str())
    }
}

fn clone_entry(e: &MemoryEntry) -> (r: MemoryEntry)
    ensures
        entry_model(r) == entry_model(*e),
{
    let mut tags: Vec<String> = Vec::new();
    let mut i: usize = 0;
    while i < e.tags.len()
        invariant
            i <= e.tags@.len(),
            tags@.len() == i as int,
            forall|j: int| 0 <= j < i ==> (#[trigger] tags@[j])@ == e.tags@[j]@,
        decreases e.tags@.len() - i,
    {
        tags.push(e.tags[i].clone());
        i = i + 1;
    }
    proof {
        assert(tags.deep_view() =~= e.tags.deep_view());
    }
    MemoryEntry { key: e.key.clone(), value: e.value.clone(), tags, timestamp: e.timestamp }
}

pub open spec fn mem_map(s: Seq<MemoryEntry>) -> Map<Seq<char>, EntryModel>
    decreases s.len(),
{
    if s.len() == 0 {
        Map::empty()
    } else {
        mem_map(s.drop_last()).insert(s.last().key@, entry_model(s.last()))
    }
}

/// An in-process memory store. One store is shared by concurrent runs; the
/// host serialises access through a reader/writer lock, so each operation
/// here describes one isolated read or write.
pub struct InMemoryStore {
    entries: Vec<MemoryEntry>,
}

impl View for InMemoryStore {
    type V = Map<Seq<char>, EntryModel>;

    closed spec fn view(&self) -> Map<Seq<char>, EntryModel> {
        mem_map(self.entries@)
    }
}

proof fn lemma_mem_map_dom(s: Seq<MemoryEntry>, k: Seq<char>)
    ensures
        mem_map(s).contains_key(k) <==> exists|i: int|
            0 <= i < s.len() && (#[trigger] s[i]).key@ == k,
    decreases s.len(),
{
    if s.len() > 0 {
        lemma_mem_map_dom(s.drop_last(), k);
        if s.last().key@ == k {
            assert(s[s.len() - 1].key@ == k);
        } else {
            if mem_map(s).contains_key(k) {
                let i = choose|i: int|
                    0 <= i < s.drop_last().len() && (#[trigger] s.drop_last()[i]).key@ == k;
                assert(s[i].key@ == k);
            }
            if exists|i: int| 0 <= i < s.len() && (#[trigger] s[i]).key@ == k {
                let i = choose|i: int| 0 <= i < s.len() && (#[trigger] s[i]).key@ == k;
                assert(i < s.len() - 1);
                assert(s.drop_last()[i].key@ == k);
            }
        }
    }
}

proof fn lemma_mem_map_last_hit(s: Seq<MemoryEntry>, i: int)
    requires
        0 <= i < s.len(),
        forall|j: int| i < j < s.len() ==> (#[trigger] s[j]).key@ != s[i].key@,
    ensures
        mem_map(s).contains_key(s[i].key@),
        mem_map(s)[s[i].key@] == entry_model(s[i]),
    decreases s.len(),
{
    if i == s.len() - 1 {
    } else {
        assert(s.last().key@ != s[i].key@);
        assert(s.drop_last()[i] == s[i]);
        assert(forall|j: int| i < j < s.drop_last().len() ==> (#[trigger] s.drop_last()[j]).key@
            != s.drop_last()[i].key@);
        lemma_mem_map_last_hit(s.drop_last(), i);
    }
}

/// The keys of a run of entries, pairwise distinct in a well-formed store.
pub open spec fn distinct_keys(s: Seq<MemoryEntry>) -> bool {
    forall|i: int, j: int|
        0 <= i < j < s.len() ==> (#[trigger] s[i]).key@ != (#[trigger] s[j]).key@
}

/// Removing the one entry of a key leaves every other key untouched.
proof fn lemma_mem_map_remove(s: Seq<MemoryEntry>, i: int, k: Seq<char>)
    requires
        0 <= i < s.len(),
        s[i].key@ != k,
    ensures
        mem_map(s.remove(i)).contains_key(k) == mem_map(s).contains_key(k),
        mem_map(s).contains_key(k) ==> mem_map(s.remove(i))[k] == mem_map(s)[k],
    decreases s.len(),
{
    if i == s.len() - 1 {
        assert(s.remove(i) =~= s.drop_last());
    } else {
        assert(s.remove(i).last() == s.last());
        assert(s.remove(i).drop_last() =~= s.drop_last().remove(i));
        lemma_mem_map_remove(s.drop_last(), i, k);
    }
}

impl InMemoryStore {
    /// The store is a mapping: at most one entry per key.
    pub closed spec fn well_formed(&self) -> bool {
        distinct_keys(self.entries@)
    }

    /// A fresh, empty store.
    pub fn new() -> (r: InMemoryStore)
        ensures
            r@ == Map::<Seq<char>, EntryModel>::empty(),
            r.well_formed(),
    {
        InMemoryStore { entries: Vec::new() }
    }

    /// Remembers `entry`, fully replacing any earlier entry of the same key,
    /// its timestamp included. Writing always succeeds.
    pub fn write(&mut self, entry: MemoryEntry) -> (r: bool)
        requires
            old(self).well_formed(),
        ensures
            final(self)@ == old(self)@.insert(entry.key@, entry_model(entry)),
            final(self).well_formed(),
            r == true,
    {
        let ghost k = entry.key@;
        let n = self.entries.len();
        let mut i: usize = 0;
        while i < n
            invariant
                i <= n,
                n == self.entries@.len(),
                self.entries@ == old(self).entries@,
                distinct_keys(self.entries@),
                forall|j: int| 0 <= j < i ==> (#[trigger] self.entries@[j]).key@ != k,
                entry.key@ == k,
            decreases n - i,
        {
            if str_eq(self.entries[i].key.as_str(), entry.key.as_str()) {
                let ghost before_entries = self.entries@;
                let _ = self.entries.remove(i);
                proof {
                    before_entries.remove_ensures(i as int);
                    assert forall|j: int, j2: int|
                        0 <= j < j2 < self.entries@.len() implies (#[trigger] self.entries@[j]).key@
                        != (#[trigger] self.entries@[j2]).key@ by {
                        if j2 < i {
                            assert(self.entries@[j] == before_entries[j]);
                            assert(self.entries@[j2] == before_entries[j2]);
                        } else if j < i {
                            assert(self.entries@[j] == before_entries[j]);
                            assert(self.entries@[j2] == before_entries[j2 + 1]);
                        } else {
                            assert(self.entries@[j] == before_entries[j + 1]);
                            assert(self.entries@[j2] == before_entries[j2 + 1]);
                        }
                    }
                    assert forall|j: int| 0 <= j < self.entries@.len() implies (
                    #[trigger] self.entries@[j]).key@ != k by {
                        if j < i {
                            assert(self.entries@[j] == before_entries[j]);
                        } else {
                            assert(self.entries@[j] == before_entries[j + 1]);
                            assert(before_entries[j + 1].key@ != before_entries[i as int].key@);
                        }
                    }
                }
                self.entries.push(entry);
                proof {
                    assert(self.entries@ =~= before_entries.remove(i as int).push(entry));
                    lemma_write_replace(before_entries, i as int, entry);
                }
                return true;
            }
            i = i + 1;
        }
        let ghost mid = self.entries@;
        self.entries.push(entry);
        proof {
            assert(self.entries@.drop_last() =~= mid);
            assert forall|j: int, j2: int|
                0 <= j < j2 < self.entries@.len() implies (#[trigger] self.entries@[j]).key@ != (
            #[trigger] self.entries@[j2]).key@ by {
                if j2 == self.entries@.len() - 1 {
                    assert(self.entries@[j] == mid[j]);
                    assert(self.entries@[j2].key@ == k);
                } else {
                    assert(self.entries@[j] == mid[j]);
                    assert(self.entries@[j2] == mid[j2]);
                }
            }
            assert(mem_map(self.entries@) == mem_map(mid).insert(k, entry_model(entry)));
            assert(final(self)@ =~= old(self)@.insert(k, entry_model(entry)));
        }
        true
    }

    /// The entry stored under `key`, if one is.
    pub fn read_by_key(&self, key: &str) -> (r: Option<MemoryEntry>)
        ensures
            self@.contains_key(key@) ==> (r matches Some(e) && entry_model(e) == self@[key@]),
            !self@.contains_key(key@) ==> r is None,
    {
        let n = self.entries.len();
        let mut i: usize = n;
        while i > 0
            invariant
                i <= n,
                n == self.entries@.len(),
                forall|j: int| i <= j < n ==> (#[trigger] self.entries@[j]).key@ != key@,
            decreases i,
        {
            i = i - 1;
            if str_eq(self.entries[i].key.as_str(), key) {
                proof {
                    lemma_mem_map_last_hit(self.entries@, i as int);
                }
                return Some(clone_entry(&self.entries[i]));
            }
        }
        proof {
            lemma_mem_map_dom(self.entries@, key@);
        }
        None
    }
}

/// Replacing the one entry of a key equals a map insert on that key.
proof fn lemma_write_replace(orig: Seq<MemoryEntry>, i: int, e: MemoryEntry)
    requires
        0 <= i < orig.len(),
        orig[i].key@ == e.key@,
    ensures
        mem_map(orig.remove(i).push(e)) == mem_map(orig).insert(e.key@, entry_model(e)),
{
    let k = e.key@;
    let mid = orig.remove(i);
    let now = mid.push(e);
    assert(now.drop_last() =~= mid);
    assert(mem_map(now) == mem_map(mid).insert(k, entry_model(e)));
    let a = mem_map(mid).insert(k, entry_model(e));
    let b = mem_map(orig).insert(k, entry_model(e));
    assert_maps_equal!(a, b, k2 => {
        if k2 != k {
            lemma_mem_map_remove(orig, i, k2);
        }
    });
}

/// The models of a run of entries, in order.
pub open spec fn emodels(s: Seq<MemoryEntry>) -> Seq<EntryModel> {
    s.map_values(|e: MemoryEntry| entry_model(e))
}

/// Pairwise recall order: every earlier element comes no later than every
/// later one.
pub open spec fn sorted_recall(s: Seq<EntryModel>) -> bool {
    forall|i: int, j: int| 0 <= i < j < s.len() ==> before(#[trigger] s[i], #[trigger] s[j])
}

/// Every entry of `s` is stored in `m` under its own key, unchanged.
pub open spec fn from_store(m: Map<Seq<char>, EntryModel>, s: Seq<MemoryEntry>) -> bool {
    forall|i: int|
        0 <= i < s.len() ==> m.contains_key((#[trigger] s[i]).key@) && m[s[i].key@] == entry_model(
            s[i],
        )
}

/// Whether some entry of `s` has the key `k`.
pub open spec fn holds_key(s: Seq<MemoryEntry>, k: Seq<char>) -> bool {
    exists|i: int| 0 <= i < s.len() && (#[trigger] s[i]).key@ == k
}

/// A store with pairwise distinct keys has exactly one mapping per entry.
proof fn lemma_mem_map_len(s: Seq<MemoryEntry>)
    requires
        distinct_keys(s),
    ensures
        mem_map(s).dom().finite(),
        mem_map(s).dom().len() == s.len(),
    decreases s.len(),
{
    if s.len() == 0 {
        assert(mem_map(s).dom() =~= Set::<Seq<char>>::empty());
    } else {
        assert(distinct_keys(s.drop_last()));
        lemma_mem_map_len(s.drop_last());
        lemma_mem_map_dom(s.drop_last(), s.last().key@);
        assert(forall|i: int| 0 <= i < s.drop_last().len() ==> (#[trigger] s.drop_last()[i]).key@
            != s.last().key@);
        assert(!mem_map(s.drop_last()).contains_key(s.last().key@));
        assert(mem_map(s).dom() =~= mem_map(s.drop_last()).dom().insert(s.last().key@));
    }
}

/// In a store with distinct keys, every entry is the mapping of its key.
proof fn lemma_distinct_entry(s: Seq<MemoryEntry>, i: int)
    requires
        distinct_keys(s),
        0 <= i < s.len(),
    ensures
        mem_map(s).contains_key(s[i].key@),
        mem_map(s)[s[i].key@] == entry_model(s[i]),
{
    lemma_mem_map_last_hit(s, i);
}

/// Whether the entry carries exactly this tag.
fn has_tag(e: &MemoryEntry, tag: &str) -> (r: bool)
    ensures
        r == entry_model(*e).tags.contains(tag@),
{
    let n = e.tags.len();
    let mut i: usize = 0;
    while i < n
        invariant
            i <= n,
            n == e.tags@.len(),
            forall|j: int| 0 <= j < i ==> e.tags.deep_view()[j] != tag@,
        decreases n - i,
    {
        if str_eq(e.tags[i].as_str(), tag) {
            proof {
                assert(e.tags.deep_view()[i as int] == tag@);
            }
            return true;
        }
        i = i + 1;
    }
    proof {
        if entry_model(*e).tags.contains(tag@) {
            let j = choose|j: int|
                0 <= j < e.tags.deep_view().len() && e.tags.deep_view()[j] == tag@;
        }
    }
    false
}

impl InMemoryStore {
    /// All stored entries, youngest first and ties ordered by key, cut down
    /// to at most `limit` entries: everything left out is older — or, in the
    /// same second, later by key — than everything returned.
    pub fn read_recent(&self, limit: usize) -> (r: Vec<MemoryEntry>)
        requires
            self.well_formed(),
        ensures
            r@.len() == vstd::math::min(limit as int, self@.dom().len() as int),
            sorted_recall(emodels(r@)),
            from_store(self@, r@),
            distinct_keys(r@),
            forall|k: Seq<char>|
                #[trigger] self@.contains_key(k) && !holds_key(r@, k) ==> r@.len() == limit as int
                    && (forall|i: int|
                    0 <= i < r@.len() ==> before(entry_model(#[trigger] r@[i]), self@[k])),
    {
        proof {
            lemma_mem_map_len(self.entries@);
        }
        let n = self.entries.len();
        let mut remaining: Vec<MemoryEntry> = Vec::new();
        let mut i: usize = 0;
        while i < n
            invariant
                i <= n,
                n == self.entries@.len(),
                remaining@.len() == i as int,
                forall|j: int| 0 <= j < i ==> (#[trigger] remaining@[j]).key@
                    == self.entries@[j].key@ && entry_model(remaining@[j]) == entry_model(
                    self.entries@[j],
                ),
            decreases n - i,
        {
            remaining.push(clone_entry(&self.entries[i]));
            i = i + 1;
        }
        proof {
            assert forall|j: int| 0 <= j < remaining@.len() implies self@.contains_key(
                (#[trigger] remaining@[j]).key@,
            ) && self@[remaining@[j].key@] == entry_model(remaining@[j]) by {
                lemma_distinct_entry(self.entries@, j);
            }
            assert forall|k: Seq<char>| #[trigger] self@.contains_key(k) implies holds_key(
                remaining@,
                k,
            ) by {
                lemma_mem_map_dom(self.entries@, k);
                let j = choose|j: int|
                    0 <= j < self.entries@.len() && (#[trigger] self.entries@[j]).key@ == k;
                assert(remaining@[j].key@ == k);
            }
        }
        let mut sorted: Vec<MemoryEntry> = Vec::new();
        let ghost m = self@;
        while remaining.len() > 0
            invariant
                self@ == m,
                sorted@.len() + remaining@.len() == n,
                n == self@.dom().len(),
                sorted_recall(emodels(sorted@)),
                from_store(m, sorted@),
                from_store(m, remaining@),
                distinct_keys(sorted@),
                distinct_keys(remaining@),
                forall|i1: int, j1: int|
                    0 <= i1 < sorted@.len() && 0 <= j1 < remaining@.len() ==> (
                #[trigger] sorted@[i1]).key@ != (#[trigger] remaining@[j1]).key@,
                forall|k: Seq<char>| #[trigger]
                    m.contains_key(k) ==> holds_key(sorted@, k) || holds_key(remaining@, k),
                forall|i1: int, j1: int|
                    0 <= i1 < sorted@.len() && 0 <= j1 < remaining@.len() ==> before(
                        entry_model(#[trigger] sorted@[i1]),
                        entry_model(#[trigger] remaining@[j1]),
                    ),
            decreases remaining@.len(),
        {
            let mut best: usize = 0;
            let mut j: usize = 1;
            proof {
                lemma_before_total(entry_model(remaining@[0]), entry_model(remaining@[0]));
            }
            while j < remaining.len()
                invariant
                    best < j <= remaining@.len(),
                    remaining@.len() > 0,
                    forall|t: int| 0 <= t < j ==> before(
                        entry_model(remaining@[best as int]),
                        entry_model(#[trigger] remaining@[t]),
                    ),
                decreases remaining@.len() - j,
            {
                if !before_exec(&remaining[best], &remaining[j]) {
                    proof {
                        lemma_before_total(
                            entry_model(remaining@[best as int]),
                            entry_model(remaining@[j as int]),
                        );
                        assert forall|t: int| 0 <= t < j + 1 implies before(
                            entry_model(remaining@[j as int]),
                            entry_model(#[trigger] remaining@[t]),
                        ) by {
                            if t < j {
                                lemma_before_trans(
                                    entry_model(remaining@[j as int]),
                                    entry_model(remaining@[best as int]),
                                    entry_model(remaining@[t]),
                                );
                            } else {
                                lemma_before_total(
                                    entry_model(remaining@[j as int]),
                                    entry_model(remaining@[j as int]),
                                );
                            }
                        }
                    }
                    best = j;
                } else {
                    proof {
                        lemma_before_total(
                            entry_model(remaining@[best as int]),
                            entry_model(remaining@[best as int]),
                        );
                    }
                }
                j = j + 1;
            }
            proof {
                if remaining@.len() == 1 {
                    lemma_before_total(
                        entry_model(remaining@[0]),
                        entry_model(remaining@[0]),
                    );
                }
            }
            let ghost rem_before = remaining@;
            let e = remaining.remove(best);
            let ghost srt_before = sorted@;
            sorted.push(e);
            proof {
                rem_before.remove_ensures(best as int);
                assert forall|k: Seq<char>| #[trigger] m.contains_key(k) implies holds_key(
                    sorted@,
                    k,
                ) || holds_key(remaining@, k) by {
                    if holds_key(srt_before, k) {
                        let t = choose|t: int|
                            0 <= t < srt_before.len() && (#[trigger] srt_before[t]).key@ == k;
                        assert(sorted@[t].key@ == k);
                    } else if holds_key(rem_before, k) {
                        let t = choose|t: int|
                            0 <= t < rem_before.len() && (#[trigger] rem_before[t]).key@ == k;
                        if t == best {
                            assert(sorted@[sorted@.len() - 1].key@ == k);
                        } else if t < best {
                            assert(remaining@[t].key@ == k);
                        } else {
                            assert(remaining@[t - 1].key@ == k);
                        }
                    }
                }
                assert forall|i1: int, j1: int|
                    0 <= i1 < sorted@.len() && 0 <= j1 < remaining@.len() implies before(
                    entry_model(#[trigger] sorted@[i1]),
                    entry_model(#[trigger] remaining@[j1]),
                ) by {
                    let o = if j1 < best {
                        j1
                    } else {
                        j1 + 1
                    };
                    assert(remaining@[j1] == rem_before[o]);
                    if i1 < sorted@.len() - 1 {
                        assert(sorted@[i1] == srt_before[i1]);
                    } else {
                        assert(sorted@[i1] == rem_before[best as int]);
                    }
                }
                assert forall|i1: int, j1: int|
                    0 <= i1 < sorted@.len() && 0 <= j1 < remaining@.len() implies (
                #[trigger] sorted@[i1]).key@ != (#[trigger] remaining@[j1]).key@ by {
                    let o = if j1 < best {
                        j1
                    } else {
                        j1 + 1
                    };
                    assert(remaining@[j1] == rem_before[o]);
                    if i1 < sorted@.len() - 1 {
                        assert(sorted@[i1] == srt_before[i1]);
                        assert(holds_key(rem_before, rem_before[o].key@));
                    } else {
                        assert(sorted@[i1] == rem_before[best as int]);
                    }
                }
                assert forall|i1: int, j1: int|
                    0 <= i1 < j1 < sorted@.len() implies before(
                    emodels(sorted@)[i1],
                    emodels(sorted@)[j1],
                ) by {
                    if j1 < sorted@.len() - 1 {
                        assert(sorted@[i1] == srt_before[i1]);
                        assert(sorted@[j1] == srt_before[j1]);
                        assert(before(emodels(srt_before)[i1], emodels(srt_before)[j1]));
                    } else {
                        assert(sorted@[i1] == srt_before[i1]);
                        assert(sorted@[j1] == rem_before[best as int]);
                        assert(before(
                            entry_model(srt_before[i1]),
                            entry_model(rem_before[best as int]),
                        ));
                    }
                }
                assert forall|i1: int, j1: int|
                    0 <= i1 < j1 < sorted@.len() implies (#[trigger] sorted@[i1]).key@ != (
                #[trigger] sorted@[j1]).key@ by {
                    if j1 < sorted@.len() - 1 {
                        assert(sorted@[i1] == srt_before[i1]);
                        assert(sorted@[j1] == srt_before[j1]);
                    } else {
                        assert(sorted@[i1] == srt_before[i1]);
                        assert(sorted@[j1] == rem_before[best as int]);
                    }
                }
                assert(from_store(m, sorted@));
                assert(from_store(m, remaining@)) by {
                    assert forall|j1: int| 0 <= j1 < remaining@.len() implies m.contains_key(
                        (#[trigger] remaining@[j1]).key@,
                    ) && m[remaining@[j1].key@] == entry_model(remaining@[j1]) by {
                        let o = if j1 < best {
                            j1
                        } else {
                            j1 + 1
                        };
                        assert(remaining@[j1] == rem_before[o]);
                    }
                }
                assert(distinct_keys(remaining@)) by {
                    assert forall|i1: int, j1: int|
                        0 <= i1 < j1 < remaining@.len() implies (#[trigger] remaining@[i1]).key@
                        != (#[trigger] remaining@[j1]).key@ by {
                        let o1 = if i1 < best {
                            i1
                        } else {
                            i1 + 1
                        };
                        let o2 = if j1 < best {
                            j1
                        } else {
                            j1 + 1
                        };
                        assert(remaining@[i1] == rem_before[o1]);
                        assert(remaining@[j1] == rem_before[o2]);
                    }
                }
            }
        }
        let ghost full = sorted@;
        sorted.truncate(limit);
        proof {
            if limit as int <= full.len() {
                assert(sorted@ == full.subrange(0, limit as int));
            } else {
                assert(sorted@ == full);
            }
            assert forall|i1: int, j1: int|
                0 <= i1 < j1 < sorted@.len() implies before(
                emodels(sorted@)[i1],
                emodels(sorted@)[j1],
            ) by {
                assert(sorted@[i1] == full[i1]);
                assert(sorted@[j1] == full[j1]);
                assert(before(emodels(full)[i1], emodels(full)[j1]));
            }
            assert forall|k: Seq<char>|
                #[trigger] self@.contains_key(k) && !holds_key(sorted@, k) implies sorted@.len()
                == limit as int && (forall|i: int|
                0 <= i < sorted@.len() ==> before(
                    entry_model(#[trigger] sorted@[i]),
                    self@[k],
                )) by {
                assert(holds_key(full, k));
                let t = choose|t: int| 0 <= t < full.len() && (#[trigger] full[t]).key@ == k;
                if t < sorted@.len() {
                    assert(sorted@[t] == full[t]);
                    assert(holds_key(sorted@, k));
                }
                assert(t >= sorted@.len());
                assert(sorted@.len() == limit as int);
                assert forall|i: int| 0 <= i < sorted@.len() implies before(
                    entry_model(#[trigger] sorted@[i]),
                    self@[k],
                ) by {
                    assert(sorted@[i] == full[i]);
                    assert(before(emodels(full)[i], emodels(full)[t]));
                    assert(entry_model(full[t]) == self@[k]);
                }
            }
        }
        sorted
    }

    /// The stored entries whose tag set contains `tag` exactly — no prefix or
    /// partial matches — in storage order.
    pub fn search_by_tag(&self, tag: &str) -> (r: Vec<MemoryEntry>)
        requires
            self.well_formed(),
        ensures
            from_store(self@, r@),
            distinct_keys(r@),
            forall|i: int| 0 <= i < r@.len() ==> entry_model(#[trigger] r@[i]).tags.contains(tag@),
            forall|k: Seq<char>|
                #[trigger] self@.contains_key(k) && self@[k].tags.contains(tag@) ==> holds_key(
                    r@,
                    k,
                ),
    {
        let n = self.entries.len();
        let mut out: Vec<MemoryEntry> = Vec::new();
        let mut i: usize = 0;
        while i < n
            invariant
                i <= n,
                n == self.entries@.len(),
                self.well_formed(),
                from_store(self@, out@),
                distinct_keys(out@),
                forall|j: int| 0 <= j < out@.len() ==> entry_model(#[trigger] out@[j]).tags.contains(
                    tag@,
                ),
                forall|j: int|
                    0 <= j < i && entry_model(#[trigger] self.entries@[j]).tags.contains(tag@)
                        ==> holds_key(out@, self.entries@[j].key@),
                forall|j: int| 0 <= j < out@.len() ==> holds_key(
                    self.entries@.subrange(0, i as int),
                    (#[trigger] out@[j]).key@,
                ),
            decreases n - i,
        {
            let ghost pre = self.entries@.subrange(0, i as int);
            let ghost post = self.entries@.subrange(0, i + 1 as int);
            proof {
                assert forall|j: int| 0 <= j < out@.len() implies holds_key(
                    post,
                    (#[trigger] out@[j]).key@,
                ) by {
                    let w = choose|w: int|
                        0 <= w < pre.len() && (#[trigger] pre[w]).key@ == out@[j].key@;
                    assert(post[w] == pre[w]);
                }
            }
            if has_tag(&self.entries[i], tag) {
                let ghost prev = out@;
                let ghost cur = self.entries@[i as int];
                proof {
                    lemma_distinct_entry(self.entries@, i as int);
                }
                out.push(clone_entry(&self.entries[i]));
                proof {
                    assert(out@[out@.len() - 1].key@ == cur.key@);
                    assert(entry_model(out@[out@.len() - 1]) == entry_model(cur));
                    assert forall|j: int, j2: int|
                        0 <= j < j2 < out@.len() implies (#[trigger] out@[j]).key@ != (
                    #[trigger] out@[j2]).key@ by {
                        if j2 == out@.len() - 1 {
                            assert(out@[j] == prev[j]);
                            let w = choose|w: int|
                                0 <= w < pre.len() && (#[trigger] pre[w]).key@ == prev[j].key@;
                            assert(self.entries@[w] == pre[w]);
                            assert(self.entries@[w].key@ != self.entries@[i as int].key@);
                        } else {
                            assert(out@[j] == prev[j]);
                            assert(out@[j2] == prev[j2]);
                        }
                    }
                    assert forall|j: int| 0 <= j < out@.len() implies holds_key(
                        post,
                        (#[trigger] out@[j]).key@,
                    ) by {
                        if j < out@.len() - 1 {
                            assert(out@[j] == prev[j]);
                        } else {
                            assert(post[i as int] == self.entries@[i as int]);
                            assert(post[i as int].key@ == out@[j].key@);
                        }
                    }
                    assert forall|j: int|
                        0 <= j < i + 1 && entry_model(#[trigger] self.entries@[j]).tags.contains(
                            tag@,
                        ) implies holds_key(out@, self.entries@[j].key@) by {
                        if j == i {
                            assert(out@[out@.len() - 1].key@ == self.entries@[j].key@);
                        } else {
                            let w = choose|w: int|
                                0 <= w < prev.len() && (#[trigger] prev[w]).key@
                                    == self.entries@[j].key@;
                            assert(out@[w] == prev[w]);
                        }
                    }
                }
            }
            i = i + 1;
        }
        proof {
            assert forall|k: Seq<char>|
                #[trigger] self@.contains_key(k) && self@[k].tags.contains(tag@) implies holds_key(
                out@,
                k,
            ) by {
                lemma_mem_map_dom(self.entries@, k);
                let j = choose|j: int|
                    0 <= j < self.entries@.len() && (#[trigger] self.entries@[j]).key@ == k;
                lemma_distinct_entry(self.entries@, j);
            }
        }
        out
    }
}

/// The memory interface: a durable key/value record with tags and recency
/// recall, swappable for a persistent store with the same contract.
pub trait MemoryStore {
    /// The stored mapping from key to entry.
    spec fn mem(&self) -> Map<Seq<char>, EntryModel>;

    /// The store's internal well-formedness.
    spec fn inv(&self) -> bool;

    fn write(&mut self, entry: MemoryEntry) -> (r: bool)
        requires
            old(self).inv(),
        ensures
            final(self).mem() == old(self).mem().insert(entry.key@, entry_model(entry)),
            final(self).inv(),
            r == true,
    ;

    fn read_by_key(&self, key: &str) -> (r: Option<MemoryEntry>)
        ensures
            self.mem().contains_key(key@) ==> (r matches Some(e) && entry_model(e)
                == self.mem().index(key@)),
            !self.mem().contains_key(key@) ==> r is None,
    ;

    fn read_recent(&self, limit: usize) -> (r: Vec<MemoryEntry>)
        requires
            self.inv(),
        ensures
            r@.len() == vstd::math::min(limit as int, self.mem().dom().len() as int),
            sorted_recall(emodels(r@)),
            from_store(self.mem(), r@),
            distinct_keys(r@),
            forall|k: Seq<char>|
                #[trigger] self.mem().contains_key(k) && !holds_key(r@, k) ==> r@.len()
                    == limit as int && (forall|i: int|
                    0 <= i < r@.len() ==> before(entry_model(#[trigger] r@[i]), self.mem()[k])),
    ;

    fn search_by_tag(&self, tag: &str) -> (r: Vec<MemoryEntry>)
        requires
            self.inv(),
        ensures
            from_store(self.mem(), r@),
            distinct_keys(r@),
            forall|i: int| 0 <= i < r@.len() ==> entry_model(#[trigger] r@[i]).tags.contains(tag@),
            forall|k: Seq<char>|
                #[trigger] self.mem().contains_key(k) && self.mem()[k].tags.contains(tag@)
                    ==> holds_key(r@, k),
    ;
}

impl MemoryStore for InMemoryStore {
    open spec fn mem(&self) -> Map<Seq<char>, EntryModel> {
        self@
    }

    open spec fn inv(&self) -> bool {
        self.well_formed()
    }

    fn write(&mut self, entry: MemoryEntry) -> (r: bool) {
        InMemoryStore::write(self, entry)
    }

    fn read_by_key(&self, key: &str) -> (r: Option<MemoryEntry>) {
        InMemoryStore::read_by_key(self, key)
    }

    fn read_recent(&self, limit: usize) -> (r: Vec<MemoryEntry>) {
        InMemoryStore::read_recent(self, limit)
    }

    fn search_by_tag(&self, tag: &str) -> (r: Vec<MemoryEntry>) {
        InMemoryStore::search_by_tag(self, tag)
    }
}

} // verus!
