//! The in-memory store: an ordered list of entries with distinct keys,
//! viewed as a map from key to hash.

use vstd::prelude::*;

verus! {

/// A key with its hash, as mathematical strings.
pub type Record = (Seq<char>, Seq<char>);

/// Some record of `rs` has the key `k`.
pub open spec fn has_key(rs: Seq<Record>, k: Seq<char>) -> bool {
    exists|i: int| 0 <= i < rs.len() && (#[trigger] rs[i]).0 == k
}

/// No two records of `rs` share a key.
pub open spec fn distinct_keys(rs: Seq<Record>) -> bool {
    forall|i: int, j: int| 0 <= i < j < rs.len() ==> (#[trigger] rs[i]).0 != (#[trigger] rs[j]).0
}

/// The map that a sequence of records stands for: a later record replaces an
/// earlier one with the same key.
pub open spec fn records_map(rs: Seq<Record>) -> Map<Seq<char>, Seq<char>>
    decreases rs.len(),
{
    if rs.len() == 0 {
        Map::empty()
    } else {
        records_map(rs.drop_last()).insert(rs.last().0, rs.last().1)
    }
}

/// `rs` with the hash `h` in place of the hash of every record whose key is `k`.
pub open spec fn with_hash(rs: Seq<Record>, k: Seq<char>, h: Seq<char>) -> Seq<Record> {
    Seq::new(rs.len(), |i: int| if rs[i].0 == k { (k, h) } else { rs[i] })
}

/// The records after storing `h` under `k`: a known key keeps its place and
/// takes the new hash, a new key goes to the end.
pub open spec fn records_after_put(rs: Seq<Record>, k: Seq<char>, h: Seq<char>) -> Seq<Record> {
    if has_key(rs, k) {
        with_hash(rs, k, h)
    } else {
        rs.push((k, h))
    }
}

/// The records after storing each record of `ops` in turn, starting from `rs`.
pub open spec fn put_all(rs: Seq<Record>, ops: Seq<Record>) -> Seq<Record>
    decreases ops.len(),
{
    if ops.len() == 0 {
        rs
    } else {
        records_after_put(put_all(rs, ops.drop_last()), ops.last().0, ops.last().1)
    }
}

/// The keys of the map are the keys of the records.
pub proof fn lemma_map_keys(rs: Seq<Record>)
    ensures
        forall|k: Seq<char>| #[trigger] records_map(rs).contains_key(k) <==> has_key(rs, k),
    decreases rs.len(),
{
    if rs.len() > 0 {
        let front = rs.drop_last();
        lemma_map_keys(front);
        assert forall|k: Seq<char>| #[trigger] records_map(rs).contains_key(k) <==> has_key(rs, k) by {
            assert(records_map(rs).contains_key(k) <==> (records_map(front).contains_key(k) || k
                == rs.last().0));
            if has_key(rs, k) {
                let i = choose|i: int| 0 <= i < rs.len() && (#[trigger] rs[i]).0 == k;
                if i < rs.len() - 1 {
                    assert(front[i].0 == k);
                }
            }
            if has_key(front, k) {
                let i = choose|i: int| 0 <= i < front.len() && (#[trigger] front[i]).0 == k;
                assert(rs[i].0 == k);
            }
            if rs.last().0 == k {
                assert(rs[rs.len() - 1].0 == k);
            }
        }
    }
}

/// With distinct keys, the map holds each record's hash under its key.
pub proof fn lemma_map_value(rs: Seq<Record>, i: int)
    requires
        distinct_keys(rs),
        0 <= i < rs.len(),
    ensures
        records_map(rs).contains_key(rs[i].0),
        records_map(rs)[rs[i].0] == rs[i].1,
    decreases rs.len(),
{
    if i < rs.len() - 1 {
        let front = rs.drop_last();
        assert(distinct_keys(front)) by {
            assert forall|a: int, b: int| 0 <= a < b < front.len() implies (#[trigger] front[a]).0
                != (#[trigger] front[b]).0 by {
                assert(rs[a].0 != rs[b].0);
            }
        }
        lemma_map_value(front, i);
        assert(rs[i].0 != rs[rs.len() - 1].0);
    }
}

/// Replacing the hash of `k` in the records replaces it in the map, and
/// changes nothing where `k` is not a key.
pub proof fn lemma_with_hash_map(rs: Seq<Record>, k: Seq<char>, h: Seq<char>)
    ensures
        has_key(rs, k) ==> records_map(with_hash(rs, k, h)) == records_map(rs).insert(k, h),
        !has_key(rs, k) ==> with_hash(rs, k, h) == rs,
    decreases rs.len(),
{
    if rs.len() == 0 {
        assert(with_hash(rs, k, h) =~= rs);
    } else {
        let front = rs.drop_last();
        lemma_with_hash_map(front, k, h);
        assert(with_hash(rs, k, h).drop_last() =~= with_hash(front, k, h));
        if has_key(front, k) {
            let i = choose|i: int| 0 <= i < front.len() && (#[trigger] front[i]).0 == k;
            assert(rs[i].0 == k);
        }
        if has_key(rs, k) {
            let i = choose|i: int| 0 <= i < rs.len() && (#[trigger] rs[i]).0 == k;
            if i < rs.len() - 1 {
                assert(front[i].0 == k);
            }
            assert(records_map(with_hash(rs, k, h)) =~= records_map(rs).insert(k, h));
        } else {
            assert(rs[rs.len() - 1].0 != k);
            assert(with_hash(rs, k, h) =~= rs);
        }
    }
}

/// Storing `h` under `k` sets `k` to `h` in the map and touches no other key.
pub proof fn lemma_put_map(rs: Seq<Record>, k: Seq<char>, h: Seq<char>)
    ensures
        records_map(records_after_put(rs, k, h)) == records_map(rs).insert(k, h),
{
    if has_key(rs, k) {
        lemma_with_hash_map(rs, k, h);
    } else {
        assert(rs.push((k, h)).drop_last() =~= rs);
    }
}

/// Storing keeps the keys distinct.
pub proof fn lemma_put_distinct(rs: Seq<Record>, k: Seq<char>, h: Seq<char>)
    requires
        distinct_keys(rs),
    ensures
        distinct_keys(records_after_put(rs, k, h)),
{
    let after = records_after_put(rs, k, h);
    assert forall|a: int, b: int| 0 <= a < b < after.len() implies (#[trigger] after[a]).0
        != (#[trigger] after[b]).0 by {
        if has_key(rs, k) {
            assert(after[a].0 == rs[a].0);
            assert(after[b].0 == rs[b].0);
        } else {
            if b < rs.len() {
                assert(after[a] == rs[a] && after[b] == rs[b]);
            } else {
                assert(after[a] == rs[a]);
                assert(rs[a].0 != k);
            }
        }
    }
}

/// With distinct keys, the map has one key for each record.
pub proof fn lemma_map_len(rs: Seq<Record>)
    requires
        distinct_keys(rs),
    ensures
        records_map(rs).dom().finite(),
        records_map(rs).dom().len() == rs.len(),
    decreases rs.len(),
{
    if rs.len() > 0 {
        let front = rs.drop_last();
        assert(distinct_keys(front)) by {
            assert forall|a: int, b: int| 0 <= a < b < front.len() implies (#[trigger] front[a]).0
                != (#[trigger] front[b]).0 by {
                assert(rs[a].0 != rs[b].0);
            }
        }
        lemma_map_len(front);
        lemma_map_keys(front);
        let k = rs.last().0;
        if has_key(front, k) {
            let i = choose|i: int| 0 <= i < front.len() && (#[trigger] front[i]).0 == k;
            assert(rs[i].0 != rs[rs.len() - 1].0);
        }
        assert(!records_map(front).contains_key(k));
        assert(records_map(rs).dom() =~= records_map(front).dom().insert(k));
    }
}

/// Round trip: after `h` is stored under `k`, the map holds `h` under `k`.
pub proof fn law_put_then_get(rs: Seq<Record>, k: Seq<char>, h: Seq<char>)
    ensures
        records_map(records_after_put(rs, k, h)).contains_key(k),
        records_map(records_after_put(rs, k, h))[k] == h,
{
    lemma_put_map(rs, k, h);
}

/// Round trip over a restart: storing the records of a store, in file
/// order, into an empty store gives the same records back, and so the same
/// map.
pub proof fn law_reload_restores(rs: Seq<Record>)
    requires
        distinct_keys(rs),
    ensures
        put_all(Seq::empty(), rs) == rs,
    decreases rs.len(),
{
    if rs.len() > 0 {
        let front = rs.drop_last();
        assert(distinct_keys(front)) by {
            assert forall|a: int, b: int| 0 <= a < b < front.len() implies (#[trigger] front[a]).0
                != (#[trigger] front[b]).0 by {
                assert(rs[a].0 != rs[b].0);
            }
        }
        law_reload_restores(front);
        let k = rs.last().0;
        if has_key(front, k) {
            let i = choose|i: int| 0 <= i < front.len() && (#[trigger] front[i]).0 == k;
            assert(rs[i].0 != rs[rs.len() - 1].0);
        }
        assert(front.push(rs.last()) =~= rs);
    } else {
        assert(rs =~= Seq::<Record>::empty());
    }
}

/// Uniqueness: after `h1` and then `h2` are stored under `k`, exactly one
/// record has the key `k`, and it holds `h2`.
pub proof fn law_one_record_per_key(rs: Seq<Record>, k: Seq<char>, h1: Seq<char>, h2: Seq<char>)
    requires
        distinct_keys(rs),
    ensures
        ({
            let after = records_after_put(records_after_put(rs, k, h1), k, h2);
            exists|i: int|
                {
                    &&& 0 <= i < after.len()
                    &&& #[trigger] after[i] == (k, h2)
                    &&& forall|j: int|
                        0 <= j < after.len() && j != i ==> (#[trigger] after[j]).0 != k
                }
        }),
{
    let once = records_after_put(rs, k, h1);
    let after = records_after_put(once, k, h2);
    lemma_put_distinct(rs, k, h1);
    lemma_put_distinct(once, k, h2);
    lemma_put_map(once, k, h2);
    lemma_map_keys(after);
    assert(records_map(after).contains_key(k));
    let i = choose|i: int| 0 <= i < after.len() && (#[trigger] after[i]).0 == k;
    lemma_map_value(after, i);
    assert(after[i] == (k, h2));
    assert forall|j: int| 0 <= j < after.len() && j != i implies (#[trigger] after[j]).0 != k by {
        if j < i {
            assert(after[j].0 != after[i].0);
        } else {
            assert(after[i].0 != after[j].0);
        }
    }
}

/// An update leaves every other record as it was, in its place.
pub proof fn law_update_keeps_others(rs: Seq<Record>, k: Seq<char>, h: Seq<char>, i: int)
    requires
        has_key(rs, k),
        0 <= i < rs.len(),
        rs[i].0 != k,
    ensures
        records_after_put(rs, k, h).len() == rs.len(),
        records_after_put(rs, k, h)[i] == rs[i],
{
}

/// Stores on distinct keys, in whatever order they are carried out, are all
/// kept: each key holds the hash that was stored under it.
pub proof fn law_distinct_puts_kept(rs: Seq<Record>, ops: Seq<Record>, i: int)
    requires
        distinct_keys(ops),
        0 <= i < ops.len(),
    ensures
        records_map(put_all(rs, ops)).contains_key(ops[i].0),
        records_map(put_all(rs, ops))[ops[i].0] == ops[i].1,
    decreases ops.len(),
{
    let front = ops.drop_last();
    lemma_put_map(put_all(rs, front), ops.last().0, ops.last().1);
    if i < ops.len() - 1 {
        assert(distinct_keys(front)) by {
            assert forall|a: int, b: int| 0 <= a < b < front.len() implies (#[trigger] front[a]).0
                != (#[trigger] front[b]).0 by {
                assert(ops[a].0 != ops[b].0);
            }
        }
        law_distinct_puts_kept(rs, front, i);
        assert(front[i] == ops[i]);
        assert(ops[i].0 != ops[ops.len() - 1].0);
    }
}

/// One entry of the store.
#[derive(Debug, PartialEq, Eq)]
pub struct Entry {
    pub key: String,
    pub hash: String,
}

impl View for Entry {
    type V = Record;

    open spec fn view(&self) -> Record {
        (self.key@, self.hash@)
    }
}

/// What a `put` did to the store; it decides how the durable file is brought
/// up to date.
#[derive(Debug, Clone, Copy, PartialEq, Eq, Structural)]
pub enum PutOutcome {
    /// The key was absent: one entry was added at the end.
    Inserted,
    /// The key was present: its hash was replaced in place.
    Updated,
}

/// The mapping from key to hash, kept in the order of the durable file.
pub struct Store {
    entries: Vec<Entry>,
}

impl View for Store {
    type V = Map<Seq<char>, Seq<char>>;

    open spec fn view(&self) -> Map<Seq<char>, Seq<char>> {
        records_map(self.records())
    }
}

impl Store {
    /// The entries in file order.
    pub closed spec fn records(&self) -> Seq<Record> {
        Seq::new(self.entries@.len(), |i: int| self.entries@[i]@)
    }

    /// The store's invariant: at most one entry for each key.
    pub open spec fn wf(&self) -> bool {
        distinct_keys(self.records())
    }

    /// An empty store.
    pub fn new() -> (s: Store)
        ensures
            s.wf(),
            s.records() == Seq::<Record>::empty(),
            s@ == Map::<Seq<char>, Seq<char>>::empty(),
    {
        let s = Store { entries: Vec::new() };
        assert(s.records() =~= Seq::<Record>::empty());
        s
    }

    /// The number of entries.
    pub fn size(&self) -> (n: usize)
        ensures
            n == self.records().len(),
            self.wf() ==> n == self@.dom().len(),
    {
        proof {
            if self.wf() {
                lemma_map_len(self.records());
            }
        }
        self.entries.len()
    }

    /// The entry at place `i` of the file order.
    pub fn entry(&self, i: usize) -> (e: &Entry)
        requires
            i < self.records().len(),
        ensures
            e@ == self.records()[i as int],
    {
        &self.entries[i]
    }

    /// The place of `key` among the entries, if it has one.
    pub fn position(&self, key: &str) -> (r: Option<usize>)
        ensures
            match r {
                Some(i) => i < self.records().len() && self.records()[i as int].0 == key@,
                None => !has_key(self.records(), key@),
            },
    {
        let wanted = key.to_owned();
        let mut i: usize = 0;
        while i < self.entries.len()
            invariant
                i <= self.entries.len(),
                wanted@ == key@,
                forall|j: int| 0 <= j < i ==> (#[trigger] self.records()[j]).0 != key@,
            decreases self.entries.len() - i,
        {
            if self.entries[i].key == wanted {
                return Some(i);
            }
            i += 1;
        }
        None
    }

    /// The hash stored under `key`, or `None` where the key is absent.
    pub fn get(&self, key: &str) -> (r: Option<String>)
        requires
            self.wf(),
        ensures
            match r {
                Some(h) => self@.contains_key(key@) && self@[key@] == h@,
                None => !self@.contains_key(key@),
            },
    {
        proof {
            lemma_map_keys(self.records());
        }
        match self.position(key) {
            Some(i) => {
                proof {
                    lemma_map_value(self.records(), i as int);
                }
                Some(self.entries[i].hash.clone())
            },
            None => None,
        }
    }

    /// Stores `hash` under `key`: inserts where the key is absent, overwrites
    /// where it is present, and says which of the two it did.
    pub fn put(&mut self, key: String, hash: String) -> (r: PutOutcome)
        requires
            old(self).wf(),
        ensures
            final(self).wf(),
            final(self).records() == records_after_put(old(self).records(), key@, hash@),
            final(self)@ == old(self)@.insert(key@, hash@),
            r == (if old(self)@.contains_key(key@) {
                PutOutcome::Updated
            } else {
                PutOutcome::Inserted
            }),
    {
        proof {
            lemma_map_keys(self.records());
            lemma_put_map(self.records(), key@, hash@);
            lemma_put_distinct(self.records(), key@, hash@);
        }
        let ghost before = self.records();
        match self.position(key.as_str()) {
            Some(i) => {
                assert(has_key(before, key@)) by {
                    assert(before[i as int].0 == key@);
                }
                self.entries.set(i, Entry { key, hash });
                assert(self.records() =~= with_hash(before, key@, hash@)) by {
                    assert forall|j: int| 0 <= j < before.len() && j != i implies (#[trigger] before[j]).0
                        != key@ by {
                        assert(before[j].0 != before[i as int].0);
                    }
                }
                PutOutcome::Updated
            },
            None => {
                self.entries.push(Entry { key, hash });
                assert(self.records() =~= before.push((key@, hash@)));
                PutOutcome::Inserted
            },
        }
    }
}

/// The current number of entries in `store`.
pub fn get_storage_size(store: &Store) -> (n: usize)
    ensures
        n == store.records().len(),
        store.wf() ==> n == store@.dom().len(),
{
    store.size()
}

} // verus!
