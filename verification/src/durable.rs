//! The durable file: its contents as a function of the store, the write
//! that follows each mutation, and the loader that reads it back.

use crate::codec::{csv_line, csv_rows, decode_rows, encode_line, option_bytes};
use crate::store::{
    distinct_keys, has_key, law_one_record_per_key, law_reload_restores, lemma_map_keys,
    lemma_put_map, put_all, records_after_put, records_map, with_hash, PutOutcome, Record, Store,
};
use vstd::prelude::*;

verus! {

/// The lines one after another. `None` where a line is missing.
pub open spec fn joined(lines: Seq<Option<Seq<u8>>>) -> Option<Seq<u8>>
    decreases lines.len(),
{
    if lines.len() == 0 {
        Some(Seq::empty())
    } else {
        match (joined(lines.drop_last()), lines.last()) {
            (Some(front), Some(line)) => Some(front + line),
            _ => None,
        }
    }
}

/// The line of each record, in order.
pub open spec fn record_lines(rs: Seq<Record>) -> Seq<Option<Seq<u8>>> {
    Seq::new(rs.len(), |i: int| csv_line(rs[i].0, rs[i].1))
}

/// The contents of the durable file for the records `rs`: one line for each,
/// in order. `None` where some record has no line.
pub open spec fn file_image(rs: Seq<Record>) -> Option<Seq<u8>> {
    joined(record_lines(rs))
}

/// The lines held in buffers, as mathematical bytes.
pub open spec fn lines_view(lines: Seq<Option<Vec<u8>>>) -> Seq<Option<Seq<u8>>> {
    Seq::new(lines.len(), |i: int| option_bytes(lines[i]))
}

/// A write to the durable file, as mathematical bytes.
pub enum WriteView {
    Append(Seq<u8>),
    Rewrite(Seq<u8>),
}

impl WriteView {
    /// The file after the write, where it held `file` before.
    pub open spec fn apply(self, file: Seq<u8>) -> Seq<u8> {
        match self {
            WriteView::Append(line) => file + line,
            WriteView::Rewrite(image) => image,
        }
    }
}

/// What has to be done to the durable file after a `put`.
#[derive(Debug, PartialEq, Eq)]
pub enum DurableWrite {
    /// Add these bytes at the end of the file; what is there stays.
    Append(Vec<u8>),
    /// Replace the whole file by these bytes.
    Rewrite(Vec<u8>),
}

impl View for DurableWrite {
    type V = WriteView;

    open spec fn view(&self) -> WriteView {
        match self {
            DurableWrite::Append(line) => WriteView::Append(line@),
            DurableWrite::Rewrite(image) => WriteView::Rewrite(image@),
        }
    }
}

/// The bytes that storing `h` under `k` sends to the file: the one new line where
/// `k` is new, the whole file with the new hash where `k` is known. `None`
/// where a line that would be written cannot be encoded.
pub open spec fn planned_bytes(rs: Seq<Record>, k: Seq<char>, h: Seq<char>) -> Option<Seq<u8>> {
    if has_key(rs, k) {
        file_image(with_hash(rs, k, h))
    } else {
        csv_line(k, h)
    }
}

/// The write that carries `bytes` to the file when something is stored
/// under `k`: an append where `k` is new, a rewrite where `k` is known.
pub open spec fn write_of(rs: Seq<Record>, k: Seq<char>, bytes: Seq<u8>) -> WriteView {
    if has_key(rs, k) {
        WriteView::Rewrite(bytes)
    } else {
        WriteView::Append(bytes)
    }
}

/// The write that storing `h` under `k` calls for: an append of the one new
/// line where `k` is new, a rewrite of the whole file where `k` is known.
/// `None` where a line that would be written cannot be encoded.
pub open spec fn planned_write(rs: Seq<Record>, k: Seq<char>, h: Seq<char>) -> Option<WriteView> {
    match planned_bytes(rs, k, h) {
        Some(bytes) => Some(write_of(rs, k, bytes)),
        None => None,
    }
}

/// The file follows the store: where the file holds the image of the
/// records before a store, the planned write makes it the image of the
/// records after it.
pub proof fn law_file_follows_store(
    rs: Seq<Record>,
    k: Seq<char>,
    h: Seq<char>,
    file: Seq<u8>,
    w: WriteView,
)
    requires
        file_image(rs) == Some(file),
        planned_write(rs, k, h) == Some(w),
    ensures
        file_image(records_after_put(rs, k, h)) == Some(w.apply(file)),
{
    if !has_key(rs, k) {
        let after = rs.push((k, h));
        assert(record_lines(after).drop_last() =~= record_lines(rs));
    }
}

/// Uniqueness in the file: after two stores under one key the file is the
/// image of records among which exactly one has that key, with the second
/// hash; the image holds one line for each record.
pub proof fn law_two_stores_one_line(
    rs: Seq<Record>,
    k: Seq<char>,
    h1: Seq<char>,
    h2: Seq<char>,
    file: Seq<u8>,
    w1: WriteView,
    w2: WriteView,
)
    requires
        distinct_keys(rs),
        file_image(rs) == Some(file),
        planned_write(rs, k, h1) == Some(w1),
        planned_write(records_after_put(rs, k, h1), k, h2) == Some(w2),
    ensures
        ({
            let after = records_after_put(records_after_put(rs, k, h1), k, h2);
            &&& file_image(after) == Some(w2.apply(w1.apply(file)))
            &&& exists|i: int|
                {
                    &&& 0 <= i < after.len()
                    &&& #[trigger] after[i] == (k, h2)
                    &&& forall|j: int|
                        0 <= j < after.len() && j != i ==> (#[trigger] after[j]).0 != k
                }
        }),
{
    law_file_follows_store(rs, k, h1, file, w1);
    law_file_follows_store(records_after_put(rs, k, h1), k, h2, w1.apply(file), w2);
    law_one_record_per_key(rs, k, h1, h2);
}

/// Insert cost: storing a new key appends one line; the bytes that the file
/// held before stay where they are.
pub proof fn law_insert_appends(
    rs: Seq<Record>,
    k: Seq<char>,
    h: Seq<char>,
    file: Seq<u8>,
    w: WriteView,
)
    requires
        !has_key(rs, k),
        planned_write(rs, k, h) == Some(w),
    ensures
        w is Append,
        csv_line(k, h) == Some(w->Append_0),
        w.apply(file).len() >= file.len(),
        w.apply(file).subrange(0, file.len() as int) == file,
{
    assert(w.apply(file).subrange(0, file.len() as int) =~= file);
}

/// Update cost: storing a known key rewrites the whole file, with the new
/// hash for that key and every other record as it was.
pub proof fn law_update_rewrites(rs: Seq<Record>, k: Seq<char>, h: Seq<char>, w: WriteView)
    requires
        has_key(rs, k),
        planned_write(rs, k, h) == Some(w),
    ensures
        w is Rewrite,
        file_image(records_after_put(rs, k, h)) == Some(w->Rewrite_0),
        records_after_put(rs, k, h).len() == rs.len(),
        forall|i: int|
            0 <= i < rs.len() && (#[trigger] rs[i]).0 != k ==> records_after_put(rs, k, h)[i]
                == rs[i],
        forall|other: Seq<char>|
            other != k ==> (#[trigger] records_map(records_after_put(rs, k, h)).contains_key(other)
                <==> records_map(rs).contains_key(other)),
        forall|other: Seq<char>|
            other != k && records_map(rs).contains_key(other) ==> #[trigger] records_map(
                records_after_put(rs, k, h),
            )[other] == records_map(rs)[other],
{
    lemma_put_map(rs, k, h);
}

/// Joins the lines into one buffer, in order. Where a line is missing there
/// is nothing to join.
pub fn join_lines(lines: &Vec<Option<Vec<u8>>>) -> (image: Option<Vec<u8>>)
    ensures
        option_bytes(image) == joined(lines_view(lines@)),
{
    let ghost all = lines_view(lines@);
    let mut out: Vec<u8> = Vec::new();
    let mut missing = false;
    let mut i: usize = 0;
    while i < lines.len()
        invariant
            i <= lines.len(),
            all == lines_view(lines@),
            joined(all.take(i as int)) == (if missing {
                None
            } else {
                Some(out@)
            }),
        decreases lines.len() - i,
    {
        proof {
            assert(all.take(i + 1).drop_last() =~= all.take(i as int));
            assert(all.take(i + 1).last() == option_bytes(lines@[i as int]));
        }
        match &lines[i] {
            Some(line) => {
                if !missing {
                    let ghost before = out@;
                    out.extend_from_slice(line.as_slice());
                    assert(out@ =~= before + line@);
                }
            },
            None => {
                missing = true;
            },
        }
        i += 1;
    }
    proof {
        assert(all.take(lines.len() as int) =~= all);
    }
    if missing {
        None
    } else {
        Some(out)
    }
}

/// The bytes to write when `hash` is stored under `key`: the line of the
/// new entry where the key is new; where it is known, the line of every
/// entry, with the new hash for that key.
fn encode_put(store: &Store, key: &str, hash: &str) -> (bytes: Option<Vec<u8>>)
    ensures
        option_bytes(bytes) == planned_bytes(store.records(), key@, hash@),
{
    match store.position(key) {
        None => encode_line(key, hash),
        Some(found) => {
            assert(has_key(store.records(), key@)) by {
                assert(store.records()[found as int].0 == key@);
            }
            let wanted = key.to_owned();
            let ghost target = with_hash(store.records(), key@, hash@);
            let mut lines: Vec<Option<Vec<u8>>> = Vec::new();
            let n = store.size();
            let mut i: usize = 0;
            while i < n
                invariant
                    i <= n,
                    n == store.records().len(),
                    wanted@ == key@,
                    target == with_hash(store.records(), key@, hash@),
                    target.len() == n,
                    lines@.len() == i,
                    lines_view(lines@) =~= record_lines(target).take(i as int),
                decreases n - i,
            {
                let entry = store.entry(i);
                let line = if entry.key == wanted {
                    encode_line(key, hash)
                } else {
                    encode_line(entry.key.as_str(), entry.hash.as_str())
                };
                let ghost before = lines@;
                proof {
                    assert(option_bytes(line) == record_lines(target)[i as int]);
                }
                lines.push(line);
                proof {
                    assert forall|j: int| 0 <= j < i + 1 implies lines_view(lines@)[j]
                        == record_lines(target).take(i + 1)[j] by {
                        if j < i {
                            assert(lines_view(before)[j] == record_lines(target).take(i as int)[j]);
                        }
                    }
                }
                i += 1;
            }
            proof {
                assert(record_lines(target).take(n as int) =~= record_lines(target));
            }
            join_lines(&lines)
        },
    }
}

/// Stores `hash` under `key` once the bytes for the durable file are there,
/// and returns the write that carries them: an append where the key was
/// new, a rewrite where it was known. Without the bytes nothing is stored
/// and nothing is to be written.
pub fn commit_entry(store: &mut Store, key: &str, hash: &str, bytes: Option<Vec<u8>>) -> (write:
    Option<DurableWrite>)
    requires
        old(store).wf(),
    ensures
        final(store).wf(),
        match bytes {
            Some(b) => {
                &&& write matches Some(w) && w@ == write_of(old(store).records(), key@, b@)
                &&& final(store).records() == records_after_put(old(store).records(), key@, hash@)
                &&& final(store)@ == old(store)@.insert(key@, hash@)
            },
            None => write is None && final(store).records() == old(store).records(),
        },
{
    proof {
        lemma_map_keys(store.records());
    }
    match bytes {
        Some(b) => {
            match store.put(key.to_owned(), hash.to_owned()) {
                PutOutcome::Inserted => Some(DurableWrite::Append(b)),
                PutOutcome::Updated => Some(DurableWrite::Rewrite(b)),
            }
        },
        None => None,
    }
}

/// Stores `hash` under `key` and returns the write that brings the durable
/// file up to date. Where a line cannot be encoded nothing is stored and
/// nothing is to be written.
pub fn store_entry(store: &mut Store, key: &str, hash: &str) -> (write: Option<DurableWrite>)
    requires
        old(store).wf(),
    ensures
        final(store).wf(),
        match write {
            Some(w) => {
                &&& planned_write(old(store).records(), key@, hash@) == Some(w@)
                &&& final(store).records() == records_after_put(old(store).records(), key@, hash@)
                &&& final(store)@ == old(store)@.insert(key@, hash@)
            },
            None => {
                &&& planned_write(old(store).records(), key@, hash@) is None
                &&& final(store).records() == old(store).records()
            },
        },
{
    let bytes = encode_put(store, key, hash);
    commit_entry(store, key, hash, bytes)
}

/// Why the durable file could not be loaded.
#[derive(Debug, Clone, Copy, PartialEq, Eq, Structural)]
pub enum LoadError {
    /// The file is not a sequence of records.
    Malformed,
    /// The row at this place, counted from 0, has not exactly two fields.
    FieldCount { row: usize },
}

/// Row `i` is the first that has not exactly two fields.
pub open spec fn first_bad_row(rows: Seq<Seq<Seq<char>>>, i: int) -> bool {
    &&& 0 <= i < rows.len()
    &&& rows[i].len() != 2
    &&& forall|j: int| 0 <= j < i ==> (#[trigger] rows[j]).len() == 2
}

/// Every row has exactly two fields.
pub open spec fn rows_ok(rows: Seq<Seq<Seq<char>>>) -> bool {
    forall|j: int| 0 <= j < rows.len() ==> (#[trigger] rows[j]).len() == 2
}

/// The rows as records: the first field is the key, the second the hash.
pub open spec fn rows_records(rows: Seq<Seq<Seq<char>>>) -> Seq<Record> {
    Seq::new(rows.len(), |i: int| (rows[i][0], rows[i][1]))
}

/// The place of the first row that has not exactly two fields.
fn find_bad_row(rows: &Vec<Vec<String>>) -> (r: Option<usize>)
    ensures
        match r {
            Some(i) => first_bad_row(rows.deep_view(), i as int),
            None => rows_ok(rows.deep_view()),
        },
{
    let mut i: usize = 0;
    while i < rows.len()
        invariant
            i <= rows.len(),
            forall|j: int| 0 <= j < i ==> (#[trigger] rows.deep_view()[j]).len() == 2,
        decreases rows.len() - i,
    {
        if rows[i].len() != 2 {
            return Some(i);
        }
        i += 1;
    }
    None
}

/// Loads rows into the store, in order; a later row replaces an earlier one
/// with the same key. Where a row has not exactly two fields the store is
/// left as it was.
pub fn load_rows(store: &mut Store, rows: &Vec<Vec<String>>) -> (r: Result<(), LoadError>)
    requires
        old(store).wf(),
    ensures
        final(store).wf(),
        match r {
            Ok(()) => {
                &&& rows_ok(rows.deep_view())
                &&& final(store).records() == put_all(
                    old(store).records(),
                    rows_records(rows.deep_view()),
                )
            },
            Err(LoadError::FieldCount { row }) => {
                &&& first_bad_row(rows.deep_view(), row as int)
                &&& final(store).records() == old(store).records()
            },
            Err(LoadError::Malformed) => false,
        },
{
    match find_bad_row(rows) {
        Some(row) => Err(LoadError::FieldCount { row }),
        None => {
            let ghost start = store.records();
            let ghost ops = rows_records(rows.deep_view());
            let mut i: usize = 0;
            proof {
                assert(ops.take(0) =~= Seq::<Record>::empty());
            }
            while i < rows.len()
                invariant
                    i <= rows.len(),
                    store.wf(),
                    rows_ok(rows.deep_view()),
                    ops == rows_records(rows.deep_view()),
                    store.records() == put_all(start, ops.take(i as int)),
                decreases rows.len() - i,
            {
                assert(rows.deep_view()[i as int].len() == 2);
                let row = &rows[i];
                proof {
                    assert(ops.take(i + 1).drop_last() =~= ops.take(i as int));
                    assert(ops.take(i + 1).last() == ops[i as int]);
                }
                store.put(row[0].clone(), row[1].clone());
                i += 1;
            }
            proof {
                assert(ops.take(rows.len() as int) =~= ops);
            }
            Ok(())
        },
    }
}

/// What loading the bytes of a durable file does to the records `rs`, given
/// what the reader made of the bytes.
pub open spec fn loaded(rs: Seq<Record>, parsed: Option<Seq<Seq<Seq<char>>>>) -> Result<
    Seq<Record>,
    LoadError,
> {
    match parsed {
        None => Err(LoadError::Malformed),
        Some(rows) => if rows_ok(rows) {
            Ok(put_all(rs, rows_records(rows)))
        } else {
            Err(
                LoadError::FieldCount {
                    row: (choose|i: int| first_bad_row(rows, i)) as usize,
                },
            )
        },
    }
}

/// The rows that a reader finds in a file of the records `rs`, where it
/// reads back what was written: one row of two fields for each record.
pub open spec fn record_rows(rs: Seq<Record>) -> Seq<Seq<Seq<char>>> {
    Seq::new(rs.len(), |i: int| seq![rs[i].0, rs[i].1])
}

/// Restart: loading the rows of a store's records into an empty store gives
/// the same records, in the same order, and so the same hash for every key.
pub proof fn law_reload_restores_store(rs: Seq<Record>)
    requires
        distinct_keys(rs),
    ensures
        rows_ok(record_rows(rs)),
        loaded(Seq::empty(), Some(record_rows(rs))) == Ok::<Seq<Record>, LoadError>(rs),
        records_map(loaded(Seq::empty(), Some(record_rows(rs)))->Ok_0) == records_map(rs),
{
    assert(rows_records(record_rows(rs)) =~= rs);
    law_reload_restores(rs);
}

/// Reads the contents of a durable file into the store. On an error the
/// store is left as it was.
pub fn read_db(store: &mut Store, bytes: &[u8]) -> (r: Result<(), LoadError>)
    requires
        old(store).wf(),
    ensures
        final(store).wf(),
        match loaded(old(store).records(), csv_rows(bytes@)) {
            Ok(rs) => r is Ok && final(store).records() == rs,
            Err(e) => r == Err::<(), LoadError>(e) && final(store).records() == old(store).records(),
        },
{
    match decode_rows(bytes) {
        None => Err(LoadError::Malformed),
        Some(rows) => {
            let r = load_rows(store, &rows);
            proof {
                if let Err(LoadError::FieldCount { row }) = r {
                    let rv = rows.deep_view();
                    let c = choose|i: int| first_bad_row(rv, i);
                    assert(first_bad_row(rv, row as int));
                    assert(first_bad_row(rv, c));
                    if c < row {
                        assert(rv[c].len() == 2);
                    }
                    if row < c {
                        assert(rv[row as int].len() == 2);
                    }
                }
            }
            r
        },
    }
}

/// The store at startup: empty where the durable file is empty, else what
/// the file holds.
pub fn initialize(bytes: &[u8]) -> (r: Result<Store, LoadError>)
    ensures
        match r {
            Ok(store) => {
                &&& store.wf()
                &&& if bytes@.len() == 0 {
                    store.records() == Seq::<Record>::empty()
                } else {
                    loaded(Seq::empty(), csv_rows(bytes@)) == Ok::<Seq<Record>, LoadError>(
                        store.records(),
                    )
                }
            },
            Err(e) => bytes@.len() != 0 && loaded(Seq::empty(), csv_rows(bytes@)) == Err::<
                Seq<Record>,
                LoadError,
            >(e),
        },
{
    let mut store = Store::new();
    if bytes.len() == 0 {
        Ok(store)
    } else {
        match read_db(&mut store, bytes) {
            Ok(()) => Ok(store),
            Err(e) => Err(e),
        }
    }
}

} // verus!
