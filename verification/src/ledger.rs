//! The ledger: a content-addressed store. It holds files, as a directory
//! does: what is added is kept in the file named by the digest of its bytes,
//! so storing the same bytes again changes nothing. The files with the
//! extension `json` are its entries. What kind of document an entry holds is
//! decided anew each time the ledger is listed, by checking its bytes against
//! the schemas.

use crate::digest::{blake3_hex, digest_hex, is_hex, is_hex_char};
use crate::schema::{is_provenance, is_receipt, validate_provenance_bytes, validate_receipt_bytes};
use crate::strmap::{
    bind, keys_distinct, lemma_bind, lemma_bind_fresh, lemma_last_entry, lemma_value_of,
    value_of,
};
use crate::text::{ascii_lower, from_chars, lower, str_eq, to_chars};
use vstd::string::StringExecFns;
use vstd::prelude::*;
use vstd::slice::slice_to_vec;

verus! {

/// An entry of the ledger as it is listed: the kind of document (`receipt`,
/// `provenance` or `unknown`) and the name it is stored under.
#[derive(Debug, PartialEq, Eq)]
pub struct Entry {
    pub kind: String,
    pub digest: String,
}

impl Clone for Entry {
    /// A copy of the entry.
    fn clone(&self) -> (copy: Entry)
        ensures
            copy.kind@ == self.kind@,
            copy.digest@ == self.digest@,
    {
        Entry { kind: self.kind.clone(), digest: self.digest.clone() }
    }
}

/// Why the ledger could not answer.
#[derive(Debug, Clone, Copy, PartialEq, Eq, Structural)]
pub enum LedgerError {
    /// Nothing is stored under that digest.
    NotFound,
}

/// The kind of a document, from which schemas it satisfies: a receipt where it
/// satisfies the receipt schema, whatever else it satisfies; else a
/// provenance record where it satisfies that schema; else unknown.
pub open spec fn kind_for(receipt_ok: bool, provenance_ok: bool) -> Seq<char> {
    if receipt_ok {
        "receipt"@
    } else if provenance_ok {
        "provenance"@
    } else {
        "unknown"@
    }
}

/// The kind of the document in `bytes`.
pub open spec fn kind_of(bytes: Seq<u8>) -> Seq<char> {
    kind_for(is_receipt(bytes), is_provenance(bytes))
}

/// The kind of a document, from which schemas it satisfies.
pub fn kind_from(receipt_ok: bool, provenance_ok: bool) -> (kind: String)
    ensures
        kind@ == kind_for(receipt_ok, provenance_ok),
{
    if receipt_ok {
        "receipt".to_owned()
    } else if provenance_ok {
        "provenance".to_owned()
    } else {
        "unknown".to_owned()
    }
}

/// The kind of the document in `bytes`.
pub fn classify(bytes: &[u8]) -> (kind: String)
    ensures
        kind@ == kind_of(bytes@),
{
    let receipt_ok = validate_receipt_bytes(bytes).is_ok();
    let provenance_ok = if receipt_ok {
        false
    } else {
        validate_provenance_bytes(bytes).is_ok()
    };
    kind_from(receipt_ok, provenance_ok)
}

/// The entries as they are listed: for each file with the extension `json`,
/// in order, the kind of its document and the name of the entry.
pub open spec fn listing(files: Seq<(Seq<char>, Seq<u8>)>) -> Seq<(Seq<char>, Seq<char>)>
    decreases files.len(),
{
    if files.len() == 0 {
        Seq::empty()
    } else {
        match entry_of_file(files.last().0) {
            Some(name) => listing(files.drop_last()).push((kind_of(files.last().1), name)),
            None => listing(files.drop_last()),
        }
    }
}

/// The kinds and names of a list of entries.
pub open spec fn entry_views(entries: Seq<Entry>) -> Seq<(Seq<char>, Seq<char>)> {
    Seq::new(entries.len(), |i: int| (entries[i].kind@, entries[i].digest@))
}

/// The names of the listed entries of kind `receipt`, in order.
pub open spec fn receipt_names(listed: Seq<(Seq<char>, Seq<char>)>) -> Seq<Seq<char>>
    decreases listed.len(),
{
    if listed.len() == 0 {
        Seq::empty()
    } else if listed.last().0 == "receipt"@ {
        receipt_names(listed.drop_last()).push(listed.last().1)
    } else {
        receipt_names(listed.drop_last())
    }
}

/// An entry is listed as a receipt exactly where its bytes satisfy the receipt
/// schema.
pub proof fn lemma_kind_is_receipt(bytes: Seq<u8>)
    ensures
        kind_of(bytes) == "receipt"@ <==> is_receipt(bytes),
{
    reveal_strlit("receipt");
    reveal_strlit("provenance");
    reveal_strlit("unknown");
    assert("receipt"@.len() == 7 && "provenance"@.len() == 10);
    assert("receipt"@[0] == 'r' && "unknown"@[0] == 'u');
}

/// The file that holds what was added under a digest is listed as the entry of
/// that digest.
pub proof fn lemma_digest_names_its_entry(digest: Seq<char>)
    requires
        is_hex(digest),
        digest.len() > 0,
    ensures
        entry_of_file(file_name_of(digest)) == Some(digest),
{
    reveal_strlit(".json");
    let name = file_name_of(digest);
    let n = digest.len() as int;
    assert(name.len() == n + 5);
    assert(name[n] == '.' && name[n + 1] == 'j' && name[n + 2] == 's' && name[n + 3] == 'o'
        && name[n + 4] == 'n');
    assert(has_json_extension(name));
    assert(ends_in_json(name));
    assert(name.subrange(0, name.len() - 5) =~= digest);
    if n >= 5 {
        assert(is_hex_char(digest[n - 5]));
    }
    assert(!ends_in_json(digest));
    assert(without_json_suffix(digest) == digest);
    assert(without_json_suffix(name) == without_json_suffix(name.subrange(0, name.len() - 5)));
}

/// Binding a key gives it the value.
pub proof fn lemma_bound_value<V>(entries: Seq<(Seq<char>, V)>, key: Seq<char>, value: V)
    ensures
        value_of(bind(entries, key, value), key) == Some(value),
        bind(entries, key, value).len() >= entries.len(),
    decreases entries.len(),
{
    let out = bind(entries, key, value);
    if entries.len() == 0 {
        assert(out.last() == (key, value));
    } else {
        let rest = entries.drop_last();
        if entries.last().0 == key {
            assert(out.last() == (key, value));
        } else if value_of(rest, key) is Some {
            lemma_bound_value(rest, key, value);
            assert(out.last() == entries.last());
            assert(out.drop_last() =~= bind(rest, key, value));
        } else {
            assert(out.last() == (key, value));
        }
    }
}

/// Storing under a key what is already there changes nothing.
pub proof fn lemma_bind_same<V>(entries: Seq<(Seq<char>, V)>, key: Seq<char>, value: V)
    requires
        value_of(entries, key) == Some(value),
    ensures
        bind(entries, key, value) == entries,
    decreases entries.len(),
{
    if entries.len() > 0 {
        let rest = entries.drop_last();
        if entries.last().0 == key {
            assert(rest.push((key, value)) =~= entries);
        } else {
            lemma_bind_same(rest, key, value);
            assert(rest.push(entries.last()) =~= entries);
        }
    }
}

/// Adding the same bytes twice leaves the ledger as adding them once: the
/// same files, none of them twice.
pub proof fn lemma_add_twice(files: Seq<(Seq<char>, Seq<u8>)>, bytes: Seq<u8>)
    ensures
        bind(
            bind(files, file_name_of(digest_hex(bytes)), bytes),
            file_name_of(digest_hex(bytes)),
            bytes,
        ) == bind(files, file_name_of(digest_hex(bytes)), bytes),
        keys_distinct(files) ==> keys_distinct(
            bind(files, file_name_of(digest_hex(bytes)), bytes),
        ),
{
    let key = file_name_of(digest_hex(bytes));
    lemma_bound_value(files, key, bytes);
    lemma_bind_same(bind(files, key, bytes), key, bytes);
    if keys_distinct(files) {
        lemma_bind(files, key, bytes);
    }
}

/// A content-addressed store of documents.
#[derive(Debug)]
pub struct Ledger {
    held: Vec<(String, Vec<u8>)>,
}

impl Ledger {
    /// What is stored: the names of the files and their bytes, in the order
    /// in which the names were first stored.
    pub closed spec fn files(&self) -> Seq<(Seq<char>, Seq<u8>)> {
        Seq::new(self.held@.len(), |i: int| (self.held@[i].0@, self.held@[i].1@))
    }

    /// No file name is stored twice.
    pub open spec fn wf(&self) -> bool {
        keys_distinct(self.files())
    }

    /// An empty ledger.
    pub fn new() -> (ledger: Ledger)
        ensures
            ledger.wf(),
            ledger.files() == Seq::<(Seq<char>, Seq<u8>)>::empty(),
    {
        let ledger = Ledger { held: Vec::new() };
        proof {
            assert(ledger.files() =~= Seq::<(Seq<char>, Seq<u8>)>::empty());
        }
        ledger
    }

    /// The number of files.
    pub fn len(&self) -> (n: usize)
        ensures
            n == self.files().len(),
    {
        self.held.len()
    }

    /// The name of file `i`.
    pub fn name_at(&self, i: usize) -> (name: &String)
        requires
            i < self.files().len(),
        ensures
            name@ == self.files()[i as int].0,
    {
        &self.held[i].0
    }

    /// The bytes of file `i`.
    pub fn bytes_at(&self, i: usize) -> (bytes: &Vec<u8>)
        requires
            i < self.files().len(),
        ensures
            bytes@ == self.files()[i as int].1,
    {
        &self.held[i].1
    }

    /// The position of the last file named `name`, if there is one.
    fn position(&self, name: &str) -> (r: Option<usize>)
        ensures
            r is Some ==> r->0 < self.files().len() && self.files()[r->0 as int].0 == name@,
            r is Some ==> forall|i: int|
                r->0 < i < self.files().len() ==> (#[trigger] self.files()[i]).0 != name@,
            r is None ==> forall|i: int|
                0 <= i < self.files().len() ==> (#[trigger] self.files()[i]).0 != name@,
    {
        let mut i: usize = self.held.len();
        while i > 0
            invariant
                i <= self.held.len(),
                forall|k: int|
                    i <= k < self.files().len() ==> (#[trigger] self.files()[k]).0 != name@,
            decreases i,
        {
            i -= 1;
            if str_eq(self.held[i].0.as_str(), name) {
                return Some(i);
            }
        }
        None
    }

    /// Stores `bytes` in the file `name`, in place of what that file held.
    pub fn put(&mut self, name: String, bytes: Vec<u8>)
        ensures
            final(self).files() == bind(old(self).files(), name@, bytes@),
            old(self).wf() ==> final(self).wf(),
    {
        let ghost before = self.files();
        let found = self.position(name.as_str());
        match found {
            Some(i) => {
                self.held.set(i, (name, bytes));
                proof {
                    assert(self.files() =~= before.update(i as int, (name@, bytes@)));
                    lemma_last_entry(before, name@, i as int);
                }
            },
            None => {
                self.held.push((name, bytes));
                proof {
                    assert(self.files() =~= before.push((name@, bytes@)));
                    lemma_bind_fresh(before, name@, bytes@);
                }
            },
        }
        proof {
            if keys_distinct(before) {
                lemma_bind(before, name@, bytes@);
            }
        }
    }

    /// Stores `bytes` in the file named by their digest and returns the
    /// digest, 64 hexadecimal digits. Where the same bytes are stored already,
    /// nothing changes. The hints are not looked at.
    pub fn add_json(
        &mut self,
        _kind_hint: &str,
        bytes: &[u8],
        _commit: Option<String>,
        _git_ref: Option<String>,
    ) -> (digest: String)
        ensures
            digest@ == digest_hex(bytes@),
            is_hex(digest@),
            digest@.len() == 64,
            final(self).files() == bind(old(self).files(), file_name_of(digest@), bytes@),
            value_of(old(self).files(), file_name_of(digest@)) == Some(bytes@) ==> final(self).files()
                == old(self).files(),
            value_of(final(self).files(), file_name_of(digest@)) == Some(bytes@),
            old(self).wf() ==> final(self).wf(),
    {
        let digest = blake3_hex(bytes);
        let name = entry_file_name(digest.as_str());
        proof {
            lemma_bound_value(self.files(), name@, bytes@);
            if value_of(self.files(), name@) == Some(bytes@) {
                lemma_bind_same(self.files(), name@, bytes@);
            }
        }
        self.put(name, slice_to_vec(bytes));
        digest
    }

    /// The bytes stored under `digest`: those of the file named by it.
    pub fn get_json(&self, digest: &str) -> (r: Result<Vec<u8>, LedgerError>)
        ensures
            match value_of(self.files(), file_name_of(digest@)) {
                Some(bytes) => r is Ok && r->Ok_0@ == bytes,
                None => r == Err::<Vec<u8>, LedgerError>(LedgerError::NotFound),
            },
    {
        let name = entry_file_name(digest);
        match self.position(name.as_str()) {
            Some(i) => {
                proof {
                    lemma_last_entry(self.files(), name@, i as int);
                }
                Ok(self.held[i].1.clone())
            },
            None => {
                proof {
                    lemma_value_of(self.files(), name@);
                }
                Err(LedgerError::NotFound)
            },
        }
    }

    /// The entries with their kinds: one for each file with the extension
    /// `json`, in the order in which the files are stored.
    pub fn list(&self) -> (out: Vec<Entry>)
        ensures
            entry_views(out@) == listing(self.files()),
    {
        let mut out: Vec<Entry> = Vec::new();
        let mut i: usize = 0;
        let ghost all = self.files();
        proof {
            assert(all.take(0) =~= Seq::<(Seq<char>, Seq<u8>)>::empty());
            assert(entry_views(out@) =~= listing(all.take(0)));
        }
        while i < self.held.len()
            invariant
                i <= self.held.len(),
                all == self.files(),
                entry_views(out@) == listing(all.take(i as int)),
            decreases self.held.len() - i,
        {
            proof {
                assert(all.take(i + 1).drop_last() =~= all.take(i as int));
                assert(all.take(i + 1).last() == all[i as int]);
            }
            match entry_name_of_file(self.held[i].0.as_str()) {
                Some(digest) => {
                    let kind = classify(self.held[i].1.as_slice());
                    let ghost before = entry_views(out@);
                    out.push(Entry { kind, digest });
                    proof {
                        assert(entry_views(out@) =~= before.push((kind@, digest@)));
                    }
                },
                None => {},
            }
            i += 1;
        }
        proof {
            assert(all.take(i as int) =~= all);
        }
        out
    }
}

/// The name of the file that holds the entry `digest`.
pub open spec fn file_name_of(digest: Seq<char>) -> Seq<char> {
    digest + ".json"@
}

/// Whether a file name has the extension `json`, in any case of letters: it
/// ends in a dot and those four letters, and the dot is not its first
/// character.
pub open spec fn has_json_extension(name: Seq<char>) -> bool {
    &&& name.len() >= 6
    &&& name[name.len() - 5] == '.'
    &&& ascii_lower(name[name.len() - 4]) == 'j'
    &&& ascii_lower(name[name.len() - 3]) == 's'
    &&& ascii_lower(name[name.len() - 2]) == 'o'
    &&& ascii_lower(name[name.len() - 1]) == 'n'
}

/// Whether `name` ends in `.json`, in lower case.
pub open spec fn ends_in_json(name: Seq<char>) -> bool {
    &&& name.len() >= 5
    &&& name[name.len() - 5] == '.'
    &&& name[name.len() - 4] == 'j'
    &&& name[name.len() - 3] == 's'
    &&& name[name.len() - 2] == 'o'
    &&& name[name.len() - 1] == 'n'
}

/// `name` without every `.json` at its end.
pub open spec fn without_json_suffix(name: Seq<char>) -> Seq<char>
    decreases name.len(),
{
    if ends_in_json(name) {
        without_json_suffix(name.subrange(0, name.len() - 5))
    } else {
        name
    }
}

/// The name of the entry that a file holds: for a file with the extension
/// `json`, its name without every `.json` at its end; no entry for another
/// file.
pub open spec fn entry_of_file(name: Seq<char>) -> Option<Seq<char>> {
    if has_json_extension(name) {
        Some(without_json_suffix(name))
    } else {
        None
    }
}

/// The name of the file that holds the entry `digest`.
pub fn entry_file_name(digest: &str) -> (name: String)
    ensures
        name@ == file_name_of(digest@),
{
    let mut name = digest.to_owned();
    name.append(".json");
    name
}

/// The name of the entry that the file `name` holds, if it holds one.
pub fn entry_name_of_file(name: &str) -> (r: Option<String>)
    ensures
        r is Some == entry_of_file(name@) is Some,
        r is Some ==> r->0@ == entry_of_file(name@)->0,
{
    let v = to_chars(name);
    let n = v.len();
    if !(n >= 6 && v[n - 5] == '.' && lower(v[n - 4]) == 'j' && lower(v[n - 3]) == 's' && lower(
        v[n - 2],
    ) == 'o' && lower(v[n - 1]) == 'n') {
        return None;
    }
    let mut end: usize = n;
    proof {
        assert(v@.subrange(0, end as int) =~= v@);
    }
    while end >= 5 && v[end - 5] == '.' && v[end - 4] == 'j' && v[end - 3] == 's' && v[end - 2]
        == 'o' && v[end - 1] == 'n'
        invariant
            end <= v.len(),
            v@ == name@,
            without_json_suffix(name@) == without_json_suffix(v@.subrange(0, end as int)),
        decreases end,
    {
        proof {
            let cur = v@.subrange(0, end as int);
            assert(ends_in_json(cur));
            assert(cur.subrange(0, cur.len() - 5) =~= v@.subrange(0, end - 5));
        }
        end -= 5;
    }
    Some(from_chars(&v, 0, end))
}

} // verus!
