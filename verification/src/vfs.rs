//! The per-compilation virtual file system: an in-memory mapping from
//! virtual paths to file bytes, with lazily decoded, cached source text.
//!
//! The mapping is write-once-per-path in spirit: inserting a duplicate path
//! is an explicit overwrite (last write wins), never a merge.

use vstd::prelude::*;
use vstd::utf8::decode_utf8;
use vstd::utf8::valid_utf8;

use crate::error::VfsError;

verus! {

/// The given bytes with every leading byte-order mark removed, which is how
/// a file's source text is produced from its raw bytes before decoding.
pub open spec fn strip_boms(bytes: Seq<u8>) -> Seq<u8>
    decreases bytes.len(),
{
    if bytes.len() >= 3 && bytes[0] == 0xefu8 && bytes[1] == 0xbbu8 && bytes[2] == 0xbfu8 {
        strip_boms(bytes.skip(3))
    } else {
        bytes
    }
}

/// The source text a file with these bytes decodes to, when it has one.
pub open spec fn source_chars(bytes: Seq<u8>) -> Seq<char> {
    decode_utf8(strip_boms(bytes))
}

/// Whether a file with these bytes has source text at all.
pub open spec fn has_source(bytes: Seq<u8>) -> bool {
    valid_utf8(strip_boms(bytes))
}

/// Copies `bytes` with every leading byte-order mark removed.
fn strip_bom_prefix(bytes: &Vec<u8>) -> (r: Vec<u8>)
    ensures
        r@ == strip_boms(bytes@),
{
    let mut start: usize = 0;
    proof {
        assert(bytes@.skip(0) =~= bytes@);
    }
    while start < bytes.len() && bytes.len() - start >= 3 && bytes[start] == 0xefu8 && bytes[start
        + 1] == 0xbbu8 && bytes[start + 2] == 0xbfu8
        invariant
            0 <= start <= bytes@.len(),
            strip_boms(bytes@) == strip_boms(bytes@.skip(start as int)),
        decreases bytes@.len() - start,
    {
        proof {
            let sfx = bytes@.skip(start as int);
            assert(sfx[0] == bytes@[start as int]);
            assert(sfx[1] == bytes@[start as int + 1]);
            assert(sfx[2] == bytes@[start as int + 2]);
            assert(sfx.skip(3) =~= bytes@.skip(start + 3));
        }
        start = start + 3;
    }
    proof {
        let sfx = bytes@.skip(start as int);
        if sfx.len() >= 3 {
            assert(sfx[0] == bytes@[start as int]);
            assert(sfx[1] == bytes@[start as int + 1]);
            assert(sfx[2] == bytes@[start as int + 2]);
        }
        assert(strip_boms(sfx) == sfx);
    }
    let mut out: Vec<u8> = Vec::new();
    let mut i: usize = start;
    while i < bytes.len()
        invariant
            start <= i <= bytes@.len(),
            out@ =~= bytes@.subrange(start as int, i as int),
        decreases bytes@.len() - i,
    {
        let b = bytes[i];
        out.push(b);
        proof {
            assert(out@ =~= bytes@.subrange(start as int, i + 1));
        }
        i = i + 1;
    }
    proof {
        assert(out@ =~= bytes@.skip(start as int));
    }
    out
}

/// Relies on `std::str::from_utf8`: decoding succeeds exactly on valid
/// UTF-8 input and yields the character sequence the encoding denotes.
#[verifier::external_body]
fn decode_text(bytes: &Vec<u8>) -> (r: Option<String>)
    ensures
        r matches Some(t) ==> valid_utf8(bytes@) && t@ == decode_utf8(bytes@),
        r is None ==> !valid_utf8(bytes@),
{
    match std::str::from_utf8(bytes.as_slice()) {
        Ok(s) => Some(s.to_owned()),
        Err(_) => None,
    }
}

/// One virtual file: raw bytes, and the source text decoded from them the
/// first time it is requested (source text is immutable after insertion,
/// so the decode result is computed once and cached).
pub struct FileEntry {
    bytes: Vec<u8>,
    text: Option<String>,
}

impl FileEntry {
    /// The file's raw content.
    pub closed spec fn spec_bytes(self) -> Seq<u8> {
        self.bytes@
    }

    /// The cached text, when present, is exactly the decoded source text.
    pub closed spec fn wf(self) -> bool {
        self.text matches Some(t) ==> has_source(self.bytes@) && t@ == source_chars(self.bytes@)
    }

    /// A fresh entry holding `bytes`, with no text decoded yet.
    pub fn new(bytes: Vec<u8>) -> (r: Self)
        ensures
            r.spec_bytes() == bytes@,
            r.wf(),
    {
        FileEntry { bytes, text: None }
    }

    /// The entry's source text: decoded from the bytes on first request
    /// (with leading byte-order marks stripped), reused afterwards.
    pub fn source(&mut self) -> (r: Result<String, VfsError>)
        requires
            old(self).wf(),
        ensures
            final(self).wf(),
            final(self).spec_bytes() == old(self).spec_bytes(),
            r matches Ok(t) ==> t@ == source_chars(old(self).spec_bytes()),
            r is Ok <==> has_source(old(self).spec_bytes()),
            r matches Err(e) ==> e == VfsError::InvalidEncoding,
    {
        if self.text.is_some() {
            let t = self.text.as_ref().unwrap();
            Ok(t.clone())
        } else {
            let stripped = strip_bom_prefix(&self.bytes);
            match decode_text(&stripped) {
                Some(t) => {
                    let out = t.clone();
                    self.text = Some(t);
                    Ok(out)
                },
                None => Err(VfsError::InvalidEncoding),
            }
        }
    }
}

/// The virtual file system of a single compilation: a mapping from virtual
/// paths to file entries, viewed as a `Map` from path characters to bytes.
pub struct Vfs {
    entries: Vec<(String, FileEntry)>,
}

/// The mapping a list of entries denotes; later entries shadow earlier ones.
spec fn entries_map(s: Seq<(String, FileEntry)>) -> Map<Seq<char>, Seq<u8>>
    decreases s.len(),
{
    if s.len() == 0 {
        Map::empty()
    } else {
        entries_map(s.drop_last()).insert(s.last().0@, s.last().1.bytes@)
    }
}

impl View for Vfs {
    type V = Map<Seq<char>, Seq<u8>>;

    closed spec fn view(&self) -> Map<Seq<char>, Seq<u8>> {
        entries_map(self.entries@)
    }
}

proof fn lemma_entries_map_contains(s: Seq<(String, FileEntry)>, p: Seq<char>)
    ensures
        entries_map(s).contains_key(p) <==> exists|i: int|
            0 <= i < s.len() && (#[trigger] s[i]).0@ == p,
    decreases s.len(),
{
    if s.len() > 0 {
        lemma_entries_map_contains(s.drop_last(), p);
        if s.last().0@ == p {
            assert(s[s.len() - 1].0@ == p);
        } else if entries_map(s).contains_key(p) {
            let i = choose|i: int|
                0 <= i < s.drop_last().len() && (#[trigger] s.drop_last()[i]).0@ == p;
            assert(s[i].0@ == p);
        } else {
            assert(forall|i: int|
                0 <= i < s.len() && (#[trigger] s[i]).0@ == p ==> s.drop_last()[i].0@ == p);
        }
    }
}

/// Whether every path occurs at most once in the entry list.
spec fn unique_keys(s: Seq<(String, FileEntry)>) -> bool {
    forall|i: int, j: int|
        0 <= i < j < s.len() ==> (#[trigger] s[i]).0@ != (#[trigger] s[j]).0@
}

proof fn lemma_entries_map_at(s: Seq<(String, FileEntry)>, i: int)
    requires
        unique_keys(s),
        0 <= i < s.len(),
    ensures
        entries_map(s).contains_key(s[i].0@),
        entries_map(s)[s[i].0@] == s[i].1.bytes@,
    decreases s.len(),
{
    if i < s.len() - 1 {
        assert(s.drop_last()[i] == s[i]);
        lemma_entries_map_at(s.drop_last(), i);
        assert(s.last().0@ != s[i].0@);
    }
}

proof fn lemma_entries_map_update(s: Seq<(String, FileEntry)>, i: int, p: (String, FileEntry))
    requires
        unique_keys(s),
        0 <= i < s.len(),
        s[i].0@ == p.0@,
    ensures
        entries_map(s.update(i, p)) =~= entries_map(s).insert(p.0@, p.1.bytes@),
    decreases s.len(),
{
    let t = s.update(i, p);
    if i == s.len() - 1 {
        assert(t.drop_last() =~= s.drop_last());
        assert(t.last() == p);
    } else {
        assert(t.drop_last() =~= s.drop_last().update(i, p));
        assert(t.last() == s.last());
        assert(s.drop_last()[i] == s[i]);
        lemma_entries_map_update(s.drop_last(), i, p);
        assert(s.last().0@ != s[i].0@);
    }
}

impl Vfs {
    /// Every path occurs at most once, and every entry's cache is sound.
    pub closed spec fn wf(self) -> bool {
        &&& unique_keys(self.entries@)
        &&& forall|i: int| 0 <= i < self.entries@.len() ==> (#[trigger] self.entries@[i]).1.wf()
    }

    /// The decoded source text of the file at `p`, when the file exists
    /// and its bytes decode.
    pub open spec fn spec_source(self, p: Seq<char>) -> Seq<char> {
        source_chars(self@[p])
    }

    /// An empty file system.
    pub fn new() -> (r: Self)
        ensures
            r.wf(),
            r@ == Map::<Seq<char>, Seq<u8>>::empty(),
    {
        Vfs { entries: Vec::new() }
    }

    /// Looks up the index of `path` in the entry list, if any.
    fn find(&self, path: &String) -> (r: Option<usize>)
        ensures
            r matches Some(i) ==> i < self.entries@.len() && self.entries@[i as int].0@ == path@,
            r is None ==> forall|i: int|
                0 <= i < self.entries@.len() ==> (#[trigger] self.entries@[i]).0@ != path@,
    {
        let mut i: usize = 0;
        while i < self.entries.len()
            invariant
                0 <= i <= self.entries@.len(),
                forall|j: int| 0 <= j < i ==> (#[trigger] self.entries@[j]).0@ != path@,
            decreases self.entries@.len() - i,
        {
            let entry = &self.entries[i];
            if entry.0 == *path {
                return Some(i);
            }
            i = i + 1;
        }
        None
    }

    /// Inserts `bytes` under `path`. A duplicate path is an explicit
    /// overwrite: the new content replaces the old, never a merge.
    pub fn insert(&mut self, path: String, bytes: Vec<u8>)
        requires
            old(self).wf(),
        ensures
            final(self).wf(),
            final(self)@ == old(self)@.insert(path@, bytes@),
    {
        let ghost s0 = self.entries@;
        let ghost pv = path@;
        let ghost bv = bytes@;
        let entry = FileEntry::new(bytes);
        match self.find(&path) {
            Some(i) => {
                let ghost pair = (path, entry);
                proof {
                    lemma_entries_map_update(s0, i as int, pair);
                }
                self.entries.set(i, (path, entry));
                proof {
                    assert(self.entries@ =~= s0.update(i as int, pair));
                    assert(forall|k: int|
                        0 <= k < s0.len() ==> (#[trigger] self.entries@[k]).0@ == s0[k].0@);
                    assert(final(self)@ =~= old(self)@.insert(pv, bv));
                }
            },
            None => {
                self.entries.push((path, entry));
                proof {
                    assert(self.entries@.drop_last() =~= s0);
                    assert forall|k: int, l: int|
                        0 <= k < l < self.entries@.len() implies (#[trigger] self.entries@[k]).0@
                        != (#[trigger] self.entries@[l]).0@ by {
                        if l == self.entries@.len() - 1 {
                            assert(self.entries@[k] == s0[k]);
                            assert(self.entries@[l].0@ == pv);
                        } else {
                            assert(self.entries@[k] == s0[k]);
                            assert(self.entries@[l] == s0[l]);
                        }
                    }
                    assert(final(self)@ =~= old(self)@.insert(pv, bv));
                }
            },
        }
    }

    /// The raw bytes of the file at `path`, when it exists.
    pub fn get(&self, path: &String) -> (r: Option<&Vec<u8>>)
        requires
            self.wf(),
        ensures
            r matches Some(b) ==> self@.contains_key(path@) && b@ == self@[path@],
            r is None ==> !self@.contains_key(path@),
    {
        proof {
            lemma_entries_map_contains(self.entries@, path@);
        }
        match self.find(path) {
            Some(i) => {
                proof {
                    lemma_entries_map_at(self.entries@, i as int);
                }
                Some(&self.entries[i].1.bytes)
            },
            None => None,
        }
    }

    /// The source text of the file at `path`: its bytes with leading
    /// byte-order marks stripped, decoded as UTF-8, cached per file.
    pub fn source(&mut self, path: &String) -> (r: Result<String, VfsError>)
        requires
            old(self).wf(),
        ensures
            final(self).wf(),
            final(self)@ == old(self)@,
            (r is Ok) <==> old(self)@.contains_key(path@) && has_source(old(self)@[path@]),
            r matches Ok(t) ==> t@ == old(self).spec_source(path@),
            r matches Err(e) ==> {
                &&& e matches VfsError::NotFound(p) ==> (p@ == path@ && !old(
                    self,
                )@.contains_key(path@))
                &&& e is InvalidEncoding ==> (old(self)@.contains_key(path@) && !has_source(
                    old(self)@[path@],
                ))
            },
    {
        proof {
            lemma_entries_map_contains(self.entries@, path@);
        }
        let ghost s0 = self.entries@;
        match self.find(path) {
            Some(i) => {
                proof {
                    lemma_entries_map_at(s0, i as int);
                }
                let mut taken: (String, FileEntry) = (String::new(), FileEntry::new(Vec::new()));
                self.entries.set_and_swap(i, &mut taken);
                let out = taken.1.source();
                let ghost pair = taken;
                self.entries.set_and_swap(i, &mut taken);
                proof {
                    assert(self.entries@ =~= s0.update(i as int, pair));
                    assert(pair.0@ == path@);
                    assert(pair.1.bytes@ == s0[i as int].1.bytes@);
                    lemma_entries_map_update(s0, i as int, pair);
                    assert(entries_map(s0).insert(path@, pair.1.bytes@) =~= entries_map(s0));
                    assert(forall|k: int|
                        0 <= k < s0.len() ==> (#[trigger] self.entries@[k]).0@ == s0[k].0@);
                }
                out
            },
            None => Err(VfsError::NotFound(path.clone())),
        }
    }
}

/// Law: a second insertion under the same path overwrites the first; the
/// file system afterwards is exactly what a single insertion of the second
/// content would have produced.
pub proof fn lemma_insert_last_write_wins(
    m: Map<Seq<char>, Seq<u8>>,
    path: Seq<char>,
    first: Seq<u8>,
    second: Seq<u8>,
)
    ensures
        m.insert(path, first).insert(path, second) == m.insert(path, second),
{
    assert(m.insert(path, first).insert(path, second) =~= m.insert(path, second));
}

} // verus!
