//! Native-library extraction: every regular file of an archive whose full
//! name avoids the marker segment "META-INF" is kept, flattened to its
//! basename. Colliding basenames from different subdirectories both appear
//! in the result, in archive order, so a writer that takes them in order
//! overwrites the earlier one — a documented trap of the flattening, not a
//! guarantee.
//!
//! The archive itself is read by the zip crate from an in-memory byte
//! string, behind the trusted items below; which entries are kept, and
//! under what name, is decided here and verified.

use vstd::prelude::*;
use crate::text::{base_name, basename_of, contains, contains_char, contains_sub,
    lemma_contains_in_subrange, lemma_suffix_free_of_char, lemma_suffix_is_suffix};

verus! {

#[verifier::external_type_specification]
#[verifier::external_body]
#[verifier::reject_recursive_types(T)]
pub struct ExCursor<T>(std::io::Cursor<T>);

#[verifier::external_type_specification]
#[verifier::external_body]
#[verifier::reject_recursive_types(R)]
pub struct ExZipArchive<R>(zip::ZipArchive<R>);

/// What an opened archive holds, entry by entry: full name, whether the
/// entry is a regular file, and its decompressed bytes.
pub uninterp spec fn archive_entries(a: zip::ZipArchive<std::io::Cursor<Vec<u8>>>) -> Seq<
    (Seq<char>, bool, Seq<u8>),
>;

/// The entry table that a byte string parses to as an archive: a function
/// of the bytes alone.
pub uninterp spec fn entries_of(bytes: Seq<u8>) -> Seq<(Seq<char>, bool, Seq<u8>)>;

/// Whether a byte string parses as an archive: `ZipArchive::new` succeeds
/// or fails as a function of the bytes alone.
pub uninterp spec fn archive_ok(bytes: Seq<u8>) -> bool;

/// Whether entry `i` of the archive a byte string parses to can be read: a
/// function of the bytes and the index alone.
pub uninterp spec fn entry_ok(bytes: Seq<u8>, i: int) -> bool;

/// Whether entry `i` of an opened archive can be read.
pub uninterp spec fn read_ok(a: zip::ZipArchive<std::io::Cursor<Vec<u8>>>, i: int) -> bool;

/// Relies on zip's `ZipArchive::new` over an in-memory cursor: parsing the
/// central directory of the same bytes succeeds or fails the same way and
/// yields the same entry table, and whether an entry of the opened archive
/// can later be read is likewise settled by the bytes and the index.
#[verifier::external_body]
fn open_archive(bytes: &Vec<u8>) -> (r: Option<zip::ZipArchive<std::io::Cursor<Vec<u8>>>>)
    ensures
        (r is Some) == archive_ok(bytes@),
        r matches Option::Some(a) ==> archive_entries(a) == entries_of(bytes@) && (forall|i: int|
            (#[trigger] read_ok(a, i)) == entry_ok(bytes@, i)),
{
    zip::ZipArchive::new(std::io::Cursor::new(bytes.clone())).ok()
}

/// Relies on zip's `ZipArchive::len`: the number of entries in the table.
#[verifier::external_body]
fn archive_len(a: &zip::ZipArchive<std::io::Cursor<Vec<u8>>>) -> (r: usize)
    ensures
        r == archive_entries(*a).len(),
{
    a.len()
}

/// Relies on zip's `ZipArchive::by_index` and on `ZipFile`'s `name`,
/// `is_file` and `Read` impl: one entry's name, kind and bytes. Whether
/// the read succeeds is settled by the archive and the index (the reader
/// is rebuilt per call); reading seeks the underlying cursor but leaves
/// the entry table, and every entry's readability, as they were.
#[verifier::external_body]
fn read_entry(a: &mut zip::ZipArchive<std::io::Cursor<Vec<u8>>>, i: usize) -> (r: Option<
    (String, bool, Vec<u8>),
>)
    requires
        i < archive_entries(*old(a)).len(),
    ensures
        archive_entries(*final(a)) == archive_entries(*old(a)),
        forall|j: int| (#[trigger] read_ok(*final(a), j)) == read_ok(*old(a), j),
        (r is Some) == read_ok(*old(a), i as int),
        r matches Option::Some(e) ==> archive_entries(*old(a))[i as int] == (e.0@, e.1, e.2@),
{
    match a.by_index(i) {
        Ok(mut f) => {
            let name = f.name().to_string();
            let is_file = f.is_file();
            let mut data = Vec::new();
            match std::io::Read::read_to_end(&mut f, &mut data) {
                Ok(_) => Some((name, is_file, data)),
                Err(_) => None,
            }
        },
        Err(_) => None,
    }
}

/// One extracted file: its flattened name and its bytes.
#[derive(Debug)]
pub struct NativeFile {
    pub name: String,
    pub data: Vec<u8>,
}

/// Mathematical image of a [`NativeFile`].
pub struct NativeFileData {
    pub name: Seq<char>,
    pub data: Seq<u8>,
}

impl DeepView for NativeFile {
    type V = NativeFileData;

    open spec fn deep_view(&self) -> NativeFileData {
        NativeFileData { name: self.name@, data: self.data@ }
    }
}

/// Failure of an extraction.
#[derive(Clone, Copy, Debug, PartialEq, Eq, Structural)]
pub enum ExtractError {
    /// The bytes do not parse as an archive.
    BadArchive,
    /// An entry of the archive could not be read.
    BadEntry,
}

/// The files extraction keeps from an entry table: every regular file
/// whose full name avoids "META-INF", flattened to its basename, in
/// archive order.
pub open spec fn spec_extract(entries: Seq<(Seq<char>, bool, Seq<u8>)>) -> Seq<NativeFileData>
    decreases entries.len(),
{
    if entries.len() == 0 {
        Seq::empty()
    } else {
        let rest = spec_extract(entries.drop_last());
        let e = entries.last();
        if e.1 && !contains_sub(e.0, "META-INF"@) {
            rest.push(NativeFileData { name: basename_of(e.0), data: e.2 })
        } else {
            rest
        }
    }
}

/// Extract the native payload of an archive given as bytes. Success is a
/// function of the bytes: extraction succeeds exactly when they parse as
/// an archive and every entry of it can be read, so a run over the same
/// bytes succeeds, or fails, the same way and yields the same files.
pub fn extract_jar(archive_bytes: Vec<u8>) -> (r: Result<Vec<NativeFile>, ExtractError>)
    ensures
        r matches Result::Ok(files) ==> files.deep_view() == spec_extract(
            entries_of(archive_bytes@),
        ),
        (r is Ok) <==> (archive_ok(archive_bytes@) && forall|i: int|
            0 <= i < entries_of(archive_bytes@).len() ==> #[trigger] entry_ok(
                archive_bytes@,
                i,
            )),
        (r == Result::<Vec<NativeFile>, ExtractError>::Err(ExtractError::BadArchive))
            <==> !archive_ok(archive_bytes@),
{
    let ghost eb = archive_bytes@;
    let mut a = match open_archive(&archive_bytes) {
        Option::None => {
            return Result::Err(ExtractError::BadArchive);
        },
        Option::Some(a) => a,
    };
    let ghost entries = entries_of(eb);
    let n = archive_len(&a);
    let mut out: Vec<NativeFile> = Vec::new();
    let mut i: usize = 0;
    while i < n
        invariant
            eb == archive_bytes@,
            archive_ok(eb),
            archive_entries(a) == entries,
            entries == entries_of(eb),
            forall|j: int| (#[trigger] read_ok(a, j)) == entry_ok(eb, j),
            n == entries.len(),
            0 <= i <= n,
            forall|j: int| 0 <= j < i ==> #[trigger] entry_ok(eb, j),
            out.deep_view() == spec_extract(entries.take(i as int)),
        decreases n - i,
    {
        let e = match read_entry(&mut a, i) {
            Option::None => {
                proof {
                    assert(!entry_ok(eb, i as int));
                }
                return Result::Err(ExtractError::BadEntry);
            },
            Option::Some(e) => e,
        };
        proof {
            assert(entry_ok(eb, i as int));
        }
        let (name, is_file, data) = e;
        proof {
            assert(entries[i as int] == (name@, is_file, data@));
            assert(entries.take(i + 1).drop_last() =~= entries.take(i as int));
            assert(entries.take(i + 1).last() == entries[i as int]);
        }
        if is_file && !contains(name.as_str(), "META-INF") {
            let base = base_name(name.as_str()).to_owned();
            let nf = NativeFile { name: base, data };
            proof {
                assert(nf.deep_view() == NativeFileData {
                    name: basename_of(entries[i as int].0),
                    data: entries[i as int].2,
                });
            }
            let ghost prev = out.deep_view();
            out.push(nf);
            proof {
                assert(out.deep_view() =~= spec_extract(entries.take(i + 1)));
            }
        }
        i = i + 1;
    }
    proof {
        assert(entries.take(n as int) =~= entries);
    }
    Result::Ok(out)
}

/// No extracted file name holds the marker segment "META-INF", and none
/// holds a path separator: every name is the entry's basename, so nested
/// archive paths are flattened.
pub proof fn lemma_extract_flattened(entries: Seq<(Seq<char>, bool, Seq<u8>)>)
    ensures
        forall|i: int|
            0 <= i < spec_extract(entries).len() ==> !contains_sub(
                (#[trigger] spec_extract(entries)[i]).name,
                "META-INF"@,
            ) && !contains_char(spec_extract(entries)[i].name, '/'),
    decreases entries.len(),
{
    if entries.len() > 0 {
        lemma_extract_flattened(entries.drop_last());
        let s = spec_extract(entries);
        let rest = spec_extract(entries.drop_last());
        let e = entries.last();
        assert forall|i: int|
            0 <= i < s.len() implies !contains_sub((#[trigger] s[i]).name, "META-INF"@)
            && !contains_char(s[i].name, '/') by {
            if i < rest.len() {
                assert(s[i] == rest[i]);
            } else {
                assert(e.1 && !contains_sub(e.0, "META-INF"@));
                assert(s[i].name == basename_of(e.0));
                lemma_suffix_free_of_char(e.0, '/');
                lemma_suffix_is_suffix(e.0, '/');
                let base = basename_of(e.0);
                if contains_sub(base, "META-INF"@) {
                    lemma_contains_in_subrange(
                        e.0,
                        e.0.len() - base.len(),
                        e.0.len() as int,
                        "META-INF"@,
                    );
                }
            }
        }
    }
}

} // verus!
