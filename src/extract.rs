//! Zip extraction planning. The archive is read from memory with the `zip`
//! crate; what is written where is decided here, so that no entry whose name
//! leaves the destination directory is ever extracted.
use vstd::prelude::*;
use vstd::string::*;
use std::io::Cursor;
use zip::ZipArchive;
use zip::result::ZipError;
use crate::text::{has_prefix, has_suffix, ends_with};

verus! {

#[verifier::external_type_specification]
#[verifier::external_body]
#[verifier::reject_recursive_types(T)]
pub struct ExCursor<T>(std::io::Cursor<T>);

#[verifier::external_type_specification]
#[verifier::external_body]
#[verifier::reject_recursive_types(R)]
pub struct ExZipArchive<R>(zip::ZipArchive<R>);

#[verifier::external_type_specification]
#[verifier::external_body]
pub struct ExZipError(zip::result::ZipError);

/// An entry of an archive: its name, and its decompressed bytes, or `None`
/// when the entry cannot be read (unsupported method, encryption, corrupt
/// data).
pub type EntryModel = (Seq<char>, Option<Seq<u8>>);

/// The entries of an opened archive, in the order the `zip` crate indexes
/// them. A name that occurs twice keeps the position of its first occurrence
/// and the data of its last.
pub uninterp spec fn zip_entries(a: ZipArchive<Cursor<Vec<u8>>>) -> Seq<(Seq<char>, Option<Seq<u8>>)>;

/// What `ZipArchive::new` finds in an in-memory archive of these bytes: its
/// entries, or `None` when the bytes are not a readable zip archive.
pub uninterp spec fn zip_archive_in(bytes: Seq<u8>) -> Option<Seq<(Seq<char>, Option<Seq<u8>>)>>;

/// Whether the `zip` crate finds an entry name safe to extract: no NUL, not
/// absolute, and never climbing above the directory it is extracted into,
/// with path components read by the rules of the target the crate is built
/// for.
pub uninterp spec fn zip_name_is_enclosed(name: Seq<char>) -> bool;

/// A name that starts by leaving its directory, or at the root.
pub open spec fn escapes_at_start(name: Seq<char>) -> bool {
    has_prefix(name, "../"@) || has_prefix(name, "/"@)
}

/// One entry as read from the archive.
pub struct ZipEntry {
    pub name: String,
    pub enclosed: bool,
    pub data: Vec<u8>,
}

/// Relies on `ZipArchive::new` over an in-memory cursor: it reads the central
/// directory of these bytes alone, and fails exactly when they hold no
/// readable archive.
#[verifier::external_body]
fn open_zip(bytes: Vec<u8>) -> (r: Result<ZipArchive<Cursor<Vec<u8>>>, ZipError>)
    ensures
        r is Ok <==> zip_archive_in(bytes@) is Some,
        r matches Ok(a) ==> zip_entries(a) == zip_archive_in(bytes@)->0,
{
    ZipArchive::new(Cursor::new(bytes))
}

/// Relies on `ZipArchive::len`: the number of entries.
#[verifier::external_body]
fn zip_len(a: &ZipArchive<Cursor<Vec<u8>>>) -> (n: usize)
    ensures
        n == zip_entries(*a).len(),
{
    a.len()
}

/// Relies on `ZipArchive::by_index` for entry `i`, which seeks to the entry's
/// data, and on the `ZipFile` it returns: `name` gives the entry's name,
/// `enclosed_name` is `Some` exactly for a safe name (never for one that
/// begins with `../` or `/`), and reading it to the end gives the
/// decompressed bytes. Reading moves only the archive's cursor, never its
/// list of entries.
#[verifier::external_body]
fn read_zip_entry(a: &mut ZipArchive<Cursor<Vec<u8>>>, i: usize) -> (r: Result<ZipEntry, ZipError>)
    requires
        i < zip_entries(*old(a)).len(),
    ensures
        zip_entries(*final(a)) == zip_entries(*old(a)),
        r is Ok <==> zip_entries(*old(a))[i as int].1 is Some,
        r matches Ok(e) ==> e.name@ == zip_entries(*old(a))[i as int].0
            && e.data@ == zip_entries(*old(a))[i as int].1->0
            && e.enclosed == zip_name_is_enclosed(e.name@),
        r matches Ok(e) ==> (escapes_at_start(e.name@) ==> !e.enclosed),
{
    let mut f = a.by_index(i)?;
    let name = f.name().to_string();
    let enclosed = f.enclosed_name().is_some();
    let mut data: Vec<u8> = Vec::new();
    std::io::Read::read_to_end(&mut f, &mut data)?;
    Ok(ZipEntry { name, enclosed, data })
}

/// What is written, relative to the destination directory.
pub enum ExtractItem {
    /// An empty directory, with its parents.
    Dir { path: String },
    /// A file with these bytes, after its parent directories.
    File { path: String, data: Vec<u8> },
}

impl ExtractItem {
    /// Whether the item is a directory, its relative path, and the bytes
    /// written (none for a directory).
    pub open spec fn model(&self) -> (bool, Seq<char>, Seq<u8>) {
        match self {
            ExtractItem::Dir { path } => (true, path@, Seq::empty()),
            ExtractItem::File { path, data } => (false, path@, data@),
        }
    }
}

/// Items as their models.
pub open spec fn items_model(items: Seq<ExtractItem>) -> Seq<(bool, Seq<char>, Seq<u8>)> {
    items.map_values(|it: ExtractItem| it.model())
}

/// Why a zip archive could not be planned.
pub enum ExtractError {
    /// The bytes hold no readable archive.
    Open(ZipError),
    /// Entry `index` could not be read.
    Entry { index: usize, source: ZipError },
}

/// Every entry of the archive can be read.
pub open spec fn all_readable(entries: Seq<EntryModel>) -> bool {
    forall|i: int| 0 <= i < entries.len() ==> (#[trigger] entries[i]).1 is Some
}

/// The item planned for one readable entry: a name ending in `/` is an empty
/// directory, any other name a file with the entry's bytes.
pub open spec fn item_of(e: EntryModel) -> (bool, Seq<char>, Seq<u8>) {
    if has_suffix(e.0, "/"@) {
        (true, e.0, Seq::empty())
    } else {
        (false, e.0, e.1->0)
    }
}

/// The items for a list of entries, in order: an entry whose name is not
/// enclosed is skipped, every other one gives `item_of` it.
pub open spec fn planned(entries: Seq<EntryModel>) -> Seq<(bool, Seq<char>, Seq<u8>)>
    decreases entries.len(),
{
    if entries.len() == 0 {
        Seq::empty()
    } else {
        let rest = planned(entries.drop_last());
        let e = entries.last();
        if zip_name_is_enclosed(e.0) {
            rest.push(item_of(e))
        } else {
            rest
        }
    }
}

/// Every planned item has an enclosed name: an entry whose name resolves
/// outside the destination is never written.
pub proof fn planned_items_are_enclosed(entries: Seq<EntryModel>)
    ensures
        forall|k: int|
            0 <= k < planned(entries).len() ==> zip_name_is_enclosed(
                #[trigger] planned(entries)[k].1,
            ),
    decreases entries.len(),
{
    if entries.len() > 0 {
        let rest = entries.drop_last();
        planned_items_are_enclosed(rest);
        assert forall|k: int| 0 <= k < planned(entries).len() implies zip_name_is_enclosed(
            #[trigger] planned(entries)[k].1,
        ) by {
            if k < planned(rest).len() {
                assert(planned(entries)[k] == planned(rest)[k]);
            }
        }
    }
}

/// Every entry with an enclosed name is planned: a directory entry as an
/// empty directory, a file entry as a file holding exactly its decompressed
/// bytes.
pub proof fn planned_keeps_enclosed_entries(entries: Seq<EntryModel>, j: int)
    requires
        0 <= j < entries.len(),
        zip_name_is_enclosed(entries[j].0),
    ensures
        exists|k: int| 0 <= k < planned(entries).len() && planned(entries)[k] == item_of(entries[j]),
    decreases entries.len(),
{
    let rest = entries.drop_last();
    if j == entries.len() - 1 {
        let k = planned(rest).len() as int;
        assert(planned(entries)[k] == item_of(entries[j]));
    } else {
        assert(rest[j] == entries[j]);
        planned_keeps_enclosed_entries(rest, j);
        let k = choose|k: int| 0 <= k < planned(rest).len() && planned(rest)[k] == item_of(rest[j]);
        assert(planned(entries)[k] == planned(rest)[k]);
    }
}

/// Reads every entry of `a` and plans its extraction. It succeeds exactly
/// when every entry can be read; it then plans `planned` of the entries, and
/// no planned path begins with `../` or `/`.
pub fn plan_zip(a: &mut ZipArchive<Cursor<Vec<u8>>>) -> (r: Result<Vec<ExtractItem>, ExtractError>)
    ensures
        zip_entries(*final(a)) == zip_entries(*old(a)),
        r is Ok <==> all_readable(zip_entries(*old(a))),
        r matches Ok(items) ==> items_model(items@) == planned(zip_entries(*old(a))),
        r matches Ok(items) ==> forall|k: int|
            0 <= k < items@.len() ==> !escapes_at_start(#[trigger] items@[k].model().1),
        r matches Err(e) ==> e matches ExtractError::Entry { index, .. } && index
            < zip_entries(*old(a)).len() && zip_entries(*old(a))[index as int].1 is None,
{
    let ghost entries = zip_entries(*a);
    let n = zip_len(a);
    let mut items: Vec<ExtractItem> = Vec::new();
    let mut i: usize = 0;
    while i < n
        invariant
            i <= n,
            n == entries.len(),
            entries == zip_entries(*old(a)),
            zip_entries(*a) == entries,
            forall|j: int| 0 <= j < i ==> (#[trigger] entries[j]).1 is Some,
            items_model(items@) == planned(entries.subrange(0, i as int)),
            forall|k: int| 0 <= k < items@.len() ==> !escapes_at_start(#[trigger] items@[k].model().1),
        decreases n - i,
    {
        let ghost before = items_model(items@);
        assert(entries.subrange(0, i + 1).drop_last() =~= entries.subrange(0, i as int));
        assert(entries.subrange(0, i + 1).last() == entries[i as int]);
        match read_zip_entry(a, i) {
            Err(source) => {
                return Err(ExtractError::Entry { index: i, source });
            },
            Ok(e) => {
                if e.enclosed {
                    let dir = ends_with(e.name.as_str(), "/");
                    let ZipEntry { name, enclosed: _, data } = e;
                    if dir {
                        items.push(ExtractItem::Dir { path: name });
                    } else {
                        items.push(ExtractItem::File { path: name, data });
                    }
                    assert(items_model(items@) =~= before.push(item_of(entries[i as int])));
                    assert(items@[items@.len() - 1].model().1 == entries[i as int].0);
                }
            },
        }
        i = i + 1;
    }
    assert(entries.subrange(0, n as int) =~= entries);
    Ok(items)
}

/// Opens an in-memory zip archive and plans its extraction. Bytes that hold
/// no readable archive give `Open`; otherwise the result is that of
/// `plan_zip` on the archive's entries.
pub fn plan_zip_extraction(bytes: Vec<u8>) -> (r: Result<Vec<ExtractItem>, ExtractError>)
    ensures
        r matches Err(ExtractError::Open(_)) <==> zip_archive_in(bytes@) is None,
        r is Ok <==> (zip_archive_in(bytes@) is Some && all_readable(zip_archive_in(bytes@)->0)),
        r matches Ok(items) ==> items_model(items@) == planned(zip_archive_in(bytes@)->0),
        r matches Ok(items) ==> forall|k: int|
            0 <= k < items@.len() ==> !escapes_at_start(#[trigger] items@[k].model().1),
        r matches Err(ExtractError::Entry { index, .. }) ==> index < zip_archive_in(bytes@)->0.len()
            && zip_archive_in(bytes@)->0[index as int].1 is None,
{
    match open_zip(bytes) {
        Err(e) => Err(ExtractError::Open(e)),
        Ok(mut a) => plan_zip(&mut a),
    }
}

} // verus!
