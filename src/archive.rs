use std::io::Cursor;
use vstd::prelude::*;
use zip::read::ZipArchive;
use crate::tree::{entries_model, insert_file, tree_of, ExtractedEntry, MemberModel};

verus! {

#[verifier::external_type_specification]
#[verifier::external_body]
#[verifier::reject_recursive_types(T)]
pub struct ExCursor<T>(Cursor<T>);

#[verifier::external_type_specification]
#[verifier::external_body]
#[verifier::reject_recursive_types(R)]
pub struct ExZipArchive<R>(ZipArchive<R>);

/// A zip container read from bytes held in memory.
pub type Archive = ZipArchive<Cursor<Vec<u8>>>;

/// Whether `ZipArchive::new` accepts the bytes as a zip container.
pub uninterp spec fn is_zip_container(data: Seq<u8>) -> bool;

/// The members that the central directory of a zip container in `data` lists.
pub uninterp spec fn zip_members(data: Seq<u8>) -> Seq<MemberModel>;

/// The members that an archive's central directory lists, in archive order: each one's path,
/// whether that path denotes a directory, its declared decompressed size, and whether
/// `by_index` opens it.
pub uninterp spec fn archive_members(archive: Archive) -> Seq<MemberModel>;

/// Whether every member of the listing can be opened.
pub open spec fn all_members_open(members: Seq<MemberModel>) -> bool {
    forall|i: int| 0 <= i < members.len() ==> (#[trigger] members[i]).3
}

/// Relies on zip's ZipArchive::new over an in-memory cursor: it succeeds exactly on the bytes
/// of a zip container, and the archive then lists what the bytes' central directory holds;
/// the error is its description.
#[verifier::external_body]
fn open_zip(data: Vec<u8>) -> (r: Result<Archive, String>)
    ensures
        r is Ok <==> is_zip_container(data@),
        r matches Ok(a) ==> archive_members(a) == zip_members(data@),
{
    ZipArchive::new(Cursor::new(data)).map_err(|e| e.to_string())
}

/// Relies on zip's ZipArchive::len: the number of members.
#[verifier::external_body]
fn member_count(archive: &Archive) -> (r: usize)
    ensures
        r == archive_members(*archive).len(),
{
    archive.len()
}

/// Relies on zip's ZipArchive::by_index with ZipFile::name, ZipFile::is_dir and ZipFile::size:
/// it succeeds exactly on a listed member that opens, and then gives the member's path,
/// directory flag and size; the archive lists the same members afterwards; the error is its
/// description.
#[verifier::external_body]
fn member_at(archive: &mut Archive, index: usize) -> (r: Result<(String, bool, u64), String>)
    ensures
        archive_members(*final(archive)) == archive_members(*old(archive)),
        r is Ok <==> (index < archive_members(*old(archive)).len() && archive_members(
            *old(archive),
        )[index as int].3),
        r matches Ok(m) ==> (m.0@, m.1, m.2, true) == archive_members(*old(archive))[index as int],
{
    match archive.by_index(index) {
        Ok(file) => Ok((file.name().to_string(), file.is_dir(), file.size())),
        Err(e) => Err(e.to_string()),
    }
}

fn prefixed(prefix: &str, detail: String) -> (r: String)
    ensures
        r@ == prefix@ + detail@,
        prefix@.is_prefix_of(r@),
{
    let r = String::from_str(prefix).concat(detail.as_str());
    assert(r@.subrange(0, prefix@.len() as int) =~= prefix@);
    r
}

/// Opens a zip container held in memory; fails exactly where the bytes are not one, with a
/// message that says so. The opened archive lists what the bytes' central directory holds.
pub fn read_zip(zip_data: Vec<u8>) -> (r: Result<Archive, String>)
    ensures
        r is Ok <==> is_zip_container(zip_data@),
        r matches Ok(a) ==> archive_members(a) == zip_members(zip_data@),
        r matches Err(m) ==> "Failed to read zip archive: "@.is_prefix_of(m@),
{
    match open_zip(zip_data) {
        Ok(archive) => Ok(archive),
        Err(e) => Err(prefixed("Failed to read zip archive: ", e)),
    }
}

/// The file tree of an archive: every member that is not a directory is placed at its path,
/// in archive order. Succeeds exactly where every member opens; otherwise the message names
/// the failed access.
pub fn read_archive(archive: &mut Archive) -> (r: Result<Vec<ExtractedEntry>, String>)
    ensures
        archive_members(*final(archive)) == archive_members(*old(archive)),
        r is Ok <==> all_members_open(archive_members(*old(archive))),
        r matches Ok(root) ==> entries_model(root@) == tree_of(archive_members(*old(archive))),
        r matches Err(m) ==> "Failed to access file in archive: "@.is_prefix_of(m@),
{
    let ghost members = archive_members(*archive);
    let mut root: Vec<ExtractedEntry> = Vec::new();
    assert(entries_model(root@) =~= tree_of(members.subrange(0, 0)));
    let n = member_count(archive);
    let mut i: usize = 0;
    while i < n
        invariant
            n == members.len(),
            i <= n,
            archive_members(*archive) == members,
            members == archive_members(*old(archive)),
            entries_model(root@) == tree_of(members.subrange(0, i as int)),
            forall|j: int| 0 <= j < i ==> (#[trigger] members[j]).3,
        decreases n - i,
    {
        let (name, is_dir, size) = match member_at(archive, i) {
            Ok(m) => m,
            Err(e) => {
                assert(!members[i as int].3);
                return Err(prefixed("Failed to access file in archive: ", e));
            },
        };
        assert(members.subrange(0, i + 1).drop_last() =~= members.subrange(0, i as int));
        if !is_dir {
            insert_file(&mut root, &name, #[verifier::truncate] (size as usize));
        }
        i = i + 1;
    }
    assert(members.subrange(0, n as int) =~= members);
    Ok(root)
}

/// The file tree of a zip container held in memory, with the opened archive for whoever writes
/// its members out. The outcome depends on the bytes alone, so the same bytes always give the
/// same tree or the same kind of failure: the bytes must be a zip container, and every member
/// must open.
pub fn read_root_from_archive(zip_data: Vec<u8>) -> (r: Result<
    (Vec<ExtractedEntry>, Archive),
    String,
>)
    ensures
        r is Ok <==> is_zip_container(zip_data@) && all_members_open(zip_members(zip_data@)),
        r matches Ok(p) ==> entries_model(p.0@) == tree_of(zip_members(zip_data@))
            && archive_members(p.1) == zip_members(zip_data@),
        r matches Err(m) ==> if is_zip_container(zip_data@) {
            "Failed to access file in archive: "@.is_prefix_of(m@)
        } else {
            "Failed to read zip archive: "@.is_prefix_of(m@)
        },
{
    let mut archive = read_zip(zip_data)?;
    let root = read_archive(&mut archive)?;
    Ok((root, archive))
}

} // verus!
