//! The archive reader of the `zip` crate, as far as this library uses it.
//!
//! Nothing in this file is proved. Each function makes one call into the
//! reader, and its contract states what that call is taken to do: it names
//! what the reader makes of the bytes, and says no more of it than that the
//! same bytes give the same entries each time they are asked for.

use std::io::Read;
use vstd::prelude::*;

verus! {

/// `zip::ZipArchive`, the reader of an archive: carried as it is, nothing
/// of its inside is seen.
#[verifier::external_type_specification]
#[verifier::external_body]
#[verifier::reject_recursive_types(R)]
pub struct ExZipArchive<R>(zip::ZipArchive<R>);

/// `zip::read::ZipFile`, one entry handed out by the reader.
#[verifier::external_type_specification]
#[verifier::external_body]
pub struct ExZipFile<'a>(zip::read::ZipFile<'a>);

/// `zip::result::ZipError`, the reader's error.
#[verifier::external_type_specification]
#[verifier::external_body]
pub struct ExZipError(zip::result::ZipError);

/// `std::io::Cursor`, which lets the reader walk bytes held in memory.
#[verifier::external_type_specification]
#[verifier::external_body]
#[verifier::reject_recursive_types(T)]
pub struct ExCursor<T>(std::io::Cursor<T>);

/// `std::io::Error`, the error of a failed read.
#[verifier::external_type_specification]
#[verifier::external_body]
pub struct ExIoError(std::io::Error);

/// What the reader gives for one entry of an archive.
pub struct EntryView {
    /// Whether `by_index_decrypt` hands the entry out when it is given the
    /// empty password.
    pub unlocked: bool,
    /// The entry's name, where `by_index` hands the entry out; `None` where
    /// it returns an error.
    pub name: Option<Seq<char>>,
    /// The entry's bytes, unpacked, where reading the entry that `by_index`
    /// hands out succeeds up to its end; `None` where the read fails.
    pub data: Option<Seq<u8>>,
}

/// The entries that `zip::ZipArchive::new` finds in `bytes`, in the order of
/// their index; `None` where it takes the bytes for no archive.
pub uninterp spec fn archive_listing(bytes: Seq<u8>) -> Option<Seq<EntryView>>;

/// The entries of an open archive, in the order of their index.
pub uninterp spec fn archive_entries(archive: zip::ZipArchive<std::io::Cursor<Vec<u8>>>) -> Seq<EntryView>;

/// The name that `zip::read::ZipFile::name` gives for an entry handed out.
pub uninterp spec fn file_name(file: zip::read::ZipFile<'_>) -> Seq<char>;

/// The bytes that reading an entry handed out yields up to its end; `None`
/// where the read fails.
pub uninterp spec fn file_data(file: zip::read::ZipFile<'_>) -> Option<Seq<u8>>;

/// Calls `zip::ZipArchive::new` on the bytes, held in memory. The call
/// succeeds exactly where the bytes have a listing, and the archive it gives
/// holds the entries of that listing.
#[verifier::external_body]
pub(crate) fn open_archive(bytes: Vec<u8>) -> (res: Result<
    zip::ZipArchive<std::io::Cursor<Vec<u8>>>,
    zip::result::ZipError,
>)
    ensures
        match res {
            Ok(archive) => archive_listing(bytes@) == Some(archive_entries(archive)),
            Err(_) => archive_listing(bytes@) is None,
        },
{
    zip::ZipArchive::new(std::io::Cursor::new(bytes))
}

/// Calls `zip::ZipArchive::len`: the number of entries.
#[verifier::external_body]
pub(crate) fn entry_count(archive: &zip::ZipArchive<std::io::Cursor<Vec<u8>>>) -> (count: usize)
    ensures
        count == archive_entries(*archive).len(),
{
    archive.len()
}

/// Calls `zip::ZipArchive::by_index_decrypt` with the empty password, and
/// lets go of the entry at once. Where the reader turns the password down,
/// the error is the one that it gives for a missing password. The call moves
/// the reader within the bytes and leaves the entries as they are.
#[verifier::external_body]
pub(crate) fn check_entry(
    archive: &mut zip::ZipArchive<std::io::Cursor<Vec<u8>>>,
    index: usize,
) -> (res: Result<(), zip::result::ZipError>)
    ensures
        archive_entries(*final(archive)) == archive_entries(*old(archive)),
        res is Ok <==> index < archive_entries(*old(archive)).len() && archive_entries(
            *old(archive),
        )[index as int].unlocked,
{
    match archive.by_index_decrypt(index, &[]) {
        Ok(Ok(_)) => Ok(()),
        Ok(Err(_)) => Err(
            zip::result::ZipError::UnsupportedArchive(zip::result::ZipError::PASSWORD_REQUIRED),
        ),
        Err(error) => Err(error),
    }
}

/// Calls `zip::ZipArchive::by_index`. That function aborts on an entry that
/// it would not hand out with a password either, so such an entry is not to
/// be asked for. The entry handed out carries the name and the bytes that
/// the archive holds at this index.
#[verifier::external_body]
pub(crate) fn open_entry<'a>(
    archive: &'a mut zip::ZipArchive<std::io::Cursor<Vec<u8>>>,
    index: usize,
) -> (res: Result<zip::read::ZipFile<'a>, zip::result::ZipError>)
    requires
        index < archive_entries(*old(archive)).len(),
        archive_entries(*old(archive))[index as int].unlocked,
    ensures
        archive_entries(*final(archive)) == archive_entries(*old(archive)),
        match res {
            Ok(file) => {
                &&& archive_entries(*old(archive))[index as int].name == Some(file_name(file))
                &&& archive_entries(*old(archive))[index as int].data == file_data(file)
            },
            Err(_) => archive_entries(*old(archive))[index as int].name is None,
        },
{
    archive.by_index(index)
}

/// Calls `zip::read::ZipFile::name`, and copies the name.
#[verifier::external_body]
pub(crate) fn entry_name(file: &zip::read::ZipFile<'_>) -> (name: String)
    ensures
        name@ == file_name(*file),
{
    file.name().to_string()
}

/// Calls `std::io::Read::read_to_end` on the entry, which unpacks its bytes
/// and checks their sum.
#[verifier::external_body]
pub(crate) fn read_entry(file: zip::read::ZipFile<'_>) -> (res: Result<Vec<u8>, std::io::Error>)
    ensures
        match res {
            Ok(data) => file_data(file) == Some(data@),
            Err(_) => file_data(file) is None,
        },
{
    let mut file = file;
    let mut data = Vec::new();
    match file.read_to_end(&mut data) {
        Ok(_) => Ok(data),
        Err(error) => Err(error),
    }
}

} // verus!
