//! Picking the asset entries out of an archive.

use crate::archive::{
    archive_entries, archive_listing, check_entry, entry_count, entry_name, open_archive,
    open_entry, read_entry, EntryView,
};
use crate::error::{MinecraftError, MinecraftResult};
use crate::name::{is_asset, is_asset_name, sanitize_filename, sanitized};
use vstd::prelude::*;

verus! {

/// One file to be written: where, relative to the working directory, and
/// with which bytes.
#[derive(Debug)]
pub struct AssetFile {
    pub path: String,
    pub data: Vec<u8>,
}

/// A file to be written, as its path's characters and its bytes.
pub struct AssetView {
    pub path: Seq<char>,
    pub data: Seq<u8>,
}

impl View for AssetFile {
    type V = AssetView;

    open spec fn view(&self) -> AssetView {
        AssetView { path: self.path@, data: self.data@ }
    }
}

/// What reading an archive came to: the files picked before the first
/// failure, in the order of the archive, their number, and that failure, if
/// there was one.
#[derive(Debug)]
pub struct Extraction {
    pub files: Vec<AssetFile>,
    pub count: usize,
    pub outcome: MinecraftResult<()>,
}

/// The files, each by its view.
pub open spec fn files_view(files: Seq<AssetFile>) -> Seq<AssetView> {
    files.map_values(|file: AssetFile| file@)
}

/// Whether the entry cannot be opened.
pub open spec fn entry_is_closed(entry: EntryView) -> bool {
    !entry.unlocked || entry.name is None
}

/// Whether the entry can be opened, is an asset, and cannot be read.
pub open spec fn entry_is_unreadable(entry: EntryView) -> bool {
    !entry_is_closed(entry) && is_asset(entry.name->0) && entry.data is None
}

/// Whether reading the archive ends at this entry.
pub open spec fn entry_fails(entry: EntryView) -> bool {
    entry_is_closed(entry) || entry_is_unreadable(entry)
}

/// The file that the entry gives: one for an asset that can be opened and
/// read, under its sanitized name; none for any other.
pub open spec fn entry_asset(entry: EntryView) -> Option<AssetView> {
    if !entry_fails(entry) && is_asset(entry.name->0) {
        Some(AssetView { path: sanitized(entry.name->0), data: entry.data->0 })
    } else {
        None
    }
}

/// The files that the entries give, in their order.
pub open spec fn assets_among(entries: Seq<EntryView>) -> Seq<AssetView> {
    entries.filter_map(|entry: EntryView| entry_asset(entry))
}

/// The index of the first entry at which reading ends, where there is one.
pub open spec fn first_failure(entries: Seq<EntryView>) -> Option<int> {
    entries.map_values(|entry: EntryView| entry_fails(entry)).index_of_first(true)
}

/// The entries that stand before the first failure: all of them where none
/// fails.
pub open spec fn entries_handled(entries: Seq<EntryView>) -> Seq<EntryView> {
    match first_failure(entries) {
        Some(index) => entries.take(index),
        None => entries,
    }
}

/// `index` is where reading ends exactly if the entry there fails and none
/// before it does.
pub proof fn lemma_first_failure(entries: Seq<EntryView>, index: int)
    requires
        0 <= index <= entries.len(),
        forall|j: int| 0 <= j < index ==> !entry_fails(#[trigger] entries[j]),
    ensures
        index < entries.len() && entry_fails(entries[index]) ==> first_failure(entries) == Some(
            index,
        ),
        index == entries.len() ==> first_failure(entries) is None,
{
    let fails = entries.map_values(|entry: EntryView| entry_fails(entry));
    fails.index_of_first_ensures(true);
    if index < entries.len() && entry_fails(entries[index]) {
        assert(fails[index]);
        let found = fails.index_of_first(true)->0;
        if found < index {
            assert(!entry_fails(entries[found]));
        }
    } else if index == entries.len() {
        if fails.contains(true) {
            let j = choose|j: int| 0 <= j < fails.len() && fails[j] == true;
            assert(!entry_fails(entries[j]));
        }
    }
}

/// One more entry adds its file, if it gives one, behind those of the
/// entries before it.
proof fn lemma_assets_among_next(entries: Seq<EntryView>, index: int)
    requires
        0 <= index < entries.len(),
    ensures
        assets_among(entries.take(index + 1)) == match entry_asset(entries[index]) {
            Some(file) => assets_among(entries.take(index)).push(file),
            None => assets_among(entries.take(index)),
        },
{
    entries.lemma_filter_map_take_succ(|entry: EntryView| entry_asset(entry), index);
}

/// Whether the entry carries a name that starts with the asset prefix.
pub open spec fn entry_is_asset(entry: EntryView) -> bool {
    entry.name is Some && is_asset(entry.name->0)
}

/// The file that an asset entry is written as.
pub open spec fn asset_of(entry: EntryView) -> AssetView {
    AssetView { path: sanitized(entry.name->0), data: entry.data->0 }
}

/// The entries whose names start with the asset prefix, in their order.
pub open spec fn asset_entries(entries: Seq<EntryView>) -> Seq<EntryView> {
    entries.filter(|entry: EntryView| entry_is_asset(entry))
}

/// No entry that stands before the first failure fails.
pub proof fn lemma_entries_handled(entries: Seq<EntryView>)
    ensures
        entries_handled(entries).is_prefix_of(entries),
        forall|j: int|
            0 <= j < entries_handled(entries).len() ==> !entry_fails(
                #[trigger] entries_handled(entries)[j],
            ),
        first_failure(entries) matches Some(index) ==> 0 <= index < entries.len() && entry_fails(
            entries[index],
        ),
{
    let fails = entries.map_values(|entry: EntryView| entry_fails(entry));
    fails.index_of_first_ensures(true);
    let handled = entries_handled(entries);
    assert(handled =~= entries.subrange(0, handled.len() as int));
    assert forall|j: int| 0 <= j < handled.len() implies !entry_fails(
        #[trigger] handled[j],
    ) by {
        assert(handled[j] == entries[j]);
        if entry_fails(entries[j]) {
            assert(fails[j] == true);
        }
    }
}

/// An entry that reading gets to without failing is written exactly if its
/// name, as the archive holds it, starts with the asset prefix; and it is
/// then written under its sanitized name, with its own bytes.
pub proof fn lemma_written_iff_asset(entries: Seq<EntryView>, index: int)
    requires
        0 <= index < entries_handled(entries).len(),
    ensures
        entries_handled(entries)[index] == entries[index],
        entry_asset(entries[index]) is Some <==> entry_is_asset(entries[index]),
        entry_is_asset(entries[index]) ==> entry_asset(entries[index]) == Some(
            asset_of(entries[index]),
        ),
{
    lemma_entries_handled(entries);
    assert(entries_handled(entries)[index] == entries.subrange(
        0,
        entries_handled(entries).len() as int,
    )[index]);
}

/// Where no entry fails, the files written are those of the entries whose
/// names start with the asset prefix, one for one and in the same order; so
/// there are as many of the one as of the other.
pub proof fn lemma_assets_are_asset_entries(entries: Seq<EntryView>)
    requires
        forall|j: int| 0 <= j < entries.len() ==> !entry_fails(#[trigger] entries[j]),
    ensures
        assets_among(entries) == asset_entries(entries).map_values(
            |entry: EntryView| asset_of(entry),
        ),
        assets_among(entries).len() == asset_entries(entries).len(),
    decreases entries.len(),
{
    reveal(Seq::filter);
    let wanted = |entry: EntryView| entry_is_asset(entry);
    let file = |entry: EntryView| asset_of(entry);
    if entries.len() == 0 {
        assert(assets_among(entries) =~= asset_entries(entries).map_values(file));
    } else {
        let rest = entries.drop_last();
        let last = entries.last();
        assert forall|j: int| 0 <= j < rest.len() implies !entry_fails(#[trigger] rest[j]) by {
            assert(rest[j] == entries[j]);
        }
        lemma_assets_are_asset_entries(rest);
        assert(!entry_fails(entries[entries.len() - 1]));
        if entry_is_asset(last) {
            assert(asset_entries(entries) == asset_entries(rest).push(last));
            assert(asset_entries(rest).push(last).map_values(file) =~= asset_entries(
                rest,
            ).map_values(file).push(asset_of(last)));
            assert(assets_among(entries) =~= assets_among(rest).push(asset_of(last)));
        } else {
            assert(asset_entries(entries) == asset_entries(rest));
            assert(assets_among(entries) =~= assets_among(rest));
        }
    }
}

/// Every file written lies under the asset prefix: the cut at a terminator
/// never reaches into it.
pub proof fn lemma_assets_keep_prefix(entries: Seq<EntryView>, index: int)
    requires
        0 <= index < assets_among(entries).len(),
    ensures
        is_asset(assets_among(entries)[index].path),
    decreases entries.len(),
{
    if entries.len() > 0 {
        let rest = entries.drop_last();
        let last = entries.last();
        if index < assets_among(rest).len() {
            lemma_assets_keep_prefix(rest, index);
        } else {
            crate::name::lemma_sanitized_keeps_asset_prefix(last.name->0);
        }
    }
}

/// Opens the entry at `index` and, where it is an asset, reads it.
pub fn extract_entry(
    archive: &mut zip::ZipArchive<std::io::Cursor<Vec<u8>>>,
    index: usize,
) -> (res: MinecraftResult<Option<AssetFile>>)
    ensures
        archive_entries(*final(archive)) == archive_entries(*old(archive)),
        index >= archive_entries(*old(archive)).len() ==> res matches Err(MinecraftError::Zip(_)),
        index < archive_entries(*old(archive)).len() ==> ({
            let entry = archive_entries(*old(archive))[index as int];
            match res {
                Ok(Some(file)) => entry_asset(entry) == Some(file@),
                Ok(None) => !entry_fails(entry) && entry_asset(entry) is None,
                Err(MinecraftError::Zip(_)) => entry_is_closed(entry),
                Err(MinecraftError::Io(_)) => entry_is_unreadable(entry),
                Err(MinecraftError::Env(_)) => false,
            }
        }),
{
    match check_entry(archive, index) {
        Err(cause) => Err(MinecraftError::Zip(cause)),
        Ok(()) => {
            match open_entry(archive, index) {
                Err(cause) => Err(MinecraftError::Zip(cause)),
                Ok(file) => {
                    let name = entry_name(&file);
                    if is_asset_name(name.as_str()) {
                        let path = sanitize_filename(name.as_str());
                        match read_entry(file) {
                            Err(cause) => Err(MinecraftError::Io(cause)),
                            Ok(data) => Ok(Some(AssetFile { path, data })),
                        }
                    } else {
                        Ok(None)
                    }
                },
            }
        },
    }
}

/// Goes through the entries of an open archive in the order of their index,
/// and picks the assets, up to the first entry that fails.
pub fn extract_entries(archive: &mut zip::ZipArchive<std::io::Cursor<Vec<u8>>>) -> (done:
    Extraction)
    ensures
        archive_entries(*final(archive)) == archive_entries(*old(archive)),
        extraction_matches(done, archive_entries(*old(archive))),
{
    let ghost entries = archive_entries(*archive);
    let total: usize = entry_count(archive);
    let mut files: Vec<AssetFile> = Vec::new();
    let mut count: usize = 0;
    let mut index: usize = 0;
    assert(entries.take(0) =~= Seq::empty());
    while index < total
        invariant
            archive_entries(*archive) == entries,
            archive_entries(*old(archive)) == entries,
            total == entries.len(),
            index <= total,
            count == files@.len(),
            count <= index,
            files_view(files@) == assets_among(entries.take(index as int)),
            forall|j: int| 0 <= j < index ==> !entry_fails(#[trigger] entries[j]),
        decreases total - index,
    {
        proof {
            lemma_assets_among_next(entries, index as int);
        }
        match extract_entry(archive, index) {
            Err(cause) => {
                proof {
                    lemma_first_failure(entries, index as int);
                }
                return Extraction { files, count, outcome: Err(cause) };
            },
            Ok(Some(file)) => {
                assert(files_view(files@.push(file)) =~= files_view(files@).push(file@));
                files.push(file);
                count = count + 1;
            },
            Ok(None) => {},
        }
        index = index + 1;
    }
    proof {
        lemma_first_failure(entries, index as int);
        assert(entries.take(index as int) =~= entries);
    }
    Extraction { files, count, outcome: Ok(()) }
}

/// Whether `done` is what reading an archive of these entries comes to.
pub open spec fn extraction_matches(done: Extraction, entries: Seq<EntryView>) -> bool {
    &&& files_view(done.files@) == assets_among(entries_handled(entries))
    &&& done.count == done.files@.len()
    &&& match done.outcome {
        Ok(()) => first_failure(entries) is None,
        Err(MinecraftError::Zip(_)) => first_failure(entries) matches Some(index)
            && entry_is_closed(entries[index]),
        Err(MinecraftError::Io(_)) => first_failure(entries) matches Some(index)
            && entry_is_unreadable(entries[index]),
        Err(MinecraftError::Env(_)) => false,
    }
}

/// Picks the assets out of the bytes of a version's archive. Bytes that are
/// no archive give no file and an error of the archive's kind.
pub fn fetch_assets(archive_bytes: Vec<u8>) -> (done: Extraction)
    ensures
        match archive_listing(archive_bytes@) {
            Some(entries) => extraction_matches(done, entries),
            None => {
                &&& done.files@.len() == 0
                &&& done.count == 0
                &&& done.outcome matches Err(MinecraftError::Zip(_))
            },
        },
{
    match open_archive(archive_bytes) {
        Err(cause) => Extraction { files: Vec::new(), count: 0, outcome: Err(MinecraftError::Zip(cause)) },
        Ok(archive) => {
            let mut archive = archive;
            extract_entries(&mut archive)
        },
    }
}

} // verus!
