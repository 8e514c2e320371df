//! Archives of named entries, and their expansion below a directory.

use crate::paths::is_contained_path;
use crate::paths::join_below;
use crate::paths::joined;
use crate::paths::stays_below;
use std::io::Cursor;
use std::io::Read;
use vstd::prelude::*;
use zip::result::ZipError;
use zip::ZipArchive;

verus! {

/// std's reader over bytes in memory, from which an archive is read.
#[verifier::external_type_specification]
#[verifier::external_body]
#[verifier::reject_recursive_types(T)]
pub struct ExCursor<T>(std::io::Cursor<T>);

/// The archive reader of zip. Nothing inside it is seen here: what is known
/// of an archive is what `archive_entries` names.
#[verifier::external_type_specification]
#[verifier::external_body]
#[verifier::reject_recursive_types(R)]
pub struct ExZipArchive<R>(zip::ZipArchive<R>);

/// The error type of zip. It is carried to `zip_error_text` and not looked
/// into.
#[verifier::external_type_specification]
#[verifier::external_body]
pub struct ExZipError(zip::result::ZipError);

/// One entry of an archive.
pub ghost struct EntryModel {
    /// The name as the archive stores it.
    pub name: Seq<char>,
    /// Whether the entry stands for a directory.
    pub is_dir: bool,
    /// The bytes that the entry unpacks to, `None` where it does not unpack.
    pub data: Option<Seq<u8>>,
}

/// The entries of an archive in the archive's order, `None` for an entry that
/// the reader cannot open.
pub uninterp spec fn archive_entries(archive: ZipArchive<Cursor<Vec<u8>>>) -> Seq<
    Option<EntryModel>,
>;

/// The entries that the reader finds in `data`, in their order and `None` for
/// one that it cannot open; `None` for all where it takes `data` for no
/// archive.
pub uninterp spec fn zip_contents(data: Seq<u8>) -> Option<Seq<Option<EntryModel>>>;

/// The stored name `name` as a path, where the reader takes it for one that
/// leaves no directory it is joined to; `None` where it does not.
pub uninterp spec fn enclosed_path(name: Seq<char>) -> Option<Seq<char>>;

/// What an archive tells of an entry before the entry is unpacked.
#[derive(Debug, PartialEq, Eq)]
pub struct EntryHeader {
    /// The name as the archive stores it.
    pub name: String,
    /// The name as a path, where the archive reader takes it for one that
    /// leaves no directory it is joined to.
    pub enclosed: Option<String>,
    /// Whether the entry stands for a directory.
    pub is_dir: bool,
}

impl EntryHeader {
    /// Whether this is the header of `entry`.
    pub open spec fn describes(&self, entry: EntryModel) -> bool {
        &&& self.name@ == entry.name
        &&& self.enclosed.deep_view() == enclosed_path(entry.name)
        &&& self.is_dir == entry.is_dir
    }
}

/// `ZipArchive::new` over a `Cursor` on the bytes. Claimed: the archive's
/// entries are those that the reader finds in `data`, and the call fails
/// exactly where it takes `data` for no archive.
#[verifier::external_body]
fn open_archive(data: Vec<u8>) -> (r: Result<ZipArchive<Cursor<Vec<u8>>>, ZipError>)
    ensures
        match r {
            Ok(archive) => zip_contents(data@) == Some(archive_entries(archive)),
            Err(_) => zip_contents(data@) is None,
        },
{
    ZipArchive::new(Cursor::new(data))
}

/// `ZipArchive::len`. Claimed: it counts the archive's entries.
#[verifier::external_body]
fn entry_count(archive: &ZipArchive<Cursor<Vec<u8>>>) -> (n: usize)
    ensures
        n == archive_entries(*archive).len(),
{
    archive.len()
}

/// `ZipArchive::by_index`, then `ZipFile::name`, `ZipFile::enclosed_name` and
/// `ZipFile::is_dir` of the entry. Claimed: the archive holds what it held; the
/// call fails exactly for an entry that cannot be opened; the header is that
/// of the entry at `index`, its path the reader's reading of its name; and
/// where there is a path, it is the name.
#[verifier::external_body]
fn entry_header(archive: &mut ZipArchive<Cursor<Vec<u8>>>, index: usize) -> (r: Result<
    EntryHeader,
    ZipError,
>)
    requires
        index < archive_entries(*old(archive)).len(),
    ensures
        archive_entries(*final(archive)) == archive_entries(*old(archive)),
        match r {
            Ok(header) => archive_entries(*old(archive))[index as int] matches Some(entry)
                && header.describes(entry) && (enclosed_path(entry.name) matches Some(path)
                ==> path == entry.name),
            Err(_) => archive_entries(*old(archive))[index as int] is None,
        },
{
    let file = archive.by_index(index)?;
    Ok(
        EntryHeader {
            name: file.name().to_string(),
            enclosed: file.enclosed_name().and_then(|path| path.to_str().map(String::from)),
            is_dir: file.is_dir(),
        },
    )
}

/// `ZipArchive::by_index`, then `Read::read_to_end` on the entry. Claimed: the
/// archive holds what it held; the bytes are those that the entry at `index`
/// unpacks to; and the call fails only for an entry that cannot be opened or
/// does not unpack.
#[verifier::external_body]
fn entry_data(archive: &mut ZipArchive<Cursor<Vec<u8>>>, index: usize) -> (r: Result<
    Vec<u8>,
    ZipError,
>)
    requires
        index < archive_entries(*old(archive)).len(),
    ensures
        archive_entries(*final(archive)) == archive_entries(*old(archive)),
        match r {
            Ok(bytes) => archive_entries(*old(archive))[index as int] matches Some(entry)
                && entry.data == Some(bytes@),
            Err(_) => archive_entries(*old(archive))[index as int] matches Some(entry)
                ==> entry.data is None,
        },
{
    let mut file = archive.by_index(index)?;
    let mut bytes: Vec<u8> = Vec::new();
    file.read_to_end(&mut bytes)?;
    Ok(bytes)
}

/// The text of a `ZipError`, as its `Display` gives it.
#[verifier::external_body]
fn zip_error_text(error: &ZipError) -> (text: String) {
    format!("{}", error)
}

/// Why an archive was not expanded.
#[derive(Debug, PartialEq, Eq)]
pub enum ExtractError {
    /// The archive, or an entry that was to be written, cannot be read.
    CorruptArchive(String),
    /// An entry could not be written where it belongs.
    EntryWriteError(String),
}

/// What is done with one entry.
#[derive(Debug, PartialEq, Eq)]
pub enum EntryAction {
    /// The entry is passed over: its name is no path below the output
    /// directory.
    Skip,
    /// The directory of this path is made.
    MakeDir(String),
    /// The entry's bytes are written to the file of this path.
    WriteFile(String),
}

/// What is done with one entry, with paths as sequences of characters.
pub ghost enum EntryActionView {
    Skip,
    MakeDir(Seq<char>),
    WriteFile(Seq<char>),
}

impl View for EntryAction {
    type V = EntryActionView;

    open spec fn view(&self) -> EntryActionView {
        match self {
            EntryAction::Skip => EntryActionView::Skip,
            EntryAction::MakeDir(path) => EntryActionView::MakeDir(path@),
            EntryAction::WriteFile(path) => EntryActionView::WriteFile(path@),
        }
    }
}

/// What is done with an entry of this enclosed path below `dir`. An entry
/// without an enclosed path, or with one that does not stay below, is passed
/// over; any other goes to its path below `dir`.
pub open spec fn action_for(enclosed: Option<Seq<char>>, is_dir: bool, dir: Seq<char>)
    -> EntryActionView {
    match enclosed {
        Some(rel) => if !stays_below(rel) {
            EntryActionView::Skip
        } else if is_dir {
            EntryActionView::MakeDir(joined(dir, rel))
        } else {
            EntryActionView::WriteFile(joined(dir, rel))
        },
        None => EntryActionView::Skip,
    }
}

/// Decides what is done with an entry when the archive is expanded below
/// `output_dir`.
pub fn entry_action(header: &EntryHeader, output_dir: &str) -> (action: EntryAction)
    ensures
        action@ == action_for(header.enclosed.deep_view(), header.is_dir, output_dir@),
{
    match &header.enclosed {
        Some(rel) => {
            if !is_contained_path(rel.as_str()) {
                EntryAction::Skip
            } else if header.is_dir {
                EntryAction::MakeDir(join_below(output_dir, rel.as_str()))
            } else {
                EntryAction::WriteFile(join_below(output_dir, rel.as_str()))
            }
        },
        None => EntryAction::Skip,
    }
}

/// A file to be written: its path and its bytes.
#[derive(Debug, PartialEq, Eq)]
pub struct ExtractedFile {
    pub path: String,
    pub data: Vec<u8>,
}

impl DeepView for ExtractedFile {
    type V = (Seq<char>, Seq<u8>);

    open spec fn deep_view(&self) -> (Seq<char>, Seq<u8>) {
        (self.path@, self.data@)
    }
}

/// What expanding an archive comes to, each list in the archive's order.
#[derive(Debug, PartialEq, Eq)]
pub struct ExtractedDataset {
    /// The files to be written.
    pub files: Vec<ExtractedFile>,
    /// The directories to be made.
    pub dirs: Vec<String>,
    /// The names of the entries that were passed over.
    pub skipped: Vec<String>,
}

/// What expanding one entry comes to.
#[derive(Debug, PartialEq, Eq)]
pub enum ExpandedEntry {
    /// The entry of this name was passed over.
    Skipped(String),
    /// The directory of this path is to be made.
    Dir(String),
    /// This file is to be written.
    File(ExtractedFile),
}

/// What expanding one entry comes to, with names, paths and bytes as
/// sequences.
pub ghost enum ExpandedEntryView {
    Skipped(Seq<char>),
    Dir(Seq<char>),
    File(Seq<char>, Seq<u8>),
}

impl View for ExpandedEntry {
    type V = ExpandedEntryView;

    open spec fn view(&self) -> ExpandedEntryView {
        match self {
            ExpandedEntry::Skipped(name) => ExpandedEntryView::Skipped(name@),
            ExpandedEntry::Dir(path) => ExpandedEntryView::Dir(path@),
            ExpandedEntry::File(file) => ExpandedEntryView::File(file.path@, file.data@),
        }
    }
}

impl ExpandedEntry {
    /// The name of an entry that was passed over, the path of any other.
    pub open spec fn path(&self) -> String {
        match self {
            ExpandedEntry::Skipped(name) => *name,
            ExpandedEntry::Dir(path) => *path,
            ExpandedEntry::File(file) => file.path,
        }
    }
}

/// What is done with `entry` below `dir`.
pub open spec fn entry_plan(entry: Option<EntryModel>, dir: Seq<char>) -> EntryActionView {
    match entry {
        Some(e) => action_for(enclosed_path(e.name), e.is_dir, dir),
        None => EntryActionView::Skip,
    }
}

/// Whether `entry` stops the expansion: it cannot be opened, or it is to be
/// written and does not unpack.
pub open spec fn entry_unreadable(entry: Option<EntryModel>, dir: Seq<char>) -> bool {
    match entry {
        Some(e) => entry_plan(entry, dir) is WriteFile && e.data is None,
        None => true,
    }
}

/// What expanding `entry` below `dir` comes to, where `entry` does not stop
/// the expansion.
pub open spec fn expanded(entry: Option<EntryModel>, dir: Seq<char>) -> ExpandedEntryView {
    match entry_plan(entry, dir) {
        EntryActionView::Skip => ExpandedEntryView::Skipped(entry.unwrap().name),
        EntryActionView::MakeDir(path) => ExpandedEntryView::Dir(path),
        EntryActionView::WriteFile(path) => ExpandedEntryView::File(
            path,
            entry.unwrap().data.unwrap(),
        ),
    }
}

/// Whether no entry stops the expansion.
pub open spec fn archive_readable(entries: Seq<Option<EntryModel>>, dir: Seq<char>) -> bool {
    forall|i: int| 0 <= i < entries.len() ==> !entry_unreadable(#[trigger] entries[i], dir)
}

/// The path and bytes of an entry that is written.
pub open spec fn file_of(entry: Option<EntryModel>, dir: Seq<char>) -> (Seq<char>, Seq<u8>) {
    (entry_plan(entry, dir)->WriteFile_0, entry.unwrap().data.unwrap())
}

/// The files that expanding `entries` below `dir` writes.
pub open spec fn files_of(entries: Seq<Option<EntryModel>>, dir: Seq<char>) -> Seq<
    (Seq<char>, Seq<u8>),
> {
    entries.filter(|e: Option<EntryModel>| entry_plan(e, dir) is WriteFile).map_values(
        |e: Option<EntryModel>| file_of(e, dir),
    )
}

/// The directories that expanding `entries` below `dir` makes.
pub open spec fn dirs_of(entries: Seq<Option<EntryModel>>, dir: Seq<char>) -> Seq<Seq<char>> {
    entries.filter(|e: Option<EntryModel>| entry_plan(e, dir) is MakeDir).map_values(
        |e: Option<EntryModel>| entry_plan(e, dir)->MakeDir_0,
    )
}

/// The names of the entries that expanding `entries` below `dir` passes over.
pub open spec fn skipped_of(entries: Seq<Option<EntryModel>>, dir: Seq<char>) -> Seq<Seq<char>> {
    entries.filter(|e: Option<EntryModel>| e is Some && entry_plan(e, dir) is Skip).map_values(
        |e: Option<EntryModel>| e.unwrap().name,
    )
}

/// Whether `dataset` is what expanding `entries` below `dir` comes to.
pub open spec fn is_expansion(
    dataset: ExtractedDataset,
    entries: Seq<Option<EntryModel>>,
    dir: Seq<char>,
) -> bool {
    &&& dataset.files.deep_view() == files_of(entries, dir)
    &&& dataset.dirs.deep_view() == dirs_of(entries, dir)
    &&& dataset.skipped.deep_view() == skipped_of(entries, dir)
}

/// Whether `path` is a path that stays below, joined to `dir`.
pub open spec fn is_below(path: Seq<char>, dir: Seq<char>) -> bool {
    exists|rel: Seq<char>| stays_below(rel) && path == #[trigger] joined(dir, rel)
}

/// Whether every path of `dataset` is a path that stays below, joined to
/// `dir`.
pub open spec fn lies_below(dataset: ExtractedDataset, dir: Seq<char>) -> bool {
    &&& forall|i: int|
        0 <= i < dataset.files.len() ==> is_below((#[trigger] dataset.files[i]).path@, dir)
    &&& forall|i: int| 0 <= i < dataset.dirs.len() ==> is_below((#[trigger] dataset.dirs[i])@, dir)
}

proof fn lemma_push_filter_map<A, B>(
    front: Seq<A>,
    item: A,
    keep: spec_fn(A) -> bool,
    f: spec_fn(A) -> B,
)
    ensures
        front.push(item).filter(keep).map_values(f) == if keep(item) {
            front.filter(keep).map_values(f).push(f(item))
        } else {
            front.filter(keep).map_values(f)
        },
{
    reveal(Seq::filter);
    assert(front.push(item).drop_last() =~= front);
    if keep(item) {
        assert(front.push(item).filter(keep) == front.filter(keep).push(item));
        assert(front.filter(keep).push(item).map_values(f) =~= front.filter(keep).map_values(
            f,
        ).push(f(item)));
    }
}

/// Taking one more entry adds it to the list that its plan names, and to no
/// other.
pub proof fn lemma_expansion_step(
    front: Seq<Option<EntryModel>>,
    entry: Option<EntryModel>,
    dir: Seq<char>,
)
    ensures
        files_of(front.push(entry), dir) == if entry_plan(entry, dir) is WriteFile {
            files_of(front, dir).push(file_of(entry, dir))
        } else {
            files_of(front, dir)
        },
        dirs_of(front.push(entry), dir) == if entry_plan(entry, dir) is MakeDir {
            dirs_of(front, dir).push(entry_plan(entry, dir)->MakeDir_0)
        } else {
            dirs_of(front, dir)
        },
        skipped_of(front.push(entry), dir) == if entry is Some && entry_plan(entry, dir) is Skip {
            skipped_of(front, dir).push(entry.unwrap().name)
        } else {
            skipped_of(front, dir)
        },
{
    lemma_push_filter_map(
        front,
        entry,
        |e: Option<EntryModel>| entry_plan(e, dir) is WriteFile,
        |e: Option<EntryModel>| file_of(e, dir),
    );
    lemma_push_filter_map(
        front,
        entry,
        |e: Option<EntryModel>| entry_plan(e, dir) is MakeDir,
        |e: Option<EntryModel>| entry_plan(e, dir)->MakeDir_0,
    );
    lemma_push_filter_map(
        front,
        entry,
        |e: Option<EntryModel>| e is Some && entry_plan(e, dir) is Skip,
        |e: Option<EntryModel>| e.unwrap().name,
    );
}

/// An entry whose name the reader takes for no enclosed path, or for one
/// that starts at a root or steps to a parent, is passed over: nothing is
/// written for it.
pub proof fn lemma_unsafe_entry_is_passed_over(entry: EntryModel, dir: Seq<char>)
    requires
        enclosed_path(entry.name) matches Some(rel) ==> !stays_below(rel),
    ensures
        entry_plan(Some(entry), dir) is Skip,
{
}

/// Whatever the entries, every file that the expansion writes and every
/// directory that it makes lies below `dir`.
pub proof fn lemma_expansion_lies_below(entries: Seq<Option<EntryModel>>, dir: Seq<char>)
    ensures
        forall|k: int|
            0 <= k < files_of(entries, dir).len() ==> is_below(
                (#[trigger] files_of(entries, dir)[k]).0,
                dir,
            ),
        forall|k: int|
            0 <= k < dirs_of(entries, dir).len() ==> is_below(
                #[trigger] dirs_of(entries, dir)[k],
                dir,
            ),
{
    let written = |e: Option<EntryModel>| entry_plan(e, dir) is WriteFile;
    let made = |e: Option<EntryModel>| entry_plan(e, dir) is MakeDir;
    broadcast use vstd::seq_lib::group_filter_ensures;

    assert forall|k: int| 0 <= k < files_of(entries, dir).len() implies is_below(
        (#[trigger] files_of(entries, dir)[k]).0,
        dir,
    ) by {
        let e = entries.filter(written)[k];
        assert(written(e));
        assert(files_of(entries, dir)[k].0 == joined(
            dir,
            enclosed_path(e.unwrap().name).unwrap(),
        ));
    }
    assert forall|k: int| 0 <= k < dirs_of(entries, dir).len() implies is_below(
        #[trigger] dirs_of(entries, dir)[k],
        dir,
    ) by {
        let e = entries.filter(made)[k];
        assert(made(e));
        assert(dirs_of(entries, dir)[k] == joined(dir, enclosed_path(e.unwrap().name).unwrap()));
    }
}

/// Whether `entry` can be opened, has a path that stays below, and, unless it
/// is a directory, unpacks.
pub open spec fn entry_sound(entry: Option<EntryModel>) -> bool {
    &&& entry matches Some(e)
    &&& enclosed_path(e.name) matches Some(rel) && stays_below(rel)
    &&& e.is_dir || e.data is Some
}

/// The bytes of the entries that are no directories, in the archive's order.
pub open spec fn payloads_of(entries: Seq<Option<EntryModel>>) -> Seq<Seq<u8>> {
    entries.filter(|e: Option<EntryModel>| !e.unwrap().is_dir).map_values(
        |e: Option<EntryModel>| e.unwrap().data.unwrap(),
    )
}

/// An archive in which every entry is sound expands in full: no entry stops
/// the expansion or is passed over, every entry becomes a file or a
/// directory, and the files hold, in the archive's order, the bytes of the
/// entries that are no directories.
pub proof fn lemma_sound_archive_expands_in_full(entries: Seq<Option<EntryModel>>, dir: Seq<char>)
    requires
        forall|i: int| 0 <= i < entries.len() ==> entry_sound(#[trigger] entries[i]),
    ensures
        archive_readable(entries, dir),
        skipped_of(entries, dir).len() == 0,
        files_of(entries, dir).len() + dirs_of(entries, dir).len() == entries.len(),
        files_of(entries, dir).map_values(|file: (Seq<char>, Seq<u8>)| file.1) == payloads_of(
            entries,
        ),
    decreases entries.len(),
{
    let bytes = |file: (Seq<char>, Seq<u8>)| file.1;
    if entries.len() == 0 {
        reveal(Seq::filter);
        assert(files_of(entries, dir).map_values(bytes) =~= payloads_of(entries));
    } else {
        let front = entries.drop_last();
        let entry = entries.last();
        assert(entry_sound(entries[entries.len() - 1]));
        assert forall|i: int| 0 <= i < front.len() implies entry_sound(#[trigger] front[i]) by {
            assert(front[i] == entries[i]);
        }
        lemma_sound_archive_expands_in_full(front, dir);
        assert(front.push(entry) =~= entries);
        lemma_expansion_step(front, entry, dir);
        lemma_push_filter_map(
            front,
            entry,
            |e: Option<EntryModel>| !e.unwrap().is_dir,
            |e: Option<EntryModel>| e.unwrap().data.unwrap(),
        );
        if !entry.unwrap().is_dir {
            assert(files_of(front, dir).push(file_of(entry, dir)).map_values(bytes)
                =~= files_of(front, dir).map_values(bytes).push(entry.unwrap().data.unwrap()));
        }
    }
}

/// An archive held in memory.
pub struct Archive {
    inner: ZipArchive<Cursor<Vec<u8>>>,
}

impl Archive {
    /// The entries in the archive's order, `None` for one that cannot be
    /// opened.
    pub closed spec fn entries(&self) -> Seq<Option<EntryModel>> {
        archive_entries(self.inner)
    }

    /// Reads the directory of the archive that `data` holds. The archive then
    /// has the entries of `data`, in their order. Bytes that are no archive
    /// give `CorruptArchive`, and no other bytes do.
    pub fn open(data: Vec<u8>) -> (r: Result<Archive, ExtractError>)
        ensures
            match r {
                Ok(archive) => zip_contents(data@) == Some(archive.entries()),
                Err(error) => error is CorruptArchive && zip_contents(data@) is None,
            },
    {
        match open_archive(data) {
            Ok(inner) => Ok(Archive { inner }),
            Err(error) => Err(ExtractError::CorruptArchive(zip_error_text(&error))),
        }
    }

    /// The number of entries.
    pub fn len(&self) -> (n: usize)
        ensures
            n == self.entries().len(),
    {
        entry_count(&self.inner)
    }

    /// The header of the entry at `index`, `None` where there is no such entry
    /// or it cannot be opened.
    pub fn header(&mut self, index: usize) -> (r: Option<EntryHeader>)
        ensures
            final(self).entries() == old(self).entries(),
            match r {
                Some(header) => {
                    &&& index < old(self).entries().len()
                    &&& old(self).entries()[index as int] matches Some(entry) && header.describes(
                        entry,
                    )
                },
                None => index < old(self).entries().len() ==> old(self).entries()[index as int]
                    is None,
            },
    {
        if index >= entry_count(&self.inner) {
            return None;
        }
        match entry_header(&mut self.inner, index) {
            Ok(header) => Some(header),
            Err(_) => None,
        }
    }

    /// Expands the entry at `index` below `output_dir`, and no other: the
    /// caller can store what it gets before it asks for the next. An entry
    /// whose name is no path below `output_dir` is passed over and not
    /// unpacked; a directory entry gives the directory to make; any other is
    /// unpacked and gives the file to write, at its name below `output_dir`.
    /// There is nothing at and after the number of entries. An entry that
    /// cannot be read is an error.
    pub fn expand_entry(&mut self, index: usize, output_dir: &str) -> (r: Result<
        Option<ExpandedEntry>,
        ExtractError,
    >)
        ensures
            final(self).entries() == old(self).entries(),
            match r {
                Ok(None) => index >= old(self).entries().len(),
                Ok(Some(step)) => {
                    &&& index < old(self).entries().len()
                    &&& !entry_unreadable(old(self).entries()[index as int], output_dir@)
                    &&& step@ == expanded(old(self).entries()[index as int], output_dir@)
                    &&& !(step is Skipped) ==> step.path()@ == joined(
                        output_dir@,
                        old(self).entries()[index as int].unwrap().name,
                    )
                },
                Err(ExtractError::CorruptArchive(_)) => index < old(self).entries().len()
                    && entry_unreadable(old(self).entries()[index as int], output_dir@),
                Err(ExtractError::EntryWriteError(_)) => false,
            },
    {
        if index >= entry_count(&self.inner) {
            return Ok(None);
        }
        let header = match entry_header(&mut self.inner, index) {
            Ok(header) => header,
            Err(error) => {
                return Err(ExtractError::CorruptArchive(zip_error_text(&error)));
            },
        };
        match entry_action(&header, output_dir) {
            EntryAction::Skip => Ok(Some(ExpandedEntry::Skipped(header.name))),
            EntryAction::MakeDir(path) => Ok(Some(ExpandedEntry::Dir(path))),
            EntryAction::WriteFile(path) => {
                match entry_data(&mut self.inner, index) {
                    Ok(data) => Ok(Some(ExpandedEntry::File(ExtractedFile { path, data }))),
                    Err(error) => Err(ExtractError::CorruptArchive(zip_error_text(&error))),
                }
            },
        }
    }

    /// Expands the archive below `output_dir`, entry by entry in the archive's
    /// order, as [`Archive::expand_entry`] does each. The first entry that
    /// cannot be read ends the expansion with an error, and nothing is handed
    /// out.
    pub fn extract(&mut self, output_dir: &str) -> (r: Result<ExtractedDataset, ExtractError>)
        ensures
            final(self).entries() == old(self).entries(),
            match r {
                Ok(dataset) => {
                    &&& archive_readable(old(self).entries(), output_dir@)
                    &&& is_expansion(dataset, old(self).entries(), output_dir@)
                    &&& lies_below(dataset, output_dir@)
                },
                Err(ExtractError::CorruptArchive(_)) => !archive_readable(
                    old(self).entries(),
                    output_dir@,
                ),
                Err(ExtractError::EntryWriteError(_)) => false,
            },
    {
        let ghost entries = self.entries();
        let ghost dir = output_dir@;
        let mut dataset = ExtractedDataset {
            files: Vec::new(),
            dirs: Vec::new(),
            skipped: Vec::new(),
        };
        let n = self.len();
        let mut i: usize = 0;
        proof {
            reveal(Seq::filter);
            assert(entries.take(0) =~= Seq::<Option<EntryModel>>::empty());
            assert(dataset.files.deep_view() =~= files_of(entries.take(0), dir));
            assert(dataset.dirs.deep_view() =~= dirs_of(entries.take(0), dir));
            assert(dataset.skipped.deep_view() =~= skipped_of(entries.take(0), dir));
        }
        loop
            invariant
                i <= n,
                n == entries.len(),
                dir == output_dir@,
                self.entries() == entries,
                old(self).entries() == entries,
                archive_readable(entries.take(i as int), dir),
                is_expansion(dataset, entries.take(i as int), dir),
                lies_below(dataset, dir),
            ensures
                i == n,
            decreases n - i,
        {
            let ghost front = entries.take(i as int);
            let ghost entry = entries[i as int];
            let ghost files = dataset.files.deep_view();
            let ghost dirs = dataset.dirs.deep_view();
            let ghost skipped = dataset.skipped.deep_view();
            let ghost before = dataset;
            let step = match self.expand_entry(i, output_dir) {
                Ok(Some(step)) => step,
                Ok(None) => {
                    break ;
                },
                Err(error) => {
                    return Err(error);
                },
            };
            proof {
                assert(entries.take(i + 1) =~= front.push(entry));
                lemma_expansion_step(front, entry, dir);
            }
            match step {
                ExpandedEntry::Skipped(name) => {
                    dataset.skipped.push(name);
                    proof {
                        assert(dataset.skipped.deep_view() =~= skipped.push(entry.unwrap().name));
                    }
                },
                ExpandedEntry::Dir(path) => {
                    dataset.dirs.push(path);
                    proof {
                        assert(dataset.dirs.deep_view() =~= dirs.push(path@));
                        assert(path@ == joined(dir, enclosed_path(entry.unwrap().name).unwrap()));
                        assert forall|k: int| 0 <= k < dataset.dirs.len() implies is_below(
                            (#[trigger] dataset.dirs[k])@,
                            dir,
                        ) by {
                            if k < before.dirs.len() {
                                assert(dataset.dirs[k] == before.dirs[k]);
                            }
                        }
                    }
                },
                ExpandedEntry::File(file) => {
                    let ghost path = file.path@;
                    let ghost data = file.data@;
                    dataset.files.push(file);
                    proof {
                        assert(dataset.files.deep_view() =~= files.push((path, data)));
                        assert(path == joined(dir, enclosed_path(entry.unwrap().name).unwrap()));
                        assert forall|k: int| 0 <= k < dataset.files.len() implies is_below(
                            (#[trigger] dataset.files[k]).path@,
                            dir,
                        ) by {
                            if k < before.files.len() {
                                assert(dataset.files[k] == before.files[k]);
                            }
                        }
                    }
                },
            }
            proof {
                assert forall|k: int| 0 <= k < i + 1 implies !entry_unreadable(
                    #[trigger] entries.take(i + 1)[k],
                    dir,
                ) by {
                    if k < i {
                        assert(entries.take(i as int)[k] == entries.take(i + 1)[k]);
                    }
                }
            }
            i += 1;
        }
        proof {
            assert(entries.take(n as int) =~= entries);
        }
        Ok(dataset)
    }
}

/// Expands the archive that `data` holds below `output_dir`; see
/// [`Archive::extract`]. What is handed out is the expansion of the entries
/// that the reader finds in `data`, and every path handed out lies below
/// `output_dir`. Bytes that are no archive, and an entry that stops the
/// expansion, give `CorruptArchive`; nothing else does.
pub fn unzip(data: Vec<u8>, output_dir: &str) -> (r: Result<ExtractedDataset, ExtractError>)
    ensures
        match r {
            Ok(dataset) => {
                &&& zip_contents(data@) matches Some(entries) && archive_readable(
                    entries,
                    output_dir@,
                ) && is_expansion(dataset, entries, output_dir@)
                &&& lies_below(dataset, output_dir@)
            },
            Err(error) => {
                &&& error is CorruptArchive
                &&& zip_contents(data@) matches Some(entries) ==> !archive_readable(
                    entries,
                    output_dir@,
                )
            },
        },
{
    match Archive::open(data) {
        Ok(mut archive) => archive.extract(output_dir),
        Err(error) => Err(error),
    }
}

} // verus!
