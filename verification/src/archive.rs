//! The archive fetcher: accepts a response by its status, reads the entries
//! of a ZIP archive held in memory and lays out, entry by entry, what to
//! create below the destination directory.

use crate::error::{CoreError, ErrorView};
use crate::text::{ends_with, has_suffix};
use vstd::prelude::*;
use vstd::string::*;

verus! {

/// `zip::ZipArchive`, an archive opened for reading; what it holds is named
/// by `archive_entries`.
#[verifier::external_type_specification]
#[verifier::external_body]
#[verifier::reject_recursive_types(R)]
pub struct ExZipArchive<R>(zip::ZipArchive<R>);

/// `std::io::Cursor`, the reader over the archive's bytes in memory.
#[verifier::external_type_specification]
#[verifier::external_body]
#[verifier::reject_recursive_types(T)]
pub struct ExCursor<T>(std::io::Cursor<T>);

/// `zip::result::ZipError`, why an archive or an entry could not be read.
#[verifier::external_type_specification]
#[verifier::external_body]
pub struct ExZipError(zip::result::ZipError);

/// What an archive holds, entry by entry in the order of its central
/// directory.  Of each entry: its name, or nothing where the entry cannot be
/// located or named; and its unpacked content, or nothing where the entry
/// cannot be unpacked.
pub uninterp spec fn archive_entries(archive: zip::ZipArchive<std::io::Cursor<Vec<u8>>>) -> Seq<
    (Option<Seq<char>>, Option<Seq<u8>>),
>;

/// What `zip::ZipArchive::new` finds in the given bytes: the entries of the
/// archive, or nothing where the bytes are not an archive it can open.
pub uninterp spec fn zip_entries(bytes: Seq<u8>) -> Option<
    Seq<(Option<Seq<char>>, Option<Seq<u8>>)>,
>;

/// The name of an entry, where it has one that can be read.
pub open spec fn name_of_entry(entry: (Option<Seq<char>>, Option<Seq<u8>>)) -> Option<Seq<char>> {
    let (name, _) = entry;
    name
}

/// The content of an entry, where it can be unpacked.
pub open spec fn content_of_entry(entry: (Option<Seq<char>>, Option<Seq<u8>>)) -> Option<
    Seq<u8>,
> {
    let (_, content) = entry;
    content
}

/// `zip::ZipArchive::new` on a cursor over the bytes: opens the archive by
/// its central directory.  The archive opened holds what `zip_entries` names
/// for these bytes; where opening fails, `zip_entries` names nothing.
#[verifier::external_body]
fn open_archive(bytes: Vec<u8>) -> (r: Result<
    zip::ZipArchive<std::io::Cursor<Vec<u8>>>,
    zip::result::ZipError,
>)
    ensures
        match r {
            Ok(archive) => zip_entries(bytes@) == Some(archive_entries(archive)),
            Err(_) => zip_entries(bytes@) is None,
        },
{
    zip::ZipArchive::new(std::io::Cursor::new(bytes))
}

/// `zip::ZipArchive::len`: the number of entries in the central directory.
#[verifier::external_body]
fn archive_len(archive: &zip::ZipArchive<std::io::Cursor<Vec<u8>>>) -> (r: usize)
    ensures
        r == archive_entries(*archive).len(),
{
    archive.len()
}

/// `zip::ZipArchive::by_index`, then `name` on the entry it gives: the name
/// of the entry at `index`.  Fails where the entry cannot be located or its
/// name cannot be read.  The archive holds the same entries afterwards.
#[verifier::external_body]
fn entry_name(archive: &mut zip::ZipArchive<std::io::Cursor<Vec<u8>>>, index: usize) -> (r: Result<
    String,
    zip::result::ZipError,
>)
    requires
        index < archive_entries(*old(archive)).len(),
    ensures
        archive_entries(*final(archive)) == archive_entries(*old(archive)),
        match r {
            Ok(name) => name_of_entry(archive_entries(*old(archive))[index as int]) == Some(name@),
            Err(_) => name_of_entry(archive_entries(*old(archive))[index as int]) is None,
        },
{
    let file = archive.by_index(index)?;
    let name = file.name()?.into_owned();
    Ok(name)
}

/// `zip::ZipArchive::by_index`, then `read_to_end` on the entry it gives:
/// the unpacked content of the entry at `index`.  Fails where the entry
/// cannot be unpacked.  The archive holds the same entries afterwards.
#[verifier::external_body]
fn entry_content(archive: &mut zip::ZipArchive<std::io::Cursor<Vec<u8>>>, index: usize) -> (r:
    Result<Vec<u8>, zip::result::ZipError>)
    requires
        index < archive_entries(*old(archive)).len(),
    ensures
        archive_entries(*final(archive)) == archive_entries(*old(archive)),
        match r {
            Ok(data) => content_of_entry(archive_entries(*old(archive))[index as int]) == Some(
                data@,
            ),
            Err(_) => content_of_entry(archive_entries(*old(archive))[index as int]) is None,
        },
{
    let mut file = archive.by_index(index)?;
    let mut data = Vec::new();
    std::io::Read::read_to_end(&mut file, &mut data)?;
    Ok(data)
}

/// The `Display` text of a `zip::result::ZipError`.
#[verifier::external_body]
fn error_text(e: &zip::result::ZipError) -> (r: String) {
    e.to_string()
}

/// A response carries the bundle where its status is between 200 and 299.
pub open spec fn is_success(status: u16) -> bool {
    200 <= status && status < 300
}

/// Accepts the response to a request for a bundle by its status.  Any
/// status outside 200 to 299 is a failed download; the message holds the
/// status as the transport words it.
pub fn accept_response(status: u16, status_text: &str) -> (r: Result<(), CoreError>)
    ensures
        match r {
            Ok(_) => is_success(status),
            Err(e) => !is_success(status) && e@ == ErrorView::Download(
                "Download failed with status: "@ + status_text@,
            ),
        },
{
    if 200 <= status && status < 300 {
        Ok(())
    } else {
        Err(
            CoreError::Download(
                String::from_str("Download failed with status: ").concat(status_text),
            ),
        )
    }
}

/// What to create for one entry of an archive.
#[derive(Debug)]
pub enum ExtractStep {
    /// Create the directory at this path below the destination, with every
    /// directory above it.
    CreateDir { path: String },
    /// Create the directories above this path below the destination, then
    /// write the file with this content.
    WriteFile { path: String, data: Vec<u8> },
}

/// A step as a value.
pub ghost enum StepView {
    CreateDir { path: Seq<char> },
    WriteFile { path: Seq<char>, data: Seq<u8> },
}

impl View for ExtractStep {
    type V = StepView;

    open spec fn view(&self) -> StepView {
        match self {
            ExtractStep::CreateDir { path } => StepView::CreateDir { path: path@ },
            ExtractStep::WriteFile { path, data } => StepView::WriteFile {
                path: path@,
                data: data@,
            },
        }
    }
}

/// The views of a list of steps.
pub open spec fn step_views(steps: Seq<ExtractStep>) -> Seq<StepView> {
    Seq::new(steps.len(), |i: int| steps[i]@)
}

/// Whether a name is that of a directory entry: it ends in `/`.
pub open spec fn names_directory(name: Seq<char>) -> bool {
    has_suffix(name, "/"@)
}

/// An entry whose name ends in `/` is a directory; any other is a file.
pub open spec fn step_for(name: Seq<char>, data: Seq<u8>) -> StepView {
    if names_directory(name) {
        StepView::CreateDir { path: name }
    } else {
        StepView::WriteFile { path: name, data: data }
    }
}

/// Whether an entry can be unpacked: it has a name, and unless that is the
/// name of a directory, its content can be read.  The content of a
/// directory entry is never asked for.
pub open spec fn readable(entry: (Option<Seq<char>>, Option<Seq<u8>>)) -> bool {
    match name_of_entry(entry) {
        Some(name) => names_directory(name) || content_of_entry(entry) is Some,
        None => false,
    }
}

/// Whether every entry of an archive can be unpacked.
pub open spec fn all_readable(entries: Seq<(Option<Seq<char>>, Option<Seq<u8>>)>) -> bool {
    forall|i: int| 0 <= i < entries.len() ==> readable(#[trigger] entries[i])
}

/// The step for an entry that can be unpacked.
pub open spec fn entry_step(entry: (Option<Seq<char>>, Option<Seq<u8>>)) -> StepView {
    let name = name_of_entry(entry)->Some_0;
    if names_directory(name) {
        StepView::CreateDir { path: name }
    } else {
        StepView::WriteFile { path: name, data: content_of_entry(entry)->Some_0 }
    }
}

/// The steps that unpack an archive, one for each entry, in archive order.
pub open spec fn steps_for(entries: Seq<(Option<Seq<char>>, Option<Seq<u8>>)>) -> Seq<StepView> {
    Seq::new(entries.len(), |i: int| entry_step(entries[i]))
}

/// What to create for one entry of an archive.
pub fn plan_entry(name: String, data: Vec<u8>) -> (r: ExtractStep)
    ensures
        r@ == step_for(name@, data@),
{
    if ends_with(name.as_str(), "/") {
        ExtractStep::CreateDir { path: name }
    } else {
        ExtractStep::WriteFile { path: name, data: data }
    }
}

/// Whether a message says that the archive cannot be opened.
pub open spec fn says_unreadable_archive(m: Seq<char>) -> bool {
    exists|reason: Seq<char>| m == "Failed to read zip: "@ + reason
}

/// Whether a message says that an entry of the archive cannot be located.
pub open spec fn says_unreadable_entry(m: Seq<char>) -> bool {
    exists|reason: Seq<char>| m == "Failed to read zip entry: "@ + reason
}

/// Whether a message says that the content of an entry cannot be unpacked.
pub open spec fn says_unreadable_content(m: Seq<char>) -> bool {
    exists|reason: Seq<char>| m == "Failed to read zip content: "@ + reason
}

/// What a failed extraction says of the first entry that cannot be
/// unpacked: that the entry cannot be located where it has no name, else
/// that its content cannot be read.
pub open spec fn says_first_unreadable(
    entries: Seq<(Option<Seq<char>>, Option<Seq<u8>>)>,
    m: Seq<char>,
) -> bool {
    exists|i: int|
        0 <= i < entries.len() && !readable(#[trigger] entries[i]) && (forall|k: int|
            0 <= k < i ==> readable(#[trigger] entries[k])) && if name_of_entry(entries[i])
            is None {
            says_unreadable_entry(m)
        } else {
            says_unreadable_content(m)
        }
}

/// The steps that unpack the archive held in `bytes`, one for each entry in
/// archive order.  The content of a directory entry is not read.  Fails
/// with `Extraction` where the bytes are not an archive that can be opened,
/// and at the first entry that cannot be located or whose content cannot be
/// read; the message tells the three apart.
pub fn plan_extraction(bytes: Vec<u8>) -> (r: Result<Vec<ExtractStep>, CoreError>)
    ensures
        match r {
            Ok(steps) => zip_entries(bytes@) matches Some(entries) && all_readable(entries)
                && step_views(steps@) == steps_for(entries),
            Err(e) => e@ matches ErrorView::Extraction(m) && match zip_entries(bytes@) {
                None => says_unreadable_archive(m),
                Some(entries) => says_first_unreadable(entries, m),
            },
        },
{
    let mut archive = match open_archive(bytes) {
        Ok(archive) => archive,
        Err(e) => {
            let reason = error_text(&e);
            let m = String::from_str("Failed to read zip: ").concat(reason.as_str());
            assert(m@ == "Failed to read zip: "@ + reason@);
            return Err(CoreError::Extraction(m));
        },
    };
    let ghost entries = archive_entries(archive);
    let n = archive_len(&archive);
    let mut steps: Vec<ExtractStep> = Vec::new();
    let mut i: usize = 0;
    while i < n
        invariant
            zip_entries(bytes@) == Some(entries),
            archive_entries(archive) == entries,
            n == entries.len(),
            i <= n,
            steps@.len() == i,
            forall|k: int| 0 <= k < i ==> readable(#[trigger] entries[k]),
            forall|k: int| 0 <= k < i ==> (#[trigger] steps@[k])@ == entry_step(entries[k]),
        decreases n - i,
    {
        let name = match entry_name(&mut archive, i) {
            Ok(name) => name,
            Err(e) => {
                let reason = error_text(&e);
                let m = String::from_str("Failed to read zip entry: ").concat(reason.as_str());
                assert(m@ == "Failed to read zip entry: "@ + reason@);
                assert(!readable(entries[i as int]));
                return Err(CoreError::Extraction(m));
            },
        };
        if ends_with(name.as_str(), "/") {
            steps.push(ExtractStep::CreateDir { path: name });
        } else {
            match entry_content(&mut archive, i) {
                Ok(data) => {
                    steps.push(plan_entry(name, data));
                },
                Err(e) => {
                    let reason = error_text(&e);
                    let m = String::from_str("Failed to read zip content: ").concat(
                        reason.as_str(),
                    );
                    assert(m@ == "Failed to read zip content: "@ + reason@);
                    assert(!readable(entries[i as int]));
                    return Err(CoreError::Extraction(m));
                },
            }
        }
        i += 1;
    }
    assert(step_views(steps@) =~= steps_for(entries));
    Ok(steps)
}

} // verus!
