//! Telling an archive's format from its name, and deciding how it is
//! unpacked.
use crate::text::{chars_of, ends_with, ends_with_str, has_suffix, lowercase, to_lowercase};
use vstd::prelude::*;
use vstd::string::*;

verus! {

/// The formats that can be unpacked: a tar archive under one of four
/// compressions, a zip archive, or a single compressed file.
#[derive(Clone, Copy, Debug, PartialEq, Eq, Structural)]
pub enum ArchiveType {
    TarGz,
    TarBz2,
    TarXz,
    TarZst,
    Zip,
    Gz,
    Bz2,
    Xz,
    Zst,
}

/// A compression.
#[derive(Clone, Copy, Debug, PartialEq, Eq, Structural)]
pub enum Codec {
    Gzip,
    Bzip2,
    Xz,
    Zstd,
}

/// The format that the lowercase path `path` names by its suffix. The suffixes
/// of compressed tar archives are tried before those of single compressed
/// files, so that `.tar.gz` is no plain `.gz`.
pub open spec fn archive_kind(path: Seq<char>) -> Option<ArchiveType> {
    if ends_with(path, ".tar.gz"@) || ends_with(path, ".tgz"@) {
        Some(ArchiveType::TarGz)
    } else if ends_with(path, ".tar.bz2"@) || ends_with(path, ".tbz2"@) {
        Some(ArchiveType::TarBz2)
    } else if ends_with(path, ".tar.xz"@) || ends_with(path, ".txz"@) {
        Some(ArchiveType::TarXz)
    } else if ends_with(path, ".tar.zst"@) || ends_with(path, ".tzst"@) {
        Some(ArchiveType::TarZst)
    } else if ends_with(path, ".zip"@) {
        Some(ArchiveType::Zip)
    } else if ends_with(path, ".gz"@) {
        Some(ArchiveType::Gz)
    } else if ends_with(path, ".bz2"@) {
        Some(ArchiveType::Bz2)
    } else if ends_with(path, ".xz"@) {
        Some(ArchiveType::Xz)
    } else if ends_with(path, ".zst"@) {
        Some(ArchiveType::Zst)
    } else {
        None
    }
}

/// The format that the lowercase path `path_lower` names by its suffix; none
/// where the suffix is not known.
pub fn archive_type_of(path_lower: &str) -> (r: Option<ArchiveType>)
    ensures
        r == archive_kind(path_lower@),
{
    let chars = chars_of(path_lower);
    let p = chars.as_slice();
    if ends_with_str(p, ".tar.gz") || ends_with_str(p, ".tgz") {
        Some(ArchiveType::TarGz)
    } else if ends_with_str(p, ".tar.bz2") || ends_with_str(p, ".tbz2") {
        Some(ArchiveType::TarBz2)
    } else if ends_with_str(p, ".tar.xz") || ends_with_str(p, ".txz") {
        Some(ArchiveType::TarXz)
    } else if ends_with_str(p, ".tar.zst") || ends_with_str(p, ".tzst") {
        Some(ArchiveType::TarZst)
    } else if ends_with_str(p, ".zip") {
        Some(ArchiveType::Zip)
    } else if ends_with_str(p, ".gz") {
        Some(ArchiveType::Gz)
    } else if ends_with_str(p, ".bz2") {
        Some(ArchiveType::Bz2)
    } else if ends_with_str(p, ".xz") {
        Some(ArchiveType::Xz)
    } else if ends_with_str(p, ".zst") {
        Some(ArchiveType::Zst)
    } else {
        None
    }
}

/// The format of the file at `path`, told from its suffix in any case of
/// letters; none where the suffix is not known.
pub fn detect_archive_type(path: &str) -> (r: Option<ArchiveType>)
    ensures
        r == archive_kind(lowercase(path@)),
{
    let path_lower = to_lowercase(path);
    archive_type_of(path_lower.as_str())
}

/// Whether the file at `path` has the suffix of a format that can be
/// unpacked.
pub fn is_extractable(path: &str) -> (r: bool)
    ensures
        r == archive_kind(lowercase(path@)) is Some,
{
    detect_archive_type(path).is_some()
}

impl Codec {
    /// The suffix of a file under this compression.
    pub open spec fn suffix(self) -> Seq<char> {
        match self {
            Codec::Gzip => ".gz"@,
            Codec::Bzip2 => ".bz2"@,
            Codec::Xz => ".xz"@,
            Codec::Zstd => ".zst"@,
        }
    }

    /// The suffix of a file under this compression.
    pub fn file_suffix(self) -> (r: &'static str)
        ensures
            r@ == self.suffix(),
    {
        match self {
            Codec::Gzip => ".gz",
            Codec::Bzip2 => ".bz2",
            Codec::Xz => ".xz",
            Codec::Zstd => ".zst",
        }
    }
}

/// The string of an optional string slice.
pub open spec fn opt_text(s: Option<&str>) -> Option<Seq<char>> {
    match s {
        Some(t) => Some(t@),
        None => None,
    }
}

/// The name under which a single compressed file is written: its own name
/// without the suffix of the compression, which is matched as it is written;
/// `decompressed` where there is no name, the name does not end so, or
/// nothing stands before the suffix.
pub open spec fn output_name(file_name: Option<Seq<char>>, codec: Codec) -> Seq<char> {
    match file_name {
        Some(n) => if ends_with(n, codec.suffix()) && n.len() > codec.suffix().len() {
            n.take(n.len() - codec.suffix().len())
        } else {
            "decompressed"@
        },
        None => "decompressed"@,
    }
}

/// The name under which the single compressed file named `file_name` is
/// written.
pub fn single_output_name(file_name: Option<&str>, codec: Codec) -> (r: String)
    ensures
        r@ == output_name(opt_text(file_name), codec),
{
    match file_name {
        Some(n) => {
            let chars = chars_of(n);
            let suffix = chars_of(codec.file_suffix());
            if has_suffix(chars.as_slice(), suffix.as_slice()) && chars.len() > suffix.len() {
                let stem = n.substring_char(0, chars.len() - suffix.len());
                assert(stem@ =~= n@.take(n@.len() - codec.suffix().len()));
                stem.to_owned()
            } else {
                "decompressed".to_owned()
            }
        },
        None => "decompressed".to_owned(),
    }
}

/// How an archive is unpacked.
#[derive(Debug)]
pub enum ExtractionPlan {
    /// Decompress the file and unpack the tar archive in it.
    UnpackTar(Codec),
    /// Unpack a zip archive entry by entry.
    UnpackZip,
    /// Decompress the file into one file of the given name.
    Decompress(Codec, String),
}

/// An `ExtractionPlan` with its file name as a string.
pub enum ExtractionPlanView {
    UnpackTar(Codec),
    UnpackZip,
    Decompress(Codec, Seq<char>),
}

impl View for ExtractionPlan {
    type V = ExtractionPlanView;

    open spec fn view(&self) -> ExtractionPlanView {
        match self {
            ExtractionPlan::UnpackTar(c) => ExtractionPlanView::UnpackTar(*c),
            ExtractionPlan::UnpackZip => ExtractionPlanView::UnpackZip,
            ExtractionPlan::Decompress(c, name) => ExtractionPlanView::Decompress(*c, name@),
        }
    }
}

/// Why nothing is unpacked.
#[derive(Clone, Copy, Debug, PartialEq, Eq, Structural)]
pub enum ExtractError {
    /// The file's suffix names no format that can be unpacked.
    UnknownFormat,
}

impl ExtractError {
    /// The text of the error.
    pub fn message(&self) -> (r: String)
        ensures
            r@ == "Unknown archive format"@,
    {
        "Unknown archive format".to_owned()
    }
}

/// How a file of the format `kind` is unpacked, where `file_name` is the last
/// part of its path.
pub open spec fn plan_for(kind: ArchiveType, file_name: Option<Seq<char>>) -> ExtractionPlanView {
    match kind {
        ArchiveType::TarGz => ExtractionPlanView::UnpackTar(Codec::Gzip),
        ArchiveType::TarBz2 => ExtractionPlanView::UnpackTar(Codec::Bzip2),
        ArchiveType::TarXz => ExtractionPlanView::UnpackTar(Codec::Xz),
        ArchiveType::TarZst => ExtractionPlanView::UnpackTar(Codec::Zstd),
        ArchiveType::Zip => ExtractionPlanView::UnpackZip,
        ArchiveType::Gz => ExtractionPlanView::Decompress(
            Codec::Gzip,
            output_name(file_name, Codec::Gzip),
        ),
        ArchiveType::Bz2 => ExtractionPlanView::Decompress(
            Codec::Bzip2,
            output_name(file_name, Codec::Bzip2),
        ),
        ArchiveType::Xz => ExtractionPlanView::Decompress(
            Codec::Xz,
            output_name(file_name, Codec::Xz),
        ),
        ArchiveType::Zst => ExtractionPlanView::Decompress(
            Codec::Zstd,
            output_name(file_name, Codec::Zstd),
        ),
    }
}

/// How a file of the format `kind` is unpacked, where `file_name` is the last
/// part of its path if it has one that is text.
pub fn plan_for_kind(kind: ArchiveType, file_name: Option<&str>) -> (r: ExtractionPlan)
    ensures
        r@ == plan_for(kind, opt_text(file_name)),
{
    match kind {
        ArchiveType::TarGz => ExtractionPlan::UnpackTar(Codec::Gzip),
        ArchiveType::TarBz2 => ExtractionPlan::UnpackTar(Codec::Bzip2),
        ArchiveType::TarXz => ExtractionPlan::UnpackTar(Codec::Xz),
        ArchiveType::TarZst => ExtractionPlan::UnpackTar(Codec::Zstd),
        ArchiveType::Zip => ExtractionPlan::UnpackZip,
        ArchiveType::Gz => ExtractionPlan::Decompress(
            Codec::Gzip,
            single_output_name(file_name, Codec::Gzip),
        ),
        ArchiveType::Bz2 => ExtractionPlan::Decompress(
            Codec::Bzip2,
            single_output_name(file_name, Codec::Bzip2),
        ),
        ArchiveType::Xz => ExtractionPlan::Decompress(
            Codec::Xz,
            single_output_name(file_name, Codec::Xz),
        ),
        ArchiveType::Zst => ExtractionPlan::Decompress(
            Codec::Zstd,
            single_output_name(file_name, Codec::Zstd),
        ),
    }
}

/// How the file at `path` is unpacked, where `file_name` is the last part of
/// the path if it has one that is text. Fails exactly when the path's suffix
/// names no format.
pub fn plan_extraction(path: &str, file_name: Option<&str>) -> (r: Result<
    ExtractionPlan,
    ExtractError,
>)
    ensures
        match archive_kind(lowercase(path@)) {
            Some(kind) => r matches Ok(plan) && plan@ == plan_for(kind, opt_text(file_name)),
            None => r == Err::<ExtractionPlan, ExtractError>(ExtractError::UnknownFormat),
        },
{
    match detect_archive_type(path) {
        Some(kind) => Ok(plan_for_kind(kind, file_name)),
        None => Err(ExtractError::UnknownFormat),
    }
}

/// What is known of an entry of a zip archive before it is unpacked.
pub struct ZipEntry {
    /// The entry's path below the output directory, or none where the stored
    /// name would lead out of it.
    pub enclosed_name: Option<String>,
    /// The entry is a directory.
    pub is_dir: bool,
}

/// What is done with an entry of a zip archive.
#[derive(Debug)]
pub enum ZipAction {
    /// Nothing is written.
    Skip,
    /// The directory at this path below the output directory is created.
    CreateDir(String),
    /// The file at this path below the output directory is written, after the
    /// directories above it are created.
    WriteFile(String),
}

/// A `ZipAction` with its path as a string.
pub enum ZipActionView {
    Skip,
    CreateDir(Seq<char>),
    WriteFile(Seq<char>),
}

impl View for ZipAction {
    type V = ZipActionView;

    open spec fn view(&self) -> ZipActionView {
        match self {
            ZipAction::Skip => ZipActionView::Skip,
            ZipAction::CreateDir(p) => ZipActionView::CreateDir(p@),
            ZipAction::WriteFile(p) => ZipActionView::WriteFile(p@),
        }
    }
}

/// What is done with `entry`: an entry whose name would lead out of the output
/// directory is skipped, and unpacking goes on; any other is created or
/// written at its own path and nowhere else.
pub fn zip_entry_action(entry: ZipEntry) -> (r: ZipAction)
    ensures
        r@ == (match entry.enclosed_name {
            None => ZipActionView::Skip,
            Some(p) => if entry.is_dir {
                ZipActionView::CreateDir(p@)
            } else {
                ZipActionView::WriteFile(p@)
            },
        }),
{
    match entry.enclosed_name {
        None => ZipAction::Skip,
        Some(p) => if entry.is_dir {
            ZipAction::CreateDir(p)
        } else {
            ZipAction::WriteFile(p)
        },
    }
}

/// What is done with a file once it is downloaded.
#[derive(Clone, Copy, Debug, PartialEq, Eq, Structural)]
pub enum AfterDownload {
    /// The file stays as it is.
    Keep,
    /// The file is unpacked and stays.
    Extract,
    /// The file is unpacked and then removed.
    ExtractAndRemove,
}

/// What is done with a downloaded file: it is unpacked unless that was
/// declined or its format is not known, and it is removed after unpacking
/// unless it is to be kept.
pub fn after_download(extractable: bool, no_extract: bool, keep: bool) -> (r: AfterDownload)
    ensures
        r == (if no_extract || !extractable {
            AfterDownload::Keep
        } else if keep {
            AfterDownload::Extract
        } else {
            AfterDownload::ExtractAndRemove
        }),
{
    if no_extract || !extractable {
        AfterDownload::Keep
    } else if keep {
        AfterDownload::Extract
    } else {
        AfterDownload::ExtractAndRemove
    }
}

} // verus!
