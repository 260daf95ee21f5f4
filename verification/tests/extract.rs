use dex::extract::{
    after_download, archive_type_of, detect_archive_type, is_extractable, plan_extraction,
    plan_for_kind, single_output_name, zip_entry_action,
    AfterDownload, ArchiveType, Codec, ExtractError, ExtractionPlan, ZipAction, ZipEntry,
};

#[test]
fn test_detect_tar_gz() {
    assert!(is_extractable("file.tar.gz"));
    assert!(is_extractable("file.tgz"));
    assert!(is_extractable("FILE.TAR.GZ")); // case insensitive
}

#[test]
fn test_detect_tar_bz2() {
    assert!(is_extractable("file.tar.bz2"));
    assert!(is_extractable("file.tbz2"));
}

#[test]
fn test_detect_tar_xz() {
    assert!(is_extractable("file.tar.xz"));
    assert!(is_extractable("file.txz"));
}

#[test]
fn test_detect_tar_zst() {
    assert!(is_extractable("file.tar.zst"));
    assert!(is_extractable("file.tzst"));
}

#[test]
fn test_detect_zip() {
    assert!(is_extractable("file.zip"));
    assert!(is_extractable("FILE.ZIP"));
}

#[test]
fn test_detect_single_compressed() {
    assert!(is_extractable("file.gz"));
    assert!(is_extractable("file.bz2"));
    assert!(is_extractable("file.xz"));
    assert!(is_extractable("file.zst"));
}

#[test]
fn test_not_extractable() {
    assert!(!is_extractable("file.txt"));
    assert!(!is_extractable("file.pdf"));
    assert!(!is_extractable("file"));
}

#[test]
fn test_detect_each_kind() {
    assert_eq!(detect_archive_type("a.tar.gz"), Some(ArchiveType::TarGz));
    assert_eq!(detect_archive_type("a.tgz"), Some(ArchiveType::TarGz));
    assert_eq!(detect_archive_type("a.tar.bz2"), Some(ArchiveType::TarBz2));
    assert_eq!(detect_archive_type("a.tbz2"), Some(ArchiveType::TarBz2));
    assert_eq!(detect_archive_type("a.tar.xz"), Some(ArchiveType::TarXz));
    assert_eq!(detect_archive_type("a.txz"), Some(ArchiveType::TarXz));
    assert_eq!(detect_archive_type("a.tar.zst"), Some(ArchiveType::TarZst));
    assert_eq!(detect_archive_type("a.tzst"), Some(ArchiveType::TarZst));
    assert_eq!(detect_archive_type("a.zip"), Some(ArchiveType::Zip));
    assert_eq!(detect_archive_type("a.gz"), Some(ArchiveType::Gz));
    assert_eq!(detect_archive_type("a.bz2"), Some(ArchiveType::Bz2));
    assert_eq!(detect_archive_type("a.xz"), Some(ArchiveType::Xz));
    assert_eq!(detect_archive_type("a.zst"), Some(ArchiveType::Zst));
    assert_eq!(detect_archive_type("a.rar"), None);
    assert_eq!(detect_archive_type(""), None);
}

#[test]
fn test_compound_suffix_before_simple() {
    assert_eq!(detect_archive_type("x.tar.gz"), Some(ArchiveType::TarGz));
    assert_ne!(detect_archive_type("x.tar.gz"), Some(ArchiveType::Gz));
    assert_eq!(detect_archive_type("x.tar.zst"), Some(ArchiveType::TarZst));
    assert_eq!(detect_archive_type("x.tar.gz.zst"), Some(ArchiveType::Zst));
}

#[test]
fn test_detect_lowercases_whole_path() {
    assert_eq!(detect_archive_type("/TMP/Dir/Data.Tar.XZ"), Some(ArchiveType::TarXz));
    assert_eq!(detect_archive_type("Data.Bz2"), Some(ArchiveType::Bz2));
    // The suffix must stand at the very end.
    assert_eq!(detect_archive_type("data.zip.part"), None);
    assert_eq!(detect_archive_type("gz"), None);
}

#[test]
fn test_single_output_name_strips_suffix() {
    assert_eq!(single_output_name(Some("data.csv.gz"), Codec::Gzip), "data.csv");
    assert_eq!(single_output_name(Some("dump.bz2"), Codec::Bzip2), "dump");
    assert_eq!(single_output_name(Some("log.txt.xz"), Codec::Xz), "log.txt");
    assert_eq!(single_output_name(Some("image.zst"), Codec::Zstd), "image");
}

#[test]
fn test_single_output_name_falls_back() {
    assert_eq!(single_output_name(None, Codec::Gzip), "decompressed");
    // The suffix is matched as it is written.
    assert_eq!(single_output_name(Some("DATA.CSV.GZ"), Codec::Gzip), "decompressed");
    assert_eq!(single_output_name(Some("data.gz"), Codec::Xz), "decompressed");
    assert_eq!(single_output_name(Some("gz"), Codec::Gzip), "decompressed");
}

#[test]
fn test_single_output_name_of_bare_suffix_falls_back() {
    // Nothing stands before the suffix.
    assert_eq!(single_output_name(Some(".gz"), Codec::Gzip), "decompressed");
    assert_eq!(single_output_name(Some(".bz2"), Codec::Bzip2), "decompressed");
    assert_eq!(single_output_name(Some(".xz"), Codec::Xz), "decompressed");
    assert_eq!(single_output_name(Some(".zst"), Codec::Zstd), "decompressed");
    assert_eq!(single_output_name(Some("a.gz"), Codec::Gzip), "a");
    match plan_extraction("/tmp/.gz", Some(".gz")) {
        Ok(ExtractionPlan::Decompress(Codec::Gzip, name)) => assert_eq!(name, "decompressed"),
        other => panic!("unexpected plan: {:?}", other),
    }
}

#[test]
fn test_codec_suffixes() {
    assert_eq!(Codec::Gzip.file_suffix(), ".gz");
    assert_eq!(Codec::Bzip2.file_suffix(), ".bz2");
    assert_eq!(Codec::Xz.file_suffix(), ".xz");
    assert_eq!(Codec::Zstd.file_suffix(), ".zst");
}

#[test]
fn test_plan_plain_gzip() {
    match plan_extraction("/tmp/data.csv.gz", Some("data.csv.gz")) {
        Ok(ExtractionPlan::Decompress(codec, name)) => {
            assert_eq!(codec, Codec::Gzip);
            assert_eq!(name, "data.csv");
        }
        other => panic!("unexpected plan: {:?}", other),
    }
}

#[test]
fn test_plan_tar_and_zip() {
    assert!(matches!(
        plan_extraction("a.tar.gz", Some("a.tar.gz")),
        Ok(ExtractionPlan::UnpackTar(Codec::Gzip))
    ));
    assert!(matches!(
        plan_extraction("a.tbz2", Some("a.tbz2")),
        Ok(ExtractionPlan::UnpackTar(Codec::Bzip2))
    ));
    assert!(matches!(
        plan_extraction("a.tar.xz", None),
        Ok(ExtractionPlan::UnpackTar(Codec::Xz))
    ));
    assert!(matches!(
        plan_extraction("a.tzst", Some("a.tzst")),
        Ok(ExtractionPlan::UnpackTar(Codec::Zstd))
    ));
    assert!(matches!(plan_extraction("A.ZIP", Some("A.ZIP")), Ok(ExtractionPlan::UnpackZip)));
}

#[test]
fn test_plan_single_files() {
    match plan_extraction("dir/a.bz2", Some("a.bz2")) {
        Ok(ExtractionPlan::Decompress(Codec::Bzip2, name)) => assert_eq!(name, "a"),
        other => panic!("unexpected plan: {:?}", other),
    }
    match plan_extraction("dir/a.xz", Some("a.xz")) {
        Ok(ExtractionPlan::Decompress(Codec::Xz, name)) => assert_eq!(name, "a"),
        other => panic!("unexpected plan: {:?}", other),
    }
    match plan_extraction("dir/a.zst", None) {
        Ok(ExtractionPlan::Decompress(Codec::Zstd, name)) => assert_eq!(name, "decompressed"),
        other => panic!("unexpected plan: {:?}", other),
    }
    match plan_extraction("dir/A.GZ", Some("A.GZ")) {
        Ok(ExtractionPlan::Decompress(Codec::Gzip, name)) => assert_eq!(name, "decompressed"),
        other => panic!("unexpected plan: {:?}", other),
    }
}

#[test]
fn test_plan_unknown_format() {
    match plan_extraction("notes.txt", Some("notes.txt")) {
        Err(e) => {
            assert_eq!(e, ExtractError::UnknownFormat);
            assert_eq!(e.message(), "Unknown archive format");
        }
        Ok(plan) => panic!("unexpected plan: {:?}", plan),
    }
}

#[test]
fn test_zip_entry_outside_is_skipped() {
    let entry = ZipEntry { enclosed_name: None, is_dir: false };
    assert!(matches!(zip_entry_action(entry), ZipAction::Skip));
    let dir = ZipEntry { enclosed_name: None, is_dir: true };
    assert!(matches!(zip_entry_action(dir), ZipAction::Skip));
}

#[test]
fn test_zip_entry_inside_is_unpacked() {
    let file = ZipEntry { enclosed_name: Some("bin/tool".to_string()), is_dir: false };
    match zip_entry_action(file) {
        ZipAction::WriteFile(p) => assert_eq!(p, "bin/tool"),
        other => panic!("unexpected action: {:?}", other),
    }
    let dir = ZipEntry { enclosed_name: Some("bin/".to_string()), is_dir: true };
    match zip_entry_action(dir) {
        ZipAction::CreateDir(p) => assert_eq!(p, "bin/"),
        other => panic!("unexpected action: {:?}", other),
    }
}

#[test]
fn test_after_download() {
    assert_eq!(after_download(true, false, false), AfterDownload::ExtractAndRemove);
    assert_eq!(after_download(true, false, true), AfterDownload::Extract);
    assert_eq!(after_download(true, true, false), AfterDownload::Keep);
    assert_eq!(after_download(true, true, true), AfterDownload::Keep);
    assert_eq!(after_download(false, false, false), AfterDownload::Keep);
    assert_eq!(after_download(false, false, true), AfterDownload::Keep);
    assert_eq!(after_download(false, true, false), AfterDownload::Keep);
    assert_eq!(after_download(false, true, true), AfterDownload::Keep);
}

#[test]
fn test_archive_type_of_takes_the_path_as_it_is() {
    assert_eq!(archive_type_of("x.tar.gz"), Some(ArchiveType::TarGz));
    assert_eq!(archive_type_of("x.zst"), Some(ArchiveType::Zst));
    assert_eq!(archive_type_of("X.TAR.GZ"), None);
    assert_eq!(archive_type_of("x.Zip"), None);
}

#[test]
fn test_plan_for_kind() {
    assert!(matches!(
        plan_for_kind(ArchiveType::TarXz, Some("a.tar.xz")),
        ExtractionPlan::UnpackTar(Codec::Xz)
    ));
    assert!(matches!(plan_for_kind(ArchiveType::Zip, None), ExtractionPlan::UnpackZip));
    match plan_for_kind(ArchiveType::Gz, Some("data.csv.gz")) {
        ExtractionPlan::Decompress(Codec::Gzip, name) => assert_eq!(name, "data.csv"),
        other => panic!("unexpected plan: {:?}", other),
    }
    match plan_for_kind(ArchiveType::Zst, Some("data.csv.gz")) {
        ExtractionPlan::Decompress(Codec::Zstd, name) => assert_eq!(name, "decompressed"),
        other => panic!("unexpected plan: {:?}", other),
    }
}
