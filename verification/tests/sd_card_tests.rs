use std::collections::BTreeMap;

use embedded_sdmmc::ShortFileName;
use tembed_ui::sd_card::{
    ByteText, ListingModel, PathText, ReadModel,
    bytes_to_string, dir_entry_from_raw, file_exists, format_size, init_fs, join_path,
    list_directory, path_components, read_file, read_file_to_string, short_name_from_parts,
    short_name_to_string, sort_entries, split_path, write_file, DirEntryInfo, DummyTimeSource,
    FileSystem, SdError, ShortName,
};

/// A file system held in memory.
struct MemFs {
    dirs: BTreeMap<String, Vec<DirEntryInfo>>,
    files: BTreeMap<String, Vec<u8>>,
}

impl MemFs {
    fn new() -> Self {
        MemFs { dirs: BTreeMap::new(), files: BTreeMap::new() }
    }
}

impl FileSystem for MemFs {
    fn dir_listing(&self, _path: PathText) -> ListingModel {
        unreachable!("the library's proofs read this; it is never called")
    }

    fn file_contents(&self, _path: PathText) -> ReadModel {
        unreachable!("the library's proofs read this; it is never called")
    }

    fn write_outcome(&self, _path: PathText, _data: ByteText) -> Result<(), SdError> {
        unreachable!("the library's proofs read this; it is never called")
    }

    fn has_file(&self, _path: PathText) -> bool {
        unreachable!("the library's proofs read this; it is never called")
    }

    fn list_dir(&mut self, path: &str) -> Result<Vec<DirEntryInfo>, SdError> {
        self.dirs.get(path).cloned().ok_or(SdError::NotFound)
    }

    fn read_file(&mut self, path: &str) -> Result<Vec<u8>, SdError> {
        self.files.get(path).cloned().ok_or(SdError::NotFound)
    }

    fn write_file(&mut self, path: &str, data: &[u8]) -> Result<(), SdError> {
        self.files.insert(path.to_string(), data.to_vec());
        Ok(())
    }

    fn file_exists(&mut self, path: &str) -> bool {
        self.files.contains_key(path)
    }
}

fn entry(name: &str, is_dir: bool, size: u32) -> DirEntryInfo {
    DirEntryInfo { name: name.to_string(), short_name: name.to_uppercase(), is_dir, size }
}

/// What `{:.1}` of the `f32` quotient prints, as the firmware computes it.
fn reference_format_size(size: u32) -> String {
    if size < 1024 {
        format!("{}B", size)
    } else if size < 1024 * 1024 {
        format!("{:.1}K", size as f32 / 1024.0)
    } else {
        format!("{:.1}M", size as f32 / (1024.0 * 1024.0))
    }
}

#[test]
fn format_size_examples() {
    assert_eq!(format_size(0), "0B");
    assert_eq!(format_size(512), "512B");
    assert_eq!(format_size(1023), "1023B");
    assert_eq!(format_size(1024), "1.0K");
    assert_eq!(format_size(1536), "1.5K");
    assert_eq!(format_size(1048575), "1024.0K");
    assert_eq!(format_size(1048576), "1.0M");
    assert_eq!(format_size(2 * 1048576), "2.0M");
}

#[test]
fn format_size_matches_float_formatting_at_boundaries() {
    let mut sizes: Vec<u32> = (0..5000).collect();
    for k in 0..32u32 {
        let p = 1u64 << k;
        for d in [-2i64, -1, 0, 1, 2] {
            let v = p as i64 + d;
            if v >= 0 && v <= u32::MAX as i64 {
                sizes.push(v as u32);
            }
        }
    }
    for m in 1..4096u32 {
        // multiples of 1/20 KiB and of 1/20 MiB sit next to the rounding ties
        sizes.push(m * 1024 / 20);
        sizes.push(((m as u64 * 1048576) / 20).min(u32::MAX as u64) as u32);
        sizes.push((((m as u64 * 1048576) / 20) + 1).min(u32::MAX as u64) as u32);
        sizes.push((((m as u64 * 1048576) / 20).saturating_sub(1)).min(u32::MAX as u64) as u32);
    }
    sizes.push(u32::MAX);
    sizes.push(u32::MAX - 1);
    sizes.push(1310720);
    for s in sizes {
        assert_eq!(format_size(s), reference_format_size(s), "size {}", s);
    }
}

#[test]
fn format_size_matches_float_formatting_on_samples() {
    let mut x: u64 = 0x1234_5678;
    for _ in 0..200_000 {
        x = x.wrapping_mul(6364136223846793005).wrapping_add(1442695040888963407);
        let s = (x >> 32) as u32;
        let s = match (x >> 8) % 3 {
            0 => s,
            1 => s % (1 << 20),
            _ => s % (1 << 26),
        };
        assert_eq!(format_size(s), reference_format_size(s), "size {}", s);
    }
}

#[test]
fn split_path_examples() {
    assert_eq!(split_path("a/b/c.txt"), ("a/b".to_string(), "c.txt".to_string()));
    assert_eq!(split_path("file.txt"), (String::new(), "file.txt".to_string()));
    assert_eq!(split_path("/x"), (String::new(), "x".to_string()));
    assert_eq!(split_path("dir/"), ("dir".to_string(), String::new()));
    assert_eq!(split_path(""), (String::new(), String::new()));
}

#[test]
fn split_of_join_gives_back_its_parts() {
    for (dir, name) in [("", "A.TXT"), ("DOCS", "NOTES"), ("A/B", "C"), ("A", "")] {
        let p = join_path(dir, name);
        assert_eq!(split_path(&p), (dir.to_string(), name.to_string()));
    }
    assert_eq!(join_path("", "DOCS"), "DOCS");
    assert_eq!(join_path("DOCS", "OLD"), "DOCS/OLD");
}

#[test]
fn path_components_skip_empty_parts() {
    assert_eq!(path_components("a//b/"), vec!["a".to_string(), "b".to_string()]);
    assert_eq!(path_components(""), Vec::<String>::new());
    assert_eq!(path_components("/"), Vec::<String>::new());
    assert_eq!(path_components("DOCS/OLD"), vec!["DOCS".to_string(), "OLD".to_string()]);
}

#[test]
fn sort_entries_puts_directories_first_then_names() {
    let input = vec![
        entry("zeta.txt", false, 1),
        entry("music", true, 0),
        entry("alpha.txt", false, 2),
        entry("Docs", true, 0),
        entry("beta", false, 3),
    ];
    let out = sort_entries(input);
    let names: Vec<&str> = out.iter().map(|e| e.name.as_str()).collect();
    assert_eq!(names, vec!["Docs", "music", "alpha.txt", "beta", "zeta.txt"]);
}

#[test]
fn bytes_to_string_decodes_or_reports_read_error() {
    assert_eq!(bytes_to_string(Ok(b"hello".to_vec())).unwrap(), "hello");
    assert!(matches!(bytes_to_string(Ok(vec![0xff, 0xfe])), Err(SdError::ReadError)));
    assert!(matches!(bytes_to_string(Err(SdError::NotFound)), Err(SdError::NotFound)));
}

#[test]
fn access_without_file_system_is_not_initialized() {
    let mut fs: Option<MemFs> = None;
    assert!(matches!(list_directory(&mut fs, ""), Err(SdError::NotInitialized)));
    assert!(matches!(read_file(&mut fs, "A.TXT"), Err(SdError::NotInitialized)));
    assert!(matches!(read_file_to_string(&mut fs, "A.TXT"), Err(SdError::NotInitialized)));
    assert!(matches!(write_file(&mut fs, "A.TXT", b"x"), Err(SdError::NotInitialized)));
    assert!(!file_exists(&mut fs, "A.TXT"));
}

#[test]
fn access_goes_to_the_installed_file_system() {
    let mut fs: Option<MemFs> = None;
    let mut mem = MemFs::new();
    mem.dirs.insert(String::new(), vec![entry("a.txt", false, 5)]);
    init_fs(&mut fs, mem);
    assert_eq!(list_directory(&mut fs, "").unwrap().len(), 1);
    assert!(!file_exists(&mut fs, "NOTES.TXT"));
    write_file(&mut fs, "NOTES.TXT", b"hi there").unwrap();
    assert!(file_exists(&mut fs, "NOTES.TXT"));
    assert_eq!(read_file(&mut fs, "NOTES.TXT").unwrap(), b"hi there".to_vec());
    assert_eq!(read_file_to_string(&mut fs, "NOTES.TXT").unwrap(), "hi there");
    assert!(matches!(read_file(&mut fs, "MISSING"), Err(SdError::NotFound)));
}

#[test]
fn read_file_to_string_rejects_bad_utf8() {
    let mut mem = MemFs::new();
    mem.files.insert("BIN".to_string(), vec![0xc3, 0x28]);
    assert!(matches!(mem.read_file_to_string("BIN"), Err(SdError::ReadError)));
}

#[test]
fn raw_entries_skip_dot_records_and_prefer_long_names() {
    assert!(dir_entry_from_raw(None, ".".to_string(), true, 0).is_none());
    assert!(dir_entry_from_raw(Some("x".to_string()), "..".to_string(), true, 0).is_none());
    let e = dir_entry_from_raw(Some("Long Name.txt".to_string()), "LONGNA~1.TXT".to_string(), false, 42)
        .unwrap();
    assert_eq!(e.name, "Long Name.txt");
    assert_eq!(e.short_name, "LONGNA~1.TXT");
    assert!(!e.is_dir);
    assert_eq!(e.size, 42);
    let e = dir_entry_from_raw(None, "DOCS".to_string(), true, 0).unwrap();
    assert_eq!(e.name, "DOCS");
    assert!(e.is_dir);
}

#[test]
fn short_names_read_as_base_dot_extension() {
    let card = |n: &ShortFileName| ShortName { base: n.base_name().to_vec(), ext: n.extension().to_vec() };
    let n = ShortFileName::create_from_str("README.TXT").unwrap();
    assert_eq!(short_name_to_string(&card(&n)), "README.TXT");
    let n = ShortFileName::create_from_str("DOCS").unwrap();
    assert_eq!(short_name_to_string(&card(&n)), "DOCS");
    let n = ShortFileName::create_from_str("a.b").unwrap();
    assert_eq!(short_name_to_string(&card(&n)), "A.B");
    assert_eq!(short_name_to_string(&card(&ShortFileName::parent_dir())), "..");
    let raw = ShortName { base: vec![0xc9, b'T', b'E'], ext: b"TXT".to_vec() };
    assert_eq!(short_name_to_string(&raw), "???.TXT");
    assert_eq!(short_name_from_parts(b"FOO", b""), "FOO");
    assert_eq!(short_name_from_parts(&[0xff], b"TXT"), "???.TXT");
    assert_eq!(short_name_from_parts(b"FOO", &[0xff]), "FOO");
}

#[test]
fn error_text_is_the_debug_name() {
    for e in [
        SdError::NotInitialized,
        SdError::NoDirectory,
        SdError::NotFound,
        SdError::ReadError,
        SdError::WriteError,
        SdError::SdCardError,
        SdError::FilenameError,
        SdError::DirTooDeep,
        SdError::FileTooLarge,
    ] {
        assert_eq!(e.debug_name(), format!("{:?}", e));
    }
}

#[test]
fn dummy_time_source_gives_the_epoch() {
    let t = DummyTimeSource.get_timestamp();
    assert_eq!(
        (t.year_since_1970, t.zero_indexed_month, t.zero_indexed_day, t.hours, t.minutes, t.seconds),
        (0, 0, 0, 0, 0, 0)
    );
}

#[test]
fn sort_entries_keeps_the_order_of_alike_entries() {
    let input = vec![
        entry("same", false, 1),
        entry("dir", true, 0),
        DirEntryInfo { name: "same".to_string(), short_name: "SAME~2".to_string(), is_dir: false, size: 2 },
        DirEntryInfo { name: "same".to_string(), short_name: "SAME~3".to_string(), is_dir: false, size: 3 },
    ];
    let out = sort_entries(input);
    let keys: Vec<(&str, u32)> = out.iter().map(|e| (e.name.as_str(), e.size)).collect();
    assert_eq!(keys, vec![("dir", 0), ("same", 1), ("same", 2), ("same", 3)]);
}
