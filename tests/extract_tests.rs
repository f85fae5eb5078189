use chml_cli::extract::{plan_zip, plan_zip_extraction, ExtractError, ExtractItem};
use std::io::{Cursor, Write};
use zip::write::SimpleFileOptions;
use zip::{ZipArchive, ZipWriter};

fn build_zip(dirs: &[&str], files: &[(&str, &[u8])]) -> Vec<u8> {
    let mut w = ZipWriter::new(Cursor::new(Vec::new()));
    let opts = SimpleFileOptions::default();
    for d in dirs {
        w.add_directory(*d, opts).unwrap();
    }
    for (name, data) in files {
        w.start_file(*name, opts).unwrap();
        w.write_all(data).unwrap();
    }
    w.finish().unwrap().into_inner()
}

fn describe(items: &[ExtractItem]) -> Vec<(bool, String, Vec<u8>)> {
    items
        .iter()
        .map(|it| match it {
            ExtractItem::Dir { path } => (true, path.clone(), Vec::new()),
            ExtractItem::File { path, data } => (false, path.clone(), data.clone()),
        })
        .collect()
}

#[test]
fn zip_round_trip_keeps_directory_and_bytes() {
    let content: &[u8] = b"hello\x00world\n";
    let bytes = build_zip(&["a/"], &[("a/b.txt", content)]);
    let items = plan_zip_extraction(bytes).ok().unwrap();
    let d = describe(&items);
    assert_eq!(d.len(), 2);
    assert_eq!(d[0], (true, "a/".to_string(), Vec::new()));
    assert_eq!(d[1], (false, "a/b.txt".to_string(), content.to_vec()));
}

#[test]
fn zip_entry_outside_destination_is_skipped() {
    let bytes = build_zip(&[], &[("../evil.txt", b"x"), ("ok.txt", b"y"), ("a/../../up.txt", b"z")]);
    let items = plan_zip_extraction(bytes).ok().unwrap();
    let d = describe(&items);
    assert_eq!(d, vec![(false, "ok.txt".to_string(), b"y".to_vec())]);
}

#[test]
fn zip_absolute_entry_is_skipped() {
    let bytes = build_zip(&[], &[("/etc/evil", b"x"), ("a/./b/../c.txt", b"k")]);
    let items = plan_zip_extraction(bytes).ok().unwrap();
    let d = describe(&items);
    assert_eq!(d, vec![(false, "a/./b/../c.txt".to_string(), b"k".to_vec())]);
}

#[test]
fn empty_zip_plans_nothing() {
    let bytes = build_zip(&[], &[]);
    let items = plan_zip_extraction(bytes).ok().unwrap();
    assert!(items.is_empty());
}

#[test]
fn corrupt_zip_is_an_open_error() {
    let r = plan_zip_extraction(b"not a zip archive at all".to_vec());
    assert!(matches!(r, Err(ExtractError::Open(_))));
}

#[test]
fn plan_zip_reads_an_opened_archive() {
    let bytes = build_zip(&["bin/"], &[("bin/frpc", b"\x7fELF"), ("README", b"r")]);
    let mut a = ZipArchive::new(Cursor::new(bytes)).unwrap();
    let items = plan_zip(&mut a).ok().unwrap();
    let d = describe(&items);
    assert_eq!(d.len(), 3);
    assert_eq!(d[0].1, "bin/");
    assert!(d[0].0);
    assert_eq!(d[1], (false, "bin/frpc".to_string(), b"\x7fELF".to_vec()));
    assert_eq!(d[2], (false, "README".to_string(), b"r".to_vec()));
    assert_eq!(a.len(), 3);
}

#[test]
fn lone_nested_file_keeps_its_bytes() {
    let bytes = build_zip(&[], &[("x/y/z.txt", b"zzz")]);
    let items = plan_zip_extraction(bytes).ok().unwrap();
    assert_eq!(describe(&items), vec![(false, "x/y/z.txt".to_string(), b"zzz".to_vec())]);
}

#[test]
fn lone_directory_entry_is_planned_as_directory() {
    let bytes = build_zip(&["a/"], &[]);
    let items = plan_zip_extraction(bytes).ok().unwrap();
    assert_eq!(describe(&items), vec![(true, "a/".to_string(), Vec::new())]);
}

#[test]
fn truncated_zip_is_an_open_error() {
    let mut bytes = build_zip(&[], &[("f.txt", b"data")]);
    bytes.truncate(bytes.len() - 10);
    assert!(matches!(plan_zip_extraction(bytes), Err(ExtractError::Open(_))));
}
