use std::io::Write;

use launcher_core::extract::{extract_jar, ExtractError};

fn build_zip(dirs: &[&str], files: &[(&str, &[u8])]) -> Vec<u8> {
    let cursor = std::io::Cursor::new(Vec::new());
    let mut writer = zip::ZipWriter::new(cursor);
    let options = zip::write::SimpleFileOptions::default()
        .compression_method(zip::CompressionMethod::Stored);
    for d in dirs {
        writer.add_directory(d.to_string(), options).unwrap();
    }
    for (name, data) in files {
        writer.start_file(name.to_string(), options).unwrap();
        writer.write_all(data).unwrap();
    }
    writer.finish().unwrap().into_inner()
}

#[test]
fn extract_skips_meta_inf_and_flattens_paths() {
    let bytes = build_zip(
        &["natives", "natives/linux"],
        &[
            ("META-INF/MANIFEST.MF", b"Manifest-Version: 1.0\n"),
            ("natives/linux/libfoo.so", b"\x7fELF-foo"),
            ("top.dll", b"MZ-top"),
        ],
    );
    let files = extract_jar(bytes).unwrap();
    let names: Vec<&str> = files.iter().map(|f| f.name.as_str()).collect();
    assert_eq!(names, vec!["libfoo.so", "top.dll"]);
    for f in &files {
        assert!(!f.name.contains("META-INF"));
        assert!(!f.name.contains('/'));
    }
    assert_eq!(files[0].data, b"\x7fELF-foo");
    assert_eq!(files[1].data, b"MZ-top");
}

#[test]
fn extract_keeps_colliding_basenames_in_archive_order() {
    let bytes = build_zip(
        &[],
        &[("a/x.so", b"from-a"), ("b/x.so", b"from-b")],
    );
    let files = extract_jar(bytes).unwrap();
    assert_eq!(files.len(), 2);
    assert_eq!(files[0].name, "x.so");
    assert_eq!(files[0].data, b"from-a");
    assert_eq!(files[1].name, "x.so");
    assert_eq!(files[1].data, b"from-b");
}

#[test]
fn extract_reads_deflated_entries() {
    let cursor = std::io::Cursor::new(Vec::new());
    let mut writer = zip::ZipWriter::new(cursor);
    let options = zip::write::SimpleFileOptions::default()
        .compression_method(zip::CompressionMethod::Deflated);
    writer.start_file("n/compressed.so".to_string(), options).unwrap();
    let payload = vec![42u8; 4096];
    writer.write_all(&payload).unwrap();
    let bytes = writer.finish().unwrap().into_inner();
    let files = extract_jar(bytes).unwrap();
    assert_eq!(files.len(), 1);
    assert_eq!(files[0].name, "compressed.so");
    assert_eq!(files[0].data, payload);
}

#[test]
fn extract_twice_on_same_bytes_gives_same_files() {
    let bytes = build_zip(&[], &[("n/one.so", b"payload-1"), ("two.so", b"payload-2")]);
    let first = extract_jar(bytes.clone()).unwrap();
    let second = extract_jar(bytes).unwrap();
    assert_eq!(first.len(), second.len());
    for (a, b) in first.iter().zip(second.iter()) {
        assert_eq!(a.name, b.name);
        assert_eq!(a.data, b.data);
    }
}

#[test]
fn extract_rejects_bytes_that_are_no_archive() {
    let r = extract_jar(b"this is not a zip archive".to_vec());
    assert_eq!(r.unwrap_err(), ExtractError::BadArchive);
}

#[test]
fn extract_of_empty_archive_is_empty() {
    let bytes = build_zip(&[], &[]);
    let files = extract_jar(bytes).unwrap();
    assert_eq!(files.len(), 0);
}
