use rms_check::{select_pack_files, to_chardet_string, FileId, PackError, RMSFile, ZipRmsError};
use std::io::{Cursor, Write};
use zip::write::FileOptions;
use zip::{CompressionMethod, ZipWriter};

fn archive(entries: &[(&str, &[u8])]) -> Vec<u8> {
    let mut writer = ZipWriter::new(Cursor::new(Vec::new()));
    let options = FileOptions::default().compression_method(CompressionMethod::Stored);
    for (name, bytes) in entries {
        writer.start_file(*name, options).unwrap();
        writer.write_all(bytes).unwrap();
    }
    writer.finish().unwrap().into_inner()
}

#[test]
fn utf8_bytes_decode_as_utf8() {
    assert_eq!(to_chardet_string("café <PLAYER_SETUP>".as_bytes()), "café <PLAYER_SETUP>");
}

#[test]
fn latin1_bytes_are_detected() {
    let bytes = b"/* Cette carte est tr\xe8s belle, avec une for\xeat \xe0 l'\xe9t\xe9 et des \xeeles. Voil\xe0 la derni\xe8re version, cr\xe9\xe9e pour l'\xe9quipe. */";
    let text = to_chardet_string(bytes);
    assert!(text.contains('\u{e8}'));
    assert!(text.starts_with("/* Cette carte est tr"));
}

#[test]
fn zip_rms_puts_the_script_first() {
    let bytes = archive(&[
        ("helpers.inc", b"#const A 1"),
        ("ZR@map.rms", b"<PLAYER_SETUP>"),
        ("readme.txt", b"hello"),
    ]);
    let file = RMSFile::from_zip_rms("ZR@map.zip", &bytes).unwrap();
    assert_eq!(file.main_source(), "<PLAYER_SETUP>");
    assert_eq!(file.name(FileId::new(0)), "ZR@map.rms");
    assert_eq!(file.find_file_source("helpers.inc"), Some("#const A 1"));
    assert_eq!(file.find_file_source("readme.txt"), None);
}

#[test]
fn zip_rms_rejects_other_bytes() {
    assert_eq!(
        RMSFile::from_zip_rms("ZR@map.zip", b"<PLAYER_SETUP>").err(),
        Some(ZipRmsError::NotAnArchive)
    );
}

#[test]
fn zip_rms_without_a_script() {
    let bytes = archive(&[("readme.txt", b"hello")]);
    let file = RMSFile::from_zip_rms("ZR@map.zip", &bytes).unwrap();
    assert_eq!(file.file_count(), 3);
    assert_eq!(file.name(FileId::new(0)), "random_map.def");
    assert_eq!(file.main_source(), "");
}

#[test]
fn from_bytes_reads_plain_scripts() {
    let file = RMSFile::from_bytes("maps/land.rms", "land.rms", b"<LAND_GENERATION>").unwrap();
    assert_eq!(file.main_source(), "<LAND_GENERATION>");
    assert_eq!(file.name(FileId::new(0)), "maps/land.rms");
}

#[test]
fn from_bytes_reads_zr_maps() {
    let bytes = archive(&[("ZR@land.rms", b"<LAND_GENERATION>")]);
    let file = RMSFile::from_bytes("maps/ZR@land.rms", "ZR@land.rms", &bytes).unwrap();
    assert_eq!(file.main_source(), "<LAND_GENERATION>");
    assert!(file.is_zip_rms());
}

#[test]
fn unpacked_files_keep_everything() {
    let file = RMSFile::from_unpacked_files(vec![
        ("dir/a.inc".to_string(), b"#const A 1".to_vec()),
        ("dir/notes.txt".to_string(), b"notes".to_vec()),
        ("dir/ZR@b.rms".to_string(), b"<PLAYER_SETUP>".to_vec()),
    ])
    .unwrap();
    assert_eq!(file.main_source(), "<PLAYER_SETUP>");
    assert_eq!(file.find_file_source("dir/notes.txt"), Some("notes"));
    assert_eq!(file.find_file_source("dir/a.inc"), Some("#const A 1"));
    assert_eq!(RMSFile::from_unpacked_files(vec![]).unwrap().file_count(), 3);
}

#[test]
fn pack_selects_map_files() {
    let entries = vec![
        ("rms".to_string(), true),
        ("txt".to_string(), true),
        ("inc".to_string(), true),
        ("slp".to_string(), false),
        ("scx".to_string(), true),
        ("".to_string(), true),
    ];
    assert_eq!(select_pack_files(&entries), Ok(vec![0, 2, 4]));
}

#[test]
fn pack_allows_one_script() {
    let entries = vec![("rms".to_string(), true), ("rms".to_string(), true)];
    assert_eq!(select_pack_files(&entries), Err(PackError::MultipleScripts));
}

#[test]
fn escape_bytes_with_nbsp_read_lossily() {
    assert_eq!(to_chardet_string(&[0x1B, 0xA0]), "\u{1b}\u{fffd}");
    assert_eq!(to_chardet_string(&[b'a', 0x1B, b' ', 0xA0, b'b']), "a\u{1b} \u{fffd}b");
}
