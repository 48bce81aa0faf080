use std::io::Cursor;
use std::io::Read;

use homework_backup::archive::{build_backup_archive, AttachmentFile};

fn attachment(name: &str, content: &[u8]) -> AttachmentFile {
    AttachmentFile {
        name: name.to_string(),
        content: content.to_vec(),
    }
}

fn read_entry(bytes: &[u8], entry_name: &str) -> Vec<u8> {
    let mut archive = zip::ZipArchive::new(Cursor::new(bytes.to_vec())).unwrap();
    let mut entry = archive.by_name(entry_name).unwrap();
    let mut content = Vec::new();
    entry.read_to_end(&mut content).unwrap();
    content
}

fn entry_names(bytes: &[u8]) -> Vec<String> {
    let archive = zip::ZipArchive::new(Cursor::new(bytes.to_vec())).unwrap();
    archive.file_names().map(|name| name.to_string()).collect()
}

#[test]
fn archive_mirrors_database_and_attachment_bytes() {
    let database = b"TESTDB".to_vec();
    let attachments = vec![attachment("photo.jpg", &[1, 2, 3, 4, 5, 6, 7, 8, 9, 10])];
    let bytes = build_backup_archive(&database, &attachments).unwrap();

    let database_entry = read_entry(&bytes, "database.sqlite");
    assert_eq!(database_entry.len(), 6);
    assert_eq!(database_entry, b"TESTDB");

    let attachment_entry = read_entry(&bytes, "attachments/photo.jpg");
    assert_eq!(attachment_entry.len(), 10);
    assert_eq!(attachment_entry, vec![1, 2, 3, 4, 5, 6, 7, 8, 9, 10]);
}

#[test]
fn archive_without_attachments_holds_only_the_snapshot_and_the_folder() {
    let database = vec![0u8, 255u8, 42u8];
    let bytes = build_backup_archive(&database, &Vec::new()).unwrap();
    let names = entry_names(&bytes);
    assert_eq!(names.len(), 2);
    assert!(names.contains(&"database.sqlite".to_string()));
    assert!(names.contains(&"attachments/".to_string()));
    assert_eq!(read_entry(&bytes, "database.sqlite"), database);
}

#[test]
fn archive_keeps_every_attachment_byte_for_byte() {
    let database = vec![9u8; 100];
    let attachments = vec![
        attachment("a.txt", b"first"),
        attachment("b.bin", &[0u8; 1000]),
        attachment("c", b""),
    ];
    let bytes = build_backup_archive(&database, &attachments).unwrap();
    let names = entry_names(&bytes);
    assert_eq!(names.len(), 5);
    assert_eq!(read_entry(&bytes, "attachments/a.txt"), b"first");
    assert_eq!(read_entry(&bytes, "attachments/b.bin"), vec![0u8; 1000]);
    assert_eq!(read_entry(&bytes, "attachments/c"), b"");
}

#[test]
fn archive_compresses_an_empty_database() {
    let bytes = build_backup_archive(&Vec::new(), &Vec::new()).unwrap();
    assert_eq!(read_entry(&bytes, "database.sqlite"), Vec::<u8>::new());
}
