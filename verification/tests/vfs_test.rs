use laskugeneraattori::FileEntry;
use laskugeneraattori::Vfs;
use laskugeneraattori::VfsError;

#[test]
fn insert_then_resolve() {
    let mut vfs = Vfs::new();
    vfs.insert("/a.png".to_string(), vec![1, 2, 3]);
    assert_eq!(vfs.get(&"/a.png".to_string()), Some(&vec![1, 2, 3]));
    assert_eq!(vfs.get(&"/missing".to_string()), None);
}

#[test]
fn duplicate_insert_overwrites() {
    let mut vfs = Vfs::new();
    vfs.insert("/attachments/test.jpg".to_string(), vec![1, 1, 1]);
    vfs.insert("/attachments/test.jpg".to_string(), vec![2, 2]);
    assert_eq!(
        vfs.get(&"/attachments/test.jpg".to_string()),
        Some(&vec![2, 2])
    );
}

#[test]
fn source_text_decodes_utf8() {
    let mut vfs = Vfs::new();
    vfs.insert("/t.typ".to_string(), b"hello world".to_vec());
    assert_eq!(vfs.source(&"/t.typ".to_string()), Ok("hello world".to_string()));
}

#[test]
fn source_text_strips_byte_order_mark() {
    let mut vfs = Vfs::new();
    let mut bytes = vec![0xef, 0xbb, 0xbf];
    bytes.extend_from_slice(b"x = 1");
    vfs.insert("/t.typ".to_string(), bytes);
    assert_eq!(vfs.source(&"/t.typ".to_string()), Ok("x = 1".to_string()));
}

#[test]
fn source_text_rejects_invalid_utf8() {
    let mut vfs = Vfs::new();
    vfs.insert("/bin".to_string(), vec![0xff, 0xfe, 0x00]);
    assert_eq!(
        vfs.source(&"/bin".to_string()),
        Err(VfsError::InvalidEncoding)
    );
}

#[test]
fn source_text_of_missing_path_is_not_found() {
    let mut vfs = Vfs::new();
    assert_eq!(
        vfs.source(&"/none".to_string()),
        Err(VfsError::NotFound("/none".to_string()))
    );
}

#[test]
fn source_text_is_stable_across_requests() {
    let mut vfs = Vfs::new();
    vfs.insert("/t.typ".to_string(), b"stable".to_vec());
    let first = vfs.source(&"/t.typ".to_string());
    let second = vfs.source(&"/t.typ".to_string());
    assert_eq!(first, Ok("stable".to_string()));
    assert_eq!(first, second);
}

#[test]
fn file_entry_caches_decoded_source() {
    let mut bom = vec![0xef, 0xbb, 0xbf];
    bom.extend_from_slice("terve".as_bytes());
    let mut entry = FileEntry::new(bom);
    assert_eq!(entry.source(), Ok("terve".to_string()));
    assert_eq!(entry.source(), Ok("terve".to_string()));
}
