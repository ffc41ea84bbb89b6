use to_pdf::cache::FileCache;
use to_pdf::err::FileError;
use to_pdf::vpath::FileKey;
use typst::syntax::{FileId, VirtualPath};

fn key(path: &str) -> FileKey {
    FileKey { package: None, vpath: path.as_bytes().to_vec() }
}

fn id(path: &str) -> FileId {
    FileId::new(None, VirtualPath::new(path))
}

#[test]
fn first_read_decodes_then_identical_content_reuses() {
    let mut cache = FileCache::new();
    cache.begin_pass();
    let k = key("/a.typ");
    let (v1, decoded1) = cache.source_update(&k, id("/a.typ"), Ok(b"hello".to_vec()));
    assert!(decoded1);
    let s1 = v1.unwrap();
    assert_eq!(s1.text(), "hello");
    assert_eq!(s1.id(), id("/a.typ"));
    // a later pass with byte-identical content: same value, no re-decode
    cache.begin_pass();
    assert!(cache.source_cached(&k).is_none());
    let (v2, decoded2) = cache.source_update(&k, id("/a.typ"), Ok(b"hello".to_vec()));
    assert!(!decoded2);
    assert_eq!(v2.unwrap().text(), "hello");
}

#[test]
fn within_pass_lookup_short_circuits() {
    let mut cache = FileCache::new();
    cache.begin_pass();
    let k = key("/b.typ");
    // the first consultation of a pass never answers from the memo
    assert!(cache.source_cached(&k).is_none());
    let _ = cache.source_update(&k, id("/b.typ"), Ok(b"one".to_vec()));
    // the second consultation of the same pass answers without a read
    let hit = cache.source_cached(&k).unwrap();
    assert_eq!(hit.unwrap().text(), "one");
}

#[test]
fn changed_content_is_redecoded() {
    let mut cache = FileCache::new();
    cache.begin_pass();
    let k = key("/c.typ");
    let _ = cache.source_update(&k, id("/c.typ"), Ok(b"old text".to_vec()));
    cache.begin_pass();
    let (v, decoded) = cache.source_update(&k, id("/c.typ"), Ok(b"new text".to_vec()));
    assert!(decoded);
    let s = v.unwrap();
    assert_eq!(s.text(), "new text");
    // the previous source was edited in place and keeps its identifier
    assert_eq!(s.id(), id("/c.typ"));
}

#[test]
fn byte_order_mark_is_stripped() {
    let mut cache = FileCache::new();
    cache.begin_pass();
    let k = key("/d.typ");
    let mut raw = vec![0xef, 0xbb, 0xbf];
    raw.extend_from_slice(b"hi");
    let (v, _) = cache.source_update(&k, id("/d.typ"), Ok(raw));
    assert_eq!(v.unwrap().text(), "hi");
}

#[test]
fn invalid_utf8_is_a_decode_error() {
    let mut cache = FileCache::new();
    cache.begin_pass();
    let k = key("/e.typ");
    let (v, _) = cache.source_update(&k, id("/e.typ"), Ok(vec![0xff, 0xfe]));
    assert!(matches!(v, Err(FileError::InvalidUtf8)));
}

#[test]
fn persistent_errors_are_cached_too() {
    let mut cache = FileCache::new();
    cache.begin_pass();
    let k = key("/f.typ");
    let e = FileError::NotFound(b"f.typ".to_vec());
    let (v1, d1) = cache.source_update(&k, id("/f.typ"), Err(e.dup()));
    assert!(d1);
    assert!(matches!(v1, Err(FileError::NotFound(_))));
    cache.begin_pass();
    let (v2, d2) = cache.source_update(&k, id("/f.typ"), Err(e));
    assert!(!d2);
    assert!(matches!(v2, Err(FileError::NotFound(_))));
}

#[test]
fn bytes_cell_returns_raw_bytes_and_reuses() {
    let mut cache = FileCache::new();
    cache.begin_pass();
    let k = key("/img.png");
    let (v1, d1) = cache.bytes_update(&k, Ok(vec![0xff, 2, 3]));
    assert!(d1);
    assert_eq!(v1.unwrap(), vec![0xff, 2, 3]);
    cache.begin_pass();
    let (v2, d2) = cache.bytes_update(&k, Ok(vec![0xff, 2, 3]));
    assert!(!d2);
    assert_eq!(v2.unwrap(), vec![0xff, 2, 3]);
    // the two cells of one slot are independent
    cache.begin_pass();
    let (v3, d3) = cache.source_update(&k, id("/img.png"), Ok(vec![0xff, 2, 3]));
    assert!(d3);
    assert!(matches!(v3, Err(FileError::InvalidUtf8)));
}

#[test]
fn distinct_keys_have_distinct_slots() {
    let mut cache = FileCache::new();
    cache.begin_pass();
    let ka = key("/one.typ");
    let kb = key("/two.typ");
    let (va, _) = cache.source_update(&ka, id("/one.typ"), Ok(b"one".to_vec()));
    let (vb, _) = cache.source_update(&kb, id("/two.typ"), Ok(b"two".to_vec()));
    assert_eq!(va.unwrap().text(), "one");
    assert_eq!(vb.unwrap().text(), "two");
    let hit = cache.source_cached(&ka).unwrap();
    assert_eq!(hit.unwrap().text(), "one");
}

#[test]
fn resolver_errors_pass_through_the_cache() {
    let mut cache = FileCache::new();
    cache.begin_pass();
    let kd = key("/adir");
    let (v, _) = cache.bytes_update(&kd, Err(FileError::IsDirectory));
    assert!(matches!(v, Err(FileError::IsDirectory)));
    let kp = key("/pkg/file.typ");
    let (v, _) = cache.bytes_update(&kp, Err(FileError::Package(b"fetch failed".to_vec())));
    match v {
        Err(FileError::Package(m)) => assert_eq!(m, b"fetch failed".to_vec()),
        _ => panic!("the package-fetch error must be propagated verbatim"),
    }
}
