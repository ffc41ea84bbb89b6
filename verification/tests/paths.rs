use to_pdf::err::FileError;
use to_pdf::vpath::{resolve_path, FileKey, PackageKey};

#[test]
fn escape_is_denied() {
    let r = resolve_path(&b"/../../etc/passwd".to_vec());
    assert!(matches!(r, Err(FileError::AccessDenied)));
}

#[test]
fn escape_after_descend_is_denied() {
    let r = resolve_path(&b"/a/../../x".to_vec());
    assert!(matches!(r, Err(FileError::AccessDenied)));
}

#[test]
fn plain_path_resolves() {
    let r = resolve_path(&b"/main.typ".to_vec()).unwrap();
    assert_eq!(r, b"main.typ".to_vec());
}

#[test]
fn dots_and_doubles_are_dropped() {
    let r = resolve_path(&b"/a/./b//c/../d".to_vec()).unwrap();
    assert_eq!(r, b"a/b/d".to_vec());
}

#[test]
fn parent_within_root_is_fine() {
    let r = resolve_path(&b"/a/b/../c".to_vec()).unwrap();
    assert_eq!(r, b"a/c".to_vec());
}

#[test]
fn empty_path_resolves_to_root() {
    let r = resolve_path(&b"/".to_vec()).unwrap();
    assert_eq!(r, b"".to_vec());
}

#[test]
fn keys_compare_by_package_and_path() {
    let a = FileKey { package: None, vpath: b"/x.typ".to_vec() };
    let b = FileKey { package: None, vpath: b"/x.typ".to_vec() };
    let c = FileKey { package: None, vpath: b"/y.typ".to_vec() };
    let d = FileKey {
        package: Some(PackageKey {
            namespace: b"preview".to_vec(),
            name: b"example".to_vec(),
            major: 1,
            minor: 2,
            patch: 3,
        }),
        vpath: b"/x.typ".to_vec(),
    };
    assert!(a.matches(&b));
    assert!(!a.matches(&c));
    assert!(!a.matches(&d));
    assert!(d.matches(&d.dup()));
}
