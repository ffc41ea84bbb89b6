use to_pdf::session::{FileDecision, Session, SourceDecision};
use to_pdf::vpath::{FileKey, PackageKey};
use typst::syntax::{FileId, VirtualPath};

fn main_id() -> FileId {
    FileId::new(None, VirtualPath::new("/main.typ"))
}

#[test]
fn main_source_is_served_verbatim() {
    let s = Session::new(main_id(), "= Hello".to_string(), None, 0);
    let main = s.main_source();
    assert_eq!(main.text(), "= Hello");
    assert_eq!(main.id(), main_id());
}

#[test]
fn main_source_query_is_answered_from_the_session() {
    let s = Session::new(main_id(), "= Hello".to_string(), None, 0);
    let k = FileKey { package: None, vpath: b"/main.typ".to_vec() };
    match s.decide_source(&k) {
        SourceDecision::Main(source) => {
            assert_eq!(source.text(), "= Hello");
            assert_eq!(source.id(), main_id());
        }
        _ => panic!("the reserved main path must come from the session"),
    }
}

#[test]
fn data_path_source_query_is_refused_without_a_read() {
    let s = Session::new(main_id(), String::new(), None, 0);
    let k = FileKey { package: None, vpath: b"/main.json".to_vec() };
    assert!(matches!(s.decide_source(&k), SourceDecision::NotASource));
}

#[test]
fn other_source_queries_are_delegated() {
    let s = Session::new(main_id(), String::new(), None, 0);
    let k = FileKey { package: None, vpath: b"/lib.typ".to_vec() };
    assert!(matches!(s.decide_source(&k), SourceDecision::Delegate));
    // a package-qualified main path is not the reserved one
    let kp = FileKey {
        package: Some(PackageKey {
            namespace: b"preview".to_vec(),
            name: b"p".to_vec(),
            major: 0,
            minor: 1,
            patch: 0,
        }),
        vpath: b"/main.typ".to_vec(),
    };
    assert!(matches!(s.decide_source(&kp), SourceDecision::Delegate));
}

#[test]
fn injected_data_is_returned_exactly() {
    let payload = br#"{"name":"x"}"#.to_vec();
    let s = Session::new(main_id(), String::new(), Some(payload.clone()), 0);
    let k = FileKey { package: None, vpath: b"/main.json".to_vec() };
    match s.decide_file(&k) {
        FileDecision::Injected(b) => assert_eq!(b, payload),
        FileDecision::Delegate => panic!("injected data must come from the session"),
    }
}

#[test]
fn absent_data_defaults_to_empty_object() {
    let s = Session::new(main_id(), String::new(), None, 0);
    let k = FileKey { package: None, vpath: b"/main.json".to_vec() };
    match s.decide_file(&k) {
        FileDecision::Injected(b) => assert_eq!(b, b"{}".to_vec()),
        FileDecision::Delegate => panic!("injected data must come from the session"),
    }
}

#[test]
fn other_paths_are_delegated() {
    let s = Session::new(main_id(), String::new(), None, 0);
    let k = FileKey { package: None, vpath: b"/other.json".to_vec() };
    assert!(matches!(s.decide_file(&k), FileDecision::Delegate));
}

#[test]
fn packaged_data_path_is_delegated() {
    // only the package-less reserved path is injected
    let s = Session::new(main_id(), String::new(), None, 0);
    let k = FileKey {
        package: Some(PackageKey {
            namespace: b"preview".to_vec(),
            name: b"p".to_vec(),
            major: 0,
            minor: 1,
            patch: 0,
        }),
        vpath: b"/main.json".to_vec(),
    };
    assert!(matches!(s.decide_file(&k), FileDecision::Delegate));
}

#[test]
fn session_today_uses_reference_instant() {
    // 2024-03-10T23:30:00Z
    let s = Session::new(main_id(), String::new(), None, 1_710_113_400);
    let d0 = s.today(None).unwrap();
    assert_eq!((d0.year, d0.month, d0.day), (2024, 3, 10));
    let d1 = s.today(Some(1)).unwrap();
    assert_eq!((d1.year, d1.month, d1.day), (2024, 3, 11));
    assert!(s.today(Some(40)).is_none());
}
