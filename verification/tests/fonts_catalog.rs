use to_pdf::fonts::{build_catalog, FaceEntry, FontSlot};

fn real_font() -> Vec<u8> {
    typst_assets::fonts().next().expect("embedded fonts present").to_vec()
}

#[test]
fn corrupt_face_is_dropped_without_failing() {
    let faces = vec![FaceEntry {
        path: b"/bad.ttf".to_vec(),
        index: 0,
        data: vec![0, 1, 2, 3],
    }];
    let catalog = build_catalog(faces);
    assert_eq!(catalog.slots.len(), 0);
}

#[test]
fn one_valid_and_one_corrupt_face_yield_one_slot() {
    let faces = vec![
        FaceEntry { path: b"/good.ttf".to_vec(), index: 0, data: real_font() },
        FaceEntry { path: b"/bad.ttf".to_vec(), index: 0, data: b"not a font".to_vec() },
    ];
    let catalog = build_catalog(faces);
    assert_eq!(catalog.slots.len(), 1);
    assert_eq!(catalog.slots[0].path, b"/good.ttf".to_vec());
}

#[test]
fn slot_initializes_once_and_memoizes() {
    let mut slot = FontSlot::new(b"/good.ttf".to_vec(), 0);
    assert!(slot.needs_load());
    let first = slot.init(Some(real_font()));
    assert!(first.is_some());
    assert!(!slot.needs_load());
    // later calls return the memo, whatever is passed: no disk is touched
    let second = slot.init(None);
    assert!(second.is_some());
}

#[test]
fn unreadable_font_degrades_to_absent() {
    let mut slot = FontSlot::new(b"/gone.ttf".to_vec(), 0);
    assert!(slot.init(None).is_none());
    // the failure is memoized as "no font at this slot"
    assert!(!slot.needs_load());
    assert!(slot.init(Some(real_font())).is_none());
}

#[test]
fn corrupt_bytes_degrade_to_absent() {
    let mut slot = FontSlot::new(b"/bad.ttf".to_vec(), 0);
    assert!(slot.init(Some(vec![9, 9, 9])).is_none());
}
