//! The font catalog: a metadata index over discovered font faces, and
//! lazily initialized slots for the usable fonts themselves.
//!
//! Face discovery walks directories and the system font registry, which is
//! I/O and happens outside this crate; the catalog is built here from the
//! discovered faces' path, collection index and raw data. A face whose
//! metadata does not parse is dropped — the build itself never fails.

use vstd::prelude::*;

verus! {

#[verifier::external_type_specification]
#[verifier::external_body]
pub struct ExFont(typst::text::Font);

#[verifier::external_type_specification]
#[verifier::external_body]
pub struct ExFontInfo(typst::text::FontInfo);

#[verifier::external_type_specification]
#[verifier::external_body]
pub struct ExFontBook(typst::text::FontBook);

/// The face metadata that parses from the given data at the given
/// collection index, if any — a function of the bytes and index alone.
pub uninterp spec fn font_info_of(data: Seq<u8>, index: u32) -> Option<typst::text::FontInfo>;

/// Whether face metadata parses from the given data at the given
/// collection index.
pub open spec fn font_info_ok(data: Seq<u8>, index: u32) -> bool {
    font_info_of(data, index) is Some
}

/// The metadata entries a font book holds, in registration order.
pub uninterp spec fn book_infos(b: typst::text::FontBook) -> Seq<typst::text::FontInfo>;

/// Whether a usable font constructs from the given data at the given
/// collection index — a function of the bytes and index alone.
pub uninterp spec fn font_ok(data: Seq<u8>, index: u32) -> bool;

/// Relies on `typst::text::FontInfo::new`: metadata for the face at the
/// collection index, parsed from the raw data alone.
#[verifier::external_body]
fn font_info_new(data: &Vec<u8>, index: u32) -> (r: Option<typst::text::FontInfo>)
    ensures
        r == font_info_of(data@, index),
{
    typst::text::FontInfo::new(data.as_slice(), index)
}

/// Relies on `typst::text::FontBook::new`: an empty metadata index.
#[verifier::external_body]
fn font_book_new() -> (r: typst::text::FontBook)
    ensures
        book_infos(r) == Seq::<typst::text::FontInfo>::empty(),
{
    typst::text::FontBook::new()
}

/// Relies on `typst::text::FontBook::push`: appends face metadata to the
/// index; earlier registrations take priority on conflicting entries.
#[verifier::external_body]
fn font_book_push(book: &mut typst::text::FontBook, info: typst::text::FontInfo)
    ensures
        book_infos(*final(book)) == book_infos(*old(book)).push(info),
{
    book.push(info);
}

/// Relies on `typst::text::Font::new`: constructs the font at the
/// collection index from the raw bytes alone, or nothing when they are
/// unusable.
#[verifier::external_body]
fn font_new(data: Vec<u8>, index: u32) -> (r: Option<typst::text::Font>)
    ensures
        r is Some <==> font_ok(data@, index),
{
    typst::text::Font::new(data.into(), index)
}

/// Relies on `typst::text::Font::clone`: a cheap reference-counted copy of
/// the same font.
#[verifier::external_body]
fn font_clone(f: &typst::text::Font) -> (r: typst::text::Font)
    ensures
        r == *f,
{
    f.clone()
}

/// One discovered font face: where it lives, its index within a collection
/// file, and its raw data.
pub struct FaceEntry {
    pub path: Vec<u8>,
    pub index: u32,
    pub data: Vec<u8>,
}

/// A font's location and, once first requested, the memoized outcome of
/// constructing it.
pub struct FontSlot {
    pub path: Vec<u8>,
    pub index: u32,
    pub font: Option<Option<typst::text::Font>>,
}

impl FontSlot {
    /// Whether the construction outcome has been memoized.
    pub open spec fn initialized(self) -> bool {
        self.font is Some
    }

    /// A slot that has not yet touched its file.
    pub fn new(path: Vec<u8>, index: u32) -> (r: FontSlot)
        ensures
            r.path@ == path@,
            r.index == index,
            !r.initialized(),
    {
        FontSlot { path, index, font: None }
    }

    /// Whether the next `init` still needs the file's bytes from disk.
    pub fn needs_load(&self) -> (r: bool)
        ensures
            r == !self.initialized(),
    {
        self.font.is_none()
    }

    /// At-most-once initialization: the first call constructs the font
    /// from the read bytes (or memoizes "unusable" when the read failed)
    /// and memoizes the outcome forever; every later call returns the
    /// memo unchanged, whatever is passed, and touches no disk.
    pub fn init(&mut self, read: Option<Vec<u8>>) -> (r: Option<typst::text::Font>)
        ensures
            final(self).initialized(),
            final(self).path == old(self).path,
            final(self).index == old(self).index,
            old(self).initialized() ==> final(self).font == old(self).font && Some(r) == old(
                self,
            ).font,
            !old(self).initialized() ==> final(self).font == Some(r) && (match read {
                Some(data) => r is Some <==> font_ok(data@, old(self).index),
                None => r is None,
            }),
    {
        match &self.font {
            Option::Some(memo) => {
                match memo {
                    Option::Some(f) => Some(font_clone(f)),
                    Option::None => None,
                }
            },
            Option::None => {
                let built: Option<typst::text::Font> = match read {
                    Option::Some(data) => font_new(data, self.index),
                    Option::None => None,
                };
                let out = match &built {
                    Option::Some(f) => Some(font_clone(f)),
                    Option::None => None,
                };
                self.font = Some(built);
                out
            },
        }
    }
}

/// The faces that the catalog keeps: path and index of each face whose
/// metadata parses, in discovery order.
pub open spec fn kept(faces: Seq<FaceEntry>) -> Seq<(Seq<u8>, u32)>
    decreases faces.len(),
{
    if faces.len() == 0 {
        Seq::empty()
    } else {
        let init = kept(faces.drop_last());
        let f = faces.last();
        if font_info_ok(f.data@, f.index) {
            init.push((f.path@, f.index))
        } else {
            init
        }
    }
}

/// The metadata of the kept faces, in the same order.
pub open spec fn kept_infos(faces: Seq<FaceEntry>) -> Seq<typst::text::FontInfo>
    decreases faces.len(),
{
    if faces.len() == 0 {
        Seq::empty()
    } else {
        let init = kept_infos(faces.drop_last());
        let f = faces.last();
        match font_info_of(f.data@, f.index) {
            Some(info) => init.push(info),
            None => init,
        }
    }
}

/// The index and the slots stay aligned: there are as many registered
/// metadata entries as slots, the i-th belonging to the i-th slot's face.
pub proof fn lemma_kept_aligned(faces: Seq<FaceEntry>)
    ensures
        kept(faces).len() == kept_infos(faces).len(),
    decreases faces.len(),
{
    if faces.len() > 0 {
        lemma_kept_aligned(faces.drop_last());
    }
}

/// The metadata index over the usable faces, and one lazy slot per face.
pub struct FontCatalog {
    pub book: typst::text::FontBook,
    pub slots: Vec<FontSlot>,
}

/// Builds the catalog from the discovered faces: each face whose metadata
/// parses is registered in the index and gets an uninitialized slot, in
/// discovery order, so index entries and slots stay aligned; the others
/// are dropped. The build never fails.
pub fn build_catalog(faces: Vec<FaceEntry>) -> (r: FontCatalog)
    ensures
        r.slots@.map_values(|s: FontSlot| (s.path@, s.index)) == kept(faces@),
        book_infos(r.book) == kept_infos(faces@),
        book_infos(r.book).len() == r.slots@.len(),
        forall|i: int| 0 <= i < r.slots@.len() ==> !(#[trigger] r.slots@[i]).initialized(),
{
    let mut book = font_book_new();
    let mut slots: Vec<FontSlot> = Vec::new();
    let mut i: usize = 0;
    proof {
        assert(slots@.map_values(|s: FontSlot| (s.path@, s.index)) =~= kept(faces@.take(0)));
        assert(book_infos(book) =~= kept_infos(faces@.take(0)));
    }
    while i < faces.len()
        invariant
            i <= faces@.len(),
            slots@.map_values(|s: FontSlot| (s.path@, s.index)) == kept(faces@.take(i as int)),
            book_infos(book) == kept_infos(faces@.take(i as int)),
            forall|j: int| 0 <= j < slots@.len() ==> !(#[trigger] slots@[j]).initialized(),
        decreases faces@.len() - i,
    {
        let face = &faces[i];
        proof {
            assert(faces@.take(i + 1).drop_last() =~= faces@.take(i as int));
            assert(faces@.take(i + 1).last() == faces@[i as int]);
        }
        match font_info_new(&face.data, face.index) {
            Option::Some(info) => {
                font_book_push(&mut book, info);
                slots.push(FontSlot::new(crate::bytes::copy_bytes(&face.path), face.index));
                proof {
                    assert(slots@.map_values(|s: FontSlot| (s.path@, s.index)) =~= kept(
                        faces@.take(i + 1),
                    ));
                    assert(book_infos(book) =~= kept_infos(faces@.take(i + 1)));
                }
            },
            Option::None => {
                proof {
                    assert(slots@.map_values(|s: FontSlot| (s.path@, s.index)) =~= kept(
                        faces@.take(i + 1),
                    ));
                    assert(book_infos(book) =~= kept_infos(faces@.take(i + 1)));
                }
            },
        }
        i += 1;
    }
    proof {
        assert(faces@.take(faces@.len() as int) =~= faces@);
        lemma_kept_aligned(faces@);
    }
    FontCatalog { book, slots }
}

} // verus!
