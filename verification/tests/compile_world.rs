use comemo::Prehashed;
use parking_lot::Mutex;
use typst::diag::{FileError as TypstFileError, FileResult};
use typst::eval::Tracer;
use typst::foundations::{Bytes, Datetime, Dict};
use typst::syntax::{FileId, Source, VirtualPath};
use typst::text::{Font, FontBook};
use typst::{Library, World};

use to_pdf::export::{export_pdf, export_svg};
use to_pdf::fonts::{build_catalog, FaceEntry, FontSlot};
use to_pdf::session::{FileDecision, Session, SourceDecision};
use to_pdf::vpath::FileKey;

struct TestWorld {
    library: Prehashed<Library>,
    book: Prehashed<FontBook>,
    fonts: Mutex<Vec<FontSlot>>,
    face_data: Vec<Vec<u8>>,
    session: Session,
}

fn make_world(template: &str, json: Option<Vec<u8>>) -> TestWorld {
    let faces: Vec<FaceEntry> = typst_assets::fonts()
        .enumerate()
        .map(|(i, data)| FaceEntry {
            path: format!("/font{i}").into_bytes(),
            index: 0,
            data: data.to_vec(),
        })
        .collect();
    let face_data: Vec<Vec<u8>> = faces.iter().map(|f| f.data.clone()).collect();
    let catalog = build_catalog(faces);
    assert_eq!(catalog.slots.len(), face_data.len());
    let main_id = FileId::new(None, VirtualPath::new("main.typ"));
    let session = Session::new(main_id, template.to_string(), json, 1_710_113_400);
    TestWorld {
        library: Prehashed::new(Library::builder().with_inputs(Dict::default()).build()),
        book: Prehashed::new(catalog.book),
        fonts: Mutex::new(catalog.slots),
        face_data,
        session,
    }
}

impl World for TestWorld {
    fn library(&self) -> &Prehashed<Library> {
        &self.library
    }

    fn book(&self) -> &Prehashed<FontBook> {
        &self.book
    }

    fn main(&self) -> Source {
        self.session.main_source()
    }

    fn source(&self, id: FileId) -> FileResult<Source> {
        let key = FileKey {
            package: None,
            vpath: id.vpath().as_rooted_path().to_string_lossy().into_owned().into_bytes(),
        };
        match self.session.decide_source(&key) {
            SourceDecision::Main(source) => Ok(source),
            SourceDecision::NotASource => Err(TypstFileError::NotSource),
            SourceDecision::Delegate => {
                Err(TypstFileError::NotFound(id.vpath().as_rooted_path().to_path_buf()))
            }
        }
    }

    fn file(&self, id: FileId) -> FileResult<Bytes> {
        let key = FileKey {
            package: None,
            vpath: id.vpath().as_rooted_path().to_string_lossy().into_owned().into_bytes(),
        };
        match self.session.decide_file(&key) {
            FileDecision::Injected(bytes) => Ok(Bytes::from(bytes)),
            FileDecision::Delegate => {
                Err(TypstFileError::NotFound(id.vpath().as_rooted_path().to_path_buf()))
            }
        }
    }

    fn font(&self, index: usize) -> Option<Font> {
        let mut fonts = self.fonts.lock();
        let slot = fonts.get_mut(index)?;
        if slot.needs_load() {
            slot.init(Some(self.face_data[index].clone()))
        } else {
            slot.init(None)
        }
    }

    fn today(&self, offset: Option<i64>) -> Option<Datetime> {
        let d = self.session.today(offset)?;
        let month = time::Month::try_from(d.month).ok()?;
        let date = time::Date::from_calendar_date(d.year as i32, month, d.day).ok()?;
        Some(Datetime::Date(date))
    }
}

fn compile(world: &TestWorld) -> typst::model::Document {
    let mut tracer = Tracer::new();
    typst::compile(world, &mut tracer).expect("compilation should succeed")
}

#[test]
fn compiles_a_plain_template_to_one_page() {
    let world = make_world("Hello, world!", None);
    let doc = compile(&world);
    let svgs = export_svg(&doc);
    assert_eq!(svgs.len(), doc.pages.len());
    assert_eq!(svgs.len(), 1);
    assert!(svgs[0].contains("<svg"));
    let pdf = export_pdf(&doc);
    assert!(pdf.starts_with(b"%PDF-"));
}

#[test]
fn injected_data_reaches_the_compiler() {
    let world = make_world(
        "#let data = json(\"/main.json\")\nName: #data.name",
        Some(br#"{"name":"Ada"}"#.to_vec()),
    );
    let doc = compile(&world);
    assert_eq!(doc.pages.len(), 1);
}

#[test]
fn page_break_gives_two_svg_outputs_in_order() {
    let world = make_world("one\n#pagebreak()\ntwo", None);
    let doc = compile(&world);
    let svgs = export_svg(&doc);
    assert_eq!(svgs.len(), 2);
}

#[test]
fn today_is_available_inside_the_template() {
    let world = make_world("#datetime.today().display()", None);
    let doc = compile(&world);
    assert_eq!(doc.pages.len(), 1);
}
