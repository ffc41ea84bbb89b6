//! The per-compilation session: the in-memory main source, the injected
//! data payload, and the reference instant for "today" queries.
//!
//! The main source and the injected data live at reserved virtual paths and
//! are served from session state alone; a request for the injected-data
//! path never reaches the filesystem or the shared cache.

use vstd::prelude::*;

use crate::bytes::{bytes_eq, copy_bytes};
use crate::cache::{source_clone, source_id, source_new, source_text};
use crate::calendar::{day_number, local_day, max_day, min_day, off_ok, today_from, Date};
use crate::vpath::FileKey;

verus! {

/// The bytes of the reserved injected-data path, `/main.json`.
pub open spec fn data_path_spec() -> Seq<u8> {
    seq![47u8, 109u8, 97u8, 105u8, 110u8, 46u8, 106u8, 115u8, 111u8, 110u8]
}

/// The bytes of the reserved main-source path, `/main.typ`.
pub open spec fn main_path_spec() -> Seq<u8> {
    seq![47u8, 109u8, 97u8, 105u8, 110u8, 46u8, 116u8, 121u8, 112u8]
}

/// Whether a file identifier names the injected data: no package, and the
/// reserved virtual path.
pub open spec fn is_data_key(k: (Option<(Seq<u8>, Seq<u8>, u64, u64, u64)>, Seq<u8>)) -> bool {
    k.0 is None && k.1 == data_path_spec()
}

/// Whether a file identifier names the main source: no package, and the
/// reserved virtual path.
pub open spec fn is_main_key(k: (Option<(Seq<u8>, Seq<u8>, u64, u64, u64)>, Seq<u8>)) -> bool {
    k.0 is None && k.1 == main_path_spec()
}

/// The reserved injected-data path as bytes.
pub fn data_path() -> (r: Vec<u8>)
    ensures
        r@ == data_path_spec(),
{
    let mut v: Vec<u8> = Vec::new();
    v.push(47u8);
    v.push(109u8);
    v.push(97u8);
    v.push(105u8);
    v.push(110u8);
    v.push(46u8);
    v.push(106u8);
    v.push(115u8);
    v.push(111u8);
    v.push(110u8);
    proof {
        assert(v@ =~= data_path_spec());
    }
    v
}

/// The reserved main-source path as bytes.
pub fn main_path() -> (r: Vec<u8>)
    ensures
        r@ == main_path_spec(),
{
    let mut v: Vec<u8> = Vec::new();
    v.push(47u8);
    v.push(109u8);
    v.push(97u8);
    v.push(105u8);
    v.push(110u8);
    v.push(46u8);
    v.push(116u8);
    v.push(121u8);
    v.push(112u8);
    proof {
        assert(v@ =~= main_path_spec());
    }
    v
}

/// The default injected data when the caller supplies none: `{}`.
pub open spec fn default_json_spec() -> Seq<u8> {
    seq![123u8, 125u8]
}

/// How a file query is answered: from session state, or by the cache.
pub enum FileDecision {
    /// The injected-data path: these bytes, straight from the session.
    Injected(Vec<u8>),
    /// Any other identifier: resolve and read through the shared cache.
    Delegate,
}

/// How a source query is answered: from session state, or by the cache.
pub enum SourceDecision {
    /// The reserved main path: the caller's template, from the session.
    Main(typst::syntax::Source),
    /// The reserved injected-data path: it holds bytes, not a source, and
    /// never reaches the filesystem.
    NotASource,
    /// Any other identifier: resolve and read through the shared cache.
    Delegate,
}

/// One compilation call's bindings: main source, injected data, reference
/// instant (seconds since the Unix epoch).
pub struct Session {
    pub main: typst::syntax::Source,
    pub main_json: Vec<u8>,
    pub timestamp: i64,
}

impl Session {
    /// Binds a session: the template text becomes the main source under
    /// the given identifier; absent data defaults to an empty object.
    pub fn new(main_id: typst::syntax::FileId, template: String, json: Option<Vec<u8>>, timestamp: i64) -> (r:
        Session)
        ensures
            source_text(r.main) == template@,
            source_id(r.main) == main_id,
            r.main_json@ == (match json {
                Some(j) => j@,
                None => default_json_spec(),
            }),
            r.timestamp == timestamp,
    {
        let main = source_new(main_id, template);
        let main_json = match json {
            Some(j) => j,
            None => {
                let mut v: Vec<u8> = Vec::new();
                v.push(123u8);
                v.push(125u8);
                proof {
                    assert(v@ =~= default_json_spec());
                }
                v
            },
        };
        Session { main, main_json, timestamp }
    }

    /// The main source, served verbatim from session state.
    pub fn main_source(&self) -> (r: typst::syntax::Source)
        ensures
            source_text(r) == source_text(self.main),
            source_id(r) == source_id(self.main),
    {
        source_clone(&self.main)
    }

    /// Decides a source query: the reserved main path is answered with the
    /// session's template source, the reserved injected-data path is
    /// refused as not a source — neither ever reaches the filesystem —
    /// and everything else is delegated.
    pub fn decide_source(&self, key: &FileKey) -> (r: SourceDecision)
        ensures
            match r {
                SourceDecision::Main(s) => is_main_key(key@) && source_text(s) == source_text(
                    self.main,
                ) && source_id(s) == source_id(self.main),
                SourceDecision::NotASource => is_data_key(key@),
                SourceDecision::Delegate => !is_main_key(key@) && !is_data_key(key@),
            },
    {
        if key.package.is_none() {
            if bytes_eq(&key.vpath, &main_path()) {
                return SourceDecision::Main(source_clone(&self.main));
            }
            if bytes_eq(&key.vpath, &data_path()) {
                return SourceDecision::NotASource;
            }
        }
        SourceDecision::Delegate
    }

    /// Decides a file query: the injected-data path is answered with the
    /// session's bytes — exactly the caller-supplied data, or `{}` — and
    /// never reaches the filesystem; everything else is delegated.
    pub fn decide_file(&self, key: &FileKey) -> (r: FileDecision)
        ensures
            match r {
                FileDecision::Injected(b) => is_data_key(key@) && b@ == self.main_json@,
                FileDecision::Delegate => !is_data_key(key@),
            },
    {
        let is_data = key.package.is_none() && bytes_eq(&key.vpath, &data_path());
        if is_data {
            FileDecision::Injected(copy_bytes(&self.main_json))
        } else {
            FileDecision::Delegate
        }
    }

    /// The calendar date at the session's reference instant shifted by the
    /// given whole hours (zero when absent); `None` when the offset or the
    /// shifted date is unrepresentable.
    pub fn today(&self, offset: Option<i64>) -> (r: Option<Date>)
        ensures
            ({
                let off = match offset {
                    Some(o) => o as int,
                    None => 0int,
                };
                match r {
                    Some(d) => off_ok(off) && d.wf() && day_number(
                        d.year as int,
                        d.month as int,
                        d.day as int,
                    ) == local_day(self.timestamp as int, off),
                    None => !off_ok(off) || local_day(self.timestamp as int, off) < min_day()
                        || local_day(self.timestamp as int, off) > max_day(),
                }
            }),
    {
        let off = match offset {
            Some(o) => o,
            None => 0,
        };
        today_from(self.timestamp, off)
    }
}

} // verus!
