//! Fingerprint-based caching of decoded sources and raw file bytes.
//!
//! Each distinct file identifier owns one slot with two independent cells:
//! the file decoded as a text source and the file as raw bytes. A cell
//! memoizes the last outcome together with a fingerprint of the raw read;
//! a read whose fingerprint matches is answered from the memo without
//! decoding again. Within one compilation pass a cell that was already
//! consulted answers directly, without any read at all; passes are told
//! apart by an epoch counter that a new pass bumps, so beginning a pass
//! re-arms fingerprint verification for every cell.

use vstd::prelude::*;

use crate::bytes::copy_bytes;
use crate::err::{err_key, FileError};
use crate::vpath::FileKey;

verus! {

#[verifier::external_type_specification]
#[verifier::external_body]
pub struct ExFileId(typst::syntax::FileId);

#[verifier::external_type_specification]
#[verifier::external_body]
pub struct ExSource(typst::syntax::Source);

/// The text a source object holds.
pub uninterp spec fn source_text(s: typst::syntax::Source) -> Seq<char>;

/// The file identifier a source object carries.
pub uninterp spec fn source_id(s: typst::syntax::Source) -> typst::syntax::FileId;

/// The digest of a read outcome: a fixed-key 128-bit hash, a function of
/// the bytes read or of the error's key alone.
pub uninterp spec fn fp_of(read: Result<Seq<u8>, (int, Seq<u8>)>) -> u128;

/// The text that a byte sequence decodes to as UTF-8, if it is valid.
pub uninterp spec fn utf8_of(b: Seq<u8>) -> Option<Seq<char>>;

/// Relies on `typst::syntax::Source::new`: the returned source holds
/// exactly the given text, under the given file identifier.
#[verifier::external_body]
pub(crate) fn source_new(id: typst::syntax::FileId, text: String) -> (r: typst::syntax::Source)
    ensures
        source_text(r) == text@,
        source_id(r) == id,
{
    typst::syntax::Source::new(id, text)
}

/// Relies on `typst::syntax::Source::replace`: afterwards the source holds
/// exactly the new text, still under its own identifier (the returned edit
/// range is not needed here).
#[verifier::external_body]
fn source_replace(s: &mut typst::syntax::Source, text: &String)
    ensures
        source_text(*final(s)) == text@,
        source_id(*final(s)) == source_id(*old(s)),
{
    s.replace(text);
}

/// Relies on `typst::syntax::Source::clone`: the clone holds the same text
/// under the same identifier.
#[verifier::external_body]
pub(crate) fn source_clone(s: &typst::syntax::Source) -> (r: typst::syntax::Source)
    ensures
        source_text(r) == source_text(*s),
        source_id(r) == source_id(*s),
{
    s.clone()
}

/// Relies on `typst::util::hash128`: a SipHash-1-3 digest under fixed keys,
/// deterministic in the hashed value alone.
#[verifier::external_body]
fn fingerprint(read: &Result<Vec<u8>, FileError>) -> (r: u128)
    ensures
        r == fp_of(read_view(*read)),
{
    typst::util::hash128(read)
}

/// Relies on `std::str::from_utf8`: succeeds exactly on valid UTF-8, and
/// the decoded text is a function of the bytes alone.
#[verifier::external_body]
fn utf8_decode(b: &Vec<u8>) -> (r: Option<String>)
    ensures
        match r {
            Some(s) => utf8_of(b@) == Some(s@),
            None => utf8_of(b@) is None,
        },
{
    match std::str::from_utf8(b.as_slice()) {
        Ok(s) => Some(s.to_string()),
        Err(_) => None,
    }
}

/// The spec-level key of an error, as `err_key` gives it.
pub type ErrKey = (int, Seq<u8>);

/// The model of a raw read outcome: the bytes, or the error's key.
pub type ReadModel = Result<Seq<u8>, ErrKey>;

/// Maps a raw read outcome to its model.
pub open spec fn read_view(read: Result<Vec<u8>, FileError>) -> ReadModel {
    match read {
        Ok(b) => Ok(b@),
        Err(e) => Err(err_key(e)),
    }
}

/// A byte sequence with a leading UTF-8 byte-order mark removed.
pub open spec fn strip_bom_spec(b: Seq<u8>) -> Seq<u8> {
    if b.len() >= 3 && b[0] == 0xefu8 && b[1] == 0xbbu8 && b[2] == 0xbfu8 {
        b.skip(3)
    } else {
        b
    }
}

/// The key of the invalid-UTF-8 error.
pub open spec fn utf8_err_key() -> ErrKey {
    (4int, Seq::empty())
}

/// The model of a memoized source: the identifier it carries and its text.
pub type SourceModel = (typst::syntax::FileId, Seq<char>);

/// The model of a source cell: the memoized outcome (identifier and text,
/// or an error key), the fingerprint of the last read, and the epoch of
/// the pass that last consulted it.
pub struct SourceCellModel {
    pub data: Option<Result<SourceModel, ErrKey>>,
    pub fp: u128,
    pub epoch: u64,
}

/// The identifier a decode gives the source: a previously memoized source
/// is replaced in place and keeps its own identifier; otherwise a source
/// is built fresh under the requested one.
pub open spec fn stored_id_or(
    data: Option<Result<SourceModel, ErrKey>>,
    id: typst::syntax::FileId,
) -> typst::syntax::FileId {
    match data {
        Some(Ok(p)) => p.0,
        _ => id,
    }
}

/// The value a source lookup decodes for a given read outcome.
pub open spec fn source_outcome(
    c: SourceCellModel,
    id: typst::syntax::FileId,
    read: ReadModel,
) -> Result<SourceModel, ErrKey> {
    match read {
        Ok(b) => match utf8_of(strip_bom_spec(b)) {
            Some(t) => Ok((stored_id_or(c.data, id), t)),
            None => Err(utf8_err_key()),
        },
        Err(k) => Err(k),
    }
}

/// The model of a bytes cell.
pub struct BytesCellModel {
    pub data: Option<Result<Seq<u8>, ErrKey>>,
    pub fp: u128,
    pub epoch: u64,
}

/// The within-pass short-circuit: consulting a cell marks it for the pass,
/// and answers from the memo only when the same pass already consulted it.
pub open spec fn source_hit(c: SourceCellModel, pass: u64) -> (
    SourceCellModel,
    Option<Result<SourceModel, ErrKey>>,
) {
    (
        SourceCellModel { epoch: pass, ..c },
        if c.epoch == pass && c.data is Some {
            Some(c.data->Some_0)
        } else {
            None
        },
    )
}

/// The update step after a fresh read: a matching fingerprint re-serves the
/// memo without decoding; otherwise the read is decoded and memoized. The
/// third component tells whether a decode happened.
pub open spec fn source_step(
    c: SourceCellModel,
    pass: u64,
    id: typst::syntax::FileId,
    read: ReadModel,
) -> (SourceCellModel, Result<SourceModel, ErrKey>, bool) {
    let fp = fp_of(read);
    if fp == c.fp && c.data is Some {
        (SourceCellModel { fp, epoch: pass, data: c.data }, c.data->Some_0, false)
    } else {
        let v = source_outcome(c, id, read);
        (SourceCellModel { fp, epoch: pass, data: Some(v) }, v, true)
    }
}

/// The within-pass short-circuit for a bytes cell.
pub open spec fn bytes_hit(c: BytesCellModel, pass: u64) -> (
    BytesCellModel,
    Option<Result<Seq<u8>, ErrKey>>,
) {
    (
        BytesCellModel { epoch: pass, ..c },
        if c.epoch == pass && c.data is Some {
            Some(c.data->Some_0)
        } else {
            None
        },
    )
}

/// The update step for a bytes cell; the decoded value is the raw read.
pub open spec fn bytes_step(c: BytesCellModel, pass: u64, read: ReadModel) -> (
    BytesCellModel,
    Result<Seq<u8>, ErrKey>,
    bool,
) {
    let fp = fp_of(read);
    if fp == c.fp && c.data is Some {
        (BytesCellModel { fp, epoch: pass, data: c.data }, c.data->Some_0, false)
    } else {
        let v = match read {
            Ok(b) => Ok(b),
            Err(k) => Err(k),
        };
        (BytesCellModel { fp, epoch: pass, data: Some(v) }, v, true)
    }
}

/// A first read decodes and memoizes; a second read of byte-identical
/// content returns the same value without decoding again, whatever
/// identifier the second lookup carries.
pub proof fn lemma_source_same_content_reuses(
    c: SourceCellModel,
    pass1: u64,
    pass2: u64,
    id1: typst::syntax::FileId,
    id2: typst::syntax::FileId,
    read: ReadModel,
)
    ensures
        ({
            let (c1, v1, _d1) = source_step(c, pass1, id1, read);
            let (c2, v2, d2) = source_step(c1, pass2, id2, read);
            v2 == v1 && !d2 && c2.data == c1.data && c2.fp == c1.fp
        }),
{
}

/// After the underlying bytes change — the fingerprint differs from the
/// stored one — the next read decodes the new content, never the memo.
pub proof fn lemma_source_changed_content_redecodes(
    c: SourceCellModel,
    pass: u64,
    id: typst::syntax::FileId,
    read: ReadModel,
)
    requires
        fp_of(read) != c.fp,
    ensures
        ({
            let (c1, v, d) = source_step(c, pass, id, read);
            d && v == source_outcome(c, id, read) && c1.data == Some(v) && c1.fp == fp_of(read)
        }),
{
}

/// The bytes-cell form of the reuse law.
pub proof fn lemma_bytes_same_content_reuses(c: BytesCellModel, pass1: u64, pass2: u64, read: ReadModel)
    ensures
        ({
            let (c1, v1, _d1) = bytes_step(c, pass1, read);
            let (c2, v2, d2) = bytes_step(c1, pass2, read);
            v2 == v1 && !d2 && c2.data == c1.data && c2.fp == c1.fp
        }),
{
}

/// The bytes-cell form of the change law.
pub proof fn lemma_bytes_changed_content_redecodes(c: BytesCellModel, pass: u64, read: ReadModel)
    requires
        fp_of(read) != c.fp,
    ensures
        ({
            let (c1, v, d) = bytes_step(c, pass, read);
            d && v == read_outcome_bytes(read) && c1.data == Some(v) && c1.fp == fp_of(read)
        }),
{
}

/// A pass that did not itself consult a cell is never answered from the
/// within-pass memo: beginning a new pass re-arms fingerprint verification.
pub proof fn lemma_new_pass_rechecks_source(c: SourceCellModel, pass: u64)
    requires
        c.epoch != pass,
    ensures
        source_hit(c, pass).1 is None,
{
}

/// The bytes-cell form of the re-arm law.
pub proof fn lemma_new_pass_rechecks_bytes(c: BytesCellModel, pass: u64)
    requires
        c.epoch != pass,
    ensures
        bytes_hit(c, pass).1 is None,
{
}

/// The value a bytes lookup yields for a given read outcome.
pub open spec fn read_outcome_bytes(read: ReadModel) -> Result<Seq<u8>, ErrKey> {
    match read {
        Ok(b) => Ok(b),
        Err(k) => Err(k),
    }
}

/// The lazily filled text-source cell of a slot.
pub struct SourceCell {
    pub data: Option<Result<typst::syntax::Source, FileError>>,
    pub fp: u128,
    pub epoch: u64,
}

/// The model of a memoized source outcome.
pub open spec fn source_res_model(v: Result<typst::syntax::Source, FileError>) -> Result<
    SourceModel,
    ErrKey,
> {
    match v {
        Ok(s) => Ok((source_id(s), source_text(s))),
        Err(e) => Err(err_key(e)),
    }
}

impl View for SourceCell {
    type V = SourceCellModel;

    open spec fn view(&self) -> SourceCellModel {
        SourceCellModel {
            data: match self.data {
                Option::None => None,
                Option::Some(v) => Some(source_res_model(v)),
            },
            fp: self.fp,
            epoch: self.epoch,
        }
    }
}

/// An independent copy of a memoized source outcome, with the same model.
fn dup_source_res(v: &Result<typst::syntax::Source, FileError>) -> (r: Result<
    typst::syntax::Source,
    FileError,
>)
    ensures
        source_res_model(r) == source_res_model(*v),
{
    match v {
        Ok(s) => Ok(source_clone(s)),
        Err(e) => Err(e.dup()),
    }
}

/// Removes a leading UTF-8 byte-order mark.
fn strip_bom(b: &Vec<u8>) -> (r: Vec<u8>)
    ensures
        r@ == strip_bom_spec(b@),
{
    let start: usize = if b.len() >= 3 && b[0] == 0xefu8 && b[1] == 0xbbu8 && b[2] == 0xbfu8 {
        3
    } else {
        0
    };
    let mut r: Vec<u8> = Vec::new();
    let mut i: usize = start;
    while i < b.len()
        invariant
            start <= i <= b@.len(),
            r@ == b@.subrange(start as int, i as int),
        decreases b.len() - i,
    {
        r.push(b[i]);
        proof {
            assert(b@.subrange(start as int, i + 1) =~= b@.subrange(start as int, i as int).push(
                b@[i as int],
            ));
        }
        i += 1;
    }
    proof {
        if start == 3 {
            assert(r@ =~= b@.skip(3));
        } else {
            assert(r@ =~= b@);
        }
    }
    r
}

impl SourceCell {
    /// An empty cell: nothing memoized, zero fingerprint, epoch zero.
    pub fn new() -> (r: SourceCell)
        ensures
            r@ == (SourceCellModel { data: None, fp: 0, epoch: 0 }),
    {
        SourceCell { data: None, fp: 0, epoch: 0 }
    }

    /// The within-pass short-circuit: answers from the memo exactly when
    /// this pass already consulted the cell, and marks the cell consulted.
    /// No read and no decode happen here.
    pub fn cached(&mut self, pass: u64) -> (r: Option<Result<typst::syntax::Source, FileError>>)
        ensures
            final(self)@ == source_hit(old(self)@, pass).0,
            match r {
                Some(v) => source_hit(old(self)@, pass).1 == Some(source_res_model(v)),
                None => source_hit(old(self)@, pass).1 is None,
            },
    {
        let was = self.epoch == pass;
        self.epoch = pass;
        if was {
            match &self.data {
                Option::Some(v) => Some(dup_source_res(v)),
                Option::None => None,
            }
        } else {
            None
        }
    }

    /// The update after a fresh read: fingerprints the outcome, re-serves
    /// the memo when the fingerprint is unchanged, and otherwise decodes
    /// (stripping a byte-order mark, replacing the previous source's text
    /// in place when one exists) and memoizes. The second component tells
    /// whether a decode happened.
    pub fn update(
        &mut self,
        pass: u64,
        id: typst::syntax::FileId,
        read: Result<Vec<u8>, FileError>,
    ) -> (r: (Result<typst::syntax::Source, FileError>, bool))
        ensures
            ({
                let (m2, v, dec) = source_step(old(self)@, pass, id, read_view(read));
                final(self)@ == m2 && source_res_model(r.0) == v && r.1 == dec
            }),
    {
        let fp = fingerprint(&read);
        let hit = fp == self.fp && self.data.is_some();
        self.fp = fp;
        self.epoch = pass;
        if hit {
            let out = match &self.data {
                Option::Some(v) => dup_source_res(v),
                Option::None => Err(FileError::AccessDenied),  // unreachable: `hit` demands a memo
            };
            return (out, false);
        }
        let prev: Option<typst::syntax::Source> = match &self.data {
            Option::Some(Ok(s)) => Some(source_clone(s)),
            _ => None,
        };
        let value: Result<typst::syntax::Source, FileError> = match read {
            Ok(raw) => {
                let stripped = strip_bom(&raw);
                match utf8_decode(&stripped) {
                    Some(text) => match prev {
                        Option::Some(mut s) => {
                            source_replace(&mut s, &text);
                            Ok(s)
                        },
                        Option::None => Ok(source_new(id, text)),
                    },
                    None => Err(FileError::InvalidUtf8),
                }
            },
            Err(e) => Err(e),
        };
        self.data = Some(dup_source_res(&value));
        (value, true)
    }
}

/// The lazily filled raw-bytes cell of a slot.
pub struct BytesCell {
    pub data: Option<Result<Vec<u8>, FileError>>,
    pub fp: u128,
    pub epoch: u64,
}

/// The model of a memoized bytes outcome.
pub open spec fn bytes_res_model(v: Result<Vec<u8>, FileError>) -> Result<Seq<u8>, ErrKey> {
    match v {
        Ok(b) => Ok(b@),
        Err(e) => Err(err_key(e)),
    }
}

impl View for BytesCell {
    type V = BytesCellModel;

    open spec fn view(&self) -> BytesCellModel {
        BytesCellModel {
            data: match self.data {
                Option::None => None,
                Option::Some(v) => Some(bytes_res_model(v)),
            },
            fp: self.fp,
            epoch: self.epoch,
        }
    }
}

/// An independent copy of a memoized bytes outcome, with the same model.
fn dup_bytes_res(v: &Result<Vec<u8>, FileError>) -> (r: Result<Vec<u8>, FileError>)
    ensures
        bytes_res_model(r) == bytes_res_model(*v),
{
    match v {
        Ok(b) => Ok(copy_bytes(b)),
        Err(e) => Err(e.dup()),
    }
}

impl BytesCell {
    /// An empty cell: nothing memoized, zero fingerprint, epoch zero.
    pub fn new() -> (r: BytesCell)
        ensures
            r@ == (BytesCellModel { data: None, fp: 0, epoch: 0 }),
    {
        BytesCell { data: None, fp: 0, epoch: 0 }
    }

    /// The within-pass short-circuit, as for a source cell.
    pub fn cached(&mut self, pass: u64) -> (r: Option<Result<Vec<u8>, FileError>>)
        ensures
            final(self)@ == bytes_hit(old(self)@, pass).0,
            match r {
                Some(v) => bytes_hit(old(self)@, pass).1 == Some(bytes_res_model(v)),
                None => bytes_hit(old(self)@, pass).1 is None,
            },
    {
        let was = self.epoch == pass;
        self.epoch = pass;
        if was {
            match &self.data {
                Option::Some(v) => Some(dup_bytes_res(v)),
                Option::None => None,
            }
        } else {
            None
        }
    }

    /// The update after a fresh read; the decoded value is the raw read.
    pub fn update(&mut self, pass: u64, read: Result<Vec<u8>, FileError>) -> (r: (
        Result<Vec<u8>, FileError>,
        bool,
    ))
        ensures
            ({
                let (m2, v, dec) = bytes_step(old(self)@, pass, read_view(read));
                final(self)@ == m2 && bytes_res_model(r.0) == v && r.1 == dec
            }),
    {
        let fp = fingerprint(&read);
        let hit = fp == self.fp && self.data.is_some();
        self.fp = fp;
        self.epoch = pass;
        if hit {
            let out = match &self.data {
                Option::Some(v) => dup_bytes_res(v),
                Option::None => Err(FileError::AccessDenied),  // unreachable: `hit` demands a memo
            };
            return (out, false);
        }
        let value: Result<Vec<u8>, FileError> = read;
        self.data = Some(dup_bytes_res(&value));
        (value, true)
    }
}

/// The spec-level identity of a file key.
pub type KeyV = (Option<(Seq<u8>, Seq<u8>, u64, u64, u64)>, Seq<u8>);

/// One cache entry: the file's identity and its two cells.
pub struct FileSlot {
    pub key: FileKey,
    pub source: SourceCell,
    pub file: BytesCell,
}

/// No two slots share a key.
pub open spec fn seq_wf(s: Seq<FileSlot>) -> bool {
    forall|i: int, j: int| 0 <= i < j < s.len() ==> s[i].key@ != s[j].key@
}

/// Whether a slot for the key exists.
pub open spec fn seq_has(s: Seq<FileSlot>, k: KeyV) -> bool {
    exists|i: int| 0 <= i < s.len() && s[i].key@ == k
}

/// The position of the key's slot.
pub open spec fn seq_idx(s: Seq<FileSlot>, k: KeyV) -> int {
    choose|i: int| 0 <= i < s.len() && s[i].key@ == k
}

/// The key's slot.
pub open spec fn seq_slot(s: Seq<FileSlot>, k: KeyV) -> FileSlot {
    s[seq_idx(s, k)]
}

/// Replacing one slot by another with the same key leaves every other
/// key's slot untouched, and the key's slot is the replacement.
proof fn lemma_point_update(pre: Seq<FileSlot>, post: Seq<FileSlot>, idx: int, k: KeyV)
    requires
        seq_wf(pre),
        0 <= idx < pre.len(),
        post.len() == pre.len(),
        forall|j: int| 0 <= j < pre.len() && j != idx ==> post[j] == pre[j],
        pre[idx].key@ == k,
        post[idx].key@ == k,
    ensures
        seq_wf(post),
        forall|k2: KeyV| seq_has(post, k2) == seq_has(pre, k2),
        forall|k2: KeyV| k2 != k && seq_has(pre, k2) ==> seq_slot(post, k2) == seq_slot(pre, k2),
        seq_has(post, k),
        seq_slot(post, k) == post[idx],
        seq_slot(pre, k) == pre[idx],
{
    assert(forall|j: int| 0 <= j < pre.len() ==> post[j].key@ == pre[j].key@);
    assert forall|k2: KeyV| seq_has(post, k2) == seq_has(pre, k2) by {
        if seq_has(post, k2) {
            let i = seq_idx(post, k2);
            assert(pre[i].key@ == k2);
        }
        if seq_has(pre, k2) {
            let i = seq_idx(pre, k2);
            assert(post[i].key@ == k2);
        }
    }
    assert forall|k2: KeyV| k2 != k && seq_has(pre, k2) implies seq_slot(post, k2) == seq_slot(
        pre,
        k2,
    ) by {
        let i = seq_idx(pre, k2);
        let i2 = seq_idx(post, k2);
        assert(pre[i2].key@ == k2);
        assert(i == i2);
        assert(i != idx);
    }
    assert(seq_has(post, k));
    let i = seq_idx(post, k);
    assert(pre[i].key@ == k);
    assert(i == idx);
    let i0 = seq_idx(pre, k);
    assert(i0 == idx);
}

/// Appending a slot for an unseen key leaves every other key's slot
/// untouched, and gives the new key its slot.
proof fn lemma_push_slot(pre: Seq<FileSlot>, slot: FileSlot, k: KeyV)
    requires
        seq_wf(pre),
        !seq_has(pre, k),
        slot.key@ == k,
    ensures
        seq_wf(pre.push(slot)),
        seq_has(pre.push(slot), k),
        seq_slot(pre.push(slot), k) == slot,
        forall|k2: KeyV| k2 != k ==> seq_has(pre.push(slot), k2) == seq_has(pre, k2),
        forall|k2: KeyV| k2 != k && seq_has(pre, k2) ==> seq_slot(pre.push(slot), k2) == seq_slot(
            pre,
            k2,
        ),
{
    let post = pre.push(slot);
    assert(post[pre.len() as int] == slot);
    assert(forall|j: int| 0 <= j < pre.len() ==> post[j] == pre[j]);
    assert forall|i: int, j: int| 0 <= i < j < post.len() implies post[i].key@ != post[j].key@ by {
        if j == pre.len() {
            assert(post[i].key@ != k) by {
                if post[i].key@ == k {
                    assert(seq_has(pre, k));
                }
            }
        }
    }
    assert(seq_has(post, k));
    let i = seq_idx(post, k);
    assert(i == pre.len()) by {
        if i < pre.len() {
            assert(seq_has(pre, k));
        }
    }
    assert forall|k2: KeyV| k2 != k ==> seq_has(post, k2) == seq_has(pre, k2) by {
        if seq_has(post, k2) && k2 != k {
            let i2 = seq_idx(post, k2);
            assert(i2 < pre.len());
            assert(pre[i2].key@ == k2);
        }
        if seq_has(pre, k2) {
            let i2 = seq_idx(pre, k2);
            assert(post[i2].key@ == k2);
        }
    }
    assert forall|k2: KeyV| k2 != k && seq_has(pre, k2) implies seq_slot(post, k2) == seq_slot(
        pre,
        k2,
    ) by {
        let i1 = seq_idx(pre, k2);
        let i2 = seq_idx(post, k2);
        assert(i2 != pre.len());
        assert(pre[i2].key@ == k2);
        assert(i1 == i2);
    }
}

/// The shared cache: one slot per distinct file identifier ever requested,
/// plus the epoch of the current compilation pass.
pub struct FileCache {
    pub slots: Vec<FileSlot>,
    pub pass: u64,
}

impl FileCache {
    /// Slot keys are unique.
    pub open spec fn wf(self) -> bool {
        seq_wf(self.slots@)
    }

    /// Whether the key has a slot.
    pub open spec fn has_key(self, k: KeyV) -> bool {
        seq_has(self.slots@, k)
    }

    /// The key's slot.
    pub open spec fn slot_of(self, k: KeyV) -> FileSlot {
        seq_slot(self.slots@, k)
    }

    /// The key's source-cell model, or a fresh one when the key is new.
    pub open spec fn source_model(self, k: KeyV) -> SourceCellModel {
        if self.has_key(k) {
            self.slot_of(k).source@
        } else {
            SourceCellModel { data: None, fp: 0, epoch: 0 }
        }
    }

    /// The key's bytes-cell model, or a fresh one when the key is new.
    pub open spec fn bytes_model(self, k: KeyV) -> BytesCellModel {
        if self.has_key(k) {
            self.slot_of(k).file@
        } else {
            BytesCellModel { data: None, fp: 0, epoch: 0 }
        }
    }

    /// An empty cache at pass zero.
    pub fn new() -> (r: FileCache)
        ensures
            r.wf(),
            r.slots@.len() == 0,
            r.pass == 0,
    {
        FileCache { slots: Vec::new(), pass: 0 }
    }

    /// Opens a new compilation pass: bumps the epoch (saturating), so that
    /// every cell's first lookup of this pass verifies its fingerprint
    /// again instead of serving the within-pass memo.
    pub fn begin_pass(&mut self)
        ensures
            final(self).slots == old(self).slots,
            final(self).pass == if old(self).pass == u64::MAX {
                u64::MAX
            } else {
                (old(self).pass + 1) as u64
            },
    {
        if self.pass < u64::MAX {
            self.pass = self.pass + 1;
        }
    }

    /// Finds the key's slot, creating a fresh one if the key is new.
    fn find_or_insert(&mut self, key: &FileKey) -> (idx: usize)
        requires
            old(self).wf(),
        ensures
            final(self).wf(),
            final(self).pass == old(self).pass,
            idx < final(self).slots@.len(),
            final(self).slots@[idx as int].key@ == key@,
            final(self).slots@[idx as int].source@ == old(self).source_model(key@),
            final(self).slots@[idx as int].file@ == old(self).bytes_model(key@),
            final(self).has_key(key@),
            final(self).slot_of(key@) == final(self).slots@[idx as int],
            forall|k2: KeyV| k2 != key@ ==> final(self).has_key(k2) == old(self).has_key(k2),
            forall|k2: KeyV|
                k2 != key@ && old(self).has_key(k2) ==> final(self).slot_of(k2) == old(
                    self,
                ).slot_of(k2),
            forall|j: int|
                0 <= j < final(self).slots@.len() && j != idx ==> j < old(self).slots@.len()
                    && final(self).slots@[j] == old(self).slots@[j],
    {
        let mut i: usize = 0;
        while i < self.slots.len()
            invariant
                old(self).wf(),
                self == old(self),
                i <= self.slots@.len(),
                forall|j: int| 0 <= j < i ==> self.slots@[j].key@ != key@,
            decreases self.slots@.len() - i,
        {
            let hit = self.slots[i].key.matches(key);
            if hit {
                proof {
                    let s = self.slots@;
                    assert(seq_has(s, key@));
                    let i2 = seq_idx(s, key@);
                    assert(s[i2].key@ == key@);
                    assert(i2 == i as int);
                    lemma_point_update(s, s, i as int, key@);
                }
                return i;
            }
            i += 1;
        }
        proof {
            assert(!seq_has(self.slots@, key@)) by {
                if seq_has(self.slots@, key@) {
                    let i2 = seq_idx(self.slots@, key@);
                    assert(self.slots@[i2].key@ == key@);
                }
            }
        }
        let slot = FileSlot { key: key.dup(), source: SourceCell::new(), file: BytesCell::new() };
        let ghost pre = self.slots@;
        proof {
            lemma_push_slot(pre, slot, key@);
        }
        self.slots.push(slot);
        self.slots.len() - 1
    }

    /// The within-pass short-circuit for the key's source cell; no read
    /// and no decode happen. A new key gets a fresh slot, which misses.
    pub fn source_cached(&mut self, key: &FileKey) -> (r: Option<
        Result<typst::syntax::Source, FileError>,
    >)
        requires
            old(self).wf(),
        ensures
            final(self).wf(),
            final(self).pass == old(self).pass,
            final(self).has_key(key@),
            forall|k2: KeyV| k2 != key@ ==> final(self).has_key(k2) == old(self).has_key(k2),
            forall|k2: KeyV|
                k2 != key@ && old(self).has_key(k2) ==> final(self).slot_of(k2) == old(
                    self,
                ).slot_of(k2),
            final(self).slot_of(key@).key@ == key@,
            final(self).slot_of(key@).file@ == old(self).bytes_model(key@),
            final(self).slot_of(key@).source@ == source_hit(
                old(self).source_model(key@),
                old(self).pass,
            ).0,
            match r {
                Some(v) => source_hit(old(self).source_model(key@), old(self).pass).1 == Some(
                    source_res_model(v),
                ),
                None => source_hit(old(self).source_model(key@), old(self).pass).1 is None,
            },
    {
        let pass = self.pass;
        let idx = self.find_or_insert(key);
        let ghost mid = self.slots@;
        let slot = vstd::std_specs::vec::vec_index_mut(&mut self.slots, idx);
        let r = slot.source.cached(pass);
        proof {
            lemma_point_update(mid, self.slots@, idx as int, key@);
        }
        r
    }

    /// The update of the key's source cell after a fresh read.
    pub fn source_update(
        &mut self,
        key: &FileKey,
        id: typst::syntax::FileId,
        read: Result<Vec<u8>, FileError>,
    ) -> (r: (Result<typst::syntax::Source, FileError>, bool))
        requires
            old(self).wf(),
        ensures
            final(self).wf(),
            final(self).pass == old(self).pass,
            final(self).has_key(key@),
            forall|k2: KeyV| k2 != key@ ==> final(self).has_key(k2) == old(self).has_key(k2),
            forall|k2: KeyV|
                k2 != key@ && old(self).has_key(k2) ==> final(self).slot_of(k2) == old(
                    self,
                ).slot_of(k2),
            final(self).slot_of(key@).key@ == key@,
            final(self).slot_of(key@).file@ == old(self).bytes_model(key@),
            ({
                let (m2, v, dec) = source_step(
                    old(self).source_model(key@),
                    old(self).pass,
                    id,
                    read_view(read),
                );
                final(self).slot_of(key@).source@ == m2 && source_res_model(r.0) == v && r.1 == dec
            }),
    {
        let pass = self.pass;
        let idx = self.find_or_insert(key);
        let ghost mid = self.slots@;
        let slot = vstd::std_specs::vec::vec_index_mut(&mut self.slots, idx);
        let r = slot.source.update(pass, id, read);
        proof {
            lemma_point_update(mid, self.slots@, idx as int, key@);
        }
        r
    }

    /// The within-pass short-circuit for the key's bytes cell.
    pub fn bytes_cached(&mut self, key: &FileKey) -> (r: Option<Result<Vec<u8>, FileError>>)
        requires
            old(self).wf(),
        ensures
            final(self).wf(),
            final(self).pass == old(self).pass,
            final(self).has_key(key@),
            forall|k2: KeyV| k2 != key@ ==> final(self).has_key(k2) == old(self).has_key(k2),
            forall|k2: KeyV|
                k2 != key@ && old(self).has_key(k2) ==> final(self).slot_of(k2) == old(
                    self,
                ).slot_of(k2),
            final(self).slot_of(key@).key@ == key@,
            final(self).slot_of(key@).source@ == old(self).source_model(key@),
            final(self).slot_of(key@).file@ == bytes_hit(
                old(self).bytes_model(key@),
                old(self).pass,
            ).0,
            match r {
                Some(v) => bytes_hit(old(self).bytes_model(key@), old(self).pass).1 == Some(
                    bytes_res_model(v),
                ),
                None => bytes_hit(old(self).bytes_model(key@), old(self).pass).1 is None,
            },
    {
        let pass = self.pass;
        let idx = self.find_or_insert(key);
        let ghost mid = self.slots@;
        let slot = vstd::std_specs::vec::vec_index_mut(&mut self.slots, idx);
        let r = slot.file.cached(pass);
        proof {
            lemma_point_update(mid, self.slots@, idx as int, key@);
        }
        r
    }

    /// The update of the key's bytes cell after a fresh read.
    pub fn bytes_update(&mut self, key: &FileKey, read: Result<Vec<u8>, FileError>) -> (r: (
        Result<Vec<u8>, FileError>,
        bool,
    ))
        requires
            old(self).wf(),
        ensures
            final(self).wf(),
            final(self).pass == old(self).pass,
            final(self).has_key(key@),
            forall|k2: KeyV| k2 != key@ ==> final(self).has_key(k2) == old(self).has_key(k2),
            forall|k2: KeyV|
                k2 != key@ && old(self).has_key(k2) ==> final(self).slot_of(k2) == old(
                    self,
                ).slot_of(k2),
            final(self).slot_of(key@).key@ == key@,
            final(self).slot_of(key@).source@ == old(self).source_model(key@),
            ({
                let (m2, v, dec) = bytes_step(
                    old(self).bytes_model(key@),
                    old(self).pass,
                    read_view(read),
                );
                final(self).slot_of(key@).file@ == m2 && bytes_res_model(r.0) == v && r.1 == dec
            }),
    {
        let pass = self.pass;
        let idx = self.find_or_insert(key);
        let ghost mid = self.slots@;
        let slot = vstd::std_specs::vec::vec_index_mut(&mut self.slots, idx);
        let r = slot.file.update(pass, read);
        proof {
            lemma_point_update(mid, self.slots@, idx as int, key@);
        }
        r
    }
}

} // verus!
