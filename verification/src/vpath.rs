//! Rooted virtual paths and the file identifiers that key the cache.
//!
//! A virtual path addresses a file independently of the real filesystem. It
//! is resolved against a root directory purely lexically: `.` and empty
//! components are dropped, `..` pops the last kept component, and a `..`
//! with nothing left to pop means the path would escape the root and is
//! denied. Symlink escapes are out of scope of this check.

use vstd::prelude::*;

use crate::bytes::{bytes_eq, copy_bytes};
use crate::err::{err_key, FileError};

verus! {

/// The path separator byte, `/`.
pub open spec fn sep() -> u8 {
    47u8
}

/// The components of a byte path, split on `/`. An empty path has one empty
/// component; a separator always opens a new (possibly empty) component.
pub open spec fn split_slash(b: Seq<u8>) -> Seq<Seq<u8>>
    decreases b.len(),
{
    if b.len() == 0 {
        seq![Seq::empty()]
    } else {
        let init = split_slash(b.drop_last());
        if b.last() == sep() {
            init.push(Seq::empty())
        } else {
            init.update(init.len() - 1, init.last().push(b.last()))
        }
    }
}

/// A component that resolution drops: empty (from `//`, a leading `/` or a
/// trailing `/`) or `.`.
pub open spec fn is_skip(c: Seq<u8>) -> bool {
    c.len() == 0 || c == seq![46u8]
}

/// The parent component, `..`.
pub open spec fn is_parent(c: Seq<u8>) -> bool {
    c == seq![46u8, 46u8]
}

/// One resolution step: how a single component transforms the stack of kept
/// components. `None` means the step would climb above the root.
pub open spec fn apply_comp(stack: Seq<Seq<u8>>, c: Seq<u8>) -> Option<Seq<Seq<u8>>> {
    if is_skip(c) {
        Some(stack)
    } else if is_parent(c) {
        if stack.len() == 0 {
            None
        } else {
            Some(stack.drop_last())
        }
    } else {
        Some(stack.push(c))
    }
}

/// Resolution of a component list onto a stack of already-kept components.
pub open spec fn norm_onto(stack: Seq<Seq<u8>>, comps: Seq<Seq<u8>>) -> Option<Seq<Seq<u8>>>
    decreases comps.len(),
{
    if comps.len() == 0 {
        Some(stack)
    } else {
        match apply_comp(stack, comps[0]) {
            Option::None => None,
            Option::Some(st) => norm_onto(st, comps.drop_first()),
        }
    }
}

/// The kept components of a virtual path, or `None` when the path escapes
/// the root.
pub open spec fn normalize_spec(b: Seq<u8>) -> Option<Seq<Seq<u8>>> {
    norm_onto(Seq::empty(), split_slash(b))
}

/// Whether a virtual path would escape the root it is resolved against.
pub open spec fn escapes(b: Seq<u8>) -> bool {
    normalize_spec(b) is None
}

/// The components joined back with `/`, with no leading separator.
pub open spec fn joined(comps: Seq<Seq<u8>>) -> Seq<u8>
    decreases comps.len(),
{
    if comps.len() == 0 {
        Seq::empty()
    } else if comps.len() == 1 {
        comps[0]
    } else {
        joined(comps.drop_last()) + seq![sep()] + comps.last()
    }
}

/// The safe relative form of a virtual path: its kept components joined,
/// defined only when the path does not escape.
pub open spec fn resolved_spec(b: Seq<u8>) -> Seq<u8>
    recommends
        !escapes(b),
{
    joined(normalize_spec(b)->Some_0)
}

/// Resolving `comps + rest` is resolving `comps`, then `rest` on what is
/// left — and an escape inside `comps` is final.
pub proof fn lemma_norm_extend(stack: Seq<Seq<u8>>, comps: Seq<Seq<u8>>, rest: Seq<Seq<u8>>)
    ensures
        norm_onto(stack, comps + rest) == match norm_onto(stack, comps) {
            Option::None => None::<Seq<Seq<u8>>>,
            Option::Some(st) => norm_onto(st, rest),
        },
    decreases comps.len(),
{
    if comps.len() == 0 {
        assert(comps + rest =~= rest);
    } else {
        assert((comps + rest)[0] == comps[0]);
        assert((comps + rest).drop_first() =~= comps.drop_first() + rest);
        match apply_comp(stack, comps[0]) {
            Option::None => {},
            Option::Some(st) => {
                lemma_norm_extend(st, comps.drop_first(), rest);
            },
        }
    }
}

/// Resolving a single component is one `apply_comp` step.
pub proof fn lemma_norm_single(stack: Seq<Seq<u8>>, c: Seq<u8>)
    ensures
        norm_onto(stack, seq![c]) == match apply_comp(stack, c) {
            Option::None => None::<Seq<Seq<u8>>>,
            Option::Some(st) => Some(st),
        },
{
    let s = seq![c];
    assert(s[0] == c);
    assert(s.drop_first() =~~= Seq::<Seq<u8>>::empty());
    match apply_comp(stack, c) {
        Option::None => {},
        Option::Some(st) => {
            assert(norm_onto(st, s.drop_first()) == Some(st));
        },
    }
}

/// Reference to a package whose file tree a path may resolve into.
/// It names the bundle by namespace, name and version.
pub struct PackageKey {
    pub namespace: Vec<u8>,
    pub name: Vec<u8>,
    pub major: u64,
    pub minor: u64,
    pub patch: u64,
}

impl View for PackageKey {
    type V = (Seq<u8>, Seq<u8>, u64, u64, u64);

    open spec fn view(&self) -> Self::V {
        (self.namespace@, self.name@, self.major, self.minor, self.patch)
    }
}

/// The abstract identifier of a file: an optional package reference and a
/// rooted virtual path. Two identifiers are equal exactly when both parts
/// are; the cache is keyed by this identity.
pub struct FileKey {
    pub package: Option<PackageKey>,
    pub vpath: Vec<u8>,
}

impl View for FileKey {
    type V = (Option<(Seq<u8>, Seq<u8>, u64, u64, u64)>, Seq<u8>);

    open spec fn view(&self) -> Self::V {
        (
            match self.package {
                Option::None => None,
                Option::Some(p) => Some(p@),
            },
            self.vpath@,
        )
    }
}

impl FileKey {
    /// Whether two identifiers address the same file.
    pub fn matches(&self, other: &FileKey) -> (r: bool)
        ensures
            r == (self@ == other@),
    {
        let pkg_eq = match (&self.package, &other.package) {
            (Option::None, Option::None) => true,
            (Option::Some(a), Option::Some(b)) => {
                bytes_eq(&a.namespace, &b.namespace) && bytes_eq(&a.name, &b.name) && a.major
                    == b.major && a.minor == b.minor && a.patch == b.patch
            },
            _ => false,
        };
        pkg_eq && bytes_eq(&self.vpath, &other.vpath)
    }

    /// An independent copy of the identifier.
    pub fn dup(&self) -> (r: FileKey)
        ensures
            r@ == self@,
    {
        FileKey {
            package: match &self.package {
                Option::None => None,
                Option::Some(p) => Some(
                    PackageKey {
                        namespace: copy_bytes(&p.namespace),
                        name: copy_bytes(&p.name),
                        major: p.major,
                        minor: p.minor,
                        patch: p.patch,
                    },
                ),
            },
            vpath: copy_bytes(&self.vpath),
        }
    }
}

/// Splits a byte path on `/`.
fn split_components(b: &Vec<u8>) -> (r: Vec<Vec<u8>>)
    ensures
        r.deep_view() == split_slash(b@),
{
    let mut comps: Vec<Vec<u8>> = Vec::new();
    comps.push(Vec::new());
    let mut i: usize = 0;
    proof {
        assert(comps.deep_view() =~~= split_slash(b@.take(0)));
    }
    while i < b.len()
        invariant
            i <= b.len(),
            comps.deep_view() == split_slash(b@.take(i as int)),
            comps.len() >= 1,
        decreases b.len() - i,
    {
        let c = b[i];
        proof {
            assert(b@.take(i + 1).drop_last() =~= b@.take(i as int));
            assert(b@.take(i + 1).last() == b@[i as int]);
        }
        if c == 47u8 {
            comps.push(Vec::new());
            proof {
                assert(comps.deep_view() =~~= split_slash(b@.take(i + 1)));
            }
        } else {
            let mut last = comps.pop().unwrap();
            last.push(c);
            comps.push(last);
            proof {
                let old_split = split_slash(b@.take(i as int));
                assert(comps.deep_view() =~~= old_split.update(
                    old_split.len() - 1,
                    old_split.last().push(c),
                ));
            }
        }
        i += 1;
    }
    proof {
        assert(b@.take(b@.len() as int) =~= b@);
    }
    comps
}

/// Resolves a virtual path to its safe relative form: the kept components
/// joined with `/`. A path that would escape the root is denied, and no
/// file may be read for it.
pub fn resolve_path(vpath: &Vec<u8>) -> (r: Result<Vec<u8>, FileError>)
    ensures
        match r {
            Ok(p) => !escapes(vpath@) && p@ == resolved_spec(vpath@),
            Err(e) => escapes(vpath@) && err_key(e) == (1int, Seq::<u8>::empty()),
        },
{
    let comps = split_components(vpath);
    let ghost all = comps.deep_view();
    let mut stack: Vec<Vec<u8>> = Vec::new();
    let mut escaped = false;
    let mut j: usize = 0;
    while j < comps.len()
        invariant
            j <= comps.len(),
            all == comps.deep_view(),
            !escaped ==> norm_onto(Seq::empty(), all.take(j as int)) == Some(stack.deep_view()),
            escaped ==> norm_onto(Seq::empty(), all.take(j as int)) is None,
        decreases comps.len() - j,
    {
        proof {
            assert(all.take(j + 1) =~~= all.take(j as int) + seq![all[j as int]]);
            lemma_norm_extend(Seq::empty(), all.take(j as int), seq![all[j as int]]);
            lemma_norm_single(stack.deep_view(), all[j as int]);
        }
        if !escaped {
            let ghost pre = stack.deep_view();
            let c = &comps[j];
            let clen = c.len();
            let is_dot = clen == 1 && c[0] == 46u8;
            let is_dotdot = clen == 2 && c[0] == 46u8 && c[1] == 46u8;
            proof {
                assert(c@ == all[j as int]);
                if is_dot {
                    assert(c@ =~= seq![46u8]);
                }
                if is_dotdot {
                    assert(c@ =~= seq![46u8, 46u8]);
                }
            }
            if clen == 0 || is_dot {
                // a dropped component leaves the kept stack unchanged
                proof {
                    assert(is_skip(c@));
                    assert(apply_comp(pre, c@) == Some(pre));
                    assert(norm_onto(Seq::empty(), all.take(j + 1)) == Some(pre));
                }
            } else if is_dotdot {
                if stack.len() == 0 {
                    escaped = true;
                    proof {
                        assert(apply_comp(pre, c@) is None);
                        assert(norm_onto(Seq::empty(), all.take(j + 1)) is None);
                    }
                } else {
                    let _ = stack.pop();
                    proof {
                        assert(stack.deep_view() =~~= pre.drop_last());
                        assert(apply_comp(pre, c@) == Some(pre.drop_last()));
                        assert(norm_onto(Seq::empty(), all.take(j + 1)) == Some(pre.drop_last()));
                    }
                }
            } else {
                stack.push(copy_bytes(c));
                proof {
                    assert(stack.deep_view() =~~= pre.push(c@));
                    assert(!is_skip(c@) && !is_parent(c@));
                    assert(apply_comp(pre, c@) == Some(pre.push(c@)));
                    assert(norm_onto(Seq::empty(), all.take(j + 1)) == Some(pre.push(c@)));
                }
            }
        }
        j += 1;
    }
    proof {
        assert(all.take(comps.len() as int) =~~= all);
    }
    if escaped {
        Err(FileError::AccessDenied)
    } else {
        Ok(join_components(&stack))
    }
}

/// Joins components with `/`, without a leading separator.
fn join_components(stack: &Vec<Vec<u8>>) -> (r: Vec<u8>)
    ensures
        r@ == joined(stack.deep_view()),
{
    let mut out: Vec<u8> = Vec::new();
    let mut j: usize = 0;
    let ghost all = stack.deep_view();
    while j < stack.len()
        invariant
            j <= stack.len(),
            all == stack.deep_view(),
            out@ == joined(all.take(j as int)),
        decreases stack.len() - j,
    {
        if j > 0 {
            out.push(47u8);
        }
        let c = &stack[j];
        let mut k: usize = 0;
        let ghost mid = out@;
        while k < c.len()
            invariant
                k <= c.len(),
                c@ == all[j as int],
                out@ == mid + c@.take(k as int),
            decreases c.len() - k,
        {
            out.push(c[k]);
            proof {
                assert(c@.take(k + 1) =~= c@.take(k as int).push(c@[k as int]));
                assert(out@ =~= mid + c@.take(k + 1));
            }
            k += 1;
        }
        proof {
            assert(c@.take(c@.len() as int) =~= c@);
            assert(all.take(j + 1).drop_last() =~~= all.take(j as int));
            assert(all.take(j + 1).last() == all[j as int]);
            if j == 0 {
                assert(joined(all.take(1)) == all[0]);
                assert(out@ =~= joined(all.take(j + 1)));
            } else {
                assert(out@ =~= joined(all.take(j + 1)));
            }
        }
        j += 1;
    }
    proof {
        assert(all.take(stack.len() as int) =~~= all);
    }
    out
}

} // verus!
