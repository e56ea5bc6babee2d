//! Resolution of the image set.
//!
//! The surrounding application reads the directory that contains the
//! requested image and hands its entries over as plain values; everything
//! here — filtering by supported extension, sorting by file name, locating
//! the starting image — is computed and verified on those values.

use crate::order::lemma_lex_le_antisymmetric;
use crate::order::lemma_lex_le_reflexive;
use crate::order::lemma_lex_le_total;
use crate::order::lemma_lex_le_transitive;
use crate::order::lex_le;
use crate::order::lex_le_bytes;
use vstd::prelude::*;

verus! {

/// Byte value of the ASCII dot separating a file name from its extension.
pub const DOT: u8 = 46;

/// Byte value of the ASCII letter `g`.
pub const LOWER_G: u8 = 103;

/// Byte value of the ASCII letter `j`.
pub const LOWER_J: u8 = 106;

/// Byte value of the ASCII letter `n`.
pub const LOWER_N: u8 = 110;

/// Byte value of the ASCII letter `p`.
pub const LOWER_P: u8 = 112;

/// One entry of a directory listing, as handed in by the application: the
/// entry's file name (the final path component) as raw bytes, and whether
/// the file system reported it as a regular file.
#[derive(Clone, Debug)]
pub struct DirEntry {
    pub name: Vec<u8>,
    pub is_regular_file: bool,
}

/// Index of the last dot within `name[1..=i]`, if any.  Position 0 is
/// excluded: a leading dot marks a hidden file, not an empty stem with an
/// extension.
pub open spec fn last_dot_from(name: Seq<u8>, i: int) -> Option<int>
    decreases i,
{
    if i < 1 {
        None
    } else if name[i] == DOT {
        Some(i)
    } else {
        last_dot_from(name, i - 1)
    }
}

/// The extension of a file name: the bytes after the last dot, provided the
/// dot is preceded by a non-empty stem.  `None` when the name has no such
/// dot.
pub open spec fn extension_of(name: Seq<u8>) -> Option<Seq<u8>> {
    match last_dot_from(name, name.len() - 1) {
        None => None,
        Some(j) => Some(name.subrange(j + 1, name.len() as int)),
    }
}

pub open spec fn png_extension() -> Seq<u8> {
    seq![LOWER_P, LOWER_N, LOWER_G]
}

pub open spec fn jpg_extension() -> Seq<u8> {
    seq![LOWER_J, LOWER_P, LOWER_G]
}

/// The fixed allow-list of supported image extensions.
pub open spec fn is_supported_extension(ext: Seq<u8>) -> bool {
    ext == png_extension() || ext == jpg_extension()
}

/// What `is_file_supported` reports of an entry: nothing for a non-file or
/// a name without an extension, otherwise whether the extension is
/// supported.
pub open spec fn spec_file_supported(entry: DirEntry) -> Option<bool> {
    if !entry.is_regular_file {
        None
    } else {
        match extension_of(entry.name@) {
            None => None,
            Some(ext) => Some(is_supported_extension(ext)),
        }
    }
}

/// Whether a directory entry belongs in the image set.
pub open spec fn qualifies(entry: DirEntry) -> bool {
    spec_file_supported(entry) == Some(true)
}

/// Reports whether a directory entry is a supported image file: `None` when
/// the entry is not a regular file or its name has no extension, otherwise
/// whether the extension is in the supported set.
pub fn is_file_supported(entry: &DirEntry) -> (r: Option<bool>)
    ensures
        r == spec_file_supported(*entry),
{
    if !entry.is_regular_file {
        return None;
    }
    let n = entry.name.len();
    if n < 2 {
        return None;
    }
    let mut k: usize = n - 1;
    while 1 <= k && entry.name[k] != DOT
        invariant
            k < n,
            n == entry.name@.len(),
            2 <= n,
            last_dot_from(entry.name@, n - 1) == last_dot_from(entry.name@, k as int),
        decreases k,
    {
        k = k - 1;
    }
    if k == 0 {
        return None;
    }
    let j = k;
    assert(last_dot_from(entry.name@, n - 1) == Some(j as int));
    let ghost ext = entry.name@.subrange(j + 1, n as int);
    assert(extension_of(entry.name@) == Some(ext));
    if n - j - 1 == 3 {
        let b0 = entry.name[j + 1];
        let b1 = entry.name[j + 2];
        let b2 = entry.name[j + 3];
        let supported = (b0 == LOWER_P && b1 == LOWER_N && b2 == LOWER_G) || (b0 == LOWER_J && b1
            == LOWER_P && b2 == LOWER_G);
        proof {
            assert(ext.len() == 3);
            assert(ext[0] == b0 && ext[1] == b1 && ext[2] == b2);
            if supported {
                if b0 == LOWER_P {
                    assert(ext =~= png_extension());
                } else {
                    assert(ext =~= jpg_extension());
                }
            } else {
                assert(ext != png_extension() && ext != jpg_extension()) by {
                    assert(png_extension()[0] == LOWER_P && png_extension()[1] == LOWER_N
                        && png_extension()[2] == LOWER_G);
                    assert(jpg_extension()[0] == LOWER_J && jpg_extension()[1] == LOWER_P
                        && jpg_extension()[2] == LOWER_G);
                }
            }
        }
        Some(supported)
    } else {
        proof {
            assert(ext.len() != 3);
            assert(png_extension().len() == 3 && jpg_extension().len() == 3);
        }
        Some(false)
    }
}

/// The views of a sequence of names.
pub open spec fn names_of(files: Seq<Vec<u8>>) -> Seq<Seq<u8>> {
    Seq::new(files.len(), |i: int| files[i]@)
}

/// Names in byte-wise lexicographic order.
pub open spec fn sorted_names(names: Seq<Seq<u8>>) -> bool {
    forall|i: int, j: int|
        0 <= i < j < names.len() ==> lex_le(#[trigger] names[i], #[trigger] names[j])
}

/// The names of the listing's qualifying entries, in listing order.
pub open spec fn qualifying(entries: Seq<DirEntry>) -> Seq<Seq<u8>>
    decreases entries.len(),
{
    if entries.len() == 0 {
        Seq::empty()
    } else if qualifies(entries.last()) {
        qualifying(entries.drop_last()).push(entries.last().name@)
    } else {
        qualifying(entries.drop_last())
    }
}

/// Copies a name.
fn clone_name(name: &Vec<u8>) -> (r: Vec<u8>)
    ensures
        r@ == name@,
{
    let r = name.clone();
    proof {
        assert(r@ =~= name@);
    }
    r
}

/// Inserting an element anywhere in a sequence adds it, and nothing else,
/// to the sequence's multiset of elements.
proof fn lemma_to_multiset_insert<A>(s: Seq<A>, p: int, x: A)
    requires
        0 <= p <= s.len(),
    ensures
        s.insert(p, x).to_multiset() == s.to_multiset().insert(x),
{
    broadcast use vstd::seq_lib::group_to_multiset_ensures;

    let l = s.subrange(0, p);
    let r = s.subrange(p, s.len() as int);
    assert(s.insert(p, x) =~= l.push(x) + r);
    assert(s =~= l + r);
    vstd::seq_lib::lemma_multiset_commutative(l.push(x), r);
    vstd::seq_lib::lemma_multiset_commutative(l, r);
    assert(l.to_multiset().insert(x).add(r.to_multiset()) =~= l.to_multiset().add(
        r.to_multiset(),
    ).insert(x));
}

/// Keeps the names of the qualifying entries, in listing order.
fn filter_supported(entries: &Vec<DirEntry>) -> (r: Vec<Vec<u8>>)
    ensures
        names_of(r@) == qualifying(entries@),
{
    let mut kept: Vec<Vec<u8>> = Vec::new();
    let mut i: usize = 0;
    proof {
        assert(entries@.subrange(0, 0) =~= Seq::<DirEntry>::empty());
        assert(names_of(kept@) =~= Seq::<Seq<u8>>::empty());
    }
    while i < entries.len()
        invariant
            i <= entries@.len(),
            names_of(kept@) == qualifying(entries@.subrange(0, i as int)),
        decreases entries@.len() - i,
    {
        let ghost prev = names_of(kept@);
        let supported = match is_file_supported(&entries[i]) {
            Some(s) => s,
            None => false,
        };
        if supported {
            let name = clone_name(&entries[i].name);
            kept.push(name);
            proof {
                assert(names_of(kept@) =~= prev.push(entries@[i as int].name@));
            }
        }
        proof {
            let sub = entries@.subrange(0, i + 1);
            assert(sub.drop_last() =~= entries@.subrange(0, i as int));
            assert(sub.last() == entries@[i as int]);
        }
        i = i + 1;
    }
    proof {
        assert(entries@.subrange(0, entries@.len() as int) =~= entries@);
    }
    kept
}

/// Sorts names by the byte-wise lexicographic order; the result holds
/// exactly the names given.
fn sort_names(names: Vec<Vec<u8>>) -> (r: Vec<Vec<u8>>)
    ensures
        sorted_names(names_of(r@)),
        names_of(r@).to_multiset() == names_of(names@).to_multiset(),
{
    let mut out: Vec<Vec<u8>> = Vec::new();
    let mut i: usize = 0;
    proof {
        broadcast use vstd::seq_lib::group_to_multiset_ensures;

        assert(names_of(names@).subrange(0, 0) =~= Seq::<Seq<u8>>::empty());
        assert(names_of(out@) =~= Seq::<Seq<u8>>::empty());
    }
    while i < names.len()
        invariant
            i <= names@.len(),
            sorted_names(names_of(out@)),
            names_of(out@).to_multiset() == names_of(names@).subrange(0, i as int).to_multiset(),
        decreases names@.len() - i,
    {
        let x = clone_name(&names[i]);
        let ghost xv = x@;
        let ghost before = names_of(out@);
        let mut p: usize = 0;
        while p < out.len() && lex_le_bytes(&out[p], &x)
            invariant
                p <= out@.len(),
                x@ == xv,
                names_of(out@) == before,
                forall|k: int| 0 <= k < p ==> lex_le(#[trigger] before[k], xv),
            decreases out@.len() - p,
        {
            p = p + 1;
        }
        proof {
            if p < before.len() {
                lemma_lex_le_total(before[p as int], xv);
                assert forall|k: int| p <= k < before.len() implies lex_le(
                    xv,
                    #[trigger] before[k],
                ) by {
                    if k > p {
                        lemma_lex_le_transitive(xv, before[p as int], before[k]);
                    }
                }
            }
        }
        out.insert(p, x);
        proof {
            broadcast use vstd::seq_lib::group_to_multiset_ensures;

            let after = names_of(out@);
            assert(after =~= before.insert(p as int, xv));
            assert forall|a: int, b: int| 0 <= a < b < after.len() implies lex_le(
                #[trigger] after[a],
                #[trigger] after[b],
            ) by {
                if b < p {
                    assert(after[a] == before[a] && after[b] == before[b]);
                } else if a < p && b == p {
                    assert(after[a] == before[a] && after[b] == xv);
                } else if a < p && b > p {
                    assert(after[a] == before[a] && after[b] == before[b - 1]);
                } else if a == p {
                    assert(after[a] == xv && after[b] == before[b - 1]);
                } else {
                    assert(after[a] == before[a - 1] && after[b] == before[b - 1]);
                }
            }
            lemma_to_multiset_insert(before, p as int, xv);
            let subs = names_of(names@);
            assert(subs.subrange(0, i + 1) =~= subs.subrange(0, i as int).push(
                names@[i as int]@,
            ));
        }
        i = i + 1;
    }
    proof {
        assert(names_of(names@).subrange(0, names@.len() as int) =~= names_of(names@));
    }
    out
}

/// Builds the contents of the image set from a directory listing: the names
/// of the qualifying entries, sorted by byte-wise name order.
pub fn get_files(entries: &Vec<DirEntry>) -> (r: Vec<Vec<u8>>)
    ensures
        sorted_names(names_of(r@)),
        names_of(r@).to_multiset() == qualifying(entries@).to_multiset(),
{
    let kept = filter_supported(entries);
    sort_names(kept)
}

/// The head of a sorted sequence precedes every name the sequence holds.
proof fn lemma_sorted_head_minimal(s: Seq<Seq<u8>>, x: Seq<u8>)
    requires
        sorted_names(s),
        s.len() > 0,
        s.contains(x),
    ensures
        lex_le(s[0], x),
{
    let i = choose|i: int| 0 <= i < s.len() && s[i] == x;
    if i == 0 {
        lemma_lex_le_reflexive(x);
    }
}

/// Law: the sorted order is unique.  Two sorted sequences that hold the
/// same names, with the same multiplicities, are the same sequence — so
/// the image set never depends on the order in which the directory
/// listing arrived.
pub proof fn lemma_sorted_names_unique(a: Seq<Seq<u8>>, b: Seq<Seq<u8>>)
    requires
        sorted_names(a),
        sorted_names(b),
        a.to_multiset() == b.to_multiset(),
    ensures
        a == b,
    decreases a.len(),
{
    broadcast use vstd::seq_lib::group_to_multiset_ensures;

    if a.len() == 0 {
        assert(a =~= b);
    } else {
        assert(b.to_multiset().contains(a[0]));
        assert(a.to_multiset().contains(b[0]));
        lemma_sorted_head_minimal(a, b[0]);
        lemma_sorted_head_minimal(b, a[0]);
        lemma_lex_le_antisymmetric(a[0], b[0]);
        let ta = a.drop_first();
        let tb = b.drop_first();
        assert(a.remove(0) =~= ta);
        assert(b.remove(0) =~= tb);
        assert(ta.to_multiset() == tb.to_multiset());
        assert(sorted_names(ta)) by {
            assert(forall|i: int, j: int|
                0 <= i < j < ta.len() ==> ta[i] == a[i + 1] && ta[j] == a[j + 1]);
        }
        assert(sorted_names(tb)) by {
            assert(forall|i: int, j: int|
                0 <= i < j < tb.len() ==> tb[i] == b[i + 1] && tb[j] == b[j + 1]);
        }
        lemma_sorted_names_unique(ta, tb);
        assert forall|i: int| 0 <= i < a.len() implies a[i] == b[i] by {
            if i > 0 {
                assert(a[i] == ta[i - 1] && b[i] == tb[i - 1]);
            }
        }
        assert(a =~= b);
    }
}

/// Law: resolution is deterministic.  Any two outcomes that satisfy the
/// success conditions for the same listing and starting name agree on the
/// whole sequence and on the index.
pub proof fn lemma_resolution_deterministic(
    names1: Seq<Seq<u8>>,
    index1: int,
    names2: Seq<Seq<u8>>,
    index2: int,
    entries: Seq<DirEntry>,
    start: Seq<u8>,
)
    requires
        resolution_ok(names1, index1, entries, start),
        resolution_ok(names2, index2, entries, start),
    ensures
        names1 == names2,
        index1 == index2,
{
    lemma_sorted_names_unique(names1, names2);
    if index1 < index2 {
        assert(names2[index1] != start);
    }
    if index2 < index1 {
        assert(names1[index2] != start);
    }
}

/// Byte-for-byte equality of two names.
fn names_equal(a: &Vec<u8>, b: &Vec<u8>) -> (r: bool)
    ensures
        r == (a@ == b@),
{
    if a.len() != b.len() {
        return false;
    }
    let mut i: usize = 0;
    while i < a.len()
        invariant
            i <= a@.len(),
            a@.len() == b@.len(),
            forall|k: int| 0 <= k < i ==> a@[k] == b@[k],
        decreases a@.len() - i,
    {
        if a[i] != b[i] {
            return false;
        }
        i = i + 1;
    }
    proof {
        assert(a@ =~= b@);
    }
    true
}

/// Position of `file` among `files`: the first index holding an equal name,
/// or `None` when no name is equal.
pub fn get_file_id(file: &Vec<u8>, files: &Vec<Vec<u8>>) -> (r: Option<usize>)
    ensures
        match r {
            Some(i) => i < files@.len() && names_of(files@)[i as int] == file@ && forall|j: int|
                0 <= j < i ==> names_of(files@)[j] != file@,
            None => forall|j: int| 0 <= j < files@.len() ==> names_of(files@)[j] != file@,
        },
{
    let mut i: usize = 0;
    while i < files.len()
        invariant
            i <= files@.len(),
            forall|j: int| 0 <= j < i ==> names_of(files@)[j] != file@,
        decreases files@.len() - i,
    {
        if names_equal(&files[i], file) {
            return Some(i);
        }
        i = i + 1;
    }
    None
}

/// The errors of the one-time resolution step.  `DirectoryUnreadable` is
/// raised by the application when listing the directory fails and is never
/// produced here; the other two come from `resolve`.
#[derive(Clone, Copy, Debug, PartialEq, Eq, Structural)]
pub enum ResolveError {
    DirectoryUnreadable,
    EmptySet,
    StartNotFound,
}

/// The sorted, non-empty set of sibling images discovered at startup,
/// immutable for the lifetime of the session.
#[derive(Clone, Debug)]
pub struct ImageSet {
    files: Vec<Vec<u8>>,
}

impl View for ImageSet {
    type V = Seq<Seq<u8>>;

    closed spec fn view(&self) -> Seq<Seq<u8>> {
        names_of(self.files@)
    }
}

impl ImageSet {
    /// Invariant: at least one image, names in sorted order.
    pub open spec fn wf(self) -> bool {
        self@.len() > 0 && sorted_names(self@)
    }

    /// The number of images in the set.
    pub fn len(&self) -> (n: usize)
        ensures
            n == self@.len(),
    {
        self.files.len()
    }

    /// The name at a position.
    pub fn get(&self, i: usize) -> (name: &Vec<u8>)
        requires
            i < self@.len(),
        ensures
            name@ == self@[i as int],
    {
        &self.files[i]
    }
}

/// What a successful resolution returns: the sorted sequence of qualifying
/// names, and the first position of the starting name within it.
pub open spec fn resolution_ok(
    names: Seq<Seq<u8>>,
    index: int,
    entries: Seq<DirEntry>,
    start: Seq<u8>,
) -> bool {
    &&& sorted_names(names)
    &&& names.to_multiset() == qualifying(entries).to_multiset()
    &&& 0 <= index < names.len()
    &&& names[index] == start
    &&& forall|j: int| 0 <= j < index ==> names[j] != start
}

/// Resolves the image set from a directory listing and the starting file's
/// name: filters the qualifying entries, sorts them by name, and locates
/// the starting name.  Fails with `EmptySet` when no entry qualifies, and
/// with `StartNotFound` when the starting name is not among the qualifying
/// names.
pub fn resolve(start: &Vec<u8>, entries: &Vec<DirEntry>) -> (r: Result<
    (ImageSet, usize),
    ResolveError,
>)
    ensures
        match r {
            Ok(p) => p.0.wf() && resolution_ok(p.0@, p.1 as int, entries@, start@),
            Err(ResolveError::EmptySet) => qualifying(entries@).len() == 0,
            Err(ResolveError::StartNotFound) => qualifying(entries@).len() > 0 && !qualifying(
                entries@,
            ).contains(start@),
            Err(ResolveError::DirectoryUnreadable) => false,
        },
{
    let files = get_files(entries);
    proof {
        broadcast use vstd::seq_lib::group_to_multiset_ensures;

    }
    if files.is_empty() {
        proof {
            assert(names_of(files@).len() == 0);
            assert(qualifying(entries@).to_multiset().len() == 0);
        }
        return Err(ResolveError::EmptySet);
    }
    match get_file_id(start, &files) {
        Some(i) => Ok((ImageSet { files }, i)),
        None => {
            proof {
                assert forall|j: int|
                    0 <= j < qualifying(entries@).len() implies #[trigger] qualifying(entries@)[j]
                    != start@ by {
                    if qualifying(entries@)[j] == start@ {
                        assert(qualifying(entries@).contains(start@));
                        assert(qualifying(entries@).to_multiset().count(start@) > 0);
                        assert(names_of(files@).contains(start@));
                        let w = choose|k: int|
                            0 <= k < names_of(files@).len() && names_of(files@)[k] == start@;
                        assert(names_of(files@)[w] == start@);
                    }
                }
                assert(qualifying(entries@).len() > 0) by {
                    assert(names_of(files@).to_multiset().len() > 0);
                }
                assert(!qualifying(entries@).contains(start@));
            }
            Err(ResolveError::StartNotFound)
        },
    }
}

} // verus!
