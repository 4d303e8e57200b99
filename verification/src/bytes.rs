//! Byte strings: searching, comparing, joining and splicing.

use vstd::prelude::*;
use vstd::slice::slice_subrange;

verus! {

/// `needle` stands in `hay` at offset `at`.
pub open spec fn matches_at(hay: Seq<u8>, needle: Seq<u8>, at: int) -> bool {
    &&& 0 <= at
    &&& at + needle.len() <= hay.len()
    &&& hay.subrange(at, at + needle.len()) == needle
}

/// `needle` stands in `hay` at offset `at` and at no smaller offset.
pub open spec fn is_first_match(hay: Seq<u8>, needle: Seq<u8>, at: int) -> bool {
    &&& matches_at(hay, needle, at)
    &&& forall|earlier: int| 0 <= earlier < at ==> !matches_at(hay, needle, earlier)
}

/// `needle` stands somewhere in `hay`.
pub open spec fn occurs(hay: Seq<u8>, needle: Seq<u8>) -> bool {
    exists|at: int| matches_at(hay, needle, at)
}

/// The smallest offset at which `needle` stands in `hay`, if there is one.
pub open spec fn first_match(hay: Seq<u8>, needle: Seq<u8>) -> Option<int> {
    if exists|at: int| is_first_match(hay, needle, at) {
        Some(choose|at: int| is_first_match(hay, needle, at))
    } else {
        None
    }
}

/// A first match is the first match: `first_match` returns it and no other.
pub proof fn lemma_first_match_is(hay: Seq<u8>, needle: Seq<u8>, at: int)
    requires
        is_first_match(hay, needle, at),
    ensures
        first_match(hay, needle) == Some(at),
{
    let chosen = choose|c: int| is_first_match(hay, needle, c);
    assert(is_first_match(hay, needle, chosen));
    if chosen < at {
        assert(!matches_at(hay, needle, chosen));
    }
    if at < chosen {
        assert(!matches_at(hay, needle, at));
    }
}

/// What `first_match` returns is a first match.
pub proof fn lemma_first_match_holds(hay: Seq<u8>, needle: Seq<u8>)
    ensures
        first_match(hay, needle) matches Some(at) ==> is_first_match(hay, needle, at),
        first_match(hay, needle) is None ==> !occurs(hay, needle),
{
    if first_match(hay, needle) is None && occurs(hay, needle) {
        let some = choose|at: int| matches_at(hay, needle, at);
        lemma_least_match(hay, needle, some);
    }
}

/// Below any match there is a first one.
proof fn lemma_least_match(hay: Seq<u8>, needle: Seq<u8>, at: int)
    requires
        matches_at(hay, needle, at),
    ensures
        exists|least: int| is_first_match(hay, needle, least),
    decreases at,
{
    if exists|earlier: int| 0 <= earlier < at && matches_at(hay, needle, earlier) {
        let earlier = choose|earlier: int| 0 <= earlier < at && matches_at(hay, needle, earlier);
        lemma_least_match(hay, needle, earlier);
    } else {
        assert(is_first_match(hay, needle, at));
    }
}

/// Without any match there is no first match.
pub proof fn lemma_first_match_none(hay: Seq<u8>, needle: Seq<u8>)
    requires
        !occurs(hay, needle),
    ensures
        first_match(hay, needle) is None,
{
    if exists|at: int| is_first_match(hay, needle, at) {
        let at = choose|at: int| is_first_match(hay, needle, at);
        assert(matches_at(hay, needle, at));
    }
}

/// `memchr::memmem::find`: the index of the first occurrence of `needle` in
/// `haystack`, or `None` where it does not occur. An empty needle is found
/// at index 0.
#[verifier::external_body]
fn memmem_find(haystack: &[u8], needle: &[u8]) -> (found: Option<usize>)
    ensures
        match found {
            Some(at) => is_first_match(haystack@, needle@, at as int),
            None => !occurs(haystack@, needle@),
        },
{
    memchr::memmem::find(haystack, needle)
}

/// The offset of the first occurrence of `needle` in `haystack`. An empty
/// needle occurs at offset 0 of every haystack.
pub fn find(haystack: &[u8], needle: &[u8]) -> (found: Option<usize>)
    ensures
        match found {
            Some(at) => first_match(haystack@, needle@) == Some(at as int) && is_first_match(
                haystack@,
                needle@,
                at as int,
            ),
            None => first_match(haystack@, needle@) is None && !occurs(haystack@, needle@),
        },
{
    let found = memmem_find(haystack, needle);
    proof {
        match found {
            Some(at) => lemma_first_match_is(haystack@, needle@, at as int),
            None => lemma_first_match_none(haystack@, needle@),
        }
    }
    found
}

/// Whether `needle` occurs in `haystack`.
pub fn contains(haystack: &[u8], needle: &[u8]) -> (present: bool)
    ensures
        present == first_match(haystack@, needle@).is_some(),
{
    find(haystack, needle).is_some()
}

/// Whether two byte strings hold the same bytes.
pub fn bytes_eq(a: &[u8], b: &[u8]) -> (same: bool)
    ensures
        same == (a@ == b@),
{
    if a.len() != b.len() {
        return false;
    }
    let mut i: usize = 0;
    while i < a.len()
        invariant
            i <= a@.len(),
            a@.len() == b@.len(),
            a@.subrange(0, i as int) == b@.subrange(0, i as int),
        decreases a@.len() - i,
    {
        if a[i] != b[i] {
            return false;
        }
        assert(a@.subrange(0, i + 1) == a@.subrange(0, i as int).push(a@[i as int]));
        assert(b@.subrange(0, i + 1) == b@.subrange(0, i as int).push(b@[i as int]));
        i += 1;
    }
    assert(a@ == a@.subrange(0, a@.len() as int));
    assert(b@ == b@.subrange(0, b@.len() as int));
    true
}

/// Whether `bytes` begins with `prefix`.
pub fn starts_with(bytes: &[u8], prefix: &[u8]) -> (yes: bool)
    ensures
        yes == prefix@.is_prefix_of(bytes@),
{
    if prefix.len() > bytes.len() {
        return false;
    }
    bytes_eq(slice_subrange(bytes, 0, prefix.len()), prefix)
}

/// Whether `bytes` ends with `suffix`.
pub fn ends_with(bytes: &[u8], suffix: &[u8]) -> (yes: bool)
    ensures
        yes == suffix@.is_suffix_of(bytes@),
{
    if suffix.len() > bytes.len() {
        return false;
    }
    bytes_eq(slice_subrange(bytes, bytes.len() - suffix.len(), bytes.len()), suffix)
}

/// `bytes` without `prefix` where it begins with it, `bytes` itself otherwise.
pub open spec fn without_prefix(bytes: Seq<u8>, prefix: Seq<u8>) -> Seq<u8> {
    if prefix.is_prefix_of(bytes) {
        bytes.skip(prefix.len() as int)
    } else {
        bytes
    }
}

/// Drops `prefix` from the front of `bytes` where it stands there.
pub fn strip_prefix<'b>(bytes: &'b [u8], prefix: &[u8]) -> (rest: &'b [u8])
    ensures
        rest@ == without_prefix(bytes@, prefix@),
{
    if starts_with(bytes, prefix) {
        slice_subrange(bytes, prefix.len(), bytes.len())
    } else {
        bytes
    }
}

/// The pieces written one after the other.
pub open spec fn joined(paths: Seq<&[u8]>) -> Seq<u8>
    decreases paths.len(),
{
    if paths.len() == 0 {
        Seq::empty()
    } else {
        joined(paths.drop_last()) + paths.last()@
    }
}

/// Appends every piece of `paths` to `bytes`, in order and with nothing
/// between them.
pub fn opt_path_join(bytes: &mut Vec<u8>, paths: &[&[u8]])
    ensures
        final(bytes)@ == old(bytes)@ + joined(paths@),
{
    let mut i: usize = 0;
    while i < paths.len()
        invariant
            i <= paths@.len(),
            bytes@ == old(bytes)@ + joined(paths@.subrange(0, i as int)),
        decreases paths@.len() - i,
    {
        let piece: &[u8] = paths[i];
        append(bytes, piece);
        proof {
            let upto = paths@.subrange(0, i + 1);
            assert(upto.drop_last() == paths@.subrange(0, i as int));
            assert(upto.last() == paths@[i as int]);
        }
        i += 1;
    }
    assert(paths@.subrange(0, paths@.len() as int) == paths@);
}

/// Appends `piece` to `bytes`.
pub fn append(bytes: &mut Vec<u8>, piece: &[u8])
    ensures
        final(bytes)@ == old(bytes)@ + piece@,
{
    let mut i: usize = 0;
    while i < piece.len()
        invariant
            i <= piece@.len(),
            bytes@ == old(bytes)@ + piece@.subrange(0, i as int),
        decreases piece@.len() - i,
    {
        bytes.push(piece[i]);
        assert(piece@.subrange(0, i + 1) == piece@.subrange(0, i as int).push(piece@[i as int]));
        i += 1;
    }
    assert(piece@.subrange(0, piece@.len() as int) == piece@);
}

/// `code` with the first occurrence of `pattern` cut out and `replace_with`
/// put in its place; `code` itself where `pattern` does not occur.
pub open spec fn replaced(code: Seq<u8>, pattern: Seq<u8>, replace_with: Seq<u8>) -> Seq<u8> {
    match first_match(code, pattern) {
        Some(at) => code.take(at) + replace_with + code.skip(at + pattern.len()),
        None => code,
    }
}

/// Replaces the first occurrence of `pattern` in `codebuf` by `replace_with`.
/// A buffer without the pattern is left as it is.
pub fn replace_bytes(codebuf: &mut Vec<u8>, pattern: &[u8], replace_with: &[u8])
    ensures
        final(codebuf)@ == replaced(old(codebuf)@, pattern@, replace_with@),
{
    let at = match find(codebuf.as_slice(), pattern) {
        Some(at) => at,
        None => {
            return ;
        },
    };
    proof {
        lemma_first_match_holds(codebuf@, pattern@);
    }
    let end = codebuf.len();
    let mut spliced: Vec<u8> = Vec::new();
    append(&mut spliced, slice_subrange(codebuf.as_slice(), 0, at));
    append(&mut spliced, replace_with);
    append(&mut spliced, slice_subrange(codebuf.as_slice(), at + pattern.len(), end));
    *codebuf = spliced;
}

} // verus!
