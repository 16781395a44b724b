//! Runtime library sections: a source holds sections, each introduced by a
//! `-- SECTION name` line and followed by `-- NEEDS name` lines for the
//! sections it depends on, then by its Lua contents.

use vstd::multiset::Multiset;
use vstd::prelude::*;

use crate::library::text::{
    byte_end, lemma_find_pattern_bounds, byte_strings, compare_bytes, find_pattern, is_name, is_name_range, is_name_start,
    is_name_start_byte, lemma_byte_end_bounds, lemma_less_order, lemma_name_end_bounds,
    lemma_skip_spaces_bounds, lemma_trim_end_bounds, less, matches_at, name_end, pattern_at,
    scan_byte, scan_name, scan_pattern, scan_spaces, scan_trailing_spaces, skip_spaces, sorted,
    strictly_sorted, trim_end,
};

verus! {

/// The bytes of `-- SECTION `, which opens a section.
pub open spec fn section_header() -> Seq<u8> {
    seq![0x2Du8, 0x2D, 0x20, 0x53, 0x45, 0x43, 0x54, 0x49, 0x4F, 0x4E, 0x20]
}

/// The bytes of `-- NEEDS `, which names a section that a section depends on.
pub open spec fn needs_header() -> Seq<u8> {
    seq![0x2Du8, 0x2D, 0x20, 0x4E, 0x45, 0x45, 0x44, 0x53, 0x20]
}

/// The bytes of `local `, which opens a declaration of locals.
pub open spec fn local_header() -> Seq<u8> {
    seq![0x6Cu8, 0x6F, 0x63, 0x61, 0x6C, 0x20]
}

/// The bytes of `local function `, which opens a declaration of a local function.
pub open spec fn function_header() -> Seq<u8> {
    seq![0x6Cu8, 0x6F, 0x63, 0x61, 0x6C, 0x20, 0x66, 0x75, 0x6E, 0x63, 0x74, 0x69, 0x6F, 0x6E, 0x20]
}

fn section_header_bytes() -> (h: [u8; 11])
    ensures
        h@ == section_header(),
{
    let h = [0x2Du8, 0x2D, 0x20, 0x53, 0x45, 0x43, 0x54, 0x49, 0x4F, 0x4E, 0x20];
    assert(h@ =~= section_header());
    h
}

fn needs_header_bytes() -> (h: [u8; 9])
    ensures
        h@ == needs_header(),
{
    let h = [0x2Du8, 0x2D, 0x20, 0x4E, 0x45, 0x45, 0x44, 0x53, 0x20];
    assert(h@ =~= needs_header());
    h
}

fn local_header_bytes() -> (h: [u8; 6])
    ensures
        h@ == local_header(),
{
    let h = [0x6Cu8, 0x6F, 0x63, 0x61, 0x6C, 0x20];
    assert(h@ =~= local_header());
    h
}

fn function_header_bytes() -> (h: [u8; 15])
    ensures
        h@ == function_header(),
{
    let h = [0x6Cu8, 0x6F, 0x63, 0x61, 0x6C, 0x20, 0x66, 0x75, 0x6E, 0x63, 0x74, 0x69, 0x6F, 0x6E, 0x20];
    assert(h@ =~= function_header());
    h
}

/// The names that the comma-separated list in `s` from `i` to `hi` declares:
/// each piece with its surrounding whitespace dropped, when it is a name.
pub open spec fn local_names(s: Seq<u8>, i: int, hi: int) -> Seq<Seq<u8>>
    decreases hi + 1 - i,
{
    if i < 0 || i > hi {
        Seq::empty()
    } else {
        let k = byte_end(s, i, hi, 0x2C);
        let a = skip_spaces(s, i, k);
        let piece = s.subrange(a, trim_end(s, a, k));
        let head = if is_name(piece) {
            seq![piece]
        } else {
            Seq::empty()
        };
        if i <= k < hi {
            head + local_names(s, k + 1, hi)
        } else {
            head
        }
    }
}

/// The names that the line of `s` from `lo` to `hi` declares at the top
/// level: the name of a `local function`, or the names before the `=` of a
/// `local` declaration.
pub open spec fn line_definitions(s: Seq<u8>, lo: int, hi: int) -> Seq<Seq<u8>> {
    if lo + function_header().len() <= hi && pattern_at(s, lo, function_header()) {
        let r = lo + function_header().len();
        let name = s.subrange(r, name_end(s, r, hi));
        if is_name(name) {
            seq![name]
        } else {
            Seq::empty()
        }
    } else if lo + local_header().len() <= hi && pattern_at(s, lo, local_header()) {
        let r = lo + local_header().len();
        local_names(s, r, byte_end(s, r, hi, 0x3D))
    } else {
        Seq::empty()
    }
}

/// The position of the line feed that ends the line of `s` at `i`, or the
/// length of `s` for the last line.
pub open spec fn line_end(s: Seq<u8>, i: int) -> int {
    byte_end(s, i, s.len() as int, 0x0A)
}

/// The end of the text of the line of `s` at `i`: its line feed, or the
/// carriage return before it.
pub open spec fn line_stop(s: Seq<u8>, i: int) -> int {
    let n = line_end(s, i);
    if i < n < s.len() && s[n - 1] == 0x0D {
        n - 1
    } else {
        n
    }
}

/// The names that the lines of `s` from `i` on declare at the top level, in
/// order.
pub open spec fn definitions_from(s: Seq<u8>, i: int) -> Seq<Seq<u8>>
    decreases s.len() - i,
{
    if i < 0 || i >= s.len() {
        Seq::empty()
    } else {
        let n = line_end(s, i);
        let here = line_definitions(s, i, line_stop(s, i));
        if i <= n < s.len() {
            here + definitions_from(s, n + 1)
        } else {
            here
        }
    }
}

/// Every identifier in `s` from `i` on, in order: each maximal run of name
/// parts that starts with a name start.
pub open spec fn mentions_from(s: Seq<u8>, i: int) -> Seq<Seq<u8>>
    decreases s.len() - i,
{
    if i < 0 || i >= s.len() {
        Seq::empty()
    } else if is_name_start(s[i]) {
        let e = name_end(s, i + 1, s.len() as int);
        if i < e <= s.len() {
            seq![s.subrange(i, e)] + mentions_from(s, e)
        } else {
            Seq::empty()
        }
    } else {
        mentions_from(s, i + 1)
    }
}

/// Whether `names` holds each name of `found` exactly once, in byte-wise order.
pub open spec fn sorted_distinct_of(names: Seq<Seq<u8>>, found: Seq<Seq<u8>>) -> bool {
    &&& strictly_sorted(names)
    &&& forall|x: Seq<u8>| names.contains(x) <==> found.contains(x)
}

/// Copies the bytes of `s` between `lo` and `hi`.
fn copy_range(s: &[u8], lo: usize, hi: usize) -> (v: Vec<u8>)
    requires
        lo <= hi <= s@.len(),
    ensures
        v@ == s@.subrange(lo as int, hi as int),
{
    let mut v: Vec<u8> = Vec::new();
    let mut k = lo;
    while k < hi
        invariant
            lo <= k <= hi <= s@.len(),
            v@ == s@.subrange(lo as int, k as int),
        decreases hi - k,
    {
        v.push(s[k]);
        k = k + 1;
        assert(v@ =~= s@.subrange(lo as int, k as int));
    }
    v
}

/// Appends the names that the comma-separated list in `s` from `i` to `hi`
/// declares to `definitions`.
fn parse_local_names(s: &[u8], i: usize, hi: usize, definitions: &mut Vec<Vec<u8>>)
    requires
        i <= hi <= s@.len(),
    ensures
        byte_strings(final(definitions)@) == byte_strings(old(definitions)@) + local_names(
            s@,
            i as int,
            hi as int,
        ),
{
    let ghost first = i as int;
    let ghost total = byte_strings(definitions@) + local_names(s@, i as int, hi as int);
    let mut pos = i;
    loop
        invariant
            pos <= hi <= s@.len(),
            first == i,
            total == byte_strings(old(definitions)@) + local_names(s@, first, hi as int),
            byte_strings(definitions@) + local_names(s@, pos as int, hi as int) == total,
        decreases hi - pos,
    {
        let k = scan_byte(s, pos, hi, 0x2C);
        let a = scan_spaces(s, pos, k);
        let b = scan_trailing_spaces(s, a, k);
        let ghost before = byte_strings(definitions@);
        let ghost piece = s@.subrange(a as int, b as int);
        let ghost head = if is_name(piece) {
            seq![piece]
        } else {
            Seq::<Seq<u8>>::empty()
        };
        if is_name_range(s, a, b) {
            let name = copy_range(s, a, b);
            definitions.push(name);
        }
        assert(byte_strings(definitions@) =~= before + head);
        if k >= hi {
            assert(local_names(s@, pos as int, hi as int) == head);
            assert(byte_strings(definitions@) =~= total);
            return;
        }
        assert(local_names(s@, pos as int, hi as int) == head + local_names(s@, k + 1, hi as int));
        assert(before + (head + local_names(s@, k + 1, hi as int)) =~= (before + head)
            + local_names(s@, k + 1, hi as int));
        pos = k + 1;
    }
}

/// Appends the names that the line of `s` from `lo` to `hi` declares at the
/// top level to `definitions`.
fn parse_definition(s: &[u8], lo: usize, hi: usize, definitions: &mut Vec<Vec<u8>>)
    requires
        lo <= hi <= s@.len(),
    ensures
        byte_strings(final(definitions)@) == byte_strings(old(definitions)@) + line_definitions(
            s@,
            lo as int,
            hi as int,
        ),
{
    let function = function_header_bytes();
    let local = local_header_bytes();
    if hi - lo >= 15 && matches_at(s, lo, &function) {
        let r = lo + 15;
        let end = scan_name(s, r, hi);
        let ghost before = byte_strings(definitions@);
        if is_name_range(s, r, end) {
            let name = copy_range(s, r, end);
            definitions.push(name);
        }
        assert(byte_strings(definitions@) =~= before + line_definitions(s@, lo as int, hi as int));
        return;
    }
    if hi - lo >= 6 && matches_at(s, lo, &local) {
        let r = lo + 6;
        let end = scan_byte(s, r, hi, 0x3D);
        parse_local_names(s, r, end, definitions);
        return;
    }
    assert(line_definitions(s@, lo as int, hi as int) == Seq::<Seq<u8>>::empty());
    assert(byte_strings(definitions@) =~= byte_strings(definitions@) + Seq::<Seq<u8>>::empty());
}

/// Finds every top level local that `contents` declares, in order.
///
/// Only lines that start with a declaration at the first column are read,
/// since a deeper declaration is scoped to a nested block.
fn parse_definitions(contents: &[u8]) -> (definitions: Vec<Vec<u8>>)
    ensures
        byte_strings(definitions@) == definitions_from(contents@, 0),
{
    let mut definitions: Vec<Vec<u8>> = Vec::new();
    let n = contents.len();
    let mut i: usize = 0;
    while i < n
        invariant
            n == contents@.len(),
            i <= n,
            byte_strings(definitions@) + definitions_from(contents@, i as int) == definitions_from(
                contents@,
                0,
            ),
        decreases n - i,
    {
        let end = scan_byte(contents, i, n, 0x0A);
        let stop = if i < end && end < n && contents[end - 1] == 0x0D {
            end - 1
        } else {
            end
        };
        let ghost before = byte_strings(definitions@);
        parse_definition(contents, i, stop, &mut definitions);
        let ghost here = line_definitions(contents@, i as int, stop as int);
        if end >= n {
            assert(definitions_from(contents@, i as int) == here);
            assert(byte_strings(definitions@) + definitions_from(contents@, n as int) =~= before
                + here);
            i = n;
        } else {
            assert(definitions_from(contents@, i as int) == here + definitions_from(
                contents@,
                end + 1,
            ));
            assert(before + (here + definitions_from(contents@, end + 1)) =~= (before + here)
                + definitions_from(contents@, end + 1));
            i = end + 1;
        }
    }
    assert(definitions_from(contents@, i as int) == Seq::<Seq<u8>>::empty());
    assert(byte_strings(definitions@) =~= byte_strings(definitions@) + Seq::<Seq<u8>>::empty());
    definitions
}

/// Inserts `name` into the strictly sorted `names`, unless it is already there.
fn insert_sorted(names: &mut Vec<Vec<u8>>, name: Vec<u8>)
    requires
        strictly_sorted(byte_strings(old(names)@)),
    ensures
        strictly_sorted(byte_strings(final(names)@)),
        forall|x: Seq<u8>|
            byte_strings(final(names)@).contains(x) <==> (byte_strings(old(names)@).contains(x)
                || x == name@),
{
    let ghost old_names = byte_strings(names@);
    let mut p: usize = 0;
    while p < names.len() && compare_bytes(names[p].as_slice(), name.as_slice()) < 0
        invariant
            byte_strings(names@) == old_names,
            p <= names@.len(),
            forall|j: int| 0 <= j < p ==> less(#[trigger] old_names[j], name@),
        decreases names@.len() - p,
    {
        p = p + 1;
    }
    if p < names.len() && compare_bytes(names[p].as_slice(), name.as_slice()) == 0 {
        assert(old_names[p as int] == name@);
        return;
    }
    let ghost value = name@;
    names.insert(p, name);
    proof {
        let t = byte_strings(names@);
        assert(t =~= old_names.insert(p as int, value));
        if p < old_names.len() {
            lemma_less_order(value, old_names[p as int], value);
            assert(less(value, old_names[p as int]));
        }
        assert forall|i: int, j: int| 0 <= i < j < t.len() implies less(#[trigger] t[i], #[trigger] t[j]) by {
            if j < p {
                assert(less(old_names[i], old_names[j]));
            } else if j == p {
                assert(less(old_names[i], value));
            } else if i < p {
                assert(less(old_names[i], old_names[j - 1]));
            } else if i == p {
                if j - 1 > p {
                    assert(less(old_names[p as int], old_names[j - 1]));
                    lemma_less_order(value, old_names[p as int], old_names[j - 1]);
                }
            } else {
                assert(less(old_names[i - 1], old_names[j - 1]));
            }
        }
        assert forall|x: Seq<u8>| t.contains(x) <==> (old_names.contains(x) || x == value) by {
            if t.contains(x) {
                let k = choose|k: int| 0 <= k < t.len() && t[k] == x;
                if k < p {
                    assert(old_names[k] == x);
                } else if k > p {
                    assert(old_names[k - 1] == x);
                }
            }
            if old_names.contains(x) {
                let k = choose|k: int| 0 <= k < old_names.len() && old_names[k] == x;
                if k < p {
                    assert(t[k] == x);
                } else {
                    assert(t[k + 1] == x);
                }
            }
            if x == value {
                assert(t[p as int] == x);
            }
        }
    }
}

/// Finds every identifier that `contents` mentions, each once, sorted.
///
/// Comments and strings are scanned too: the result only ever widens the set
/// of imported names, so a superset is safe, whereas a missing name would
/// silently turn into a global lookup.
fn parse_mentions(contents: &[u8]) -> (mentions: Vec<Vec<u8>>)
    ensures
        sorted_distinct_of(byte_strings(mentions@), mentions_from(contents@, 0)),
{
    let mut mentions: Vec<Vec<u8>> = Vec::new();
    let ghost mut seen: Seq<Seq<u8>> = Seq::empty();
    let n = contents.len();
    let mut i: usize = 0;
    assert(byte_strings(mentions@) =~= Seq::<Seq<u8>>::empty());
    while i < n
        invariant
            n == contents@.len(),
            i <= n,
            seen + mentions_from(contents@, i as int) == mentions_from(contents@, 0),
            strictly_sorted(byte_strings(mentions@)),
            forall|x: Seq<u8>| byte_strings(mentions@).contains(x) <==> seen.contains(x),
        decreases n - i,
    {
        if is_name_start_byte(contents[i]) {
            let end = scan_name(contents, i + 1, n);
            let token = copy_range(contents, i, end);
            let ghost value = token@;
            let ghost before = byte_strings(mentions@);
            assert(forall|x: Seq<u8>| before.contains(x) <==> seen.contains(x));
            insert_sorted(&mut mentions, token);
            proof {
                assert(mentions_from(contents@, i as int) == seq![value] + mentions_from(
                    contents@,
                    end as int,
                ));
                assert(seen + (seq![value] + mentions_from(contents@, end as int)) =~= seen.push(value)
                    + mentions_from(contents@, end as int));
                assert forall|x: Seq<u8>| seen.push(value).contains(x) <==> (seen.contains(x)
                    || x == value) by {
                    if seen.push(value).contains(x) {
                        let k = choose|k: int| 0 <= k < seen.len() + 1 && seen.push(value)[k] == x;
                        if k < seen.len() {
                            assert(seen[k] == x);
                        }
                    }
                    if seen.contains(x) {
                        let k = choose|k: int| 0 <= k < seen.len() && seen[k] == x;
                        assert(seen.push(value)[k] == x);
                    }
                    if x == value {
                        assert(seen.push(value)[seen.len() as int] == x);
                    }
                }
                let now = byte_strings(mentions@);
                assert forall|x: Seq<u8>| now.contains(x) <==> seen.push(value).contains(x) by {
                    assert(now.contains(x) <==> (before.contains(x) || x == value));
                    assert(before.contains(x) <==> seen.contains(x));
                }
                seen = seen.push(value);
            }
            i = end;
        } else {
            i = i + 1;
        }
    }
    assert(seen =~= mentions_from(contents@, 0));
    mentions
}

/// The header line of `s` at `i` that starts with `header`: the bounds of its
/// data, without trailing whitespace, and the position after its line feed and
/// the whitespace that follows; none when `s` does not continue with `header`
/// or the line has no line feed.
pub open spec fn header_at(s: Seq<u8>, i: int, header: Seq<u8>) -> Option<(int, int, int)> {
    if !pattern_at(s, i, header) {
        None
    } else {
        let d = i + header.len();
        let n = byte_end(s, d, s.len() as int, 0x0A);
        if n >= s.len() {
            None
        } else {
            Some((d, trim_end(s, d, n), skip_spaces(s, n, s.len() as int)))
        }
    }
}

/// The sections named by the `-- NEEDS` lines of `s` from `i` on, and the
/// position after them.
pub open spec fn references_from(s: Seq<u8>, i: int) -> (Seq<Seq<u8>>, int)
    decreases s.len() - i,
{
    match header_at(s, i, needs_header()) {
        Some((lo, hi, next)) => if i < next <= s.len() {
            let more = references_from(s, next);
            (seq![s.subrange(lo, hi)] + more.0, more.1)
        } else {
            (Seq::empty(), i)
        },
        None => (Seq::empty(), i),
    }
}

/// The section of `s` at `i`: its name, the sections it needs, its contents
/// without surrounding whitespace, and the position of the next section
/// header, or the end of `s`; none when `s` has no section header line at `i`.
pub open spec fn section_at(s: Seq<u8>, i: int) -> Option<(Seq<u8>, Seq<Seq<u8>>, Seq<u8>, int)> {
    match header_at(s, i, section_header()) {
        None => None,
        Some((lo, hi, next)) => {
            let (references, after) = references_from(s, next);
            let end = find_pattern(s, after, section_header());
            let a = skip_spaces(s, after, end);
            Some((s.subrange(lo, hi), references, s.subrange(a, trim_end(s, a, end)), end))
        },
    }
}

proof fn lemma_header_at_bounds(s: Seq<u8>, i: int, header: Seq<u8>)
    requires
        0 <= i,
    ensures
        header_at(s, i, header) matches Some((lo, hi, next)) ==> {
            &&& lo == i + header.len()
            &&& lo <= hi < next <= s.len()
        },
{
    if pattern_at(s, i, header) {
        let d = i + header.len();
        let n = byte_end(s, d, s.len() as int, 0x0A);
        lemma_byte_end_bounds(s, d, s.len() as int, 0x0A);
        if n < s.len() {
            lemma_trim_end_bounds(s, d, n);
            lemma_skip_spaces_bounds(s, n + 1, s.len() as int);
            assert(skip_spaces(s, n, s.len() as int) == skip_spaces(s, n + 1, s.len() as int));
        }
    }
}

proof fn lemma_references_bounds(s: Seq<u8>, i: int)
    requires
        0 <= i <= s.len(),
    ensures
        i <= references_from(s, i).1 <= s.len(),
    decreases s.len() - i,
{
    if let Some((lo, hi, next)) = header_at(s, i, needs_header()) {
        if i < next <= s.len() {
            lemma_references_bounds(s, next);
        }
    }
}

proof fn lemma_section_at_bounds(s: Seq<u8>, i: int)
    requires
        0 <= i <= s.len(),
    ensures
        section_at(s, i) matches Some(parts) ==> i < parts.3 <= s.len(),
{
    lemma_header_at_bounds(s, i, section_header());
    if let Some((lo, hi, next)) = header_at(s, i, section_header()) {
        lemma_references_bounds(s, next);
        lemma_find_pattern_bounds(s, references_from(s, next).1, section_header());
    }
}

/// Reads the header line of `s` at `i` that starts with `header`.
fn try_parse_header(s: &[u8], i: usize, header: &[u8]) -> (found: Option<(usize, usize, usize)>)
    requires
        i <= s@.len(),
    ensures
        header_at(s@, i as int, header@) == match found {
            Some((lo, hi, next)) => Some((lo as int, hi as int, next as int)),
            None => None,
        },
{
    if !matches_at(s, i, header) {
        return None;
    }
    let n = s.len();
    let d = i + header.len();
    let end = scan_byte(s, d, n, 0x0A);
    if end >= n {
        return None;
    }
    let hi = scan_trailing_spaces(s, d, end);
    let next = scan_spaces(s, end, n);
    Some((d, hi, next))
}

/// Reads the `-- NEEDS` lines of `s` from `i` on: the sections they name, and
/// the position after them.
fn parse_references(s: &[u8], i: usize) -> (found: (Vec<Vec<u8>>, usize))
    requires
        i <= s@.len(),
    ensures
        (byte_strings(found.0@), found.1 as int) == references_from(s@, i as int),
{
    let needs = needs_header_bytes();
    let mut dependencies: Vec<Vec<u8>> = Vec::new();
    let mut pos = i;
    assert(byte_strings(dependencies@) =~= Seq::<Seq<u8>>::empty());
    loop
        invariant
            pos <= s@.len(),
            needs@ == needs_header(),
            byte_strings(dependencies@) + references_from(s@, pos as int).0 == references_from(
                s@,
                i as int,
            ).0,
            references_from(s@, pos as int).1 == references_from(s@, i as int).1,
        decreases s@.len() - pos,
    {
        proof {
            lemma_header_at_bounds(s@, pos as int, needs_header());
        }
        match try_parse_header(s, pos, &needs) {
            Some((lo, hi, next)) => {
                let ghost before = byte_strings(dependencies@);
                let name = copy_range(s, lo, hi);
                dependencies.push(name);
                proof {
                    let rest = references_from(s@, next as int);
                    assert(references_from(s@, pos as int).0 == seq![s@.subrange(lo as int, hi as int)]
                        + rest.0);
                    assert(byte_strings(dependencies@) =~= before.push(s@.subrange(lo as int, hi as int)));
                    assert(before + (seq![s@.subrange(lo as int, hi as int)] + rest.0) =~= before.push(
                        s@.subrange(lo as int, hi as int),
                    ) + rest.0);
                }
                pos = next;
            },
            None => {
                assert(byte_strings(dependencies@) =~= byte_strings(dependencies@) + Seq::<Seq<u8>>::empty());
                return (dependencies, pos);
            },
        }
    }
}

/// A parsed runtime library section.
pub struct Section {
    /// The sections this section depends on.
    pub references: Vec<Vec<u8>>,
    /// The names the section body declares as top level locals.
    pub defines: Vec<Vec<u8>>,
    /// Every identifier mentioned anywhere in the section body, sorted.
    pub mentions: Vec<Vec<u8>>,
    /// The section name.
    pub name: Vec<u8>,
    /// The section source contents.
    pub contents: Vec<u8>,
}

/// The model of a section, its byte strings as sequences.
pub struct SectionView {
    pub references: Seq<Seq<u8>>,
    pub defines: Seq<Seq<u8>>,
    pub mentions: Seq<Seq<u8>>,
    pub name: Seq<u8>,
    pub contents: Seq<u8>,
}

impl View for Section {
    type V = SectionView;

    open spec fn view(&self) -> SectionView {
        SectionView {
            references: byte_strings(self.references@),
            defines: byte_strings(self.defines@),
            mentions: byte_strings(self.mentions@),
            name: self.name@,
            contents: self.contents@,
        }
    }
}

/// Whether `section` is the section that `parts` describe: their name, the
/// sections they need and their contents, with the locals the contents
/// declare and the identifiers they mention.
pub open spec fn parsed_as(section: SectionView, parts: (Seq<u8>, Seq<Seq<u8>>, Seq<u8>, int)) -> bool {
    &&& section.name == parts.0
    &&& section.references == parts.1
    &&& section.contents == parts.2
    &&& section.defines == definitions_from(parts.2, 0)
    &&& sorted_distinct_of(section.mentions, mentions_from(parts.2, 0))
}

/// Whether the section of `s` at `i`, if there is one, names the sections it
/// needs in sorted order.
pub open spec fn references_sorted_at(s: Seq<u8>, i: int) -> bool {
    section_at(s, i) matches Some(parts) ==> sorted(parts.1)
}

impl Section {
    /// Parses the section of `source` at `at`; returns it with the position of
    /// the next section header, or the end of `source`.
    fn parse_at(source: &[u8], at: usize) -> (found: Option<(Section, usize)>)
        requires
            at <= source@.len(),
            references_sorted_at(source@, at as int),
        ensures
            match found {
                Some((section, end)) => section_at(source@, at as int) matches Some(parts) && parsed_as(
                    section@,
                    parts,
                ) && end == parts.3,
                None => section_at(source@, at as int) is None,
            },
            found matches Some((_, end)) ==> at < end <= source@.len(),
    {
        let section_bytes = section_header_bytes();
        proof {
            lemma_header_at_bounds(source@, at as int, section_header());
        }
        let (lo, hi, next) = match try_parse_header(source, at, &section_bytes) {
            Some(found) => found,
            None => return None,
        };
        proof {
            lemma_references_bounds(source@, next as int);
        }
        let (references, after) = parse_references(source, next);
        let end = scan_pattern(source, after, &section_bytes);
        let a = scan_spaces(source, after, end);
        let b = scan_trailing_spaces(source, a, end);
        let contents = copy_range(source, a, b);
        let defines = parse_definitions(contents.as_slice());
        let mentions = parse_mentions(contents.as_slice());
        let name = copy_range(source, lo, hi);
        Some((Section { references, defines, mentions, name, contents }, end))
    }

    /// Tries to parse a section from the given source; returns it with the
    /// rest of the source, which starts at the next section header.
    pub fn try_parse(source: &[u8]) -> (found: Option<(Section, &[u8])>)
        requires
            references_sorted_at(source@, 0),
        ensures
            match found {
                Some((section, rest)) => section_at(source@, 0) matches Some(parts) && parsed_as(
                    section@,
                    parts,
                ) && rest@ == source@.subrange(parts.3, source@.len() as int),
                None => section_at(source@, 0) is None,
            },
    {
        match Section::parse_at(source, 0) {
            Some((section, end)) => {
                let rest = vstd::slice::slice_subrange(source, end, source.len());
                Some((section, rest))
            },
            None => None,
        }
    }
}

/// The sections of `s` from `i` on, one after the other.
pub open spec fn sections_from(s: Seq<u8>, i: int) -> Seq<(Seq<u8>, Seq<Seq<u8>>, Seq<u8>, int)>
    decreases s.len() - i,
{
    match section_at(s, i) {
        Some(parts) => if i < parts.3 <= s.len() {
            seq![parts] + sections_from(s, parts.3)
        } else {
            Seq::empty()
        },
        None => Seq::empty(),
    }
}

/// The position where the sections of `s` from `i` on stop.
pub open spec fn sections_end(s: Seq<u8>, i: int) -> int
    decreases s.len() - i,
{
    match section_at(s, i) {
        Some(parts) => if i < parts.3 <= s.len() {
            sections_end(s, parts.3)
        } else {
            i
        },
        None => i,
    }
}

/// Whether `s` is made of sections only, each naming the sections it needs in
/// sorted order.
pub open spec fn sections_source(s: Seq<u8>) -> bool {
    &&& sections_end(s, 0) == s.len()
    &&& forall|k: int| 0 <= k < sections_from(s, 0).len() ==> sorted(#[trigger] sections_from(s, 0)[k].1)
}

/// The names of a sequence of sections.
pub open spec fn section_names(list: Seq<SectionView>) -> Seq<Seq<u8>> {
    list.map_values(|section: SectionView| section.name)
}

/// The declared names of a sequence of owner entries.
pub open spec fn owned_names(owners: Seq<(Seq<u8>, Seq<u8>)>) -> Seq<Seq<u8>> {
    owners.map_values(|owner: (Seq<u8>, Seq<u8>)| owner.0)
}

/// Whether no two sections of `list` have the same name.
pub open spec fn distinct_names(list: Seq<SectionView>) -> bool {
    forall|i: int, j: int| 0 <= i < j < list.len() ==> #[trigger] list[i].name != #[trigger] list[j].name
}

/// Whether no name is declared by two different sections of `list`.
pub open spec fn distinct_defines(list: Seq<SectionView>) -> bool {
    forall|i: int, a: int, j: int, b: int|
        0 <= i < list.len() && 0 <= a < list[i].defines.len() && 0 <= j < list.len() && 0 <= b
            < list[j].defines.len() && i != j ==> #[trigger] list[i].defines[a]
            != #[trigger] list[j].defines[b]
}

/// Whether `name` is declared by a section of `list` named `owner`.
pub open spec fn declares(list: Seq<SectionView>, name: Seq<u8>, owner: Seq<u8>) -> bool {
    exists|k: int, a: int|
        0 <= k < list.len() && 0 <= a < list[k].defines.len() && #[trigger] list[k].defines[a]
            == name && list[k].name == owner
}

/// The models of a sequence of sections.
pub open spec fn section_views(list: Seq<Section>) -> Seq<SectionView> {
    list.map_values(|section: Section| section@)
}

/// The models of a sequence of owner entries.
pub open spec fn owner_views(owners: Seq<(Vec<u8>, Vec<u8>)>) -> Seq<(Seq<u8>, Seq<u8>)> {
    owners.map_values(|owner: (Vec<u8>, Vec<u8>)| (owner.0@, owner.1@))
}

/// Inserts the entry of `name`, owned by `owner`, into `owners`, which is
/// sorted by declared name and holds `name` with that owner if at all.
fn insert_owner(owners: &mut Vec<(Vec<u8>, Vec<u8>)>, name: Vec<u8>, owner: Vec<u8>)
    requires
        strictly_sorted(owned_names(owner_views(old(owners)@))),
        owned_names(owner_views(old(owners)@)).contains(name@) ==> owner_views(old(owners)@).contains(
            (name@, owner@),
        ),
    ensures
        strictly_sorted(owned_names(owner_views(final(owners)@))),
        forall|x: (Seq<u8>, Seq<u8>)|
            owner_views(final(owners)@).contains(x) <==> (owner_views(old(owners)@).contains(x) || x
                == (name@, owner@)),
{
    let ghost old_views = owner_views(owners@);
    let ghost old_names = owned_names(old_views);
    let mut p: usize = 0;
    while p < owners.len() && compare_bytes(owners[p].0.as_slice(), name.as_slice()) < 0
        invariant
            owner_views(owners@) == old_views,
            old_names == owned_names(old_views),
            p <= owners@.len(),
            forall|j: int| 0 <= j < p ==> less(#[trigger] old_names[j], name@),
        decreases owners@.len() - p,
    {
        assert(old_names[p as int] == owners@[p as int].0@);
        p = p + 1;
    }
    let ghost entry = (name@, owner@);
    if p < owners.len() && compare_bytes(owners[p].0.as_slice(), name.as_slice()) == 0 {
        proof {
            assert(old_names[p as int] == owners@[p as int].0@);
            assert(old_names.contains(name@));
        }
        return;
    }
    if p < owners.len() {
        assert(old_names[p as int] == owners@[p as int].0@);
        proof {
            lemma_less_order(name@, old_names[p as int], name@);
        }
    }
    proof {
        if old_names.contains(name@) {
            let q = choose|q: int| 0 <= q < old_names.len() && old_names[q] == name@;
            lemma_less_order(name@, name@, name@);
            if q > p {
                assert(less(old_names[p as int], old_names[q]));
                lemma_less_order(name@, old_names[p as int], name@);
            }
        }
    }
    owners.insert(p, (name, owner));
    proof {
        let t = owner_views(owners@);
        let names = owned_names(t);
        assert(t =~= old_views.insert(p as int, entry));
        assert(names =~= old_names.insert(p as int, entry.0));
        assert forall|i: int, j: int| 0 <= i < j < names.len() implies less(
            #[trigger] names[i],
            #[trigger] names[j],
        ) by {
            if j < p {
                assert(less(old_names[i], old_names[j]));
            } else if j == p {
                assert(less(old_names[i], entry.0));
            } else if i < p {
                assert(less(old_names[i], old_names[j - 1]));
            } else if i == p {
                if j - 1 > p {
                    assert(less(old_names[p as int], old_names[j - 1]));
                    lemma_less_order(entry.0, old_names[p as int], old_names[j - 1]);
                }
            } else {
                assert(less(old_names[i - 1], old_names[j - 1]));
            }
        }
        assert forall|x: (Seq<u8>, Seq<u8>)| t.contains(x) <==> (old_views.contains(x) || x == entry) by {
            if t.contains(x) {
                let k = choose|k: int| 0 <= k < t.len() && t[k] == x;
                if k < p {
                    assert(old_views[k] == x);
                } else if k > p {
                    assert(old_views[k - 1] == x);
                }
            }
            if old_views.contains(x) {
                let k = choose|k: int| 0 <= k < old_views.len() && old_views[k] == x;
                if k < p {
                    assert(t[k] == x);
                } else {
                    assert(t[k + 1] == x);
                }
            }
            if x == entry {
                assert(t[p as int] == x);
            }
        }
    }
}

/// Copies a byte vector.
fn copy_bytes(v: &Vec<u8>) -> (copy: Vec<u8>)
    ensures
        copy@ == v@,
{
    let copy = copy_range(v.as_slice(), 0, v.len());
    assert(v@.subrange(0, v@.len() as int) =~= v@);
    copy
}

/// A collection of runtime library sections, and the owner of each top level
/// local they declare.
pub struct Sections {
    list: Vec<Section>,
    owners: Vec<(Vec<u8>, Vec<u8>)>,
}

impl Sections {
    /// The sections, in the order they were parsed or sorted in.
    pub closed spec fn list(self) -> Seq<SectionView> {
        section_views(self.list@)
    }

    /// Each declared top level local with the name of the section declaring it.
    pub closed spec fn owners(self) -> Seq<(Seq<u8>, Seq<u8>)> {
        owner_views(self.owners@)
    }

    /// Whether the owner entries are sorted by the name they declare, each
    /// name once.
    pub open spec fn well_formed(self) -> bool {
        strictly_sorted(owned_names(self.owners()))
    }

    /// Whether the sections are sorted by name, each name once.
    pub open spec fn resolved(self) -> bool {
        strictly_sorted(section_names(self.list()))
    }

    /// Creates a collection with no section.
    pub fn new() -> (sections: Self)
        ensures
            sections.list().len() == 0,
            sections.owners().len() == 0,
            sections.well_formed(),
            sections.resolved(),
    {
        let sections = Sections { list: Vec::new(), owners: Vec::new() };
        assert(owned_names(sections.owners()) =~= Seq::<Seq<u8>>::empty());
        assert(section_names(sections.list()) =~= Seq::<Seq<u8>>::empty());
        sections
    }

    /// Parses every section of `source` and adds them, in order.
    pub fn parse_from(&mut self, source: &[u8])
        requires
            sections_source(source@),
        ensures
            final(self).owners() == old(self).owners(),
            final(self).list().len() == old(self).list().len() + sections_from(source@, 0).len(),
            final(self).list().subrange(0, old(self).list().len() as int) == old(self).list(),
            forall|k: int|
                0 <= k < sections_from(source@, 0).len() ==> parsed_as(
                    #[trigger] final(self).list()[old(self).list().len() + k],
                    sections_from(source@, 0)[k],
                ),
    {
        let ghost all = sections_from(source@, 0);
        let ghost start = self.list();
        let mut pos: usize = 0;
        let mut count: usize = 0;
        loop
            invariant
                pos <= source@.len(),
                all == sections_from(source@, 0),
                sections_source(source@),
                count <= all.len(),
                count <= pos,
                sections_from(source@, pos as int) == all.skip(count as int),
                sections_end(source@, pos as int) == source@.len(),
                self.owners() == old(self).owners(),
                self.list().len() == start.len() + count,
                start == old(self).list(),
                self.list().subrange(0, start.len() as int) == start,
                forall|k: int| 0 <= k < count ==> parsed_as(#[trigger] self.list()[start.len() + k], all[k]),
            decreases source@.len() - pos,
        {
            proof {
                lemma_section_at_bounds(source@, pos as int);
                if let Some(parts) = section_at(source@, pos as int) {
                    assert(sections_from(source@, pos as int)[0] == parts);
                    assert(all.skip(count as int).len() > 0);
                    assert(all.skip(count as int)[0] == all[count as int]);
                    assert(all[count as int] == parts);
                    assert(sorted(all[count as int].1));
                }
            }
            match Section::parse_at(source, pos) {
                Some((section, end)) => {
                    let ghost before = self.list();
                    self.list.push(section);
                    proof {
                        let parts = all[count as int];
                        assert(self.list() =~= before.push(section@));
                        assert(sections_from(source@, pos as int) == seq![parts] + sections_from(
                            source@,
                            end as int,
                        ));
                        assert(sections_from(source@, end as int) =~= sections_from(source@, pos as int).skip(1));
                        assert(sections_from(source@, end as int) =~= all.skip(count + 1));
                        assert(self.list().subrange(0, start.len() as int) =~= start);
                        assert forall|k: int| 0 <= k < count + 1 implies parsed_as(
                            #[trigger] self.list()[start.len() + k],
                            all[k],
                        ) by {
                            if k < count {
                                assert(self.list()[start.len() + k] == before[start.len() + k]);
                            }
                        }
                    }
                    pos = end;
                    count = count + 1;
                },
                None => {
                    assert(all.skip(count as int).len() == 0);
                    return;
                },
            }
        }
    }

    /// Builds the owner entries of the sections, sorted by declared name.
    fn collect_owners(&self) -> (owners: Vec<(Vec<u8>, Vec<u8>)>)
        requires
            distinct_defines(self.list()),
        ensures
            strictly_sorted(owned_names(owner_views(owners@))),
            forall|name: Seq<u8>, owner: Seq<u8>|
                owner_views(owners@).contains((name, owner)) <==> declares(self.list(), name, owner),
    {
        let ghost list = self.list();
        let mut owners: Vec<(Vec<u8>, Vec<u8>)> = Vec::new();
        assert(owned_names(owner_views(owners@)) =~= Seq::<Seq<u8>>::empty());
        let mut k: usize = 0;
        while k < self.list.len()
            invariant
                list == self.list(),
                distinct_defines(list),
                k <= list.len(),
                strictly_sorted(owned_names(owner_views(owners@))),
                forall|x: (Seq<u8>, Seq<u8>)|
                    owner_views(owners@).contains(x) <==> exists|k2: int, a2: int|
                        0 <= k2 < k && 0 <= a2 < list[k2].defines.len() && #[trigger] list[k2].defines[a2]
                            == x.0 && list[k2].name == x.1,
            decreases list.len() - k,
        {
            let section = &self.list[k];
            let mut a: usize = 0;
            while a < section.defines.len()
                invariant
                    list == self.list(),
                    distinct_defines(list),
                    k < list.len(),
                    section@ == list[k as int],
                    a <= list[k as int].defines.len(),
                    strictly_sorted(owned_names(owner_views(owners@))),
                    forall|x: (Seq<u8>, Seq<u8>)|
                        owner_views(owners@).contains(x) <==> exists|k2: int, a2: int|
                            0 <= k2 < list.len() && 0 <= a2 < list[k2].defines.len() && (k2 < k || (k2
                                == k && a2 < a)) && #[trigger] list[k2].defines[a2] == x.0 && list[k2].name
                                == x.1,
                decreases list[k as int].defines.len() - a,
            {
                let name = copy_bytes(&section.defines[a]);
                let owner = copy_bytes(&section.name);
                proof {
                    let views = owner_views(owners@);
                    assert(name@ == list[k as int].defines[a as int]);
                    assert(owner@ == list[k as int].name);
                    if owned_names(views).contains(name@) {
                        let i = choose|i: int| 0 <= i < owned_names(views).len() && owned_names(views)[i] == name@;
                        assert(views.contains(views[i]));
                        let (k2, a2) = choose|k2: int, a2: int|
                            0 <= k2 < list.len() && 0 <= a2 < list[k2].defines.len() && (k2 < k || (k2
                                == k && a2 < a)) && #[trigger] list[k2].defines[a2] == views[i].0
                                && list[k2].name == views[i].1;
                        if k2 != k {
                            assert(list[k2].defines[a2] != list[k as int].defines[a as int]);
                        }
                        assert(views[i] == (name@, owner@));
                    }
                }
                let ghost before = owner_views(owners@);
                insert_owner(&mut owners, name, owner);
                proof {
                    let entry = (list[k as int].defines[a as int], list[k as int].name);
                    assert forall|x: (Seq<u8>, Seq<u8>)|
                        owner_views(owners@).contains(x) <==> exists|k2: int, a2: int|
                            0 <= k2 < list.len() && 0 <= a2 < list[k2].defines.len() && (k2 < k || (k2
                                == k && a2 < a + 1)) && #[trigger] list[k2].defines[a2] == x.0 && list[k2].name
                                == x.1 by {
                        if x == entry {
                            assert(list[k as int].defines[a as int] == x.0);
                        }
                        if exists|k2: int, a2: int|
                            0 <= k2 < list.len() && 0 <= a2 < list[k2].defines.len() && (k2 < k || (k2
                                == k && a2 < a + 1)) && #[trigger] list[k2].defines[a2] == x.0 && list[k2].name
                                == x.1 {
                            let (k2, a2) = choose|k2: int, a2: int|
                                0 <= k2 < list.len() && 0 <= a2 < list[k2].defines.len() && (k2 < k || (k2
                                    == k && a2 < a + 1)) && #[trigger] list[k2].defines[a2] == x.0
                                    && list[k2].name == x.1;
                            if k2 == k && a2 == a {
                                assert(x == entry);
                            } else {
                                assert(before.contains(x));
                            }
                        }
                    }
                }
                a = a + 1;
            }
            k = k + 1;
        }
        proof {
            assert forall|name: Seq<u8>, owner: Seq<u8>|
                owner_views(owners@).contains((name, owner)) <==> declares(list, name, owner) by {
                if declares(list, name, owner) {
                    let (k2, a2) = choose|k2: int, a2: int|
                        0 <= k2 < list.len() && 0 <= a2 < list[k2].defines.len() && #[trigger] list[k2].defines[a2]
                            == name && list[k2].name == owner;
                    assert(list[k2].defines[a2] == (name, owner).0);
                }
            }
        }
        owners
    }


    /// Sorts `list` by section name.
    fn sort_by_name(list: Vec<Section>) -> (sorted: Vec<Section>)
        requires
            distinct_names(section_views(list@)),
        ensures
            section_views(sorted@).to_multiset() == section_views(list@).to_multiset(),
            strictly_sorted(section_names(section_views(sorted@))),
    {
        broadcast use vstd::multiset::group_multiset_axioms;

        let ghost initial = section_views(list@);
        let mut rest = list;
        let mut sorted: Vec<Section> = Vec::new();
        proof {
            vstd::seq_lib::to_multiset_len(section_views(sorted@));
            vstd::multiset::lemma_multiset_empty_len(section_views(sorted@).to_multiset());
        }
        assert(section_names(section_views(sorted@)) =~= Seq::<Seq<u8>>::empty());
        while rest.len() > 0
            invariant
                section_views(sorted@).to_multiset().add(section_views(rest@).to_multiset())
                    == initial.to_multiset(),
                strictly_sorted(section_names(section_views(sorted@))),
                forall|i: int, j: int|
                    0 <= i < sorted@.len() && 0 <= j < rest@.len() ==> less(
                        #[trigger] sorted@[i]@.name,
                        #[trigger] rest@[j]@.name,
                    ),
                distinct_names(section_views(rest@)),
            decreases rest@.len(),
        {
            let mut m: usize = 0;
            let mut q: usize = 1;
            proof {
                lemma_less_order(rest@[0]@.name, rest@[0]@.name, rest@[0]@.name);
            }
            while q < rest.len()
                invariant
                    m < rest@.len(),
                    1 <= q <= rest@.len(),
                    forall|j: int| 0 <= j < q ==> !less(#[trigger] rest@[j]@.name, rest@[m as int]@.name),
                decreases rest@.len() - q,
            {
                if compare_bytes(rest[q].name.as_slice(), rest[m].name.as_slice()) < 0 {
                    proof {
                        assert forall|j: int| 0 <= j < q + 1 implies !less(
                            #[trigger] rest@[j]@.name,
                            rest@[q as int]@.name,
                        ) by {
                            lemma_less_order(rest@[j]@.name, rest@[q as int]@.name, rest@[m as int]@.name);
                            lemma_less_order(rest@[q as int]@.name, rest@[q as int]@.name, rest@[q as int]@.name);
                        }
                    }
                    m = q;
                }
                q = q + 1;
            }
            let ghost rest_before = rest@;
            let ghost sorted_before = sorted@;
            let x = rest.remove(m);
            let ghost value = x@;
            sorted.push(x);
            proof {
                let rv = section_views(rest_before);
                let sv = section_views(sorted_before);
                assert(section_views(rest@) =~= rv.remove(m as int));
                assert(section_views(sorted@) =~= sv.push(value));
                assert(rv[m as int] == value);
                assert(rv.contains(value));
                vstd::seq_lib::to_multiset_build(sv, value);
                vstd::seq_lib::to_multiset_remove(rv, m as int);
                vstd::seq_lib::to_multiset_contains(rv, value);
                assert(rv.to_multiset().count(value) > 0);
                assert(sv.push(value).to_multiset().add(rv.remove(m as int).to_multiset()) =~= sv.to_multiset().add(
                    rv.to_multiset(),
                ));
                let names = section_names(section_views(sorted@));
                assert forall|i: int, j: int| 0 <= i < j < names.len() implies less(
                    #[trigger] names[i],
                    #[trigger] names[j],
                ) by {
                    if j < sorted_before.len() {
                        assert(names[i] == section_names(sv)[i]);
                        assert(names[j] == section_names(sv)[j]);
                    } else {
                        assert(names[j] == rest_before[m as int]@.name);
                        assert(names[i] == sorted_before[i]@.name);
                    }
                }
                assert forall|i: int, j: int|
                    0 <= i < sorted@.len() && 0 <= j < rest@.len() implies less(
                        #[trigger] sorted@[i]@.name,
                        #[trigger] rest@[j]@.name,
                    ) by {
                    let j2 = if j < m { j } else { j + 1 };
                    assert(rest@[j] == rest_before[j2]);
                    if i < sorted_before.len() {
                        assert(sorted@[i] == sorted_before[i]);
                    } else {
                        assert(!less(rest_before[j2]@.name, value.name));
                        assert(rv[j2] == rest_before[j2]@);
                        if j2 < m {
                            assert(rv[j2].name != rv[m as int].name);
                        } else {
                            assert(rv[m as int].name != rv[j2].name);
                        }
                        lemma_less_order(value.name, rest_before[j2]@.name, value.name);
                    }
                }
                let nv = section_views(rest@);
                assert forall|i: int, j: int| 0 <= i < j < nv.len() implies #[trigger] nv[i].name != #[trigger] nv[j].name by {
                    let i2 = if i < m { i } else { i + 1 };
                    let j2 = if j < m { j } else { j + 1 };
                    assert(nv[i] == rv[i2]);
                    assert(nv[j] == rv[j2]);
                }
            }
        }
        proof {
            vstd::seq_lib::to_multiset_len(section_views(rest@));
            vstd::multiset::lemma_multiset_empty_len(section_views(rest@).to_multiset());
            assert(section_views(sorted@).to_multiset().add(Multiset::empty()) =~= section_views(sorted@).to_multiset());
        }
        sorted
    }

    /// Sorts the sections by name and records the owner of every top level
    /// local they declare.
    pub fn resolve(&mut self)
        requires
            distinct_names(old(self).list()),
            distinct_defines(old(self).list()),
        ensures
            final(self).list().to_multiset() == old(self).list().to_multiset(),
            final(self).resolved(),
            final(self).well_formed(),
            forall|name: Seq<u8>, owner: Seq<u8>|
                final(self).owners().contains((name, owner)) <==> declares(old(self).list(), name, owner),
    {
        let owners = self.collect_owners();
        let mut list: Vec<Section> = Vec::new();
        std::mem::swap(&mut list, &mut self.list);
        let sorted = Sections::sort_by_name(list);
        self.list = sorted;
        self.owners = owners;
    }

    /// Finds the section declaring the given top level local, if any.
    pub fn owner(&self, name: &[u8]) -> (owner: Option<Vec<u8>>)
        requires
            self.well_formed(),
        ensures
            owner is None <==> !owned_names(self.owners()).contains(name@),
            owner matches Some(found) ==> self.owners().contains((name@, found@)),
    {
        let ghost names = owned_names(self.owners());
        let mut lo: usize = 0;
        let mut hi: usize = self.owners.len();
        while lo < hi
            invariant
                names == owned_names(self.owners()),
                strictly_sorted(names),
                lo <= hi <= names.len(),
                forall|j: int| 0 <= j < lo ==> less(#[trigger] names[j], name@),
                forall|j: int| hi <= j < names.len() ==> less(name@, #[trigger] names[j]),
            decreases hi - lo,
        {
            let mid = lo + (hi - lo) / 2;
            let order = compare_bytes(self.owners[mid].0.as_slice(), name);
            assert(names[mid as int] == self.owners@[mid as int].0@);
            if order == 0 {
                let found = copy_bytes(&self.owners[mid].1);
                assert(self.owners()[mid as int] == (name@, found@));
                assert(names.contains(name@));
                return Some(found);
            } else if order < 0 {
                proof {
                    assert forall|j: int| 0 <= j < mid + 1 implies less(#[trigger] names[j], name@) by {
                        if j < mid {
                            lemma_less_order(names[j], names[mid as int], name@);
                        }
                    }
                }
                lo = mid + 1;
            } else {
                proof {
                    assert forall|j: int| mid <= j < names.len() implies less(name@, #[trigger] names[j]) by {
                        if j > mid {
                            lemma_less_order(name@, names[mid as int], names[j]);
                        }
                    }
                }
                hi = mid;
            }
        }
        proof {
            if names.contains(name@) {
                let j = choose|j: int| 0 <= j < names.len() && names[j] == name@;
                lemma_less_order(name@, name@, name@);
                if j < lo {
                    assert(less(names[j], name@));
                } else {
                    assert(less(name@, names[j]));
                }
            }
        }
        None
    }

    /// Finds the position of a section by name.
    pub fn position(&self, name: &[u8]) -> (index: usize)
        requires
            self.resolved(),
            section_names(self.list()).contains(name@),
        ensures
            index < self.list().len(),
            self.list()[index as int].name == name@,
    {
        let ghost names = section_names(self.list());
        let mut lo: usize = 0;
        let mut hi: usize = self.list.len();
        while lo < hi
            invariant
                names == section_names(self.list()),
                strictly_sorted(names),
                names.contains(name@),
                lo <= hi <= names.len(),
                forall|j: int| 0 <= j < lo ==> less(#[trigger] names[j], name@),
                forall|j: int| hi <= j < names.len() ==> less(name@, #[trigger] names[j]),
            decreases hi - lo,
        {
            let mid = lo + (hi - lo) / 2;
            let order = compare_bytes(self.list[mid].name.as_slice(), name);
            assert(names[mid as int] == self.list@[mid as int]@.name);
            if order == 0 {
                assert(self.list()[mid as int] == self.list@[mid as int]@);
                return mid;
            } else if order < 0 {
                proof {
                    assert forall|j: int| 0 <= j < mid + 1 implies less(#[trigger] names[j], name@) by {
                        if j < mid {
                            lemma_less_order(names[j], names[mid as int], name@);
                        }
                    }
                }
                lo = mid + 1;
            } else {
                proof {
                    assert forall|j: int| mid <= j < names.len() implies less(name@, #[trigger] names[j]) by {
                        if j > mid {
                            lemma_less_order(name@, names[mid as int], names[j]);
                        }
                    }
                }
                hi = mid;
            }
        }
        proof {
            let j = choose|j: int| 0 <= j < names.len() && names[j] == name@;
            lemma_less_order(name@, name@, name@);
            if j < lo {
                assert(less(names[j], name@));
            } else {
                assert(less(name@, names[j]));
            }
        }
        vstd::pervasive::unreached()
    }

    /// Finds a section by name.
    pub fn find(&self, name: &[u8]) -> (section: &Section)
        requires
            self.resolved(),
            section_names(self.list()).contains(name@),
        ensures
            section@.name == name@,
            self.list().contains(section@),
    {
        let index = self.position(name);
        assert(self.list()[index as int] == self.list@[index as int]@);
        &self.list[index]
    }

    /// The section at position `index`.
    pub fn get(&self, index: usize) -> (section: &Section)
        requires
            index < self.list().len(),
        ensures
            section@ == self.list()[index as int],
    {
        &self.list[index]
    }

    /// The number of sections.
    pub fn len(&self) -> (count: usize)
        ensures
            count == self.list().len(),
    {
        self.list.len()
    }

}

} // verus!
