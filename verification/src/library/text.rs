//! Byte-level scanning of runtime library sources: names, whitespace,
//! patterns, and the byte-wise order that names are sorted by.

use vstd::prelude::*;

verus! {

/// Whether `b` may start a name: an underscore or an ASCII letter.
pub open spec fn is_name_start(b: u8) -> bool {
    b == 0x5F || (0x41 <= b && b <= 0x5A) || (0x61 <= b && b <= 0x7A)
}

/// Whether `b` may continue a name: an underscore, an ASCII letter or digit.
pub open spec fn is_name_part(b: u8) -> bool {
    is_name_start(b) || (0x30 <= b && b <= 0x39)
}

/// Whether `b` is ASCII whitespace: a space, or a tab, line feed, vertical
/// tab, form feed or carriage return. The other whitespace characters take
/// more than one byte in UTF-8; see `space_at`.
pub open spec fn is_space(b: u8) -> bool {
    b == 0x20 || (0x09 <= b && b <= 0x0D)
}

/// Whether `s` is a name: a name start followed by name parts.
pub open spec fn is_name(s: Seq<u8>) -> bool {
    &&& s.len() > 0
    &&& is_name_start(s[0])
    &&& forall|i: int| 1 <= i < s.len() ==> #[trigger] is_name_part(s[i])
}

/// The end of the run of name parts in `s` from `i` on, stopping at `hi`.
pub open spec fn name_end(s: Seq<u8>, i: int, hi: int) -> int
    decreases hi - i,
{
    if 0 <= i < hi && i < s.len() && is_name_part(s[i]) {
        name_end(s, i + 1, hi)
    } else {
        i
    }
}

/// The position of the first `b` in `s` from `i` on, before `hi`; `hi` when
/// there is none.
pub open spec fn byte_end(s: Seq<u8>, i: int, hi: int, b: u8) -> int
    decreases hi - i,
{
    if i < hi && 0 <= i < s.len() && s[i] != b {
        byte_end(s, i + 1, hi, b)
    } else {
        i
    }
}

/// Whether `pattern` occurs in `s` at `i`.
pub open spec fn pattern_at(s: Seq<u8>, i: int, pattern: Seq<u8>) -> bool {
    &&& 0 <= i
    &&& i + pattern.len() <= s.len()
    &&& s.subrange(i, i + pattern.len()) == pattern
}

/// The position of the first occurrence of `pattern` in `s` from `i` on; the
/// length of `s` when there is none.
pub open spec fn find_pattern(s: Seq<u8>, i: int, pattern: Seq<u8>) -> int
    decreases s.len() + 1 - i,
{
    if i < 0 || i + pattern.len() > s.len() {
        s.len() as int
    } else if pattern_at(s, i, pattern) {
        i
    } else {
        find_pattern(s, i + 1, pattern)
    }
}

/// Whether the three bytes `a`, `b`, `c` encode, in UTF-8, one of the
/// whitespace characters U+1680, U+2000 to U+200A, U+2028, U+2029, U+202F,
/// U+205F and U+3000.
pub open spec fn is_wide_space(a: u8, b: u8, c: u8) -> bool {
    ||| a == 0xE1 && b == 0x9A && c == 0x80
    ||| a == 0xE2 && b == 0x80 && ((0x80 <= c && c <= 0x8A) || c == 0xA8 || c == 0xA9 || c == 0xAF)
    ||| a == 0xE2 && b == 0x81 && c == 0x9F
    ||| a == 0xE3 && b == 0x80 && c == 0x80
}

/// Whether the two bytes `a`, `b` encode, in UTF-8, the whitespace
/// character U+0085 or U+00A0.
pub open spec fn is_latin_space(a: u8, b: u8) -> bool {
    a == 0xC2 && (b == 0x85 || b == 0xA0)
}

/// The length in bytes of the whitespace character that starts at `i` in
/// `s` and ends by `hi`, or 0 when none does: the whitespace characters are
/// those of Unicode's White_Space property, in UTF-8.
pub open spec fn space_at(s: Seq<u8>, i: int, hi: int) -> int {
    if 0 <= i < hi && hi <= s.len() {
        if is_space(s[i]) {
            1
        } else if i + 2 <= hi && is_latin_space(s[i], s[i + 1]) {
            2
        } else if i + 3 <= hi && is_wide_space(s[i], s[i + 1], s[i + 2]) {
            3
        } else {
            0
        }
    } else {
        0
    }
}

/// The length in bytes of the whitespace character that ends at `hi` in
/// `s` and starts at or after `lo`, or 0 when none does.
pub open spec fn space_before(s: Seq<u8>, lo: int, hi: int) -> int {
    if 0 <= lo < hi && hi <= s.len() {
        if is_space(s[hi - 1]) {
            1
        } else if lo <= hi - 2 && is_latin_space(s[hi - 2], s[hi - 1]) {
            2
        } else if lo <= hi - 3 && is_wide_space(s[hi - 3], s[hi - 2], s[hi - 1]) {
            3
        } else {
            0
        }
    } else {
        0
    }
}

/// The first position from `i` on that does not start whitespace, stopping
/// at `hi`.
pub open spec fn skip_spaces(s: Seq<u8>, i: int, hi: int) -> int
    decreases hi - i,
{
    if space_at(s, i, hi) > 0 {
        skip_spaces(s, i + space_at(s, i, hi), hi)
    } else {
        i
    }
}

/// The end of `s` between `lo` and `hi` once trailing whitespace is dropped.
pub open spec fn trim_end(s: Seq<u8>, lo: int, hi: int) -> int
    decreases hi - lo,
{
    if space_before(s, lo, hi) > 0 {
        trim_end(s, lo, hi - space_before(s, lo, hi))
    } else {
        hi
    }
}

/// Whether `a` comes before `b` in byte-wise order, looking from `i` on.
pub open spec fn less_from(a: Seq<u8>, b: Seq<u8>, i: int) -> bool
    decreases a.len() - i,
{
    if i < 0 || i >= a.len() {
        0 <= i < b.len()
    } else if i >= b.len() {
        false
    } else if a[i] < b[i] {
        true
    } else if a[i] > b[i] {
        false
    } else {
        less_from(a, b, i + 1)
    }
}

/// Whether `a` comes before `b` in byte-wise lexicographic order, the order
/// of Rust's string comparison.
pub open spec fn less(a: Seq<u8>, b: Seq<u8>) -> bool {
    less_from(a, b, 0)
}

/// Whether every name in `names` comes strictly before the names after it.
pub open spec fn strictly_sorted(names: Seq<Seq<u8>>) -> bool {
    forall|i: int, j: int| 0 <= i < j < names.len() ==> less(#[trigger] names[i], #[trigger] names[j])
}

/// Whether no name in `names` comes after a name that follows it.
pub open spec fn sorted(names: Seq<Seq<u8>>) -> bool {
    forall|i: int, j: int| 0 <= i < j < names.len() ==> !less(#[trigger] names[j], #[trigger] names[i])
}

/// The byte strings held by a sequence of byte vectors.
pub open spec fn byte_strings(v: Seq<Vec<u8>>) -> Seq<Seq<u8>> {
    v.map_values(|x: Vec<u8>| x@)
}

pub proof fn lemma_name_end_bounds(s: Seq<u8>, i: int, hi: int)
    requires
        0 <= i,
    ensures
        i <= name_end(s, i, hi),
        i <= hi && hi <= s.len() ==> name_end(s, i, hi) <= hi,
    decreases hi - i,
{
    if 0 <= i < hi && i < s.len() && is_name_part(s[i]) {
        lemma_name_end_bounds(s, i + 1, hi);
    }
}

pub proof fn lemma_byte_end_bounds(s: Seq<u8>, i: int, hi: int, b: u8)
    requires
        0 <= i,
    ensures
        i <= byte_end(s, i, hi, b),
        i <= hi && hi <= s.len() ==> byte_end(s, i, hi, b) <= hi,
        byte_end(s, i, hi, b) < hi && hi <= s.len() ==> s[byte_end(s, i, hi, b)] == b,
    decreases hi - i,
{
    if i < hi && 0 <= i < s.len() && s[i] != b {
        lemma_byte_end_bounds(s, i + 1, hi, b);
    }
}

pub proof fn lemma_find_pattern_bounds(s: Seq<u8>, i: int, pattern: Seq<u8>)
    requires
        0 <= i,
    ensures
        i <= find_pattern(s, i, pattern) || find_pattern(s, i, pattern) == s.len(),
        find_pattern(s, i, pattern) <= s.len(),
    decreases s.len() + 1 - i,
{
    if i < 0 || i + pattern.len() > s.len() {
    } else if pattern_at(s, i, pattern) {
    } else {
        lemma_find_pattern_bounds(s, i + 1, pattern);
    }
}

pub proof fn lemma_skip_spaces_bounds(s: Seq<u8>, i: int, hi: int)
    requires
        0 <= i,
    ensures
        i <= skip_spaces(s, i, hi),
        i <= hi ==> skip_spaces(s, i, hi) <= hi,
        skip_spaces(s, i, hi) <= i || skip_spaces(s, i, hi) <= s.len(),
    decreases hi - i,
{
    if space_at(s, i, hi) > 0 {
        lemma_skip_spaces_bounds(s, i + space_at(s, i, hi), hi);
    }
}

pub proof fn lemma_trim_end_bounds(s: Seq<u8>, lo: int, hi: int)
    requires
        lo <= hi,
    ensures
        lo <= trim_end(s, lo, hi) <= hi,
    decreases hi - lo,
{
    if space_before(s, lo, hi) > 0 {
        lemma_trim_end_bounds(s, lo, hi - space_before(s, lo, hi));
    }
}

proof fn lemma_less_irreflexive(a: Seq<u8>, i: int)
    requires
        0 <= i,
    ensures
        !less_from(a, a, i),
    decreases a.len() - i,
{
    if i < a.len() {
        lemma_less_irreflexive(a, i + 1);
    }
}

proof fn lemma_less_asymmetric(a: Seq<u8>, b: Seq<u8>, i: int)
    requires
        0 <= i,
        less_from(a, b, i),
    ensures
        !less_from(b, a, i),
    decreases a.len() - i,
{
    if i < a.len() && i < b.len() && a[i] == b[i] {
        lemma_less_asymmetric(a, b, i + 1);
    }
}

proof fn lemma_less_transitive(a: Seq<u8>, b: Seq<u8>, c: Seq<u8>, i: int)
    requires
        0 <= i,
        less_from(a, b, i),
        less_from(b, c, i),
    ensures
        less_from(a, c, i),
    decreases a.len() - i,
{
    if i < a.len() && i < b.len() && i < c.len() && a[i] == b[i] && b[i] == c[i] {
        lemma_less_transitive(a, b, c, i + 1);
    }
}

proof fn lemma_less_total(a: Seq<u8>, b: Seq<u8>, i: int)
    requires
        0 <= i,
        forall|j: int| 0 <= j < i ==> a[j] == b[j],
        i <= a.len(),
        i <= b.len(),
        a != b,
    ensures
        less_from(a, b, i) || less_from(b, a, i),
    decreases a.len() - i,
{
    if i == a.len() && i == b.len() {
        assert(a =~= b);
    } else if i < a.len() && i < b.len() && a[i] == b[i] {
        lemma_less_total(a, b, i + 1);
    }
}

/// Byte-wise order is a strict total order.
pub proof fn lemma_less_order(a: Seq<u8>, b: Seq<u8>, c: Seq<u8>)
    ensures
        !less(a, a),
        less(a, b) ==> !less(b, a),
        less(a, b) && less(b, c) ==> less(a, c),
        a != b ==> less(a, b) || less(b, a),
{
    lemma_less_irreflexive(a, 0);
    if less(a, b) {
        lemma_less_asymmetric(a, b, 0);
        if less(b, c) {
            lemma_less_transitive(a, b, c, 0);
        }
    }
    if a != b {
        lemma_less_total(a, b, 0);
    }
}

/// Returns the end of the run of name parts in `s` from `i` on, before `hi`.
pub fn scan_name(s: &[u8], i: usize, hi: usize) -> (end: usize)
    requires
        i <= hi <= s@.len(),
    ensures
        end == name_end(s@, i as int, hi as int),
        i <= end <= hi,
{
    let mut k = i;
    while k < hi && is_name_part_byte(s[k])
        invariant
            i <= k <= hi <= s@.len(),
            name_end(s@, k as int, hi as int) == name_end(s@, i as int, hi as int),
        decreases hi - k,
    {
        k = k + 1;
    }
    k
}

/// Returns the first position of `b` in `s` from `i` on, before `hi`; `hi`
/// when there is none.
pub fn scan_byte(s: &[u8], i: usize, hi: usize, b: u8) -> (end: usize)
    requires
        i <= hi <= s@.len(),
    ensures
        end == byte_end(s@, i as int, hi as int, b),
        i <= end <= hi,
        end < hi ==> s@[end as int] == b,
{
    let mut k = i;
    while k < hi && s[k] != b
        invariant
            i <= k <= hi <= s@.len(),
            byte_end(s@, k as int, hi as int, b) == byte_end(s@, i as int, hi as int, b),
        decreases hi - k,
    {
        k = k + 1;
    }
    k
}

/// Returns whether `pattern` occurs in `s` at `i`.
pub fn matches_at(s: &[u8], i: usize, pattern: &[u8]) -> (found: bool)
    ensures
        found == pattern_at(s@, i as int, pattern@),
{
    let n = s.len();
    if i > n || pattern.len() > n - i {
        return false;
    }
    let mut k: usize = 0;
    while k < pattern.len()
        invariant
            n == s@.len(),
            i + pattern@.len() <= n,
            k <= pattern@.len(),
            forall|j: int| 0 <= j < k ==> s@[i + j] == pattern@[j],
        decreases pattern@.len() - k,
    {
        if s[i + k] != pattern[k] {
            assert(s@.subrange(i as int, i + pattern@.len())[k as int] != pattern@[k as int]);
            return false;
        }
        k = k + 1;
    }
    assert(s@.subrange(i as int, i + pattern@.len()) =~= pattern@);
    true
}

/// Returns the first position of `pattern` in `s` from `i` on; the length of
/// `s` when there is none.
pub fn scan_pattern(s: &[u8], i: usize, pattern: &[u8]) -> (end: usize)
    requires
        i <= s@.len(),
    ensures
        end == find_pattern(s@, i as int, pattern@),
        i <= end <= s@.len(),
{
    let n = s.len();
    if pattern.len() == 0 {
        assert(s@.subrange(i as int, i as int) =~= pattern@);
        return i;
    }
    let mut k = i;
    loop
        invariant
            n == s@.len(),
            pattern@.len() > 0,
            i <= k <= n,
            find_pattern(s@, k as int, pattern@) == find_pattern(s@, i as int, pattern@),
        decreases n - k,
    {
        if pattern.len() > n - k {
            return n;
        }
        if matches_at(s, k, pattern) {
            return k;
        }
        k = k + 1;
    }
}

/// The length in bytes of the whitespace character that starts at `i` and
/// ends by `hi`, or 0 when none does.
pub fn space_length(s: &[u8], i: usize, hi: usize) -> (length: usize)
    requires
        i <= hi <= s@.len(),
    ensures
        length == space_at(s@, i as int, hi as int),
{
    if i >= hi {
        0
    } else if is_space_byte(s[i]) {
        1
    } else if hi - i >= 2 && s[i] == 0xC2 && (s[i + 1] == 0x85 || s[i + 1] == 0xA0) {
        2
    } else if hi - i >= 3 && is_wide_space_bytes(s[i], s[i + 1], s[i + 2]) {
        3
    } else {
        0
    }
}

/// The length in bytes of the whitespace character that ends at `hi` and
/// starts at or after `lo`, or 0 when none does.
pub fn space_length_before(s: &[u8], lo: usize, hi: usize) -> (length: usize)
    requires
        lo <= hi <= s@.len(),
    ensures
        length == space_before(s@, lo as int, hi as int),
{
    if lo >= hi {
        0
    } else if is_space_byte(s[hi - 1]) {
        1
    } else if hi - lo >= 2 && s[hi - 2] == 0xC2 && (s[hi - 1] == 0x85 || s[hi - 1] == 0xA0) {
        2
    } else if hi - lo >= 3 && is_wide_space_bytes(s[hi - 3], s[hi - 2], s[hi - 1]) {
        3
    } else {
        0
    }
}

/// Whether three bytes encode one of the wide whitespace characters.
fn is_wide_space_bytes(a: u8, b: u8, c: u8) -> (r: bool)
    ensures
        r == is_wide_space(a, b, c),
{
    (a == 0xE1 && b == 0x9A && c == 0x80) || (a == 0xE2 && b == 0x80 && ((0x80 <= c && c <= 0x8A) || c == 0xA8
        || c == 0xA9 || c == 0xAF)) || (a == 0xE2 && b == 0x81 && c == 0x9F) || (a == 0xE3 && b == 0x80 && c
        == 0x80)
}

/// Returns the first position from `i` on that does not start whitespace,
/// before `hi`.
pub fn scan_spaces(s: &[u8], i: usize, hi: usize) -> (end: usize)
    requires
        i <= hi <= s@.len(),
    ensures
        end == skip_spaces(s@, i as int, hi as int),
        i <= end <= hi,
{
    let mut k = i;
    loop
        invariant
            i <= k <= hi <= s@.len(),
            skip_spaces(s@, k as int, hi as int) == skip_spaces(s@, i as int, hi as int),
        decreases hi - k,
    {
        let length = space_length(s, k, hi);
        if length == 0 {
            return k;
        }
        k = k + length;
    }
}

/// Returns the end of `s` between `lo` and `hi` once trailing whitespace is
/// dropped.
pub fn scan_trailing_spaces(s: &[u8], lo: usize, hi: usize) -> (end: usize)
    requires
        lo <= hi <= s@.len(),
    ensures
        end == trim_end(s@, lo as int, hi as int),
        lo <= end <= hi,
{
    let mut k = hi;
    loop
        invariant
            lo <= k <= hi <= s@.len(),
            trim_end(s@, lo as int, k as int) == trim_end(s@, lo as int, hi as int),
        decreases k - lo,
    {
        let length = space_length_before(s, lo, k);
        if length == 0 {
            return k;
        }
        k = k - length;
    }
}

/// Whether `b` may start a name.
pub fn is_name_start_byte(b: u8) -> (r: bool)
    ensures
        r == is_name_start(b),
{
    b == 0x5F || (0x41 <= b && b <= 0x5A) || (0x61 <= b && b <= 0x7A)
}

/// Whether `b` may continue a name.
pub fn is_name_part_byte(b: u8) -> (r: bool)
    ensures
        r == is_name_part(b),
{
    is_name_start_byte(b) || (0x30 <= b && b <= 0x39)
}

/// Whether `b` is ASCII whitespace.
pub fn is_space_byte(b: u8) -> (r: bool)
    ensures
        r == is_space(b),
{
    b == 0x20 || (0x09 <= b && b <= 0x0D)
}

/// Whether the bytes of `s` between `lo` and `hi` form a name.
pub fn is_name_range(s: &[u8], lo: usize, hi: usize) -> (r: bool)
    requires
        lo <= hi <= s@.len(),
    ensures
        r == is_name(s@.subrange(lo as int, hi as int)),
{
    if lo == hi || !is_name_start_byte(s[lo]) {
        return false;
    }
    let ghost t = s@.subrange(lo as int, hi as int);
    let mut k = lo + 1;
    while k < hi
        invariant
            lo < k <= hi <= s@.len(),
            t == s@.subrange(lo as int, hi as int),
            forall|j: int| 1 <= j < k - lo ==> #[trigger] is_name_part(t[j]),
        decreases hi - k,
    {
        if !is_name_part_byte(s[k]) {
            assert(!is_name_part(t[k - lo]));
            return false;
        }
        k = k + 1;
    }
    true
}

/// Compares two byte strings in byte-wise order: negative when `a` comes
/// first, zero when they are equal, positive when `b` comes first.
pub fn compare_bytes(a: &[u8], b: &[u8]) -> (order: i8)
    ensures
        order < 0 <==> less(a@, b@),
        order == 0 <==> a@ == b@,
        order > 0 <==> less(b@, a@),
{
    proof {
        lemma_less_order(a@, b@, b@);
    }
    let mut i: usize = 0;
    while i < a.len() && i < b.len() && a[i] == b[i]
        invariant
            i <= a@.len(),
            i <= b@.len(),
            forall|j: int| 0 <= j < i ==> a@[j] == b@[j],
            less_from(a@, b@, i as int) == less(a@, b@),
            less_from(b@, a@, i as int) == less(b@, a@),
        decreases a@.len() - i,
    {
        i = i + 1;
    }
    if i == a.len() && i == b.len() {
        assert(a@ =~= b@);
        0
    } else if i == a.len() {
        -1
    } else if i == b.len() {
        assert(a@[i as int] != b@[i as int] || a@.len() != b@.len());
        1
    } else if a[i] < b[i] {
        -1
    } else {
        assert(a@[i as int] != b@[i as int]);
        1
    }
}

} // verus!
