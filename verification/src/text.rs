//! Text primitives shared by the parsers and the report builders.
//!
//! Parsing works on the UTF-8 bytes of a string slice (offsets are byte
//! offsets, as with `str::find`); report text is built and specified at the
//! level of characters.
use vstd::prelude::*;
use vstd::string::*;
use vstd::utf8::*;

verus! {

broadcast use vstd::utf8::encode_utf8_valid_utf8;

/// The UTF-8 bytes of a string slice.
pub open spec fn bytes(s: &str) -> Seq<u8> {
    s.spec_bytes()
}

/// `pat` occurs in `s` at byte offset `i`.
pub open spec fn occurs_at(s: Seq<u8>, pat: Seq<u8>, i: int) -> bool {
    0 <= i && i + pat.len() <= s.len() && s.subrange(i, i + pat.len()) == pat
}

/// The first byte offset at or after `i` where `pat` occurs in `s`.
pub open spec fn find_from(s: Seq<u8>, pat: Seq<u8>, i: int) -> Option<int>
    decreases s.len() + 1 - i,
{
    if i < 0 || i + pat.len() > s.len() {
        None
    } else if occurs_at(s, pat, i) {
        Some(i)
    } else {
        find_from(s, pat, i + 1)
    }
}

/// The first byte offset where `pat` occurs in `s` (what `str::find` gives).
pub open spec fn find(s: Seq<u8>, pat: Seq<u8>) -> Option<int> {
    find_from(s, pat, 0)
}

/// `pat` occurs somewhere in `s` (what `str::contains` gives).
pub open spec fn contains(s: Seq<u8>, pat: Seq<u8>) -> bool {
    find(s, pat) is Some
}

/// The bytes of `s` from offset `i` to the end.
pub open spec fn rest(s: Seq<u8>, i: int) -> Seq<u8> {
    s.subrange(i, s.len() as int)
}

/// A found offset lies where the pattern occurs, and nowhere earlier.
pub proof fn lemma_find_from(s: Seq<u8>, pat: Seq<u8>, i: int)
    requires
        0 <= i,
    ensures
        find_from(s, pat, i) matches Some(k) ==> i <= k && occurs_at(s, pat, k),
        find_from(s, pat, i) matches Some(k) ==> forall|j: int| i <= j < k ==> !occurs_at(s, pat, j),
        find_from(s, pat, i) is None ==> forall|j: int| i <= j ==> !occurs_at(s, pat, j),
    decreases s.len() + 1 - i,
{
    if i + pat.len() > s.len() {
    } else if occurs_at(s, pat, i) {
    } else {
        lemma_find_from(s, pat, i + 1);
    }
}

/// The bytes of an ASCII string slice are its characters, each below 0x80.
pub proof fn lemma_ascii_str(s: &str)
    requires
        is_ascii(s),
    ensures
        bytes(s).len() == s@.len(),
        forall|i: int| 0 <= i < bytes(s).len() ==> #[trigger] bytes(s)[i] < 0x80,
{
    broadcast use vstd::string::is_ascii_spec_bytes;
    assert forall|i: int| 0 <= i < bytes(s).len() implies #[trigger] bytes(s)[i] < 0x80 by {
        assert('\0' <= s@[i] <= '\u{7f}');
    }
}

/// A pattern made of ASCII bytes.
pub open spec fn ascii_pattern(p: Seq<u8>) -> bool {
    p.len() > 0 && forall|i: int| 0 <= i < p.len() ==> #[trigger] p[i] < 0x80
}

/// An ASCII byte of valid UTF-8 starts a character.
pub proof fn lemma_ascii_boundary(s: Seq<u8>, i: int)
    requires
        valid_utf8(s),
        0 <= i <= s.len(),
        i < s.len() ==> s[i] < 0x80,
    ensures
        is_char_boundary(s, i),
{
    broadcast use vstd::utf8::is_char_boundary_start_end_of_seq;
    if i < s.len() {
        vstd::utf8::is_char_boundary_iff_not_is_continuation_byte(s, i);
    }
}

/// A pattern that starts with an ASCII byte can only be found at a character boundary,
/// and the position right after a pattern that ends with an ASCII byte is one too.
pub proof fn lemma_match_boundaries(s: Seq<u8>, pat: Seq<u8>, k: int)
    requires
        valid_utf8(s),
        occurs_at(s, pat, k),
        pat.len() > 0,
        pat[0] < 0x80,
        pat[pat.len() - 1] < 0x80,
    ensures
        is_char_boundary(s, k),
        is_char_boundary(s, k + pat.len()),
{
    assert(s[k] == s.subrange(k, k + pat.len())[0]);
    lemma_ascii_boundary(s, k);
    if k + pat.len() < s.len() {
        let j = k + pat.len();
        assert(s[j - 1] == s.subrange(k, k + pat.len())[pat.len() - 1]);
        // the byte after an ASCII byte is never a continuation byte in valid UTF-8
        lemma_after_ascii(s, j);
    }
    lemma_start_boundary(s, k + pat.len());
}

/// In valid UTF-8, the byte after an ASCII byte starts a character.
pub proof fn lemma_after_ascii(s: Seq<u8>, j: int)
    requires
        valid_utf8(s),
        0 < j < s.len(),
        s[j - 1] < 0x80,
    ensures
        !is_continuation_byte(s[j]),
{
    broadcast use vstd::utf8::is_char_boundary_start_end_of_seq;
    vstd::utf8::is_char_boundary_iff_not_is_continuation_byte(s, j - 1);
    lemma_boundary_step(s, j - 1);
}

/// After a one-byte character that starts at a boundary comes another boundary.
pub proof fn lemma_boundary_step(s: Seq<u8>, i: int)
    requires
        valid_utf8(s),
        0 <= i < s.len(),
        s[i] < 0x80,
        is_char_boundary(s, i),
    ensures
        i + 1 == s.len() || !is_continuation_byte(s[i + 1]),
    decreases s.len(),
{
    if i == 0 {
        if s.len() > 1 {
            let r = pop_first_scalar(s);
            assert(length_of_first_scalar(s) == 1);
            assert(r[0] == s[1]);
            reveal_with_fuel(valid_utf8, 2);
            assert(valid_first_scalar(r));
        }
    } else {
        let r = pop_first_scalar(s);
        let l = length_of_first_scalar(s);
        reveal_with_fuel(is_char_boundary, 2);
        assert(is_char_boundary(r, i - l));
        assert(r[i - l] == s[i]);
        lemma_boundary_step(r, i - l);
        if i + 1 < s.len() {
            assert(r[i - l + 1] == s[i + 1]);
        }
    }
}

/// A position where no continuation byte stands is a character boundary.
pub proof fn lemma_start_boundary(s: Seq<u8>, j: int)
    requires
        valid_utf8(s),
        0 <= j <= s.len(),
        j < s.len() ==> !is_continuation_byte(s[j]),
    ensures
        is_char_boundary(s, j),
{
    broadcast use vstd::utf8::is_char_boundary_start_end_of_seq;
    if j < s.len() {
        vstd::utf8::is_char_boundary_iff_not_is_continuation_byte(s, j);
    }
}

fn bytes_match_at(s: &[u8], pat: &[u8], i: usize) -> (r: bool)
    requires
        i + pat@.len() <= s@.len(),
    ensures
        r == occurs_at(s@, pat@, i as int),
{
    let mut k: usize = 0;
    while k < pat.len()
        invariant
            k <= pat@.len(),
            i + pat@.len() <= s@.len(),
            s@.len() == s.len(),
            pat@.len() == pat.len(),
            forall|j: int| 0 <= j < k ==> s@[i + j] == pat@[j],
        decreases pat@.len() - k,
    {
        if s[i + k] != pat[k] {
            assert(s@.subrange(i as int, i + pat@.len())[k as int] != pat@[k as int]);
            return false;
        }
        k = k + 1;
    }
    assert(s@.subrange(i as int, i + pat@.len()) =~= pat@);
    true
}

/// Byte offset of the first occurrence of `pat` in `s`.
pub fn find_bytes(s: &[u8], pat: &[u8]) -> (r: Option<usize>)
    ensures
        r matches Some(i) ==> find(s@, pat@) == Some(i as int),
        r is None ==> find(s@, pat@) is None,
{
    if pat.len() > s.len() {
        return None;
    }
    let mut i: usize = 0;
    let last = s.len() - pat.len();
    loop
        invariant
            last + pat@.len() == s@.len(),
            i <= last,
            find(s@, pat@) == find_from(s@, pat@, i as int),
        decreases last - i,
    {
        if bytes_match_at(s, pat, i) {
            return Some(i);
        }
        if i == last {
            assert(find_from(s@, pat@, i + 1) is None);
            return None;
        }
        i = i + 1;
    }
}

/// Byte offset of the first occurrence of `pat` in `s` (as `str::find`).
pub fn find_str(s: &str, pat: &str) -> (r: Option<usize>)
    ensures
        r matches Some(i) ==> find(bytes(s), bytes(pat)) == Some(i as int),
        r is None ==> find(bytes(s), bytes(pat)) is None,
{
    find_bytes(s.as_bytes(), pat.as_bytes())
}

/// Whether two string slices hold the same text.
pub fn str_eq(a: &str, b: &str) -> (r: bool)
    ensures
        r == (a@ == b@),
{
    let x = a.as_bytes();
    let y = b.as_bytes();
    proof {
        broadcast use vstd::utf8::encode_utf8_decode_utf8;
        assert(vstd::utf8::decode_utf8(bytes(a)) == a@);
        assert(vstd::utf8::decode_utf8(bytes(b)) == b@);
    }
    if x.len() != y.len() {
        return false;
    }
    let mut i: usize = 0;
    while i < x.len()
        invariant
            i <= x@.len(),
            x@.len() == y@.len(),
            x@ == bytes(a),
            y@ == bytes(b),
            forall|j: int| 0 <= j < i ==> x@[j] == y@[j],
        decreases x@.len() - i,
    {
        if x[i] != y[i] {
            return false;
        }
        i = i + 1;
    }
    assert(x@ =~= y@);
    true
}

/// Byte offset of the first occurrence of the byte `b` in `s`.
pub fn find_byte_str(s: &str, b: u8) -> (r: Option<usize>)
    ensures
        r matches Some(i) ==> find(bytes(s), seq![b]) == Some(i as int),
        r is None ==> find(bytes(s), seq![b]) is None,
{
    let pat: [u8; 1] = [b];
    let ps = pat.as_slice();
    assert(ps@ =~= seq![b]);
    find_bytes(s.as_bytes(), ps)
}

/// Whether `pat` occurs in `s` (as `str::contains`).
pub fn contains_str(s: &str, pat: &str) -> (r: bool)
    ensures
        r == contains(bytes(s), bytes(pat)),
{
    find_str(s, pat).is_some()
}

/// The last byte offset before `end` holding byte `b`.
pub open spec fn rfind_byte_before(s: Seq<u8>, b: u8, end: int) -> Option<int>
    decreases end,
{
    if end <= 0 {
        None
    } else if s[end - 1] == b {
        Some(end - 1)
    } else {
        rfind_byte_before(s, b, end - 1)
    }
}

/// The last byte offset holding byte `b` (as `str::rfind` with an ASCII character).
pub open spec fn rfind_byte(s: Seq<u8>, b: u8) -> Option<int> {
    rfind_byte_before(s, b, s.len() as int)
}

pub proof fn lemma_rfind_byte_before(s: Seq<u8>, b: u8, end: int)
    requires
        end <= s.len(),
    ensures
        rfind_byte_before(s, b, end) matches Some(k) ==> 0 <= k < end && s[k] == b,
        rfind_byte_before(s, b, end) matches Some(k) ==> forall|j: int| k < j < end ==> s[j] != b,
        rfind_byte_before(s, b, end) is None ==> forall|j: int| 0 <= j < end ==> s[j] != b,
    decreases end,
{
    if end > 0 && s[end - 1] != b {
        lemma_rfind_byte_before(s, b, end - 1);
    }
}

/// The last byte offset of ASCII byte `b` in `s`.
pub fn rfind_byte_str(s: &str, b: u8) -> (r: Option<usize>)
    ensures
        r matches Some(i) ==> rfind_byte(bytes(s), b) == Some(i as int),
        r is None ==> rfind_byte(bytes(s), b) is None,
{
    let bs = s.as_bytes();
    let mut end = bs.len();
    while end > 0
        invariant
            end <= bs@.len(),
            bs@ == bytes(s),
            rfind_byte(bytes(s), b) == rfind_byte_before(bytes(s), b, end as int),
        decreases end,
    {
        if bs[end - 1] == b {
            return Some(end - 1);
        }
        end = end - 1;
    }
    None
}

/// The part of `s` from byte offset `i` on (as `&s[i..]`).
pub fn slice_from(s: &str, i: usize) -> (r: &str)
    requires
        is_char_boundary(bytes(s), i as int),
    ensures
        bytes(r) == rest(bytes(s), i as int),
{
    let (_, b) = s.split_at(i);
    b
}

/// The part of `s` before byte offset `i` (as `&s[..i]`).
pub fn slice_to(s: &str, i: usize) -> (r: &str)
    requires
        is_char_boundary(bytes(s), i as int),
    ensures
        bytes(r) == bytes(s).subrange(0, i as int),
{
    let (a, _) = s.split_at(i);
    a
}

/// The part of `s` between byte offsets `a` and `b` (as `&s[a..b]`).
pub fn slice(s: &str, a: usize, b: usize) -> (r: &str)
    requires
        a <= b,
        is_char_boundary(bytes(s), a as int),
        is_char_boundary(bytes(s), b as int),
    ensures
        bytes(r) == bytes(s).subrange(a as int, b as int),
{
    let t = slice_to(s, b);
    proof {
        let sb = bytes(s);
        vstd::utf8::valid_utf8_split(sb, b as int);
        assert(bytes(t) == sb.subrange(0, b as int));
        lemma_boundary_prefix(sb, b as int, a as int);
    }
    let r = slice_from(t, a);
    proof {
        assert(rest(bytes(t), a as int) =~= bytes(s).subrange(a as int, b as int));
    }
    r
}

/// A boundary of a byte string stays a boundary of any prefix that reaches it.
pub proof fn lemma_boundary_prefix(s: Seq<u8>, n: int, a: int)
    requires
        valid_utf8(s),
        0 <= a <= n <= s.len(),
        is_char_boundary(s, a),
        is_char_boundary(s, n),
    ensures
        is_char_boundary(s.subrange(0, n), a),
{
    broadcast use vstd::utf8::is_char_boundary_start_end_of_seq;
    vstd::utf8::valid_utf8_split(s, n);
    let p = s.subrange(0, n);
    if a < n {
        vstd::utf8::is_char_boundary_iff_not_is_continuation_byte(s, a);
        vstd::utf8::is_char_boundary_iff_not_is_continuation_byte(p, a);
        assert(p[a] == s[a]);
    }
}

// ---------------------------------------------------------------------------
// Splitting on a separator
// ---------------------------------------------------------------------------

/// The pieces of `s` between the occurrences of `sep` (as `str::split`).
pub open spec fn split(s: Seq<u8>, sep: Seq<u8>) -> Seq<Seq<u8>>
    recommends
        sep.len() > 0,
    decreases s.len(),
{
    if sep.len() == 0 {
        seq![s]
    } else {
        match find(s, sep) {
            None => seq![s],
            Some(i) => if 0 <= i && i + sep.len() <= s.len() {
                seq![s.subrange(0, i)] + split(rest(s, i + sep.len()), sep)
            } else {
                seq![s]
            },
        }
    }
}

/// A first occurrence found in `a` from `k` on is also the first one in `a + b`.
proof fn lemma_find_prefix(a: Seq<u8>, b: Seq<u8>, sep: Seq<u8>, k: int, i: int)
    requires
        0 <= k,
        find_from(a, sep, k) == Some(i),
    ensures
        find_from(a + b, sep, k) == Some(i),
    decreases a.len() + 1 - k,
{
    lemma_find_from(a, sep, k);
    assert((a + b).subrange(k, k + sep.len()) =~= a.subrange(k, k + sep.len()));
    if !occurs_at(a, sep, k) {
        lemma_find_prefix(a, b, sep, k + 1, i);
    }
}

/// `a` ends with `sep`.
pub open spec fn ends_with(a: Seq<u8>, sep: Seq<u8>) -> bool {
    a.len() >= sep.len() && a.subrange(a.len() - sep.len(), a.len() as int) == sep
}

/// Splitting text that ends with a separator, followed by more text, gives
/// the pieces of the first text (without the empty one after its final
/// separator) and then those of the rest; for a separator whose first byte
/// occurs in it only once.
pub proof fn lemma_split_concat(a: Seq<u8>, b: Seq<u8>, sep: Seq<u8>)
    requires
        sep.len() > 0,
        forall|d: int| 0 < d < sep.len() ==> #[trigger] sep[d] != sep[0],
        ends_with(a, sep),
    ensures
        split(a, sep).len() > 0,
        split(a, sep).last() == Seq::<u8>::empty(),
        split(a + b, sep) == split(a, sep).drop_last() + split(b, sep),
    decreases a.len(),
{
    let n = sep.len();
    let q = a.len() - n;
    assert(occurs_at(a, sep, q));
    lemma_find_from(a, sep, 0);
    let i = find(a, sep)->0;
    assert(i <= q);
    lemma_find_prefix(a, b, sep, 0, i);
    assert((a + b).subrange(0, i) =~= a.subrange(0, i));
    if i == q {
        assert(rest(a, i + n) =~= Seq::<u8>::empty());
        assert(rest(a + b, i + n) =~= b);
        assert(split(Seq::<u8>::empty(), sep) == seq![Seq::<u8>::empty()]);
        assert(split(a, sep) =~= seq![a.subrange(0, i), Seq::<u8>::empty()]);
        assert(split(a, sep).drop_last() =~= seq![a.subrange(0, i)]);
    } else {
        if q < i + n {
            let d = q - i;
            assert(a[q] == a.subrange(q, q + n)[0]);
            assert(a[i + d] == a.subrange(i, i + n)[d]);
        }
        let a2 = rest(a, i + n);
        assert(a2.subrange(a2.len() - n, a2.len() as int) =~= a.subrange(q, a.len() as int));
        lemma_split_concat(a2, b, sep);
        assert(rest(a + b, i + n) =~= a2 + b);
        assert(split(a, sep) == seq![a.subrange(0, i)] + split(a2, sep));
        assert(split(a + b, sep) == seq![a.subrange(0, i)] + split(a2 + b, sep));
        assert((seq![a.subrange(0, i)] + split(a2, sep)).drop_last() =~= seq![a.subrange(0, i)]
            + split(a2, sep).drop_last());
    }
}

/// The byte views of a sequence of string slices.
pub open spec fn bytes_seq(v: Seq<&str>) -> Seq<Seq<u8>> {
    v.map_values(|x: &str| bytes(x))
}

/// The pieces of `s` between the occurrences of the ASCII-delimited `sep`.
pub fn split_str<'a>(s: &'a str, sep: &str) -> (r: Vec<&'a str>)
    requires
        bytes(sep).len() > 0,
        bytes(sep)[0] < 0x80,
        bytes(sep)[bytes(sep).len() - 1] < 0x80,
    ensures
        bytes_seq(r@) == split(bytes(s), bytes(sep)),
{
    let mut out: Vec<&'a str> = Vec::new();
    let mut cur: &'a str = s;
    let ghost sepb = bytes(sep);
    loop
        invariant
            sepb == bytes(sep),
            sepb.len() > 0,
            sepb[0] < 0x80,
            sepb[sepb.len() - 1] < 0x80,
            bytes_seq(out@) + split(bytes(cur), sepb) == split(bytes(s), sepb),
        decreases bytes(cur).len(),
    {
        let ghost cb = bytes(cur);
        let cur_len = cur.as_bytes().len();
        assert(cur_len == cb.len());
        match find_str(cur, sep) {
            None => {
                out.push(cur);
                proof {
                    assert(split(cb, sepb) == seq![cb]);
                    assert(bytes_seq(out@) =~= bytes_seq(out@.drop_last()) + seq![cb]);
                }
                return out;
            },
            Some(i) => {
                proof {
                    lemma_find_from(cb, sepb, 0);
                    lemma_match_boundaries(cb, sepb, i as int);
                }
                let head = slice_to(cur, i);
                let tail = slice_from(cur, i + sep.as_bytes().len());
                proof {
                    assert(split(cb, sepb) == seq![cb.subrange(0, i as int)] + split(
                        rest(cb, i + sepb.len()),
                        sepb,
                    ));
                }
                out.push(head);
                proof {
                    assert(bytes_seq(out@) =~= bytes_seq(out@.drop_last()) + seq![bytes(head)]);
                    assert(bytes_seq(out@) + split(bytes(tail), sepb) =~= bytes_seq(
                        out@.drop_last(),
                    ) + split(cb, sepb));
                }
                cur = tail;
            },
        }
    }
}

// ---------------------------------------------------------------------------
// Characters: whitespace, words, lines
// ---------------------------------------------------------------------------

/// The Unicode `White_Space` characters (what `char::is_whitespace` tests).
pub open spec fn is_ws(c: char) -> bool {
    let u = c as u32;
    ||| (0x09 <= u <= 0x0d)
    ||| u == 0x20
    ||| u == 0x85
    ||| u == 0xa0
    ||| u == 0x1680
    ||| (0x2000 <= u <= 0x200a)
    ||| u == 0x2028
    ||| u == 0x2029
    ||| u == 0x202f
    ||| u == 0x205f
    ||| u == 0x3000
}

/// Whether `c` is whitespace (as `char::is_whitespace`: the Unicode
/// `White_Space` characters).
pub fn char_is_whitespace(c: char) -> (r: bool)
    ensures
        r == is_ws(c),
{
    let u = c as u32;
    (0x09 <= u && u <= 0x0d) || u == 0x20 || u == 0x85 || u == 0xa0 || u == 0x1680 || (0x2000 <= u
        && u <= 0x200a) || u == 0x2028 || u == 0x2029 || u == 0x202f || u == 0x205f || u == 0x3000
}

/// Every character of `s` is whitespace (so `s.trim()` is empty).
pub open spec fn all_ws(s: Seq<char>) -> bool {
    forall|i: int| 0 <= i < s.len() ==> is_ws(#[trigger] s[i])
}

/// Whether every character of `s` is whitespace (as `s.trim().is_empty()`).
pub fn is_blank(s: &str) -> (r: bool)
    ensures
        r == all_ws(s@),
{
    let cs = chars_of(s);
    let mut i: usize = 0;
    while i < cs.len()
        invariant
            i <= cs@.len(),
            cs@ == s@,
            forall|j: int| 0 <= j < i ==> is_ws(#[trigger] cs@[j]),
        decreases cs@.len() - i,
    {
        if !char_is_whitespace(cs[i]) {
            return false;
        }
        i = i + 1;
    }
    true
}

/// Index of the first non-whitespace character at or after `i` (or the length).
pub open spec fn first_non_ws_from(s: Seq<char>, i: int) -> int
    decreases s.len() - i,
{
    if i >= s.len() {
        s.len() as int
    } else if !is_ws(s[i]) {
        i
    } else {
        first_non_ws_from(s, i + 1)
    }
}

/// One past the last non-whitespace character before `e` (or 0).
pub open spec fn last_non_ws_before(s: Seq<char>, e: int) -> int
    decreases e,
{
    if e <= 0 {
        0
    } else if !is_ws(s[e - 1]) {
        e
    } else {
        last_non_ws_before(s, e - 1)
    }
}

/// `s` without its leading and trailing whitespace (what `str::trim` gives).
pub open spec fn trim(s: Seq<char>) -> Seq<char> {
    let a = first_non_ws_from(s, 0);
    let b = last_non_ws_before(s, s.len() as int);
    if a < b {
        s.subrange(a, b)
    } else {
        Seq::empty()
    }
}

proof fn lemma_first_non_ws(s: Seq<char>, i: int)
    requires
        0 <= i <= s.len(),
    ensures
        i <= first_non_ws_from(s, i) <= s.len(),
        first_non_ws_from(s, i) < s.len() ==> !is_ws(s[first_non_ws_from(s, i)]),
    decreases s.len() - i,
{
    if i < s.len() && is_ws(s[i]) {
        lemma_first_non_ws(s, i + 1);
    }
}

proof fn lemma_last_non_ws(s: Seq<char>, e: int)
    requires
        0 <= e <= s.len(),
    ensures
        0 <= last_non_ws_before(s, e) <= e,
        last_non_ws_before(s, e) > 0 ==> !is_ws(s[last_non_ws_before(s, e) - 1]),
    decreases e,
{
    if e > 0 && is_ws(s[e - 1]) {
        lemma_last_non_ws(s, e - 1);
    }
}

/// Trimming a trimmed text changes nothing: it neither starts nor ends with
/// whitespace.
pub proof fn lemma_trim_trimmed(s: Seq<char>)
    ensures
        trim(trim(s)) == trim(s),
{
    lemma_first_non_ws(s, 0);
    lemma_last_non_ws(s, s.len() as int);
    let t = trim(s);
    if t.len() > 0 {
        let a = first_non_ws_from(s, 0);
        let b = last_non_ws_before(s, s.len() as int);
        assert(t[0] == s[a]);
        assert(t[t.len() - 1] == s[b - 1]);
        assert(first_non_ws_from(t, 0) == 0);
        assert(last_non_ws_before(t, t.len() as int) == t.len());
        assert(t.subrange(0, t.len() as int) =~= t);
    }
}

/// `m` occurs in `s` as a run of consecutive characters.
pub open spec fn shows(s: Seq<char>, m: Seq<char>) -> bool {
    exists|i: int| 0 <= i && i + m.len() <= s.len() && #[trigger] s.subrange(i, i + m.len()) == m
}

/// Every text shows itself.
pub proof fn lemma_shows_self(m: Seq<char>)
    ensures
        shows(m, m),
{
    let i: int = 0;
    assert(m.subrange(i, i + m.len()) =~= m);
}

/// What a text shows, any text around it shows too.
pub proof fn lemma_shows_within(s: Seq<char>, m: Seq<char>, a: Seq<char>, b: Seq<char>)
    requires
        shows(s, m),
    ensures
        shows(a + s + b, m),
{
    let i = choose|i: int| 0 <= i && i + m.len() <= s.len() && #[trigger] s.subrange(i, i + m.len()) == m;
    let t = a + s + b;
    assert(t.subrange(a.len() + i, a.len() + i + m.len()) =~= s.subrange(i, i + m.len()));
}

/// What a part of a shown text is made of is shown too.
pub proof fn lemma_shows_part(s: Seq<char>, a: Seq<char>, m: Seq<char>, b: Seq<char>)
    requires
        shows(s, a + m + b),
    ensures
        shows(s, m),
{
    let x = a + m + b;
    let i = choose|i: int| 0 <= i && i + x.len() <= s.len() && #[trigger] s.subrange(i, i + x.len()) == x;
    let j = i + a.len();
    assert(s.subrange(j, j + m.len()) =~= x.subrange(a.len() as int, a.len() + m.len() as int));
    assert(x.subrange(a.len() as int, a.len() + m.len() as int) =~= m);
}

proof fn lemma_last_non_ws_at_least(s: Seq<char>, e: int, k: int)
    requires
        1 <= k <= e <= s.len(),
        !is_ws(s[k - 1]),
    ensures
        k <= last_non_ws_before(s, e),
    decreases e,
{
    if e > k && is_ws(s[e - 1]) {
        lemma_last_non_ws_at_least(s, e - 1, k);
    }
}

/// Trimming a text that starts with a non-whitespace character keeps every
/// part of it that ends with a non-whitespace character, where it was.
pub proof fn lemma_trim_keeps(a: Seq<char>, m: Seq<char>, b: Seq<char>)
    requires
        a.len() > 0,
        !is_ws(a[0]),
        m.len() > 0,
        !is_ws(m.last()),
    ensures
        a.len() + m.len() <= trim(a + m + b).len(),
        trim(a + m + b).subrange(a.len() as int, a.len() + m.len() as int) == m,
        shows(trim(a + m + b), m),
{
    let s = a + m + b;
    let k: int = a.len() + m.len() as int;
    assert(s[k - 1] == m.last());
    lemma_last_non_ws_at_least(s, s.len() as int, k);
    lemma_last_non_ws(s, s.len() as int);
    assert(s[0] == a[0]);
    assert(first_non_ws_from(s, 0) == 0);
    let t = trim(s);
    assert(t =~= s.subrange(0, last_non_ws_before(s, s.len() as int)));
    assert(t.subrange(a.len() as int, k) =~= m);
}

/// The slice of `s` without leading and trailing `White_Space` characters
/// (as `str::trim`).
pub fn trim_str(s: &str) -> (r: &str)
    ensures
        r@ == trim(s@),
{
    let cs = chars_of(s);
    let ghost t = s@;
    let mut a: usize = 0;
    while a < cs.len() && char_is_whitespace(cs[a])
        invariant
            cs@ == t,
            a <= cs.len(),
            first_non_ws_from(t, 0) == first_non_ws_from(t, a as int),
        decreases cs.len() - a,
    {
        a = a + 1;
    }
    let mut b: usize = cs.len();
    while b > 0 && char_is_whitespace(cs[b - 1])
        invariant
            cs@ == t,
            b <= cs.len(),
            a < cs.len() ==> a < b && !is_ws(t[a as int]),
            last_non_ws_before(t, t.len() as int) == last_non_ws_before(t, b as int),
        decreases b,
    {
        b = b - 1;
    }
    if a < b {
        s.substring_char(a, b)
    } else {
        let r = s.substring_char(0, 0);
        assert(r@ =~= Seq::<char>::empty());
        r
    }
}

/// The number of maximal runs of non-whitespace characters among the first `n`.
pub open spec fn word_count_prefix(s: Seq<char>, n: int) -> nat
    decreases n,
{
    if n <= 0 {
        0
    } else {
        word_count_prefix(s, n - 1) + if !is_ws(s[n - 1]) && (n == 1 || is_ws(s[n - 2])) {
            1nat
        } else {
            0nat
        }
    }
}

/// The number of words of `s` (what `s.split_whitespace().count()` gives).
pub open spec fn word_count(s: Seq<char>) -> nat {
    word_count_prefix(s, s.len() as int)
}

/// The number of whitespace-separated words of `s`.
pub fn count_words(s: &str) -> (r: usize)
    ensures
        r == word_count(s@),
{
    let cs = chars_of(s);
    let mut i: usize = 0;
    let mut n: usize = 0;
    let mut prev_ws = true;
    while i < cs.len()
        invariant
            i <= cs@.len(),
            cs@ == s@,
            n == word_count_prefix(cs@, i as int),
            n <= i,
            prev_ws == (i == 0 || is_ws(cs@[i - 1])),
        decreases cs@.len() - i,
    {
        let w = char_is_whitespace(cs[i]);
        if !w && prev_ws {
            n = n + 1;
        }
        prev_ws = w;
        i = i + 1;
    }
    n
}

/// The characters of `s`.
pub fn chars_of(s: &str) -> (v: Vec<char>)
    ensures
        v@ == s@,
{
    let mut v: Vec<char> = Vec::new();
    for c in it: s.chars()
        invariant
            v@ == it.seq().take(it.index() as int),
            it.seq() == s@,
    {
        v.push(c);
    }
    v
}

/// A line without a trailing carriage return.
pub open spec fn strip_cr(s: Seq<u8>) -> Seq<u8> {
    if s.len() > 0 && s[s.len() - 1] == 13u8 {
        s.subrange(0, s.len() - 1)
    } else {
        s
    }
}

/// The lines of `s`: split at `\n`, each with a `\r` right before the `\n`
/// removed, and no line after a final `\n` (what `str::lines` gives).
pub open spec fn lines(s: Seq<u8>) -> Seq<Seq<u8>>
    decreases s.len(),
{
    if s.len() == 0 {
        Seq::empty()
    } else {
        match find(s, seq![10u8]) {
            None => seq![s],
            Some(i) => if 0 <= i < s.len() {
                seq![strip_cr(s.subrange(0, i))] + lines(rest(s, i + 1))
            } else {
                seq![s]
            },
        }
    }
}

/// The lines of `s` (as `str::lines`).
pub fn lines_of<'a>(s: &'a str) -> (r: Vec<&'a str>)
    ensures
        bytes_seq(r@) == lines(bytes(s)),
{
    let mut out: Vec<&'a str> = Vec::new();
    let mut cur: &'a str = s;
    let ghost nl = seq![10u8];
    loop
        invariant
            nl == seq![10u8],
            bytes_seq(out@) + lines(bytes(cur)) == lines(bytes(s)),
        decreases bytes(cur).len(),
    {
        let ghost cb = bytes(cur);
        let cbs = cur.as_bytes();
        if cbs.len() == 0 {
            assert(lines(cb) == Seq::<Seq<u8>>::empty());
            assert(bytes_seq(out@) + lines(cb) =~= bytes_seq(out@));
            return out;
        }
        let found = find_byte_str(cur, 10u8);
        match found {
            None => {
                out.push(cur);
                proof {
                    assert(bytes_seq(out@) =~= bytes_seq(out@.drop_last()) + seq![cb]);
                }
                return out;
            },
            Some(i) => {
                proof {
                    lemma_find_from(cb, nl, 0);
                    lemma_match_boundaries(cb, nl, i as int);
                }
                let head0 = slice_to(cur, i);
                let tail = slice_from(cur, i + 1);
                let hb = head0.as_bytes();
                let head = if hb.len() > 0 && hb[hb.len() - 1] == 13u8 {
                    proof {
                        let h = bytes(head0);
                        vstd::utf8::valid_utf8_split(cb, i as int);
                        lemma_ascii_boundary(h, h.len() - 1);
                    }
                    slice_to(head0, hb.len() - 1)
                } else {
                    head0
                };
                proof {
                    assert(bytes(head) =~= strip_cr(cb.subrange(0, i as int)));
                }
                out.push(head);
                proof {
                    assert(bytes_seq(out@) =~= bytes_seq(out@.drop_last()) + seq![bytes(head)]);
                }
                cur = tail;
            },
        }
    }
}

// ---------------------------------------------------------------------------
// Building text
// ---------------------------------------------------------------------------

/// `String::push`: appends one character.
#[verifier::external_body]
pub fn push_char(s: &mut String, c: char)
    ensures
        final(s)@ == old(s)@.push(c),
{
    s.push(c)
}

/// The decimal digits of `n` (what `{}` prints for an unsigned integer).
pub open spec fn decimal(n: nat) -> Seq<char>
    decreases n,
{
    if n < 10 {
        seq![digit_char(n)]
    } else {
        decimal(n / 10).push(digit_char(n % 10))
    }
}

/// The character of a decimal digit.
pub open spec fn digit_char(d: nat) -> char {
    if d == 0 { '0' }
    else if d == 1 { '1' }
    else if d == 2 { '2' }
    else if d == 3 { '3' }
    else if d == 4 { '4' }
    else if d == 5 { '5' }
    else if d == 6 { '6' }
    else if d == 7 { '7' }
    else if d == 8 { '8' }
    else { '9' }
}

fn digit(d: usize) -> (c: char)
    requires
        d < 10,
    ensures
        c == digit_char(d as nat),
{
    if d == 0 { '0' }
    else if d == 1 { '1' }
    else if d == 2 { '2' }
    else if d == 3 { '3' }
    else if d == 4 { '4' }
    else if d == 5 { '5' }
    else if d == 6 { '6' }
    else if d == 7 { '7' }
    else if d == 8 { '8' }
    else { '9' }
}

/// Appends the decimal digits of `n` to `s`.
pub fn push_decimal(s: &mut String, n: usize)
    ensures
        final(s)@ == old(s)@ + decimal(n as nat),
    decreases n,
{
    if n >= 10 {
        push_decimal(s, n / 10);
        push_char(s, digit(n % 10));
        proof {
            assert(decimal(n as nat) == decimal((n / 10) as nat).push(digit_char((n % 10) as nat)));
        }
    } else {
        push_char(s, digit(n));
        proof {
            assert(decimal(n as nat) == seq![digit_char(n as nat)]);
        }
    }
    assert(final(s)@ =~= old(s)@ + decimal(n as nat)) by {
        if n >= 10 {
        }
    }
}

/// `{:?}` of an optional count: `Some(n)` or `None`.
pub open spec fn debug_option(v: Option<usize>) -> Seq<char> {
    match v {
        Some(n) => "Some("@ + decimal(n as nat) + ")"@,
        None => "None"@,
    }
}

/// Appends `{:?}` of an optional count.
pub fn push_debug_option(s: &mut String, v: Option<usize>)
    ensures
        final(s)@ == old(s)@ + debug_option(v),
{
    match v {
        Some(n) => {
            s.append("Some(");
            push_decimal(s, n);
            s.append(")");
            assert(final(s)@ =~= old(s)@ + debug_option(v));
        },
        None => {
            s.append("None");
        },
    }
}

/// `str::to_lowercase`: the lowercase mapping of every character of `s`,
/// as the Unicode tables of std define it.
pub uninterp spec fn lowercase(s: Seq<char>) -> Seq<char>;

/// `str::to_lowercase`. Its result is named, not spelled out: it is a pure
/// function of the text, defined by Unicode's case tables.
#[verifier::external_body]
pub fn to_lowercase(s: &str) -> (r: String)
    ensures
        r@ == lowercase(s@),
{
    s.to_lowercase()
}

/// Joins `parts` with `sep` between consecutive parts (as `join`).
pub open spec fn join(parts: Seq<Seq<char>>, sep: Seq<char>) -> Seq<char>
    decreases parts.len(),
{
    if parts.len() == 0 {
        Seq::empty()
    } else if parts.len() == 1 {
        parts[0]
    } else {
        join(parts.drop_last(), sep) + sep + parts.last()
    }
}


/// Appends `parts` joined with `sep` between consecutive parts.
pub fn push_join(out: &mut String, parts: &Vec<String>, sep: &str)
    ensures
        final(out)@ == old(out)@ + join(parts@.map_values(|p: String| p@), sep@),
{
    let ghost ps = parts@.map_values(|p: String| p@);
    let ghost start = out@;
    let mut i: usize = 0;
    while i < parts.len()
        invariant
            i <= parts@.len(),
            ps == parts@.map_values(|p: String| p@),
            out@ == start + join(ps.take(i as int), sep@),
        decreases parts@.len() - i,
    {
        let ghost before = out@;
        if i > 0 {
            out.append(sep);
        }
        out.append(parts[i].as_str());
        proof {
            let t = ps.take(i + 1);
            assert(t.drop_last() =~= ps.take(i as int));
            assert(t.last() == ps[i as int]);
            if i == 0 {
                assert(t.len() == 1);
                assert(out@ =~= start + join(t, sep@));
            } else {
                assert(out@ =~= start + join(t, sep@));
            }
        }
        i = i + 1;
    }
    proof {
        assert(ps.take(parts@.len() as int) =~= ps);
    }
}

} // verus!
