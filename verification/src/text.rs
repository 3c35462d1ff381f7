//! Text primitives: characters and their UTF-8 byte offsets, splitting,
//! joining, trimming and number formatting.
//!
//! A string is modelled by its sequence of characters.  Cursor positions are
//! byte offsets into the UTF-8 encoding; [`byte_offset`] relates the two.

use vstd::prelude::*;
use vstd::utf8::{decode_utf8, encode_scalar, encode_utf8, is_ascii_chars, is_char_boundary, valid_utf8};

verus! {

broadcast use vstd::string::group_string_axioms;

// ── Trusted standard-library items ────────────────────────────────────────────

/// Whether a character is white space: one of those with the Unicode property
/// `White_Space`.
pub open spec fn is_space(c: char) -> bool {
    ||| '\u{9}' <= c <= '\u{d}'
    ||| c == '\u{20}' || c == '\u{85}' || c == '\u{a0}' || c == '\u{1680}'
    ||| '\u{2000}' <= c <= '\u{200a}'
    ||| c == '\u{2028}' || c == '\u{2029}' || c == '\u{202f}' || c == '\u{205f}'
    ||| c == '\u{3000}'
}

/// Whether `char::is_alphanumeric` holds of a character that is not ASCII.
pub uninterp spec fn is_unicode_alnum(c: char) -> bool;

/// Whether a character is a letter or a number.
pub open spec fn is_alnum(c: char) -> bool {
    if c >= '\u{80}' {
        is_unicode_alnum(c)
    } else {
        'a' <= c <= 'z' || 'A' <= c <= 'Z' || '0' <= c <= '9'
    }
}

/// What `str::to_lowercase` makes of a text that is not ASCII.
pub uninterp spec fn unicode_lowercase(s: Seq<char>) -> Seq<char>;

/// A character with the letters from A to Z made small.
pub open spec fn ascii_lowercase(c: char) -> char {
    if 'A' <= c <= 'Z' {
        (c as u32 + 32) as char
    } else {
        c
    }
}

/// A text in small letters.
pub open spec fn lowercase(s: Seq<char>) -> Seq<char> {
    if is_ascii_chars(s) {
        Seq::new(s.len(), |i: int| ascii_lowercase(s[i]))
    } else {
        unicode_lowercase(s)
    }
}

/// What `String::from_utf8_lossy` reads from bytes.
pub uninterp spec fn utf8_lossy(bytes: Seq<u8>) -> Seq<char>;

/// `char::is_whitespace`: the Unicode property `White_Space`, which these
/// characters have and no others.
#[verifier::external_body]
pub(crate) fn char_is_space(c: char) -> (r: bool)
    ensures
        r == is_space(c),
{
    c.is_whitespace()
}

/// `char::is_alphanumeric`: the Unicode `Alphabetic` property or one of the
/// numeric general categories, named [`is_unicode_alnum`].  Among the ASCII
/// characters these are the letters and the digits.
#[verifier::external_body]
pub(crate) fn char_is_alnum(c: char) -> (r: bool)
    ensures
        r == is_alnum(c),
        c >= '\u{80}' ==> r == is_unicode_alnum(c),
{
    c.is_alphanumeric()
}

/// `str::to_lowercase`: the lowercase equivalent by the Unicode tables, named
/// [`unicode_lowercase`].  Of an ASCII text the letters from A to Z become
/// small, and everything else stays.
#[verifier::external_body]
pub(crate) fn to_lower(s: &str) -> (r: String)
    ensures
        r@ == lowercase(s@),
        !is_ascii_chars(s@) ==> r@ == unicode_lowercase(s@),
{
    s.to_lowercase()
}

/// `String::from_utf8_lossy`: decodes bytes, putting a replacement character
/// where they are not UTF-8.  Bytes that are valid UTF-8 decode to their text.
#[verifier::external_body]
pub(crate) fn from_utf8_lossy(bytes: &[u8]) -> (r: String)
    ensures
        r@ == utf8_lossy(bytes@),
        valid_utf8(bytes@) ==> r@ == decode_utf8(bytes@),
{
    String::from_utf8_lossy(bytes).into_owned()
}

/// `String::push`: appends one character.
pub assume_specification[ String::push ](s: &mut String, c: char)
    ensures
        final(s)@ == old(s)@.push(c),
;

// ── Bytes and characters ──────────────────────────────────────────────────────

/// Length of a text in UTF-8 bytes.
pub open spec fn byte_len(s: Seq<char>) -> nat {
    encode_utf8(s).len()
}

/// Byte offset at which the `k`-th character of `s` starts.
pub open spec fn byte_offset(s: Seq<char>, k: int) -> nat {
    byte_len(s.take(k))
}

/// Whether the byte offset `i` lies between two characters of `s`, or at
/// either end of it.
pub open spec fn at_boundary(s: Seq<char>, i: int) -> bool {
    exists|k: int| 0 <= k <= s.len() && #[trigger] byte_offset(s, k) == i
}

/// Number of characters before the byte offset `i`.
pub open spec fn char_index(s: Seq<char>, i: int) -> int {
    choose|k: int| 0 <= k <= s.len() && #[trigger] byte_offset(s, k) == i
}

/// Encoding is compatible with concatenation.
pub proof fn lemma_encode_concat(a: Seq<char>, b: Seq<char>)
    ensures
        encode_utf8(a + b) == encode_utf8(a) + encode_utf8(b),
        byte_len(a + b) == byte_len(a) + byte_len(b),
    decreases a.len(),
{
    if a.len() == 0 {
        assert(a + b =~= b);
        assert(encode_utf8(a) + encode_utf8(b) =~= encode_utf8(b));
    } else {
        lemma_encode_concat(a.drop_first(), b);
        assert((a + b).drop_first() =~= a.drop_first() + b);
        assert(encode_utf8(a + b) =~= encode_utf8(a) + encode_utf8(b));
    }
}

/// A character takes one to four bytes.
pub proof fn lemma_single_bytes(c: char)
    ensures
        byte_len(seq![c]) == encode_scalar(c as u32).len(),
        1 <= byte_len(seq![c]) <= 4,
        c < '\u{80}' <==> byte_len(seq![c]) == 1,
{
    assert(seq![c].drop_first() =~= Seq::<char>::empty());
    reveal_with_fuel(encode_utf8, 2);
    vstd::utf8::char_is_scalar(c);
}

/// Byte offsets grow with the character index, by at least one byte each.
pub proof fn lemma_offset_monotone(s: Seq<char>, j: int, k: int)
    requires
        0 <= j <= k <= s.len(),
    ensures
        byte_offset(s, j) + (k - j) <= byte_offset(s, k),
        j < k ==> byte_offset(s, j) < byte_offset(s, k),
    decreases k - j,
{
    if j < k {
        lemma_offset_monotone(s, j, k - 1);
        lemma_offset_step(s, k - 1);
    }
}

/// One character further is that character's bytes further.
pub proof fn lemma_offset_step(s: Seq<char>, k: int)
    requires
        0 <= k < s.len(),
    ensures
        byte_offset(s, k + 1) == byte_offset(s, k) + byte_len(seq![s[k]]),
        byte_offset(s, k) < byte_offset(s, k + 1),
{
    assert(s.take(k + 1) =~= s.take(k) + seq![s[k]]);
    lemma_encode_concat(s.take(k), seq![s[k]]);
    lemma_single_bytes(s[k]);
}

/// A character index is recovered from its byte offset.
pub proof fn lemma_char_index(s: Seq<char>, k: int)
    requires
        0 <= k <= s.len(),
    ensures
        at_boundary(s, byte_offset(s, k) as int),
        char_index(s, byte_offset(s, k) as int) == k,
{
    let i = byte_offset(s, k) as int;
    assert(0 <= k <= s.len() && byte_offset(s, k) == i);
    let j = char_index(s, i);
    assert(0 <= j <= s.len() && byte_offset(s, j) == i);
    if j < k {
        lemma_offset_monotone(s, j, k);
    } else if k < j {
        lemma_offset_monotone(s, k, j);
    }
}

/// Both ends of a text are boundaries.
pub proof fn lemma_ends(s: Seq<char>)
    ensures
        at_boundary(s, 0),
        char_index(s, 0) == 0,
        at_boundary(s, byte_len(s) as int),
        char_index(s, byte_len(s) as int) == s.len(),
{
    assert(s.take(0) =~= Seq::<char>::empty());
    assert(s.take(s.len() as int) =~= s);
    lemma_char_index(s, 0);
    lemma_char_index(s, s.len() as int);
}

/// Every boundary is the start of its character and lies within the text.
pub proof fn lemma_boundary(s: Seq<char>, i: int)
    requires
        at_boundary(s, i),
    ensures
        0 <= char_index(s, i) <= s.len(),
        byte_offset(s, char_index(s, i)) == i,
        0 <= i <= byte_len(s),
        (char_index(s, i) == 0) == (i == 0),
        (char_index(s, i) == s.len()) == (i == byte_len(s)),
        char_index(s, i) <= i,
{
    let k = char_index(s, i);
    assert(0 <= k <= s.len() && byte_offset(s, k) == i);
    lemma_offset_monotone(s, 0, k);
    lemma_offset_monotone(s, k, s.len() as int);
    assert(s.take(0) =~= Seq::<char>::empty());
    assert(s.take(s.len() as int) =~= s);
}

/// The boundaries of the encoding are the byte offsets of the characters.
pub proof fn lemma_boundary_bytes(s: Seq<char>, i: int)
    ensures
        is_char_boundary(encode_utf8(s), i) <==> at_boundary(s, i),
    decreases s.len(),
{
    broadcast use vstd::utf8::encode_utf8_valid_utf8;

    let bytes = encode_utf8(s);
    assert(s.take(0) =~= Seq::<char>::empty());
    if i == 0 {
        assert(byte_offset(s, 0) == 0);
    } else if i < 0 || i > bytes.len() {
        if at_boundary(s, i) {
            lemma_boundary(s, i);
        }
    } else {
        let t = s.drop_first();
        let w = encode_scalar(s[0] as u32).len() as int;
        vstd::utf8::encode_utf8_first_scalar(s);
        assert(vstd::utf8::pop_first_scalar(bytes) =~= encode_utf8(t));
        lemma_boundary_bytes(t, i - w);
        assert forall|k: int| 1 <= k <= s.len() implies #[trigger] byte_offset(s, k) == byte_offset(
            t,
            k - 1,
        ) + w by {
            assert(s.take(k).drop_first() =~= t.take(k - 1));
        }
        if at_boundary(t, i - w) {
            let k = char_index(t, i - w);
            lemma_boundary(t, i - w);
            assert(byte_offset(s, k + 1) == i);
        }
        if at_boundary(s, i) {
            let k = char_index(s, i);
            lemma_boundary(s, i);
            assert(byte_offset(t, k - 1) == i - w);
        }
    }
}

/// In an ASCII text characters and bytes are counted alike.
pub proof fn lemma_ascii_bytes(s: Seq<char>)
    requires
        is_ascii_chars(s),
    ensures
        byte_len(s) == s.len(),
{
    vstd::utf8::is_ascii_chars_encode_utf8(s);
}

/// In an ASCII text every position is a boundary and its own character index.
pub proof fn lemma_ascii_boundary(s: Seq<char>, i: int)
    requires
        is_ascii_chars(s),
        0 <= i <= s.len(),
    ensures
        at_boundary(s, i),
        char_index(s, i) == i,
{
    assert(is_ascii_chars(s.take(i)));
    lemma_ascii_bytes(s.take(i));
    lemma_char_index(s, i);
}

/// Texts with the same encoding are the same.
pub proof fn lemma_encode_injective(a: Seq<char>, b: Seq<char>)
    requires
        encode_utf8(a) == encode_utf8(b),
    ensures
        a == b,
{
    vstd::utf8::encode_utf8_decode_utf8(a);
    vstd::utf8::encode_utf8_decode_utf8(b);
}

/// The number of bytes of a string, which always fits a `usize`.
pub(crate) fn length(s: &str) -> (n: usize)
    ensures
        n == byte_len(s@),
{
    s.as_bytes().len()
}

/// Whether `i` is a boundary of `s`.
pub(crate) fn is_boundary(s: &str, i: usize) -> (r: bool)
    ensures
        r == at_boundary(s@, i as int),
{
    proof {
        lemma_boundary_bytes(s@, i as int);
    }
    s.is_char_boundary(i)
}

/// The parts of `s` before and after a boundary.
pub(crate) fn split_at(s: &str, i: usize) -> (r: (&str, &str))
    requires
        at_boundary(s@, i as int),
    ensures
        r.0@ == s@.take(char_index(s@, i as int)),
        r.1@ == s@.skip(char_index(s@, i as int)),
{
    proof {
        lemma_boundary_bytes(s@, i as int);
    }
    let r = s.split_at(i);
    proof {
        let k = char_index(s@, i as int);
        lemma_boundary(s@, i as int);
        assert(s@ =~= s@.take(k) + s@.skip(k));
        lemma_encode_concat(s@.take(k), s@.skip(k));
        let bytes = encode_utf8(s@);
        assert(bytes.subrange(0, i as int) =~= encode_utf8(s@.take(k)));
        assert(bytes.subrange(i as int, bytes.len() as int) =~= encode_utf8(s@.skip(k)));
        lemma_encode_injective(r.0@, s@.take(k));
        lemma_encode_injective(r.1@, s@.skip(k));
    }
    r
}

// ── Building texts ────────────────────────────────────────────────────────────

/// The characters of a string.
pub(crate) fn chars_of(s: &str) -> (v: Vec<char>)
    ensures
        v@ == s@,
{
    let mut v: Vec<char> = Vec::new();
    for c in it: s.chars()
        invariant
            it.seq() == s@,
            v@ == s@.take(it.index() as int),
    {
        v.push(c);
        proof {
            assert(s@.take(it.index() as int + 1) =~= s@.take(it.index() as int).push(
                s@[it.index() as int],
            ));
        }
    }
    proof {
        assert(s@.take(s@.len() as int) =~= s@);
    }
    v
}

/// The string of the characters from `lo` up to `hi`.
pub(crate) fn from_chars(v: &Vec<char>, lo: usize, hi: usize) -> (s: String)
    requires
        lo <= hi <= v@.len(),
    ensures
        s@ == v@.subrange(lo as int, hi as int),
{
    let mut s = String::new();
    let mut i: usize = lo;
    while i < hi
        invariant
            lo <= i <= hi <= v@.len(),
            s@ == v@.subrange(lo as int, i as int),
        decreases hi - i,
    {
        s.push(v[i]);
        proof {
            assert(v@.subrange(lo as int, i + 1) =~= v@.subrange(lo as int, i as int).push(
                v@[i as int],
            ));
        }
        i = i + 1;
    }
    s
}

/// Whether two strings hold the same text.
pub(crate) fn same(a: &str, b: &str) -> (r: bool)
    ensures
        r == (a@ == b@),
{
    let a = a.to_owned();
    let b = b.to_owned();
    a == b
}

/// The views of a list of strings.
pub open spec fn views(v: Seq<String>) -> Seq<Seq<char>> {
    v.map_values(|s: String| s@)
}

/// Texts joined by a separator.
pub open spec fn join_texts(parts: Seq<Seq<char>>, sep: Seq<char>) -> Seq<char>
    decreases parts.len(),
{
    if parts.len() == 0 {
        Seq::empty()
    } else if parts.len() == 1 {
        parts[0]
    } else {
        join_texts(parts.drop_last(), sep) + sep + parts.last()
    }
}

/// Joins strings by a separator.
pub fn join(parts: &Vec<String>, sep: &str) -> (r: String)
    ensures
        r@ == join_texts(views(parts@), sep@),
{
    let mut r = String::new();
    let mut i: usize = 0;
    while i < parts.len()
        invariant
            i <= parts@.len(),
            r@ == join_texts(views(parts@).take(i as int), sep@),
        decreases parts@.len() - i,
    {
        if i > 0 {
            r.append(sep);
        }
        r.append(parts[i].as_str());
        proof {
            let all = views(parts@);
            assert(all.take(i + 1).drop_last() =~= all.take(i as int));
            assert(r@ =~= join_texts(all.take(i + 1), sep@));
        }
        i = i + 1;
    }
    proof {
        assert(views(parts@).take(parts@.len() as int) =~= views(parts@));
    }
    r
}

/// The decimal digit `d`.
pub open spec fn digit(d: nat) -> char {
    if d == 0 {
        '0'
    } else if d == 1 {
        '1'
    } else if d == 2 {
        '2'
    } else if d == 3 {
        '3'
    } else if d == 4 {
        '4'
    } else if d == 5 {
        '5'
    } else if d == 6 {
        '6'
    } else if d == 7 {
        '7'
    } else if d == 8 {
        '8'
    } else {
        '9'
    }
}

/// The decimal notation of a number.
pub open spec fn decimal(n: nat) -> Seq<char>
    decreases n,
{
    if n < 10 {
        seq![digit(n)]
    } else {
        decimal(n / 10).push(digit(n % 10))
    }
}

fn digit_char(d: usize) -> (c: char)
    requires
        d < 10,
    ensures
        c == digit(d as nat),
{
    match d {
        0 => '0',
        1 => '1',
        2 => '2',
        3 => '3',
        4 => '4',
        5 => '5',
        6 => '6',
        7 => '7',
        8 => '8',
        _ => '9',
    }
}

/// Writes a number in decimal notation.
pub fn decimal_string(n: usize) -> (s: String)
    ensures
        s@ == decimal(n as nat),
    decreases n,
{
    if n < 10 {
        let mut s = String::new();
        s.push(digit_char(n));
        proof {
            assert(s@ =~= seq![digit(n as nat)]);
        }
        s
    } else {
        let mut s = decimal_string(n / 10);
        s.push(digit_char(n % 10));
        s
    }
}

// ── Trimming ──────────────────────────────────────────────────────────────────

/// `s` without its leading white space.
pub open spec fn trimmed_start(s: Seq<char>) -> Seq<char>
    decreases s.len(),
{
    if s.len() > 0 && is_space(s[0]) {
        trimmed_start(s.drop_first())
    } else {
        s
    }
}

/// `s` without its trailing white space.
pub open spec fn trimmed_end(s: Seq<char>) -> Seq<char>
    decreases s.len(),
{
    if s.len() > 0 && is_space(s.last()) {
        trimmed_end(s.drop_last())
    } else {
        s
    }
}

/// `s` without white space at either end.
pub open spec fn trimmed(s: Seq<char>) -> Seq<char> {
    trimmed_end(trimmed_start(s))
}

/// `s` without trailing carriage returns.
pub open spec fn without_cr(s: Seq<char>) -> Seq<char>
    decreases s.len(),
{
    if s.len() > 0 && s.last() == '\r' {
        without_cr(s.drop_last())
    } else {
        s
    }
}

/// Removes white space at both ends.
pub fn trim(s: &str) -> (r: String)
    ensures
        r@ == trimmed(s@),
{
    let v = chars_of(s);
    let mut lo: usize = 0;
    proof {
        assert(v@.skip(0) =~= v@);
    }
    while lo < v.len() && char_is_space(v[lo])
        invariant
            lo <= v@.len(),
            trimmed_start(v@.skip(lo as int)) == trimmed_start(v@),
        ensures
            lo <= v@.len(),
            v@.skip(lo as int) == trimmed_start(v@),
        decreases v@.len() - lo,
    {
        proof {
            assert(v@.skip(lo as int).drop_first() =~= v@.skip(lo + 1));
        }
        lo = lo + 1;
    }
    let mut hi: usize = v.len();
    proof {
        assert(v@.subrange(lo as int, hi as int) =~= v@.skip(lo as int));
    }
    while hi > lo && char_is_space(v[hi - 1])
        invariant
            lo <= hi <= v@.len(),
            trimmed_end(v@.subrange(lo as int, hi as int)) == trimmed(v@),
        ensures
            lo <= hi <= v@.len(),
            v@.subrange(lo as int, hi as int) == trimmed(v@),
        decreases hi,
    {
        proof {
            assert(v@.subrange(lo as int, hi as int).drop_last() =~= v@.subrange(
                lo as int,
                hi - 1,
            ));
        }
        hi = hi - 1;
    }
    from_chars(&v, lo, hi)
}

/// Removes trailing carriage returns.
pub fn trim_end_cr(s: &str) -> (r: String)
    ensures
        r@ == without_cr(s@),
{
    let v = chars_of(s);
    let mut hi: usize = v.len();
    proof {
        assert(v@.take(hi as int) =~= v@);
    }
    while hi > 0 && v[hi - 1] == '\r'
        invariant
            hi <= v@.len(),
            without_cr(v@.take(hi as int)) == without_cr(v@),
        ensures
            hi <= v@.len(),
            v@.take(hi as int) == without_cr(v@),
        decreases hi,
    {
        proof {
            assert(v@.take(hi as int).drop_last() =~= v@.take(hi - 1));
        }
        hi = hi - 1;
    }
    from_chars(&v, 0, hi)
}

// ── Splitting ─────────────────────────────────────────────────────────────────

/// The pieces of `s` between newlines; one more than there are newlines.
pub open spec fn pieces(s: Seq<char>) -> Seq<Seq<char>>
    decreases s.len(),
{
    if s.len() == 0 {
        seq![Seq::empty()]
    } else if s.last() == '\n' {
        pieces(s.drop_last()).push(Seq::empty())
    } else {
        let front = pieces(s.drop_last());
        front.drop_last().push(front.last().push(s.last()))
    }
}

/// A text is never split into nothing.
pub proof fn lemma_pieces_nonempty(s: Seq<char>)
    ensures
        pieces(s).len() >= 1,
    decreases s.len(),
{
    if s.len() > 0 {
        lemma_pieces_nonempty(s.drop_last());
    }
}

/// Splitting loses nothing: joining the pieces by newlines gives the text back.
pub proof fn lemma_pieces_join(s: Seq<char>)
    ensures
        join_texts(pieces(s), seq!['\n']) == s,
    decreases s.len(),
{
    if s.len() > 0 {
        let front = pieces(s.drop_last());
        lemma_pieces_join(s.drop_last());
        lemma_pieces_nonempty(s.drop_last());
        let sep = seq!['\n'];
        if s.last() == '\n' {
            assert(pieces(s).drop_last() =~= front);
            assert(join_texts(pieces(s), sep) =~= s);
        } else {
            assert(pieces(s).drop_last() =~= front.drop_last());
            assert(pieces(s).last() =~= front.last().push(s.last()));
            assert(join_texts(pieces(s), sep) =~= join_texts(front, sep).push(s.last()));
            assert(s.drop_last().push(s.last()) =~= s);
        }
    }
}

/// No piece contains a newline.
pub proof fn lemma_pieces_single_line(s: Seq<char>)
    ensures
        forall|i: int| 0 <= i < pieces(s).len() ==> !(#[trigger] pieces(s)[i]).contains('\n'),
    decreases s.len(),
{
    if s.len() > 0 {
        lemma_pieces_single_line(s.drop_last());
        lemma_pieces_nonempty(s.drop_last());
        let front = pieces(s.drop_last());
        assert forall|i: int| 0 <= i < pieces(s).len() implies !(#[trigger] pieces(s)[i]).contains(
            '\n',
        ) by {
            if i < front.len() - 1 || (s.last() == '\n' && i < front.len()) {
                assert(pieces(s)[i] == front[i]);
            } else if s.last() != '\n' {
                let grown = front.last().push(s.last());
                assert(!front.last().contains('\n'));
                assert forall|j: int| 0 <= j < grown.len() implies grown[j] != '\n' by {
                    if j < front.last().len() {
                        assert(grown[j] == front.last()[j]);
                    }
                }
            }
        }
    }
}

/// Splits a string at its newlines.
pub fn split_lines(s: &str) -> (r: Vec<String>)
    ensures
        views(r@) == pieces(s@),
{
    let v = chars_of(s);
    let mut r: Vec<String> = Vec::new();
    let mut cur = String::new();
    let mut i: usize = 0;
    proof {
        assert(views(r@).push(cur@) =~= pieces(v@.take(0)));
    }
    while i < v.len()
        invariant
            i <= v@.len(),
            views(r@).push(cur@) == pieces(v@.take(i as int)),
        decreases v@.len() - i,
    {
        let ghost before = views(r@);
        let ghost line = cur@;
        proof {
            assert(v@.take(i + 1).drop_last() =~= v@.take(i as int));
            assert(before.push(line).drop_last() =~= before);
        }
        if v[i] == '\n' {
            r.push(cur);
            cur = String::new();
            proof {
                assert(views(r@) =~= before.push(line));
            }
        } else {
            cur.push(v[i]);
        }
        proof {
            assert(views(r@).push(cur@) =~= pieces(v@.take(i + 1)));
        }
        i = i + 1;
    }
    proof {
        assert(v@.take(v@.len() as int) =~= v@);
    }
    let ghost before = views(r@);
    let ghost line = cur@;
    r.push(cur);
    proof {
        assert(views(r@) =~= before.push(line));
    }
    r
}

/// `s` without one trailing carriage return.
pub open spec fn without_one_cr(s: Seq<char>) -> Seq<char> {
    if s.len() > 0 && s.last() == '\r' {
        s.drop_last()
    } else {
        s
    }
}

/// The lines of a text: each ends at a newline, with or without a carriage
/// return before it; what follows the last newline is a line unless empty.
pub open spec fn text_lines(s: Seq<char>) -> Seq<Seq<char>> {
    let p = pieces(s);
    let ended = p.drop_last().map_values(|l: Seq<char>| without_one_cr(l));
    if p.last().len() == 0 {
        ended
    } else {
        ended.push(p.last())
    }
}

/// The lines of a string.
pub fn lines(s: &str) -> (r: Vec<String>)
    ensures
        views(r@) == text_lines(s@),
{
    let parts = split_lines(s);
    proof {
        lemma_pieces_nonempty(s@);
        assert(views(parts@).len() == parts@.len());
    }
    let n: usize = parts.len();
    let mut r: Vec<String> = Vec::new();
    let mut i: usize = 0;
    let ghost ended = pieces(s@).drop_last().map_values(|l: Seq<char>| without_one_cr(l));
    proof {
        assert(views(r@) =~= ended.take(0));
    }
    while i + 1 < n
        invariant
            1 <= n == parts@.len(),
            i < n,
            views(parts@) == pieces(s@),
            ended == pieces(s@).drop_last().map_values(|l: Seq<char>| without_one_cr(l)),
            views(r@) == ended.take(i as int),
        decreases n - i,
    {
        let v = chars_of(parts[i].as_str());
        proof {
            assert(views(parts@)[i as int] == parts@[i as int]@);
            assert(ended[i as int] == without_one_cr(v@));
        }
        let ghost before = views(r@);
        if v.len() > 0 && v[v.len() - 1] == '\r' {
            let line = from_chars(&v, 0, v.len() - 1);
            proof {
                assert(line@ =~= ended[i as int]);
            }
            r.push(line);
        } else {
            let line = from_chars(&v, 0, v.len());
            proof {
                assert(line@ =~= ended[i as int]);
            }
            r.push(line);
        }
        proof {
            assert(views(r@) =~= before.push(ended[i as int]));
            assert(ended.take(i + 1) =~= ended.take(i as int).push(ended[i as int]));
        }
        i = i + 1;
    }
    proof {
        assert(ended.take(i as int) =~= ended);
        assert(views(parts@)[n - 1] == parts@[n - 1]@);
    }
    let last = chars_of(parts[n - 1].as_str());
    if last.len() > 0 {
        let ghost before = views(r@);
        let line = from_chars(&last, 0, last.len());
        proof {
            assert(line@ =~= last@);
        }
        r.push(line);
        proof {
            assert(views(r@) =~= before.push(last@));
        }
    }
    r
}

/// Trimming takes away the spaces at both ends and nothing else: what is left is
/// a part of the text with spaces alone around it and no space at its ends.
pub proof fn lemma_trimmed_is_the_middle(s: Seq<char>)
    ensures
        exists|i: int, j: int|
            0 <= i <= j <= s.len() && trimmed(s) == #[trigger] s.subrange(i, j) && (forall|k: int|
                0 <= k < i || j <= k < s.len() ==> is_space(#[trigger] s[k])),
        trimmed(s).len() > 0 ==> !is_space(trimmed(s)[0]) && !is_space(trimmed(s).last()),
{
    lemma_trimmed_start(s);
    let front = trimmed_start(s);
    lemma_trimmed_end(front);
    let i = s.len() - front.len();
    let j = i + trimmed_end(front).len();
    assert(front =~= s.subrange(i, s.len() as int));
    assert(trimmed(s) =~= s.subrange(i, j));
    assert forall|k: int| 0 <= k < i || j <= k < s.len() implies is_space(#[trigger] s[k]) by {
        if k >= j {
            assert(s[k] == front[k - i]);
        }
    }
    assert(0 <= i <= j <= s.len() && trimmed(s) == s.subrange(i, j) && (forall|k: int|
        0 <= k < i || j <= k < s.len() ==> is_space(#[trigger] s[k])));
}

proof fn lemma_trimmed_start(s: Seq<char>)
    ensures
        trimmed_start(s).len() <= s.len(),
        trimmed_start(s) == s.skip(s.len() - trimmed_start(s).len()),
        forall|k: int| 0 <= k < s.len() - trimmed_start(s).len() ==> is_space(#[trigger] s[k]),
        trimmed_start(s).len() > 0 ==> !is_space(trimmed_start(s)[0]),
    decreases s.len(),
{
    if s.len() > 0 && is_space(s[0]) {
        let rest = s.drop_first();
        lemma_trimmed_start(rest);
        let n = s.len() - trimmed_start(s).len();
        assert(s.skip(n) =~= rest.skip(n - 1));
        assert forall|k: int| 0 <= k < n implies is_space(#[trigger] s[k]) by {
            if k > 0 {
                assert(s[k] == rest[k - 1]);
            }
        }
    } else {
        assert(s.skip(0) =~= s);
    }
}

proof fn lemma_trimmed_end(s: Seq<char>)
    ensures
        trimmed_end(s).len() <= s.len(),
        trimmed_end(s) == s.take(trimmed_end(s).len() as int),
        forall|k: int| trimmed_end(s).len() <= k < s.len() ==> is_space(#[trigger] s[k]),
        trimmed_end(s).len() > 0 ==> !is_space(trimmed_end(s).last()),
    decreases s.len(),
{
    if s.len() > 0 && is_space(s.last()) {
        let rest = s.drop_last();
        lemma_trimmed_end(rest);
        let n = trimmed_end(s).len() as int;
        assert(s.take(n) =~= rest.take(n));
        assert forall|k: int| n <= k < s.len() implies is_space(#[trigger] s[k]) by {
            if k < rest.len() {
                assert(s[k] == rest[k]);
            }
        }
    } else {
        assert(s.take(s.len() as int) =~= s);
    }
}

/// Taking the carriage returns off the end of a line takes all of them and
/// nothing else.
pub proof fn lemma_returns_are_taken_off(s: Seq<char>)
    ensures
        without_cr(s).is_prefix_of(s),
        forall|k: int| without_cr(s).len() <= k < s.len() ==> #[trigger] s[k] == '\r',
        without_cr(s).len() > 0 ==> without_cr(s).last() != '\r',
        !s.contains('\r') ==> without_cr(s) == s,
    decreases s.len(),
{
    if s.len() > 0 && s.last() == '\r' {
        let rest = s.drop_last();
        lemma_returns_are_taken_off(rest);
        assert(s[s.len() - 1] == '\r');
        assert forall|k: int| without_cr(s).len() <= k < s.len() implies #[trigger] s[k]
            == '\r' by {
            if k < rest.len() {
                assert(s[k] == rest[k]);
            }
        }
        assert(without_cr(s) =~= s.subrange(0, without_cr(s).len() as int));
    } else {
        assert(s =~= s.subrange(0, s.len() as int));
    }
}

/// A line break parts the pieces of what is before it from those of what is
/// behind it.
pub proof fn lemma_pieces_part(a: Seq<char>, b: Seq<char>)
    ensures
        pieces(a + seq!['\n'] + b) == pieces(a) + pieces(b),
    decreases b.len(),
{
    let s = a + seq!['\n'] + b;
    lemma_pieces_nonempty(a);
    lemma_pieces_nonempty(b);
    if b.len() == 0 {
        assert(s.drop_last() =~= a);
        assert(s.last() == '\n');
        assert(pieces(s) =~= pieces(a) + pieces(b));
    } else {
        lemma_pieces_part(a, b.drop_last());
        lemma_pieces_nonempty(b.drop_last());
        assert(s.drop_last() =~= a + seq!['\n'] + b.drop_last());
        assert(s.last() == b.last());
        let front = pieces(b.drop_last());
        let both = pieces(a) + front;
        if b.last() == '\n' {
            assert(pieces(s) =~= pieces(a) + pieces(b));
        } else {
            assert(both.drop_last() =~= pieces(a) + front.drop_last());
            assert(both.last() == front.last());
            assert(pieces(s) =~= pieces(a) + pieces(b));
        }
    }
}

/// A text without a line break is one piece.
pub proof fn lemma_one_piece(s: Seq<char>)
    requires
        !s.contains('\n'),
    ensures
        pieces(s) == seq![s],
    decreases s.len(),
{
    if s.len() == 0 {
        assert(s =~= Seq::<char>::empty());
        assert(pieces(s) =~= seq![s]);
    } else {
        assert(s[s.len() - 1] == s.last());
        assert(s.last() != '\n');
        assert(!s.drop_last().contains('\n')) by {
            if s.drop_last().contains('\n') {
                let k = choose|k: int|
                    0 <= k < s.drop_last().len() && s.drop_last()[k] == '\n';
                assert(s[k] == '\n');
            }
        }
        lemma_one_piece(s.drop_last());
        assert(s.drop_last().push(s.last()) =~= s);
        assert(pieces(s) =~= seq![s]);
    }
}

/// The lines of a text: an empty text has none, a text without a line break is
/// one line, and what stands before a line break is a line of its own, without
/// one carriage return at its end, before the lines of what stands behind.
pub proof fn lemma_lines_of_a_text(line: Seq<char>, rest: Seq<char>)
    requires
        !line.contains('\n'),
    ensures
        text_lines(Seq::empty()).len() == 0,
        line.len() > 0 ==> text_lines(line) == seq![line],
        text_lines(line + seq!['\n'] + rest) == seq![
            if line.len() > 0 && line.last() == '\r' {
                line.drop_last()
            } else {
                line
            },
        ] + text_lines(rest),
{
    lemma_one_piece(line);
    let none = Seq::<char>::empty();
    assert(!none.contains('\n'));
    lemma_one_piece(none);
    assert(pieces(none).drop_last() =~= Seq::<Seq<char>>::empty());
    assert(pieces(line).drop_last() =~= Seq::<Seq<char>>::empty());
    assert(text_lines(none) =~= Seq::<Seq<char>>::empty());
    if line.len() > 0 {
        assert(text_lines(line) =~= seq![line]);
    }
    lemma_pieces_part(line, rest);
    lemma_pieces_nonempty(rest);
    let s = line + seq!['\n'] + rest;
    let p = pieces(rest);
    let all = pieces(s);
    assert(all =~= seq![line] + p);
    assert(all.drop_last() =~= seq![line] + p.drop_last());
    assert(all.last() == p.last());
    assert(all.drop_last().map_values(|l: Seq<char>| without_one_cr(l)) =~= seq![
        without_one_cr(line),
    ] + p.drop_last().map_values(|l: Seq<char>| without_one_cr(l)));
    assert(text_lines(s) =~= seq![without_one_cr(line)] + text_lines(rest));
}

/// The number that some decimal digits stand for.
pub open spec fn number_of(digits: Seq<char>) -> int
    decreases digits.len(),
{
    if digits.len() == 0 {
        0
    } else {
        10 * number_of(digits.drop_last()) + (digits.last() as int - '0' as int)
    }
}

/// A number is written in decimal digits that stand for it, with no nought
/// before them.
pub proof fn lemma_decimal_stands_for_its_number(n: nat)
    ensures
        decimal(n).len() > 0,
        number_of(decimal(n)) == n,
        forall|i: int| 0 <= i < decimal(n).len() ==> '0' <= #[trigger] decimal(n)[i] <= '9',
        n > 0 ==> decimal(n)[0] != '0',
    decreases n,
{
    if n < 10 {
        assert(seq![digit(n)].drop_last() =~= Seq::<char>::empty());
        assert(number_of(Seq::<char>::empty()) == 0);
        assert(seq![digit(n)].last() == digit(n));
    } else {
        lemma_decimal_stands_for_its_number(n / 10);
        let front = decimal(n / 10);
        assert(decimal(n).drop_last() =~= front);
        assert(decimal(n).last() == digit(n % 10));
        assert(decimal(n)[0] == front[0]);
        assert forall|i: int| 0 <= i < decimal(n).len() implies '0' <= #[trigger] decimal(n)[i]
            <= '9' by {
            if i < front.len() {
                assert(decimal(n)[i] == front[i]);
            }
        }
    }
}

/// Texts are joined in their order with the separator between every two.
pub proof fn lemma_joined_in_order(parts: Seq<Seq<char>>, more: Seq<char>, sep: Seq<char>)
    ensures
        join_texts(Seq::empty(), sep).len() == 0,
        join_texts(seq![more], sep) == more,
        parts.len() > 0 ==> join_texts(parts.push(more), sep) == join_texts(parts, sep) + sep
            + more,
{
    if parts.len() > 0 {
        assert(parts.push(more).drop_last() =~= parts);
    }
}

/// In an ASCII text the capital letters become the small ones that they are the
/// capitals of, and every other character stays; so nothing changes the second
/// time.
pub proof fn lemma_capitals_become_small(s: Seq<char>)
    requires
        is_ascii_chars(s),
    ensures
        lowercase(s).len() == s.len(),
        is_ascii_chars(lowercase(s)),
        lowercase(lowercase(s)) == lowercase(s),
        forall|i: int|
            0 <= i < s.len() && 'A' <= #[trigger] s[i] <= 'Z' ==> 'a' <= lowercase(s)[i] <= 'z'
                && lowercase(s)[i] as int - 'a' as int == s[i] as int - 'A' as int,
        forall|i: int|
            0 <= i < s.len() && !('A' <= #[trigger] s[i] <= 'Z') ==> lowercase(s)[i] == s[i],
{
    assert forall|i: int| 0 <= i < s.len() && 'A' <= #[trigger] s[i] <= 'Z' implies 'a'
        <= lowercase(s)[i] <= 'z' && lowercase(s)[i] as int - 'a' as int == s[i] as int
        - 'A' as int by {}
    assert(is_ascii_chars(lowercase(s))) by {
        assert forall|i: int| 0 <= i < s.len() implies #[trigger] lowercase(s)[i] as int
            <= 127 by {
            assert(s[i] as int <= 127);
        }
    }
    assert(lowercase(lowercase(s)) =~= lowercase(s)) by {
        assert forall|i: int| 0 <= i < s.len() implies lowercase(lowercase(s))[i]
            == #[trigger] lowercase(s)[i] by {
            assert(!('A' <= lowercase(s)[i] <= 'Z'));
        }
    }
}

} // verus!
