//! Single-buffer editing: word boundaries and the changes that a key makes to
//! a text buffer with a byte cursor.

use vstd::prelude::*;
use vstd::utf8::is_ascii_chars;

use crate::text::{
    at_boundary, byte_len, byte_offset, char_index, char_is_alnum, char_is_space, chars_of,
    from_chars, is_alnum, is_space, length, split_at,
};

verus! {

// ── Words ─────────────────────────────────────────────────────────────────────

/// Going back from `k`, the first position that does not follow white space.
pub open spec fn back_over_spaces(s: Seq<char>, k: int) -> int
    decreases k,
{
    if k <= 0 {
        0
    } else if is_space(s[k - 1]) {
        back_over_spaces(s, k - 1)
    } else {
        k
    }
}

/// Going back from `k`, the start of the run of characters that are no white
/// space and of the category `alnum`.
pub open spec fn back_over_run(s: Seq<char>, k: int, alnum: bool) -> int
    decreases k,
{
    if k <= 0 {
        0
    } else if !is_space(s[k - 1]) && is_alnum(s[k - 1]) == alnum {
        back_over_run(s, k - 1, alnum)
    } else {
        k
    }
}

/// The start of the word that ends at or before `k`: white space is skipped,
/// then the run of characters of one category.
pub open spec fn word_start(s: Seq<char>, k: int) -> int {
    let e = back_over_spaces(s, k);
    if e <= 0 {
        0
    } else {
        back_over_run(s, e, is_alnum(s[e - 1]))
    }
}

/// Going on from `k`, the first position that is not followed by white space.
pub open spec fn on_over_spaces(s: Seq<char>, k: int) -> int
    decreases s.len() - k,
{
    if k >= s.len() {
        s.len() as int
    } else if is_space(s[k]) {
        on_over_spaces(s, k + 1)
    } else {
        k
    }
}

/// Going on from `k`, the end of the run of characters that are no white space
/// and of the category `alnum`.
pub open spec fn on_over_run(s: Seq<char>, k: int, alnum: bool) -> int
    decreases s.len() - k,
{
    if k >= s.len() {
        s.len() as int
    } else if !is_space(s[k]) && is_alnum(s[k]) == alnum {
        on_over_run(s, k + 1, alnum)
    } else {
        k
    }
}

/// The end of the word that starts at or after `k`.
pub open spec fn word_end(s: Seq<char>, k: int) -> int {
    let b = on_over_spaces(s, k);
    if b >= s.len() {
        s.len() as int
    } else {
        on_over_run(s, b, is_alnum(s[b]))
    }
}

proof fn lemma_back(s: Seq<char>, k: int, alnum: bool)
    requires
        0 <= k <= s.len(),
    ensures
        0 <= back_over_spaces(s, k) <= k,
        0 <= back_over_run(s, k, alnum) <= k,
        k > 0 && !is_space(s[k - 1]) && is_alnum(s[k - 1]) == alnum ==> back_over_run(s, k, alnum)
            < k,
    decreases k,
{
    if k > 0 {
        lemma_back(s, k - 1, alnum);
    }
}

proof fn lemma_on(s: Seq<char>, k: int, alnum: bool)
    requires
        0 <= k <= s.len(),
    ensures
        k <= on_over_spaces(s, k) <= s.len(),
        k <= on_over_run(s, k, alnum) <= s.len(),
        k < s.len() && !is_space(s[k]) && is_alnum(s[k]) == alnum ==> k < on_over_run(s, k, alnum),
    decreases s.len() - k,
{
    if k < s.len() {
        lemma_on(s, k + 1, alnum);
    }
}

/// A word starts at or before the position it is sought from, and before it
/// unless that is the beginning.
pub proof fn lemma_word_start_range(s: Seq<char>, k: int)
    requires
        0 <= k <= s.len(),
    ensures
        0 <= word_start(s, k) <= k,
        k > 0 ==> word_start(s, k) < k,
{
    let e = back_over_spaces(s, k);
    lemma_back(s, k, true);
    if e > 0 {
        lemma_back_at_word(s, k);
        lemma_back(s, e, is_alnum(s[e - 1]));
    }
}

proof fn lemma_back_at_word(s: Seq<char>, k: int)
    requires
        0 <= k <= s.len(),
    ensures
        back_over_spaces(s, k) > 0 ==> !is_space(s[back_over_spaces(s, k) - 1]),
    decreases k,
{
    if k > 0 {
        lemma_back_at_word(s, k - 1);
    }
}

proof fn lemma_on_at_word(s: Seq<char>, k: int)
    requires
        0 <= k <= s.len(),
    ensures
        on_over_spaces(s, k) < s.len() ==> !is_space(s[on_over_spaces(s, k)]),
    decreases s.len() - k,
{
    if k < s.len() {
        lemma_on_at_word(s, k + 1);
    }
}

/// A word ends at or after the position it is sought from, and after it unless
/// that is the end.
pub proof fn lemma_word_end_range(s: Seq<char>, k: int)
    requires
        0 <= k <= s.len(),
    ensures
        k <= word_end(s, k) <= s.len(),
        k < s.len() ==> k < word_end(s, k),
{
    let b = on_over_spaces(s, k);
    lemma_on(s, k, true);
    if b < s.len() {
        lemma_on_at_word(s, k);
        lemma_on(s, b, is_alnum(s[b]));
    }
}

/// Where the word before the `k`-th character starts: first the position after
/// the skipped white space, then the start of the run.
fn find_word_start(v: &Vec<char>, k: usize) -> (r: (usize, usize))
    requires
        k <= v@.len(),
    ensures
        r.0 == back_over_spaces(v@, k as int),
        r.1 == word_start(v@, k as int),
        r.1 <= r.0 <= k,
{
    let mut e: usize = k;
    while e > 0 && char_is_space(v[e - 1])
        invariant
            e <= k <= v@.len(),
            back_over_spaces(v@, e as int) == back_over_spaces(v@, k as int),
        ensures
            e <= k,
            e == back_over_spaces(v@, k as int),
        decreases e,
    {
        e = e - 1;
    }
    if e == 0 {
        return (0, 0);
    }
    let alnum = char_is_alnum(v[e - 1]);
    let mut b: usize = e;
    while b > 0 && !char_is_space(v[b - 1]) && char_is_alnum(v[b - 1]) == alnum
        invariant
            b <= e <= v@.len(),
            back_over_run(v@, b as int, alnum) == back_over_run(v@, e as int, alnum),
        ensures
            b <= e,
            b == back_over_run(v@, e as int, alnum),
        decreases b,
    {
        b = b - 1;
    }
    (e, b)
}

/// Where the word after the `k`-th character ends: first the position after
/// the skipped white space, then the end of the run.
fn find_word_end(v: &Vec<char>, k: usize) -> (r: (usize, usize))
    requires
        k <= v@.len(),
    ensures
        r.0 == on_over_spaces(v@, k as int),
        r.1 == word_end(v@, k as int),
        k <= r.0 <= r.1 <= v@.len(),
{
    let mut b: usize = k;
    while b < v.len() && char_is_space(v[b])
        invariant
            k <= b <= v@.len(),
            on_over_spaces(v@, b as int) == on_over_spaces(v@, k as int),
        ensures
            k <= b <= v@.len(),
            b == on_over_spaces(v@, k as int),
        decreases v@.len() - b,
    {
        b = b + 1;
    }
    if b >= v.len() {
        return (b, b);
    }
    let alnum = char_is_alnum(v[b]);
    let mut e: usize = b;
    while e < v.len() && !char_is_space(v[e]) && char_is_alnum(v[e]) == alnum
        invariant
            b <= e <= v@.len(),
            on_over_run(v@, e as int, alnum) == on_over_run(v@, b as int, alnum),
        ensures
            b <= e <= v@.len(),
            e == on_over_run(v@, b as int, alnum),
        decreases v@.len() - e,
    {
        e = e + 1;
    }
    (b, e)
}

/// The byte offset of the `j`-th of the characters before a boundary.
proof fn lemma_offset_in_prefix(s: Seq<char>, k: int, j: int)
    requires
        0 <= j <= k <= s.len(),
    ensures
        byte_offset(s.take(k), j) == byte_offset(s, j),
{
    assert(s.take(k).take(j) =~= s.take(j));
}

/// Whether a search that looks only before `k` is the same in the prefix.
proof fn lemma_word_start_prefix(s: Seq<char>, m: int, k: int)
    requires
        0 <= k <= m <= s.len(),
    ensures
        back_over_spaces(s.take(m), k) == back_over_spaces(s, k),
        word_start(s.take(m), k) == word_start(s, k),
    decreases k,
{
    lemma_spaces_prefix(s, m, k);
    let e = back_over_spaces(s, k);
    lemma_back(s, k, true);
    if e > 0 {
        lemma_run_prefix(s, m, e, is_alnum(s[e - 1]));
    }
}

proof fn lemma_spaces_prefix(s: Seq<char>, m: int, k: int)
    requires
        0 <= k <= m <= s.len(),
    ensures
        back_over_spaces(s.take(m), k) == back_over_spaces(s, k),
    decreases k,
{
    if k > 0 {
        lemma_spaces_prefix(s, m, k - 1);
    }
}

proof fn lemma_run_prefix(s: Seq<char>, m: int, k: int, alnum: bool)
    requires
        0 <= k <= m <= s.len(),
    ensures
        back_over_run(s.take(m), k, alnum) == back_over_run(s, k, alnum),
    decreases k,
{
    if k > 0 {
        lemma_run_prefix(s, m, k - 1, alnum);
    }
}

/// The number of bytes of the first `k` characters.
fn prefix_bytes(v: &Vec<char>, k: usize, Ghost(s): Ghost<Seq<char>>, bound: usize) -> (n: usize)
    requires
        k <= v@.len(),
        v@ == s,
        byte_len(s) <= bound,
    ensures
        n == byte_offset(s, k as int),
{
    let mut n: usize = 0;
    let mut i: usize = 0;
    proof {
        assert(s.take(0) =~= Seq::<char>::empty());
    }
    while i < k
        invariant
            i <= k <= v@.len(),
            v@ == s,
            byte_len(s) <= bound,
            n == byte_offset(s, i as int),
        decreases k - i,
    {
        proof {
            crate::text::lemma_offset_step(s, i as int);
            crate::text::lemma_offset_monotone(s, i + 1, s.len() as int);
            assert(s.take(s.len() as int) =~= s);
        }
        n = n + width_of(v[i]);
        i = i + 1;
    }
    n
}

/// The number of bytes of one character.
fn width_of(c: char) -> (n: usize)
    ensures
        n == byte_len(seq![c]),
{
    proof {
        crate::text::lemma_single_bytes(c);
    }
    let code = c as u32;
    if code < 0x80 {
        1
    } else if code < 0x800 {
        2
    } else if code < 0x1_0000 {
        3
    } else {
        4
    }
}

/// Finds the byte offset of the word boundary before `cursor` in `s`.  Words
/// are delimited by white space and by changes between alphanumeric and other
/// characters.
pub fn word_boundary_before(s: &str, cursor: usize) -> (r: usize)
    requires
        cursor == 0 || at_boundary(s@, cursor as int),
    ensures
        cursor == 0 ==> r == 0,
        at_boundary(s@, cursor as int) ==> r == byte_offset(
            s@,
            word_start(s@, char_index(s@, cursor as int)),
        ),
{
    proof {
        crate::text::lemma_ends(s@);
        assert(s@.take(0) =~= Seq::<char>::empty());
    }
    if cursor == 0 {
        return 0;
    }
    let ghost k = char_index(s@, cursor as int);
    let parts = split_at(s, cursor);
    let v = chars_of(parts.0);
    let bound = length(s);
    proof {
        crate::text::lemma_boundary(s@, cursor as int);
    }
    let found = find_word_start(&v, v.len());
    proof {
        lemma_word_start_prefix(s@, k, k);
        lemma_offset_in_prefix(s@, k, word_start(s@, k));
        crate::text::lemma_encode_concat(parts.0@, parts.1@);
        assert(parts.0@ + parts.1@ =~= s@);
    }
    prefix_bytes(&v, found.1, Ghost(parts.0@), bound)
}

/// Finds the byte offset of the word boundary after `cursor` in `s`.
pub fn word_boundary_after(s: &str, cursor: usize) -> (r: usize)
    requires
        cursor < byte_len(s@) ==> at_boundary(s@, cursor as int),
    ensures
        cursor >= byte_len(s@) ==> r == cursor,
        cursor < byte_len(s@) ==> r == byte_offset(
            s@,
            word_end(s@, char_index(s@, cursor as int)),
        ),
{
    if cursor >= length(s) {
        return cursor;
    }
    let ghost k = char_index(s@, cursor as int);
    let v = chars_of(s);
    let bound = length(s);
    let parts = split_at(s, cursor);
    let start = chars_of(parts.0).len();
    proof {
        crate::text::lemma_boundary(s@, cursor as int);
    }
    let found = find_word_end(&v, start);
    prefix_bytes(&v, found.1, Ghost(s@), bound)
}

// ── Edits at a byte cursor ────────────────────────────────────────────────────

/// The text with `c` inserted at the byte offset `i`.
pub open spec fn with_inserted(s: Seq<char>, i: int, c: char) -> Seq<char> {
    s.insert(char_index(s, i), c)
}

/// The text without the character that starts at the byte offset `i`.
pub open spec fn with_removed(s: Seq<char>, i: int) -> Seq<char> {
    s.remove(char_index(s, i))
}

/// The text without the bytes from `i` to `j`.
pub open spec fn with_cut(s: Seq<char>, i: int, j: int) -> Seq<char> {
    s.take(char_index(s, i)) + s.skip(char_index(s, j))
}

/// Where the cursor `i` goes one word to the left.  The way is counted in
/// characters; over white space alone it leads to the beginning.
pub open spec fn left_of_word(s: Seq<char>, i: int) -> int {
    let k = char_index(s, i);
    if i <= 0 || back_over_spaces(s, k) <= 0 {
        0
    } else {
        i - (k - word_start(s, k))
    }
}

/// Where the cursor `i` goes one word to the right.  The way is counted in
/// characters; over white space alone it leads to the end.
pub open spec fn right_of_word(s: Seq<char>, i: int) -> int {
    let k = char_index(s, i);
    if i >= byte_len(s) {
        i
    } else if on_over_spaces(s, k) >= s.len() {
        byte_len(s) as int
    } else {
        i + (word_end(s, k) - k)
    }
}

/// Whether deleting the word before `i` cuts anything: white space alone is
/// kept.
pub open spec fn cuts_backward(s: Seq<char>, i: int) -> bool {
    i > 0 && back_over_spaces(s, char_index(s, i)) > 0
}

/// Whether deleting the word after `i` cuts anything: white space alone is
/// kept.
pub open spec fn cuts_forward(s: Seq<char>, i: int) -> bool {
    i < byte_len(s) && on_over_spaces(s, char_index(s, i)) < s.len()
}

/// Whether the word before `i` can be deleted: the cursor is at a boundary,
/// and so is the place up to which the text is kept.
pub open spec fn can_delete_backward(s: Seq<char>, i: int) -> bool {
    i > 0 ==> {
        &&& at_boundary(s, i)
        &&& cuts_backward(s, i) ==> at_boundary(s, left_of_word(s, i))
    }
}

/// Whether the word after `i` can be deleted.
pub open spec fn can_delete_forward(s: Seq<char>, i: int) -> bool {
    i < byte_len(s) ==> {
        &&& at_boundary(s, i)
        &&& cuts_forward(s, i) ==> at_boundary(s, right_of_word(s, i))
    }
}

/// The text after the word before `i` is deleted.
pub open spec fn word_deleted_backward(s: Seq<char>, i: int) -> Seq<char> {
    if cuts_backward(s, i) {
        with_cut(s, left_of_word(s, i), i)
    } else {
        s
    }
}

/// The text after the word after `i` is deleted.
pub open spec fn word_deleted_forward(s: Seq<char>, i: int) -> Seq<char> {
    if cuts_forward(s, i) {
        with_cut(s, i, right_of_word(s, i))
    } else {
        s
    }
}

/// Inserts `c` at the byte cursor and returns the cursor one further.
pub fn insert_char(buf: &mut String, cursor: usize, c: char) -> (r: usize)
    requires
        at_boundary(old(buf)@, cursor as int),
    ensures
        final(buf)@ == with_inserted(old(buf)@, cursor as int, c),
        r == cursor + 1,
{
    let ghost s = buf@;
    let ghost k = char_index(s, cursor as int);
    proof {
        crate::text::lemma_boundary(s, cursor as int);
    }
    let mut v = chars_of(buf.as_str());
    let at = chars_of(split_at(buf.as_str(), cursor).0).len();
    let before = length(buf.as_str());
    v.insert(at, c);
    let grown = from_chars(&v, 0, v.len());
    let bound = length(grown.as_str());
    proof {
        assert(v@.subrange(0, v@.len() as int) =~= s.insert(k, c));
        assert(s =~= s.take(k) + s.skip(k));
        assert(grown@ =~= s.take(k) + (seq![c] + s.skip(k)));
        crate::text::lemma_encode_concat(s.take(k), s.skip(k));
        crate::text::lemma_encode_concat(s.take(k), seq![c] + s.skip(k));
        crate::text::lemma_encode_concat(seq![c], s.skip(k));
        crate::text::lemma_single_bytes(c);
        assert(before < bound);
    }
    *buf = grown;
    cursor + 1
}

/// Removes the character that starts at the byte offset `i`.
pub fn remove_char(buf: &mut String, i: usize)
    requires
        at_boundary(old(buf)@, i as int),
        i < byte_len(old(buf)@),
    ensures
        final(buf)@ == with_removed(old(buf)@, i as int),
{
    let ghost s = buf@;
    proof {
        crate::text::lemma_boundary(s, i as int);
    }
    let mut v = chars_of(buf.as_str());
    let at = chars_of(split_at(buf.as_str(), i).0).len();
    v.remove(at);
    let r = from_chars(&v, 0, v.len());
    proof {
        assert(v@.subrange(0, v@.len() as int) =~= v@);
    }
    *buf = r;
}

/// Removes the bytes from `i` to `j`.
fn cut(buf: &mut String, i: usize, j: usize)
    requires
        at_boundary(old(buf)@, i as int),
        at_boundary(old(buf)@, j as int),
    ensures
        final(buf)@ == with_cut(old(buf)@, i as int, j as int),
{
    let mut r = split_at(buf.as_str(), i).0.to_owned();
    r.append(split_at(buf.as_str(), j).1);
    *buf = r;
}

/// The byte cursor one word to the left of `cursor`.
pub fn word_left(buf: &str, cursor: usize) -> (r: usize)
    requires
        cursor > 0 ==> at_boundary(buf@, cursor as int),
    ensures
        r == left_of_word(buf@, cursor as int),
        r <= cursor,
{
    if cursor == 0 {
        return 0;
    }
    let ghost k = char_index(buf@, cursor as int);
    let v = chars_of(split_at(buf, cursor).0);
    proof {
        crate::text::lemma_boundary(buf@, cursor as int);
        lemma_word_start_prefix(buf@, k, k);
    }
    let found = find_word_start(&v, v.len());
    if found.0 == 0 {
        0
    } else {
        cursor - (v.len() - found.1)
    }
}

/// The byte cursor one word to the right of `cursor`.
pub fn word_right(buf: &str, cursor: usize) -> (r: usize)
    requires
        cursor < byte_len(buf@) ==> at_boundary(buf@, cursor as int),
    ensures
        r == right_of_word(buf@, cursor as int),
        cursor < byte_len(buf@) ==> cursor <= r <= byte_len(buf@),
{
    let bytes = length(buf);
    if cursor >= bytes {
        return cursor;
    }
    let ghost k = char_index(buf@, cursor as int);
    let v = chars_of(buf);
    let start = chars_of(split_at(buf, cursor).0).len();
    proof {
        crate::text::lemma_boundary(buf@, cursor as int);
    }
    let found = find_word_end(&v, start);
    if found.0 >= v.len() {
        return bytes;
    }
    proof {
        crate::text::lemma_offset_monotone(buf@, k, word_end(buf@, k));
        crate::text::lemma_offset_monotone(buf@, word_end(buf@, k), buf@.len() as int);
        assert(buf@.take(buf@.len() as int) =~= buf@);
    }
    cursor + (found.1 - start)
}

/// Deletes the word before the byte cursor and returns the new cursor.  White
/// space alone is kept, with the cursor at the beginning.
pub fn delete_word_backward(buf: &mut String, cursor: usize) -> (r: usize)
    requires
        can_delete_backward(old(buf)@, cursor as int),
    ensures
        final(buf)@ == word_deleted_backward(old(buf)@, cursor as int),
        r == left_of_word(old(buf)@, cursor as int),
        r <= cursor,
{
    if cursor == 0 {
        return 0;
    }
    let ghost k = char_index(buf@, cursor as int);
    let v = chars_of(split_at(buf.as_str(), cursor).0);
    proof {
        crate::text::lemma_boundary(buf@, cursor as int);
        lemma_word_start_prefix(buf@, k, k);
    }
    let found = find_word_start(&v, v.len());
    if found.0 == 0 {
        return 0;
    }
    let end = word_left(buf.as_str(), cursor);
    cut(buf, end, cursor);
    end
}

/// Deletes the word after the byte cursor.  White space alone is kept.
pub fn delete_word_forward(buf: &mut String, cursor: usize)
    requires
        can_delete_forward(old(buf)@, cursor as int),
    ensures
        final(buf)@ == word_deleted_forward(old(buf)@, cursor as int),
{
    if cursor >= length(buf.as_str()) {
        return;
    }
    let ghost k = char_index(buf@, cursor as int);
    let v = chars_of(buf.as_str());
    let start = chars_of(split_at(buf.as_str(), cursor).0).len();
    proof {
        crate::text::lemma_boundary(buf@, cursor as int);
    }
    let found = find_word_end(&v, start);
    if found.0 < v.len() {
        let end = word_right(buf.as_str(), cursor);
        cut(buf, cursor, end);
    }
}

// ── Laws ──────────────────────────────────────────────────────────────────────

/// Deleting the character before the cursor undoes the insertion of an ASCII
/// character.
pub proof fn lemma_insert_then_remove(s: Seq<char>, i: int, c: char)
    requires
        at_boundary(s, i),
        c < '\u{80}',
    ensures
        at_boundary(with_inserted(s, i, c), i),
        at_boundary(with_inserted(s, i, c), i + 1),
        with_removed(with_inserted(s, i, c), i) == s,
{
    let k = char_index(s, i);
    let t = with_inserted(s, i, c);
    crate::text::lemma_boundary(s, i);
    assert(t.take(k) =~= s.take(k));
    crate::text::lemma_char_index(t, k);
    crate::text::lemma_offset_step(t, k);
    crate::text::lemma_single_bytes(c);
    crate::text::lemma_char_index(t, k + 1);
    assert(with_removed(t, i) =~= s);
}

/// In an ASCII text a cursor anywhere in it can delete, and what an edit
/// leaves is an ASCII text with the cursor in it.
pub proof fn lemma_ascii_edits(s: Seq<char>, i: int, c: char)
    requires
        is_ascii_chars(s),
        0 <= i <= s.len(),
    ensures
        at_boundary(s, i),
        byte_len(s) == s.len(),
        can_delete_backward(s, i),
        can_delete_forward(s, i),
        0 <= left_of_word(s, i) <= i,
        i <= right_of_word(s, i) <= s.len(),
        is_ascii_chars(word_deleted_backward(s, i)),
        left_of_word(s, i) <= word_deleted_backward(s, i).len(),
        is_ascii_chars(word_deleted_forward(s, i)),
        i <= word_deleted_forward(s, i).len(),
        c < '\u{80}' ==> is_ascii_chars(with_inserted(s, i, c)),
        i + 1 <= with_inserted(s, i, c).len(),
        i < s.len() ==> is_ascii_chars(with_removed(s, i)),
        i < s.len() ==> i <= with_removed(s, i).len(),
{
    crate::text::lemma_ascii_bytes(s);
    crate::text::lemma_ascii_boundary(s, i);
    lemma_word_start_range(s, i);
    lemma_word_end_range(s, i);
    crate::text::lemma_ascii_boundary(s, left_of_word(s, i));
    crate::text::lemma_ascii_boundary(s, right_of_word(s, i));
}

/// In an ASCII text moving by a word leads to the word boundaries themselves.
pub proof fn lemma_ascii_word_moves(s: Seq<char>, i: int)
    requires
        is_ascii_chars(s),
        0 <= i <= s.len(),
    ensures
        left_of_word(s, i) == byte_offset(s, word_start(s, i)),
        right_of_word(s, i) == byte_offset(s, word_end(s, i)),
{
    lemma_ascii_edits(s, i, ' ');
    crate::text::lemma_ascii_boundary(s, i);
    lemma_word_start_range(s, i);
    lemma_word_end_range(s, i);
    assert(is_ascii_chars(s.take(word_start(s, i))));
    assert(is_ascii_chars(s.take(word_end(s, i))));
    crate::text::lemma_ascii_bytes(s.take(word_start(s, i)));
    crate::text::lemma_ascii_bytes(s.take(word_end(s, i)));
}

proof fn lemma_back_run(s: Seq<char>, k: int, alnum: bool)
    requires
        0 <= k <= s.len(),
    ensures
        0 <= back_over_spaces(s, k) <= k,
        forall|j: int| back_over_spaces(s, k) <= j < k ==> is_space(#[trigger] s[j]),
        0 <= back_over_run(s, k, alnum) <= k,
        forall|j: int|
            back_over_run(s, k, alnum) <= j < k ==> !is_space(#[trigger] s[j]) && is_alnum(s[j])
                == alnum,
        back_over_run(s, k, alnum) > 0 ==> is_space(s[back_over_run(s, k, alnum) - 1]) || is_alnum(
            s[back_over_run(s, k, alnum) - 1],
        ) != alnum,
    decreases k,
{
    if k > 0 {
        lemma_back_run(s, k - 1, alnum);
    }
}

proof fn lemma_on_run(s: Seq<char>, k: int, alnum: bool)
    requires
        0 <= k <= s.len(),
    ensures
        k <= on_over_spaces(s, k) <= s.len(),
        forall|j: int| k <= j < on_over_spaces(s, k) ==> is_space(#[trigger] s[j]),
        k <= on_over_run(s, k, alnum) <= s.len(),
        forall|j: int|
            k <= j < on_over_run(s, k, alnum) ==> !is_space(#[trigger] s[j]) && is_alnum(s[j])
                == alnum,
        on_over_run(s, k, alnum) < s.len() ==> is_space(s[on_over_run(s, k, alnum)]) || is_alnum(
            s[on_over_run(s, k, alnum)],
        ) != alnum,
    decreases s.len() - k,
{
    if k < s.len() {
        lemma_on_run(s, k + 1, alnum);
    }
}

/// Whether the last word before the place `k` reaches from `w` to `e`: only
/// spaces lie between `e` and `k`, what lies between `w` and `e` is a run of
/// letters and digits or of other visible characters, and it goes no further
/// back.  With spaces alone there is no word and `w` is the start.
pub open spec fn is_word_before(s: Seq<char>, w: int, e: int, k: int) -> bool {
    &&& 0 <= e <= k
    &&& forall|j: int| e <= j < k ==> is_space(#[trigger] s[j])
    &&& e == 0 ==> w == 0
    &&& e > 0 ==> 0 <= w < e
    &&& forall|j: int|
        w <= j < e ==> !is_space(#[trigger] s[j]) && is_alnum(s[j]) == is_alnum(s[e - 1])
    &&& w > 0 ==> is_space(s[w - 1]) || is_alnum(s[w - 1]) != is_alnum(s[e - 1])
}

/// Whether the first word behind the place `k` reaches from `b` to `w`.  With
/// spaces alone there is no word and `w` is the end.
pub open spec fn is_word_behind(s: Seq<char>, k: int, b: int, w: int) -> bool {
    &&& k <= b <= s.len()
    &&& forall|j: int| k <= j < b ==> is_space(#[trigger] s[j])
    &&& b == s.len() ==> w == s.len()
    &&& b < s.len() ==> b < w <= s.len()
    &&& forall|j: int|
        b <= j < w ==> !is_space(#[trigger] s[j]) && is_alnum(s[j]) == is_alnum(s[b])
    &&& w < s.len() ==> is_space(s[w]) || is_alnum(s[w]) != is_alnum(s[b])
}

/// The start of a word is where the last word before a place begins, and its end
/// where the first word behind a place ends.
pub proof fn lemma_words_are_runs(s: Seq<char>, k: int)
    requires
        0 <= k <= s.len(),
    ensures
        exists|e: int| #[trigger] is_word_before(s, word_start(s, k), e, k),
        exists|b: int| #[trigger] is_word_behind(s, k, b, word_end(s, k)),
{
    let e = back_over_spaces(s, k);
    lemma_back_run(s, k, false);
    lemma_back_at_word(s, k);
    if e > 0 {
        lemma_back_run(s, e, is_alnum(s[e - 1]));
        lemma_back(s, e, is_alnum(s[e - 1]));
    }
    assert(is_word_before(s, word_start(s, k), e, k));
    let b = on_over_spaces(s, k);
    lemma_on_run(s, k, false);
    lemma_on_at_word(s, k);
    if b < s.len() {
        lemma_on_run(s, b, is_alnum(s[b]));
        lemma_on(s, b, is_alnum(s[b]));
    }
    assert(is_word_behind(s, k, b, word_end(s, k)));
}

/// Between two parts of a text, a character that is inserted stands between
/// them, one that is removed leaves them, and so does all that is cut out.
pub proof fn lemma_edits_between(a: Seq<char>, b: Seq<char>, c: char, x: Seq<char>)
    ensures
        with_inserted(a + b, byte_len(a) as int, c) == a + seq![c] + b,
        with_removed(a + seq![c] + b, byte_len(a) as int) == a + b,
        with_cut(a + x + b, byte_len(a) as int, byte_len(a + x) as int) == a + b,
{
    assert((a + b).take(a.len() as int) =~= a);
    crate::text::lemma_char_index(a + b, a.len() as int);
    assert(with_inserted(a + b, byte_len(a) as int, c) =~= a + seq![c] + b);
    let t = a + seq![c] + b;
    assert(t.take(a.len() as int) =~= a);
    crate::text::lemma_char_index(t, a.len() as int);
    assert(with_removed(t, byte_len(a) as int) =~= a + b);
    let u = a + x + b;
    assert(u.take(a.len() as int) =~= a);
    assert(u.take((a + x).len() as int) =~= a + x);
    crate::text::lemma_char_index(u, a.len() as int);
    crate::text::lemma_char_index(u, (a + x).len() as int);
    assert(with_cut(u, byte_len(a) as int, byte_len(a + x) as int) =~= a + b);
}

/// In an ASCII text, deleting a word takes away what lies between the cursor and
/// the word's far end, and nothing where only spaces lie that way.
pub proof fn lemma_ascii_word_deletions(s: Seq<char>, i: int)
    requires
        is_ascii_chars(s),
        0 <= i <= s.len(),
    ensures
        (exists|j: int| 0 <= j < i && !is_space(#[trigger] s[j])) ==> word_deleted_backward(s, i)
            == s.take(word_start(s, i)) + s.skip(i) && left_of_word(s, i) == word_start(s, i),
        (forall|j: int| 0 <= j < i ==> is_space(#[trigger] s[j])) ==> word_deleted_backward(s, i)
            == s && left_of_word(s, i) == 0,
        (exists|j: int| i <= j < s.len() && !is_space(#[trigger] s[j])) ==> word_deleted_forward(
            s,
            i,
        ) == s.take(i) + s.skip(word_end(s, i)) && right_of_word(s, i) == word_end(s, i),
        (forall|j: int| i <= j < s.len() ==> is_space(#[trigger] s[j])) ==> word_deleted_forward(
            s,
            i,
        ) == s && right_of_word(s, i) == s.len(),
{
    lemma_ascii_edits(s, i, ' ');
    crate::text::lemma_ascii_boundary(s, i);
    lemma_word_start_range(s, i);
    lemma_word_end_range(s, i);
    lemma_back_run(s, i, false);
    lemma_on_run(s, i, false);
    lemma_back_at_word(s, i);
    lemma_on_at_word(s, i);
    crate::text::lemma_ascii_boundary(s, left_of_word(s, i));
    crate::text::lemma_ascii_boundary(s, right_of_word(s, i));
    let e = back_over_spaces(s, i);
    let b = on_over_spaces(s, i);
    if e > 0 {
        assert(!is_space(s[e - 1]));
    }
    if b < s.len() {
        assert(!is_space(s[b]));
    }
}

/// The word moves count the characters that they pass.
pub proof fn lemma_word_moves_count_characters(s: Seq<char>, i: int)
    ensures
        i > 0 && back_over_spaces(s, char_index(s, i)) > 0 ==> i - left_of_word(s, i)
            == char_index(s, i) - word_start(s, char_index(s, i)),
        i < byte_len(s) && on_over_spaces(s, char_index(s, i)) < s.len() ==> right_of_word(s, i) - i
            == word_end(s, char_index(s, i)) - char_index(s, i),
        i <= 0 ==> left_of_word(s, i) == 0,
        i >= byte_len(s) ==> right_of_word(s, i) == i,
{
}

} // verus!
