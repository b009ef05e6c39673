//! Byte offsets into UTF-8 text, and the few `String` edits the editor makes.
//!
//! A `String` is seen through its view, a `Seq<char>`. The editor keeps its
//! cursor as a byte offset, as `String::insert` and `String::drain` want one;
//! `offset_of(s, k)` is the byte offset at which the char of index `k` starts.
use vstd::prelude::*;
use vstd::utf8::*;

verus! {

/// Number of bytes of the UTF-8 encoding of `c`.
pub open spec fn utf8_width(c: char) -> nat {
    encode_scalar(c as u32).len()
}

/// Number of bytes of the UTF-8 encoding of `s`.
pub open spec fn byte_len(s: Seq<char>) -> nat {
    encode_utf8(s).len()
}

/// Byte offset at which the char of index `k` of `s` starts (`byte_len(s)` for `k == s.len()`).
pub open spec fn offset_of(s: Seq<char>, k: int) -> nat {
    byte_len(s.take(k))
}

/// `b` is a char boundary of `s`: the offset of some char index in `0..=s.len()`.
pub open spec fn is_char_offset(s: Seq<char>, b: int) -> bool {
    exists|k: int| 0 <= k <= s.len() && #[trigger] offset_of(s, k) == b
}

/// The char index whose byte offset is `b` (meaningful where `is_char_offset(s, b)`).
pub open spec fn index_of_offset(s: Seq<char>, b: int) -> int {
    choose|k: int| 0 <= k <= s.len() && #[trigger] offset_of(s, k) == b
}

/// A char takes one to four bytes.
pub proof fn lemma_utf8_width_bounds(c: char)
    ensures
        1 <= utf8_width(c) <= 4,
{
    char_is_scalar(c);
}

/// Appending a char adds its width to the byte length.
pub proof fn lemma_byte_len_push(s: Seq<char>, c: char)
    ensures
        byte_len(s.push(c)) == byte_len(s) + utf8_width(c),
    decreases s.len(),
{
    if s.len() == 0 {
        assert(s.push(c).drop_first() =~= Seq::<char>::empty());
        assert(encode_utf8(Seq::<char>::empty()) =~= Seq::<u8>::empty());
    } else {
        assert(s.push(c).drop_first() =~= s.drop_first().push(c));
        lemma_byte_len_push(s.drop_first(), c);
    }
}

/// The byte length of a concatenation is the sum of the byte lengths.
pub proof fn lemma_byte_len_concat(a: Seq<char>, b: Seq<char>)
    ensures
        byte_len(a + b) == byte_len(a) + byte_len(b),
    decreases b.len(),
{
    if b.len() == 0 {
        assert(a + b =~= a);
        assert(encode_utf8(b) =~= Seq::<u8>::empty());
    } else {
        let last = b.last();
        let rest = b.drop_last();
        assert(b =~= rest.push(last));
        assert(a + b =~= (a + rest).push(last));
        lemma_byte_len_concat(a, rest);
        lemma_byte_len_push(a + rest, last);
        lemma_byte_len_push(rest, last);
    }
}

/// Offsets grow by the width of the char stepped over.
pub proof fn lemma_offset_step(s: Seq<char>, i: int)
    requires
        0 <= i < s.len(),
    ensures
        offset_of(s, i + 1) == offset_of(s, i) + utf8_width(s[i]),
{
    assert(s.take(i + 1) =~= s.take(i).push(s[i]));
    lemma_byte_len_push(s.take(i), s[i]);
}

/// The offset of index 0 is 0, and that of `s.len()` is the byte length.
pub proof fn lemma_offset_ends(s: Seq<char>)
    ensures
        offset_of(s, 0) == 0,
        offset_of(s, s.len() as int) == byte_len(s),
{
    assert(s.take(0) =~= Seq::<char>::empty());
    assert(encode_utf8(Seq::<char>::empty()) =~= Seq::<u8>::empty());
    assert(s.take(s.len() as int) =~= s);
}

/// Offsets strictly increase with the char index.
pub proof fn lemma_offset_increasing(s: Seq<char>, i: int, j: int)
    requires
        0 <= i < j <= s.len(),
    ensures
        offset_of(s, i) < offset_of(s, j),
    decreases j - i,
{
    lemma_offset_step(s, j - 1);
    lemma_utf8_width_bounds(s[j - 1]);
    if i < j - 1 {
        lemma_offset_increasing(s, i, j - 1);
    }
}

/// Offsets never pass the byte length.
pub proof fn lemma_offset_bounded(s: Seq<char>, i: int)
    requires
        0 <= i <= s.len(),
    ensures
        offset_of(s, i) <= byte_len(s),
{
    lemma_offset_ends(s);
    if i < s.len() {
        lemma_offset_increasing(s, i, s.len() as int);
    }
}

/// Every char takes at least a byte.
pub proof fn lemma_len_le_byte_len(s: Seq<char>)
    ensures
        s.len() <= byte_len(s),
    decreases s.len(),
{
    if s.len() > 0 {
        assert(s =~= s.drop_last().push(s.last()));
        lemma_len_le_byte_len(s.drop_last());
        lemma_byte_len_push(s.drop_last(), s.last());
        lemma_utf8_width_bounds(s.last());
    }
}

/// A char boundary belongs to exactly one char index.
pub proof fn lemma_index_of_offset(s: Seq<char>, k: int)
    requires
        0 <= k <= s.len(),
    ensures
        index_of_offset(s, offset_of(s, k) as int) == k,
        is_char_offset(s, offset_of(s, k) as int),
{
    let b = offset_of(s, k) as int;
    assert(0 <= k <= s.len() && offset_of(s, k) == b);
    let j = index_of_offset(s, b);
    if j < k {
        lemma_offset_increasing(s, j, k);
    } else if k < j {
        lemma_offset_increasing(s, k, j);
    }
}

/// The number of bytes of the UTF-8 encoding of `c`, as `char::len_utf8` computes it.
pub fn utf8_len(c: char) -> (w: usize)
    ensures
        w == utf8_width(c),
        1 <= w <= 4,
{
    proof {
        char_is_scalar(c);
    }
    let u = c as u32;
    if u < 0x80 {
        1
    } else if u < 0x800 {
        2
    } else if u < 0x10000 {
        3
    } else {
        4
    }
}

/// `String::insert`: puts `ch` into `s` so that its encoding starts at byte
/// offset `idx`. It panics where `idx` is no char boundary, and where the
/// string would outgrow `isize::MAX` bytes; `requires` leaves both out.
#[verifier::external_body]
pub(crate) fn string_insert(s: &mut String, idx: usize, ch: char)
    requires
        is_char_offset(old(s)@, idx as int),
        byte_len(old(s)@) + utf8_width(ch) <= isize::MAX,
    ensures
        forall|k: int|
            0 <= k <= old(s)@.len() && #[trigger] offset_of(old(s)@, k) == idx
                ==> final(s)@ == old(s)@.insert(k, ch),
{
    s.insert(idx, ch)
}

/// `String::drain` over the byte range `start..end`, with the returned
/// iterator dropped at once: the chars between the two boundaries leave `s`.
/// It panics where `start > end` or either end is no char boundary; `requires`
/// leaves that out.
#[verifier::external_body]
pub(crate) fn string_drain(s: &mut String, start: usize, end: usize)
    requires
        is_char_offset(old(s)@, start as int),
        is_char_offset(old(s)@, end as int),
        start <= end,
    ensures
        forall|i: int, j: int|
            0 <= i <= j <= old(s)@.len() && #[trigger] offset_of(old(s)@, i) == start
                && #[trigger] offset_of(old(s)@, j) == end ==> final(s)@ == old(s)@.take(i)
                + old(s)@.skip(j),
{
    s.drain(start..end);
}

} // verus!
