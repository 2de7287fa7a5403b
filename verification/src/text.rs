//! Cutting, comparing and searching string slices.
//!
//! The functions here walk over the UTF-8 bytes of a slice, yet their contracts
//! speak of its characters: the proofs carry every fact found on the bytes back to
//! the character sequence that the slice stands for.

use vstd::prelude::*;
use vstd::string::StringSliceAdditionalSpecFns;
use vstd::utf8::*;

verus! {

/// The position of the first `c` in `s`, or the length of `s` where `c` does not occur.
pub open spec fn first_index_of(s: Seq<char>, c: char) -> int
    decreases s.len(),
{
    if s.len() == 0 || s[0] == c {
        0
    } else {
        1 + first_index_of(s.drop_first(), c)
    }
}

/// `first_index_of` lies within the sequence, nothing before it is `c`, and unless
/// it is the length, `c` stands at it.
pub proof fn lemma_first_index_of(s: Seq<char>, c: char)
    ensures
        0 <= first_index_of(s, c) <= s.len(),
        forall|i: int| 0 <= i < first_index_of(s, c) ==> s[i] != c,
        first_index_of(s, c) < s.len() ==> s[first_index_of(s, c)] == c,
    decreases s.len(),
{
    if s.len() == 0 || s[0] == c {
    } else {
        let rest = s.drop_first();
        lemma_first_index_of(rest, c);
        assert forall|i: int| 0 <= i < first_index_of(s, c) implies s[i] != c by {
            if i > 0 {
                assert(s[i] == rest[i - 1]);
            }
        }
        let n = first_index_of(rest, c);
        assert(n < rest.len() ==> s[n + 1] == rest[n]);
    }
}

/// Only one position has the three properties of `first_index_of`.
pub proof fn lemma_first_index_unique(s: Seq<char>, c: char, n: int)
    requires
        0 <= n <= s.len(),
        forall|i: int| 0 <= i < n ==> s[i] != c,
        n < s.len() ==> s[n] == c,
    ensures
        n == first_index_of(s, c),
{
    lemma_first_index_of(s, c);
}

/// The bytes that encode one character: a single byte below 0x80 that equals the
/// character, or two to four bytes that are all 0x80 or above.
pub proof fn lemma_scalar_bytes(c: char)
    ensures
        (c as u32) < 0x80 ==> encode_scalar(c as u32) == seq![c as u8],
        (c as u32) >= 0x80 ==> forall|i: int|
            0 <= i < encode_scalar(c as u32).len() ==> #[trigger] encode_scalar(c as u32)[i] >= 0x80,
        1 <= encode_scalar(c as u32).len() <= 4,
        c as u32 == c as int,
        (c as u32) < 0x80 ==> c as u8 == c as int,
{
    let v = c as u32;
    assert(v < 0x80 ==> (v & 0x7F) as u8 == v as u8) by (bit_vector);
    assert((0xC0u8 | ((v >> 6) & 0x1F) as u8) >= 0x80) by (bit_vector);
    assert((0xE0u8 | ((v >> 12) & 0x0F) as u8) >= 0x80) by (bit_vector);
    assert((0xF0u8 | ((v >> 18) & 0x7) as u8) >= 0x80) by (bit_vector);
    assert((0x80u8 | (v & 0x3F) as u8) >= 0x80) by (bit_vector);
    assert((0x80u8 | ((v >> 6) & 0x3F) as u8) >= 0x80) by (bit_vector);
    assert((0x80u8 | ((v >> 12) & 0x3F) as u8) >= 0x80) by (bit_vector);
}

/// The encoding of two sequences joined is the two encodings joined.
pub proof fn lemma_encode_concat(a: Seq<char>, b: Seq<char>)
    ensures
        encode_utf8(a + b) == encode_utf8(a) + encode_utf8(b),
    decreases a.len(),
{
    if a.len() == 0 {
        assert(a + b =~= b);
        assert(encode_utf8(a) + encode_utf8(b) =~= encode_utf8(b));
    } else {
        lemma_encode_concat(a.drop_first(), b);
        assert((a + b).drop_first() =~= a.drop_first() + b);
        assert(encode_utf8(a + b) =~= encode_utf8(a) + encode_utf8(b));
    }
}

/// A character below 0x80 shows up in the encoding as the byte of the same value.
pub proof fn lemma_ascii_char_in_encoding(chars: Seq<char>, i: int) -> (j: int)
    requires
        0 <= i < chars.len(),
        (chars[i] as u32) < 0x80,
    ensures
        0 <= j < encode_utf8(chars).len(),
        encode_utf8(chars)[j] == chars[i] as u8,
    decreases chars.len(),
{
    lemma_scalar_bytes(chars[0]);
    if i == 0 {
        0
    } else {
        let k = lemma_ascii_char_in_encoding(chars.drop_first(), i - 1);
        encode_scalar(chars[0] as u32).len() + k
    }
}

/// An encoding that begins with a byte below 0x80 encodes a sequence that begins
/// with the character of the same value.
pub proof fn lemma_ascii_first_byte(chars: Seq<char>)
    requires
        encode_utf8(chars).len() > 0,
        encode_utf8(chars)[0] < 0x80,
    ensures
        chars.len() > 0,
        chars[0] as u32 == encode_utf8(chars)[0],
        encode_utf8(chars) == seq![chars[0] as u8] + encode_utf8(chars.drop_first()),
{
    assert(chars.len() > 0);
    let first = encode_scalar(chars[0] as u32);
    lemma_scalar_bytes(chars[0]);
    assert(encode_utf8(chars) == first + encode_utf8(chars.drop_first()));
    assert(encode_utf8(chars)[0] == first[0]);
    if (chars[0] as u32) >= 0x80 {
        assert(first[0] >= 0x80);
    } else {
        assert(first == seq![chars[0] as u8]);
    }
}

/// The characters of a slice are what its bytes decode to.
pub proof fn lemma_view_of_bytes(s: &str)
    ensures
        valid_utf8(s.spec_bytes()),
        decode_utf8(s.spec_bytes()) == s@,
{
    encode_utf8_valid_utf8(s@);
    encode_utf8_decode_utf8(s@);
}

/// Cuts `s` in two before the first occurrence of the single-byte character `sep`;
/// where `sep` does not occur, the first part is all of `s` and the second is empty.
pub fn split_at_first<'a>(s: &'a str, sep: u8) -> (parts: (&'a str, &'a str))
    requires
        sep < 0x80,
    ensures
        parts.0@ == s@.take(first_index_of(s@, sep as char)),
        parts.1@ == s@.skip(first_index_of(s@, sep as char)),
{
    let bytes = s.as_bytes();
    let mut i: usize = 0;
    while i < bytes.len() && bytes[i] != sep
        invariant
            0 <= i <= bytes.len(),
            bytes@ == s.spec_bytes(),
            forall|j: int| 0 <= j < i ==> bytes@[j] != sep,
        decreases bytes.len() - i,
    {
        i += 1;
    }
    proof {
        lemma_view_of_bytes(s);
        if i < bytes.len() {
            is_char_boundary_iff_not_is_continuation_byte(bytes@, i as int);
        } else {
            is_char_boundary_start_end_of_seq(bytes@);
        }
    }
    let (head, tail) = s.split_at(i);
    proof {
        lemma_view_of_bytes(head);
        lemma_view_of_bytes(tail);
        decode_utf8_split(bytes@, i as int);
        assert(s@ == head@ + tail@);
        assert forall|k: int| 0 <= k < head@.len() implies s@[k] != sep as char by {
            if head@[k] == sep as char {
                let j = lemma_ascii_char_in_encoding(head@, k);
                assert(bytes@[j] == sep);
            }
        }
        if tail@.len() > 0 {
            lemma_scalar_bytes(tail@[0]);
            assert(tail.spec_bytes().len() > 0);
            assert(tail.spec_bytes()[0] == bytes@[i as int]);
            lemma_ascii_first_byte(tail@);
            assert(s@[head@.len() as int] == tail@[0]);
        }
        lemma_first_index_unique(s@, sep as char, head@.len() as int);
        assert(head@ =~= s@.take(head@.len() as int));
        assert(tail@ =~= s@.skip(head@.len() as int));
    }
    (head, tail)
}

/// The first word of `word`: what stands before its first space, or all of it
/// where it holds no space.
pub fn first_word(word: &str) -> (first: &str)
    ensures
        first@ == word@.take(first_index_of(word@, ' ')),
{
    let (first, _) = split_at_first(word, 0x20u8);
    first
}

/// A sequence of characters that is not empty has an encoding that is not empty.
pub proof fn lemma_encoding_len(chars: Seq<char>)
    ensures
        chars.len() == 0 <==> encode_utf8(chars).len() == 0,
{
    if chars.len() > 0 {
        lemma_scalar_bytes(chars[0]);
    }
}

/// A single character below 0x80 is encoded as the one byte of the same value.
pub proof fn lemma_encode_single(c: char)
    requires
        (c as u32) < 0x80,
    ensures
        encode_utf8(seq![c]) == seq![c as u8],
{
    lemma_scalar_bytes(c);
    let rest = seq![c].drop_first();
    assert(rest.len() == 0);
    assert(encode_utf8(rest) =~= Seq::<u8>::empty());
    assert(encode_utf8(seq![c]) =~= encode_scalar(c as u32) + encode_utf8(rest));
    assert(encode_utf8(seq![c]) =~= seq![c as u8]);
}

/// Slices with the same bytes hold the same characters.
pub proof fn lemma_same_bytes(a: Seq<char>, b: Seq<char>)
    requires
        encode_utf8(a) == encode_utf8(b),
    ensures
        a == b,
{
    encode_utf8_decode_utf8(a);
    encode_utf8_decode_utf8(b);
}

/// `s` without its first character, which must be a single-byte one.
fn skip_first<'a>(s: &'a str) -> (rest: &'a str)
    requires
        s@.len() > 0,
        (s@[0] as u32) < 0x80,
    ensures
        rest@ == s@.skip(1),
{
    proof {
        lemma_view_of_bytes(s);
        lemma_scalar_bytes(s@[0]);
        reveal_with_fuel(is_char_boundary, 2);
        assert(is_char_boundary(s.spec_bytes(), 1));
    }
    let (_, rest) = s.split_at(1);
    proof {
        assert(rest.spec_bytes() =~= encode_utf8(s@.drop_first()));
        lemma_same_bytes(rest@, s@.drop_first());
    }
    rest
}

/// A line without the carriage return that may end it.
pub open spec fn without_cr(line: Seq<char>) -> Seq<char> {
    if line.len() > 0 && line.last() == '\r' {
        line.drop_last()
    } else {
        line
    }
}

/// Takes one carriage return off the end of `line`, where it ends in one.
pub fn strip_cr<'a>(line: &'a str) -> (out: &'a str)
    ensures
        out@ == without_cr(line@),
{
    let bytes = line.as_bytes();
    let n = bytes.len();
    proof {
        lemma_view_of_bytes(line);
    }
    if n > 0 && bytes[n - 1] == 0x0Du8 {
        proof {
            is_char_boundary_iff_not_is_continuation_byte(bytes@, n - 1);
        }
        let (head, tail) = line.split_at(n - 1);
        proof {
            lemma_view_of_bytes(head);
            lemma_view_of_bytes(tail);
            decode_utf8_split(bytes@, n - 1);
            assert(line@ == head@ + tail@);
            assert(tail.spec_bytes() =~= seq![0x0Du8]);
            lemma_ascii_first_byte(tail@);
            assert(encode_utf8(tail@.drop_first()) =~= Seq::<u8>::empty());
            lemma_encoding_len(tail@.drop_first());
            assert(tail@ =~= seq!['\r']);
            assert(line@.drop_last() =~= head@);
        }
        head
    } else {
        proof {
            if line@.len() > 0 && line@.last() == '\r' {
                assert(line@ =~= line@.drop_last() + seq!['\r']);
                lemma_encode_concat(line@.drop_last(), seq!['\r']);
                lemma_encode_single('\r');
                assert(bytes@.last() == 0x0Du8);
            }
        }
        line
    }
}

/// The lines of a text. A line ends at a line feed, and a carriage return just
/// before that line feed belongs to the line ending too. What follows the last line
/// feed is a line of its own unless it is empty, and it keeps a carriage return at
/// its end.
pub open spec fn lines_of(s: Seq<char>) -> Seq<Seq<char>>
    decreases s.len(),
{
    let n = first_index_of(s, '\n');
    if s.len() == 0 {
        Seq::empty()
    } else if 0 <= n < s.len() {
        seq![without_cr(s.take(n))] + lines_of(s.skip(n + 1))
    } else {
        seq![s]
    }
}

/// No line holds a line feed.
pub proof fn lemma_lines_hold_no_line_feed(s: Seq<char>)
    ensures
        forall|k: int, i: int|
            0 <= k < lines_of(s).len() && 0 <= i < lines_of(s)[k].len() ==> lines_of(s)[k][i]
                != '\n',
    decreases s.len(),
{
    let n = first_index_of(s, '\n');
    lemma_first_index_of(s, '\n');
    if s.len() == 0 {
    } else if n < s.len() {
        let first = without_cr(s.take(n));
        let rest = lines_of(s.skip(n + 1));
        lemma_lines_hold_no_line_feed(s.skip(n + 1));
        assert forall|k: int, i: int|
            0 <= k < lines_of(s).len() && 0 <= i < lines_of(s)[k].len() implies lines_of(s)[k][i]
            != '\n' by {
            if k == 0 {
                assert(lines_of(s)[0] == first);
                assert(first[i] == s[i]);
            } else {
                assert(lines_of(s)[k] == rest[k - 1]);
            }
        }
    } else {
        assert(lines_of(s) =~= seq![s]);
    }
}

/// The character sequences of a list of slices.
pub open spec fn views(slices: Seq<&str>) -> Seq<Seq<char>> {
    slices.map_values(|slice: &str| slice@)
}

/// Splits a text into its lines, each a slice of the text, without the line endings.
pub fn lines<'a>(text: &'a str) -> (out: Vec<&'a str>)
    ensures
        views(out@) == lines_of(text@),
{
    let mut out: Vec<&'a str> = Vec::new();
    let mut rest = text;
    assert(views(out@) + lines_of(rest@) =~= lines_of(text@));
    while !rest.is_empty()
        invariant
            views(out@) + lines_of(rest@) == lines_of(text@),
        decreases rest@.len(),
    {
        let ghost before = out@;
        let (line, tail) = split_at_first(rest, 0x0Au8);
        proof {
            lemma_first_index_of(rest@, '\n');
        }
        if tail.is_empty() {
            out.push(line);
            proof {
                assert(line@ =~= rest@);
                assert(lines_of(tail@) =~= Seq::<Seq<char>>::empty());
                assert(views(out@) =~= views(before) + seq![line@]);
            }
            rest = tail;
        } else {
            let after = skip_first(tail);
            let stripped = strip_cr(line);
            out.push(stripped);
            proof {
                assert(after@ =~= rest@.skip(first_index_of(rest@, '\n') + 1));
                assert(views(out@) =~= views(before) + seq![stripped@]);
            }
            rest = after;
        }
    }
    proof {
        assert(views(out@) + lines_of(rest@) =~= views(out@));
    }
    out
}

/// Whether two slices hold the same characters.
pub fn same_text(a: &str, b: &str) -> (same: bool)
    ensures
        same == (a@ == b@),
{
    let x = a.as_bytes();
    let y = b.as_bytes();
    if x.len() != y.len() {
        return false;
    }
    let mut i: usize = 0;
    while i < x.len()
        invariant
            0 <= i <= x.len(),
            x@.len() == y@.len(),
            x@ == a.spec_bytes(),
            y@ == b.spec_bytes(),
            forall|j: int| 0 <= j < i ==> x@[j] == y@[j],
        decreases x.len() - i,
    {
        if x[i] != y[i] {
            return false;
        }
        i += 1;
    }
    proof {
        assert(x@ =~= y@);
        lemma_same_bytes(a@, b@);
    }
    true
}

/// `needle` stands in `hay` from position `i` on.
pub open spec fn occurs_at<T>(hay: Seq<T>, needle: Seq<T>, i: int) -> bool {
    &&& 0 <= i
    &&& i + needle.len() <= hay.len()
    &&& hay.subrange(i, i + needle.len()) == needle
}

/// `needle` stands somewhere in `hay`. The empty sequence stands in every sequence.
pub open spec fn occurs<T>(hay: Seq<T>, needle: Seq<T>) -> bool {
    exists|i: int| occurs_at(hay, needle, i)
}

/// Where one encoding begins with another, the shorter one ends at a character
/// boundary of the longer.
proof fn lemma_prefix_boundary(whole: Seq<u8>, prefix: Seq<u8>)
    requires
        valid_utf8(whole),
        valid_utf8(prefix),
        prefix.len() <= whole.len(),
        whole.subrange(0, prefix.len() as int) == prefix,
    ensures
        is_char_boundary(whole, prefix.len() as int),
    decreases prefix.len(),
{
    if prefix.len() > 0 {
        assert forall|k: int| 0 <= k < prefix.len() implies whole[k] == prefix[k] by {
            assert(whole.subrange(0, prefix.len() as int)[k] == whole[k]);
        }
        let rest_of_whole = pop_first_scalar(whole);
        let rest_of_prefix = pop_first_scalar(prefix);
        assert(length_of_first_scalar(whole) == length_of_first_scalar(prefix));
        assert(rest_of_whole.subrange(0, rest_of_prefix.len() as int) =~= rest_of_prefix);
        lemma_prefix_boundary(rest_of_whole, rest_of_prefix);
    }
}

/// An occurrence among the characters is an occurrence among the bytes.
proof fn lemma_occurs_in_bytes(hay: Seq<char>, needle: Seq<char>, i: int) -> (j: int)
    requires
        occurs_at(hay, needle, i),
    ensures
        occurs_at(encode_utf8(hay), encode_utf8(needle), j),
{
    let before = hay.take(i);
    let after = hay.skip(i + needle.len());
    assert(hay =~= (before + needle) + after);
    lemma_encode_concat(before, needle);
    lemma_encode_concat(before + needle, after);
    let j = encode_utf8(before).len() as int;
    assert(encode_utf8(hay).subrange(j, j + encode_utf8(needle).len()) =~= encode_utf8(needle));
    j
}

/// An occurrence among the bytes is an occurrence among the characters.
proof fn lemma_occurs_in_chars(hay: Seq<char>, needle: Seq<char>, j: int) -> (i: int)
    requires
        occurs_at(encode_utf8(hay), encode_utf8(needle), j),
    ensures
        occurs_at(hay, needle, i),
{
    let hay_bytes = encode_utf8(hay);
    let needle_bytes = encode_utf8(needle);
    encode_utf8_valid_utf8(hay);
    encode_utf8_valid_utf8(needle);
    encode_utf8_decode_utf8(hay);
    encode_utf8_decode_utf8(needle);
    if needle_bytes.len() == 0 {
        lemma_encoding_len(needle);
        assert(hay.subrange(0, 0) =~= needle);
        0
    } else {
        is_char_boundary_iff_not_is_continuation_byte(needle_bytes, 0);
        assert(hay_bytes.subrange(j, j + needle_bytes.len())[0] == hay_bytes[j]);
        is_char_boundary_iff_not_is_continuation_byte(hay_bytes, j);
        valid_utf8_split(hay_bytes, j);
        decode_utf8_split(hay_bytes, j);
        let from_j = hay_bytes.subrange(j, hay_bytes.len() as int);
        assert(from_j.subrange(0, needle_bytes.len() as int) =~= needle_bytes);
        lemma_prefix_boundary(from_j, needle_bytes);
        valid_utf8_split(from_j, needle_bytes.len() as int);
        decode_utf8_split(from_j, needle_bytes.len() as int);
        let before = decode_utf8(hay_bytes.subrange(0, j));
        let after = decode_utf8(from_j.subrange(needle_bytes.len() as int, from_j.len() as int));
        assert(hay =~= before + (needle + after));
        let i = before.len() as int;
        assert(hay.subrange(i, i + needle.len()) =~= needle);
        i
    }
}

/// Whether `needle` stands somewhere in `hay`.
pub fn contains(hay: &str, needle: &str) -> (found: bool)
    ensures
        found == occurs(hay@, needle@),
{
    let h = hay.as_bytes();
    let n = needle.as_bytes();
    proof {
        if occurs(hay@, needle@) {
            let i = choose|i: int| occurs_at(hay@, needle@, i);
            let j = lemma_occurs_in_bytes(hay@, needle@, i);
        }
    }
    if n.len() > h.len() {
        return false;
    }
    let last = h.len() - n.len();
    let mut i: usize = 0;
    while i <= last
        invariant
            h@ == hay.spec_bytes(),
            n@ == needle.spec_bytes(),
            n@.len() <= h@.len() <= usize::MAX,
            last == h@.len() - n@.len(),
            0 <= i <= last + 1,
            forall|k: int| 0 <= k < i ==> !occurs_at(h@, n@, k),
        decreases last + 1 - i,
    {
        let mut j: usize = 0;
        while j < n.len() && h[i + j] == n[j]
            invariant
                0 <= j <= n@.len(),
                i + n@.len() <= h@.len() <= usize::MAX,
                forall|m: int| 0 <= m < j ==> h@[i + m] == n@[m],
            decreases n.len() - j,
        {
            j += 1;
        }
        if j == n.len() {
            proof {
                assert(h@.subrange(i as int, i + n@.len()) =~= n@);
                let at = lemma_occurs_in_chars(hay@, needle@, i as int);
            }
            return true;
        }
        proof {
            assert(h@.subrange(i as int, i + n@.len())[j as int] == h@[i + j]);
        }
        i += 1;
    }
    false
}

} // verus!
