use vstd::prelude::*;
use vstd::string::StringSliceAdditionalSpecFns;
use vstd::utf8::*;

verus! {

/// Whether two string slices hold the same characters.
pub fn str_eq(a: &str, b: &str) -> (same: bool)
    ensures
        same == (a@ == b@),
{
    broadcast use encode_utf8_decode_utf8;

    let x = a.as_bytes();
    let y = b.as_bytes();
    if x.len() != y.len() {
        return false;
    }
    let mut i: usize = 0;
    while i < x.len()
        invariant
            i <= x.len(),
            x.len() == y.len(),
            x@ == encode_utf8(a@),
            y@ == encode_utf8(b@),
            forall|j: int| 0 <= j < i ==> x@[j] == y@[j],
        decreases x.len() - i,
    {
        if x[i] != y[i] {
            return false;
        }
        i += 1;
    }
    assert(x@ =~= y@);
    assert(decode_utf8(encode_utf8(a@)) == a@);
    assert(decode_utf8(encode_utf8(b@)) == b@);
    true
}

/// In well-formed UTF-8 a byte below 0x80 stands alone: a character starts
/// at it and the next one starts right after it.
pub proof fn lemma_ascii_byte_boundaries(bytes: Seq<u8>, i: int)
    requires
        valid_utf8(bytes),
        0 <= i < bytes.len(),
        bytes[i] < 0x80,
    ensures
        is_char_boundary(bytes, i),
        is_char_boundary(bytes, i + 1),
{
    is_char_boundary_iff_not_is_continuation_byte(bytes, i);
    if i + 1 == bytes.len() {
        is_char_boundary_start_end_of_seq(bytes);
    } else {
        let tail = bytes.subrange(i, bytes.len() as int);
        valid_utf8_split(bytes, i);
        assert(tail[0] == bytes[i]);
        assert(length_of_first_scalar(tail) == 1);
        let rest = pop_first_scalar(tail);
        assert(valid_utf8(rest));
        assert(rest =~= bytes.subrange(i + 1, bytes.len() as int));
        assert(rest.len() > 0);
        assert(rest[0] == bytes[i + 1]);
        assert(valid_first_scalar(rest));
        assert(!is_continuation_byte(bytes[i + 1]));
        is_char_boundary_iff_not_is_continuation_byte(bytes, i + 1);
    }
}

/// Bytes below 0x80 are well-formed UTF-8, and stand for one character each,
/// the one with the byte's value.
pub proof fn lemma_decode_ascii(bytes: Seq<u8>)
    requires
        forall|i: int| 0 <= i < bytes.len() ==> #[trigger] bytes[i] < 0x80,
    ensures
        valid_utf8(bytes),
        decode_utf8(bytes).len() == bytes.len(),
        forall|i: int| 0 <= i < bytes.len() ==> #[trigger] decode_utf8(bytes)[i] == bytes[i] as char,
    decreases bytes.len(),
{
    if bytes.len() > 0 {
        let first = bytes[0];
        let rest = pop_first_scalar(bytes);
        assert(first < 0x80);
        assert(first & 0x7f == first) by (bit_vector)
            requires
                first < 0x80,
        ;
        assert(rest =~= bytes.subrange(1, bytes.len() as int));
        assert forall|i: int| 0 <= i < rest.len() implies #[trigger] rest[i] < 0x80 by {
            assert(rest[i] == bytes[i + 1]);
        }
        lemma_decode_ascii(rest);
        let head = decode_first_scalar(bytes);
        assert(head == first);
        char_u32_cast(head as char, head);
        let chars = decode_utf8(bytes);
        assert(chars =~= seq![head as char] + decode_utf8(rest));
        assert forall|i: int| 0 <= i < bytes.len() implies #[trigger] chars[i]
            == bytes[i] as char by {
            if i > 0 {
                assert(chars[i] == decode_utf8(rest)[i - 1]);
                assert(rest[i - 1] == bytes[i]);
            }
        }
    }
}

/// The text between two byte offsets of `s`, both of which fall between
/// characters.
pub fn substring(s: &str, start: usize, end: usize) -> (part: String)
    requires
        start <= end <= s.spec_bytes().len(),
        is_char_boundary(s.spec_bytes(), start as int),
        is_char_boundary(s.spec_bytes(), end as int),
    ensures
        encode_utf8(part@) == s.spec_bytes().subrange(start as int, end as int),
        part@ == decode_utf8(s.spec_bytes().subrange(start as int, end as int)),
{
    broadcast use {encode_utf8_decode_utf8, encode_utf8_valid_utf8};

    let (head, _) = s.split_at(end);
    proof {
        let all = s.spec_bytes();
        let front = head.spec_bytes();
        assert(front =~= all.subrange(0, end as int));
        assert(valid_utf8(all));
        assert(valid_utf8(front));
        if start == end {
            is_char_boundary_start_end_of_seq(front);
        } else {
            is_char_boundary_iff_not_is_continuation_byte(all, start as int);
            assert(front[start as int] == all[start as int]);
            is_char_boundary_iff_not_is_continuation_byte(front, start as int);
        }
    }
    let (_, tail) = head.split_at(start);
    assert(tail.spec_bytes() =~= s.spec_bytes().subrange(start as int, end as int));
    let part = tail.to_owned();
    assert(decode_utf8(encode_utf8(part@)) == part@);
    part
}

/// A non-empty run of the digits `0` to `9`.
pub open spec fn is_decimal(s: Seq<char>) -> bool {
    &&& s.len() > 0
    &&& forall|i: int| 0 <= i < s.len() ==> '0' <= #[trigger] s[i] <= '9'
}

/// The number that a run of decimal digits writes.
pub open spec fn decimal_value(s: Seq<char>) -> nat
    decreases s.len(),
{
    if s.len() == 0 {
        0
    } else {
        (decimal_value(s.drop_last()) * 10 + (s.last() as u32 - '0' as u32)) as nat
    }
}

/// What a number literal stands for: the value of its digits, if it is written
/// in digits alone and fits the machine word.
pub open spec fn decimal_literal(s: Seq<char>) -> Option<usize> {
    if is_decimal(s) && decimal_value(s) <= usize::MAX {
        Some(decimal_value(s) as usize)
    } else {
        None
    }
}

/// A run of digits is worth at least as much as any run it starts with.
pub proof fn lemma_decimal_value_grows(s: Seq<char>, k: int)
    requires
        is_decimal(s),
        0 <= k <= s.len(),
    ensures
        decimal_value(s.take(k)) <= decimal_value(s),
    decreases s.len() - k,
{
    if k == s.len() {
        assert(s.take(k) =~= s);
    } else {
        lemma_decimal_value_grows(s, k + 1);
        let longer = s.take(k + 1);
        assert(longer.drop_last() =~= s.take(k));
        assert('0' <= s[k] <= '9');
        assert(longer.last() == s[k]);
    }
}

/// Reads a number literal.
pub fn parse_decimal(s: &str) -> (value: Option<usize>)
    ensures
        value == decimal_literal(s@),
{
    broadcast use vstd::string::is_ascii_spec_bytes;

    if !s.is_ascii() {
        proof {
            if is_decimal(s@) {
                assert forall|i: int| 0 <= i < s@.len() implies (s@[i] as u32) < 128 by {
                    assert('0' <= s@[i] <= '9');
                }
                assert(is_ascii_chars(s@));
            }
        }
        return None;
    }
    let bytes = s.as_bytes();
    let n = bytes.len();
    assert(bytes@.len() == s@.len());
    if n == 0 {
        return None;
    }
    let mut i: usize = 0;
    let mut acc: usize = 0;
    while i < n
        invariant
            i <= n,
            n == bytes@.len(),
            n == s@.len(),
            forall|j: int| 0 <= j < n ==> bytes@[j] == s@[j] as u8,
            is_ascii_chars(s@),
            forall|j: int| 0 <= j < i ==> '0' <= #[trigger] s@[j] <= '9',
            acc == decimal_value(s@.take(i as int)),
        decreases n - i,
    {
        let b = bytes[i];
        assert((s@[i as int] as u32) < 128);
        if b < 0x30 || b > 0x39 {
            assert(!('0' <= s@[i as int] <= '9'));
            return None;
        }
        assert('0' <= s@[i as int] <= '9');
        let digit: usize = (b - 0x30) as usize;
        proof {
            let longer = s@.take(i + 1);
            assert(longer.drop_last() =~= s@.take(i as int));
            assert(longer.last() == s@[i as int]);
            assert(decimal_value(longer) == acc * 10 + digit);
            if is_decimal(s@) {
                lemma_decimal_value_grows(s@, i + 1);
            }
        }
        let scaled = match acc.checked_mul(10) {
            Some(v) => v,
            None => {
                return None;
            },
        };
        acc = match scaled.checked_add(digit) {
            Some(v) => v,
            None => {
                return None;
            },
        };
        i += 1;
    }
    assert(s@.take(n as int) =~= s@);
    Some(acc)
}

} // verus!
