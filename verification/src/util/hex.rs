//! Hexadecimal quantities as they appear on the wire: big-endian digit
//! strings, with or without a leading `0x`.

use vstd::prelude::*;

verus! {

/// The value of one hexadecimal digit, in either case; `None` for any other
/// character.
pub open spec fn digit_value(c: char) -> Option<nat> {
    if '0' <= c <= '9' {
        Some((c as nat - '0' as nat) as nat)
    } else if 'a' <= c <= 'f' {
        Some((c as nat - 'a' as nat + 10) as nat)
    } else if 'A' <= c <= 'F' {
        Some((c as nat - 'A' as nat + 10) as nat)
    } else {
        None
    }
}

/// Every character of `s` is a hexadecimal digit.
pub open spec fn all_digits(s: Seq<char>) -> bool {
    forall|i: int| 0 <= i < s.len() ==> (#[trigger] digit_value(s[i])) is Some
}

/// The number that the digit string `s` denotes, most significant digit
/// first. The empty string denotes zero.
pub open spec fn digits_value(s: Seq<char>) -> nat
    decreases s.len(),
{
    if s.len() == 0 {
        0
    } else {
        16 * digits_value(s.drop_last()) + digit_value(s.last()).unwrap()
    }
}

/// What [`hex_to_int`] returns: the value of a non-empty string of
/// hexadecimal digits that fits in 64 bits, and nothing for any other string.
pub open spec fn hex_to_int_spec(s: Seq<char>) -> Option<u64> {
    if s.len() > 0 && all_digits(s) && digits_value(s) <= u64::MAX {
        Some(digits_value(s) as u64)
    } else {
        None
    }
}

/// `s` starts with the two characters `0x`.
pub open spec fn has_prefix(s: Seq<char>) -> bool {
    s.len() >= 2 && s[0] == '0' && s[1] == 'x'
}

/// What [`parse_hex`] returns: the digits after a `0x` prefix if they parse,
/// else the whole string if it parses, else zero.
pub open spec fn parse_hex_spec(s: Seq<char>) -> u64 {
    if has_prefix(s) && hex_to_int_spec(s.skip(2)) is Some {
        hex_to_int_spec(s.skip(2)).unwrap()
    } else if hex_to_int_spec(s) is Some {
        hex_to_int_spec(s).unwrap()
    } else {
        0
    }
}

/// The lower-case digit for a value below sixteen.
pub open spec fn digit_char(d: nat) -> char {
    if d == 0 {
        '0'
    } else if d == 1 {
        '1'
    } else if d == 2 {
        '2'
    } else if d == 3 {
        '3'
    } else if d == 4 {
        '4'
    } else if d == 5 {
        '5'
    } else if d == 6 {
        '6'
    } else if d == 7 {
        '7'
    } else if d == 8 {
        '8'
    } else if d == 9 {
        '9'
    } else if d == 10 {
        'a'
    } else if d == 11 {
        'b'
    } else if d == 12 {
        'c'
    } else if d == 13 {
        'd'
    } else if d == 14 {
        'e'
    } else {
        'f'
    }
}

/// The shortest digit string for `h`: no leading zero, except that zero
/// itself is written `0`.
pub open spec fn hex_digits(h: nat) -> Seq<char>
    decreases h,
{
    if h < 16 {
        seq![digit_char(h)]
    } else {
        hex_digits(h / 16).push(digit_char(h % 16))
    }
}

/// What [`format_hex`] returns: the digits of `h`, after `0x` if `prefixed`.
pub open spec fn hex_text(h: u64, prefixed: bool) -> Seq<char> {
    if prefixed {
        seq!['0', 'x'] + hex_digits(h as nat)
    } else {
        hex_digits(h as nat)
    }
}

/// A prefix of a digit string never denotes more than the whole string.
pub proof fn lemma_prefix_value(s: Seq<char>, k: int)
    requires
        0 <= k <= s.len(),
    ensures
        digits_value(s.take(k)) <= digits_value(s),
    decreases s.len(),
{
    if k == s.len() {
        assert(s.take(k) =~= s);
    } else {
        lemma_prefix_value(s.drop_last(), k);
        assert(s.drop_last().take(k) =~= s.take(k));
    }
}

/// The digits written for `h` are digits, and denote `h`.
pub proof fn lemma_digits_of_value(h: nat)
    ensures
        hex_digits(h).len() > 0,
        all_digits(hex_digits(h)),
        digits_value(hex_digits(h)) == h,
    decreases h,
{
    if h < 16 {
        let s = hex_digits(h);
        assert(s.drop_last() =~= Seq::<char>::empty());
        assert(digits_value(s.drop_last()) == 0);
        assert(digit_value(digit_char(h)) == Some(h));
    } else {
        lemma_digits_of_value(h / 16);
        let p = hex_digits(h / 16);
        let s = p.push(digit_char(h % 16));
        assert(s.drop_last() =~= p);
        assert(digit_value(digit_char(h % 16)) == Some(h % 16));
        assert forall|i: int| 0 <= i < s.len() implies (#[trigger] digit_value(s[i])) is Some by {
            if i < p.len() {
                assert(s[i] == p[i]);
            }
        }
    }
}

/// Parsing undoes formatting: whatever 64-bit quantity is written out, with
/// the `0x` prefix or without it, reads back as the same quantity.
pub proof fn lemma_parse_format(h: u64, prefixed: bool)
    ensures
        parse_hex_spec(hex_text(h, prefixed)) == h,
{
    let d = hex_digits(h as nat);
    lemma_digits_of_value(h as nat);
    if prefixed {
        let s = hex_text(h, true);
        assert(s.skip(2) =~= d);
    } else {
        if has_prefix(d) {
            assert(digit_value(d[1]) is Some);
        }
    }
}

fn digit_of_byte(b: u8) -> (r: Option<u8>)
    ensures
        match r {
            Some(d) => digit_value(b as char) == Some(d as nat),
            None => digit_value(b as char) is None,
        },
{
    if b >= 48 && b <= 57 {
        Some(b - 48)
    } else if b >= 97 && b <= 102 {
        Some(b - 97 + 10)
    } else if b >= 65 && b <= 70 {
        Some(b - 65 + 10)
    } else {
        None
    }
}

/// Reads the digits of `s` from character `from` on.
fn digits_from(s: &str, from: usize) -> (r: Option<u64>)
    requires
        from == 0 || (from == 2 && has_prefix(s@)),
    ensures
        r == hex_to_int_spec(s@.skip(from as int)),
{
    let ghost t = s@.skip(from as int);
    if !s.is_ascii() {
        proof {
            if all_digits(t) {
                assert forall|i: int| 0 <= i < s@.len() implies '\0' <= #[trigger] s@[i]
                    <= '\u{7f}' by {
                    if i >= from {
                        assert(s@[i] == t[i - from]);
                        assert(digit_value(t[i - from]) is Some);
                    }
                }
            }
        }
        return None;
    }
    let bytes = s.as_bytes();
    proof {
        vstd::string::is_ascii_spec_bytes(s);
    }
    let n = bytes.len();
    if n <= from {
        return None;
    }
    let mut acc: u64 = 0;
    let mut i: usize = from;
    proof {
        assert(t.take(0) =~= Seq::<char>::empty());
    }
    while i < n
        invariant
            from <= i <= n,
            n == s@.len(),
            n == bytes@.len(),
            t == s@.skip(from as int),
            vstd::utf8::is_ascii_chars(s@),
            forall|k: int| 0 <= k < n ==> bytes@[k] == s@[k] as u8,
            all_digits(t.take(i - from)),
            acc == digits_value(t.take(i - from)),
        decreases n - i,
    {
        let b = bytes[i];
        let ghost c = s@[i as int];
        let ghost next = t.take(i - from + 1);
        proof {
            assert(t[i - from] == c);
            assert('\0' <= c <= '\u{7f}');
            assert(b as char == c);
            assert(next.drop_last() =~= t.take(i - from));
            assert(next.last() == c);
        }
        match digit_of_byte(b) {
            None => {
                proof {
                    assert(digit_value(t[i - from]) is None);
                }
                return None;
            },
            Some(d) => {
                let wide: u128 = (acc as u128) * 16 + (d as u128);
                if wide > u64::MAX as u128 {
                    proof {
                        lemma_prefix_value(t, i - from + 1);
                    }
                    return None;
                }
                proof {
                    assert forall|k: int| 0 <= k < next.len() implies (#[trigger] digit_value(
                        next[k],
                    )) is Some by {
                        if k < i - from {
                            assert(next[k] == t.take(i - from)[k]);
                        }
                    }
                }
                acc = wide as u64;
                i = i + 1;
            },
        }
    }
    proof {
        assert(t.take(i - from) =~= t);
    }
    Some(acc)
}

/// Reads a string of hexadecimal digits as an unsigned 64-bit integer.
///
/// Succeeds exactly on the non-empty strings made of the characters
/// `0-9a-fA-F` whose value fits; there is no sign and no prefix.
pub fn hex_to_int(s: &str) -> (r: Option<u64>)
    ensures
        r == hex_to_int_spec(s@),
{
    proof {
        assert(s@.skip(0) =~= s@);
    }
    digits_from(s, 0)
}

/// Reads a quantity that may or may not carry the `0x` prefix.
///
/// The digits after the prefix are tried first, then the whole string as a
/// bare digit string; a string that is neither reads as zero.
pub fn parse_hex(s: &str) -> (r: u64)
    ensures
        r == parse_hex_spec(s@),
{
    if starts_with_prefix(s) {
        if let Some(v) = digits_from(s, 2) {
            return v;
        }
    }
    match hex_to_int(s) {
        Some(v) => v,
        None => 0,
    }
}

fn starts_with_prefix(s: &str) -> (r: bool)
    ensures
        r == has_prefix(s@),
{
    if s.unicode_len() < 2 {
        return false;
    }
    s.get_char(0) == '0' && s.get_char(1) == 'x'
}

fn digit_str(d: u64) -> (r: &'static str)
    requires
        d < 16,
    ensures
        r@ == seq![digit_char(d as nat)],
{
    proof {
        reveal_strlit("0");
        reveal_strlit("1");
        reveal_strlit("2");
        reveal_strlit("3");
        reveal_strlit("4");
        reveal_strlit("5");
        reveal_strlit("6");
        reveal_strlit("7");
        reveal_strlit("8");
        reveal_strlit("9");
        reveal_strlit("a");
        reveal_strlit("b");
        reveal_strlit("c");
        reveal_strlit("d");
        reveal_strlit("e");
        reveal_strlit("f");
    }
    let r = if d == 0 {
        "0"
    } else if d == 1 {
        "1"
    } else if d == 2 {
        "2"
    } else if d == 3 {
        "3"
    } else if d == 4 {
        "4"
    } else if d == 5 {
        "5"
    } else if d == 6 {
        "6"
    } else if d == 7 {
        "7"
    } else if d == 8 {
        "8"
    } else if d == 9 {
        "9"
    } else if d == 10 {
        "a"
    } else if d == 11 {
        "b"
    } else if d == 12 {
        "c"
    } else if d == 13 {
        "d"
    } else if d == 14 {
        "e"
    } else {
        "f"
    };
    assert(r@ =~= seq![digit_char(d as nat)]);
    r
}

fn push_digits(out: &mut String, h: u64)
    ensures
        final(out)@ == old(out)@ + hex_digits(h as nat),
    decreases h,
{
    if h >= 16 {
        push_digits(out, h / 16);
    }
    out.append(digit_str(h % 16));
    proof {
        assert(out@ =~= old(out)@ + hex_digits(h as nat));
    }
}

/// Writes `h` in lower-case hexadecimal without leading zeros, after `0x` if
/// `prefixed`.
pub fn format_hex(h: u64, prefixed: bool) -> (r: String)
    ensures
        r@ == hex_text(h, prefixed),
{
    let mut out = String::new();
    if prefixed {
        proof {
            reveal_strlit("0x");
        }
        out.append("0x");
        assert(out@ =~= seq!['0', 'x']);
    }
    push_digits(&mut out, h);
    proof {
        assert(out@ =~= hex_text(h, prefixed));
    }
    out
}

} // verus!
