//! Canonical text form: rendering an identifier as the 8-4-4-4-12 groups of
//! lowercase hex digits, and parsing that form back, with the round trip
//! proved exact.
use crate::uuid7::UuidV7;
use vstd::arithmetic::div_mod::lemma_div_pos_is_pos;
use vstd::arithmetic::div_mod::lemma_mod_breakdown;
use vstd::arithmetic::power::lemma_pow_positive;
use vstd::arithmetic::power::pow;
use vstd::prelude::*;
use vstd::string::StringSliceAdditionalSpecFns;

verus! {

/// The ASCII code of the lowercase hex digit for a nibble value below 16.
pub open spec fn hex_digit(n: int) -> u8 {
    if n < 10 {
        (0x30 + n) as u8
    } else {
        (0x57 + n) as u8
    }
}

/// Whether a byte is the ASCII code of a hex digit, either case.
pub open spec fn is_hex_digit(b: u8) -> bool {
    (0x30 <= b <= 0x39) || (0x61 <= b <= 0x66) || (0x41 <= b <= 0x46)
}

/// The nibble value of a hex digit's ASCII code.
pub open spec fn nibble_val(b: u8) -> int {
    if 0x30 <= b <= 0x39 {
        b - 0x30
    } else if 0x61 <= b <= 0x66 {
        b - 0x57
    } else {
        b - 0x37
    }
}

/// The last `n` lowercase hex digits of `v`, most significant first.
pub open spec fn hex_of(v: int, n: nat) -> Seq<u8>
    decreases n,
{
    if n == 0 {
        Seq::empty()
    } else {
        hex_of(v / 16, (n - 1) as nat).push(hex_digit(v % 16))
    }
}

/// The value of a big-endian string of hex-digit ASCII codes.
pub open spec fn parse_hex(s: Seq<u8>) -> int
    decreases s.len(),
{
    if s.len() == 0 {
        0
    } else {
        parse_hex(s.drop_last()) * 16 + nibble_val(s.last())
    }
}

/// Whether every byte of the string is a hex digit.
pub open spec fn all_hex(s: Seq<u8>) -> bool {
    forall|i: int| 0 <= i < s.len() ==> is_hex_digit(#[trigger] s[i])
}

/// A rendered digit string has the stated length and holds hex digits only.
pub proof fn lemma_hex_of_is_hex(v: int, n: nat)
    ensures
        hex_of(v, n).len() == n,
        all_hex(hex_of(v, n)),
    decreases n,
{
    if n > 0 {
        lemma_hex_of_is_hex(v / 16, (n - 1) as nat);
    }
}

/// Parsing the rendered digits of a value gives the value back, reduced to
/// the digits' range.
pub proof fn lemma_parse_hex_of(v: int, n: nat)
    requires
        0 <= v,
    ensures
        parse_hex(hex_of(v, n)) == v % pow(16, n),
    decreases n,
{
    reveal(pow);
    lemma_pow_positive(16, n);
    if n == 0 {
        assert(v % 1 == 0);
    } else {
        lemma_pow_positive(16, (n - 1) as nat);
        let prev = hex_of(v / 16, (n - 1) as nat);
        let d = hex_digit(v % 16);
        assert(prev.push(d).drop_last() =~= prev);
        lemma_div_pos_is_pos(v, 16);
        lemma_parse_hex_of(v / 16, (n - 1) as nat);
        assert(nibble_val(d) == v % 16);
        let p = pow(16, (n - 1) as nat);
        lemma_mod_breakdown(v, 16, p);
        assert(pow(16, n) == 16 * p);
    }
}

/// The value of an `n`-digit hex string lies below 16 to the `n`.
pub proof fn lemma_parse_hex_bound(s: Seq<u8>)
    requires
        all_hex(s),
    ensures
        0 <= parse_hex(s) < pow(16, s.len()),
    decreases s.len(),
{
    reveal(pow);
    lemma_pow_positive(16, s.len());
    if s.len() > 0 {
        assert forall|i: int| 0 <= i < s.drop_last().len() implies is_hex_digit(
            #[trigger] s.drop_last()[i],
        ) by {
            assert(s.drop_last()[i] == s[i]);
        }
        lemma_parse_hex_bound(s.drop_last());
        assert(pow(16, s.len()) == 16 * pow(16, (s.len() - 1) as nat));
    }
}

/// The canonical text of an identifier value: five groups of 8, 4, 4, 4 and
/// 12 lowercase hex digits, separated by hyphens, as ASCII codes.
pub open spec fn spec_hyphenated(v: u128) -> Seq<u8> {
    hex_of(v as int / 0x1000000000000000000000000, 8) + seq![0x2du8] + hex_of(
        v as int / 0x100000000000000000000,
        4,
    ) + seq![0x2du8] + hex_of(v as int / 0x10000000000000000, 4) + seq![0x2du8] + hex_of(
        v as int / 0x1000000000000,
        4,
    ) + seq![0x2du8] + hex_of(v as int, 12)
}

/// The canonical text of an identifier value, as characters.
pub open spec fn spec_render_chars(v: u128) -> Seq<char> {
    spec_hyphenated(v).map(|_i: int, b: u8| b as char)
}

/// Appends the last `n` lowercase hex digits of `v`, most significant first.
fn push_hex(v: u128, n: usize, out: &mut Vec<u8>)
    requires
        n <= 32,
    ensures
        final(out)@ == old(out)@ + hex_of(v as int, n as nat),
    decreases n,
{
    if n > 0 {
        push_hex(v / 16, n - 1, out);
        let d: u8 = (v % 16) as u8;
        let c: u8 = if d < 10 {
            0x30 + d
        } else {
            0x57 + d
        };
        out.push(c);
        proof {
            assert(c == hex_digit(v as int % 16));
            assert(out@ =~= old(out)@ + hex_of(v as int, n as nat));
        }
    } else {
        proof {
            assert(out@ =~= old(out)@ + hex_of(v as int, 0));
        }
    }
}

/// Relies on `String::from_utf8`: bytes below 0x80 are valid UTF-8 and decode
/// to one character per byte, the character of that byte's code.
#[verifier::external_body]
fn string_from_ascii(bytes: Vec<u8>) -> (s: String)
    requires
        forall|i: int| 0 <= i < bytes@.len() ==> bytes@[i] < 0x80,
    ensures
        s@ == bytes@.map(|_i: int, b: u8| b as char),
{
    match String::from_utf8(bytes) {
        Ok(s) => s,
        Err(_) => String::new(),
    }
}

/// Every byte of the canonical text is ASCII: a hex digit or a hyphen.
pub proof fn lemma_hyphenated_ascii(v: u128)
    ensures
        spec_hyphenated(v).len() == 36,
        forall|i: int| 0 <= i < 36 ==> #[trigger] spec_hyphenated(v)[i] < 0x80,
{
    lemma_hex_of_is_hex(v as int / 0x1000000000000000000000000, 8);
    lemma_hex_of_is_hex(v as int / 0x100000000000000000000, 4);
    lemma_hex_of_is_hex(v as int / 0x10000000000000000, 4);
    lemma_hex_of_is_hex(v as int / 0x1000000000000, 4);
    lemma_hex_of_is_hex(v as int, 12);
    assert forall|i: int| 0 <= i < 36 implies #[trigger] spec_hyphenated(v)[i] < 0x80 by {
        let s = spec_hyphenated(v);
        if i < 8 {
            assert(is_hex_digit(s[i]));
        } else if i == 8 {
            assert(s[i] == 0x2d);
        } else if i < 13 {
            assert(is_hex_digit(s[i]));
        } else if i == 13 {
            assert(s[i] == 0x2d);
        } else if i < 18 {
            assert(is_hex_digit(s[i]));
        } else if i == 18 {
            assert(s[i] == 0x2d);
        } else if i < 23 {
            assert(is_hex_digit(s[i]));
        } else if i == 23 {
            assert(s[i] == 0x2d);
        } else {
            assert(is_hex_digit(s[i]));
        }
    }
}

/// The identifier value denoted by five parsed groups, each already reduced
/// to its place: the groups carry 8, 4, 4, 4 and 12 hex digits.
pub open spec fn combine_groups(g1: int, g2: int, g3: int, g4: int, g5: int) -> u128 {
    (g1 * 0x1000000000000000000000000 + g2 * 0x100000000000000000000 + g3 * 0x10000000000000000
        + g4 * 0x1000000000000 + g5) as u128
}

/// The value a canonical text denotes: `Some` exactly on strings of length 36
/// with hyphens at positions 8, 13, 18 and 23 and hex digits, either case,
/// everywhere else.
pub open spec fn spec_parse(s: Seq<u8>) -> Option<u128> {
    if s.len() == 36 && s[8] == 0x2d && s[13] == 0x2d && s[18] == 0x2d && s[23] == 0x2d && all_hex(
        s.subrange(0, 8),
    ) && all_hex(s.subrange(9, 13)) && all_hex(s.subrange(14, 18)) && all_hex(s.subrange(19, 23))
        && all_hex(s.subrange(24, 36)) {
        Some(
            combine_groups(
                parse_hex(s.subrange(0, 8)),
                parse_hex(s.subrange(9, 13)),
                parse_hex(s.subrange(14, 18)),
                parse_hex(s.subrange(19, 23)),
                parse_hex(s.subrange(24, 36)),
            ),
        )
    } else {
        None
    }
}

/// The nibble value of one hex-digit ASCII code, `None` on any other byte.
fn hex_val(c: u8) -> (r: Option<u8>)
    ensures
        match r {
            Some(d) => is_hex_digit(c) && d as int == nibble_val(c),
            None => !is_hex_digit(c),
        },
{
    if 0x30 <= c && c <= 0x39 {
        Some(c - 0x30)
    } else if 0x61 <= c && c <= 0x66 {
        Some(c - 0x57)
    } else if 0x41 <= c && c <= 0x46 {
        Some(c - 0x37)
    } else {
        None
    }
}

/// The value of one group of up to twelve hex digits, `None` as soon as a
/// byte of the group is no hex digit.
fn parse_group(b: &[u8], start: usize, len: usize) -> (r: Option<u64>)
    requires
        start + len <= b@.len(),
        len <= 12,
    ensures
        match r {
            Some(x) => all_hex(b@.subrange(start as int, (start + len) as int)) && x as int
                == parse_hex(b@.subrange(start as int, (start + len) as int)),
            None => !all_hex(b@.subrange(start as int, (start + len) as int)),
        },
{
    let total = b.len();
    let mut acc: u64 = 0;
    let mut k: usize = 0;
    while k < len
        invariant
            k <= len,
            len <= 12,
            total == b@.len(),
            start + len <= b@.len(),
            all_hex(b@.subrange(start as int, (start + k) as int)),
            acc as int == parse_hex(b@.subrange(start as int, (start + k) as int)),
            acc < 0x1000000000000,
        decreases len - k,
    {
        let c = *vstd::slice::slice_index_get(b, start + k);
        match hex_val(c) {
            Some(d) => {
                proof {
                    let pre = b@.subrange(start as int, (start + k) as int);
                    let post = b@.subrange(start as int, (start + k + 1) as int);
                    assert(post.drop_last() =~= pre);
                    assert(post.last() == c);
                    assert forall|i: int| 0 <= i < post.len() implies is_hex_digit(
                        #[trigger] post[i],
                    ) by {
                        if i < k {
                            assert(post[i] == pre[i]);
                        }
                    }
                    lemma_parse_hex_bound(post);
                    vstd::arithmetic::power::lemma_pow_increases(16, (k + 1) as nat, 12);
                    assert(pow(16, 12) == 0x1000000000000) by {
                        reveal_with_fuel(pow, 13);
                    }
                }
                acc = acc * 16 + (d as u64);
                k = k + 1;
            },
            None => {
                proof {
                    let whole = b@.subrange(start as int, (start + len) as int);
                    assert(whole[k as int] == c);
                }
                return None;
            },
        }
    }
    proof {
        assert(b@.subrange(start as int, (start + k) as int) =~= b@.subrange(
            start as int,
            (start + len) as int,
        ));
    }
    Some(acc)
}

/// Parsing the canonical text of a value gives the value back, exactly.
pub proof fn lemma_hyphenated_round_trip(v: u128)
    ensures
        spec_parse(spec_hyphenated(v)) == Some(v),
{
    reveal(pow);
    let s = spec_hyphenated(v);
    let x1 = v as int / 0x1000000000000000000000000;
    let x2 = v as int / 0x100000000000000000000;
    let x3 = v as int / 0x10000000000000000;
    let x4 = v as int / 0x1000000000000;
    let a1 = hex_of(x1, 8);
    let a2 = hex_of(x2, 4);
    let a3 = hex_of(x3, 4);
    let a4 = hex_of(x4, 4);
    let a5 = hex_of(v as int, 12);
    lemma_hex_of_is_hex(x1, 8);
    lemma_hex_of_is_hex(x2, 4);
    lemma_hex_of_is_hex(x3, 4);
    lemma_hex_of_is_hex(x4, 4);
    lemma_hex_of_is_hex(v as int, 12);
    assert(s.subrange(0, 8) =~= a1);
    assert(s.subrange(9, 13) =~= a2);
    assert(s.subrange(14, 18) =~= a3);
    assert(s.subrange(19, 23) =~= a4);
    assert(s.subrange(24, 36) =~= a5);
    assert(s[8] == 0x2d && s[13] == 0x2d && s[18] == 0x2d && s[23] == 0x2d);
    lemma_div_pos_is_pos(v as int, 0x1000000000000000000000000);
    lemma_div_pos_is_pos(v as int, 0x100000000000000000000);
    lemma_div_pos_is_pos(v as int, 0x10000000000000000);
    lemma_div_pos_is_pos(v as int, 0x1000000000000);
    lemma_parse_hex_of(x1, 8);
    lemma_parse_hex_of(x2, 4);
    lemma_parse_hex_of(x3, 4);
    lemma_parse_hex_of(x4, 4);
    lemma_parse_hex_of(v as int, 12);
    assert(pow(16, 4) == 0x10000 && pow(16, 8) == 0x100000000 && pow(16, 12)
        == 0x1000000000000) by {
        reveal_with_fuel(pow, 13);
    }
    assert(v / 0x1000000000000000000000000u128 < 0x100000000) by (bit_vector);
    vstd::arithmetic::div_mod::lemma_small_mod(x1 as nat, 0x100000000);
    let g1 = parse_hex(a1);
    let g2 = parse_hex(a2);
    let g3 = parse_hex(a3);
    let g4 = parse_hex(a4);
    let g5 = parse_hex(a5);
    assert(g1 == x1 && g2 == x2 % 0x10000 && g3 == x3 % 0x10000 && g4 == x4 % 0x10000 && g5
        == v as int % 0x1000000000000);
    assert((v / 0x1000000000000000000000000) * 0x1000000000000000000000000 + ((v
        / 0x100000000000000000000) % 0x10000) * 0x100000000000000000000 + ((v
        / 0x10000000000000000) % 0x10000) * 0x10000000000000000 + ((v / 0x1000000000000)
        % 0x10000) * 0x1000000000000 + (v % 0x1000000000000) == v) by (bit_vector);
    assert(combine_groups(g1, g2, g3, g4, g5) == v);
}

/// Any string whose characters are the canonical rendering of an identifier
/// parses back to exactly that identifier: the text round trip is the
/// identity on every identifier.
pub proof fn lemma_text_round_trip(u: UuidV7, s: &str)
    requires
        s@ == spec_render_chars(u.value),
    ensures
        spec_parse(s.spec_bytes()) == Some(u.value),
{
    let v = u.value;
    lemma_hyphenated_ascii(v);
    let bytes = spec_hyphenated(v);
    let chars = spec_render_chars(v);
    assert(vstd::utf8::is_ascii_chars(chars)) by {
        assert forall|i: int| 0 <= i < chars.len() implies '\0' <= #[trigger] chars[i]
            <= '\u{7f}' by {
            assert(chars[i] == bytes[i] as char);
            assert(bytes[i] < 0x80);
        }
    }
    vstd::utf8::is_ascii_chars_encode_utf8(chars);
    assert(s.spec_bytes() =~= bytes) by {
        assert forall|i: int| 0 <= i < chars.len() implies s.spec_bytes()[i] == bytes[i] by {
            assert(s.spec_bytes()[i] == chars[i] as u8);
            assert(chars[i] == bytes[i] as char);
        }
    }
    lemma_hyphenated_round_trip(v);
}

impl UuidV7 {
    /// The value the given text denotes, if it is a canonical 8-4-4-4-12
    /// rendering: 36 bytes, hyphens at positions 8, 13, 18 and 23, hex
    /// digits of either case everywhere else.
    pub fn parse_hyphenated(s: &str) -> (r: Option<UuidV7>)
        ensures
            match r {
                Some(u) => spec_parse(s.spec_bytes()) == Some(u.value),
                None => spec_parse(s.spec_bytes()) is None,
            },
    {
        let b: &[u8] = s.as_bytes();
        if b.len() != 36 {
            return None;
        }
        let ok = *vstd::slice::slice_index_get(b, 8) == 0x2d && *vstd::slice::slice_index_get(
            b,
            13,
        ) == 0x2d && *vstd::slice::slice_index_get(b, 18) == 0x2d && *vstd::slice::slice_index_get(
            b,
            23,
        ) == 0x2d;
        if !ok {
            return None;
        }
        let g1 = match parse_group(b, 0, 8) {
            Some(x) => x,
            None => {
                return None;
            },
        };
        let g2 = match parse_group(b, 9, 4) {
            Some(x) => x,
            None => {
                return None;
            },
        };
        let g3 = match parse_group(b, 14, 4) {
            Some(x) => x,
            None => {
                return None;
            },
        };
        let g4 = match parse_group(b, 19, 4) {
            Some(x) => x,
            None => {
                return None;
            },
        };
        let g5 = match parse_group(b, 24, 12) {
            Some(x) => x,
            None => {
                return None;
            },
        };
        proof {
            lemma_parse_hex_bound(b@.subrange(0, 8));
            lemma_parse_hex_bound(b@.subrange(9, 13));
            lemma_parse_hex_bound(b@.subrange(14, 18));
            lemma_parse_hex_bound(b@.subrange(19, 23));
            lemma_parse_hex_bound(b@.subrange(24, 36));
            assert(pow(16, 4) == 0x10000 && pow(16, 8) == 0x100000000 && pow(16, 12)
                == 0x1000000000000) by {
                reveal_with_fuel(pow, 13);
            }
        }
        let value: u128 = (g1 as u128) * 0x1000000000000000000000000 + (g2 as u128)
            * 0x100000000000000000000 + (g3 as u128) * 0x10000000000000000 + (g4 as u128)
            * 0x1000000000000 + (g5 as u128);
        Some(UuidV7 { value })
    }
}

impl UuidV7 {
    /// The canonical 8-4-4-4-12 lowercase hex text of this identifier.
    pub fn to_hyphenated(&self) -> (s: String)
        ensures
            s@ == spec_render_chars(self.value),
            s@.len() == 36,
    {
        let v = self.value;
        let mut out: Vec<u8> = Vec::new();
        push_hex(v / 0x1000000000000000000000000, 8, &mut out);
        out.push(0x2d);
        push_hex(v / 0x100000000000000000000, 4, &mut out);
        out.push(0x2d);
        push_hex(v / 0x10000000000000000, 4, &mut out);
        out.push(0x2d);
        push_hex(v / 0x1000000000000, 4, &mut out);
        out.push(0x2d);
        push_hex(v, 12, &mut out);
        proof {
            assert(out@ =~= spec_hyphenated(v));
            lemma_hyphenated_ascii(v);
        }
        string_from_ascii(out)
    }
}

} // verus!
