use vstd::prelude::*;

use crate::text::{chars_of, string_from_chars};

verus! {

/// Whether `u` is a leading (high) surrogate of UTF-16.
pub open spec fn is_high_surrogate(u: u16) -> bool {
    0xD800 <= u <= 0xDBFF
}

/// Whether `u` is a trailing (low) surrogate of UTF-16.
pub open spec fn is_low_surrogate(u: u16) -> bool {
    0xDC00 <= u <= 0xDFFF
}

/// The scalar value that a surrogate pair stands for.
pub open spec fn surrogate_pair_scalar(high: u16, low: u16) -> u32 {
    (0x10000 + (high - 0xD800) * 0x400 + (low - 0xDC00)) as u32
}

/// The UTF-16 code units of one character: one unit below U+10000, a
/// surrogate pair above.
pub open spec fn utf16_units(c: char) -> Seq<u16> {
    let u = c as u32;
    if u < 0x10000 {
        seq![u as u16]
    } else {
        seq![(0xD800 + (u - 0x10000) / 0x400) as u16, (0xDC00 + (u - 0x10000) % 0x400) as u16]
    }
}

/// UTF-16 encoding of a character sequence (`str::encode_utf16`).
pub open spec fn encode_utf16(s: Seq<char>) -> Seq<u16>
    decreases s.len(),
{
    if s.len() == 0 {
        Seq::empty()
    } else {
        utf16_units(s[0]) + encode_utf16(s.drop_first())
    }
}

/// Lossy UTF-16 decoding (`String::from_utf16_lossy`): a surrogate pair gives
/// its character, any other surrogate gives U+FFFD, any other unit gives the
/// character of that code point.
pub open spec fn decode_utf16_lossy(u: Seq<u16>) -> Seq<char>
    decreases u.len(),
{
    if u.len() == 0 {
        Seq::empty()
    } else if u.len() >= 2 && is_high_surrogate(u[0]) && is_low_surrogate(u[1]) {
        seq![surrogate_pair_scalar(u[0], u[1]) as char] + decode_utf16_lossy(u.skip(2))
    } else if 0xD800 <= u[0] <= 0xDFFF {
        seq!['\u{FFFD}'] + decode_utf16_lossy(u.skip(1))
    } else {
        seq![(u[0] as u32) as char] + decode_utf16_lossy(u.skip(1))
    }
}

/// The units before the first NUL unit (all of them when there is none).
pub open spec fn until_nul(u: Seq<u16>) -> Seq<u16>
    decreases u.len(),
{
    if u.len() == 0 {
        u
    } else if u[0] == 0 {
        Seq::empty()
    } else {
        seq![u[0]] + until_nul(u.skip(1))
    }
}

/// The character with scalar value `u`, when there is one.
///
/// Trusted: std's `char::from_u32`, documented to return `None` exactly for
/// surrogates and values above U+10FFFF, and otherwise the character whose
/// code point is `u`.
#[verifier::external_body]
fn char_from_scalar(u: u32) -> (c: Option<char>)
    ensures
        c is Some <==> vstd::utf8::is_scalar(u),
        c matches Some(ch) ==> ch as u32 == u,
{
    char::from_u32(u)
}

proof fn lemma_encode_utf16_concat(a: Seq<char>, b: Seq<char>)
    ensures
        encode_utf16(a + b) == encode_utf16(a) + encode_utf16(b),
    decreases a.len(),
{
    if a.len() == 0 {
        assert(a + b =~= b);
    } else {
        lemma_encode_utf16_concat(a.drop_first(), b);
        assert((a + b).drop_first() =~= a.drop_first() + b);
        assert((a + b)[0] == a[0]);
    }
}

proof fn lemma_encode_utf16_one(c: char)
    ensures
        encode_utf16(seq![c]) == utf16_units(c),
{
    assert(seq![c].drop_first() =~= Seq::<char>::empty());
    assert(encode_utf16(Seq::<char>::empty()) == Seq::<u16>::empty());
    assert(seq![c][0] == c);
    assert(utf16_units(c) + Seq::<u16>::empty() =~= utf16_units(c));
}

/// Appends the UTF-16 units of `c` to `out`.
fn push_utf16_units(out: &mut Vec<u16>, c: char)
    ensures
        final(out)@ == old(out)@ + utf16_units(c),
{
    proof {
        vstd::utf8::char_is_scalar(c);
    }
    let u = c as u32;
    if u < 0x10000 {
        out.push(u as u16);
        assert(out@ =~= old(out)@ + utf16_units(c));
    } else {
        let v = u - 0x10000;
        out.push((0xD800 + v / 0x400) as u16);
        out.push((0xDC00 + v % 0x400) as u16);
        assert(out@ =~= old(out)@ + utf16_units(c));
    }
}

/// The NUL-terminated UTF-16 form of `s` that the Windows wide-string APIs
/// take: the UTF-16 encoding of `s` followed by one `0` unit.
pub fn to_pcwstr(s: &str) -> (v: Vec<u16>)
    ensures
        v@ == encode_utf16(s@).push(0),
{
    let chars = chars_of(s);
    let mut out: Vec<u16> = Vec::new();
    let mut i: usize = 0;
    assert(chars@.take(0) =~= Seq::<char>::empty());
    while i < chars.len()
        invariant
            chars@ == s@,
            i <= chars.len(),
            out@ == encode_utf16(chars@.take(i as int)),
        decreases chars.len() - i,
    {
        let c = chars[i];
        push_utf16_units(&mut out, c);
        proof {
            assert(chars@.take(i + 1) =~= chars@.take(i as int) + seq![c]);
            lemma_encode_utf16_concat(chars@.take(i as int), seq![c]);
            lemma_encode_utf16_one(c);
        }
        i = i + 1;
    }
    assert(chars@.take(i as int) =~= s@);
    out.push(0);
    out
}

/// Length of the prefix of `u` before its first NUL unit.
proof fn lemma_until_nul_prefix(u: Seq<u16>, n: int)
    requires
        0 <= n <= u.len(),
        forall|k: int| 0 <= k < n ==> u[k] != 0,
        n == u.len() || u[n] == 0,
    ensures
        until_nul(u) == u.take(n),
    decreases u.len(),
{
    if u.len() == 0 {
        assert(u.take(n) =~= u);
    } else if u[0] == 0 {
        assert(n == 0);
        assert(u.take(n) =~= Seq::<u16>::empty());
    } else {
        lemma_until_nul_prefix(u.skip(1), n - 1);
        assert(seq![u[0]] + u.skip(1).take(n - 1) =~= u.take(n));
    }
}

/// The text of a wide string read from a buffer: the units before the first
/// NUL unit (all of them when there is none), decoded as
/// `String::from_utf16_lossy` does.
pub fn string_from_wide(units: &[u16]) -> (s: String)
    ensures
        s@ == decode_utf16_lossy(until_nul(units@)),
{
    let mut n: usize = 0;
    while n < units.len() && units[n] != 0
        invariant
            n <= units.len(),
            forall|k: int| 0 <= k < n ==> units@[k] != 0,
        decreases units.len() - n,
    {
        n = n + 1;
    }
    proof {
        lemma_until_nul_prefix(units@, n as int);
    }
    let ghost w = units@.take(n as int);
    let mut out: Vec<char> = Vec::new();
    let mut i: usize = 0;
    assert(w.skip(0) =~= w);
    while i < n
        invariant
            n <= units.len(),
            w == units@.take(n as int),
            i <= n,
            out@ + decode_utf16_lossy(w.skip(i as int)) == decode_utf16_lossy(w),
        decreases n - i,
    {
        let u = units[i];
        let ghost rest = w.skip(i as int);
        assert(rest[0] == u);
        if i + 1 < n && 0xD800 <= u && u <= 0xDBFF && 0xDC00 <= units[i + 1] && units[i + 1]
            <= 0xDFFF {
            let lo = units[i + 1];
            assert(rest[1] == lo);
            let scalar: u32 = 0x10000 + (u as u32 - 0xD800) * 0x400 + (lo as u32 - 0xDC00);
            assert(scalar == surrogate_pair_scalar(u, lo));
            let c = match char_from_scalar(scalar) {
                Some(ch) => ch,
                None => '\u{FFFD}',
            };
            proof {
                vstd::utf8::char_u32_cast(c, scalar);
                assert(rest.skip(2) =~= w.skip(i + 2));
            }
            out.push(c);
            i = i + 2;
        } else if 0xD800 <= u && u <= 0xDFFF {
            out.push('\u{FFFD}');
            proof {
                assert(rest.skip(1) =~= w.skip(i + 1));
            }
            i = i + 1;
        } else {
            let c = match char_from_scalar(u as u32) {
                Some(ch) => ch,
                None => '\u{FFFD}',
            };
            proof {
                vstd::utf8::char_u32_cast(c, u as u32);
                assert(rest.skip(1) =~= w.skip(i + 1));
            }
            out.push(c);
            i = i + 1;
        }
    }
    assert(w.skip(n as int) =~= Seq::<u16>::empty());
    assert(out@ + Seq::<char>::empty() =~= out@);
    string_from_chars(&out)
}

/// Decoding the units of one character followed by more units gives that
/// character followed by the decoding of the rest.
proof fn lemma_decode_units(c: char, rest: Seq<u16>)
    ensures
        decode_utf16_lossy(utf16_units(c) + rest) == seq![c] + decode_utf16_lossy(rest),
{
    vstd::utf8::char_is_scalar(c);
    let u = c as u32;
    let all = utf16_units(c) + rest;
    if u < 0x10000 {
        assert(all[0] == u as u16);
        assert((all[0] as u32) == u);
        vstd::utf8::char_u32_cast(c, u);
        assert(all.skip(1) =~= rest);
        if all.len() >= 2 && is_high_surrogate(all[0]) && is_low_surrogate(all[1]) {
            assert(false);
        }
    } else {
        let v = u - 0x10000;
        assert(all[0] == (0xD800 + v / 0x400) as u16);
        assert(all[1] == (0xDC00 + v % 0x400) as u16);
        assert(surrogate_pair_scalar(all[0], all[1]) == u);
        vstd::utf8::char_u32_cast(c, u);
        assert(all.skip(2) =~= rest);
    }
}

proof fn lemma_decode_encode(s: Seq<char>)
    ensures
        decode_utf16_lossy(encode_utf16(s)) == s,
    decreases s.len(),
{
    if s.len() == 0 {
        assert(decode_utf16_lossy(Seq::<u16>::empty()) == Seq::<char>::empty());
    } else {
        lemma_decode_encode(s.drop_first());
        lemma_decode_units(s[0], encode_utf16(s.drop_first()));
        assert(seq![s[0]] + s.drop_first() =~= s);
    }
}

proof fn lemma_encode_has_no_nul(s: Seq<char>)
    requires
        !s.contains('\0'),
    ensures
        !encode_utf16(s).contains(0),
    decreases s.len(),
{
    if s.len() > 0 {
        assert(!s.drop_first().contains('\0')) by {
            if s.drop_first().contains('\0') {
                let k = choose|k: int| 0 <= k < s.drop_first().len() && s.drop_first()[k] == '\0';
                assert(s[k + 1] == '\0');
            }
        }
        lemma_encode_has_no_nul(s.drop_first());
        let c = s[0];
        assert(c != '\0') by {
            assert(s.contains(s[0]));
        }
        vstd::utf8::char_u32_cast(c, c as u32);
        assert(c as u32 != 0) by {
            if c as u32 == 0 {
                vstd::utf8::char_u32_cast('\0', 0);
            }
        }
        let units = utf16_units(c);
        let all = units + encode_utf16(s.drop_first());
        assert forall|k: int| 0 <= k < all.len() implies all[k] != 0 by {
            if k >= units.len() {
                assert(all[k] == encode_utf16(s.drop_first())[k - units.len()]);
            }
        }
    }
}

proof fn lemma_until_nul_terminated(u: Seq<u16>)
    requires
        !u.contains(0),
    ensures
        until_nul(u.push(0)) == u,
{
    assert forall|k: int| 0 <= k < u.len() implies u.push(0)[k] != 0 by {
        assert(u.push(0)[k] == u[k]);
        if u[k] == 0 {
            assert(u.contains(u[k]));
        }
    }
    lemma_until_nul_prefix(u.push(0), u.len() as int);
    assert(u.push(0).take(u.len() as int) =~= u);
}

/// Law: text without NUL characters, written as a NUL-terminated wide string
/// (`to_pcwstr`) and read back (`string_from_wide`), is the same text.
pub proof fn law_wide_round_trip(s: Seq<char>)
    requires
        !s.contains('\0'),
    ensures
        decode_utf16_lossy(until_nul(encode_utf16(s).push(0))) == s,
{
    lemma_encode_has_no_nul(s);
    lemma_until_nul_terminated(encode_utf16(s));
    lemma_decode_encode(s);
}

} // verus!
