//! Byte-level text building: appending literals and ranges, decimal
//! rendering, and the minimal JSON string escape used by the source map.

use vstd::prelude::*;
use vstd::string::StringSliceAdditionalSpecFns;

verus! {

/// The UTF-8 bytes of a string slice (shorthand used throughout contracts).
pub open spec fn lit(s: &str) -> Seq<u8> {
    s.spec_bytes()
}

/// The UTF-8 bytes of an owned string.
pub open spec fn str_bytes(s: String) -> Seq<u8> {
    vstd::utf8::encode_utf8(s@)
}

/// Append the UTF-8 bytes of `s` to `out`.
pub fn push_str_bytes(out: &mut Vec<u8>, s: &str)
    ensures
        final(out)@ == old(out)@ + s.spec_bytes(),
{
    out.extend_from_slice(s.as_bytes());
}

/// Append all of `src` to `out`.
pub fn push_bytes(out: &mut Vec<u8>, src: &Vec<u8>)
    ensures
        final(out)@ == old(out)@ + src@,
{
    out.extend_from_slice(src.as_slice());
}

/// Append `src[a..b]` to `out`.
pub fn push_range(out: &mut Vec<u8>, src: &Vec<u8>, a: usize, b: usize)
    requires
        a <= b <= src@.len(),
    ensures
        final(out)@ == old(out)@ + src@.subrange(a as int, b as int),
{
    let mut j: usize = a;
    while j < b
        invariant
            a <= j <= b <= src@.len(),
            out@ == old(out)@ + src@.subrange(a as int, j as int),
        decreases b - j,
    {
        out.push(src[j]);
        proof {
            assert(src@.subrange(a as int, j + 1 as int) =~= src@.subrange(a as int, j as int).push(
                src@[j as int],
            ));
        }
        j = j + 1;
    }
    proof {
        assert(out@ =~= old(out)@ + src@.subrange(a as int, b as int));
    }
}

/// `src[a..b]` as a fresh vector.
pub fn sub_vec(src: &Vec<u8>, a: usize, b: usize) -> (r: Vec<u8>)
    requires
        a <= b <= src@.len(),
    ensures
        r@ == src@.subrange(a as int, b as int),
{
    let mut out: Vec<u8> = Vec::new();
    push_range(&mut out, src, a, b);
    out
}

/// Copy a byte vector.
pub fn clone_bytes(v: &Vec<u8>) -> (r: Vec<u8>)
    ensures
        r@ == v@,
{
    let r = sub_vec(v, 0, v.len());
    proof {
        assert(v@.subrange(0, v@.len() as int) =~= v@);
    }
    r
}

/// True when the bytes of `b` spell exactly the string `s`.
pub fn bytes_eq_str(b: &Vec<u8>, s: &str) -> (r: bool)
    ensures
        r == (b@ == lit(s)),
{
    let sb: &[u8] = s.as_bytes();
    if b.len() != sb.len() {
        return false;
    }
    let n: usize = b.len();
    let mut j: usize = 0;
    while j < n
        invariant
            0 <= j <= n,
            n == b@.len() == sb@.len(),
            sb@ == lit(s),
            forall|k: int| 0 <= k < j ==> b@[k] == sb@[k],
        decreases n - j,
    {
        if b[j] != sb[j] {
            return false;
        }
        j = j + 1;
    }
    proof {
        assert(b@ =~= lit(s));
    }
    true
}

/// Decimal digits of `n`, most significant first.
pub open spec fn dec_bytes(n: nat) -> Seq<u8>
    decreases n,
{
    if n < 10 {
        seq![(48 + n) as u8]
    } else {
        dec_bytes(n / 10).push((48 + n % 10) as u8)
    }
}

/// Render `n` in decimal.
pub fn u128_to_dec(n: u128) -> (r: Vec<u8>)
    ensures
        r@ == dec_bytes(n as nat),
    decreases n,
{
    if n < 10 {
        let mut v: Vec<u8> = Vec::new();
        v.push(48 + n as u8);
        proof {
            assert(v@ =~= dec_bytes(n as nat));
        }
        v
    } else {
        let mut v = u128_to_dec(n / 10);
        v.push(48 + (n % 10) as u8);
        proof {
            assert(v@ =~= dec_bytes(n as nat));
        }
        v
    }
}

/// The JSON escape of one byte: the seven two-character escapes of the
/// source-map format; every other byte passes through.
pub open spec fn esc_byte(b: u8) -> Seq<u8> {
    if b == 34 {
        lit("\\\"")
    } else if b == 92 {
        lit("\\\\")
    } else if b == 8 {
        lit("\\b")
    } else if b == 12 {
        lit("\\f")
    } else if b == 10 {
        lit("\\n")
    } else if b == 13 {
        lit("\\r")
    } else if b == 9 {
        lit("\\t")
    } else {
        seq![b]
    }
}

/// The JSON escape of a byte string.
pub open spec fn json_escape(s: Seq<u8>) -> Seq<u8>
    decreases s.len(),
{
    if s.len() == 0 {
        Seq::empty()
    } else {
        json_escape(s.drop_last()) + esc_byte(s.last())
    }
}

/// Escape a byte string for inclusion in a double-quoted JSON string:
/// `"` and `\` are backslash-escaped, the five control characters
/// backspace, form feed, newline, carriage return and tab become their
/// two-character escapes, and every other byte passes through verbatim.
pub fn json_escape_string(s: &Vec<u8>) -> (r: Vec<u8>)
    ensures
        r@ == json_escape(s@),
{
    let mut out: Vec<u8> = Vec::new();
    let n: usize = s.len();
    let mut i: usize = 0;
    while i < n
        invariant
            0 <= i <= n,
            n == s@.len(),
            out@ == json_escape(s@.subrange(0, i as int)),
        decreases n - i,
    {
        let b: u8 = s[i];
        if b == 34 {
            push_str_bytes(&mut out, "\\\"");
        } else if b == 92 {
            push_str_bytes(&mut out, "\\\\");
        } else if b == 8 {
            push_str_bytes(&mut out, "\\b");
        } else if b == 12 {
            push_str_bytes(&mut out, "\\f");
        } else if b == 10 {
            push_str_bytes(&mut out, "\\n");
        } else if b == 13 {
            push_str_bytes(&mut out, "\\r");
        } else if b == 9 {
            push_str_bytes(&mut out, "\\t");
        } else {
            out.push(b);
        }
        proof {
            let pre = s@.subrange(0, i + 1 as int);
            assert(pre.drop_last() =~= s@.subrange(0, i as int));
            assert(pre.last() == s@[i as int]);
            assert(out@ =~= json_escape(pre));
        }
        i = i + 1;
    }
    proof {
        assert(s@.subrange(0, n as int) =~= s@);
    }
    out
}

} // verus!
