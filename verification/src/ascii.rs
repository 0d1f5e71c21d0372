//! ASCII byte/string helpers: lowercase hex rendering, plain byte
//! comparison, and the one conversion from verified ASCII bytes to a
//! `String`.

use vstd::prelude::*;
use vstd::utf8::{encode_utf8, encode_utf8_decode_utf8, is_ascii_chars, is_ascii_chars_encode_utf8};

verus! {

/// Append all of `s` to `out`.
pub fn push_bytes(out: &mut Vec<u8>, s: &[u8])
    ensures
        final(out)@ == old(out)@ + s@,
{
    let n = s.len();
    let mut i: usize = 0;
    while i < n
        invariant
            n == s@.len(),
            0 <= i <= n,
            out@ == old(out)@ + s@.take(i as int),
        decreases n - i,
    {
        out.push(s[i]);
        proof {
            assert(out@ =~= old(out)@ + s@.take(i + 1 as int));
        }
        i = i + 1;
    }
    proof {
        assert(s@.take(n as int) =~= s@);
    }
}

/// String-slice equality, decided on the UTF-8 bytes.  Two string
/// slices are equal exactly when their UTF-8 encodings are, because
/// UTF-8 decoding inverts encoding.
pub fn str_eq(a: &str, b: &str) -> (r: bool)
    ensures
        r == (a@ == b@),
{
    let r = bytes_eq(a.as_bytes(), b.as_bytes());
    proof {
        if encode_utf8(a@) == encode_utf8(b@) {
            encode_utf8_decode_utf8(a@);
            encode_utf8_decode_utf8(b@);
        }
    }
    r
}

/// The ASCII code of the lowercase hex digit for `n` (meaningful for
/// `n < 16`).
pub open spec fn hex_digit(n: u8) -> u8 {
    if n < 10 {
        (48 + n) as u8
    } else {
        (87 + n) as u8
    }
}

/// Lowercase hex rendering of `b`, two digits per byte, as ASCII bytes.
pub open spec fn hex_bytes_of(b: Seq<u8>) -> Seq<u8>
    decreases b.len(),
{
    if b.len() == 0 {
        Seq::empty()
    } else {
        hex_bytes_of(b.drop_last()) + seq![hex_digit(b.last() / 16), hex_digit(b.last() % 16)]
    }
}

/// Lowercase hex rendering of `b` as characters.
pub open spec fn hex_chars_of(b: Seq<u8>) -> Seq<char> {
    hex_bytes_of(b).map_values(|x: u8| x as char)
}

/// Every byte of a hex rendering is a printable ASCII code.
pub proof fn lemma_hex_bytes_ascii(b: Seq<u8>)
    ensures
        forall|i: int| 0 <= i < hex_bytes_of(b).len() ==> 48 <= #[trigger] hex_bytes_of(b)[i] < 123,
        hex_bytes_of(b).len() == 2 * b.len(),
    decreases b.len(),
{
    if b.len() > 0 {
        lemma_hex_bytes_ascii(b.drop_last());
    }
}

/// Distinct byte sequences have distinct hex renderings.
pub proof fn lemma_hex_bytes_injective(a: Seq<u8>, b: Seq<u8>)
    requires
        hex_bytes_of(a) == hex_bytes_of(b),
    ensures
        a == b,
    decreases a.len(),
{
    lemma_hex_bytes_ascii(a);
    lemma_hex_bytes_ascii(b);
    if a.len() == 0 {
        assert(b.len() == 0);
        assert(a =~= b);
    } else {
        assert(b.len() == a.len());
        let ha = hex_bytes_of(a);
        let x = a.last();
        let y = b.last();
        assert(ha[ha.len() - 2] == hex_digit(x / 16) && ha[ha.len() - 1] == hex_digit(x % 16));
        assert(ha[ha.len() - 2] == hex_digit(y / 16) && ha[ha.len() - 1] == hex_digit(y % 16));
        assert(x / 16 == y / 16 && x % 16 == y % 16);
        assert(x == y);
        assert(hex_bytes_of(a.drop_last()) =~= ha.take(ha.len() - 2));
        assert(hex_bytes_of(b.drop_last()) =~= ha.take(ha.len() - 2));
        lemma_hex_bytes_injective(a.drop_last(), b.drop_last());
        assert(a =~= a.drop_last().push(x));
        assert(b =~= b.drop_last().push(y));
    }
}

/// Distinct byte sequences have distinct hex renderings, at the
/// character level too.
pub proof fn lemma_hex_chars_injective(a: Seq<u8>, b: Seq<u8>)
    requires
        hex_chars_of(a) == hex_chars_of(b),
    ensures
        a == b,
{
    lemma_hex_bytes_ascii(a);
    lemma_hex_bytes_ascii(b);
    lemma_ascii_bytes_chars(hex_bytes_of(a));
    lemma_ascii_bytes_chars(hex_bytes_of(b));
    assert(encode_utf8(hex_chars_of(a)) =~= hex_bytes_of(a));
    assert(encode_utf8(hex_chars_of(b)) =~= hex_bytes_of(b));
    lemma_hex_bytes_injective(a, b);
}

/// Relies on `String::from_utf8`: ASCII bytes are valid UTF-8 and
/// decode to one character per byte, each the character with that code.
#[verifier::external_body]
pub fn ascii_to_string(b: Vec<u8>) -> (r: String)
    requires
        forall|i: int| 0 <= i < b@.len() ==> b@[i] < 128,
    ensures
        r@.len() == b@.len(),
        forall|i: int| 0 <= i < b@.len() ==> r@[i] == b@[i] as char,
{
    String::from_utf8(b).expect("ASCII bytes are valid UTF-8")
}

/// Plain byte-slice equality (not constant-time; for non-secret data).
pub fn bytes_eq(a: &[u8], b: &[u8]) -> (r: bool)
    ensures
        r == (a@ == b@),
{
    if a.len() != b.len() {
        proof {
            assert(a@.len() != b@.len());
        }
        return false;
    }
    let n = a.len();
    let mut i: usize = 0;
    while i < n
        invariant
            n == a@.len() == b@.len(),
            0 <= i <= n,
            forall|j: int| 0 <= j < i ==> a@[j] == b@[j],
        decreases n - i,
    {
        if a[i] != b[i] {
            return false;
        }
        i = i + 1;
    }
    proof {
        assert(a@ =~= b@);
    }
    true
}

/// Lowercase hex rendering of `bytes`, two digits per byte.
pub fn hex_encode(bytes: &[u8]) -> (r: String)
    ensures
        r@ == hex_chars_of(bytes@),
{
    let mut out: Vec<u8> = Vec::new();
    write_hex(bytes, &mut out);
    proof {
        lemma_hex_bytes_ascii(bytes@);
    }
    let s = ascii_to_string(out);
    proof {
        assert(s@ =~= hex_chars_of(bytes@));
    }
    s
}

/// Append the hex rendering of `bytes` to `out`.
pub fn write_hex(bytes: &[u8], out: &mut Vec<u8>)
    ensures
        final(out)@ == old(out)@ + hex_bytes_of(bytes@),
{
    let n = bytes.len();
    let mut i: usize = 0;
    while i < n
        invariant
            n == bytes@.len(),
            0 <= i <= n,
            out@ == old(out)@ + hex_bytes_of(bytes@.take(i as int)),
        decreases n - i,
    {
        let b = bytes[i];
        out.push(hex_digit_exec(b / 16));
        out.push(hex_digit_exec(b % 16));
        proof {
            assert(bytes@.take(i + 1 as int).drop_last() =~= bytes@.take(i as int));
            assert(bytes@.take(i + 1 as int).last() == bytes@[i as int]);
            assert(out@ =~= old(out)@ + hex_bytes_of(bytes@.take(i + 1 as int)));
        }
        i = i + 1;
    }
    proof {
        assert(bytes@.take(n as int) =~= bytes@);
    }
}

/// ASCII codes, read as characters, encode back to the same bytes.
pub proof fn lemma_ascii_bytes_chars(b: Seq<u8>)
    requires
        forall|i: int| 0 <= i < b.len() ==> b[i] < 128,
    ensures
        is_ascii_chars(b.map_values(|x: u8| x as char)),
        encode_utf8(b.map_values(|x: u8| x as char)) =~= b,
{
    let chars = b.map_values(|x: u8| x as char);
    assert(forall|i: int| 0 <= i < chars.len() ==> '\0' <= #[trigger] chars[i] <= '\u{7f}');
    is_ascii_chars_encode_utf8(chars);
    assert(forall|i: int|
        0 <= i < b.len() ==> #[trigger] encode_utf8(chars)[i] == chars[i] as u8);
    assert(forall|i: int| 0 <= i < b.len() ==> chars[i] as u8 == b[i]);
}

/// Executable form of [`hex_digit`].
pub fn hex_digit_exec(n: u8) -> (r: u8)
    requires
        n < 16,
    ensures
        r == hex_digit(n),
{
    if n < 10 {
        48 + n
    } else {
        87 + n
    }
}

} // verus!
