//! A specification-level JSON reader that inverts the serializer.
//!
//! [`parse_value`] reads one document from the front of a byte
//! sequence and returns it with the unread remainder.  Its purpose is
//! the round-trip theorem [`lemma_parse_jser`]: parsing a serialized
//! document yields exactly that document — so serialization loses
//! nothing, and distinct documents serialize differently
//! ([`lemma_jser_injective`]).  The reader is deliberately strict (no
//! whitespace, lowercase `\u00XX` escapes only): it accepts what the
//! serializer emits, which is all the theorem needs.

use vstd::prelude::*;
use vstd::arithmetic::div_mod::lemma_fundamental_div_mod;
use vstd::utf8::decode_utf8;

use crate::ascii::hex_digit;
use crate::json::{
    dec_bytes_of, esc_byte, escape_bytes, jser, jser_list, jser_members, jstr_bytes, JsonVal,
};

verus! {

/// An ASCII decimal digit.
pub open spec fn is_digit(b: u8) -> bool {
    48 <= b <= 57
}

/// A lowercase ASCII hex digit.
pub open spec fn is_lower_hex(b: u8) -> bool {
    (48 <= b <= 57) || (97 <= b <= 102)
}

/// The value of a lowercase hex digit.
pub open spec fn unhex(b: u8) -> int {
    if b <= 57 {
        b - 48
    } else {
        b - 87
    }
}

/// Read digits from the front of `b` into an accumulated value; stop
/// at the first non-digit.
pub open spec fn parse_digits(b: Seq<u8>, acc: int) -> (int, Seq<u8>)
    decreases b.len(),
{
    if b.len() > 0 && is_digit(b[0]) {
        parse_digits(b.drop_first(), acc * 10 + (b[0] - 48))
    } else {
        (acc, b)
    }
}

/// Prepend one decoded content byte to a string-reading outcome.
pub open spec fn prepend_str_byte(o: Option<(Seq<u8>, Seq<u8>)>, x: u8) -> Option<
    (Seq<u8>, Seq<u8>),
> {
    match o {
        Some((s, r)) => Some((seq![x] + s, r)),
        None => None,
    }
}

/// Read string content up to the closing quote, undoing the escapes
/// the serializer writes; the opening quote is already consumed.
/// Returns the content's UTF-8 bytes and the remainder after the
/// closing quote.
pub open spec fn parse_str_bytes(b: Seq<u8>) -> Option<(Seq<u8>, Seq<u8>)>
    decreases b.len(),
{
    if b.len() == 0 {
        None
    } else if b[0] == 34 {
        Some((Seq::empty(), b.drop_first()))
    } else if b[0] == 92 {
        if b.len() < 2 {
            None
        } else {
            let e = b[1];
            if e == 34 || e == 92 {
                prepend_str_byte(parse_str_bytes(b.skip(2)), e)
            } else if e == 98 {
                prepend_str_byte(parse_str_bytes(b.skip(2)), 8)
            } else if e == 116 {
                prepend_str_byte(parse_str_bytes(b.skip(2)), 9)
            } else if e == 110 {
                prepend_str_byte(parse_str_bytes(b.skip(2)), 10)
            } else if e == 102 {
                prepend_str_byte(parse_str_bytes(b.skip(2)), 12)
            } else if e == 114 {
                prepend_str_byte(parse_str_bytes(b.skip(2)), 13)
            } else if e == 117 {
                if b.len() >= 6 && b[2] == 48 && b[3] == 48 && is_lower_hex(b[4]) && is_lower_hex(
                    b[5],
                ) {
                    prepend_str_byte(
                        parse_str_bytes(b.skip(6)),
                        (16 * unhex(b[4]) + unhex(b[5])) as u8,
                    )
                } else {
                    None
                }
            } else {
                None
            }
        }
    } else {
        prepend_str_byte(parse_str_bytes(b.drop_first()), b[0])
    }
}

/// Read one document from the front of `b`.
pub open spec fn parse_value(b: Seq<u8>) -> Option<(JsonVal, Seq<u8>)>
    decreases b.len(), 0nat,
{
    if b.len() == 0 {
        None
    } else if b[0] == 110 {  // null
        if b.len() >= 4 && b[1] == 117 && b[2] == 108 && b[3] == 108 {
            Some((JsonVal::Null, b.skip(4)))
        } else {
            None
        }
    } else if b[0] == 116 {  // true
        if b.len() >= 4 && b[1] == 114 && b[2] == 117 && b[3] == 101 {
            Some((JsonVal::Bool(true), b.skip(4)))
        } else {
            None
        }
    } else if b[0] == 102 {  // false
        if b.len() >= 5 && b[1] == 97 && b[2] == 108 && b[3] == 115 && b[4] == 101 {
            Some((JsonVal::Bool(false), b.skip(5)))
        } else {
            None
        }
    } else if b[0] == 34 {  // a string
        match parse_str_bytes(b.drop_first()) {
            Some((s, r)) => Some((JsonVal::Str(decode_utf8(s)), r)),
            None => None,
        }
    } else if b[0] == 91 {  // an array
        if b.len() >= 2 && b[1] == 93 {
            Some((JsonVal::Arr(Seq::empty()), b.skip(2)))
        } else {
            match parse_elems(b.drop_first()) {
                Some((xs, r)) => Some((JsonVal::Arr(xs), r)),
                None => None,
            }
        }
    } else if b[0] == 123 {  // an object
        if b.len() >= 2 && b[1] == 125 {
            Some((JsonVal::Obj(Seq::empty()), b.skip(2)))
        } else {
            match parse_members(b.drop_first()) {
                Some((fs, r)) => Some((JsonVal::Obj(fs), r)),
                None => None,
            }
        }
    } else if is_digit(b[0]) {  // a non-negative integer
        let (n, r) = parse_digits(b, 0);
        Some((JsonVal::Int(n), r))
    } else if b[0] == 45 {  // a negative integer
        if b.len() >= 2 && is_digit(b[1]) {
            let (n, r) = parse_digits(b.drop_first(), 0);
            Some((JsonVal::Int(-n), r))
        } else {
            None
        }
    } else {
        None
    }
}

/// Read `v ("," v)* "]"`: the elements of a non-empty array, with the
/// opening bracket already consumed.
pub open spec fn parse_elems(b: Seq<u8>) -> Option<(Seq<JsonVal>, Seq<u8>)>
    decreases b.len(), 1nat,
{
    match parse_value(b) {
        None => None,
        Some((v, r)) => if r.len() < b.len() && r.len() > 0 {
            if r[0] == 44 {
                match parse_elems(r.drop_first()) {
                    Some((xs, r2)) => Some((seq![v] + xs, r2)),
                    None => None,
                }
            } else if r[0] == 93 {
                Some((seq![v], r.drop_first()))
            } else {
                None
            }
        } else {
            None
        },
    }
}

/// Read `"k":v ("," "k":v)* "}"`: the members of a non-empty object,
/// with the opening brace already consumed.
pub open spec fn parse_members(b: Seq<u8>) -> Option<(Seq<(Seq<char>, JsonVal)>, Seq<u8>)>
    decreases b.len(), 1nat,
{
    if b.len() == 0 || b[0] != 34 {
        None
    } else {
        match parse_str_bytes(b.drop_first()) {
            None => None,
            Some((k, r1)) => if r1.len() < b.len() && r1.len() > 0 && r1[0] == 58 {
                match parse_value(r1.drop_first()) {
                    None => None,
                    Some((v, r3)) => if r3.len() < b.len() && r3.len() > 0 {
                        if r3[0] == 44 {
                            match parse_members(r3.drop_first()) {
                                Some((fs, r4)) => Some(
                                    (seq![(decode_utf8(k), v)] + fs, r4),
                                ),
                                None => None,
                            }
                        } else if r3[0] == 125 {
                            Some((seq![(decode_utf8(k), v)], r3.drop_first()))
                        } else {
                            None
                        }
                    } else {
                        None
                    },
                }
            } else {
                None
            },
        }
    }
}

/// Powers of ten.
pub open spec fn pow10(k: nat) -> int
    decreases k,
{
    if k == 0 {
        1
    } else {
        10 * pow10((k - 1) as nat)
    }
}

/// A decimal rendering is non-empty and all digits.
proof fn lemma_dec_bytes_digits(n: nat)
    ensures
        dec_bytes_of(n).len() >= 1,
        forall|i: int| 0 <= i < dec_bytes_of(n).len() ==> is_digit(#[trigger] dec_bytes_of(n)[i]),
    decreases n,
{
    if n >= 10 {
        lemma_dec_bytes_digits(n / 10);
    }
}

/// Reading the decimal rendering of `n` followed by anything shifts
/// the accumulator past `n`'s digits and continues with the rest.
proof fn lemma_parse_digits_dec(n: nat, rest: Seq<u8>, acc: int)
    ensures
        parse_digits(dec_bytes_of(n) + rest, acc) == parse_digits(
            rest,
            acc * pow10(dec_bytes_of(n).len() as nat) + n,
        ),
    decreases n,
{
    lemma_dec_bytes_digits(n);
    if n < 10 {
        let b = dec_bytes_of(n) + rest;
        assert(b[0] == (48 + n) as u8);
        assert(b.drop_first() =~= rest);
        assert(pow10(0) == 1);
        assert(pow10(1) == 10);
    } else {
        let d = (48 + n % 10) as u8;
        let k = dec_bytes_of(n / 10).len() as nat;
        assert(dec_bytes_of(n) + rest =~= dec_bytes_of(n / 10) + (seq![d] + rest));
        lemma_parse_digits_dec(n / 10, seq![d] + rest, acc);
        let mid = acc * pow10(k) + n / 10;
        assert((seq![d] + rest)[0] == d);
        assert((seq![d] + rest).drop_first() =~= rest);
        assert(parse_digits(seq![d] + rest, mid) == parse_digits(rest, mid * 10 + (d - 48)));
        lemma_fundamental_div_mod(n as int, 10);
        assert(mid * 10 + n % 10 == acc * (10 * pow10(k)) + n) by (nonlinear_arith)
            requires
                mid == acc * pow10(k) + n / 10,
                n == 10 * (n as int / 10) + n as int % 10,
        ;
        assert(dec_bytes_of(n).len() == k + 1);
        assert(pow10(k + 1) == 10 * pow10(k));
    }
}

/// Escaping distributes over concatenation.
proof fn lemma_escape_append(a: Seq<u8>, b: Seq<u8>)
    ensures
        escape_bytes(a + b) == escape_bytes(a) + escape_bytes(b),
    decreases b.len(),
{
    if b.len() == 0 {
        assert(a + b =~= a);
        assert(escape_bytes(a) + escape_bytes(b) =~= escape_bytes(a));
    } else {
        assert((a + b).drop_last() =~= a + b.drop_last());
        assert((a + b).last() == b.last());
        lemma_escape_append(a, b.drop_last());
        assert(escape_bytes(a) + escape_bytes(b.drop_last()) + esc_byte(b.last()) =~= escape_bytes(
            a,
        ) + escape_bytes(b));
    }
}

/// Hex digits written by the serializer read back to their value.
proof fn lemma_hex_digit_inverse(n: u8)
    requires
        n < 16,
    ensures
        is_lower_hex(hex_digit(n)),
        unhex(hex_digit(n)) == n as int,
{
}

/// Reading string content undoes escaping: the escaped form of any
/// content, a closing quote, and anything after it reads back as that
/// content and that remainder.
proof fn lemma_parse_str_escaped(x: Seq<u8>, rest: Seq<u8>)
    ensures
        parse_str_bytes(escape_bytes(x) + seq![34u8] + rest) == Some((x, rest)),
    decreases x.len(),
{
    let b = escape_bytes(x) + seq![34u8] + rest;
    if x.len() == 0 {
        assert(b =~= seq![34u8] + rest);
        assert(b[0] == 34);
        assert(b.drop_first() =~= rest);
        assert(x =~= Seq::<u8>::empty());
    } else {
        let x0 = x[0];
        let xs = x.drop_first();
        assert(x =~= seq![x0] + xs);
        lemma_escape_append(seq![x0], xs);
        assert(escape_bytes(seq![x0]) =~= esc_byte(x0)) by {
            assert(seq![x0].drop_last() =~= Seq::<u8>::empty());
            assert(escape_bytes(seq![x0]) =~= escape_bytes(Seq::<u8>::empty()) + esc_byte(x0));
        }
        let tail = escape_bytes(xs) + seq![34u8] + rest;
        assert(b =~= esc_byte(x0) + tail);
        lemma_parse_str_escaped(xs, rest);
        if x0 == 34 || x0 == 92 {
            assert(b[0] == 92 && b[1] == x0);
            assert(b.skip(2) =~= tail);
        } else if x0 == 8 {
            assert(b[0] == 92 && b[1] == 98);
            assert(b.skip(2) =~= tail);
        } else if x0 == 9 {
            assert(b[0] == 92 && b[1] == 116);
            assert(b.skip(2) =~= tail);
        } else if x0 == 10 {
            assert(b[0] == 92 && b[1] == 110);
            assert(b.skip(2) =~= tail);
        } else if x0 == 12 {
            assert(b[0] == 92 && b[1] == 102);
            assert(b.skip(2) =~= tail);
        } else if x0 == 13 {
            assert(b[0] == 92 && b[1] == 114);
            assert(b.skip(2) =~= tail);
        } else if x0 < 32 {
            assert(b[0] == 92 && b[1] == 117 && b[2] == 48 && b[3] == 48);
            assert(b[4] == hex_digit(x0 / 16) && b[5] == hex_digit(x0 % 16));
            lemma_hex_digit_inverse(x0 / 16);
            lemma_hex_digit_inverse(x0 % 16);
            assert((16 * unhex(b[4]) + unhex(b[5])) as u8 == x0);
            assert(b.skip(6) =~= tail);
        } else {
            assert(esc_byte(x0) =~= seq![x0]);
            assert(b[0] == x0);
            assert(b[0] != 34 && b[0] != 92);
            assert(b.drop_first() =~= tail);
        }
        assert(seq![x0] + xs =~= x);
    }
}

/// A serialized document is non-empty, and its first byte is none of
/// the delimiters that close or separate a surrounding structure.
proof fn lemma_jser_head(v: JsonVal)
    ensures
        jser(v).len() >= 1,
        jser(v)[0] != 44,
        jser(v)[0] != 58,
        jser(v)[0] != 93,
        jser(v)[0] != 125,
        !is_digit(jser(v)[0]) || v is Int,
{
    match v {
        JsonVal::Int(n) => {
            if n >= 0 {
                lemma_dec_bytes_digits(n as nat);
                assert(jser(v) =~= dec_bytes_of(n as nat));
            } else {
                assert(jser(v)[0] == 45);
            }
        },
        JsonVal::Str(s) => {
            assert(jser(v)[0] == 34);
        },
        JsonVal::Arr(xs) => {
            assert(jser(v)[0] == 91);
        },
        JsonVal::Obj(fs) => {
            assert(jser(v)[0] == 123);
        },
        _ => {},
    }
}

/// Front decomposition of a serialized element list.
proof fn lemma_jser_list_front(xs: Seq<JsonVal>)
    requires
        xs.len() >= 2,
    ensures
        jser_list(xs) == jser(xs[0]) + seq![44u8] + jser_list(xs.drop_first()),
    decreases xs.len(),
{
    if xs.len() == 2 {
        assert(xs.drop_last() =~= seq![xs[0]]);
        assert(xs.drop_first() =~= seq![xs[1]]);
        assert(jser_list(seq![xs[0]]) == jser(xs[0]));
        assert(jser_list(seq![xs[1]]) == jser(xs[1]));
        assert(jser_list(xs) =~= jser(xs[0]) + seq![44u8] + jser_list(xs.drop_first()));
    } else {
        lemma_jser_list_front(xs.drop_last());
        assert(xs.drop_last().drop_first() =~= xs.drop_first().drop_last());
        assert(xs.drop_last()[0] == xs[0]);
        assert(xs.drop_first().last() == xs.last());
        assert(jser_list(xs) == jser_list(xs.drop_last()) + seq![44u8] + jser(xs.last()));
        assert(jser_list(xs.drop_first()) == jser_list(xs.drop_first().drop_last()) + seq![44u8]
            + jser(xs.drop_first().last()));
        assert(jser_list(xs) =~= jser(xs[0]) + seq![44u8] + jser_list(xs.drop_first()));
    }
}

/// Front decomposition of a serialized member list.
proof fn lemma_jser_members_front(fs: Seq<(Seq<char>, JsonVal)>)
    requires
        fs.len() >= 2,
    ensures
        jser_members(fs) == jstr_bytes(fs[0].0) + seq![58u8] + jser(fs[0].1) + seq![44u8]
            + jser_members(fs.drop_first()),
    decreases fs.len(),
{
    if fs.len() == 2 {
        assert(fs.drop_last() =~= seq![fs[0]]);
        assert(fs.drop_first() =~= seq![fs[1]]);
        assert(jser_members(seq![fs[0]]) == jstr_bytes(fs[0].0) + seq![58u8] + jser(fs[0].1));
        assert(jser_members(seq![fs[1]]) == jstr_bytes(fs[1].0) + seq![58u8] + jser(fs[1].1));
        assert(jser_members(fs) =~= jstr_bytes(fs[0].0) + seq![58u8] + jser(fs[0].1) + seq![44u8]
            + jser_members(fs.drop_first()));
    } else {
        lemma_jser_members_front(fs.drop_last());
        assert(fs.drop_last().drop_first() =~= fs.drop_first().drop_last());
        assert(fs.drop_last()[0] == fs[0]);
        assert(fs.drop_first().last() == fs.last());
        assert(jser_members(fs) == jser_members(fs.drop_last()) + seq![44u8] + jstr_bytes(
            fs.last().0,
        ) + seq![58u8] + jser(fs.last().1));
        assert(jser_members(fs.drop_first()) == jser_members(fs.drop_first().drop_last())
            + seq![44u8] + jstr_bytes(fs.drop_first().last().0) + seq![58u8] + jser(
            fs.drop_first().last().1,
        ));
        assert(jser_members(fs) =~= jstr_bytes(fs[0].0) + seq![58u8] + jser(fs[0].1) + seq![44u8]
            + jser_members(fs.drop_first()));
    }
}

/// Round trip for the atoms: null, booleans, integers and strings.
proof fn lemma_parse_jser_atom(v: JsonVal, rest: Seq<u8>)
    requires
        rest.len() == 0 || !is_digit(rest[0]),
        v is Null || v is Bool || v is Int || v is Str,
    ensures
        parse_value(jser(v) + rest) == Some((v, rest)),
{
    let b = jser(v) + rest;
    match v {
        JsonVal::Null => {
            assert(b[0] == 110 && b[1] == 117 && b[2] == 108 && b[3] == 108);
            assert(b.skip(4) == rest) by {
                assert(b.skip(4) =~= rest);
            }
            assert(parse_value(b) == Some((JsonVal::Null, rest)));
        },
        JsonVal::Bool(t) => {
            if t {
                assert(b[0] == 116 && b[1] == 114 && b[2] == 117 && b[3] == 101);
                assert(b.skip(4) == rest) by {
                    assert(b.skip(4) =~= rest);
                }
                assert(parse_value(b) == Some((JsonVal::Bool(true), rest)));
            } else {
                assert(b[0] == 102 && b[1] == 97 && b[2] == 108 && b[3] == 115 && b[4] == 101);
                assert(b.skip(5) == rest) by {
                    assert(b.skip(5) =~= rest);
                }
                assert(parse_value(b) == Some((JsonVal::Bool(false), rest)));
            }
        },
        JsonVal::Int(n) => {
            if n >= 0 {
                let m = n as nat;
                lemma_dec_bytes_digits(m);
                assert(jser(v) == dec_bytes_of(m));
                assert(is_digit(b[0]));
                assert(b[0] != 110 && b[0] != 116 && b[0] != 102 && b[0] != 34 && b[0] != 91
                    && b[0] != 123);
                lemma_parse_digits_dec(m, rest, 0);
                assert(dec_bytes_of(m) + rest =~= b);
                assert(0 * pow10(dec_bytes_of(m).len() as nat) == 0);
                assert(parse_digits(rest, n as int) == (n as int, rest));
                assert(parse_value(b) == Some((JsonVal::Int(n as int), rest)));
            } else {
                let m = (-n) as nat;
                lemma_dec_bytes_digits(m);
                assert(jser(v) == seq![45u8] + dec_bytes_of(m));
                assert(b[0] == 45);
                assert(b[1] == dec_bytes_of(m)[0]);
                assert(is_digit(b[1]));
                assert(b.drop_first() =~= dec_bytes_of(m) + rest);
                lemma_parse_digits_dec(m, rest, 0);
                assert(0 * pow10(dec_bytes_of(m).len() as nat) == 0);
                assert(parse_digits(rest, m as int) == (m as int, rest));
                assert(-(m as int) == n);
                assert(parse_value(b) == Some((JsonVal::Int(n), rest)));
            }
        },
        JsonVal::Str(s) => {
            assert(jser(v) == jstr_bytes(s));
            assert(b[0] == 34);
            assert(b.drop_first() =~= escape_bytes(vstd::utf8::encode_utf8(s)) + seq![34u8]
                + rest);
            lemma_parse_str_escaped(vstd::utf8::encode_utf8(s), rest);
            vstd::utf8::encode_utf8_decode_utf8(s);
            assert(parse_value(b) == Some((JsonVal::Str(s), rest)));
        },
        _ => {},
    }
}

/// The round-trip theorem: reading a serialized document followed by
/// any remainder (that cannot extend a trailing number) yields exactly
/// that document and that remainder.
pub proof fn lemma_parse_jser(v: JsonVal, rest: Seq<u8>)
    requires
        rest.len() == 0 || !is_digit(rest[0]),
    ensures
        parse_value(jser(v) + rest) == Some((v, rest)),
    decreases v, 2nat,
{
    match v {
        JsonVal::Arr(xs) => {
            lemma_parse_jser_arr(xs, rest);
            assert(jser(v) == jser(JsonVal::Arr(xs)));
        },
        JsonVal::Obj(fs) => {
            lemma_parse_jser_obj(fs, rest);
            assert(jser(v) == jser(JsonVal::Obj(fs)));
        },
        _ => {
            lemma_parse_jser_atom(v, rest);
        },
    }
}

/// Round trip for arrays.
proof fn lemma_parse_jser_arr(xs: Seq<JsonVal>, rest: Seq<u8>)
    requires
        rest.len() == 0 || !is_digit(rest[0]),
    ensures
        parse_value(jser(JsonVal::Arr(xs)) + rest) == Some((JsonVal::Arr(xs), rest)),
    decreases xs, 1nat,
{
    let v = JsonVal::Arr(xs);
    let b = jser(v) + rest;
    assert(b[0] == 91);
    if xs.len() == 0 {
        assert(jser_list(xs) == Seq::<u8>::empty());
        assert(jser(v) =~= seq![91u8, 93u8]);
        assert(b[1] == 93);
        assert(b.skip(2) == rest) by {
            assert(b.skip(2) =~= rest);
        }
        assert(xs == Seq::<JsonVal>::empty());
        assert(parse_value(b) == Some((JsonVal::Arr(Seq::empty()), rest)));
    } else {
        if xs.len() == 1 {
            assert(jser_list(xs) == jser(xs[0]));
        } else {
            lemma_jser_list_front(xs);
        }
        lemma_jser_head(xs[0]);
        assert(b[1] == jser(xs[0])[0]);
        assert(!(b.len() >= 2 && b[1] == 93));
        assert(b.drop_first() =~= jser_list(xs) + seq![93u8] + rest);
        lemma_parse_list(xs, rest);
        assert(parse_value(b) == Some((JsonVal::Arr(xs), rest)));
    }
}

/// Round trip for objects.
proof fn lemma_parse_jser_obj(fs: Seq<(Seq<char>, JsonVal)>, rest: Seq<u8>)
    requires
        rest.len() == 0 || !is_digit(rest[0]),
    ensures
        parse_value(jser(JsonVal::Obj(fs)) + rest) == Some((JsonVal::Obj(fs), rest)),
    decreases fs, 1nat,
{
    let v = JsonVal::Obj(fs);
    let b = jser(v) + rest;
    assert(b[0] == 123);
    if fs.len() == 0 {
        assert(jser_members(fs) == Seq::<u8>::empty());
        assert(jser(v) =~= seq![123u8, 125u8]);
        assert(b[1] == 125);
        assert(b.skip(2) == rest) by {
            assert(b.skip(2) =~= rest);
        }
        assert(fs == Seq::<(Seq<char>, JsonVal)>::empty());
        assert(parse_value(b) == Some((JsonVal::Obj(Seq::empty()), rest)));
    } else {
        if fs.len() == 1 {
            assert(jser_members(fs) == jstr_bytes(fs[0].0) + seq![58u8] + jser(fs[0].1));
        } else {
            lemma_jser_members_front(fs);
        }
        assert(b[1] == 34);
        assert(!(b.len() >= 2 && b[1] == 125));
        assert(b.drop_first() =~= jser_members(fs) + seq![125u8] + rest);
        lemma_parse_members_jser(fs, rest);
        assert(parse_value(b) == Some((JsonVal::Obj(fs), rest)));
    }
}

/// Reading a serialized non-empty element list, the closing bracket
/// and a remainder yields the elements and the remainder.
proof fn lemma_parse_list(xs: Seq<JsonVal>, rest: Seq<u8>)
    requires
        xs.len() >= 1,
    ensures
        parse_elems(jser_list(xs) + seq![93u8] + rest) == Some((xs, rest)),
    decreases xs, 0nat,
{
    let b = jser_list(xs) + seq![93u8] + rest;
    if xs.len() == 1 {
        assert(jser_list(xs) == jser(xs[0]));
        let r = seq![93u8] + rest;
        assert(b =~= jser(xs[0]) + r);
        lemma_parse_jser(xs[0], r);
        lemma_jser_head(xs[0]);
        assert(r.len() < b.len());
        assert(r[0] == 93);
        assert(r.drop_first() =~= rest);
        assert(seq![xs[0]] =~= xs);
    } else {
        lemma_jser_list_front(xs);
        let r = seq![44u8] + (jser_list(xs.drop_first()) + seq![93u8] + rest);
        assert(b =~= jser(xs[0]) + r);
        lemma_parse_jser(xs[0], r);
        lemma_jser_head(xs[0]);
        assert(r.len() < b.len());
        assert(r[0] == 44);
        assert(r.drop_first() =~= jser_list(xs.drop_first()) + seq![93u8] + rest);
        lemma_parse_list(xs.drop_first(), rest);
        assert(seq![xs[0]] + xs.drop_first() =~= xs);
    }
}

/// Reading a serialized non-empty member list, the closing brace and
/// a remainder yields the members and the remainder.
proof fn lemma_parse_members_jser(fs: Seq<(Seq<char>, JsonVal)>, rest: Seq<u8>)
    requires
        fs.len() >= 1,
    ensures
        parse_members(jser_members(fs) + seq![125u8] + rest) == Some((fs, rest)),
    decreases fs, 0nat,
{
    let b = jser_members(fs) + seq![125u8] + rest;
    let k = fs[0].0;
    let v0 = fs[0].1;
    let kb = vstd::utf8::encode_utf8(k);
    if fs.len() == 1 {
        assert(jser_members(fs) == jstr_bytes(k) + seq![58u8] + jser(v0));
        let after_key = seq![58u8] + (jser(v0) + (seq![125u8] + rest));
        assert(b[0] == 34);
        assert(b.drop_first() =~= escape_bytes(kb) + seq![34u8] + after_key);
        lemma_parse_str_escaped(kb, after_key);
        assert(after_key.len() < b.len());
        assert(after_key[0] == 58);
        let r2 = seq![125u8] + rest;
        assert(after_key.drop_first() =~= jser(v0) + r2);
        lemma_parse_jser(v0, r2);
        lemma_jser_head(v0);
        assert(r2.len() < b.len());
        assert(r2[0] == 125);
        assert(r2.drop_first() =~= rest);
        vstd::utf8::encode_utf8_decode_utf8(k);
        assert(seq![(decode_utf8(kb), v0)] =~= fs);
    } else {
        lemma_jser_members_front(fs);
        let after_key = seq![58u8] + (jser(v0) + (seq![44u8] + (jser_members(fs.drop_first())
            + seq![125u8] + rest)));
        assert(b[0] == 34);
        assert(b.drop_first() =~= escape_bytes(kb) + seq![34u8] + after_key);
        lemma_parse_str_escaped(kb, after_key);
        assert(after_key.len() < b.len());
        assert(after_key[0] == 58);
        let r2 = seq![44u8] + (jser_members(fs.drop_first()) + seq![125u8] + rest);
        assert(after_key.drop_first() =~= jser(v0) + r2);
        lemma_parse_jser(v0, r2);
        lemma_jser_head(v0);
        assert(r2.len() < b.len());
        assert(r2[0] == 44);
        assert(r2.drop_first() =~= jser_members(fs.drop_first()) + seq![125u8] + rest);
        lemma_parse_members_jser(fs.drop_first(), rest);
        vstd::utf8::encode_utf8_decode_utf8(k);
        assert(seq![(decode_utf8(kb), v0)] + fs.drop_first() =~= fs);
    }
}

/// Serialization loses nothing: two documents with the same
/// serialization are the same document.
pub proof fn lemma_jser_injective(v1: JsonVal, v2: JsonVal)
    requires
        jser(v1) == jser(v2),
    ensures
        v1 == v2,
{
    lemma_parse_jser(v1, Seq::empty());
    lemma_parse_jser(v2, Seq::empty());
    assert(jser(v1) + Seq::<u8>::empty() =~= jser(v1));
    assert(jser(v2) + Seq::<u8>::empty() =~= jser(v2));
}

} // verus!
