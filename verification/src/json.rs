//! A small JSON document model and a verified canonical serializer.
//!
//! Token headers and payloads must be serialized byte-for-byte the way
//! sibling SDKs serialize them: object members in insertion order,
//! integers in plain decimal, strings escaped exactly as common JSON
//! writers escape them (`"`, `\`, and control characters only, with
//! lowercase `\u00XX` for the rest of the control range), and no
//! whitespace.  [`jser`] states that encoding over the ghost model
//! [`JsonVal`], and [`write_json`] is proved to produce it.

use vstd::prelude::*;
use vstd::utf8::encode_utf8;

verus! {

/// Ghost model of a JSON document.
pub enum JsonVal {
    Null,
    Bool(bool),
    Int(int),
    Str(Seq<char>),
    Arr(Seq<JsonVal>),
    Obj(Seq<(Seq<char>, JsonVal)>),
}

/// An in-memory JSON document.  Object members keep their insertion
/// order, which the token encoder depends on.
#[derive(Debug)]
pub enum JsonValue {
    Null,
    Bool(bool),
    Int(i64),
    Str(String),
    Arr(Vec<JsonValue>),
    Obj(Vec<(String, JsonValue)>),
}

/// The ghost document an executable document stands for.
pub open spec fn jv_view(v: JsonValue) -> JsonVal
    decreases v,
{
    match v {
        JsonValue::Null => JsonVal::Null,
        JsonValue::Bool(b) => JsonVal::Bool(b),
        JsonValue::Int(n) => JsonVal::Int(n as int),
        JsonValue::Str(s) => JsonVal::Str(s@),
        JsonValue::Arr(xs) => JsonVal::Arr(jv_view_list(xs@)),
        JsonValue::Obj(fs) => JsonVal::Obj(jv_view_members(fs@)),
    }
}

pub open spec fn jv_view_list(xs: Seq<JsonValue>) -> Seq<JsonVal>
    decreases xs,
{
    if xs.len() == 0 {
        Seq::empty()
    } else {
        jv_view_list(xs.drop_last()).push(jv_view(xs.last()))
    }
}

pub open spec fn jv_view_members(fs: Seq<(String, JsonValue)>) -> Seq<(Seq<char>, JsonVal)>
    decreases fs,
{
    if fs.len() == 0 {
        Seq::empty()
    } else {
        jv_view_members(fs.drop_last()).push((fs.last().0@, jv_view(fs.last().1)))
    }
}

impl View for JsonValue {
    type V = JsonVal;

    open spec fn view(&self) -> JsonVal {
        jv_view(*self)
    }
}

/// Decimal digits of `n`, most significant first, as ASCII bytes.
pub open spec fn dec_bytes_of(n: nat) -> Seq<u8>
    decreases n,
{
    if n < 10 {
        seq![(48 + n) as u8]
    } else {
        dec_bytes_of(n / 10).push((48 + n % 10) as u8)
    }
}

/// Decimal rendering of a possibly negative integer.
pub open spec fn dec_bytes_int(n: int) -> Seq<u8> {
    if n >= 0 {
        dec_bytes_of(n as nat)
    } else {
        seq![45u8] + dec_bytes_of((-n) as nat)
    }
}

/// The escape sequence a JSON string writer emits for one byte of
/// UTF-8 input.  Only `"`, `\` and the control range are escaped;
/// everything else, including non-ASCII UTF-8, passes through.
pub open spec fn esc_byte(b: u8) -> Seq<u8> {
    if b == 34 {  // '"'
        seq![92u8, 34]
    } else if b == 92 {  // '\'
        seq![92u8, 92]
    } else if b == 8 {
        seq![92u8, 98]  // \b
    } else if b == 9 {
        seq![92u8, 116]  // \t
    } else if b == 10 {
        seq![92u8, 110]  // \n
    } else if b == 12 {
        seq![92u8, 102]  // \f
    } else if b == 13 {
        seq![92u8, 114]  // \r
    } else if b < 32 {
        seq![92u8, 117, 48, 48, crate::ascii::hex_digit(b / 16), crate::ascii::hex_digit(b % 16)]
    } else {
        seq![b]
    }
}

/// The escaped form of a whole UTF-8 byte sequence.
pub open spec fn escape_bytes(s: Seq<u8>) -> Seq<u8>
    decreases s.len(),
{
    if s.len() == 0 {
        Seq::empty()
    } else {
        escape_bytes(s.drop_last()) + esc_byte(s.last())
    }
}

/// A serialized JSON string: quote, escaped UTF-8 of the characters,
/// quote.
pub open spec fn jstr_bytes(s: Seq<char>) -> Seq<u8> {
    seq![34u8] + escape_bytes(encode_utf8(s)) + seq![34u8]
}

/// The canonical serialization of a JSON document: members in order,
/// no whitespace.
pub open spec fn jser(v: JsonVal) -> Seq<u8>
    decreases v,
{
    match v {
        JsonVal::Null => seq![110u8, 117, 108, 108],  // null
        JsonVal::Bool(b) => if b {
            seq![116u8, 114, 117, 101]  // true
        } else {
            seq![102u8, 97, 108, 115, 101]  // false
        },
        JsonVal::Int(n) => dec_bytes_int(n),
        JsonVal::Str(s) => jstr_bytes(s),
        JsonVal::Arr(xs) => seq![91u8] + jser_list(xs) + seq![93u8],
        JsonVal::Obj(fs) => seq![123u8] + jser_members(fs) + seq![125u8],
    }
}

/// Comma-separated serializations of a sequence of elements.
pub open spec fn jser_list(xs: Seq<JsonVal>) -> Seq<u8>
    decreases xs,
{
    if xs.len() == 0 {
        Seq::empty()
    } else if xs.len() == 1 {
        jser(xs[0])
    } else {
        jser_list(xs.drop_last()) + seq![44u8] + jser(xs.last())
    }
}

/// Comma-separated `"key":value` members.
pub open spec fn jser_members(fs: Seq<(Seq<char>, JsonVal)>) -> Seq<u8>
    decreases fs,
{
    if fs.len() == 0 {
        Seq::empty()
    } else if fs.len() == 1 {
        jstr_bytes(fs[0].0) + seq![58u8] + jser(fs[0].1)
    } else {
        jser_members(fs.drop_last()) + seq![44u8] + jstr_bytes(fs.last().0) + seq![58u8] + jser(
            fs.last().1,
        )
    }
}

/// Append the decimal digits of `n` to `out`.
pub fn write_dec_u64(n: u64, out: &mut Vec<u8>)
    ensures
        final(out)@ == old(out)@ + dec_bytes_of(n as nat),
    decreases n,
{
    if n < 10 {
        out.push(48 + n as u8);
    } else {
        write_dec_u64(n / 10, out);
        out.push(48 + (n % 10) as u8);
    }
}

/// Append the decimal rendering of `n` to `out`, with a leading `-`
/// when negative.
pub fn write_dec_i64(n: i64, out: &mut Vec<u8>)
    ensures
        final(out)@ == old(out)@ + dec_bytes_int(n as int),
{
    if n >= 0 {
        write_dec_u64(n as u64, out);
    } else {
        out.push(45);
        // Two's-complement-safe magnitude, valid for i64::MIN as well.
        let m: u64 = ((-(n + 1)) as u64) + 1;
        assert(m as nat == (-(n as int)) as nat);
        write_dec_u64(m, out);
    }
}

/// Append the escaped form of the UTF-8 bytes `s` to `out`.
pub fn write_escaped(s: &[u8], out: &mut Vec<u8>)
    ensures
        final(out)@ == old(out)@ + escape_bytes(s@),
{
    let n = s.len();
    let mut i: usize = 0;
    while i < n
        invariant
            n == s@.len(),
            0 <= i <= n,
            out@ == old(out)@ + escape_bytes(s@.take(i as int)),
        decreases n - i,
    {
        let b = s[i];
        if b == 34 {
            out.push(92);
            out.push(34);
        } else if b == 92 {
            out.push(92);
            out.push(92);
        } else if b == 8 {
            out.push(92);
            out.push(98);
        } else if b == 9 {
            out.push(92);
            out.push(116);
        } else if b == 10 {
            out.push(92);
            out.push(110);
        } else if b == 12 {
            out.push(92);
            out.push(102);
        } else if b == 13 {
            out.push(92);
            out.push(114);
        } else if b < 32 {
            out.push(92);
            out.push(117);
            out.push(48);
            out.push(48);
            out.push(crate::ascii::hex_digit_exec(b / 16));
            out.push(crate::ascii::hex_digit_exec(b % 16));
        } else {
            out.push(b);
        }
        proof {
            assert(s@.take(i + 1 as int).drop_last() =~= s@.take(i as int));
            assert(s@.take(i + 1 as int).last() == s@[i as int]);
            assert(out@ =~= old(out)@ + escape_bytes(s@.take(i + 1 as int)));
        }
        i = i + 1;
    }
    proof {
        assert(s@.take(n as int) =~= s@);
    }
}

/// Append `"..."`, the serialized form of the string `s`, to `out`.
pub fn write_json_str(s: &str, out: &mut Vec<u8>)
    ensures
        final(out)@ == old(out)@ + jstr_bytes(s@),
{
    out.push(34);
    write_escaped(s.as_bytes(), out);
    out.push(34);
    proof {
        assert(out@ =~= old(out)@ + jstr_bytes(s@));
    }
}

/// Append the canonical serialization of `v` to `out`.
pub fn write_json(v: &JsonValue, out: &mut Vec<u8>)
    ensures
        final(out)@ == old(out)@ + jser(v@),
    decreases *v,
{
    match v {
        JsonValue::Null => {
            out.push(110);
            out.push(117);
            out.push(108);
            out.push(108);
            proof {
                assert(out@ =~= old(out)@ + jser(v@));
            }
        },
        JsonValue::Bool(b) => {
            if *b {
                out.push(116);
                out.push(114);
                out.push(117);
                out.push(101);
            } else {
                out.push(102);
                out.push(97);
                out.push(108);
                out.push(115);
                out.push(101);
            }
            proof {
                assert(out@ =~= old(out)@ + jser(v@));
            }
        },
        JsonValue::Int(n) => {
            write_dec_i64(*n, out);
        },
        JsonValue::Str(s) => {
            write_json_str(s.as_str(), out);
        },
        JsonValue::Arr(xs) => {
            out.push(91);
            let n = xs.len();
            let mut i: usize = 0;
            while i < n
                invariant
                    n == xs@.len(),
                    0 <= i <= n,
                    out@ == old(out)@ + seq![91u8] + jser_list(jv_view_list(xs@.take(i as int))),
                    decreases_to!(*v => *xs),
                decreases n - i,
            {
                if i > 0 {
                    out.push(44);
                }
                proof {
                    assert(decreases_to!(*xs => xs@[i as int]));
                }
                write_json(&xs[i], out);
                proof {
                    lemma_view_list_take_step(xs@, i as int);
                    let pre = jv_view_list(xs@.take(i as int));
                    let full = jv_view_list(xs@.take(i + 1 as int));
                    assert(full == pre.push(jv_view(xs@[i as int])));
                    lemma_jser_list_push(pre, jv_view(xs@[i as int]));
                    assert(out@ =~= old(out)@ + seq![91u8] + jser_list(full));
                }
                i = i + 1;
            }
            out.push(93);
            proof {
                assert(xs@.take(n as int) =~= xs@);
                assert(out@ =~= old(out)@ + jser(v@));
            }
        },
        JsonValue::Obj(fs) => {
            out.push(123);
            let n = fs.len();
            let mut i: usize = 0;
            while i < n
                invariant
                    n == fs@.len(),
                    0 <= i <= n,
                    out@ == old(out)@ + seq![123u8] + jser_members(
                        jv_view_members(fs@.take(i as int)),
                    ),
                    decreases_to!(*v => *fs),
                decreases n - i,
            {
                if i > 0 {
                    out.push(44);
                }
                let member = &fs[i];
                write_json_str(member.0.as_str(), out);
                out.push(58);
                proof {
                    assert(decreases_to!(*fs => fs@[i as int]));
                    assert(decreases_to!(fs@[i as int] => fs@[i as int].1));
                }
                write_json(&member.1, out);
                proof {
                    lemma_view_members_take_step(fs@, i as int);
                    let pre = jv_view_members(fs@.take(i as int));
                    let full = jv_view_members(fs@.take(i + 1 as int));
                    assert(full == pre.push((fs@[i as int].0@, jv_view(fs@[i as int].1))));
                    lemma_jser_members_push(pre, fs@[i as int].0@, jv_view(fs@[i as int].1));
                    assert(out@ =~= old(out)@ + seq![123u8] + jser_members(full));
                }
                i = i + 1;
            }
            out.push(125);
            proof {
                assert(fs@.take(n as int) =~= fs@);
                assert(out@ =~= old(out)@ + jser(v@));
            }
        },
    }
}

/// The canonical serialization of `v` as a fresh byte vector.
pub fn to_json_bytes(v: &JsonValue) -> (r: Vec<u8>)
    ensures
        r@ == jser(v@),
{
    let mut out: Vec<u8> = Vec::new();
    write_json(v, &mut out);
    out
}

impl Clone for JsonValue {
    /// A deep copy standing for the same ghost document.
    fn clone(&self) -> (r: Self)
        ensures
            r@ == self@,
        decreases *self,
    {
        match self {
            JsonValue::Null => JsonValue::Null,
            JsonValue::Bool(b) => JsonValue::Bool(*b),
            JsonValue::Int(n) => JsonValue::Int(*n),
            JsonValue::Str(s) => JsonValue::Str(s.clone()),
            JsonValue::Arr(xs) => {
                let n = xs.len();
                let mut out: Vec<JsonValue> = Vec::new();
                let mut i: usize = 0;
                while i < n
                    invariant
                        n == xs@.len(),
                        0 <= i <= n,
                        jv_view_list(out@) == jv_view_list(xs@.take(i as int)),
                        decreases_to!(*self => *xs),
                    decreases n - i,
                {
                    proof {
                        assert(decreases_to!(*xs => xs@[i as int]));
                    }
                    let c = xs[i].clone();
                    let ghost prev = out@;
                    out.push(c);
                    proof {
                        lemma_view_list_take_step(xs@, i as int);
                        assert(out@ =~= prev.push(out@.last()));
                        lemma_view_list_push(prev, out@.last());
                    }
                    i = i + 1;
                }
                proof {
                    assert(xs@.take(n as int) =~= xs@);
                }
                JsonValue::Arr(out)
            },
            JsonValue::Obj(fs) => {
                let n = fs.len();
                let mut out: Vec<(String, JsonValue)> = Vec::new();
                let mut i: usize = 0;
                while i < n
                    invariant
                        n == fs@.len(),
                        0 <= i <= n,
                        jv_view_members(out@) == jv_view_members(fs@.take(i as int)),
                        decreases_to!(*self => *fs),
                    decreases n - i,
                {
                    proof {
                        assert(decreases_to!(*fs => fs@[i as int]));
                        assert(decreases_to!(fs@[i as int] => fs@[i as int].1));
                    }
                    let member = &fs[i];
                    let k = member.0.clone();
                    let c = member.1.clone();
                    let ghost prev = out@;
                    out.push((k, c));
                    proof {
                        lemma_view_members_take_step(fs@, i as int);
                        assert(out@ =~= prev.push(out@.last()));
                        lemma_view_members_push(prev, out@.last());
                    }
                    i = i + 1;
                }
                proof {
                    assert(fs@.take(n as int) =~= fs@);
                }
                JsonValue::Obj(out)
            },
        }
    }
}

/// Pushing an element extends the list view by that element's view.
proof fn lemma_view_list_push(xs: Seq<JsonValue>, x: JsonValue)
    ensures
        jv_view_list(xs.push(x)) == jv_view_list(xs).push(jv_view(x)),
{
    assert(xs.push(x).drop_last() =~= xs);
    assert(xs.push(x).last() == x);
}

/// Pushing a member extends the member view by that member's view.
proof fn lemma_view_members_push(fs: Seq<(String, JsonValue)>, f: (String, JsonValue))
    ensures
        jv_view_members(fs.push(f)) == jv_view_members(fs).push((f.0@, jv_view(f.1))),
{
    assert(fs.push(f).drop_last() =~= fs);
    assert(fs.push(f).last() == f);
}

/// The list view is the element views, index by index.
pub proof fn lemma_view_list_index(xs: Seq<JsonValue>)
    ensures
        jv_view_list(xs).len() == xs.len(),
        forall|i: int| 0 <= i < xs.len() ==> #[trigger] jv_view_list(xs)[i] == jv_view(xs[i]),
    decreases xs.len(),
{
    if xs.len() > 0 {
        lemma_view_list_index(xs.drop_last());
    }
}

/// The member view is the member views, index by index.
pub proof fn lemma_view_members_index(fs: Seq<(String, JsonValue)>)
    ensures
        jv_view_members(fs).len() == fs.len(),
        forall|i: int|
            0 <= i < fs.len() ==> #[trigger] jv_view_members(fs)[i] == (fs[i].0@, jv_view(
                fs[i].1,
            )),
    decreases fs.len(),
{
    if fs.len() > 0 {
        lemma_view_members_index(fs.drop_last());
    }
}

proof fn lemma_view_list_take_step(xs: Seq<JsonValue>, i: int)
    requires
        0 <= i < xs.len(),
    ensures
        jv_view_list(xs.take(i + 1)) == jv_view_list(xs.take(i)).push(jv_view(xs[i])),
{
    assert(xs.take(i + 1).drop_last() =~= xs.take(i));
    assert(xs.take(i + 1).last() == xs[i]);
}

proof fn lemma_view_members_take_step(fs: Seq<(String, JsonValue)>, i: int)
    requires
        0 <= i < fs.len(),
    ensures
        jv_view_members(fs.take(i + 1)) == jv_view_members(fs.take(i)).push(
            (fs[i].0@, jv_view(fs[i].1)),
        ),
{
    assert(fs.take(i + 1).drop_last() =~= fs.take(i));
    assert(fs.take(i + 1).last() == fs[i]);
}

proof fn lemma_jser_list_push(xs: Seq<JsonVal>, x: JsonVal)
    ensures
        jser_list(xs.push(x)) == if xs.len() == 0 {
            jser(x)
        } else {
            jser_list(xs) + seq![44u8] + jser(x)
        },
{
    assert(xs.push(x).drop_last() =~= xs);
    assert(xs.push(x).last() == x);
    if xs.len() == 0 {
        assert(xs.push(x)[0] == x);
    }
}

proof fn lemma_jser_members_push(fs: Seq<(Seq<char>, JsonVal)>, k: Seq<char>, v: JsonVal)
    ensures
        jser_members(fs.push((k, v))) == if fs.len() == 0 {
            jstr_bytes(k) + seq![58u8] + jser(v)
        } else {
            jser_members(fs) + seq![44u8] + jstr_bytes(k) + seq![58u8] + jser(v)
        },
{
    assert(fs.push((k, v)).drop_last() =~= fs);
    assert(fs.push((k, v)).last() == (k, v));
    if fs.len() == 0 {
        assert(fs.push((k, v))[0] == (k, v));
    }
}

} // verus!
