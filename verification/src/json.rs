//! The JSON document model the translator works over.
//!
//! Upstream and inbound payloads are decoded into [`Json`] values; the
//! translation rules and the serializer below are verified against this model.
//! Numbers are kept as their decimal token text, so the model carries any JSON
//! number through unchanged while integer fields can still be read exactly.

use vstd::prelude::*;
use vstd::string::StrSliceExecFns;
use crate::strings::str_eq;

verus! {

#[verifier::ext_equal]
pub enum Json {
    Null,
    Bool(bool),
    /// A number, kept as its decimal token text.
    Num(String),
    Str(String),
    Arr(Vec<Json>),
    Obj(Vec<(String, Json)>),
}

/// First value bound to `key` in an object's field list.
pub open spec fn spec_obj_get(pairs: Seq<(String, Json)>, key: Seq<char>) -> Option<Json>
    decreases pairs.len(),
{
    if pairs.len() == 0 {
        None
    } else if pairs[0].0@ == key {
        Some(pairs[0].1)
    } else {
        spec_obj_get(pairs.drop_first(), key)
    }
}

/// Field lookup on a document: `None` on anything but an object.
pub open spec fn spec_get(j: Json, key: Seq<char>) -> Option<Json> {
    match j {
        Json::Obj(pairs) => spec_obj_get(pairs@, key),
        _ => None,
    }
}

pub open spec fn spec_as_str(j: Json) -> Option<Seq<char>> {
    match j {
        Json::Str(s) => Some(s@),
        _ => None,
    }
}

pub open spec fn spec_as_bool(j: Json) -> Option<bool> {
    match j {
        Json::Bool(b) => Some(b),
        _ => None,
    }
}

pub fn json_get<'a>(j: &'a Json, key: &str) -> (r: Option<&'a Json>)
    ensures
        match r {
            Some(v) => spec_get(*j, key@) == Some(*v),
            None => spec_get(*j, key@) is None,
        },
{
    match j {
        Json::Obj(pairs) => obj_get(pairs, key),
        _ => None,
    }
}

pub fn obj_get<'a>(pairs: &'a Vec<(String, Json)>, key: &str) -> (r: Option<&'a Json>)
    ensures
        match r {
            Some(v) => spec_obj_get(pairs@, key@) == Some(*v),
            None => spec_obj_get(pairs@, key@) is None,
        },
{
    let n = pairs.len();
    let mut i: usize = 0;
    proof {
        assert(pairs@.skip(0) =~= pairs@);
    }
    while i < n
        invariant
            n == pairs@.len(),
            i <= n,
            spec_obj_get(pairs@, key@) == spec_obj_get(pairs@.skip(i as int), key@),
        decreases n - i,
    {
        if str_eq(pairs[i].0.as_str(), key) {
            proof {
                assert(pairs@.skip(i as int)[0] == pairs@[i as int]);
            }
            return Some(&pairs[i].1);
        }
        proof {
            assert(pairs@.skip(i as int)[0] == pairs@[i as int]);
            assert(pairs@.skip(i as int).drop_first() =~= pairs@.skip(i + 1));
        }
        i = i + 1;
    }
    None
}

pub fn json_as_str<'a>(j: &'a Json) -> (r: Option<&'a String>)
    ensures
        match r {
            Some(s) => spec_as_str(*j) == Some(s@),
            None => spec_as_str(*j) is None,
        },
{
    match j {
        Json::Str(s) => Some(s),
        _ => None,
    }
}

pub fn json_as_bool(j: &Json) -> (r: Option<bool>)
    ensures
        r == spec_as_bool(*j),
{
    match j {
        Json::Bool(b) => Some(*b),
        _ => None,
    }
}

pub fn json_as_arr<'a>(j: &'a Json) -> (r: Option<&'a Vec<Json>>)
    ensures
        match r {
            Some(a) => *j matches Json::Arr(items) && a@ == items@,
            None => !(*j matches Json::Arr(_)),
        },
{
    match j {
        Json::Arr(items) => Some(items),
        _ => None,
    }
}

pub open spec fn spec_is_digit(c: char) -> bool {
    '0' <= c && c <= '9'
}

pub open spec fn spec_is_digits(s: Seq<char>) -> bool {
    s.len() > 0 && forall|k: int| 0 <= k < s.len() ==> spec_is_digit(#[trigger] s[k])
}

/// Value of a string of decimal digits.
pub open spec fn spec_dec_val(s: Seq<char>) -> int
    decreases s.len(),
{
    if s.len() == 0 {
        0
    } else {
        spec_dec_val(s.drop_last()) * 10 + (s.last() as int - 48)
    }
}

/// What reading a document's field as an unsigned integer yields: the value of
/// a plain digit token when it fits in 64 bits, nothing otherwise.
pub open spec fn spec_as_u64(j: Json) -> Option<int> {
    match j {
        Json::Num(raw) => if spec_is_digits(raw@) && spec_dec_val(raw@) <= u64::MAX {
            Some(spec_dec_val(raw@))
        } else {
            None
        },
        _ => None,
    }
}

proof fn lemma_dec_val_nonneg(s: Seq<char>)
    requires
        forall|k: int| 0 <= k < s.len() ==> spec_is_digit(#[trigger] s[k]),
    ensures
        spec_dec_val(s) >= 0,
    decreases s.len(),
{
    if s.len() > 0 {
        lemma_dec_val_nonneg(s.drop_last());
    }
}

proof fn lemma_dec_val_extend(s: Seq<char>, i: int)
    requires
        0 <= i <= s.len(),
        forall|k: int| 0 <= k < s.len() ==> spec_is_digit(#[trigger] s[k]),
    ensures
        spec_dec_val(s) >= spec_dec_val(s.take(i)),
    decreases s.len() - i,
{
    if i < s.len() {
        lemma_dec_val_extend(s, i + 1);
        assert(s.take(i + 1).drop_last() =~= s.take(i));
        assert(s.take(i + 1).last() == s[i]);
        lemma_dec_val_nonneg(s.take(i));
        assert(spec_dec_val(s.take(i + 1)) >= spec_dec_val(s.take(i))) by {
            assert(spec_dec_val(s.take(i + 1)) == spec_dec_val(s.take(i)) * 10 + (s[i] as int
                - 48));
            assert(spec_dec_val(s.take(i)) * 10 >= spec_dec_val(s.take(i))) by (nonlinear_arith)
                requires
                    spec_dec_val(s.take(i)) >= 0,
            ;
        }
    } else {
        assert(s.take(i) =~= s);
    }
}

/// Parse a string of decimal digits into a 64-bit integer; `None` when the
/// string is empty, holds a non-digit, or overflows.
pub fn parse_u64_digits(s: &str) -> (r: Option<u64>)
    ensures
        match r {
            Some(v) => spec_is_digits(s@) && spec_dec_val(s@) == v as int,
            None => !(spec_is_digits(s@) && spec_dec_val(s@) <= u64::MAX),
        },
{
    let n = s.unicode_len();
    if n == 0 {
        return None;
    }
    let mut acc: u64 = 0;
    let mut i: usize = 0;
    while i < n
        invariant
            n == s@.len(),
            n > 0,
            i <= n,
            forall|k: int| 0 <= k < i ==> spec_is_digit(#[trigger] s@[k]),
            acc as int == spec_dec_val(s@.take(i as int)),
        decreases n - i,
    {
        let c = s.get_char(i);
        if !('0' <= c && c <= '9') {
            return None;
        }
        let d: u64 = (c as u32 - 48) as u64;
        if acc > (u64::MAX - d) / 10 {
            proof {
                assert(s@.take(i + 1).drop_last() =~= s@.take(i as int));
                assert(s@.take(i + 1).last() == s@[i as int]);
                assert(spec_dec_val(s@.take(i + 1)) > u64::MAX) by (nonlinear_arith)
                    requires
                        spec_dec_val(s@.take(i + 1)) == spec_dec_val(s@.take(i as int)) * 10 + (
                        s@[i as int] as int - 48),
                        spec_dec_val(s@.take(i as int)) == acc as int,
                        acc > (u64::MAX - d) / 10,
                        d == s@[i as int] as int - 48,
                        0 <= d <= 9,
                ;
                if spec_is_digits(s@) {
                    lemma_dec_val_extend(s@, i + 1);
                }
            }
            return None;
        }
        proof {
            assert(s@.take(i + 1).drop_last() =~= s@.take(i as int));
            assert(s@.take(i + 1).last() == s@[i as int]);
            assert((acc * 10 + d) as int == spec_dec_val(s@.take(i + 1))
                && acc * 10 + d <= u64::MAX) by (nonlinear_arith)
                requires
                    spec_dec_val(s@.take(i + 1)) == spec_dec_val(s@.take(i as int)) * 10 + (
                    s@[i as int] as int - 48),
                    spec_dec_val(s@.take(i as int)) == acc as int,
                    acc <= (u64::MAX - d) / 10,
                    d == s@[i as int] as int - 48,
                    0 <= d <= 9,
            ;
        }
        acc = acc * 10 + d;
        i = i + 1;
    }
    proof {
        assert(s@.take(n as int) =~= s@);
    }
    Some(acc)
}

pub fn json_as_u64(j: &Json) -> (r: Option<u64>)
    ensures
        match r {
            Some(v) => spec_as_u64(*j) == Some(v as int),
            None => spec_as_u64(*j) is None,
        },
{
    match j {
        Json::Num(raw) => parse_u64_digits(raw.as_str()),
        _ => None,
    }
}

pub open spec fn spec_digit_char(d: int) -> char {
    if d == 0 {
        '0'
    } else if d == 1 {
        '1'
    } else if d == 2 {
        '2'
    } else if d == 3 {
        '3'
    } else if d == 4 {
        '4'
    } else if d == 5 {
        '5'
    } else if d == 6 {
        '6'
    } else if d == 7 {
        '7'
    } else if d == 8 {
        '8'
    } else {
        '9'
    }
}

/// Decimal digit string of a 64-bit integer, most significant digit first.
pub open spec fn spec_u64_dec(n: int) -> Seq<char>
    decreases n,
{
    if n < 10 {
        seq![spec_digit_char(n)]
    } else {
        spec_u64_dec(n / 10) + seq![spec_digit_char(n % 10)]
    }
}

fn digit_char(d: u64) -> (c: char)
    requires
        d <= 9,
    ensures
        c == spec_digit_char(d as int),
{
    match d {
        0 => '0',
        1 => '1',
        2 => '2',
        3 => '3',
        4 => '4',
        5 => '5',
        6 => '6',
        7 => '7',
        8 => '8',
        _ => '9',
    }
}

/// Format a 64-bit integer in decimal.
pub fn u64_to_dec_chars(n: u64) -> (v: Vec<char>)
    ensures
        v@ == spec_u64_dec(n as int),
{
    let mut v: Vec<char> = Vec::new();
    let mut m = n;
    v.push(digit_char(m % 10));
    m = m / 10;
    while m > 0
        invariant
            spec_u64_dec(n as int) == (if m > 0 {
                spec_u64_dec(m as int)
            } else {
                Seq::<char>::empty()
            }) + v@,
        decreases m,
    {
        proof {
            assert(spec_u64_dec(m as int) == (if m / 10 > 0 {
                spec_u64_dec((m / 10) as int)
            } else {
                Seq::<char>::empty()
            }) + seq![spec_digit_char((m % 10) as int)]) by {
                if m >= 10 {
                } else {
                    assert(spec_u64_dec(m as int) == seq![spec_digit_char(m as int)]);
                    assert(seq![spec_digit_char((m % 10) as int)] =~= spec_u64_dec(m as int));
                }
            }
        }
        let d = m % 10;
        v.insert(0, digit_char(d));
        proof {
            assert(spec_u64_dec(n as int) =~= (if m / 10 > 0 {
                spec_u64_dec((m / 10) as int)
            } else {
                Seq::<char>::empty()
            }) + v@);
        }
        m = m / 10;
    }
    v
}

/// A number document holding a 64-bit integer.
pub fn json_u64(n: u64) -> (r: Json)
    ensures
        r matches Json::Num(raw) && raw@ == spec_u64_dec(n as int),
{
    let v = u64_to_dec_chars(n);
    Json::Num(crate::strings::chars_to_string(&v))
}

pub open spec fn spec_hex_digit(d: int) -> char {
    if d < 10 {
        spec_digit_char(d)
    } else if d == 10 {
        'a'
    } else if d == 11 {
        'b'
    } else if d == 12 {
        'c'
    } else if d == 13 {
        'd'
    } else if d == 14 {
        'e'
    } else {
        'f'
    }
}

/// How one character appears inside a JSON string literal.
pub open spec fn spec_escape_char(c: char) -> Seq<char> {
    if c == '"' {
        seq!['\\', '"']
    } else if c == '\\' {
        seq!['\\', '\\']
    } else if c == '\n' {
        seq!['\\', 'n']
    } else if c == '\r' {
        seq!['\\', 'r']
    } else if c == '\t' {
        seq!['\\', 't']
    } else if (c as u32) < 32 {
        seq!['\\', 'u', '0', '0', spec_hex_digit(c as u32 as int / 16), spec_hex_digit(
            c as u32 as int % 16,
        )]
    } else {
        seq![c]
    }
}

pub open spec fn spec_escape(s: Seq<char>) -> Seq<char>
    decreases s.len(),
{
    if s.len() == 0 {
        Seq::empty()
    } else {
        spec_escape(s.drop_last()) + spec_escape_char(s.last())
    }
}

/// A JSON string literal: quotes around the escaped characters.
pub open spec fn spec_quoted(s: Seq<char>) -> Seq<char> {
    seq!['"'] + spec_escape(s) + seq!['"']
}

/// The serialized text of a document.
pub open spec fn spec_json_text(j: Json) -> Seq<char>
    decreases j,
{
    match j {
        Json::Null => "null"@,
        Json::Bool(b) => if b {
            "true"@
        } else {
            "false"@
        },
        Json::Num(raw) => raw@,
        Json::Str(s) => spec_quoted(s@),
        Json::Arr(items) => seq!['['] + spec_arr_text(items@) + seq![']'],
        Json::Obj(pairs) => seq!['{'] + spec_obj_text(pairs@) + seq!['}'],
    }
}

pub open spec fn spec_arr_text(items: Seq<Json>) -> Seq<char>
    decreases items,
{
    if items.len() == 0 {
        Seq::empty()
    } else if items.len() == 1 {
        spec_json_text(items[0])
    } else {
        spec_arr_text(items.drop_last()) + seq![','] + spec_json_text(items.last())
    }
}

pub open spec fn spec_obj_text(pairs: Seq<(String, Json)>) -> Seq<char>
    decreases pairs,
{
    if pairs.len() == 0 {
        Seq::empty()
    } else if pairs.len() == 1 {
        spec_quoted(pairs[0].0@) + seq![':'] + spec_json_text(pairs[0].1)
    } else {
        spec_obj_text(pairs.drop_last()) + seq![','] + spec_quoted(pairs.last().0@) + seq![':']
            + spec_json_text(pairs.last().1)
    }
}

/// Unfolding step for the text of an object with one more field.
pub proof fn lemma_obj_text_push(pairs: Seq<(String, Json)>, p: (String, Json))
    requires
        pairs.len() >= 1,
    ensures
        spec_obj_text(pairs.push(p)) == spec_obj_text(pairs) + seq![','] + spec_quoted(p.0@)
            + seq![':'] + spec_json_text(p.1),
{
    assert(pairs.push(p).drop_last() =~= pairs);
    assert(pairs.push(p).last() == p);
}

/// The text of a one-element array is the text of its element.
pub proof fn lemma_arr_text_singleton(x: Json)
    ensures
        spec_arr_text(seq![x]) == spec_json_text(x),
{
}

fn hex_digit(d: u32) -> (c: char)
    requires
        d <= 15,
    ensures
        c == spec_hex_digit(d as int),
{
    match d {
        0 => '0',
        1 => '1',
        2 => '2',
        3 => '3',
        4 => '4',
        5 => '5',
        6 => '6',
        7 => '7',
        8 => '8',
        9 => '9',
        10 => 'a',
        11 => 'b',
        12 => 'c',
        13 => 'd',
        14 => 'e',
        _ => 'f',
    }
}

/// Append the escaped form of one string to `out`.
fn write_escaped(s: &str, out: &mut Vec<char>)
    ensures
        final(out)@ == old(out)@ + spec_escape(s@),
{
    let n = s.unicode_len();
    let mut i: usize = 0;
    proof {
        assert(s@.take(0) =~= Seq::<char>::empty());
        assert(old(out)@ + spec_escape(s@.take(0)) =~= old(out)@);
    }
    while i < n
        invariant
            n == s@.len(),
            i <= n,
            out@ == old(out)@ + spec_escape(s@.take(i as int)),
        decreases n - i,
    {
        let c = s.get_char(i);
        proof {
            assert(s@.take(i + 1).drop_last() =~= s@.take(i as int));
            assert(s@.take(i + 1).last() == s@[i as int]);
        }
        if c == '"' {
            out.push('\\');
            out.push('"');
        } else if c == '\\' {
            out.push('\\');
            out.push('\\');
        } else if c == '\n' {
            out.push('\\');
            out.push('n');
        } else if c == '\r' {
            out.push('\\');
            out.push('r');
        } else if c == '\t' {
            out.push('\\');
            out.push('t');
        } else if (c as u32) < 32 {
            out.push('\\');
            out.push('u');
            out.push('0');
            out.push('0');
            out.push(hex_digit(c as u32 / 16));
            out.push(hex_digit(c as u32 % 16));
        } else {
            out.push(c);
        }
        proof {
            assert(out@ =~= old(out)@ + spec_escape(s@.take(i + 1)));
        }
        i = i + 1;
    }
    proof {
        assert(s@.take(n as int) =~= s@);
    }
}

/// Append a JSON string literal for `s` to `out`.
fn write_quoted(s: &str, out: &mut Vec<char>)
    ensures
        final(out)@ == old(out)@ + spec_quoted(s@),
{
    out.push('"');
    write_escaped(s, out);
    out.push('"');
    proof {
        assert(out@ =~= old(out)@ + spec_quoted(s@));
    }
}

fn write_lit(lit: &str, out: &mut Vec<char>)
    ensures
        final(out)@ == old(out)@ + lit@,
{
    let mut cs = crate::strings::str_to_chars(lit);
    out.append(&mut cs);
}

/// Append the serialized text of `j` to `out`.
#[verifier::loop_isolation(false)]
pub fn json_write(j: &Json, out: &mut Vec<char>)
    ensures
        final(out)@ == old(out)@ + spec_json_text(*j),
    decreases *j,
{
    match j {
        Json::Null => {
            write_lit("null", out);
        },
        Json::Bool(b) => {
            if *b {
                write_lit("true", out);
            } else {
                write_lit("false", out);
            }
        },
        Json::Num(raw) => {
            write_lit(raw.as_str(), out);
        },
        Json::Str(s) => {
            write_quoted(s.as_str(), out);
        },
        Json::Arr(items) => {
            out.push('[');
            let n = items.len();
            let mut i: usize = 0;
            while i < n
                invariant
                    n == items@.len(),
                    i <= n,
                    out@ == old(out)@ + seq!['['] + spec_arr_text(items@.take(i as int)),
                decreases n - i,
            {
                if i > 0 {
                    out.push(',');
                }
                proof {
                    assert(decreases_to!(*j => (*j)->Arr_0));
                    assert(decreases_to!((*j)->Arr_0 => (*j)->Arr_0@));
                    assert(decreases_to!((*j)->Arr_0@ => (*j)->Arr_0@[i as int]));
                    assert((*j)->Arr_0@[i as int] == items@[i as int]);
                    assert(decreases_to!(*j => items@[i as int]));
                }
                json_write(&items[i], out);
                proof {
                    assert(items@.take(i + 1).drop_last() =~= items@.take(i as int));
                    assert(items@.take(i + 1).last() == items@[i as int]);
                    if i == 0 {
                        assert(spec_arr_text(items@.take(1)) == spec_json_text(items@[0]));
                        assert(out@ =~= old(out)@ + seq!['['] + spec_arr_text(items@.take(1)));
                    } else {
                        assert(out@ =~= old(out)@ + seq!['['] + spec_arr_text(
                            items@.take(i + 1),
                        ));
                    }
                }
                i = i + 1;
            }
            out.push(']');
            proof {
                assert(items@.take(n as int) =~= items@);
                assert(out@ =~= old(out)@ + spec_json_text(*j));
            }
        },
        Json::Obj(pairs) => {
            out.push('{');
            let n = pairs.len();
            let mut i: usize = 0;
            while i < n
                invariant
                    n == pairs@.len(),
                    i <= n,
                    out@ == old(out)@ + seq!['{'] + spec_obj_text(pairs@.take(i as int)),
                decreases n - i,
            {
                if i > 0 {
                    out.push(',');
                }
                write_quoted(pairs[i].0.as_str(), out);
                out.push(':');
                proof {
                    assert(decreases_to!(*j => (*j)->Obj_0));
                    assert(decreases_to!((*j)->Obj_0 => (*j)->Obj_0@));
                    assert(decreases_to!((*j)->Obj_0@ => (*j)->Obj_0@[i as int]));
                    assert(decreases_to!((*j)->Obj_0@[i as int] => (*j)->Obj_0@[i as int].1));
                    assert((*j)->Obj_0@[i as int].1 == pairs@[i as int].1);
                    assert(decreases_to!(*j => pairs@[i as int].1));
                }
                json_write(&pairs[i].1, out);
                proof {
                    assert(pairs@.take(i + 1).drop_last() =~= pairs@.take(i as int));
                    assert(pairs@.take(i + 1).last() == pairs@[i as int]);
                    if i == 0 {
                        assert(out@ =~= old(out)@ + seq!['{'] + spec_obj_text(pairs@.take(1)));
                    } else {
                        assert(out@ =~= old(out)@ + seq!['{'] + spec_obj_text(
                            pairs@.take(i + 1),
                        ));
                    }
                }
                i = i + 1;
            }
            out.push('}');
            proof {
                assert(pairs@.take(n as int) =~= pairs@);
                assert(out@ =~= old(out)@ + spec_json_text(*j));
            }
        },
    }
}

/// Serialize a document.
pub fn json_to_string(j: &Json) -> (s: String)
    ensures
        s@ == spec_json_text(*j),
{
    let mut out: Vec<char> = Vec::new();
    json_write(j, &mut out);
    crate::strings::chars_to_string(&out)
}

/// The field list with every binding of `key` removed.
pub open spec fn spec_obj_drop(pairs: Seq<(String, Json)>, key: Seq<char>) -> Seq<(String, Json)>
    decreases pairs.len(),
{
    if pairs.len() == 0 {
        Seq::empty()
    } else if pairs[0].0@ == key {
        spec_obj_drop(pairs.drop_first(), key)
    } else {
        seq![pairs[0]] + spec_obj_drop(pairs.drop_first(), key)
    }
}

proof fn lemma_obj_get_concat(s: Seq<(String, Json)>, t: Seq<(String, Json)>, key: Seq<char>)
    ensures
        spec_obj_get(s + t, key) == (if spec_obj_get(s, key) is Some {
            spec_obj_get(s, key)
        } else {
            spec_obj_get(t, key)
        }),
    decreases s.len(),
{
    if s.len() == 0 {
        assert(s + t =~= t);
    } else {
        assert((s + t)[0] == s[0]);
        assert((s + t).drop_first() =~= s.drop_first() + t);
        lemma_obj_get_concat(s.drop_first(), t, key);
    }
}

proof fn lemma_obj_get_no_match(s: Seq<(String, Json)>, key: Seq<char>)
    requires
        forall|k: int| 0 <= k < s.len() ==> (#[trigger] s[k]).0@ != key,
    ensures
        spec_obj_get(s, key) is None,
    decreases s.len(),
{
    if s.len() > 0 {
        lemma_obj_get_no_match(s.drop_first(), key);
    }
}

proof fn lemma_obj_drop_no_match(s: Seq<(String, Json)>, key: Seq<char>)
    ensures
        forall|k: int|
            0 <= k < spec_obj_drop(s, key).len() ==> (#[trigger] spec_obj_drop(s, key)[k]).0@
                != key,
    decreases s.len(),
{
    if s.len() > 0 {
        lemma_obj_drop_no_match(s.drop_first(), key);
        if s[0].0@ != key {
            let rest = spec_obj_drop(s.drop_first(), key);
            let whole = seq![s[0]] + rest;
            assert(spec_obj_drop(s, key) == whole);
            assert forall|k: int| 0 <= k < whole.len() implies (#[trigger] whole[k]).0@
                != key by {
                if k == 0 {
                    assert(whole[0] == s[0]);
                } else {
                    assert(whole[k] == rest[k - 1]);
                }
            }
        } else {
            assert(spec_obj_drop(s, key) == spec_obj_drop(s.drop_first(), key));
        }
    }
}

proof fn lemma_obj_drop_other(s: Seq<(String, Json)>, key: Seq<char>, k2: Seq<char>)
    requires
        k2 != key,
    ensures
        spec_obj_get(spec_obj_drop(s, key), k2) == spec_obj_get(s, k2),
    decreases s.len(),
{
    if s.len() > 0 {
        lemma_obj_drop_other(s.drop_first(), key, k2);
        if s[0].0@ == key {
        } else {
            let rest = spec_obj_drop(s.drop_first(), key);
            assert((seq![s[0]] + rest)[0] == s[0]);
            assert((seq![s[0]] + rest).drop_first() =~= rest);
        }
    }
}

/// Bind `key` to `val` in a field list: every old binding of `key` goes, and
/// one new binding stands at the end; all other fields keep their values.
pub fn obj_set(pairs: Vec<(String, Json)>, key: &str, val: Json) -> (r: Vec<(String, Json)>)
    ensures
        spec_obj_get(r@, key@) == Some(val),
        forall|k2: Seq<char>| k2 != key@ ==> spec_obj_get(r@, k2) == spec_obj_get(pairs@, k2),
{
    let ghost orig = pairs@;
    let mut rest = pairs;
    let mut out: Vec<(String, Json)> = Vec::new();
    proof {
        assert(out@ + spec_obj_drop(rest@, key@) =~= spec_obj_drop(orig, key@));
    }
    while rest.len() > 0
        invariant
            out@ + spec_obj_drop(rest@, key@) == spec_obj_drop(orig, key@),
            forall|k: int| 0 <= k < out@.len() ==> (#[trigger] out@[k]).0@ != key@,
        decreases rest.len(),
    {
        let ghost prev = rest@;
        let p = rest.remove(0);
        proof {
            assert(prev[0] == p);
            assert(prev.drop_first() =~= rest@);
        }
        if str_eq(p.0.as_str(), key) {
            proof {
                assert(out@ + spec_obj_drop(rest@, key@) =~= spec_obj_drop(orig, key@));
            }
        } else {
            out.push(p);
            proof {
                assert(out@ + spec_obj_drop(rest@, key@) =~= spec_obj_drop(orig, key@));
            }
        }
    }
    proof {
        assert(out@ + spec_obj_drop(rest@, key@) =~= out@);
        assert(out@ == spec_obj_drop(orig, key@));
    }
    let kstr = <String as vstd::string::StringExecFns>::from_str(key);
    out.push((kstr, val));
    proof {
        let done = out@;
        let last = seq![(kstr, val)];
        assert(done =~= spec_obj_drop(orig, key@) + last);
        lemma_obj_get_concat(spec_obj_drop(orig, key@), last, key@);
        lemma_obj_drop_no_match(orig, key@);
        lemma_obj_get_no_match(spec_obj_drop(orig, key@), key@);
        assert(last[0].0@ == key@);
        assert(spec_obj_get(last, key@) == Some(val));
        assert forall|k2: Seq<char>| k2 != key@ implies spec_obj_get(done, k2) == spec_obj_get(
            orig,
            k2,
        ) by {
            lemma_obj_get_concat(spec_obj_drop(orig, key@), last, k2);
            lemma_obj_drop_other(orig, key@, k2);
            assert(last[0].0@ != k2);
            assert(spec_obj_get(last, k2) == spec_obj_get(last.drop_first(), k2));
            assert(last.drop_first().len() == 0);
            assert(spec_obj_get(last.drop_first(), k2) is None);
        }
    }
    out
}

/// Bind `key` to `val` in an object document.
pub fn json_set(j: Json, key: &str, val: Json) -> (r: Json)
    requires
        j is Obj,
    ensures
        r is Obj,
        spec_get(r, key@) == Some(val),
        forall|k2: Seq<char>| k2 != key@ ==> spec_get(r, k2) == spec_get(j, k2),
{
    match j {
        Json::Obj(pairs) => Json::Obj(obj_set(pairs, key, val)),
        _ => Json::Obj(Vec::new()),
    }
}

/// A string document.
pub fn json_str(s: &str) -> (r: Json)
    ensures
        r matches Json::Str(t) && t@ == s@,
{
    Json::Str(<String as vstd::string::StringExecFns>::from_str(s))
}

#[verifier::external_type_specification]
#[verifier::external_body]
pub struct ExValue(serde_json::Value);

/// The document a byte sequence parses to, when it is well-formed JSON.
pub uninterp spec fn json_tree_of(bytes: Seq<u8>) -> Option<Json>;

/// Conversion helper for `parse_json`: copies serde_json's value enum into the
/// library's document model, one arm per variant, keeping a number's token
/// text.  Relies on the public structure of `serde_json::Value`.
#[verifier::external_body]
fn value_to_json(v: serde_json::Value) -> Json {
    match v {
        serde_json::Value::Null => Json::Null,
        serde_json::Value::Bool(b) => Json::Bool(b),
        serde_json::Value::Number(n) => Json::Num(n.to_string()),
        serde_json::Value::String(s) => Json::Str(s),
        serde_json::Value::Array(a) => Json::Arr(a.into_iter().map(value_to_json).collect()),
        serde_json::Value::Object(m) => Json::Obj(
            m.into_iter().map(|(k, x)| (k, value_to_json(x))).collect(),
        ),
    }
}

/// Relies on `serde_json::from_slice`: whether a byte sequence parses, and the
/// document it parses to, are functions of the bytes alone.
#[verifier::external_body]
fn parse_json_bytes(bytes: &[u8]) -> (r: Option<Json>)
    ensures
        r == json_tree_of(bytes@),
{
    match serde_json::from_slice::<serde_json::Value>(bytes) {
        Ok(v) => Some(value_to_json(v)),
        Err(_) => None,
    }
}

/// Parse a byte sequence into a document, when it is well-formed JSON.
pub fn parse_json(bytes: &[u8]) -> (r: Option<Json>)
    ensures
        r == json_tree_of(bytes@),
{
    parse_json_bytes(bytes)
}

} // verus!
