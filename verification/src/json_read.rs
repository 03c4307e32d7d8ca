//! Reading JSON replies from the inference backend. serde_json's parse
//! is a function of the reply text alone, so each extraction is a trusted
//! wrapper from the text to plain values whose contract names that
//! function's result; everything downstream of those plain values is
//! verified, including the decimal-to-hundredths conversion of confidence
//! figures.

use vstd::prelude::*;
use vstd::string::*;
use crate::text::{find_char, find_char_str, lemma_find_char};

verus! {

/// Whether the text parses as one JSON document.
pub uninterp spec fn json_parses(s: Seq<char>) -> bool;

/// The string under `key` at the top of the parsed document, if the
/// document is an object whose `key` holds a string.
pub uninterp spec fn json_str_field_of(s: Seq<char>, key: Seq<char>) -> Option<Seq<char>>;

/// The decimal text of the number under `key` at the top of the parsed
/// document, if the document is an object whose `key` holds a number.
pub uninterp spec fn json_number_text_of(s: Seq<char>, key: Seq<char>) -> Option<Seq<char>>;

/// How many elements the array under `key` holds; zero when `key` does
/// not hold an array.
pub uninterp spec fn json_array_len_of(s: Seq<char>, key: Seq<char>) -> nat;

/// The `i`-th element of the array under `key`, when that element is a
/// string.
pub uninterp spec fn json_array_string_at_of(s: Seq<char>, key: Seq<char>, i: nat) -> Option<
    Seq<char>,
>;

/// The string under `field` of the `i`-th element of the array under
/// `key`, when that element is an object whose `field` holds a string.
pub uninterp spec fn json_object_string_at_of(
    s: Seq<char>,
    key: Seq<char>,
    i: nat,
    field: Seq<char>,
) -> Option<Seq<char>>;

/// Relies on `serde_json::from_str` with `serde_json::Value` as the
/// target: whether the text parses as one JSON document. The parse
/// depends on the text alone.
#[verifier::external_body]
pub(crate) fn json_reply_parses(s: &str) -> (r: bool)
    ensures
        r == json_parses(s@),
{
    serde_json::from_str::<serde_json::Value>(s).is_ok()
}

/// Relies on `serde_json::from_str` and the `Display` rendering of
/// `serde_json::Error`: the parse error's message, when the text does not
/// parse.
#[verifier::external_body]
pub(crate) fn json_parse_error(s: &str) -> (r: Option<String>)
    ensures
        r is None <==> json_parses(s@),
{
    serde_json::from_str::<serde_json::Value>(s).err().map(|e| e.to_string())
}

/// Relies on `serde_json::from_str`, `Value::get` and `Value::as_str`:
/// the string under `key` of the parsed document.
#[verifier::external_body]
pub(crate) fn json_str_field(s: &str, key: &str) -> (r: Option<String>)
    ensures
        r.deep_view() == (if json_parses(s@) {
            json_str_field_of(s@, key@)
        } else {
            None
        }),
{
    let v: serde_json::Value = match serde_json::from_str(s) {
        Ok(v) => v,
        Err(_) => return None,
    };
    v.get(key).and_then(|x| x.as_str()).map(|t| t.to_string())
}

/// Relies on `serde_json::from_str`, `Value::get`, `Value::as_number`
/// and the `Display` rendering of `serde_json::Number`: the decimal text
/// of the number under `key` of the parsed document.
#[verifier::external_body]
pub(crate) fn json_number_field_text(s: &str, key: &str) -> (r: Option<String>)
    ensures
        r.deep_view() == (if json_parses(s@) {
            json_number_text_of(s@, key@)
        } else {
            None
        }),
{
    let v: serde_json::Value = match serde_json::from_str(s) {
        Ok(v) => v,
        Err(_) => return None,
    };
    v.get(key).and_then(|x| x.as_number()).map(|n| n.to_string())
}

/// Relies on `serde_json::from_str`, `Value::get` and `Value::as_array`:
/// how many elements the array under `key` holds.
#[verifier::external_body]
pub(crate) fn json_array_len(s: &str, key: &str) -> (r: usize)
    ensures
        r as nat == (if json_parses(s@) {
            json_array_len_of(s@, key@)
        } else {
            0
        }),
{
    let v: serde_json::Value = match serde_json::from_str(s) {
        Ok(v) => v,
        Err(_) => return 0,
    };
    v.get(key).and_then(|x| x.as_array()).map(|a| a.len()).unwrap_or(0)
}

/// Relies on `serde_json::from_str`, `Value::get`, `Vec::get` and
/// `Value::as_str`: the `i`-th element of the array under `key`, when it
/// is a string.
#[verifier::external_body]
pub(crate) fn json_array_string_at(s: &str, key: &str, i: usize) -> (r: Option<String>)
    ensures
        r.deep_view() == (if json_parses(s@) {
            json_array_string_at_of(s@, key@, i as nat)
        } else {
            None
        }),
{
    let v: serde_json::Value = match serde_json::from_str(s) {
        Ok(v) => v,
        Err(_) => return None,
    };
    v.get(key)
        .and_then(|x| x.as_array())
        .and_then(|a| a.get(i))
        .and_then(|x| x.as_str())
        .map(|t| t.to_string())
}

/// Relies on `serde_json::from_str`, `Value::get`, `Vec::get` and
/// `Value::as_str`: the string under `field` of the `i`-th element of the
/// array under `key`.
#[verifier::external_body]
pub(crate) fn json_object_string_at(s: &str, key: &str, i: usize, field: &str) -> (r: Option<
    String,
>)
    ensures
        r.deep_view() == (if json_parses(s@) {
            json_object_string_at_of(s@, key@, i as nat, field@)
        } else {
            None
        }),
{
    let v: serde_json::Value = match serde_json::from_str(s) {
        Ok(v) => v,
        Err(_) => return None,
    };
    v.get(key)
        .and_then(|x| x.as_array())
        .and_then(|a| a.get(i))
        .and_then(|m| m.get(field))
        .and_then(|x| x.as_str())
        .map(|t| t.to_string())
}

/// The string elements among the first `n` entries of the array under
/// `key`, in order; entries of any other kind are dropped.
pub open spec fn json_string_items_upto(s: Seq<char>, key: Seq<char>, n: nat) -> Seq<Seq<char>>
    decreases n,
{
    if n == 0 {
        Seq::empty()
    } else {
        json_string_items_upto(s, key, (n - 1) as nat) + (match json_array_string_at_of(
            s,
            key,
            (n - 1) as nat,
        ) {
            Some(t) => seq![t],
            None => Seq::empty(),
        })
    }
}

/// The string elements of the array under `key`, in order.
pub open spec fn json_string_items_of(s: Seq<char>, key: Seq<char>) -> Seq<Seq<char>> {
    json_string_items_upto(s, key, json_array_len_of(s, key))
}

/// The strings under `field` among the first `n` entries of the array
/// under `key`, in order; entries without one are dropped.
pub open spec fn json_object_string_items_upto(
    s: Seq<char>,
    key: Seq<char>,
    field: Seq<char>,
    n: nat,
) -> Seq<Seq<char>>
    decreases n,
{
    if n == 0 {
        Seq::empty()
    } else {
        json_object_string_items_upto(s, key, field, (n - 1) as nat) + (match
        json_object_string_at_of(s, key, (n - 1) as nat, field) {
            Some(t) => seq![t],
            None => Seq::empty(),
        })
    }
}

/// The strings under `field` of the entries of the array under `key`, in
/// order.
pub open spec fn json_object_string_items_of(
    s: Seq<char>,
    key: Seq<char>,
    field: Seq<char>,
) -> Seq<Seq<char>> {
    json_object_string_items_upto(s, key, field, json_array_len_of(s, key))
}

/// Collects the string elements of the array under `key`, in order.
pub fn string_items_from_reply(s: &str, key: &str) -> (r: Vec<String>)
    ensures
        r.deep_view() == (if json_parses(s@) {
            json_string_items_of(s@, key@)
        } else {
            Seq::<Seq<char>>::empty()
        }),
{
    let mut out: Vec<String> = Vec::new();
    if !json_reply_parses(s) {
        proof {
            assert(out.deep_view() =~= Seq::<Seq<char>>::empty());
        }
        return out;
    }
    let n = json_array_len(s, key);
    let mut i: usize = 0;
    proof {
        assert(out.deep_view() =~= json_string_items_upto(s@, key@, 0));
    }
    while i < n
        invariant
            json_parses(s@),
            n as nat == json_array_len_of(s@, key@),
            i <= n,
            out.deep_view() == json_string_items_upto(s@, key@, i as nat),
        decreases n - i,
    {
        let ghost out0 = out.deep_view();
        match json_array_string_at(s, key, i) {
            Some(t) => {
                let ghost tv = t@;
                out.push(t);
                proof {
                    assert(out.deep_view() =~= out0 + seq![tv]);
                }
            },
            None => {
                proof {
                    assert(out.deep_view() + Seq::<Seq<char>>::empty() =~= out.deep_view());
                }
            },
        }
        i += 1;
    }
    out
}

/// Collects the strings under `field` of the entries of the array under
/// `key`, in order.
pub fn object_string_items_from_reply(s: &str, key: &str, field: &str) -> (r: Vec<String>)
    ensures
        r.deep_view() == (if json_parses(s@) {
            json_object_string_items_of(s@, key@, field@)
        } else {
            Seq::<Seq<char>>::empty()
        }),
{
    let mut out: Vec<String> = Vec::new();
    if !json_reply_parses(s) {
        proof {
            assert(out.deep_view() =~= Seq::<Seq<char>>::empty());
        }
        return out;
    }
    let n = json_array_len(s, key);
    let mut i: usize = 0;
    proof {
        assert(out.deep_view() =~= json_object_string_items_upto(s@, key@, field@, 0));
    }
    while i < n
        invariant
            json_parses(s@),
            n as nat == json_array_len_of(s@, key@),
            i <= n,
            out.deep_view() == json_object_string_items_upto(s@, key@, field@, i as nat),
        decreases n - i,
    {
        let ghost out0 = out.deep_view();
        match json_object_string_at(s, key, i, field) {
            Some(t) => {
                let ghost tv = t@;
                out.push(t);
                proof {
                    assert(out.deep_view() =~= out0 + seq![tv]);
                }
            },
            None => {
                proof {
                    assert(out.deep_view() + Seq::<Seq<char>>::empty() =~= out.deep_view());
                }
            },
        }
        i += 1;
    }
    out
}

/// A decimal digit.
pub open spec fn is_digit(c: char) -> bool {
    48 <= c as u32 && c as u32 <= 57
}

/// The value of a decimal digit.
pub open spec fn digit_val(c: char) -> nat {
    (c as u32 - 48) as nat
}

/// Whether every character is a decimal digit.
pub open spec fn all_digits(s: Seq<char>) -> bool {
    forall|i: int| 0 <= i < s.len() ==> is_digit(#[trigger] s[i])
}

/// The number the digits spell, most significant first.
pub open spec fn digits_value(s: Seq<char>) -> nat
    decreases s.len(),
{
    if s.len() == 0 {
        0
    } else {
        digits_value(s.drop_last()) * 10 + digit_val(s.last())
    }
}

/// Caps a count at 101; values at or above the cap all behave alike when
/// clamped to a confidence.
pub open spec fn cap101(n: nat) -> nat {
    if n > 101 {
        101
    } else {
        n
    }
}

/// The first two fractional digits as hundredths; a single digit counts
/// as tenths.
pub open spec fn frac_hundredths(fp: Seq<char>) -> nat {
    if fp.len() == 1 {
        digit_val(fp[0]) * 10
    } else {
        digit_val(fp[0]) * 10 + digit_val(fp[1])
    }
}

/// Clamps a hundredths count into the confidence range [0, 100].
pub open spec fn clamp100(n: nat) -> u32 {
    if n > 100 {
        100
    } else {
        n as u32
    }
}

/// The confidence, in clamped hundredths, that a decimal text denotes:
/// digits, optionally followed by a dot and more digits. Any other shape
/// (signs, exponents, empty parts) yields `None`.
pub open spec fn conf_hundredths_spec(s: Seq<char>) -> Option<u32> {
    let d = find_char(s, '.');
    if d < 0 {
        if s.len() > 0 && all_digits(s) {
            Some(clamp100(digits_value(s) * 100))
        } else {
            None
        }
    } else {
        let ip = s.subrange(0, d);
        let fp = s.subrange(d + 1, s.len() as int);
        if ip.len() > 0 && fp.len() > 0 && all_digits(ip) && all_digits(fp) {
            Some(clamp100(digits_value(ip) * 100 + frac_hundredths(fp)))
        } else {
            None
        }
    }
}

/// Whether the whole string is made of decimal digits.
fn all_digits_str(s: &str) -> (r: bool)
    ensures
        r == all_digits(s@),
{
    let len = s.unicode_len();
    let mut k: usize = 0;
    while k < len
        invariant
            len == s@.len(),
            k <= len,
            forall|j: int| 0 <= j < k ==> is_digit(#[trigger] s@[j]),
        decreases len - k,
    {
        let c = s.get_char(k);
        let u = c as u32;
        if !(48 <= u && u <= 57) {
            return false;
        }
        k += 1;
    }
    true
}

/// The number the digits spell, capped at 101.
fn digits_value_capped(s: &str) -> (r: u32)
    requires
        all_digits(s@),
    ensures
        r as nat == cap101(digits_value(s@)),
{
    let len = s.unicode_len();
    let mut acc: u32 = 0;
    let mut k: usize = 0;
    proof {
        assert(s@.take(0) =~= Seq::<char>::empty());
    }
    while k < len
        invariant
            len == s@.len(),
            k <= len,
            all_digits(s@),
            acc <= 101,
            acc as nat == cap101(digits_value(s@.take(k as int))),
        decreases len - k,
    {
        let c = s.get_char(k);
        let d: u32 = (c as u32) - 48;
        proof {
            assert(is_digit(s@[k as int]));
            assert(s@.take(k as int + 1).drop_last() =~= s@.take(k as int));
            assert(s@.take(k as int + 1).last() == s@[k as int]);
        }
        let raw: u32 = acc * 10 + d;
        acc = if raw > 101 {
            101
        } else {
            raw
        };
        k += 1;
    }
    proof {
        assert(s@.take(len as int) =~= s@);
    }
    acc
}

/// The first two fractional digits as hundredths.
fn frac_hundredths_exec(fp: &str) -> (r: u32)
    requires
        all_digits(fp@),
        fp@.len() > 0,
    ensures
        r as nat == frac_hundredths(fp@),
        r <= 99,
{
    let len = fp.unicode_len();
    let c0 = fp.get_char(0);
    proof {
        assert(is_digit(fp@[0]));
    }
    let d0: u32 = (c0 as u32) - 48;
    if len == 1 {
        d0 * 10
    } else {
        let c1 = fp.get_char(1);
        proof {
            assert(is_digit(fp@[1]));
        }
        let d1: u32 = (c1 as u32) - 48;
        d0 * 10 + d1
    }
}

/// Reads a decimal confidence text into clamped hundredths.
pub fn conf_hundredths(s: &str) -> (r: Option<u32>)
    ensures
        r == conf_hundredths_spec(s@),
        r matches Some(v) ==> v <= 100,
{
    let len = s.unicode_len();
    match find_char_str(s, '.') {
        None => {
            if len > 0 && all_digits_str(s) {
                let v = digits_value_capped(s);
                let h: u32 = if v == 0 {
                    0
                } else {
                    100
                };
                proof {
                    let dv = digits_value(s@);
                    assert(v as nat == cap101(dv));
                    if dv == 0 {
                        assert(clamp100(dv * 100) == 0);
                    } else {
                        assert(dv * 100 >= 100);
                        assert(clamp100(dv * 100) == 100);
                    }
                }
                Some(h)
            } else {
                None
            }
        },
        Some(d) => {
            proof {
                lemma_find_char(s@, '.');
            }
            let ip = s.substring_char(0, d);
            let fp = s.substring_char(d + 1, len);
            if ip.unicode_len() > 0 && fp.unicode_len() > 0 && all_digits_str(ip)
                && all_digits_str(fp) {
                let iv = digits_value_capped(ip);
                let f = frac_hundredths_exec(fp);
                let h: u32 = if iv == 0 {
                    f
                } else {
                    100
                };
                proof {
                    let dv = digits_value(ip@);
                    let fv = frac_hundredths(fp@);
                    assert(iv as nat == cap101(dv));
                    if dv == 0 {
                        assert(clamp100(dv * 100 + fv) == f);
                    } else {
                        assert(dv * 100 >= 100);
                        assert(clamp100(dv * 100 + fv) == 100);
                    }
                }
                Some(h)
            } else {
                None
            }
        },
    }
}

} // verus!
