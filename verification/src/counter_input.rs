//! The numeric text control model: parsing the text a field holds and
//! formatting the text pushed back into it.
//!
//! A field's content is treated purely as a string of bytes to parse or
//! format as an integer; the widget itself (focus, cursor, events) lives
//! outside the library.

use vstd::prelude::*;

verus! {

/// ASCII decimal digit.
pub open spec fn is_digit(c: u8) -> bool {
    48 <= c <= 57
}

/// Every byte of `s` is an ASCII digit.
pub open spec fn all_digits(s: Seq<u8>) -> bool {
    forall|i: int| 0 <= i < s.len() ==> is_digit(#[trigger] s[i])
}

/// The value of a digit string, most significant digit first.
pub open spec fn digits_val(s: Seq<u8>) -> int
    decreases s.len(),
{
    if s.len() == 0 {
        0
    } else {
        digits_val(s.drop_last()) * 10 + (s.last() - 48)
    }
}

/// What parsing an unsigned decimal accepts: an optional leading `+`, then
/// one or more digits, with the value in range.
pub open spec fn parse_u32_spec(s: Seq<u8>) -> Option<u32> {
    let body = if s.len() >= 1 && s[0] == 43 {
        s.skip(1)
    } else {
        s
    };
    if body.len() >= 1 && all_digits(body) && digits_val(body) <= u32::MAX {
        Some(digits_val(body) as u32)
    } else {
        None
    }
}

/// What parsing a signed decimal accepts: an optional leading `+` or `-`,
/// then one or more digits, with the value in range.
pub open spec fn parse_i32_spec(s: Seq<u8>) -> Option<i32> {
    let neg = s.len() >= 1 && s[0] == 45;
    let body = if s.len() >= 1 && (s[0] == 43 || s[0] == 45) {
        s.skip(1)
    } else {
        s
    };
    if body.len() >= 1 && all_digits(body) {
        if neg {
            if digits_val(body) <= 0x8000_0000 {
                Some((-digits_val(body)) as i32)
            } else {
                None
            }
        } else {
            if digits_val(body) <= i32::MAX {
                Some(digits_val(body) as i32)
            } else {
                None
            }
        }
    } else {
        None
    }
}

/// The value of a digit string is non-negative.
proof fn lemma_digits_val_nonneg(s: Seq<u8>)
    requires
        all_digits(s),
    ensures
        digits_val(s) >= 0,
    decreases s.len(),
{
    if s.len() > 0 {
        lemma_digits_val_nonneg(s.drop_last());
    }
}

/// Extending a digit string never shrinks its value.
proof fn lemma_digits_val_prefix_le(s: Seq<u8>, k: int)
    requires
        all_digits(s),
        0 <= k <= s.len(),
    ensures
        digits_val(s.subrange(0, k)) <= digits_val(s),
    decreases s.len(),
{
    if k < s.len() {
        lemma_digits_val_nonneg(s.drop_last());
        assert(s.drop_last().subrange(0, k) =~= s.subrange(0, k));
        lemma_digits_val_prefix_le(s.drop_last(), k);
    } else {
        assert(s.subrange(0, k) =~= s);
    }
}

/// Scan `s[start..]` as an unsigned decimal number.  Returns the value if
/// every byte is a digit and the value does not exceed `limit`.
fn scan_digits(s: &[u8], start: usize, limit: u64) -> (r: Option<u64>)
    requires
        start <= s@.len(),
        limit <= 0xFFFF_FFFF,
    ensures
        ({
            let body = s@.skip(start as int);
            if body.len() >= 1 && all_digits(body) && digits_val(body) <= limit {
                &&& 0 <= digits_val(body) <= limit
                &&& r == Some(digits_val(body) as u64)
            } else {
                r is None
            }
        }),
{
    let ghost body = s@.skip(start as int);
    let n = s.len();
    if start == n {
        return None;
    }
    let mut acc: u64 = 0;
    let mut j: usize = start;
    while j < n
        invariant
            start <= j <= n,
            n == s@.len(),
            body == s@.skip(start as int),
            limit <= 0xFFFF_FFFF,
            forall|k: int| start <= k < j ==> is_digit(#[trigger] s@[k]),
            acc == digits_val(s@.subrange(start as int, j as int)),
            acc <= limit,
        decreases n - j,
    {
        let c = s[j];
        if c < 48 || c > 57 {
            proof {
                assert(body[j - start as int] == s@[j as int]);
            }
            return None;
        }
        proof {
            assert(s@.subrange(start as int, j + 1).drop_last() =~= s@.subrange(
                start as int,
                j as int,
            ));
            assert(s@.subrange(start as int, j + 1).last() == s@[j as int]);
        }
        acc = acc * 10 + (c - 48) as u64;
        j = j + 1;
        if acc > limit {
            proof {
                if all_digits(body) {
                    assert(body.subrange(0, j - start as int) =~= s@.subrange(
                        start as int,
                        j as int,
                    ));
                    lemma_digits_val_prefix_le(body, j - start as int);
                }
            }
            return None;
        }
    }
    proof {
        assert(s@.subrange(start as int, n as int) =~= body);
    }
    Some(acc)
}

/// Parse the text of a numeric field as a `u32`, accepting what
/// `str::parse::<u32>` accepts: an optional leading `+` and then only
/// digits, rejecting empty text and out-of-range values.
pub fn parse_u32(s: &[u8]) -> (r: Option<u32>)
    ensures
        r == parse_u32_spec(s@),
{
    if s.len() >= 1 && s[0] == 43 {
        match scan_digits(s, 1, 0xFFFF_FFFF) {
            Some(v) => Some(v as u32),
            None => None,
        }
    } else {
        proof {
            assert(s@.skip(0) =~= s@);
        }
        match scan_digits(s, 0, 0xFFFF_FFFF) {
            Some(v) => Some(v as u32),
            None => None,
        }
    }
}

/// Parse the text of a numeric field as an `i32`, accepting what
/// `str::parse::<i32>` accepts: an optional sign and then only digits,
/// rejecting empty text and out-of-range values.
pub fn parse_i32(s: &[u8]) -> (r: Option<i32>)
    ensures
        r == parse_i32_spec(s@),
{
    if s.len() >= 1 && s[0] == 45 {
        match scan_digits(s, 1, 0x8000_0000) {
            Some(v) => Some((-(v as i64)) as i32),
            None => None,
        }
    } else if s.len() >= 1 && s[0] == 43 {
        match scan_digits(s, 1, 0x7FFF_FFFF) {
            Some(v) => Some(v as i32),
            None => None,
        }
    } else {
        proof {
            assert(s@.skip(0) =~= s@);
        }
        match scan_digits(s, 0, 0x7FFF_FFFF) {
            Some(v) => Some(v as i32),
            None => None,
        }
    }
}

/// The canonical decimal digits of a non-negative number: no sign, no
/// leading zeros (except for zero itself).
pub open spec fn dec_spec(n: int) -> Seq<u8>
    decreases n,
{
    if n < 10 {
        seq![(48 + n) as u8]
    } else {
        dec_spec(n / 10).push((48 + n % 10) as u8)
    }
}

/// Format a number the way the text fields display it.
pub fn u32_to_dec(n: u32) -> (r: Vec<u8>)
    ensures
        r@ == dec_spec(n as int),
    decreases n,
{
    if n < 10 {
        let mut v: Vec<u8> = Vec::new();
        v.push(48 + n as u8);
        v
    } else {
        let mut v = u32_to_dec(n / 10);
        v.push(48 + (n % 10) as u8);
        v
    }
}

/// Formatting then parsing gives the number back: the text the library
/// pushes into a field always re-parses to the same value.
pub proof fn lemma_format_parse_roundtrip(n: u32)
    ensures
        parse_u32_spec(dec_spec(n as int)) == Some(n),
{
    lemma_dec_spec_digits(n as int);
    let s = dec_spec(n as int);
    assert(s.len() >= 1 && s[0] != 43);
    assert(s.skip(0) =~= s);
    assert(parse_u32_spec(s) == Some(n));
}

/// The canonical digits of `n` are digits and evaluate back to `n`.
proof fn lemma_dec_spec_digits(n: int)
    requires
        0 <= n <= u32::MAX,
    ensures
        all_digits(dec_spec(n)),
        digits_val(dec_spec(n)) == n,
        dec_spec(n).len() >= 1,
        is_digit(dec_spec(n)[0]),
    decreases n,
{
    if n < 10 {
        let s = dec_spec(n);
        assert(s.drop_last() =~= Seq::<u8>::empty());
        assert(digits_val(Seq::<u8>::empty()) == 0);
        assert(s.last() == (48 + n) as u8);
        assert(digits_val(s) == digits_val(s.drop_last()) * 10 + (s.last() - 48));
        assert(digits_val(s) == n);
    } else {
        lemma_dec_spec_digits(n / 10);
        let p = dec_spec(n / 10);
        let s = dec_spec(n);
        assert(s.drop_last() =~= p);
        assert(digits_val(s) == digits_val(p) * 10 + n % 10);
        assert(digits_val(p) * 10 + n % 10 == n) by {
            vstd::arithmetic::div_mod::lemma_fundamental_div_mod(n, 10);
        }
        assert forall|i: int| 0 <= i < s.len() implies is_digit(#[trigger] s[i]) by {
            if i < p.len() {
                assert(s[i] == p[i]);
            }
        }
        assert(s[0] == p[0]);
    }
}

/// A stepper action on a numeric field.
#[derive(Clone, Copy, Debug, PartialEq, Eq, Structural)]
pub enum StepAction {
    Increment,
    Decrement,
}

/// The model of one numeric text control: the last integer value it held.
pub struct CounterView {
    pub counter_value: i32,
}

impl CounterView {
    pub fn new(default_value: i32) -> (r: CounterView)
        ensures
            r.counter_value == default_value,
    {
        CounterView { counter_value: default_value }
    }

    /// The field's text changed: adopt the new value if the text parses as
    /// an integer, keep the old one otherwise.
    pub fn on_input_event(&mut self, text: &[u8])
        ensures
            match parse_i32_spec(text@) {
                Some(v) => final(self).counter_value == v,
                None => final(self).counter_value == old(self).counter_value,
            },
    {
        if let Some(value) = parse_i32(text) {
            self.counter_value = value;
        }
    }

    /// A stepper click: adjust the value by one and return the text to push
    /// back into the field.
    pub fn on_number_event(&mut self, action: StepAction) -> (r: Vec<u8>)
        requires
            action == StepAction::Increment ==> old(self).counter_value < i32::MAX,
            action == StepAction::Decrement ==> old(self).counter_value > i32::MIN,
        ensures
            final(self).counter_value == old(self).counter_value + (
            if action == StepAction::Increment {
                1int
            } else {
                -1int
            }),
            ({
                let v = final(self).counter_value;
                if v >= 0 {
                    r@ == dec_spec(v as int)
                } else {
                    r@ == seq![45u8] + dec_spec(-(v as int))
                }
            }),
    {
        match action {
            StepAction::Increment => {
                self.counter_value = self.counter_value + 1;
            },
            StepAction::Decrement => {
                self.counter_value = self.counter_value - 1;
            },
        }
        i32_to_dec(self.counter_value)
    }
}

/// Format a signed number the way the text fields display it.
pub fn i32_to_dec(v: i32) -> (r: Vec<u8>)
    ensures
        v >= 0 ==> r@ == dec_spec(v as int),
        v < 0 ==> r@ == seq![45u8] + dec_spec(-(v as int)),
{
    if v >= 0 {
        u32_to_dec(v as u32)
    } else {
        let m: u32 = (-(v as i64)) as u32;
        let d = u32_to_dec(m);
        let mut out: Vec<u8> = Vec::new();
        out.push(45);
        let mut i: usize = 0;
        while i < d.len()
            invariant
                i <= d@.len(),
                out@ == seq![45u8] + d@.subrange(0, i as int),
            decreases d@.len() - i,
    {
            out.push(d[i]);
            proof {
                assert(seq![45u8] + d@.subrange(0, i + 1) =~= (seq![45u8] + d@.subrange(
                    0,
                    i as int,
                )).push(d@[i as int]));
            }
            i = i + 1;
        }
        proof {
            assert(d@.subrange(0, d@.len() as int) =~= d@);
        }
        out
    }
}

} // verus!
