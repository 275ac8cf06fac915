//! The persisted setting: the interval, stored as a single JSON integer.
use vstd::prelude::*;

use crate::schedule::{with_interval, AppState, IntervalError, DEFAULT_INTERVAL_SECS};

verus! {

#[verifier::external_type_specification]
#[verifier::external_body]
pub struct ExJsonError(serde_json::Error);

/// The decimal digits of `n`, most significant first, with no leading zero.
pub open spec fn decimal_text(n: nat) -> Seq<char>
    decreases n,
{
    let digit = seq!['0', '1', '2', '3', '4', '5', '6', '7', '8', '9'][(n % 10) as int];
    if n < 10 {
        seq![digit]
    } else {
        decimal_text(n / 10).push(digit)
    }
}

/// Whitespace as JSON defines it.
pub open spec fn is_json_space(c: char) -> bool {
    c == ' ' || c == '\n' || c == '\t' || c == '\r'
}

pub open spec fn is_digit(c: char) -> bool {
    '0' <= c && c <= '9'
}

/// The number that a run of decimal digits denotes.
pub open spec fn digits_value(d: Seq<char>) -> nat
    decreases d.len(),
{
    if d.len() == 0 {
        0
    } else {
        digits_value(d.drop_last()) * 10 + (d.last() as u32 - '0' as u32) as nat
    }
}

/// The digits of a JSON integer: `0`, or a run of digits not starting with `0`.
pub open spec fn is_json_digits(d: Seq<char>) -> bool {
    &&& d.len() > 0
    &&& forall|k: int| 0 <= k < d.len() ==> is_digit(#[trigger] d[k])
    &&& d.len() == 1 || d[0] != '0'
}

/// `s[i..j]` holds the digits of `n`, and only JSON whitespace surrounds them.
pub open spec fn is_json_u64_at(s: Seq<char>, n: u64, i: int, j: int) -> bool {
    &&& 0 <= i < j <= s.len()
    &&& forall|k: int| 0 <= k < i ==> is_json_space(#[trigger] s[k])
    &&& forall|k: int| j <= k < s.len() ==> is_json_space(#[trigger] s[k])
    &&& is_json_digits(s.subrange(i, j))
    &&& digits_value(s.subrange(i, j)) == n
}

/// `s` is the JSON integer `n`, possibly padded with JSON whitespace. Signs,
/// fractions and exponents are not part of this form.
pub open spec fn is_json_u64(s: Seq<char>, n: u64) -> bool {
    exists|i: int, j: int| is_json_u64_at(s, n, i, j)
}

/// The `u64` that a text holds as JSON, if it holds one.
pub open spec fn json_u64_of(s: Seq<char>) -> Option<u64> {
    if exists|n: u64| is_json_u64(s, n) {
        Some(choose|n: u64| is_json_u64(s, n))
    } else {
        None
    }
}

/// Relies on serde_json::to_string on a `u64`: it writes the number with
/// itoa, in decimal with no sign and no leading zero, into a `Vec`, which
/// cannot fail.
#[verifier::external_body]
fn encode_u64(n: u64) -> (r: Result<String, serde_json::Error>)
    ensures
        r is Ok,
        r->Ok_0@ == decimal_text(n as nat),
{
    serde_json::to_string(&n)
}

/// Relies on serde_json::from_str::<u64>: it skips JSON whitespace, reads an
/// integer without a leading zero, sign, fraction or exponent that fits in a
/// `u64`, and then accepts only JSON whitespace up to the end.
#[verifier::external_body]
fn decode_u64(s: &str) -> (r: Result<u64, serde_json::Error>)
    ensures
        r is Ok ==> is_json_u64(s@, r->Ok_0),
        r is Err ==> forall|n: u64| !is_json_u64(s@, n),
{
    serde_json::from_str::<u64>(s)
}

/// A text holds at most one JSON integer.
pub proof fn lemma_json_u64_unique(s: Seq<char>, a: u64, b: u64)
    requires
        is_json_u64(s, a),
        is_json_u64(s, b),
    ensures
        a == b,
{
    let (i1, j1) = choose|i: int, j: int| is_json_u64_at(s, a, i, j);
    let (i2, j2) = choose|i: int, j: int| is_json_u64_at(s, b, i, j);
    if i1 < i2 {
        assert(s.subrange(i1, j1)[0] == s[i1]);
        assert(is_json_space(s[i1]));
    }
    if i2 < i1 {
        assert(s.subrange(i2, j2)[0] == s[i2]);
        assert(is_json_space(s[i2]));
    }
    if j1 < j2 {
        assert(s.subrange(i2, j2)[j1 - i2] == s[j1]);
        assert(is_json_space(s[j1]));
    }
    if j2 < j1 {
        assert(s.subrange(i1, j1)[j2 - i1] == s[j2]);
        assert(is_json_space(s[j2]));
    }
    assert(s.subrange(i1, j1) == s.subrange(i2, j2));
}

proof fn lemma_decimal_text_digits(n: nat)
    ensures
        is_json_digits(decimal_text(n)),
        n > 0 ==> decimal_text(n)[0] != '0',
        digits_value(decimal_text(n)) == n,
    decreases n,
{
    let digits = seq!['0', '1', '2', '3', '4', '5', '6', '7', '8', '9'];
    assert forall|d: int| 0 <= d < 10 implies is_digit(digits[d]) && (digits[d] as u32 - '0' as u32)
        == d by {}
    let t = decimal_text(n);
    let d = (n % 10) as int;
    assert(t.last() == digits[d]);
    assert(digits[d] as u32 - '0' as u32 == d);
    assert(digits_value(t) == digits_value(t.drop_last()) * 10 + d);
    if n < 10 {
        assert(t.drop_last() =~= Seq::<char>::empty());
        assert(digits_value(t.drop_last()) == 0);
    } else {
        assert((n / 10) * 10 + n % 10 == n) by (nonlinear_arith);
        lemma_decimal_text_digits(n / 10);
        let p = decimal_text(n / 10);
        assert(t.drop_last() =~= p);
        assert(t[0] == p[0]);
        assert forall|k: int| 0 <= k < t.len() implies is_digit(#[trigger] t[k]) by {
            if k < p.len() {
                assert(t[k] == p[k]);
            }
        }
    }
}

/// The text written for a `u64` reads back as that same number.
pub proof fn lemma_decimal_text_round_trip(n: u64)
    ensures
        json_u64_of(decimal_text(n as nat)) == Some(n),
{
    let t = decimal_text(n as nat);
    lemma_decimal_text_digits(n as nat);
    assert(t.subrange(0, t.len() as int) =~= t);
    assert(is_json_u64_at(t, n, 0, t.len() as int));
    assert(is_json_u64(t, n));
    let c = choose|m: u64| is_json_u64(t, m);
    lemma_json_u64_unique(t, n, c);
}

/// A positive interval, once saved, is the interval loaded on the next start.
pub proof fn lemma_saved_interval_restored(n: u64)
    requires
        n > 0,
    ensures
        saved_interval(json_u64_of(decimal_text(n as nat))) == n,
{
    lemma_decimal_text_round_trip(n);
}

/// The interval that a saved value stands for: a positive number is taken as
/// it is; a value that could not be read, or zero, gives the default.
pub open spec fn saved_interval(decoded: Option<u64>) -> u64 {
    match decoded {
        Some(n) => if n > 0 { n } else { DEFAULT_INTERVAL_SECS },
        None => DEFAULT_INTERVAL_SECS,
    }
}

/// The interval to start with, given what the settings file decoded to.
pub fn interval_from_saved(decoded: Option<u64>) -> (r: u64)
    ensures
        r == saved_interval(decoded),
        r > 0,
{
    match decoded {
        Some(n) => if n > 0 {
            n
        } else {
            DEFAULT_INTERVAL_SECS
        },
        None => DEFAULT_INTERVAL_SECS,
    }
}

/// The interval to start with, given the settings file's text, or `None`
/// when the file is missing or unreadable. Nothing here fails: a missing or
/// corrupt file gives the default, and the text saved for a positive interval
/// gives that interval back.
pub fn load_interval(content: Option<&str>) -> (r: u64)
    ensures
        r > 0,
        content is None ==> r == DEFAULT_INTERVAL_SECS,
        content is Some ==> r == saved_interval(json_u64_of(content->0@)),
        forall|n: u64|
            n > 0 && content is Some && #[trigger] decimal_text(n as nat) == content->0@ ==> r
                == n,
{
    match content {
        None => DEFAULT_INTERVAL_SECS,
        Some(text) => {
            let decoded = match decode_u64(text) {
                Ok(n) => Some(n),
                Err(_) => None,
            };
            proof {
                if let Some(v) = decoded {
                    let c = choose|m: u64| is_json_u64(text@, m);
                    lemma_json_u64_unique(text@, v, c);
                }
                assert forall|n: u64|
                    n > 0 && #[trigger] decimal_text(n as nat) == text@ implies saved_interval(
                    decoded,
                ) == n by {
                    lemma_saved_interval_restored(n);
                }
            }
            interval_from_saved(decoded)
        },
    }
}

/// The text stored in the settings file for an interval: its decimal digits.
pub fn encode_interval(interval: u64) -> (r: String)
    ensures
        r@ == decimal_text(interval as nat),
{
    encode_u64(interval).unwrap()
}

impl AppState {
    /// The state at process start: the interval loaded from the settings
    /// file's text (see `load_interval`), with `now` as the baseline.
    pub fn restore(now: u64, content: Option<&str>) -> (s: AppState)
        ensures
            s.wf(),
            s@.last_shown == now,
            content is None ==> s@.interval == DEFAULT_INTERVAL_SECS,
            content is Some ==> s@.interval == saved_interval(json_u64_of(content->0@)),
            forall|n: u64|
                n > 0 && content is Some && #[trigger] decimal_text(n as nat) == content->0@
                    ==> s@.interval == n,
    {
        let interval = load_interval(content);
        let mut s = AppState::new(now);
        let _ = s.set_interval(interval);
        s
    }

    /// Sets the interval and returns the text to persist for it. Zero is
    /// refused and changes nothing. Otherwise the interval is replaced, the
    /// baseline kept, and the text is the interval's decimal digits.
    pub fn update_settings(&mut self, interval: u64) -> (r: Result<String, IntervalError>)
        requires
            old(self).wf(),
        ensures
            final(self).wf(),
            interval == 0 ==> r == Err::<String, IntervalError>(IntervalError::Zero)
                && final(self)@ == old(self)@,
            interval > 0 ==> r is Ok && r->Ok_0@ == decimal_text(interval as nat)
                && final(self)@ == with_interval(old(self)@, interval as nat),
    {
        match self.set_interval(interval) {
            Err(e) => Err(e),
            Ok(()) => Ok(encode_interval(interval)),
        }
    }
}

} // verus!
