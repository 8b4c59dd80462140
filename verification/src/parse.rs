//! Parsing of host-supplied numeric text into fixed-point units.
//!
//! The recognized grammar is the documented one and nothing wider: an
//! optional minus sign, one or more digits, and optionally a point followed
//! by one or more digits. The value is scaled by a thousand
//! (see [`crate::UNIT`]); digits past the third fractional place are
//! truncated. Text outside the grammar, and integer parts of more than
//! thirteen digits, parse to nothing, so that callers fall back to their
//! field defaults.

use vstd::prelude::*;

verus! {

/// The integer part may hold at most this many digits; the value then
/// stays far inside the `i64` range after scaling.
pub const MAX_INT_DIGITS: usize = 13;

/// Whether `c` is a decimal digit.
pub open spec fn is_digit(c: char) -> bool {
    48 <= c as u32 <= 57
}

/// The numeric value of a decimal digit.
pub open spec fn digit_val(c: char) -> int {
    c as u32 - 48
}

/// Whether every character of `s` is a decimal digit.
pub open spec fn all_digits(s: Seq<char>) -> bool {
    forall|i: int| 0 <= i < s.len() ==> is_digit(#[trigger] s[i])
}

/// The value of a digit sequence read in base ten.
pub open spec fn digits_val(s: Seq<char>) -> int
    decreases s.len(),
{
    if s.len() == 0 {
        0
    } else {
        10 * digits_val(s.drop_last()) + digit_val(s.last())
    }
}

/// The length of the longest digit prefix of `s`.
pub open spec fn digit_run_len(s: Seq<char>) -> int
    decreases s.len(),
{
    if s.len() == 0 || !is_digit(s[0]) {
        0
    } else {
        1 + digit_run_len(s.skip(1))
    }
}

/// Ten to the `n`th power.
pub open spec fn pow10(n: nat) -> int
    decreases n,
{
    if n == 0 {
        1
    } else {
        10 * pow10((n - 1) as nat)
    }
}

/// The fixed-point value of a fractional digit sequence, truncated to
/// three places: `"25"` contributes two hundred and fifty thousandths.
pub open spec fn frac_val(s: Seq<char>) -> int {
    if s.len() >= 3 {
        digits_val(s.subrange(0, 3))
    } else if s.len() == 2 {
        10 * digits_val(s)
    } else {
        100 * digits_val(s)
    }
}

/// Whether the unsigned body of a number is well formed: a digit run of
/// one to [`MAX_INT_DIGITS`] digits, either alone or followed by a point
/// and at least one digit, with digits filling the rest.
pub open spec fn number_wf(s: Seq<char>) -> bool {
    let k = digit_run_len(s);
    &&& 1 <= k <= MAX_INT_DIGITS
    &&& (k == s.len() || (s[k] == '.' && s.len() >= k + 2 && all_digits(s.skip(k + 1))))
}

/// The fixed-point value of a well-formed unsigned number body.
pub open spec fn number_val(s: Seq<char>) -> int {
    let k = digit_run_len(s);
    if k == s.len() {
        1000 * digits_val(s)
    } else {
        1000 * digits_val(s.subrange(0, k)) + frac_val(s.skip(k + 1))
    }
}

/// What a piece of numeric text denotes in fixed-point units, if anything.
pub open spec fn parse_units_spec(s: Seq<char>) -> Option<int> {
    let neg = s.len() > 0 && s[0] == '-';
    let body = if neg {
        s.skip(1)
    } else {
        s
    };
    if number_wf(body) {
        if neg {
            Some(-number_val(body))
        } else {
            Some(number_val(body))
        }
    } else {
        None
    }
}

/// A digit sequence's value is below ten to its length.
pub proof fn lemma_digits_val_bound(s: Seq<char>)
    requires
        all_digits(s),
    ensures
        0 <= digits_val(s) < pow10(s.len()),
    decreases s.len(),
{
    if s.len() == 0 {
    } else {
        assert(all_digits(s.drop_last()));
        lemma_digits_val_bound(s.drop_last());
        assert(pow10(s.len()) == 10 * pow10((s.len() - 1) as nat));
    }
}

/// A fractional digit sequence contributes less than one whole unit.
pub proof fn lemma_frac_val_bound(s: Seq<char>)
    requires
        all_digits(s),
    ensures
        0 <= frac_val(s) < 1000,
{
    assert(pow10(0) == 1);
    assert(pow10(1) == 10);
    assert(pow10(2) == 100);
    assert(pow10(3) == 1000);
    if s.len() >= 3 {
        assert(all_digits(s.subrange(0, 3)));
        lemma_digits_val_bound(s.subrange(0, 3));
    } else {
        lemma_digits_val_bound(s);
        if s.len() == 2 {
        } else {
            assert(pow10(s.len()) <= pow10(1)) by {
                lemma_pow10_monotone(s.len(), 1);
            }
        }
    }
}

/// A well-formed number denotes a value within sixteen decimal digits of
/// fixed-point units.
pub proof fn lemma_parse_units_spec_bound(s: Seq<char>)
    requires
        parse_units_spec(s) is Some,
    ensures
        -10_000_000_000_000_000 < parse_units_spec(s)->0 < 10_000_000_000_000_000,
{
    let neg = s.len() > 0 && s[0] == '-';
    let body = if neg {
        s.skip(1)
    } else {
        s
    };
    let k = digit_run_len(body);
    lemma_digit_run_props(body);
    lemma_pow10_13();
    if k == body.len() {
        assert(all_digits(body));
        lemma_digits_val_bound(body);
        lemma_pow10_monotone(body.len(), 13);
    } else {
        let prefix = body.subrange(0, k);
        assert(all_digits(prefix)) by {
            assert(forall|i: int| 0 <= i < k ==> prefix[i] == body[i]);
        }
        lemma_digits_val_bound(prefix);
        lemma_pow10_monotone(prefix.len(), 13);
        lemma_frac_val_bound(body.skip(k + 1));
    }
}

/// Ten to the thirteenth, spelled out.
pub proof fn lemma_pow10_13()
    ensures
        pow10(13) == 10_000_000_000_000,
{
    assert(pow10(0) == 1);
    assert(pow10(1) == 10);
    assert(pow10(2) == 100);
    assert(pow10(3) == 1000);
    assert(pow10(4) == 10_000);
    assert(pow10(5) == 100_000);
    assert(pow10(6) == 1_000_000);
    assert(pow10(7) == 10_000_000);
    assert(pow10(8) == 100_000_000);
    assert(pow10(9) == 1_000_000_000);
    assert(pow10(10) == 10_000_000_000);
    assert(pow10(11) == 100_000_000_000);
    assert(pow10(12) == 1_000_000_000_000);
    assert(pow10(13) == 10_000_000_000_000);
}

/// Appending one digit multiplies the value by ten and adds the digit.
pub proof fn lemma_digits_val_snoc(s: Seq<char>, i: int)
    requires
        0 <= i < s.len(),
    ensures
        digits_val(s.subrange(0, i + 1)) == 10 * digits_val(s.subrange(0, i)) + digit_val(s[i]),
{
    let t = s.subrange(0, i + 1);
    assert(t.drop_last() =~= s.subrange(0, i));
    assert(t.last() == s[i]);
}

/// The digit-run length is the unique cut that the scanning loop finds.
pub proof fn lemma_digit_run_characterize(s: Seq<char>, k: int)
    requires
        0 <= k <= s.len(),
        forall|i: int| 0 <= i < k ==> is_digit(#[trigger] s[i]),
        k < s.len() ==> !is_digit(s[k]),
    ensures
        digit_run_len(s) == k,
    decreases s.len(),
{
    if s.len() == 0 {
    } else if k == 0 {
    } else {
        let t = s.skip(1);
        assert(forall|i: int| 0 <= i < k - 1 ==> is_digit(#[trigger] t[i]));
        assert(k - 1 < t.len() ==> !is_digit(t[k - 1]));
        lemma_digit_run_characterize(t, k - 1);
    }
}

/// Every position inside the digit run holds a digit, and the position
/// after it, if any, does not.
pub proof fn lemma_digit_run_props(s: Seq<char>)
    ensures
        0 <= digit_run_len(s) <= s.len(),
        forall|i: int| 0 <= i < digit_run_len(s) ==> is_digit(#[trigger] s[i]),
        digit_run_len(s) < s.len() ==> !is_digit(s[digit_run_len(s)]),
    decreases s.len(),
{
    if s.len() == 0 || !is_digit(s[0]) {
    } else {
        lemma_digit_run_props(s.skip(1));
        let t = s.skip(1);
        assert forall|i: int| 0 <= i < digit_run_len(s) implies is_digit(#[trigger] s[i]) by {
            if i > 0 {
                assert(is_digit(t[i - 1]));
                assert(s[i] == t[i - 1]);
            }
        }
        if digit_run_len(s) < s.len() {
            assert(s[digit_run_len(s)] == t[digit_run_len(t)]);
        }
    }
}

/// Whether the character at `i` is a decimal digit, and its value.
fn digit_at(s: &str, i: usize) -> (r: Option<u8>)
    requires
        i < s@.len(),
    ensures
        match r {
            Some(d) => is_digit(s@[i as int]) && d == digit_val(s@[i as int]),
            None => !is_digit(s@[i as int]),
        },
{
    let c = s.get_char(i);
    let v = c as u32;
    if 48 <= v && v <= 57 {
        Some((v - 48) as u8)
    } else {
        None
    }
}

/// Parses numeric text into fixed-point units. Returns exactly the value
/// that [`parse_units_spec`] assigns to the text, and nothing for text
/// outside the grammar.
pub fn parse_units(s: &str) -> (r: Option<i64>)
    ensures
        match r {
            Some(v) => parse_units_spec(s@) == Some(v as int)
                && -10_000_000_000_000_000 < v < 10_000_000_000_000_000,
            None => parse_units_spec(s@) is None,
        },
{
    let n = s.unicode_len();
    let mut pos: usize = 0;
    let ghost neg: bool = s@.len() > 0 && s@[0] == '-';
    if n > 0 && s.get_char(0) == '-' {
        pos = 1;
    }
    let ghost body: Seq<char> = if neg { s@.skip(1) } else { s@ };
    let ghost start: int = pos as int;
    assert(body =~= s@.subrange(start, n as int));

    // Scan the integer part.
    let mut int_acc: i64 = 0;
    let mut digits: usize = 0;
    proof {
        lemma_pow10_13();
    }
    while pos < n && digits < 14 && digit_at(s, pos).is_some()
        invariant
            start <= pos as int <= n as int,
            n == s@.len(),
            body == s@.subrange(start, n as int),
            start == if neg { 1int } else { 0int },
            neg ==> s@.len() > 0 && s@[0] == '-',
            !neg ==> (s@.len() == 0 || s@[0] != '-'),
            digits == pos as int - start,
            digits <= 14,
            forall|i: int| start <= i < pos as int ==> is_digit(#[trigger] s@[i]),
            int_acc == digits_val(s@.subrange(start, pos as int)),
            0 <= int_acc < pow10(digits as nat),
            pow10(13) == 10_000_000_000_000,
        decreases n as int - pos as int,
    {
        let d = digit_at(s, pos).unwrap();
        proof {
            lemma_digits_val_snoc(s@, pos as int);
            assert(s@.subrange(start, pos as int + 1).drop_last() =~= s@.subrange(
                start,
                pos as int,
            ));
            assert(digits_val(s@.subrange(start, pos as int + 1)) == 10 * digits_val(
                s@.subrange(start, pos as int),
            ) + digit_val(s@[pos as int])) by {
                assert(s@.subrange(start, pos as int + 1).last() == s@[pos as int]);
            }
            assert(pow10((digits + 1) as nat) == 10 * pow10(digits as nat));
            assert(pow10(digits as nat) <= pow10(13)) by {
                lemma_pow10_monotone(digits as nat, 13);
            }
        }
        int_acc = 10 * int_acc + d as i64;
        pos = pos + 1;
        digits = digits + 1;
    }

    proof {
        // Relate the scan to the digit run of the body.
        if digits < 14 {
            assert(forall|i: int| 0 <= i < pos as int - start ==> is_digit(
                #[trigger] body[i],
            )) by {
                assert(forall|i: int| 0 <= i < pos as int - start ==> body[i] == s@[i + start]);
            }
            if (pos as int - start) < body.len() {
                assert(body[pos as int - start] == s@[pos as int]);
            }
            lemma_digit_run_characterize(body, pos as int - start);
        }
    }

    if digits == 0 {
        proof {
            assert(digit_run_len(body) == 0);
        }
        return None;
    }
    if digits > 13 {
        // The run is longer than the permitted integer part.
        proof {
            lemma_digit_run_props(body);
            assert(forall|i: int| 0 <= i < 14 ==> is_digit(#[trigger] body[i])) by {
                assert(forall|i: int| 0 <= i < 14 ==> body[i] == s@[i + start]);
            }
            if digit_run_len(body) <= 13 {
                assert(is_digit(body[digit_run_len(body)]));
                assert(false);
            }
        }
        return None;
    }

    let ghost k: int = pos as int - start;
    assert(digit_run_len(body) == k);
    proof {
        lemma_pow10_monotone(digits as nat, 13);
        assert(int_acc <= 9_999_999_999_999);
    }
    assert(int_acc == digits_val(body.subrange(0, k))) by {
        assert(s@.subrange(start, pos as int) =~= body.subrange(0, k));
    }

    if pos == n {
        // A plain whole number.
        assert(number_wf(body));
        assert(body.subrange(0, k) =~= body);
        let r = 1000 * int_acc;
        if pos > 0 && s.get_char(0) == '-' {
            return Some(-r);
        }
        return Some(r);
    }

    // A fractional part must follow.
    if s.get_char(pos) != '.' {
        proof {
            assert(body[k] == s@[pos as int]);
        }
        return None;
    }
    proof {
        assert(body[k] == s@[pos as int]);
    }
    pos = pos + 1;
    if pos == n {
        // A point with nothing after it.
        assert(body.len() == k + 1);
        return None;
    }

    let ghost fstart: int = pos as int;
    let mut frac_acc: i64 = 0;
    let mut fdigits: usize = 0;
    while pos < n
        invariant
            fstart <= pos as int <= n as int,
            fstart < n as int,
            n == s@.len(),
            body == s@.subrange(start, n as int),
            start == if neg { 1int } else { 0int },
            neg ==> s@.len() > 0 && s@[0] == '-',
            !neg ==> (s@.len() == 0 || s@[0] != '-'),
            fstart == start + k + 1,
            1 <= k <= 13,
            digit_run_len(body) == k,
            body[k] == '.',
            int_acc == digits_val(body.subrange(0, k)),
            0 <= int_acc <= 9_999_999_999_999,
            fdigits == pos as int - fstart,
            forall|i: int| fstart <= i < pos as int ==> is_digit(#[trigger] s@[i]),
            fdigits < 3 ==> frac_acc == digits_val(s@.subrange(fstart, pos as int)),
            fdigits >= 3 ==> frac_acc == digits_val(s@.subrange(fstart, fstart + 3)),
            0 <= frac_acc < 1000,
        decreases n as int - pos as int,
    {
        match digit_at(s, pos) {
            Some(d) => {
                proof {
                    if fdigits < 3 {
                        assert(s@.subrange(fstart, pos as int + 1).drop_last() =~= s@.subrange(
                            fstart,
                            pos as int,
                        ));
                        assert(s@.subrange(fstart, pos as int + 1).last() == s@[pos as int]);
                        assert(all_digits(s@.subrange(fstart, pos as int)));
                        lemma_digits_val_bound(s@.subrange(fstart, pos as int));
                        assert(pow10(2) == 100) by {
                            assert(pow10(0) == 1);
                            assert(pow10(1) == 10);
                        }
                        lemma_pow10_monotone(s@.subrange(fstart, pos as int).len() as nat, 2);
                    }
                }
                if fdigits < 3 {
                    frac_acc = 10 * frac_acc + d as i64;
                }
                pos = pos + 1;
                fdigits = fdigits + 1;
            },
            None => {
                // A stray character inside the fractional part.
                proof {
                    assert(body[pos as int - start] == s@[pos as int]);
                    assert(!all_digits(body.skip(k + 1))) by {
                        assert(body.skip(k + 1)[pos as int - fstart] == body[pos as int
                            - start]);
                    }
                    assert(!number_wf(body));
                    assert((if neg { s@.skip(1) } else { s@ }) =~= body);
                }
                return None;
            },
        }
    }

    // The whole tail is digits: the number is well formed.
    let ghost frac: Seq<char> = body.skip(k + 1);
    proof {
        assert(frac =~= s@.subrange(fstart, n as int));
        assert(all_digits(frac)) by {
            assert(forall|i: int| 0 <= i < frac.len() ==> frac[i] == s@[i + fstart]);
        }
        assert(frac.len() >= 1);
        assert(number_wf(body));
        if fdigits >= 3 {
            assert(frac.subrange(0, 3) =~= s@.subrange(fstart, fstart + 3));
        } else {
            assert(frac =~= s@.subrange(fstart, pos as int));
        }
    }
    let scaled: i64 = if fdigits >= 3 {
        frac_acc
    } else if fdigits == 2 {
        10 * frac_acc
    } else {
        100 * frac_acc
    };
    assert(scaled == frac_val(frac));
    proof {
        lemma_frac_val_bound(frac);
    }
    let r = 1000 * int_acc + scaled;
    assert(r == number_val(body));
    if s.get_char(0) == '-' {
        return Some(-r);
    }
    Some(r)
}

/// A digit sequence with a leading digit of one or more is at least ten
/// to one less than its length.
pub proof fn lemma_digits_val_lower(s: Seq<char>)
    requires
        all_digits(s),
        s.len() >= 1,
        digit_val(s[0]) >= 1,
    ensures
        digits_val(s) >= pow10((s.len() - 1) as nat),
    decreases s.len(),
{
    if s.len() == 1 {
        assert(s.drop_last().len() == 0);
        assert(digits_val(s.drop_last()) == 0);
        assert(s.last() == s[0]);
        assert(pow10(0) == 1);
    } else {
        let t = s.drop_last();
        assert(all_digits(t));
        assert(t[0] == s[0]);
        lemma_digits_val_lower(t);
        assert(pow10((s.len() - 1) as nat) == 10 * pow10((s.len() - 2) as nat));
    }
}

/// The text of one decimal digit.
fn digit_str(d: u8) -> (r: &'static str)
    requires
        d < 10,
    ensures
        r@.len() == 1,
        is_digit(r@[0]),
        digit_val(r@[0]) == d,
{
    proof {
        reveal_strlit("0");
        reveal_strlit("1");
        reveal_strlit("2");
        reveal_strlit("3");
        reveal_strlit("4");
        reveal_strlit("5");
        reveal_strlit("6");
        reveal_strlit("7");
        reveal_strlit("8");
        reveal_strlit("9");
    }
    match d {
        0 => "0",
        1 => "1",
        2 => "2",
        3 => "3",
        4 => "4",
        5 => "5",
        6 => "6",
        7 => "7",
        8 => "8",
        _ => "9",
    }
}

/// The decimal digits of a whole number, most significant first, with no
/// leading zero except for zero itself.
pub(crate) fn render_whole(v: i64) -> (r: String)
    requires
        v >= 0,
    ensures
        all_digits(r@),
        digits_val(r@) == v,
        r@.len() >= 1,
        r@.len() > 1 ==> digit_val(r@[0]) >= 1,
    decreases v,
{
    if v < 10 {
        let s = digit_str(v as u8);
        let r = s.to_owned();
        proof {
            assert(r@.len() == 1);
            assert(r@.drop_last().len() == 0);
            assert(digits_val(r@.drop_last()) == 0);
            assert(r@.last() == r@[0]);
        }
        r
    } else {
        let mut r = render_whole(v / 10);
        let d = digit_str((v % 10) as u8);
        let ghost prefix: Seq<char> = r@;
        r.append(d);
        proof {
            assert(r@.drop_last() =~= prefix);
            assert(r@.last() == d@[0]);
            assert(digits_val(r@) == 10 * digits_val(prefix) + digit_val(d@[0]));
            assert(v == 10 * (v / 10) + v % 10);
            assert(r@[0] == prefix[0]);
            if prefix.len() == 1 {
                assert(prefix.drop_last().len() == 0);
                assert(digits_val(prefix.drop_last()) == 0);
                assert(prefix.last() == prefix[0]);
                assert(digit_val(prefix[0]) == v / 10);
            }
            assert(v / 10 >= 1);
        }
        r
    }
}

/// The canonical text of a fixed-point units value: the value printed in
/// decimal with up to three fractional digits. Parsing the text yields the
/// value back.
pub fn units_to_text(u: i64) -> (r: String)
    requires
        -9_999_999_999_999_999 <= u <= 9_999_999_999_999_999,
    ensures
        parse_units_spec(r@) == Some(u as int),
{
    proof {
        reveal_strlit("-");
        reveal_strlit(".");
        lemma_pow10_13();
    }
    let neg = u < 0;
    let mag: i64 = if neg {
        -u
    } else {
        u
    };
    let whole: i64 = mag / 1000;
    let frac: i64 = mag % 1000;
    let mut r = String::new();
    if neg {
        r.append("-");
    }
    let w = render_whole(whole);
    proof {
        // At most thirteen digits: otherwise the value would be too large.
        if w@.len() > 13 {
            lemma_digits_val_lower(w@);
            lemma_pow10_monotone(13, (w@.len() - 1) as nat);
            assert(false);
        }
    }
    let ghost sign_len: int = if neg { 1int } else { 0int };
    r.append(w.as_str());
    let ghost int_text: Seq<char> = r@;
    if frac > 0 {
        r.append(".");
        let a = frac / 100;
        let rest = frac % 100;
        let b = rest / 10;
        let c = rest % 10;
        r.append(digit_str(a as u8));
        r.append(digit_str(b as u8));
        r.append(digit_str(c as u8));
        proof {
            let body = r@.skip(sign_len);
            let k = w@.len() as int;
            assert(body =~= w@ + seq!['.'] + r@.skip(int_text.len() as int + 1));
            let f = r@.skip(int_text.len() as int + 1);
            assert(f.len() == 3);
            assert(is_digit(f[0]) && digit_val(f[0]) == a);
            assert(is_digit(f[1]) && digit_val(f[1]) == b);
            assert(is_digit(f[2]) && digit_val(f[2]) == c);
            assert(body[k] == '.');
            assert(!is_digit('.'));
            assert(forall|i: int| 0 <= i < k ==> is_digit(#[trigger] body[i]) && body[i] == w@[i]);
            lemma_digit_run_characterize(body, k);
            assert(body.skip(k + 1) =~= f);
            assert(number_wf(body));
            assert(body.subrange(0, k) =~= w@);
            // The three fractional digits rebuild the fractional value.
            assert(digits_val(f) == 100 * a + 10 * b + c) by {
                assert(f.subrange(0, 0).len() == 0);
                assert(digits_val(f.subrange(0, 0)) == 0);
                assert(f.subrange(0, 1).drop_last() =~= f.subrange(0, 0));
                assert(f.subrange(0, 1).last() == f[0]);
                assert(digits_val(f.subrange(0, 1)) == digit_val(f[0]));
                assert(f.subrange(0, 2).drop_last() =~= f.subrange(0, 1));
                assert(f.subrange(0, 2).last() == f[1]);
                assert(digits_val(f.subrange(0, 2)) == 10 * digit_val(f[0]) + digit_val(f[1]));
                assert(f.drop_last() =~= f.subrange(0, 2));
                assert(f.last() == f[2]);
            }
            assert(f.subrange(0, 3) =~= f);
            assert(frac == 100 * a + 10 * b + c);
            assert(frac_val(f) == frac);
            assert(number_val(body) == 1000 * whole + frac);
            assert(mag == 1000 * whole + frac);
            if neg {
                assert(r@[0] == '-');
                assert(parse_units_spec(r@) == Some(-(mag as int)));
            } else {
                assert(is_digit(r@[0]));
                assert('-' as u32 == 45);
                assert(r@[0] != '-');
                assert(body =~= r@);
                assert(parse_units_spec(r@) == Some(mag as int));
            }
        }
        r
    } else {
        proof {
            let body = r@.skip(sign_len);
            assert(body =~= w@);
            lemma_digit_run_characterize(body, body.len() as int);
            assert(number_wf(body));
            assert(number_val(body) == 1000 * whole);
            assert(mag == 1000 * whole);
            if neg {
                assert(r@[0] == '-');
                assert(parse_units_spec(r@) == Some(-(mag as int)));
            } else {
                assert(is_digit(r@[0]));
                assert('-' as u32 == 45);
                assert(r@[0] != '-');
                assert(parse_units_spec(r@) == Some(mag as int));
            }
        }
        r
    }
}

/// Ten to a power is at least one.
pub proof fn lemma_pow10_pos(n: nat)
    ensures
        pow10(n) >= 1,
    decreases n,
{
    if n > 0 {
        lemma_pow10_pos((n - 1) as nat);
    }
}

/// Ten to a power never shrinks as the power grows.
pub proof fn lemma_pow10_monotone(a: nat, b: nat)
    requires
        a <= b,
    ensures
        1 <= pow10(a) <= pow10(b),
    decreases b,
{
    lemma_pow10_pos(a);
    if a < b {
        lemma_pow10_monotone(a, (b - 1) as nat);
        assert(pow10(b) == 10 * pow10((b - 1) as nat));
    }
}

} // verus!
