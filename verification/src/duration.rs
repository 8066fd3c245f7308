//! Formatting of an elapsed duration, in whole seconds, as `HH:MM:SS`
//! (two-digit zero-padded fields; the hours field grows beyond two digits
//! rather than wrapping), and the inverse parser.

use vstd::prelude::*;
use vstd::string::*;

verus! {

/// The decimal digit character for `d` in `[0, 9]`.
pub open spec fn digit_char(d: int) -> char {
    if d == 0 {
        '0'
    } else if d == 1 {
        '1'
    } else if d == 2 {
        '2'
    } else if d == 3 {
        '3'
    } else if d == 4 {
        '4'
    } else if d == 5 {
        '5'
    } else if d == 6 {
        '6'
    } else if d == 7 {
        '7'
    } else if d == 8 {
        '8'
    } else {
        '9'
    }
}

/// Whether `c` is a decimal digit character.
pub open spec fn is_digit(c: char) -> bool {
    c == '0' || c == '1' || c == '2' || c == '3' || c == '4' || c == '5' || c == '6' || c == '7'
        || c == '8' || c == '9'
}

/// The value of a decimal digit character; 0 for anything else.
pub open spec fn digit_val(c: char) -> int {
    if c == '1' {
        1
    } else if c == '2' {
        2
    } else if c == '3' {
        3
    } else if c == '4' {
        4
    } else if c == '5' {
        5
    } else if c == '6' {
        6
    } else if c == '7' {
        7
    } else if c == '8' {
        8
    } else if c == '9' {
        9
    } else {
        0
    }
}

/// The decimal digit string of `n`, without leading zeros (a single `'0'`
/// for zero).
pub open spec fn dec_digits(n: nat) -> Seq<char>
    decreases n,
{
    if n < 10 {
        seq![digit_char(n as int)]
    } else {
        dec_digits(n / 10).push(digit_char((n % 10) as int))
    }
}

/// The decimal digit string of `n`, zero-padded on the left to at least two
/// digits.
pub open spec fn min_two_digits(n: nat) -> Seq<char> {
    if n < 10 {
        seq!['0'] + dec_digits(n)
    } else {
        dec_digits(n)
    }
}

/// The `HH:MM:SS` rendering of a duration of `d` whole seconds.
pub open spec fn fmt_hms(d: nat) -> Seq<char> {
    min_two_digits(d / 3600) + seq![':'] + min_two_digits((d % 3600) / 60) + seq![':']
        + min_two_digits(d % 60)
}

/// Whether every character of `s` is a decimal digit.
pub open spec fn all_digits(s: Seq<char>) -> bool {
    forall|i: int| 0 <= i < s.len() ==> is_digit(#[trigger] s[i])
}

/// The value of a decimal digit string (most significant digit first).
pub open spec fn digits_val(s: Seq<char>) -> nat
    decreases s.len(),
{
    if s.len() == 0 {
        0
    } else {
        digits_val(s.drop_last()) * 10 + digit_val(s.last()) as nat
    }
}

/// An `HH:MM:SS` string denotes the duration `h * 3600 + m * 60 + s`.
/// Anything else — wrong shape, a non-digit, a minute or second field of 60
/// or more, or a value that does not fit in `u64` — denotes nothing.
pub open spec fn parse_hms(s: Seq<char>) -> Option<u64> {
    let n = s.len() as int;
    if n >= 8 && s[n - 6] == ':' && s[n - 3] == ':' && all_digits(s.subrange(0, n - 6))
        && all_digits(s.subrange(n - 5, n - 3)) && all_digits(s.subrange(n - 2, n)) {
        let h = digits_val(s.subrange(0, n - 6));
        let m = digits_val(s.subrange(n - 5, n - 3));
        let sec = digits_val(s.subrange(n - 2, n));
        if m < 60 && sec < 60 && h * 3600 + m * 60 + sec <= u64::MAX {
            Some((h * 3600 + m * 60 + sec) as u64)
        } else {
            None
        }
    } else {
        None
    }
}

fn digit_str(d: u64) -> (s: &'static str)
    requires
        d < 10,
    ensures
        s@ == seq![digit_char(d as int)],
{
    proof {
        reveal_strlit("0");
        reveal_strlit("1");
        reveal_strlit("2");
        reveal_strlit("3");
        reveal_strlit("4");
        reveal_strlit("5");
        reveal_strlit("6");
        reveal_strlit("7");
        reveal_strlit("8");
        reveal_strlit("9");
    }
    let s: &'static str = match d {
        0 => "0",
        1 => "1",
        2 => "2",
        3 => "3",
        4 => "4",
        5 => "5",
        6 => "6",
        7 => "7",
        8 => "8",
        _ => "9",
    };
    proof {
        assert(s@ =~= seq![digit_char(d as int)]);
    }
    s
}

fn dec_str(n: u64) -> (s: String)
    ensures
        s@ == dec_digits(n as nat),
    decreases n,
{
    if n < 10 {
        String::from_str(digit_str(n))
    } else {
        let q = n / 10;
        let r = n % 10;
        let mut s = dec_str(q);
        s.append(digit_str(r));
        proof {
            assert(s@ =~= dec_digits((n as nat) / 10).push(digit_char((n % 10) as int)));
        }
        s
    }
}

fn min_two_str(n: u64) -> (s: String)
    ensures
        s@ == min_two_digits(n as nat),
{
    proof {
        reveal_strlit("0");
    }
    if n < 10 {
        let mut s = String::from_str("0");
        s.append(digit_str(n));
        proof {
            assert(s@ =~= min_two_digits(n as nat));
        }
        s
    } else {
        dec_str(n)
    }
}

/// Renders a duration of `total_secs` whole seconds as `HH:MM:SS`: each field
/// zero-padded to two digits, hours not capped.
pub fn format_duration(total_secs: u64) -> (s: String)
    ensures
        s@ == fmt_hms(total_secs as nat),
{
    let h = total_secs / 3600;
    let m = (total_secs % 3600) / 60;
    let sec = total_secs % 60;
    let mut s = min_two_str(h);
    s.append(":");
    let ms = min_two_str(m);
    s.append(ms.as_str());
    s.append(":");
    let ss = min_two_str(sec);
    s.append(ss.as_str());
    proof {
        reveal_strlit(":");
        assert(s@ =~= fmt_hms(total_secs as nat));
    }
    s
}

proof fn lemma_digits_val_two(t: Seq<char>)
    requires
        t.len() == 2,
    ensures
        digits_val(t) == digit_val(t[0]) * 10 + digit_val(t[1]),
{
    assert(t.drop_last() =~= seq![t[0]]);
    assert(seq![t[0]].drop_last() =~= Seq::<char>::empty());
    assert(digits_val(Seq::<char>::empty()) == 0);
    assert(seq![t[0]].last() == t[0]);
    assert(digits_val(seq![t[0]]) == digit_val(t[0]));
}

/// A prefix of a digit string never has a larger value than the whole.
proof fn lemma_digits_val_prefix_le(s: Seq<char>, i: int)
    requires
        0 <= i <= s.len(),
    ensures
        digits_val(s.subrange(0, i)) <= digits_val(s),
    decreases s.len() - i,
{
    if i == s.len() {
        assert(s.subrange(0, i) =~= s);
    } else {
        let t = s.subrange(0, s.len() as int - 1);
        assert(t =~= s.drop_last());
        assert(t.subrange(0, i) =~= s.subrange(0, i));
        lemma_digits_val_prefix_le(t, i);
        assert(digits_val(s) == digits_val(s.drop_last()) * 10 + digit_val(s.last()));
        assert(digits_val(s.drop_last()) * 10 >= digits_val(s.drop_last())) by (nonlinear_arith)
            requires
                digits_val(s.drop_last()) >= 0,
        ;
    }
}

proof fn lemma_dec_digits_val(n: nat)
    ensures
        digits_val(dec_digits(n)) == n,
        all_digits(dec_digits(n)),
        1 <= dec_digits(n).len(),
        n < 10 ==> dec_digits(n).len() == 1,
        n >= 10 ==> dec_digits(n).len() >= 2,
        n < 100 ==> dec_digits(n).len() <= 2,
    decreases n,
{
    if n < 10 {
        assert(seq![digit_char(n as int)].drop_last() =~= Seq::<char>::empty());
        assert(digits_val(Seq::<char>::empty()) == 0);
        assert(seq![digit_char(n as int)].last() == digit_char(n as int));
    } else {
        lemma_dec_digits_val(n / 10);
        assert(dec_digits(n).len() == dec_digits(n / 10).len() + 1);
        if n < 100 {
            assert(n / 10 < 10) by (nonlinear_arith)
                requires
                    10 <= n < 100,
            ;
        }
        let s = dec_digits(n);
        assert(s.drop_last() =~= dec_digits(n / 10));
        assert(s.last() == digit_char((n % 10) as int));
        vstd::arithmetic::div_mod::lemma_fundamental_div_mod(n as int, 10);
        assert forall|i: int| 0 <= i < s.len() implies is_digit(#[trigger] s[i]) by {
            if i < s.len() - 1 {
                assert(s[i] == dec_digits(n / 10)[i]);
            }
        }
    }
}

proof fn lemma_min_two_digits_val(n: nat)
    ensures
        digits_val(min_two_digits(n)) == n,
        all_digits(min_two_digits(n)),
        2 <= min_two_digits(n).len(),
        n < 100 ==> min_two_digits(n).len() == 2,
{
    lemma_dec_digits_val(n);
    if n < 10 {
        let s = min_two_digits(n);
        assert(s =~= seq!['0', digit_char(n as int)]);
        lemma_digits_val_two(s);
    }
}

/// `format_duration` and `parse_duration` are inverse: every duration, read
/// back from its `HH:MM:SS` rendering, yields the same count of seconds.
pub proof fn lemma_format_parse_round_trip(d: u64)
    ensures
        parse_hms(fmt_hms(d as nat)) == Some(d),
{
    let dn = d as nat;
    let h = dn / 3600;
    let m = (dn % 3600) / 60;
    let sec = dn % 60;
    vstd::arithmetic::div_mod::lemma_mod_division_less_than_divisor(dn as int, 3600);
    vstd::arithmetic::div_mod::lemma_mod_division_less_than_divisor(dn as int, 60);
    vstd::arithmetic::div_mod::lemma_mod_division_less_than_divisor((dn % 3600) as int, 60);
    assert(m < 60) by {
        vstd::arithmetic::div_mod::lemma_div_is_ordered((dn % 3600) as int, 3599, 60);
    }
    lemma_min_two_digits_val(h);
    lemma_min_two_digits_val(m);
    lemma_min_two_digits_val(sec);
    let hs = min_two_digits(h);
    let ms = min_two_digits(m);
    let ss = min_two_digits(sec);
    let s = fmt_hms(dn);
    let n = s.len() as int;
    assert(n == hs.len() + 6);
    assert(s[n - 6] == ':');
    assert(s[n - 3] == ':');
    assert(s.subrange(0, n - 6) =~= hs);
    assert(s.subrange(n - 5, n - 3) =~= ms);
    assert(s.subrange(n - 2, n) =~= ss);
    assert(h * 3600 + m * 60 + sec == dn) by {
        vstd::arithmetic::div_mod::lemma_fundamental_div_mod(dn as int, 3600);
        vstd::arithmetic::div_mod::lemma_fundamental_div_mod((dn % 3600) as int, 60);
        assert(60 * 60 == 3600);
        vstd::arithmetic::div_mod::lemma_mod_mod(dn as int, 60, 60);
        assert((dn % (60 * 60)) == dn % 3600);
    }
}

fn char_digit(c: char) -> (r: Option<u64>)
    ensures
        is_digit(c) ==> r == Some(digit_val(c) as u64),
        !is_digit(c) ==> r is None,
{
    match c {
        '0' => Some(0),
        '1' => Some(1),
        '2' => Some(2),
        '3' => Some(3),
        '4' => Some(4),
        '5' => Some(5),
        '6' => Some(6),
        '7' => Some(7),
        '8' => Some(8),
        '9' => Some(9),
        _ => None,
    }
}

/// Reads an `HH:MM:SS` string back to its count of seconds; `None` for
/// anything that `format_duration` could not have produced (except that more
/// than two hour digits are accepted, as `format_duration` emits them for
/// durations of 100 hours and over).
pub fn parse_duration(s: &str) -> (r: Option<u64>)
    ensures
        r == parse_hms(s@),
{
    let n = s.unicode_len();
    if n < 8 {
        return None;
    }
    let hn = n - 6;
    if s.get_char(n - 6) != ':' || s.get_char(n - 3) != ':' {
        return None;
    }
    let mut h: u64 = 0;
    let mut i: usize = 0;
    while i < hn
        invariant
            8 <= n == s@.len(),
            hn == n - 6,
            i <= hn,
            all_digits(s@.subrange(0, i as int)),
            h as nat == digits_val(s@.subrange(0, i as int)),
        decreases hn - i,
    {
        let c = s.get_char(i);
        let ghost pre = s@.subrange(0, i as int);
        let ghost ext = s@.subrange(0, i as int + 1);
        proof {
            assert(ext.drop_last() =~= pre);
            assert(ext.last() == s@[i as int]);
        }
        match char_digit(c) {
            None => {
                proof {
                    assert(s@.subrange(0, hn as int)[i as int] == s@[i as int]);
                    assert(!all_digits(s@.subrange(0, hn as int)));
                }
                return None;
            },
            Some(d) => {
                let h10 = match h.checked_mul(10) {
                    Some(v) => v,
                    None => {
                        proof {
                            lemma_overflow_means_none(s@, i as int, h as nat, d as nat);
                        }
                        return None;
                    },
                };
                let h2 = match h10.checked_add(d) {
                    Some(v) => v,
                    None => {
                        proof {
                            lemma_overflow_means_none(s@, i as int, h as nat, d as nat);
                        }
                        return None;
                    },
                };
                h = h2;
                i = i + 1;
            },
        }
    }
    let c1 = match char_digit(s.get_char(n - 5)) {
        Some(v) => v,
        None => {
            proof {
                assert(s@.subrange(n as int - 5, n as int - 3)[0] == s@[n as int - 5]);
            }
            return None;
        },
    };
    let c2 = match char_digit(s.get_char(n - 4)) {
        Some(v) => v,
        None => {
            proof {
                assert(s@.subrange(n as int - 5, n as int - 3)[1] == s@[n as int - 4]);
            }
            return None;
        },
    };
    let c3 = match char_digit(s.get_char(n - 2)) {
        Some(v) => v,
        None => {
            proof {
                assert(s@.subrange(n as int - 2, n as int)[0] == s@[n as int - 2]);
            }
            return None;
        },
    };
    let c4 = match char_digit(s.get_char(n - 1)) {
        Some(v) => v,
        None => {
            proof {
                assert(s@.subrange(n as int - 2, n as int)[1] == s@[n as int - 1]);
            }
            return None;
        },
    };
    let m = c1 * 10 + c2;
    let sec = c3 * 10 + c4;
    proof {
        let mseq = s@.subrange(n as int - 5, n as int - 3);
        let sseq = s@.subrange(n as int - 2, n as int);
        lemma_digits_val_two(mseq);
        lemma_digits_val_two(sseq);
        assert(mseq[0] == s@[n as int - 5]);
        assert(mseq[1] == s@[n as int - 4]);
        assert(sseq[0] == s@[n as int - 2]);
        assert(sseq[1] == s@[n as int - 1]);
        assert(all_digits(mseq));
        assert(all_digits(sseq));
    }
    if m >= 60 || sec >= 60 {
        return None;
    }
    let ms = m * 60 + sec;
    let h3600 = match h.checked_mul(3600) {
        Some(v) => v,
        None => {
            proof {
                let hv = digits_val(s@.subrange(0, n as int - 6)) as int;
                assert(hv * 3600 + digits_val(s@.subrange(n as int - 5, n as int - 3)) * 60
                    + digits_val(s@.subrange(n as int - 2, n as int)) > u64::MAX);
            }
            return None;
        },
    };
    match h3600.checked_add(ms) {
        Some(total) => Some(total),
        None => {
            proof {
                assert(digits_val(s@.subrange(0, n as int - 6)) * 3600 + digits_val(
                    s@.subrange(n as int - 5, n as int - 3),
                ) * 60 + digits_val(s@.subrange(n as int - 2, n as int)) > u64::MAX);
            }
            None
        },
    }
}

/// If accumulating one more hour digit overflows `u64`, no `u64` duration is
/// denoted: the hours value alone already exceeds `u64::MAX`.
proof fn lemma_overflow_means_none(s: Seq<char>, i: int, h: nat, d: nat)
    requires
        s.len() >= 8,
        0 <= i < s.len() - 6,
        h == digits_val(s.subrange(0, i)),
        is_digit(s[i]),
        d == digit_val(s[i]),
        h * 10 + d > u64::MAX,
    ensures
        parse_hms(s) is None,
{
    let n = s.len() as int;
    let ext = s.subrange(0, i + 1);
    assert(ext.drop_last() =~= s.subrange(0, i));
    assert(digits_val(ext) == h * 10 + d);
    let full = s.subrange(0, n - 6);
    assert(full.subrange(0, i + 1) =~= ext);
    lemma_digits_val_prefix_le(full, i + 1);
    let hv = digits_val(full) as int;
    assert(hv > u64::MAX);
    assert(hv * 3600 >= hv) by (nonlinear_arith)
        requires
            hv >= 0,
    ;
}

} // verus!
