//! Captions shown by the visualizer: playback clock text and shortened track titles.
use vstd::prelude::*;
use vstd::string::StringSliceAdditionalSpecFns;
use vstd::utf8::encode_utf8;

verus! {

/// The decimal digit character for `d` (`0 <= d < 10`).
pub open spec fn digit_char(d: int) -> char {
    seq!['0', '1', '2', '3', '4', '5', '6', '7', '8', '9'][d]
}

/// Decimal representation of `n`, without leading zeros.
pub open spec fn decimal(n: nat) -> Seq<char>
    decreases n,
{
    if n < 10 {
        seq![digit_char(n as int)]
    } else {
        decimal(n / 10).push(digit_char((n % 10) as int))
    }
}

/// Decimal representation of `n` zero-padded to at least two digits.
pub open spec fn two_digits(n: nat) -> Seq<char> {
    if n < 10 {
        seq!['0'] + decimal(n)
    } else {
        decimal(n)
    }
}

/// `MM:SS` text of a whole number of seconds: minutes (at least two digits,
/// more when needed), a colon, then the seconds within the minute.
pub open spec fn clock_text(total_seconds: nat) -> Seq<char> {
    two_digits(total_seconds / 60) + seq![':'] + two_digits(total_seconds % 60)
}

/// A number below 100 is written with exactly two digits once padded.
proof fn lemma_two_digits_len(n: nat)
    requires
        n < 100,
    ensures
        two_digits(n).len() == 2,
{
    if n >= 10 {
        assert(decimal(n) == decimal(n / 10).push(digit_char((n % 10) as int)));
        assert(decimal(n / 10).len() == 1);
    }
}

/// A padded number is written with at least two digits.
proof fn lemma_two_digits_min_len(n: nat)
    ensures
        two_digits(n).len() >= 2,
    decreases n,
{
    if n >= 100 {
        lemma_two_digits_min_len(n / 10);
        assert(decimal(n) == decimal(n / 10).push(digit_char((n % 10) as int)));
    } else {
        lemma_two_digits_len(n);
    }
}

/// Law: clock text is minutes (two digits or more), a colon, and always exactly
/// two digits of seconds; below 100 minutes it is exactly `MM:SS`.
pub proof fn lemma_clock_shape(total_seconds: nat)
    ensures
        clock_text(total_seconds).len() >= 5,
        clock_text(total_seconds)[clock_text(total_seconds).len() - 3] == ':',
        clock_text(total_seconds).subrange(
            clock_text(total_seconds).len() - 2,
            clock_text(total_seconds).len() as int,
        ) == two_digits(total_seconds % 60),
        total_seconds < 6000 ==> clock_text(total_seconds).len() == 5,
{
    lemma_two_digits_len(total_seconds % 60);
    lemma_two_digits_min_len(total_seconds / 60);
    if total_seconds < 6000 {
        lemma_two_digits_len(total_seconds / 60);
    }
    let m = two_digits(total_seconds / 60);
    let sec = two_digits(total_seconds % 60);
    assert(clock_text(total_seconds) == m + seq![':'] + sec);
    assert((m + seq![':'] + sec).subrange(m.len() + 1 as int, m.len() + 3 as int) =~= sec);
}

/// The number a string of decimal digit characters stands for, read with the
/// most significant digit first.
pub open spec fn digits_value(s: Seq<char>) -> int
    decreases s.len(),
{
    if s.len() == 0 {
        0
    } else {
        digits_value(s.drop_last()) * 10 + (s.last() as int - '0' as int)
    }
}

/// Every character of `s` is one of `0` to `9`.
pub open spec fn all_digits(s: Seq<char>) -> bool {
    forall|i: int| 0 <= i < s.len() ==> '0' <= #[trigger] s[i] <= '9'
}

/// Law: the digit character for `d` is the character `d` places after `0`.
pub proof fn lemma_digit_char_code(d: int)
    requires
        0 <= d < 10,
    ensures
        digit_char(d) as int == '0' as int + d,
{
    let t = seq!['0', '1', '2', '3', '4', '5', '6', '7', '8', '9'];
    assert(digit_char(d) == t[d]);
    if d == 0 { assert(t[0] == '0'); }
    else if d == 1 { assert(t[1] == '1'); }
    else if d == 2 { assert(t[2] == '2'); }
    else if d == 3 { assert(t[3] == '3'); }
    else if d == 4 { assert(t[4] == '4'); }
    else if d == 5 { assert(t[5] == '5'); }
    else if d == 6 { assert(t[6] == '6'); }
    else if d == 7 { assert(t[7] == '7'); }
    else if d == 8 { assert(t[8] == '8'); }
    else { assert(t[9] == '9'); }
}

/// The decimal text of `n` is made of digits and reads back as `n`.
proof fn lemma_decimal_reads_back(n: nat)
    ensures
        all_digits(decimal(n)),
        digits_value(decimal(n)) == n,
    decreases n,
{
    if n < 10 {
        lemma_digit_char_code(n as int);
        let s = decimal(n);
        assert(s.drop_last() =~= Seq::<char>::empty());
        assert(digits_value(Seq::<char>::empty()) == 0);
        assert(s[0] == digit_char(n as int));
    } else {
        lemma_decimal_reads_back(n / 10);
        lemma_digit_char_code((n % 10) as int);
        let s = decimal(n);
        assert(s == decimal(n / 10).push(digit_char((n % 10) as int)));
        assert(s.drop_last() =~= decimal(n / 10));
        assert forall|i: int| 0 <= i < s.len() implies '0' <= #[trigger] s[i] <= '9' by {
            if i < s.len() - 1 {
                assert(s[i] == decimal(n / 10)[i]);
            }
        }
    }
}

/// Zero-padded text of `n` is made of digits and reads back as `n`.
proof fn lemma_two_digits_reads_back(n: nat)
    ensures
        all_digits(two_digits(n)),
        digits_value(two_digits(n)) == n,
{
    lemma_decimal_reads_back(n);
    if n < 10 {
        let s = two_digits(n);
        let z = seq!['0'];
        assert(s == z + decimal(n));
        assert(s.len() == 2);
        assert(s.drop_last() =~= z);
        assert(z.drop_last() =~= Seq::<char>::empty());
        assert(digits_value(Seq::<char>::empty()) == 0);
        assert(digits_value(z) == 0);
        assert forall|i: int| 0 <= i < s.len() implies '0' <= #[trigger] s[i] <= '9' by {
            if i == 1 {
                assert(s[1] == decimal(n)[0]);
            }
        }
        assert(s.last() == decimal(n).last());
        assert(decimal(n).drop_last() =~= Seq::<char>::empty());
    }
}

/// Law: the clock text reads back as the time it shows: the digits before the
/// colon are the whole minutes, the two digits after it the remaining seconds,
/// and every other character is a decimal digit.
pub proof fn lemma_clock_reads_back(total_seconds: nat)
    ensures
        ({
            let c = clock_text(total_seconds);
            let n = c.len() as int;
            &&& n >= 5
            &&& c[n - 3] == ':'
            &&& all_digits(c.subrange(0, n - 3))
            &&& all_digits(c.subrange(n - 2, n))
            &&& digits_value(c.subrange(0, n - 3)) == total_seconds / 60
            &&& digits_value(c.subrange(n - 2, n)) == total_seconds % 60
        }),
{
    lemma_two_digits_len(total_seconds % 60);
    lemma_two_digits_min_len(total_seconds / 60);
    lemma_two_digits_reads_back(total_seconds / 60);
    lemma_two_digits_reads_back(total_seconds % 60);
    let m = two_digits(total_seconds / 60);
    let sec = two_digits(total_seconds % 60);
    let c = clock_text(total_seconds);
    assert(c == m + seq![':'] + sec);
    let n = c.len() as int;
    assert(c.subrange(0, n - 3) =~= m);
    assert(c.subrange(n - 2, n) =~= sec);
}

/// The one-character string of the digit `d`.
fn digit_str(d: u64) -> (s: &'static str)
    requires
        d < 10,
    ensures
        s@ == seq![digit_char(d as int)],
{
    match d {
        0 => {
            proof {
                reveal_strlit("0");
            }
            "0"
        },
        1 => {
            proof {
                reveal_strlit("1");
            }
            "1"
        },
        2 => {
            proof {
                reveal_strlit("2");
            }
            "2"
        },
        3 => {
            proof {
                reveal_strlit("3");
            }
            "3"
        },
        4 => {
            proof {
                reveal_strlit("4");
            }
            "4"
        },
        5 => {
            proof {
                reveal_strlit("5");
            }
            "5"
        },
        6 => {
            proof {
                reveal_strlit("6");
            }
            "6"
        },
        7 => {
            proof {
                reveal_strlit("7");
            }
            "7"
        },
        8 => {
            proof {
                reveal_strlit("8");
            }
            "8"
        },
        _ => {
            proof {
                reveal_strlit("9");
            }
            "9"
        },
    }
}

/// Appends the decimal representation of `n` to `out`.
fn push_decimal(out: &mut String, n: u64)
    ensures
        final(out)@ == old(out)@ + decimal(n as nat),
    decreases n,
{
    if n >= 10 {
        push_decimal(out, n / 10);
    }
    out.append(digit_str(n % 10));
    proof {
        if n >= 10 {
            assert(decimal(n as nat) == decimal((n / 10) as nat).push(digit_char((n % 10) as int)));
        }
    }
    assert(final(out)@ =~= old(out)@ + decimal(n as nat));
}

/// Appends `n` zero-padded to at least two digits.
fn push_two_digits(out: &mut String, n: u64)
    ensures
        final(out)@ == old(out)@ + two_digits(n as nat),
{
    if n < 10 {
        proof {
            reveal_strlit("0");
        }
        out.append("0");
    }
    push_decimal(out, n);
    assert(final(out)@ =~= old(out)@ + two_digits(n as nat));
}

/// Formats a whole number of seconds as `MM:SS` (e.g. 125 gives `02:05`).
pub fn format_clock(total_seconds: u64) -> (text: String)
    ensures
        text@ == clock_text(total_seconds as nat),
{
    let mut text = String::new();
    push_two_digits(&mut text, total_seconds / 60);
    proof {
        reveal_strlit(":");
    }
    text.append(":");
    push_two_digits(&mut text, total_seconds % 60);
    assert(text@ =~= clock_text(total_seconds as nat));
    text
}

/// Shortens a title longer than `max_len` bytes to its first `keep` bytes
/// followed by `...`; shorter titles are returned whole.
pub fn shorten_title(title: &str, max_len: usize, keep: usize) -> (short: String)
    requires
        keep <= max_len,
        title.len() > max_len ==> vstd::utf8::is_char_boundary(
            title.spec_bytes(),
            keep as int,
        ),
    ensures
        title.len() <= max_len ==> short@ == title@,
        title.len() > max_len ==> {
            &&& short@.len() >= 3
            &&& short@.subrange(short@.len() - 3, short@.len() as int) == seq!['.', '.', '.']
            &&& encode_utf8(short@.subrange(0, short@.len() - 3)) == title.spec_bytes().subrange(
                0,
                keep as int,
            )
        },
{
    if title.len() > max_len {
        let (head, _tail) = title.split_at(keep);
        let mut short = head.to_owned();
        proof {
            reveal_strlit("...");
        }
        short.append("...");
        assert(short@.subrange(0, short@.len() - 3) =~= head@);
        assert(short@.subrange(short@.len() - 3, short@.len() as int) =~= seq!['.', '.', '.']);
        assert(encode_utf8(short@.subrange(0, short@.len() - 3)) == head.spec_bytes());
        assert(head.spec_bytes() =~= title.spec_bytes().subrange(0, keep as int));
        short
    } else {
        title.to_owned()
    }
}

} // verus!
