//! Parser for the latency figure in the output of the system ping utility.
//!
//! The output is scanned line by line, case-insensitively, for a `time=`
//! token followed by a numeric string (digits with at most one decimal
//! point), whose value is rounded to the nearest whole millisecond. A
//! `time<` token (common for sub-millisecond replies) is handled the same
//! way except that the result is clamped to a minimum of 1 ms, and a bare
//! `time<` with no parsable number yields exactly 1 ms.

use vstd::prelude::*;

verus! {

/// An ASCII decimal digit.
pub open spec fn is_digit(c: char) -> bool {
    48 <= c as u32 && c as u32 <= 57
}

/// The numeric value of an ASCII digit (0 for any other character).
pub open spec fn digit_val(c: char) -> nat {
    if is_digit(c) {
        (c as u32 - 48) as nat
    } else {
        0
    }
}

/// A character that may appear in the numeric token after `time=`.
pub open spec fn is_num_char(c: char) -> bool {
    is_digit(c) || c == '.'
}

/// The word `time`, compared without regard to ASCII case, followed by
/// `tail`, starting at index `i`.
pub open spec fn time_token_at(s: Seq<char>, i: int, tail: char) -> bool {
    &&& 0 <= i
    &&& i + 5 <= s.len()
    &&& (s[i] == 't' || s[i] == 'T')
    &&& (s[i + 1] == 'i' || s[i + 1] == 'I')
    &&& (s[i + 2] == 'm' || s[i + 2] == 'M')
    &&& (s[i + 3] == 'e' || s[i + 3] == 'E')
    &&& s[i + 4] == tail
}

/// Index of the leftmost `time` token at or after `i`, if any.
pub open spec fn find_time_token(s: Seq<char>, tail: char, i: int) -> Option<int>
    decreases s.len() - i,
{
    if i < 0 || i + 5 > s.len() {
        None
    } else if time_token_at(s, i, tail) {
        Some(i)
    } else {
        find_time_token(s, tail, i + 1)
    }
}

/// First index at or after `j` holding no numeric-token character (the
/// token that starts at `j` ends there).
pub open spec fn num_end(s: Seq<char>, j: int) -> int
    decreases s.len() - j,
{
    if 0 <= j && j < s.len() && is_num_char(s[j]) {
        num_end(s, j + 1)
    } else {
        j
    }
}

/// The numeric token starting at `j`: the maximal run of digits and dots.
pub open spec fn token_at(s: Seq<char>, j: int) -> Seq<char> {
    s.subrange(j, num_end(s, j))
}

/// Number of leading digit characters of `t`, which form its integer part.
pub open spec fn first_non_digit(t: Seq<char>, k: int) -> int
    decreases t.len() - k,
{
    if 0 <= k && k < t.len() && is_digit(t[k]) {
        first_non_digit(t, k + 1)
    } else {
        k
    }
}

/// The value of a sequence of digit characters, most significant first.
pub open spec fn digits_val(t: Seq<char>) -> nat
    decreases t.len(),
{
    if t.len() == 0 {
        0
    } else {
        digits_val(t.drop_last()) * 10 + digit_val(t.last())
    }
}

/// Whether `t` holds at least one digit.
pub open spec fn has_digit(t: Seq<char>) -> bool {
    exists|k: int| 0 <= k < t.len() && is_digit(t[k])
}

/// Whether `t` holds at most one decimal point.
pub open spec fn at_most_one_dot(t: Seq<char>) -> bool {
    forall|k: int, l: int|
        0 <= k < t.len() && 0 <= l < t.len() && t[k] == '.' && t[l] == '.' ==> k == l
}

/// A token of digits and dots parses as a number exactly when it holds a
/// digit and no second decimal point.
pub open spec fn valid_num_token(t: Seq<char>) -> bool {
    &&& t.len() > 0
    &&& has_digit(t)
    &&& at_most_one_dot(t)
}

/// Whether rounding `t` to a whole number rounds up: the fractional part is
/// at least one half exactly when the digit after the decimal point is five
/// or more.
pub open spec fn rounds_up(t: Seq<char>) -> bool {
    let ipl = first_non_digit(t, 0);
    ipl + 1 < t.len() && digit_val(t[ipl + 1]) >= 5
}

/// The value of `t` rounded to the nearest whole number (half away from
/// zero), as an unbounded natural.
pub open spec fn token_round(t: Seq<char>) -> nat {
    digits_val(t.subrange(0, first_non_digit(t, 0))) + (if rounds_up(t) {
        1nat
    } else {
        0nat
    })
}

/// Saturation of an unbounded natural into a `u64`.
pub open spec fn sat64(n: nat) -> u64 {
    if n > u64::MAX {
        u64::MAX
    } else {
        n as u64
    }
}

/// The latency one line reports, if any. A `time=` token whose number does
/// not parse yields nothing (the scan moves on); a `time<` token always
/// yields a value, at least 1 ms.
pub open spec fn line_latency(line: Seq<char>) -> Option<u64> {
    match find_time_token(line, '=', 0) {
        Some(i) => {
            let t = token_at(line, i + 5);
            if valid_num_token(t) {
                Some(sat64(token_round(t)))
            } else {
                None
            }
        },
        None => match find_time_token(line, '<', 0) {
            Some(i) => {
                let t = token_at(line, i + 5);
                if valid_num_token(t) {
                    let v = sat64(token_round(t));
                    Some(
                        if v == 0 {
                            1u64
                        } else {
                            v
                        },
                    )
                } else {
                    Some(1u64)
                }
            },
            None => None,
        },
    }
}

/// Index of the first line break at or after `j`, or the length if none.
pub open spec fn line_break(s: Seq<char>, j: int) -> int
    decreases s.len() - j,
{
    if 0 <= j && j < s.len() && s[j] != '\n' {
        line_break(s, j + 1)
    } else if 0 <= j && j < s.len() {
        j
    } else {
        s.len() as int
    }
}

/// The lines of `s`, split on `'\n'`; a trailing line break yields no empty
/// final line.
pub open spec fn split_lines(s: Seq<char>) -> Seq<Seq<char>>
    decreases s.len(),
{
    if s.len() == 0 {
        Seq::empty()
    } else {
        let b = line_break(s, 0);
        // The break index always lies within bounds; the guard makes that
        // plain to the termination check.
        let k = if 0 <= b && b <= s.len() {
            b
        } else {
            s.len() as int
        };
        let rest = if k + 1 <= s.len() {
            split_lines(s.subrange(k + 1, s.len() as int))
        } else {
            Seq::empty()
        };
        seq![s.subrange(0, k)].add(rest)
    }
}

/// The latency of the first line that reports one.
pub open spec fn lines_latency(lines: Seq<Seq<char>>) -> Option<u64>
    decreases lines.len(),
{
    if lines.len() == 0 {
        None
    } else if line_latency(lines[0]) is Some {
        line_latency(lines[0])
    } else {
        lines_latency(lines.drop_first())
    }
}

/// What the parser extracts from the whole of ping's output.
pub open spec fn ping_latency(s: Seq<char>) -> Option<u64> {
    lines_latency(split_lines(s))
}

fn is_digit_exec(c: char) -> (b: bool)
    ensures
        b == is_digit(c),
{
    let u = c as u32;
    48 <= u && u <= 57
}

fn is_num_char_exec(c: char) -> (b: bool)
    ensures
        b == is_num_char(c),
{
    is_digit_exec(c) || c == '.'
}

fn find_token(line: &Vec<char>, tail: char) -> (res: Option<usize>)
    ensures
        match res {
            Some(i) => find_time_token(line@, tail, 0) == Some(i as int) && i + 5 <= line@.len(),
            None => find_time_token(line@, tail, 0) is None,
        },
{
    let n = line.len();
    if n < 5 {
        return None;
    }
    let mut i: usize = 0;
    while i <= n - 5
        invariant
            n == line@.len(),
            5 <= n,
            0 <= i <= n - 4,
            find_time_token(line@, tail, 0) == find_time_token(line@, tail, i as int),
        decreases n - i,
    {
        let c0 = line[i];
        let c1 = line[i + 1];
        let c2 = line[i + 2];
        let c3 = line[i + 3];
        let c4 = line[i + 4];
        if (c0 == 't' || c0 == 'T') && (c1 == 'i' || c1 == 'I') && (c2 == 'm' || c2 == 'M') && (c3
            == 'e' || c3 == 'E') && c4 == tail {
            proof {
                assert(time_token_at(line@, i as int, tail));
            }
            return Some(i);
        }
        proof {
            assert(!time_token_at(line@, i as int, tail));
        }
        i = i + 1;
    }
    None
}

fn parse_token(line: &Vec<char>, tstart: usize) -> (res: (bool, u64))
    requires
        tstart <= line@.len(),
    ensures
        res.0 == valid_num_token(token_at(line@, tstart as int)),
        res.0 ==> res.1 == sat64(token_round(token_at(line@, tstart as int))),
{
    let ghost s = line@;
    let n = line.len();
    let mut tend: usize = tstart;
    while tend < n && is_num_char_exec(line[tend])
        invariant
            n == s.len(),
            s == line@,
            tstart <= tend <= n,
            num_end(s, tstart as int) == num_end(s, tend as int),
            forall|m: int| tstart <= m < tend ==> is_num_char(s[m]),
        decreases n - tend,
    {
        tend = tend + 1;
    }
    proof {
        assert(num_end(s, tend as int) == tend as int);
    }
    let ghost t = token_at(s, tstart as int);
    let ghost tlen = tend - tstart;
    proof {
        assert(t =~= s.subrange(tstart as int, tend as int));
        assert forall|m: int| 0 <= m < tlen implies is_num_char(t[m]) by {
            assert(t[m] == s[tstart + m]);
        }
    }

    // Integer part: a saturating accumulation of the leading digits.
    let mut j: usize = tstart;
    let mut acc: u64 = 0;
    let mut sat: bool = false;
    while j < tend && is_digit_exec(line[j])
        invariant
            n == s.len(),
            s == line@,
            tstart <= j <= tend <= n,
            t == token_at(s, tstart as int),
            tlen == tend - tstart,
            t.len() == tlen,
            forall|m: int| 0 <= m < tlen ==> #[trigger] is_num_char(t[m]),
            forall|m: int| 0 <= m < tlen ==> t[m] == s[tstart + m],
            first_non_digit(t, 0) == first_non_digit(t, j - tstart),
            forall|m: int| 0 <= m < j - tstart ==> is_digit(t[m]),
            !sat ==> acc == digits_val(t.subrange(0, j - tstart)),
            sat ==> digits_val(t.subrange(0, j - tstart)) > u64::MAX,
        decreases tend - j,
    {
        let d = (line[j] as u32 - 48) as u64;
        let ghost pre = t.subrange(0, j - tstart);
        let ghost post = t.subrange(0, j - tstart + 1);
        proof {
            assert(post.drop_last() =~= pre);
            assert(post.last() == t[j - tstart]);
            assert(digits_val(post) == digits_val(pre) * 10 + digit_val(t[j - tstart]));
            assert(digit_val(t[j - tstart]) == d);
        }
        if sat || acc > (u64::MAX - d) / 10 {
            proof {
                if !sat {
                    assert(acc * 10 + d > u64::MAX) by (nonlinear_arith)
                        requires
                            acc > (u64::MAX - d) / 10,
                            d <= 9,
                    ;
                }
                assert(digits_val(pre) * 10 + d >= digits_val(pre)) by (nonlinear_arith);
                assert(digits_val(post) > u64::MAX);
            }
            sat = true;
        } else {
            proof {
                assert(acc * 10 + d <= u64::MAX) by (nonlinear_arith)
                    requires
                        acc <= (u64::MAX - d) / 10,
                        d <= 9,
                ;
            }
            acc = acc * 10 + d;
        }
        j = j + 1;
    }
    let ghost ipl = j - tstart;
    proof {
        assert(first_non_digit(t, ipl as int) == ipl);
        assert(first_non_digit(t, 0) == ipl);
    }

    if j == tend {
        // No decimal point: the token is all digits, so it is valid exactly
        // when it is non-empty, and nothing rounds up.
        if tstart == tend {
            proof {
                assert(!valid_num_token(t));
            }
            return (false, 0);
        }
        proof {
            assert(is_digit(t[0]));
            assert(has_digit(t));
            assert forall|k: int, l: int|
                0 <= k < t.len() && 0 <= l < t.len() && t[k] == '.' && t[l] == '.' implies k
                == l by {
                assert(is_digit(t[k]));
                assert(('.') as u32 == 46);
            }
            assert(valid_num_token(t));
            assert(!rounds_up(t));
            assert(t.subrange(0, ipl as int) =~= t);
        }
        let out = if sat {
            u64::MAX
        } else {
            acc
        };
        return (true, out);
    }

    // The integer part stopped at a numeric non-digit: the decimal point.
    proof {
        assert(is_num_char(t[ipl as int]) && !is_digit(t[ipl as int]));
        assert(t[ipl as int] == '.');
    }

    // Everything after the point must be a digit; a second point makes the
    // token unparsable.
    let mut k: usize = j + 1;
    while k < tend
        invariant
            n == s.len(),
            s == line@,
            tstart <= j < tend <= n,
            tstart + tlen == tend,
            t == token_at(s, tstart as int),
            t.len() == tlen,
            ipl == j - tstart,
            t[ipl as int] == '.',
            forall|m: int| 0 <= m < tlen ==> #[trigger] is_num_char(t[m]),
            forall|m: int| 0 <= m < tlen ==> t[m] == s[tstart + m],
            j + 1 <= k <= tend,
            forall|m: int| ipl < m < k - tstart ==> is_digit(t[m]),
        decreases tend - k,
    {
        if !is_digit_exec(line[k]) {
            proof {
                assert(is_num_char(t[k - tstart]));
                assert(t[k - tstart] == '.');
                assert(!at_most_one_dot(t));
            }
            return (false, 0);
        }
        k = k + 1;
    }

    // One point only; the token is valid exactly when some digit exists,
    // i.e. the integer part or the fraction is non-empty.
    proof {
        assert forall|kk: int, ll: int|
            0 <= kk < t.len() && 0 <= ll < t.len() && t[kk] == '.' && t[ll] == '.' implies kk
            == ll by {
            if kk < ipl || ll < ipl {
                assert(('.') as u32 == 46);
            }
        }
    }
    if tstart == j && j + 1 == tend {
        // The token is a lone dot.
        proof {
            assert forall|m: int| 0 <= m < t.len() implies !is_digit(t[m]) by {
                assert(t[m] == '.');
                assert(('.') as u32 == 46);
            }
            assert(!has_digit(t));
        }
        return (false, 0);
    }
    proof {
        if tstart < j {
            assert(is_digit(t[0]));
        } else {
            assert(is_digit(t[ipl + 1]));
        }
        assert(has_digit(t));
        assert(valid_num_token(t));
        assert(t.subrange(0, ipl as int) =~= t.subrange(0, first_non_digit(t, 0)));
    }

    let up = if j + 1 < tend {
        let c = line[j + 1];
        proof {
            assert(t[ipl + 1] == s[tstart + ipl + 1]);
        }
        is_digit_exec(c) && (c as u32) >= 53
    } else {
        false
    };
    proof {
        assert(up == rounds_up(t));
    }
    let out = if sat {
        u64::MAX
    } else if up {
        if acc == u64::MAX {
            u64::MAX
        } else {
            acc + 1
        }
    } else {
        acc
    };
    (true, out)
}

fn scan_line(line: &Vec<char>) -> (res: Option<u64>)
    ensures
        res == line_latency(line@),
{
    let n = line.len();
    match find_token(line, '=') {
        Some(i) => {
            let (valid, v) = parse_token(line, i + 5);
            if valid {
                Some(v)
            } else {
                None
            }
        },
        None => match find_token(line, '<') {
            Some(i) => {
                let (valid, v) = parse_token(line, i + 5);
                if valid {
                    Some(
                        if v == 0 {
                            1
                        } else {
                            v
                        },
                    )
                } else {
                    Some(1)
                }
            },
            None => None,
        },
    }
}

/// Extract the latency that ping's output reports, scanning line by line:
/// the value after the first `time=` (rounded to the nearest millisecond)
/// or `time<` (clamped to at least 1 ms) token, if any line carries one.
pub fn parse_ping_latency(output: &str) -> (res: Option<u64>)
    ensures
        res == ping_latency(output@),
{
    let ghost s = output@;
    let n = output.unicode_len();
    let mut start: usize = 0;
    proof {
        assert(s.subrange(0, n as int) =~= s);
    }
    while start < n
        invariant
            s == output@,
            n == s.len(),
            0 <= start <= n,
            ping_latency(s) == lines_latency(split_lines(s.subrange(start as int, n as int))),
        decreases n - start,
    {
        let mut end: usize = start;
        while end < n && output.get_char(end) != '\n'
            invariant
                s == output@,
                n == s.len(),
                start <= end <= n,
                forall|m: int| start <= m < end ==> s[m] != '\n',
            decreases n - end,
        {
            end = end + 1;
        }
        let mut line: Vec<char> = Vec::new();
        let mut k: usize = start;
        while k < end
            invariant
                s == output@,
                n == s.len(),
                start <= k <= end <= n,
                line@ =~= s.subrange(start as int, k as int),
            decreases end - k,
        {
            let c = output.get_char(k);
            line.push(c);
            proof {
                assert(line@ =~= s.subrange(start as int, k + 1));
            }
            k = k + 1;
        }
        proof {
            assert(line@ =~= s.subrange(start as int, end as int));
        }
        let r = scan_line(&line);
        let ghost sub = s.subrange(start as int, n as int);
        proof {
            lemma_line_break_bounds(sub, 0);
            let lb = line_break(sub, 0);
            assert forall|m: int| 0 <= m < end - start implies sub[m] != '\n' by {
                assert(sub[m] == s[start + m]);
            }
            if lb < end - start {
                assert(sub[lb] != '\n');
                assert(false);
            }
            if lb > end - start {
                assert(end < n);
                assert(sub[end - start] == s[end as int]);
                assert(s[end as int] == '\n');
                assert(false);
            }
            assert(lb == end - start);
            assert(sub.subrange(0, lb) =~= s.subrange(start as int, end as int));
            assert(split_lines(sub)[0] == line@);
        }
        if let Some(v) = r {
            proof {
                assert(lines_latency(split_lines(sub)) == Some(v));
            }
            return Some(v);
        }
        let next: usize = if end < n {
            end + 1
        } else {
            n
        };
        proof {
            let lb = line_break(sub, 0);
            if lb + 1 <= sub.len() {
                assert(sub.subrange(lb + 1, sub.len() as int) =~= s.subrange(
                    next as int,
                    n as int,
                ));
                assert(split_lines(sub) == seq![line@].add(
                    split_lines(s.subrange(next as int, n as int)),
                ));
                assert(split_lines(sub).drop_first() =~= split_lines(
                    s.subrange(next as int, n as int),
                ));
            } else {
                assert(lb == sub.len());
                assert(next == n);
                assert(s.subrange(n as int, n as int) =~= Seq::<char>::empty());
                assert(split_lines(sub).drop_first() =~= split_lines(
                    s.subrange(next as int, n as int),
                ));
            }
            assert(lines_latency(split_lines(sub)) == lines_latency(
                split_lines(s.subrange(next as int, n as int)),
            ));
        }
        start = next;
    }
    proof {
        assert(s.subrange(start as int, n as int) =~= Seq::<char>::empty());
    }
    None
}

/// The first line break at or after `j` lies between `j` and the length,
/// no break stands before it, and it is a break when it is in range.
proof fn lemma_line_break_bounds(s: Seq<char>, j: int)
    requires
        0 <= j <= s.len(),
    ensures
        j <= line_break(s, j) <= s.len(),
        forall|m: int| j <= m < line_break(s, j) ==> s[m] != '\n',
        line_break(s, j) < s.len() ==> s[line_break(s, j)] == '\n',
    decreases s.len() - j,
{
    if j < s.len() && s[j] != '\n' {
        lemma_line_break_bounds(s, j + 1);
    }
}

} // verus!
