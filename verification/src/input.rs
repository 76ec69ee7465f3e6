//! Parsing of console input lines: splitting a line into whitespace-separated
//! tokens, reading the tokens that denote non-negative integers, and judging
//! a move line or a replay answer.
//!
//! Whitespace here means the ASCII whitespace characters (space, tab, line
//! feed, vertical tab, form feed, carriage return).
use vstd::prelude::*;

verus! {

/// `c` is an ASCII whitespace character.
pub open spec fn is_space(c: char) -> bool {
    c == ' ' || c == '\t' || c == '\n' || c == '\u{b}' || c == '\u{c}' || c == '\r'
}

/// `c` is an ASCII decimal digit.
pub open spec fn is_digit(c: char) -> bool {
    '0' as int <= c as int && c as int <= '9' as int
}

/// The numeric value of the digit `c`.
pub open spec fn digit_val(c: char) -> int {
    c as int - '0' as int
}

/// The whitespace-separated tokens of `s`, given that the characters of a
/// token currently being read are already gathered in `cur`.
pub open spec fn split_rec(s: Seq<char>, cur: Seq<char>) -> Seq<Seq<char>>
    decreases s.len(),
{
    if s.len() == 0 {
        if cur.len() == 0 {
            Seq::empty()
        } else {
            seq![cur]
        }
    } else if is_space(s[0]) {
        if cur.len() == 0 {
            split_rec(s.drop_first(), Seq::empty())
        } else {
            seq![cur] + split_rec(s.drop_first(), Seq::empty())
        }
    } else {
        split_rec(s.drop_first(), cur.push(s[0]))
    }
}

/// The whitespace-separated tokens of `s`, in order, each non-empty.
pub open spec fn tokens_of(s: Seq<char>) -> Seq<Seq<char>> {
    split_rec(s, Seq::empty())
}

/// Every character of `t` is a decimal digit.
pub open spec fn all_digits(t: Seq<char>) -> bool {
    forall|i: int| 0 <= i < t.len() ==> is_digit(#[trigger] t[i])
}

/// The number denoted by the digit string `t`, most significant digit first.
pub open spec fn digits_value(t: Seq<char>) -> int
    decreases t.len(),
{
    if t.len() == 0 {
        0
    } else {
        digits_value(t.drop_last()) * 10 + digit_val(t.last())
    }
}

/// The digits of a numeric token: an optional single leading `+` is allowed
/// and ignored, as Rust's integer parsing allows it.
pub open spec fn digits_part(t: Seq<char>) -> Seq<char> {
    if t.len() > 0 && t[0] == '+' {
        t.drop_first()
    } else {
        t
    }
}

/// `t` denotes a non-negative integer that fits in `usize`.
pub open spec fn token_parses(t: Seq<char>) -> bool {
    digits_part(t).len() > 0 && all_digits(digits_part(t)) && digits_value(digits_part(t))
        <= usize::MAX as int
}

/// The value denoted by the numeric token `t`.
pub open spec fn token_value(t: Seq<char>) -> int {
    digits_value(digits_part(t))
}

/// The values of the tokens of `toks` that denote integers, in order,
/// the other tokens skipped.
pub open spec fn parsed_values(toks: Seq<Seq<char>>) -> Seq<int>
    decreases toks.len(),
{
    if toks.len() == 0 {
        Seq::empty()
    } else {
        let rest = parsed_values(toks.drop_last());
        if token_parses(toks.last()) {
            rest.push(token_value(toks.last()))
        } else {
            rest
        }
    }
}

/// The integers read from line `s`: split into whitespace-separated tokens,
/// keep the tokens that denote integers fitting in `usize`, in order.
pub open spec fn line_values(s: Seq<char>) -> Seq<int> {
    parsed_values(tokens_of(s))
}

/// `s` with leading and trailing whitespace removed.
pub open spec fn trimmed(s: Seq<char>) -> Seq<char>
    decreases s.len(),
{
    if s.len() == 0 {
        s
    } else if is_space(s[0]) {
        trimmed(s.drop_first())
    } else if is_space(s.last()) {
        trimmed(s.drop_last())
    } else {
        s
    }
}

/// The views of a sequence of `usize` values as unbounded integers.
pub open spec fn usize_views(vs: Seq<usize>) -> Seq<int> {
    vs.map_values(|v: usize| v as int)
}

/// Reading the values of a token sequence can be done front to back: the
/// first token contributes its value first (if it denotes an integer), the
/// remaining tokens after it.
proof fn lemma_parsed_values_prepend(t: Seq<char>, rest: Seq<Seq<char>>)
    ensures
        parsed_values(seq![t] + rest) == (if token_parses(t) {
            seq![token_value(t)]
        } else {
            Seq::<int>::empty()
        }) + parsed_values(rest),
    decreases rest.len(),
{
    let whole = seq![t] + rest;
    let head: Seq<int> = if token_parses(t) {
        seq![token_value(t)]
    } else {
        Seq::<int>::empty()
    };
    if rest.len() == 0 {
        assert(whole =~= seq![t]);
        assert(whole.drop_last() =~= Seq::<Seq<char>>::empty());
        assert(whole.last() == t);
        assert(parsed_values(whole.drop_last()) == Seq::<int>::empty());
        assert(parsed_values(rest) == Seq::<int>::empty());
        if token_parses(t) {
            assert(parsed_values(whole) =~= seq![token_value(t)]);
            assert(head + parsed_values(rest) =~= seq![token_value(t)]);
        } else {
            assert(parsed_values(whole) =~= Seq::<int>::empty());
            assert(head + parsed_values(rest) =~= Seq::<int>::empty());
        }
    } else {
        assert(whole.drop_last() =~= seq![t] + rest.drop_last());
        assert(whole.last() == rest.last());
        lemma_parsed_values_prepend(t, rest.drop_last());
        assert(parsed_values(whole) =~= head + parsed_values(rest));
    }
}

/// Mapping a pushed value commutes with reading the views.
proof fn lemma_usize_views_push(vs: Seq<usize>, v: usize)
    ensures
        usize_views(vs.push(v)) == usize_views(vs).push(v as int),
{
    assert(usize_views(vs.push(v)) =~= usize_views(vs).push(v as int));
}

/// Returns whether `c` is an ASCII whitespace character.
fn is_space_char(c: char) -> (b: bool)
    ensures
        b == is_space(c),
{
    c == ' ' || c == '\t' || c == '\n' || c == '\u{b}' || c == '\u{c}' || c == '\r'
}

/// Reads a token as a non-negative integer the way Rust's `usize` parsing
/// does: an optional leading `+`, then one or more decimal digits, and the
/// value must fit in `usize`; returns `None` on any other shape.
fn parse_token(t: &Vec<char>) -> (r: Option<usize>)
    ensures
        r is Some <==> token_parses(t@),
        r matches Some(v) ==> v as int == token_value(t@),
{
    let n = t.len();
    let mut j: usize = 0;
    if n > 0 && t[0] == '+' {
        j = 1;
    }
    let start: usize = j;
    if j == n {
        // no digits at all
        return None;
    }
    let mut val: u128 = 0;
    let mut big = false;
    while j < n
        invariant
            start <= j <= n,
            n == t@.len(),
            start == (if t@.len() > 0 && t@[0] == '+' {
                1int
            } else {
                0int
            }),
            forall|m: int| start <= m < j ==> is_digit(#[trigger] t@[m]),
            !big ==> val as int == digits_value(t@.subrange(start as int, j as int)),
            !big ==> val <= usize::MAX as u128,
            big ==> digits_value(t@.subrange(start as int, j as int)) > usize::MAX as int,
        decreases n - j,
    {
        let c = t[j];
        let d: u128 = match c {
            '0' => 0,
            '1' => 1,
            '2' => 2,
            '3' => 3,
            '4' => 4,
            '5' => 5,
            '6' => 6,
            '7' => 7,
            '8' => 8,
            '9' => 9,
            _ => {
                proof {
                    assert(!is_digit(c));
                    assert(digits_part(t@)[j - start] == t@[j as int]);
                    assert(!is_digit(digits_part(t@)[j - start]));
                }
                return None;
            },
        };
        proof {
            assert(c == t@[j as int]);
            assert(is_digit(c));
            assert(digit_val(c) == d as int);
            assert(t@.subrange(start as int, j + 1).drop_last() =~= t@.subrange(
                start as int,
                j as int,
            ));
            assert(t@.subrange(start as int, j + 1).last() == t@[j as int]);
        }
        if !big {
            let nv: u128 = val * 10 + d;
            proof {
                assert(digits_value(t@.subrange(start as int, j + 1)) == val as int * 10
                    + d as int);
            }
            if nv > usize::MAX as u128 {
                big = true;
            } else {
                val = nv;
            }
        } else {
            proof {
                let prev = digits_value(t@.subrange(start as int, j as int));
                assert(digits_value(t@.subrange(start as int, j + 1)) == prev * 10 + digit_val(
                    t@[j as int],
                ));
            }
        }
        j += 1;
    }
    proof {
        assert(digits_part(t@) =~= t@.subrange(start as int, n as int));
    }
    if big {
        return None;
    }
    Some(val as usize)
}

/// Reads a line's integers: splits on whitespace, keeps the tokens that
/// denote integers fitting in `usize`, in order.
pub fn read_line_values(line: &str) -> (vals: Vec<usize>)
    ensures
        usize_views(vals@) == line_values(line@),
{
    let ghost s: Seq<char> = line@;
    let n = line.unicode_len();
    let mut vals: Vec<usize> = Vec::new();
    let mut cur: Vec<char> = Vec::new();
    let mut i: usize = 0;
    proof {
        assert(s.skip(0) =~= s);
        assert(vals@ =~= Seq::<usize>::empty());
        assert(cur@ =~= Seq::<char>::empty());
        assert(usize_views(vals@) =~= Seq::<int>::empty());
        assert(usize_views(vals@) + parsed_values(split_rec(s, Seq::empty())) =~= parsed_values(
            split_rec(s, Seq::empty()),
        ));
    }
    while i < n
        invariant
            i <= n,
            n == s.len(),
            line@ == s,
            line_values(s) == usize_views(vals@) + parsed_values(split_rec(s.skip(i as int), cur@)),
        decreases n - i,
    {
        let ghost rem: Seq<char> = s.skip(i as int);
        proof {
            assert(rem.len() > 0);
            assert(rem[0] == s[i as int]);
            assert(rem.drop_first() =~= s.skip(i as int + 1));
        }
        let c = line.get_char(i);
        if is_space_char(c) {
            if cur.len() > 0 {
                proof {
                    lemma_parsed_values_prepend(cur@, split_rec(s.skip(i as int + 1), Seq::empty()));
                }
                let ghost before: Seq<usize> = vals@;
                if let Some(v) = parse_token(&cur) {
                    vals.push(v);
                    proof {
                        lemma_usize_views_push(before, v);
                        assert(usize_views(before) + (seq![token_value(cur@)] + parsed_values(
                            split_rec(s.skip(i as int + 1), Seq::empty()),
                        )) =~= usize_views(vals@) + parsed_values(
                            split_rec(s.skip(i as int + 1), Seq::empty()),
                        ));
                    }
                } else {
                    proof {
                        assert(usize_views(before) + (Seq::<int>::empty() + parsed_values(
                            split_rec(s.skip(i as int + 1), Seq::empty()),
                        )) =~= usize_views(vals@) + parsed_values(
                            split_rec(s.skip(i as int + 1), Seq::empty()),
                        ));
                    }
                }
                cur = Vec::new();
                proof {
                    assert(cur@ =~= Seq::<char>::empty());
                }
            } else {
                proof {
                    assert(cur@ =~= Seq::<char>::empty());
                }
            }
        } else {
            cur.push(c);
        }
        i += 1;
    }
    proof {
        assert(s.skip(n as int) =~= Seq::<char>::empty());
    }
    if cur.len() > 0 {
        proof {
            assert(split_rec(s.skip(n as int), cur@) =~= seq![cur@]);
            assert(seq![cur@].drop_last() =~= Seq::<Seq<char>>::empty());
            assert(parsed_values(Seq::<Seq<char>>::empty()) == Seq::<int>::empty());
            assert(seq![cur@].last() == cur@);
        }
        let ghost before: Seq<usize> = vals@;
        if let Some(v) = parse_token(&cur) {
            vals.push(v);
            proof {
                lemma_usize_views_push(before, v);
                assert(parsed_values(seq![cur@]) =~= seq![token_value(cur@)]);
                assert(usize_views(before) + seq![token_value(cur@)] =~= usize_views(vals@));
            }
        } else {
            proof {
                assert(parsed_values(seq![cur@]) =~= Seq::<int>::empty());
                assert(usize_views(before) + Seq::<int>::empty() =~= usize_views(vals@));
            }
        }
    } else {
        proof {
            assert(usize_views(vals@) + parsed_values(split_rec(s.skip(n as int), cur@))
                =~= usize_views(vals@));
        }
    }
    vals
}

/// Why a move line was rejected.
#[derive(Copy, Clone, PartialEq, Eq, Structural, Debug)]
pub enum MoveParseError {
    /// The line does not hold exactly two integers.
    NotTwoNumbers,
    /// The line holds two integers but one of them is outside 1..=3.
    OutOfRange,
}

/// Reads a move line. Succeeds exactly when the line holds exactly two
/// integers, both between 1 and 3; the result is the pair converted to
/// zero-based (row, column). Reports which rule the line broke otherwise.
pub fn parse_move_line(line: &str) -> (r: Result<(usize, usize), MoveParseError>)
    ensures
        ({
            let vs = line_values(line@);
            match r {
                Ok((row, col)) => {
                    &&& vs.len() == 2
                    &&& 1 <= vs[0] <= 3
                    &&& 1 <= vs[1] <= 3
                    &&& row as int == vs[0] - 1
                    &&& col as int == vs[1] - 1
                },
                Err(MoveParseError::NotTwoNumbers) => vs.len() != 2,
                Err(MoveParseError::OutOfRange) => vs.len() == 2 && !(1 <= vs[0] <= 3 && 1 <= vs[1]
                    <= 3),
            }
        }),
{
    let vals = read_line_values(line);
    proof {
        assert(usize_views(vals@).len() == vals@.len());
    }
    if vals.len() != 2 {
        return Err(MoveParseError::NotTwoNumbers);
    }
    let a = vals[0];
    let b = vals[1];
    proof {
        assert(usize_views(vals@)[0] == vals@[0] as int);
        assert(usize_views(vals@)[1] == vals@[1] as int);
    }
    if a < 1 || a > 3 || b < 1 || b > 3 {
        return Err(MoveParseError::OutOfRange);
    }
    Ok((a - 1, b - 1))
}

/// Reads a replay answer: `true` exactly when the line, with leading and
/// trailing whitespace removed, is the single letter `y`.
pub fn wants_replay(line: &str) -> (b: bool)
    ensures
        b <==> trimmed(line@) == seq!['y'],
{
    let ghost s: Seq<char> = line@;
    let n = line.unicode_len();
    let mut lo: usize = 0;
    proof {
        assert(s.subrange(0, n as int) =~= s);
    }
    loop
        invariant_except_break
            lo <= n,
            n == s.len(),
            line@ == s,
            trimmed(s) == trimmed(s.subrange(lo as int, n as int)),
        ensures
            lo <= n,
            line@ == s,
            n == s.len(),
            trimmed(s) == trimmed(s.subrange(lo as int, n as int)),
            lo == n || !is_space(s[lo as int]),
        decreases n - lo,
    {
        if lo == n {
            break;
        }
        let c = line.get_char(lo);
        if !is_space_char(c) {
            break;
        }
        proof {
            assert(s.subrange(lo as int, n as int).drop_first() =~= s.subrange(
                lo as int + 1,
                n as int,
            ));
        }
        lo += 1;
    }
    let mut hi: usize = n;
    loop
        invariant_except_break
            lo <= hi <= n,
            n == s.len(),
            line@ == s,
            lo == n || !is_space(s[lo as int]),
            trimmed(s) == trimmed(s.subrange(lo as int, hi as int)),
        ensures
            lo <= hi <= n,
            line@ == s,
            trimmed(s) == trimmed(s.subrange(lo as int, hi as int)),
            hi == lo || (!is_space(s[lo as int]) && !is_space(s[hi - 1])),
        decreases hi,
    {
        if hi == lo {
            break;
        }
        let c = line.get_char(hi - 1);
        if !is_space_char(c) {
            break;
        }
        proof {
            assert(s.subrange(lo as int, hi as int).last() == s[hi - 1]);
            assert(s.subrange(lo as int, hi as int).drop_last() =~= s.subrange(
                lo as int,
                hi as int - 1,
            ));
        }
        hi -= 1;
    }
    proof {
        assert(trimmed(s) =~= s.subrange(lo as int, hi as int));
    }
    if hi - lo == 1 {
        let c = line.get_char(lo);
        proof {
            if c == 'y' {
                assert(s.subrange(lo as int, hi as int) =~= seq!['y']);
            } else {
                assert(s.subrange(lo as int, hi as int)[0] != 'y');
            }
        }
        c == 'y'
    } else {
        proof {
            assert(trimmed(s).len() != 1);
        }
        false
    }
}

} // verus!
