use vstd::prelude::*;
use crate::text::chars_of;

verus! {

/// The refresh interval when none is given, in milliseconds.
pub const DEFAULT_REFRESH_MS: u64 = 5_000;

/// The command-line option that sets the refresh interval.
pub open spec fn refresh_flag() -> Seq<char> {
    "--refresh-ms"@
}

/// An ASCII decimal digit.
pub open spec fn is_digit(c: char) -> bool {
    48 <= (c as u32) && (c as u32) <= 57
}

/// The value of a string of decimal digits.
pub open spec fn digits_value(s: Seq<char>) -> int
    decreases s.len(),
{
    if s.len() == 0 {
        0
    } else {
        digits_value(s.drop_last()) * 10 + ((s.last() as u32) - 48)
    }
}

/// The digits after an optional leading `+`.
pub open spec fn unsigned_body(s: Seq<char>) -> Seq<char> {
    if s.len() > 0 && s[0] == '+' { s.drop_first() } else { s }
}

/// Every character is a decimal digit.
pub open spec fn all_digits(s: Seq<char>) -> bool {
    forall|i: int| 0 <= i < s.len() ==> is_digit(#[trigger] s[i])
}

/// What `str::parse::<u64>` gives: an optional `+` followed by one or more
/// decimal digits whose value fits in a `u64`; anything else is an error.
pub open spec fn parse_u64_spec(s: Seq<char>) -> Option<u64> {
    let body = unsigned_body(s);
    if body.len() > 0 && all_digits(body) && digits_value(body) <= u64::MAX {
        Some(digits_value(body) as u64)
    } else {
        None
    }
}

proof fn lemma_digits_grow(s: Seq<char>, k: int)
    requires
        0 <= k <= s.len(),
        forall|i: int| 0 <= i < s.len() ==> is_digit(#[trigger] s[i]),
    ensures
        digits_value(s) >= digits_value(s.take(k)),
        digits_value(s.take(k)) >= 0,
    decreases s.len(),
{
    if s.len() > 0 {
        if k == s.len() {
            assert(s.take(k) =~= s);
            lemma_digits_grow(s.drop_last(), 0);
            assert(s.take(0) =~= s.drop_last().take(0));
        } else {
            assert(s.take(k) =~= s.drop_last().take(k));
            lemma_digits_grow(s.drop_last(), k);
            lemma_digits_grow(s.drop_last(), s.len() - 1);
            assert(s.drop_last().take(s.len() - 1) =~= s.drop_last());
        }
    }
}

/// Parses a decimal `u64` as `str::parse::<u64>` does.
pub fn parse_u64(s: &str) -> (r: Option<u64>)
    ensures
        r == parse_u64_spec(s@),
{
    let cs = chars_of(s);
    let mut i: usize = 0;
    if cs.len() > 0 && cs[0] == '+' {
        i = 1;
    }
    let start = i;
    let ghost body = unsigned_body(s@);
    assert(body =~= cs@.skip(start as int));
    if i >= cs.len() {
        return None;
    }
    let mut v: u64 = 0;
    while i < cs.len()
        invariant
            start <= i <= cs@.len(),
            body == cs@.skip(start as int),
            body == unsigned_body(s@),
            forall|k: int| 0 <= k < i - start ==> is_digit(#[trigger] body[k]),
            v == digits_value(body.take(i - start)),
        decreases cs.len() - i,
    {
        let c = cs[i];
        let u = c as u32;
        if u < 48 || u > 57 {
            assert(body[i - start] == c);
            assert(!is_digit(body[i - start]));
            return None;
        }
        assert(body.take(i - start + 1).drop_last() =~= body.take(i - start));
        assert(body.take(i - start + 1).last() == c);
        let d = (u - 48) as u64;
        match v.checked_mul(10) {
            Some(m) => {
                match m.checked_add(d) {
                    Some(n) => {
                        v = n;
                    },
                    None => {
                        assert(digits_value(body.take(i - start + 1)) == m + d);
                        proof {
                            lemma_digits_overflow(body, i - start + 1);
                        }
                        return None;
                    },
                }
            },
            None => {
                proof {
                    lemma_digits_overflow(body, i - start + 1);
                }
                return None;
            },
        }
        i = i + 1;
    }
    assert(body.take(i - start) =~= body);
    Some(v)
}

proof fn lemma_digits_overflow(body: Seq<char>, k: int)
    requires
        0 < k <= body.len(),
        digits_value(body.take(k)) > u64::MAX,
    ensures
        !(all_digits(body) && digits_value(body) <= u64::MAX),
{
    if all_digits(body) {
        lemma_digits_grow(body, k);
    }
}

/// The refresh interval given after the first `--refresh-ms` of `args`, if
/// that is followed by a valid number.
pub open spec fn refresh_arg_spec(args: Seq<String>) -> Option<u64>
    decreases args.len(),
{
    if args.len() == 0 {
        None
    } else if args[0]@ == refresh_flag() {
        if args.len() > 1 { parse_u64_spec(args[1]@) } else { None }
    } else {
        refresh_arg_spec(args.drop_first())
    }
}

/// The refresh interval that the command line asks for, if any: the number
/// after the first `--refresh-ms`.
pub fn parse_refresh_arg(args: &Vec<String>) -> (r: Option<u64>)
    ensures
        r == refresh_arg_spec(args@),
{
    let flag = String::from_str("--refresh-ms");
    let mut i: usize = 0;
    assert(args@.skip(0) =~= args@);
    while i < args.len()
        invariant
            i <= args@.len(),
            flag@ == refresh_flag(),
            refresh_arg_spec(args@) == refresh_arg_spec(args@.skip(i as int)),
        decreases args.len() - i,
    {
        assert(args@.skip(i as int)[0] == args@[i as int]);
        if args[i] == flag {
            if i + 1 < args.len() {
                assert(args@.skip(i as int)[1] == args@[i + 1]);
                return parse_u64(args[i + 1].as_str());
            }
            return None;
        }
        assert(args@.skip(i as int).drop_first() =~= args@.skip(i + 1));
        i = i + 1;
    }
    None
}

/// The refresh interval to use: the one asked for, else the default.
pub fn refresh_interval(args: &Vec<String>) -> (ms: u64)
    ensures
        ms == (match refresh_arg_spec(args@) {
            Some(v) => v,
            None => DEFAULT_REFRESH_MS,
        }),
{
    match parse_refresh_arg(args) {
        Some(v) => v,
        None => DEFAULT_REFRESH_MS,
    }
}

} // verus!
