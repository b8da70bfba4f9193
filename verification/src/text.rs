use vstd::prelude::*;

verus! {

/// Appends one character to a string.
///
/// Trusted: wraps `String::push`, which std documents as appending the
/// given char to the end of the string.
#[verifier::external_body]
pub(crate) fn push_char(s: &mut String, c: char)
    ensures
        final(s)@ == old(s)@.push(c),
{
    s.push(c);
}

/// The characters of a string slice, in order.
pub fn chars_of(s: &str) -> (v: Vec<char>)
    ensures
        v@ == s@,
{
    let n = s.unicode_len();
    let mut v: Vec<char> = Vec::new();
    let mut i: usize = 0;
    while i < n
        invariant
            n == s@.len(),
            i <= n,
            v@ == s@.subrange(0, i as int),
        decreases n - i,
    {
        let c = s.get_char(i);
        v.push(c);
        i = i + 1;
        assert(v@ =~= s@.subrange(0, i as int));
    }
    assert(v@ =~= s@);
    v
}

/// Appends a sequence of characters to a string.
pub fn push_chars(out: &mut String, cs: &Vec<char>)
    ensures
        final(out)@ == old(out)@ + cs@,
{
    let mut i: usize = 0;
    let ghost start = out@;
    while i < cs.len()
        invariant
            start == old(out)@,
            i <= cs.len(),
            out@ == start + cs@.subrange(0, i as int),
        decreases cs.len() - i,
    {
        push_char(out, cs[i]);
        i = i + 1;
        assert(out@ =~= start + cs@.subrange(0, i as int));
    }
    assert(cs@.subrange(0, cs@.len() as int) =~= cs@);
}

/// A string made of the given characters.
pub fn string_of(cs: &Vec<char>) -> (s: String)
    ensures
        s@ == cs@,
{
    let mut s = String::new();
    push_chars(&mut s, cs);
    assert(s@ =~= cs@);
    s
}

/// The decimal digit character for `d` (0 to 9).
pub open spec fn digit_char(d: int) -> char {
    if d == 0 { '0' }
    else if d == 1 { '1' }
    else if d == 2 { '2' }
    else if d == 3 { '3' }
    else if d == 4 { '4' }
    else if d == 5 { '5' }
    else if d == 6 { '6' }
    else if d == 7 { '7' }
    else if d == 8 { '8' }
    else { '9' }
}

/// The decimal notation of `n`, without sign or leading zeros.
pub open spec fn decimal_spec(n: nat) -> Seq<char>
    decreases n,
{
    if n < 10 {
        seq![digit_char(n as int)]
    } else {
        decimal_spec(n / 10).push(digit_char((n % 10) as int))
    }
}

fn digit(d: u64) -> (c: char)
    requires
        d < 10,
    ensures
        c == digit_char(d as int),
{
    if d == 0 { '0' }
    else if d == 1 { '1' }
    else if d == 2 { '2' }
    else if d == 3 { '3' }
    else if d == 4 { '4' }
    else if d == 5 { '5' }
    else if d == 6 { '6' }
    else if d == 7 { '7' }
    else if d == 8 { '8' }
    else { '9' }
}

/// Appends the decimal notation of `n`.
pub fn push_decimal(out: &mut String, n: u64)
    ensures
        final(out)@ == old(out)@ + decimal_spec(n as nat),
    decreases n,
{
    if n >= 10 {
        push_decimal(out, n / 10);
    }
    push_char(out, digit(n % 10));
    assert(final(out)@ =~= old(out)@ + decimal_spec(n as nat)) by {
        if n >= 10 {
            assert(decimal_spec(n as nat) == decimal_spec((n / 10) as nat).push(digit_char((n % 10) as int)));
        }
    }
}

/// Ten to the power `k`.
pub open spec fn pow10(k: nat) -> nat
    decreases k,
{
    if k == 0 { 1 } else { 10 * pow10((k - 1) as nat) }
}

/// A number below `10^k` has at most `k` digits, and every number has one.
pub proof fn lemma_decimal_len(n: nat, k: nat)
    requires
        n < pow10(k),
    ensures
        1 <= decimal_spec(n).len(),
        k >= 1 ==> decimal_spec(n).len() <= k,
    decreases n,
{
    if n >= 10 {
        if k >= 2 {
            let p = pow10((k - 2) as nat);
            assert(pow10(k) == 10 * pow10((k - 1) as nat));
            assert(pow10((k - 1) as nat) == 10 * p);
            assert(n / 10 < 10 * p) by (nonlinear_arith)
                requires
                    n < 100 * p,
            ;
            lemma_decimal_len(n / 10, (k - 1) as nat);
        } else if k == 1 {
            assert(pow10(0) == 1);
            assert(pow10(1) == 10);
        } else {
            assert(pow10(0) == 1);
        }
    }
}

/// Ten to the fifth.
pub proof fn lemma_pow10_5()
    ensures
        pow10(5) == 100000,
{
    assert(pow10(0) == 1);
    assert(pow10(1) == 10);
    assert(pow10(2) == 100);
    assert(pow10(3) == 1000);
    assert(pow10(4) == 10000);
    assert(pow10(5) == 100000);
}

/// The decimal notation of `n`, as `format!("{n}")` writes it.
pub fn decimal(n: u64) -> (s: String)
    ensures
        s@ == decimal_spec(n as nat),
{
    let mut s = String::new();
    push_decimal(&mut s, n);
    assert(s@ =~= decimal_spec(n as nat));
    s
}

/// `n` spaces.
pub open spec fn spaces(n: nat) -> Seq<char> {
    Seq::new(n, |i: int| ' ')
}

/// `s` right-aligned in a field of `width` characters, as `{:>width}` does.
pub open spec fn pad_left_spec(s: Seq<char>, width: nat) -> Seq<char> {
    if s.len() >= width { s } else { spaces((width - s.len()) as nat) + s }
}

/// `s` left-aligned in a field of `width` characters, as `{:<width}` does.
pub open spec fn pad_right_spec(s: Seq<char>, width: nat) -> Seq<char> {
    if s.len() >= width { s } else { s + spaces((width - s.len()) as nat) }
}

/// Appends `n` spaces.
pub fn push_spaces(out: &mut String, n: usize)
    ensures
        final(out)@ == old(out)@ + spaces(n as nat),
{
    let ghost start = out@;
    let mut i: usize = 0;
    while i < n
        invariant
            start == old(out)@,
            i <= n,
            out@ == start + spaces(i as nat),
        decreases n - i,
    {
        push_char(out, ' ');
        i = i + 1;
        assert(out@ =~= start + spaces(i as nat));
    }
}

/// `s` right-aligned in a field of `width` characters.
pub fn pad_left(s: &str, width: usize) -> (r: String)
    ensures
        r@ == pad_left_spec(s@, width as nat),
{
    let cs = chars_of(s);
    let mut r = String::new();
    if cs.len() < width {
        push_spaces(&mut r, width - cs.len());
    }
    push_chars(&mut r, &cs);
    assert(r@ =~= pad_left_spec(s@, width as nat));
    r
}

/// `s` left-aligned in a field of `width` characters.
pub fn pad_right(s: &str, width: usize) -> (r: String)
    ensures
        r@ == pad_right_spec(s@, width as nat),
{
    let cs = chars_of(s);
    let mut r = String::new();
    push_chars(&mut r, &cs);
    if cs.len() < width {
        push_spaces(&mut r, width - cs.len());
    }
    assert(r@ =~= pad_right_spec(s@, width as nat));
    r
}

/// What `truncate` makes of `s`: `s` itself when it has at most `max`
/// characters, else its first `max - 1` characters followed by an ellipsis.
pub open spec fn truncate_spec(s: Seq<char>, max: nat) -> Seq<char> {
    if s.len() <= max {
        s
    } else {
        s.take(max - 1).push('…')
    }
}

/// Shortens `s` to at most `max` characters, marking a cut with an ellipsis.
pub fn truncate(s: &str, max: usize) -> (r: String)
    requires
        s@.len() > max ==> max >= 1,
    ensures
        r@ == truncate_spec(s@, max as nat),
{
    let cs = chars_of(s);
    if cs.len() <= max {
        string_of(&cs)
    } else {
        let mut r = String::new();
        let mut i: usize = 0;
        while i < max - 1
            invariant
                max >= 1,
                max < cs.len(),
                i <= max - 1,
                r@ == cs@.take(i as int),
            decreases max - 1 - i,
        {
            push_char(&mut r, cs[i]);
            i = i + 1;
            assert(r@ =~= cs@.take(i as int));
        }
        push_char(&mut r, '…');
        r
    }
}

/// The activity sidebar's name shortening; the same rule as `truncate`.
pub fn truncate_name(s: &str, max: usize) -> (r: String)
    requires
        s@.len() > max ==> max >= 1,
    ensures
        r@ == truncate_spec(s@, max as nat),
{
    truncate(s, max)
}

/// Shortening is idempotent and never leaves more than `max` characters.
pub proof fn truncate_is_idempotent(s: Seq<char>, max: nat)
    requires
        max >= 1,
    ensures
        truncate_spec(s, max).len() <= max,
        truncate_spec(truncate_spec(s, max), max) == truncate_spec(s, max),
        s.len() <= max ==> truncate_spec(s, max) == s,
{
}

/// `a` sorts strictly before `b` in lexicographic order of characters (by
/// code point), the order `String`'s `cmp` gives, since UTF-8 keeps the code
/// point order of characters.
pub open spec fn seq_lt(a: Seq<char>, b: Seq<char>) -> bool
    decreases a.len(),
{
    if a.len() == 0 {
        b.len() > 0
    } else if b.len() == 0 {
        false
    } else if (a[0] as u32) < (b[0] as u32) {
        true
    } else if a[0] == b[0] {
        seq_lt(a.drop_first(), b.drop_first())
    } else {
        false
    }
}

/// The lexicographic order is irreflexive.
pub proof fn lemma_seq_lt_irreflexive(a: Seq<char>)
    ensures
        !seq_lt(a, a),
    decreases a.len(),
{
    if a.len() > 0 {
        lemma_seq_lt_irreflexive(a.drop_first());
    }
}

/// The lexicographic order is transitive.
pub proof fn lemma_seq_lt_transitive(a: Seq<char>, b: Seq<char>, x: Seq<char>)
    requires
        seq_lt(a, b),
        seq_lt(b, x),
    ensures
        seq_lt(a, x),
    decreases a.len(),
{
    if a.len() > 0 && b.len() > 0 && x.len() > 0 {
        if a[0] == b[0] && b[0] == x[0] {
            lemma_seq_lt_transitive(a.drop_first(), b.drop_first(), x.drop_first());
        }
    }
}

/// Two different character sequences are ordered one way or the other.
pub proof fn lemma_seq_lt_total(a: Seq<char>, b: Seq<char>)
    requires
        a != b,
    ensures
        seq_lt(a, b) || seq_lt(b, a),
    decreases a.len(),
{
    if a.len() > 0 && b.len() > 0 && a[0] == b[0] {
        if a.drop_first() == b.drop_first() {
            assert(a =~= seq![a[0]] + a.drop_first());
            assert(b =~= seq![b[0]] + b.drop_first());
        }
        lemma_seq_lt_total(a.drop_first(), b.drop_first());
    } else if a.len() == 0 && b.len() == 0 {
        assert(a =~= b);
    } else if a.len() > 0 && b.len() > 0 {
        vstd::utf8::char_u32_cast(a[0], a[0] as u32);
        vstd::utf8::char_u32_cast(b[0], b[0] as u32);
    }
}

/// `seq_lt` is the lexicographic order of std's `cmp` on strings: `a` comes
/// first exactly when, after a common prefix of length `i`, either `a` ends
/// and `b` goes on, or `a`'s next character is smaller than `b`'s. So two
/// names whose first characters differ are ordered by those characters, and
/// a proper prefix comes first.
pub proof fn seq_lt_is_lexicographic(a: Seq<char>, b: Seq<char>)
    ensures
        seq_lt(a, b) <==> exists|i: int|
            #![trigger a.take(i), b.take(i)]
            0 <= i <= a.len() && i <= b.len() && a.take(i) == b.take(i) && ((i == a.len() && i
                < b.len()) || (i < a.len() && i < b.len() && (a[i] as u32) < (b[i] as u32))),
        a.len() > 0 && b.len() > 0 && a[0] != b[0] ==> (seq_lt(a, b) <==> (a[0] as u32) < (
        b[0] as u32)),
        a.len() < b.len() && a == b.take(a.len() as int) ==> seq_lt(a, b),
    decreases a.len(),
{
    let ex = exists|i: int|
        #![trigger a.take(i), b.take(i)]
        0 <= i <= a.len() && i <= b.len() && a.take(i) == b.take(i) && ((i == a.len() && i
            < b.len()) || (i < a.len() && i < b.len() && (a[i] as u32) < (b[i] as u32)));
    assert(a.take(0) =~= b.take(0));
    if a.len() == 0 {
        if ex {
            let i = choose|i: int|
                #![trigger a.take(i), b.take(i)]
                0 <= i <= a.len() && i <= b.len() && a.take(i) == b.take(i) && ((i == a.len() && i
                    < b.len()) || (i < a.len() && i < b.len() && (a[i] as u32) < (b[i] as u32)));
            assert(i == 0);
        }
    } else if b.len() == 0 {
    } else {
        let a1 = a.drop_first();
        let b1 = b.drop_first();
        seq_lt_is_lexicographic(a1, b1);
        if ex {
            let i = choose|i: int|
                #![trigger a.take(i), b.take(i)]
                0 <= i <= a.len() && i <= b.len() && a.take(i) == b.take(i) && ((i == a.len() && i
                    < b.len()) || (i < a.len() && i < b.len() && (a[i] as u32) < (b[i] as u32)));
            if i > 0 {
                assert(a.take(i)[0] == a[0] && b.take(i)[0] == b[0]);
                assert(a[0] == b[0]);
                assert(a1.take(i - 1) =~= a.take(i).drop_first());
                assert(b1.take(i - 1) =~= b.take(i).drop_first());
                assert(a1[i - 1] == a[i] || i == a.len());
                if i < a.len() {
                    assert(a1[i - 1] == a[i]);
                }
                if i < b.len() {
                    assert(b1[i - 1] == b[i]);
                }
                assert(seq_lt(a1, b1));
            }
            assert(seq_lt(a, b));
        }
        if seq_lt(a, b) {
            if (a[0] as u32) < (b[0] as u32) {
            } else {
                assert(a[0] == b[0]);
                assert(seq_lt(a1, b1));
                let j = choose|j: int|
                    #![trigger a1.take(j), b1.take(j)]
                    0 <= j <= a1.len() && j <= b1.len() && a1.take(j) == b1.take(j) && ((j
                        == a1.len() && j < b1.len()) || (j < a1.len() && j < b1.len() && (
                    a1[j] as u32) < (b1[j] as u32)));
                assert(a.take(j + 1) =~= seq![a[0]] + a1.take(j));
                assert(b.take(j + 1) =~= seq![b[0]] + b1.take(j));
                if j < a1.len() {
                    assert(a1[j] == a[j + 1]);
                }
                if j < b1.len() {
                    assert(b1[j] == b[j + 1]);
                }
                assert(a.take(j + 1) == b.take(j + 1));
            }
            assert(ex);
        }
        if a.len() < b.len() && a == b.take(a.len() as int) {
            assert(a.take(a.len() as int) =~= a);
            assert(b.take(a.len() as int).take(a.len() as int) =~= b.take(a.len() as int));
            assert(a.take(a.len() as int) == b.take(a.len() as int));
        }
        if a[0] != b[0] && !((a[0] as u32) < (b[0] as u32)) {
            assert(!seq_lt(a, b));
        }
    }
}

/// Decides `seq_lt` on the characters of two strings.
pub fn str_lt(a: &str, b: &str) -> (r: bool)
    ensures
        r == seq_lt(a@, b@),
{
    let ca = chars_of(a);
    let cb = chars_of(b);
    let mut i: usize = 0;
    assert(ca@.skip(0) =~= ca@ && cb@.skip(0) =~= cb@);
    while i < ca.len() && i < cb.len()
        invariant
            i <= ca@.len(),
            i <= cb@.len(),
            seq_lt(a@, b@) == seq_lt(ca@.skip(i as int), cb@.skip(i as int)),
        decreases ca.len() - i,
    {
        let x = ca[i];
        let y = cb[i];
        assert(ca@.skip(i as int)[0] == x && cb@.skip(i as int)[0] == y);
        if (x as u32) < (y as u32) {
            return true;
        }
        if x != y {
            return false;
        }
        assert(ca@.skip(i as int).drop_first() =~= ca@.skip(i + 1));
        assert(cb@.skip(i as int).drop_first() =~= cb@.skip(i + 1));
        i = i + 1;
    }
    assert(ca@.skip(i as int).len() == 0 || cb@.skip(i as int).len() == 0);
    i < cb.len()
}

/// A character with the Unicode `White_Space` property, the whitespace that
/// `str::trim` removes.
pub open spec fn is_white_space(c: char) -> bool {
    let u = c as u32;
    ||| (0x9 <= u && u <= 0xD)
    ||| u == 0x20
    ||| u == 0x85
    ||| u == 0xA0
    ||| u == 0x1680
    ||| (0x2000 <= u && u <= 0x200A)
    ||| u == 0x2028
    ||| u == 0x2029
    ||| u == 0x202F
    ||| u == 0x205F
    ||| u == 0x3000
}

/// `s` without its leading whitespace.
pub open spec fn trim_start_spec(s: Seq<char>) -> Seq<char>
    decreases s.len(),
{
    if s.len() > 0 && is_white_space(s[0]) {
        trim_start_spec(s.drop_first())
    } else {
        s
    }
}

/// `s` without its trailing whitespace.
pub open spec fn trim_end_spec(s: Seq<char>) -> Seq<char>
    decreases s.len(),
{
    if s.len() > 0 && is_white_space(s.last()) {
        trim_end_spec(s.drop_last())
    } else {
        s
    }
}

/// `s` without leading and trailing whitespace.
pub open spec fn trim_spec(s: Seq<char>) -> Seq<char> {
    trim_end_spec(trim_start_spec(s))
}

/// Decides `is_white_space`.
pub fn white_space(c: char) -> (r: bool)
    ensures
        r == is_white_space(c),
{
    let u = c as u32;
    (0x9 <= u && u <= 0xD) || u == 0x20 || u == 0x85 || u == 0xA0 || u == 0x1680
        || (0x2000 <= u && u <= 0x200A) || u == 0x2028 || u == 0x2029 || u == 0x202F
        || u == 0x205F || u == 0x3000
}

/// `s` without leading and trailing whitespace, as `str::trim` gives it.
pub fn trim(s: &str) -> (r: String)
    ensures
        r@ == trim_spec(s@),
{
    let cs = chars_of(s);
    let n = cs.len();
    let mut i: usize = 0;
    assert(cs@.skip(0) =~= cs@);
    while i < n && white_space(cs[i])
        invariant
            i <= n,
            n == cs@.len(),
            trim_start_spec(cs@) == trim_start_spec(cs@.skip(i as int)),
        decreases n - i,
    {
        assert(cs@.skip(i as int).drop_first() =~= cs@.skip(i + 1));
        i = i + 1;
    }
    let ghost t = cs@.skip(i as int);
    assert(trim_start_spec(cs@) == t);
    let mut j: usize = n;
    assert(t.take((j - i) as int) =~= t);
    while j > i && white_space(cs[j - 1])
        invariant
            i <= j <= n,
            n == cs@.len(),
            t == cs@.skip(i as int),
            trim_end_spec(t) == trim_end_spec(t.take((j - i) as int)),
        decreases j,
    {
        assert(t.take((j - i) as int).drop_last() =~= t.take((j - 1 - i) as int));
        j = j - 1;
    }
    assert(trim_end_spec(t) == t.take((j - i) as int));
    let mut r = String::new();
    let mut k: usize = i;
    while k < j
        invariant
            i <= k <= j <= n,
            n == cs@.len(),
            t == cs@.skip(i as int),
            r@ == t.take((k - i) as int),
        decreases j - k,
    {
        push_char(&mut r, cs[k]);
        k = k + 1;
        assert(r@ =~= t.take((k - i) as int));
    }
    r
}

} // verus!
