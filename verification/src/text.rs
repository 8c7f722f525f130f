//! Character-level text utilities shared by the rest of the crate: equality,
//! trimming, unsigned number parsing, decimal rendering and substring
//! replacement, each specified over the `Seq<char>` view of a string.

use vstd::prelude::*;
use vstd::string::*;

verus! {

/// Compares two strings character by character.
pub fn same_text(a: &str, b: &str) -> (r: bool)
    ensures
        r == (a@ == b@),
{
    let n = a.unicode_len();
    if n != b.unicode_len() {
        return false;
    }
    let mut i: usize = 0;
    while i < n
        invariant
            n == a@.len(),
            n == b@.len(),
            i <= n,
            forall|k: int| 0 <= k < i ==> a@[k] == b@[k],
        decreases n - i,
    {
        if a.get_char(i) != b.get_char(i) {
            return false;
        }
        i = i + 1;
    }
    assert(a@ =~= b@);
    true
}

// ---------------------------------------------------------------------------
// Trimming
// ---------------------------------------------------------------------------

/// `s` without its leading run of `c`.
pub open spec fn strip_leading(s: Seq<char>, c: char) -> Seq<char>
    decreases s.len(),
{
    if s.len() > 0 && s[0] == c {
        strip_leading(s.drop_first(), c)
    } else {
        s
    }
}

/// `s` without its trailing run of `c`.
pub open spec fn strip_trailing(s: Seq<char>, c: char) -> Seq<char>
    decreases s.len(),
{
    if s.len() > 0 && s.last() == c {
        strip_trailing(s.drop_last(), c)
    } else {
        s
    }
}

/// `s` without the runs of `c` at either end (what `str::trim_matches(c)` gives).
pub open spec fn trim_char(s: Seq<char>, c: char) -> Seq<char> {
    strip_trailing(strip_leading(s, c), c)
}

proof fn lemma_strip_leading(s: Seq<char>, c: char, k: int)
    requires
        0 <= k <= s.len(),
        forall|i: int| 0 <= i < k ==> s[i] == c,
        k == s.len() || s[k] != c,
    ensures
        strip_leading(s, c) == s.subrange(k, s.len() as int),
    decreases k,
{
    if k == 0 {
        assert(s.subrange(0, s.len() as int) =~= s);
    } else {
        lemma_strip_leading(s.drop_first(), c, k - 1);
        assert(s.drop_first().subrange(k - 1, s.len() - 1) =~= s.subrange(k, s.len() as int));
    }
}

proof fn lemma_strip_trailing(s: Seq<char>, c: char, k: int)
    requires
        0 <= k <= s.len(),
        forall|i: int| k <= i < s.len() ==> s[i] == c,
        k == 0 || s[k - 1] != c,
    ensures
        strip_trailing(s, c) == s.subrange(0, k),
    decreases s.len() - k,
{
    if k == s.len() {
        assert(s.subrange(0, k) =~= s);
    } else {
        lemma_strip_trailing(s.drop_last(), c, k);
        assert(s.drop_last().subrange(0, k) =~= s.subrange(0, k));
    }
}

/// Removes every leading and trailing occurrence of `c`, as `str::trim_matches` does.
pub fn trim_char_matches(s: &str, c: char) -> (r: &str)
    ensures
        r@ == trim_char(s@, c),
{
    let n = s.unicode_len();
    let mut start: usize = 0;
    while start < n && s.get_char(start) == c
        invariant
            n == s@.len(),
            start <= n,
            forall|i: int| 0 <= i < start ==> s@[i] == c,
        decreases n - start,
    {
        start = start + 1;
    }
    let mut end: usize = n;
    while end > start && s.get_char(end - 1) == c
        invariant
            n == s@.len(),
            start <= end <= n,
            forall|i: int| end <= i < n ==> s@[i] == c,
        decreases end,
    {
        end = end - 1;
    }
    proof {
        lemma_strip_leading(s@, c, start as int);
        let t = s@.subrange(start as int, n as int);
        if end == start && start < n {
            assert(s@[start as int] != c);
            assert(false);
        }
        lemma_strip_trailing(t, c, end - start);
        assert(t.subrange(0, end - start) =~= s@.subrange(start as int, end as int));
    }
    s.substring_char(start, end)
}

// ---------------------------------------------------------------------------
// Unsigned numbers
// ---------------------------------------------------------------------------

/// Value of an ASCII digit or letter as a digit of base up to 36, or -1.
pub open spec fn digit_value(c: char) -> int {
    if '0' <= c && c <= '9' {
        c as int - '0' as int
    } else if 'a' <= c && c <= 'z' {
        c as int - 'a' as int + 10
    } else if 'A' <= c && c <= 'Z' {
        c as int - 'A' as int + 10
    } else {
        -1
    }
}

/// Whether `c` is a digit in base `radix`.
pub open spec fn is_digit(c: char, radix: nat) -> bool {
    0 <= digit_value(c) < radix
}

/// Whether every character of `s` is a digit in base `radix`.
pub open spec fn all_digits(s: Seq<char>, radix: nat) -> bool {
    forall|i: int| 0 <= i < s.len() ==> #[trigger] is_digit(s[i], radix)
}

/// Positional value of a digit string, most significant digit first.
pub open spec fn digits_value(s: Seq<char>, radix: nat) -> int
    decreases s.len(),
{
    if s.len() == 0 {
        0
    } else {
        digits_value(s.drop_last(), radix) * radix + digit_value(s.last())
    }
}

/// The digits of an unsigned literal: the text after an optional leading `+`.
pub open spec fn unsigned_digits(s: Seq<char>) -> Seq<char> {
    if s.len() > 0 && s[0] == '+' {
        s.drop_first()
    } else {
        s
    }
}

/// What `from_str_radix` gives for an unsigned integer type whose largest
/// value is `max`: an optional `+`, then at least one digit, and a value
/// that does not exceed `max`.
pub open spec fn parse_unsigned(s: Seq<char>, radix: nat, max: nat) -> Option<nat> {
    let d = unsigned_digits(s);
    if d.len() > 0 && all_digits(d, radix) && digits_value(d, radix) <= max {
        Some(digits_value(d, radix) as nat)
    } else {
        None
    }
}

proof fn lemma_digits_value_nonneg(s: Seq<char>, radix: nat)
    requires
        all_digits(s, radix),
    ensures
        digits_value(s, radix) >= 0,
    decreases s.len(),
{
    if s.len() > 0 {
        assert(is_digit(s[s.len() - 1], radix));
        assert(all_digits(s.drop_last(), radix)) by {
            assert forall|i: int| 0 <= i < s.drop_last().len() implies #[trigger] is_digit(
                s.drop_last()[i],
                radix,
            ) by {
                assert(is_digit(s[i], radix));
            }
        }
        lemma_digits_value_nonneg(s.drop_last(), radix);
        let p = digits_value(s.drop_last(), radix);
        assert(p * radix >= 0) by (nonlinear_arith)
            requires
                p >= 0,
        ;
    }
}

/// A digit string's value is at least the value of any of its prefixes.
proof fn lemma_digits_value_prefix(s: Seq<char>, radix: nat, k: int)
    requires
        radix >= 1,
        0 <= k <= s.len(),
        all_digits(s, radix),
    ensures
        digits_value(s.take(k), radix) <= digits_value(s, radix),
    decreases s.len() - k,
{
    if k < s.len() {
        let t = s.drop_last();
        assert(all_digits(t, radix)) by {
            assert forall|i: int| 0 <= i < t.len() implies #[trigger] is_digit(t[i], radix) by {
                assert(is_digit(s[i], radix));
            }
        }
        lemma_digits_value_prefix(t, radix, k);
        assert(t.take(k) =~= s.take(k));
        lemma_digits_value_nonneg(t, radix);
        assert(is_digit(s[s.len() - 1], radix));
        let p = digits_value(t, radix);
        assert(p * radix >= p) by (nonlinear_arith)
            requires
                p >= 0,
                radix >= 1,
        ;
    } else {
        assert(s.take(k) =~= s);
    }
}

/// Value of a single character as a digit, for bases up to 36.
fn char_digit(c: char) -> (d: Option<u32>)
    ensures
        match d {
            Some(v) => digit_value(c) == v && v < 36,
            None => digit_value(c) == -1,
        },
{
    if '0' <= c && c <= '9' {
        Some((c as u32) - ('0' as u32))
    } else if 'a' <= c && c <= 'z' {
        Some((c as u32) - ('a' as u32) + 10)
    } else if 'A' <= c && c <= 'Z' {
        Some((c as u32) - ('A' as u32) + 10)
    } else {
        None
    }
}

/// Parses an unsigned integer in base `radix` that may not exceed `max`,
/// accepting exactly what `from_str_radix` accepts for such a type.
pub fn parse_unsigned_text(s: &str, radix: u32, max: u32) -> (r: Option<u32>)
    requires
        2 <= radix <= 36,
        max <= 0xffff,
    ensures
        match r {
            Some(v) => parse_unsigned(s@, radix as nat, max as nat) == Some(v as nat) && v <= max,
            None => parse_unsigned(s@, radix as nat, max as nat) is None,
        },
{
    let n = s.unicode_len();
    let mut i: usize = 0;
    if n > 0 && s.get_char(0) == '+' {
        i = 1;
    }
    let ghost d = unsigned_digits(s@);
    assert(d =~= s@.subrange(i as int, n as int));
    if i == n {
        return None;
    }
    let start = i;
    let mut v: u32 = 0;
    while i < n
        invariant
            n == s@.len(),
            start <= i <= n,
            d == s@.subrange(start as int, n as int),
            d == unsigned_digits(s@),
            2 <= radix <= 36,
            max <= 0xffff,
            v <= max,
            v == digits_value(d.take(i - start), radix as nat),
            all_digits(d.take(i - start), radix as nat),
        decreases n - i,
    {
        let c = s.get_char(i);
        let ghost k = i - start;
        assert(d[k] == c);
        match char_digit(c) {
            None => {
                assert(!is_digit(d[k], radix as nat));
                return None;
            },
            Some(x) => {
                if x >= radix {
                    assert(!is_digit(d[k], radix as nat));
                    return None;
                }
                assert(v * radix <= 0xffff * 36) by (nonlinear_arith)
                    requires
                        v <= 0xffff,
                        radix <= 36,
                ;
                let nv = v * radix + x;
                assert(d.take(k + 1).drop_last() =~= d.take(k));
                assert(d.take(k + 1).last() == c);
                assert(all_digits(d.take(k + 1), radix as nat)) by {
                    assert forall|j: int| 0 <= j < k + 1 implies #[trigger] is_digit(
                        d.take(k + 1)[j],
                        radix as nat,
                    ) by {
                        if j < k {
                            assert(d.take(k + 1)[j] == d.take(k)[j]);
                        }
                    }
                }
                assert(nv == digits_value(d.take(k + 1), radix as nat));
                if nv > max {
                    proof {
                        if all_digits(d, radix as nat) {
                            lemma_digits_value_prefix(d, radix as nat, k + 1);
                        }
                    }
                    return None;
                }
                v = nv;
                i = i + 1;
            },
        }
    }
    assert(d.take(n - start) =~= d);
    Some(v)
}

// ---------------------------------------------------------------------------
// Decimal rendering
// ---------------------------------------------------------------------------

/// The decimal digit character for `d < 10`.
pub open spec fn decimal_digit(d: nat) -> char {
    ('0' as int + d) as char
}

/// Decimal representation of `n`, without leading zeros.
pub open spec fn decimal(n: nat) -> Seq<char>
    decreases n,
{
    if n < 10 {
        seq![decimal_digit(n)]
    } else {
        decimal(n / 10).push(decimal_digit(n % 10))
    }
}

/// Appends the decimal representation of `n` to `out`.
pub fn push_decimal(out: &mut String, n: u16)
    ensures
        final(out)@ == old(out)@ + decimal(n as nat),
    decreases n,
{
    if n >= 10 {
        push_decimal(out, n / 10);
    }
    let digits = "0123456789";
    proof {
        reveal_strlit("0123456789");
    }
    let d = (n % 10) as usize;
    let one = digits.substring_char(d, d + 1);
    assert(one@ =~= seq![decimal_digit(d as nat)]);
    out.append(one);
    assert(out@ =~= old(out)@ + decimal(n as nat));
}

// ---------------------------------------------------------------------------
// Replacement
// ---------------------------------------------------------------------------

/// Whether `pat` occurs in `s` at position `i`.
pub open spec fn occurs_at(s: Seq<char>, pat: Seq<char>, i: int) -> bool {
    0 <= i && i + pat.len() <= s.len() && s.subrange(i, i + pat.len()) == pat
}

/// `s` with every non-overlapping occurrence of the non-empty `pat`, found
/// from left to right, replaced by `rep` (what `str::replace` gives).
pub open spec fn replace_all(s: Seq<char>, pat: Seq<char>, rep: Seq<char>) -> Seq<char>
    decreases s.len(),
{
    if s.len() == 0 {
        seq![]
    } else if pat.len() > 0 && occurs_at(s, pat, 0) {
        rep + replace_all(s.skip(pat.len() as int), pat, rep)
    } else {
        seq![s[0]] + replace_all(s.drop_first(), pat, rep)
    }
}

/// Whether `pat` occurs in `s` at character position `i`.
fn occurs_at_exec(s: &str, n: usize, pat: &str, m: usize, i: usize) -> (r: bool)
    requires
        n == s@.len(),
        m == pat@.len(),
        i <= n,
    ensures
        r == occurs_at(s@, pat@, i as int),
{
    if m > n - i {
        return false;
    }
    let mut k: usize = 0;
    while k < m
        invariant
            n == s@.len(),
            m == pat@.len(),
            i + m <= n,
            k <= m,
            forall|j: int| 0 <= j < k ==> s@[i + j] == pat@[j],
        decreases m - k,
    {
        if s.get_char(i + k) != pat.get_char(k) {
            assert(s@.subrange(i as int, i + m)[k as int] != pat@[k as int]);
            return false;
        }
        k = k + 1;
    }
    assert(s@.subrange(i as int, i + m) =~= pat@);
    true
}

/// Replaces every non-overlapping occurrence of `pat` in `s` by `rep`,
/// scanning from left to right, as `str::replace` does.
pub fn replace_text(s: &str, pat: &str, rep: &str) -> (r: String)
    requires
        pat@.len() > 0,
    ensures
        r@ == replace_all(s@, pat@, rep@),
{
    let n = s.unicode_len();
    let m = pat.unicode_len();
    let mut out = String::new();
    let mut i: usize = 0;
    assert(s@.skip(0) =~= s@);
    while i < n
        invariant
            n == s@.len(),
            m == pat@.len(),
            m > 0,
            i <= n,
            replace_all(s@, pat@, rep@) == out@ + replace_all(s@.skip(i as int), pat@, rep@),
        decreases n - i,
    {
        let ghost t = s@.skip(i as int);
        if occurs_at_exec(s, n, pat, m, i) {
            assert(t.subrange(0, m as int) =~= s@.subrange(i as int, i + m));
            assert(t.skip(m as int) =~= s@.skip(i + m));
            let ghost old_out = out@;
            out.append(rep);
            let ghost rest = replace_all(s@.skip(i + m), pat@, rep@);
            assert(replace_all(t, pat@, rep@) == rep@ + rest);
            assert(old_out + (rep@ + rest) =~= out@ + rest);
            i = i + m;
        } else {
            assert(!occurs_at(t, pat@, 0)) by {
                if occurs_at(t, pat@, 0) {
                    assert(t.subrange(0, m as int) =~= s@.subrange(i as int, i + m));
                }
            }
            let one = s.substring_char(i, i + 1);
            assert(t.drop_first() =~= s@.skip(i + 1));
            assert(one@ =~= seq![t[0]]);
            let ghost old_out = out@;
            out.append(one);
            let ghost rest = replace_all(s@.skip(i + 1), pat@, rep@);
            assert(replace_all(t, pat@, rep@) == seq![t[0]] + rest);
            assert(old_out + (seq![t[0]] + rest) =~= out@ + rest);
            i = i + 1;
        }
    }
    assert(s@.skip(n as int) =~= Seq::<char>::empty());
    assert(out@ + Seq::<char>::empty() =~= out@);
    out
}

} // verus!
