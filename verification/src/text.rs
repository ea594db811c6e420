//! Text helpers: specifications of the `str` operations the runtime relies
//! on, and verified construction of strings (decimal numbers, concatenation).

use vstd::prelude::*;
use vstd::string::{StrSliceExecFns, StringExecFns};
use vstd::utf8::{decode_utf8, encode_utf8};

verus! {

/// The Unicode `White_Space` property, which `char::is_whitespace` and
/// `str::trim` use.
pub open spec fn is_whitespace_char(c: char) -> bool {
    let u = c as u32;
    (0x09 <= u && u <= 0x0d) || u == 0x20 || u == 0x85 || u == 0xa0 || u == 0x1680 || (0x2000 <= u
        && u <= 0x200a) || u == 0x2028 || u == 0x2029 || u == 0x202f || u == 0x205f || u == 0x3000
}

/// `s` without its leading whitespace.
pub open spec fn trim_start_spec(s: Seq<char>) -> Seq<char>
    decreases s.len(),
{
    if s.len() > 0 && is_whitespace_char(s[0]) {
        trim_start_spec(s.drop_first())
    } else {
        s
    }
}

/// `s` without its trailing whitespace.
pub open spec fn trim_end_spec(s: Seq<char>) -> Seq<char>
    decreases s.len(),
{
    if s.len() > 0 && is_whitespace_char(s.last()) {
        trim_end_spec(s.drop_last())
    } else {
        s
    }
}

/// `s` without leading and trailing whitespace.
pub open spec fn trim_spec(s: Seq<char>) -> Seq<char> {
    trim_end_spec(trim_start_spec(s))
}

/// ASCII upper-case letters mapped to lower case, everything else unchanged.
pub open spec fn ascii_lower_char(c: char) -> char {
    if 'A' <= c && c <= 'Z' {
        ((c as u32) + 32) as char
    } else {
        c
    }
}

/// `s` with every ASCII upper-case letter lowered.
pub open spec fn ascii_lower_spec(s: Seq<char>) -> Seq<char> {
    s.map_values(|c: char| ascii_lower_char(c))
}

/// `pat` occurs in `s` at position `i`.
pub open spec fn occurs_at(s: Seq<char>, pat: Seq<char>, i: int) -> bool {
    0 <= i && i + pat.len() <= s.len() && s.subrange(i, i + pat.len()) == pat
}

/// `pat` occurs somewhere in `s`.
pub open spec fn contains_spec(s: Seq<char>, pat: Seq<char>) -> bool {
    exists|i: int| occurs_at(s, pat, i)
}

/// Every non-overlapping occurrence of `from` in `s`, scanning left to
/// right, replaced by `to`.
pub open spec fn replace_all(s: Seq<char>, from: Seq<char>, to: Seq<char>) -> Seq<char>
    recommends
        from.len() > 0,
    decreases s.len(),
{
    if from.len() == 0 || s.len() < from.len() {
        s
    } else if s.subrange(0, from.len() as int) == from {
        to + replace_all(s.subrange(from.len() as int, s.len() as int), from, to)
    } else {
        seq![s[0]] + replace_all(s.drop_first(), from, to)
    }
}

/// The decimal digit character for `d < 10`.
pub open spec fn digit_char(d: nat) -> char {
    if d == 0 {
        '0'
    } else if d == 1 {
        '1'
    } else if d == 2 {
        '2'
    } else if d == 3 {
        '3'
    } else if d == 4 {
        '4'
    } else if d == 5 {
        '5'
    } else if d == 6 {
        '6'
    } else if d == 7 {
        '7'
    } else if d == 8 {
        '8'
    } else {
        '9'
    }
}

/// The decimal representation of `n`, without leading zeros.
pub open spec fn decimal(n: nat) -> Seq<char>
    decreases n,
{
    if n < 10 {
        seq![digit_char(n)]
    } else {
        decimal(n / 10).push(digit_char(n % 10))
    }
}

/// Whether two string slices hold the same characters, compared byte by
/// byte on their UTF-8 encodings.
pub(crate) fn str_eq(a: &str, b: &str) -> (r: bool)
    ensures
        r == (a@ == b@),
{
    let x = a.as_bytes();
    let y = b.as_bytes();
    if x.len() != y.len() {
        return false;
    }
    let n = x.len();
    let mut i: usize = 0;
    while i < n
        invariant
            n == x@.len(),
            x@.len() == y@.len(),
            x@ == encode_utf8(a@),
            y@ == encode_utf8(b@),
            i <= n,
            forall|j: int| 0 <= j < i ==> x@[j] == y@[j],
        decreases n - i,
    {
        if x[i] != y[i] {
            return false;
        }
        i = i + 1;
    }
    proof {
        broadcast use vstd::utf8::encode_utf8_decode_utf8;

        assert(x@ =~= y@);
        assert(a@ == decode_utf8(encode_utf8(a@)));
        assert(b@ == decode_utf8(encode_utf8(b@)));
    }
    true
}

/// Whether `prefix` is a prefix of `s`.
pub(crate) fn str_starts_with(s: &str, prefix: &str) -> (r: bool)
    ensures
        r == prefix@.is_prefix_of(s@),
{
    let n = prefix.unicode_len();
    if n > s.unicode_len() {
        return false;
    }
    str_eq(s.substring_char(0, n), prefix)
}

/// Whether `pat` occurs in `s`.
pub(crate) fn str_contains(s: &str, pat: &str) -> (r: bool)
    ensures
        r == contains_spec(s@, pat@),
{
    let cs = chars_of(s);
    let ps = chars_of(pat);
    let found = find_chars(&cs, &ps);
    proof {
        lemma_first_from_occurs(s@, pat@, 0);
        lemma_first_from_none(s@, pat@, 0);
        if let Some(j) = first_from(s@, pat@, 0) {
            assert(occurs_at(s@, pat@, j));
        }
    }
    found.is_some()
}

/// Whether `pat` occurs in `s` at position `i`.
fn occurs_at_exec(s: &Vec<char>, pat: &Vec<char>, i: usize) -> (r: bool)
    requires
        i + pat@.len() <= s@.len(),
    ensures
        r == occurs_at(s@, pat@, i as int),
{
    let m = pat.len();
    let n = s.len();
    let mut j: usize = 0;
    while j < m
        invariant
            m == pat@.len(),
            n == s@.len(),
            i + m <= s@.len(),
            j <= m,
            forall|t: int| 0 <= t < j ==> s@[i + t] == pat@[t],
        decreases m - j,
    {
        if s[i + j] != pat[j] {
            proof {
                assert(s@.subrange(i as int, i + m)[j as int] != pat@[j as int]);
            }
            return false;
        }
        j = j + 1;
    }
    assert(s@.subrange(i as int, i + m) =~= pat@);
    true
}

/// `s` with every non-overlapping occurrence of the non-empty `from`, taken
/// left to right, replaced by `to`.
pub(crate) fn str_replace(s: &str, from: &str, to: &str) -> (r: String)
    requires
        from@.len() > 0,
    ensures
        r@ == replace_all(s@, from@, to@),
{
    let cs = chars_of(s);
    let fs = chars_of(from);
    let n = cs.len();
    let m = fs.len();
    let mut out = String::new();
    let mut start: usize = 0;
    let mut i: usize = 0;
    proof {
        assert(s@.subrange(0, n as int) =~= s@);
        assert(out@ + s@.subrange(0, 0) + replace_all(s@, from@, to@) =~= replace_all(s@, from@, to@));
    }
    while m <= n - i
        invariant
            n == s@.len(),
            m == from@.len(),
            m > 0,
            cs@ == s@,
            fs@ == from@,
            start <= i <= n,
            out@ + s@.subrange(start as int, i as int) + replace_all(
                s@.subrange(i as int, n as int),
                from@,
                to@,
            ) == replace_all(s@, from@, to@),
        decreases n - i,
    {
        let ghost rest = s@.subrange(i as int, n as int);
        assert(rest.subrange(0, m as int) =~= s@.subrange(i as int, i + m));
        if occurs_at_exec(&cs, &fs, i) {
            proof {
                assert(rest.subrange(m as int, rest.len() as int) =~= s@.subrange(i + m, n as int));
            }
            let piece = s.substring_char(start, i);
            let ghost o0 = out@;
            out.append(piece);
            out.append(to);
            proof {
                assert(o0 + s@.subrange(start as int, i as int) + (to@ + replace_all(
                    s@.subrange(i + m, n as int),
                    from@,
                    to@,
                )) =~= out@ + s@.subrange(i + m, i + m) + replace_all(
                    s@.subrange(i + m, n as int),
                    from@,
                    to@,
                ));
            }
            i = i + m;
            start = i;
        } else {
            proof {
                assert(rest.drop_first() =~= s@.subrange(i + 1, n as int));
                assert(s@.subrange(start as int, i as int) + (seq![s@[i as int]] + replace_all(
                    s@.subrange(i + 1, n as int),
                    from@,
                    to@,
                )) =~= s@.subrange(start as int, i + 1) + replace_all(
                    s@.subrange(i + 1, n as int),
                    from@,
                    to@,
                ));
                assert(out@ + s@.subrange(start as int, i as int) + (seq![s@[i as int]] + replace_all(
                    s@.subrange(i + 1, n as int),
                    from@,
                    to@,
                )) =~= out@ + (s@.subrange(start as int, i as int) + (seq![s@[i as int]]
                    + replace_all(s@.subrange(i + 1, n as int), from@, to@))));
                assert(out@ + s@.subrange(start as int, i + 1) + replace_all(
                    s@.subrange(i + 1, n as int),
                    from@,
                    to@,
                ) =~= out@ + (s@.subrange(start as int, i + 1) + replace_all(
                    s@.subrange(i + 1, n as int),
                    from@,
                    to@,
                )));
            }
            i = i + 1;
        }
    }
    let tail = s.substring_char(start, n);
    proof {
        assert(s@.subrange(start as int, i as int) + s@.subrange(i as int, n as int) =~= s@.subrange(
            start as int,
            n as int,
        ));
        assert(out@ + s@.subrange(start as int, i as int) + s@.subrange(i as int, n as int)
            =~= out@ + s@.subrange(start as int, n as int));
    }
    out.append(tail);
    out
}

/// `str::trim`: the slice without leading and trailing `White_Space` characters.
#[verifier::external_body]
pub(crate) fn str_trim(s: &str) -> (r: &str)
    ensures
        r@ == trim_spec(s@),
{
    s.trim()
}

/// `str::to_ascii_lowercase`: a copy with ASCII letters lowered.
#[verifier::external_body]
pub(crate) fn str_to_ascii_lowercase(s: &str) -> (r: String)
    ensures
        r@ == ascii_lower_spec(s@),
{
    s.to_ascii_lowercase()
}

/// The one-character string of a decimal digit.
fn digit_str(d: usize) -> (r: &'static str)
    requires
        d < 10,
    ensures
        r@ == seq![digit_char(d as nat)],
{
    proof {
        reveal_strlit("0");
        reveal_strlit("1");
        reveal_strlit("2");
        reveal_strlit("3");
        reveal_strlit("4");
        reveal_strlit("5");
        reveal_strlit("6");
        reveal_strlit("7");
        reveal_strlit("8");
        reveal_strlit("9");
    }
    if d == 0 {
        "0"
    } else if d == 1 {
        "1"
    } else if d == 2 {
        "2"
    } else if d == 3 {
        "3"
    } else if d == 4 {
        "4"
    } else if d == 5 {
        "5"
    } else if d == 6 {
        "6"
    } else if d == 7 {
        "7"
    } else if d == 8 {
        "8"
    } else {
        "9"
    }
}

/// Append the decimal representation of `n` to `out`.
pub fn push_decimal(out: &mut String, n: u64)
    ensures
        final(out)@ == old(out)@ + decimal(n as nat),
    decreases n,
{
    if n >= 10 {
        push_decimal(out, n / 10);
    }
    let d = (n % 10) as usize;
    out.append(digit_str(d));
    proof {
        if n >= 10 {
            assert(decimal(n as nat) == decimal((n / 10) as nat).push(digit_char((n % 10) as nat)));
        }
    }
}

/// The decimal representation of `n`.
pub fn fmt_u64(n: u64) -> (r: String)
    ensures
        r@ == decimal(n as nat),
{
    let mut s = String::new();
    push_decimal(&mut s, n);
    s
}


/// `items` joined with `sep` between consecutive items.
pub open spec fn join_spec(items: Seq<Seq<char>>, sep: Seq<char>) -> Seq<char>
    decreases items.len(),
{
    if items.len() == 0 {
        Seq::empty()
    } else if items.len() == 1 {
        items[0]
    } else {
        join_spec(items.drop_last(), sep) + sep + items.last()
    }
}

/// Join string slices with a separator.
pub fn join_strs(items: &Vec<&str>, sep: &str) -> (r: String)
    ensures
        r@ == join_spec(items@.map_values(|s: &str| s@), sep@),
{
    let ghost views = items@.map_values(|s: &str| s@);
    let mut out = String::new();
    let n = items.len();
    let mut i: usize = 0;
    while i < n
        invariant
            n == items@.len(),
            i <= n,
            views == items@.map_values(|s: &str| s@),
            out@ == join_spec(views.subrange(0, i as int), sep@),
        decreases n - i,
    {
        proof {
            let p = views.subrange(0, i + 1);
            assert(p.drop_last() =~= views.subrange(0, i as int));
            assert(p.last() == items@[i as int]@);
            if i == 0 {
                assert(views.subrange(0, 0) =~= Seq::<Seq<char>>::empty());
            }
        }
        if i > 0 {
            out.append(sep);
        }
        out.append(items[i]);
        i = i + 1;
    }
    assert(views.subrange(0, n as int) =~= views);
    out
}

/// Join strings with a separator.
pub fn join_strings(items: &Vec<String>, sep: &str) -> (r: String)
    ensures
        r@ == join_spec(items@.map_values(|s: String| s@), sep@),
{
    let ghost views = items@.map_values(|s: String| s@);
    let mut out = String::new();
    let n = items.len();
    let mut i: usize = 0;
    while i < n
        invariant
            n == items@.len(),
            i <= n,
            views == items@.map_values(|s: String| s@),
            out@ == join_spec(views.subrange(0, i as int), sep@),
        decreases n - i,
    {
        proof {
            let p = views.subrange(0, i + 1);
            assert(p.drop_last() =~= views.subrange(0, i as int));
            assert(p.last() == items@[i as int]@);
            if i == 0 {
                assert(views.subrange(0, 0) =~= Seq::<Seq<char>>::empty());
            }
        }
        if i > 0 {
            out.append(sep);
        }
        out.append(items[i].as_str());
        i = i + 1;
    }
    assert(views.subrange(0, n as int) =~= views);
    out
}


/// `s` without any trailing occurrences of `c`.
pub open spec fn trim_end_char_spec(s: Seq<char>, c: char) -> Seq<char>
    decreases s.len(),
{
    if s.len() > 0 && s.last() == c {
        trim_end_char_spec(s.drop_last(), c)
    } else {
        s
    }
}

/// The slice of `s` that ends before its trailing run of `c`.
pub(crate) fn str_trim_end_char(s: &str, c: char) -> (r: &str)
    ensures
        r@ == trim_end_char_spec(s@, c),
{
    let mut k = s.unicode_len();
    proof {
        assert(s@.subrange(0, k as int) =~= s@);
    }
    while k > 0 && s.get_char(k - 1) == c
        invariant
            k <= s@.len(),
            trim_end_char_spec(s@.subrange(0, k as int), c) == trim_end_char_spec(s@, c),
        decreases k,
    {
        proof {
            assert(s@.subrange(0, k as int).drop_last() =~= s@.subrange(0, k - 1));
        }
        k = k - 1;
    }
    s.substring_char(0, k)
}

} // verus!

verus! {

/// The first position at or after `i` where `pat` occurs in `s`.
pub open spec fn first_from(s: Seq<char>, pat: Seq<char>, i: int) -> Option<int>
    decreases s.len() + 1 - i,
{
    if i < 0 || i + pat.len() > s.len() {
        None
    } else if occurs_at(s, pat, i) {
        Some(i)
    } else {
        first_from(s, pat, i + 1)
    }
}

/// The characters of `s`, in order.
pub fn chars_of(s: &str) -> (r: Vec<char>)
    ensures
        r@ == s@,
{
    broadcast use vstd::string::axiom_spec_iter;
    let mut out: Vec<char> = Vec::new();
    for c in it: s.chars()
        invariant
            it.seq() == s@,
            out@ == it.seq().take(it.index() as int),
    {
        out.push(c);
    }
    out
}

/// The first character position of `pat` in `s`, as `str::find` gives it
/// (counted in characters rather than bytes).
pub fn find_chars(s: &Vec<char>, pat: &Vec<char>) -> (r: Option<usize>)
    ensures
        match r {
            Some(i) => first_from(s@, pat@, 0) == Some(i as int),
            None => first_from(s@, pat@, 0) is None,
        },
{
    let n = s.len();
    let m = pat.len();
    if m > n {
        return None;
    }
    let mut i: usize = 0;
    while i <= n - m
        invariant
            n == s@.len(),
            m == pat@.len(),
            m <= n,
            i <= n - m + 1,
            first_from(s@, pat@, 0) == first_from(s@, pat@, i as int),
        decreases n - m + 1 - i,
    {
        let mut j: usize = 0;
        let mut matched = true;
        while j < m && matched
            invariant
                n == s@.len(),
                m == pat@.len(),
                i + m <= n,
                j <= m,
                matched ==> forall|t: int| 0 <= t < j ==> s@[i + t] == pat@[t],
                !matched ==> !occurs_at(s@, pat@, i as int) && j < m,
            decreases m - j + (if matched {
                1int
            } else {
                0int
            }),
        {
            if s[i + j] != pat[j] {
                matched = false;
                proof {
                    assert(s@.subrange(i as int, i + m)[j as int] != pat@[j as int]);
                }
            } else {
                j = j + 1;
            }
        }
        if matched {
            assert(s@.subrange(i as int, i + m) =~= pat@);
            return Some(i);
        }
        i = i + 1;
    }
    None
}

} // verus!

verus! {

/// A position found by [`first_from`] is an occurrence at or after the
/// starting point.
pub proof fn lemma_first_from_occurs(s: Seq<char>, pat: Seq<char>, i: int)
    ensures
        first_from(s, pat, i) matches Some(j) ==> (i <= j && occurs_at(s, pat, j)),
    decreases s.len() + 1 - i,
{
    if !(i < 0 || i + pat.len() > s.len()) && !occurs_at(s, pat, i) {
        lemma_first_from_occurs(s, pat, i + 1);
    }
}

/// When [`first_from`] finds nothing from `i`, `pat` occurs nowhere at or
/// after `i`.
pub proof fn lemma_first_from_none(s: Seq<char>, pat: Seq<char>, i: int)
    requires
        i >= 0,
    ensures
        first_from(s, pat, i) is None ==> forall|j: int| j >= i ==> !#[trigger] occurs_at(s, pat, j),
    decreases s.len() + 1 - i,
{
    if !(i + pat.len() > s.len()) && !occurs_at(s, pat, i) {
        lemma_first_from_none(s, pat, i + 1);
    }
}

} // verus!

verus! {

/// `c` is an ASCII decimal digit.
pub open spec fn is_digit(c: char) -> bool {
    '0' <= c <= '9'
}

/// The value of the decimal digits `s`.
pub open spec fn digits_value(s: Seq<char>) -> nat
    decreases s.len(),
{
    if s.len() == 0 {
        0
    } else {
        digits_value(s.drop_last()) * 10 + ((s.last() as int) - ('0' as int)) as nat
    }
}

/// What `s.parse::<u64>()` accepts: an optional `+`, then one or more ASCII
/// digits whose value fits in a `u64`.
pub open spec fn parse_u64_spec(s: Seq<char>) -> Option<nat> {
    let d = unsigned_part(s);
    if d.len() > 0 && all_digits(d) && digits_value(d) <= u64::MAX {
        Some(digits_value(d))
    } else {
        None
    }
}

/// `s` without a leading `+`.
pub open spec fn unsigned_part(s: Seq<char>) -> Seq<char> {
    if s.len() > 0 && s[0] == '+' {
        s.drop_first()
    } else {
        s
    }
}

/// Every character of `d` is a digit.
pub open spec fn all_digits(d: Seq<char>) -> bool {
    forall|i: int| 0 <= i < d.len() ==> is_digit(#[trigger] d[i])
}

proof fn lemma_digit_char_value(d: nat)
    requires
        d < 10,
    ensures
        is_digit(digit_char(d)),
        (digit_char(d) as int) - ('0' as int) == d,
{
    assert('0' as int == 48);
    if d == 0 {
    } else if d == 1 {
        assert('1' as int == 49);
    } else if d == 2 {
        assert('2' as int == 50);
    } else if d == 3 {
        assert('3' as int == 51);
    } else if d == 4 {
        assert('4' as int == 52);
    } else if d == 5 {
        assert('5' as int == 53);
    } else if d == 6 {
        assert('6' as int == 54);
    } else if d == 7 {
        assert('7' as int == 55);
    } else if d == 8 {
        assert('8' as int == 56);
    } else {
        assert('9' as int == 57);
    }
}

/// Printing then parsing gives the number back: the decimal form of `n`
/// is a non-empty run of digits whose value is `n`.
pub proof fn lemma_decimal_digits(n: nat)
    ensures
        decimal(n).len() > 0,
        all_digits(decimal(n)),
        digits_value(decimal(n)) == n,
    decreases n,
{
    lemma_digit_char_value(n % 10);
    let d = decimal(n);
    if n >= 10 {
        lemma_decimal_digits(n / 10);
        let prev = decimal(n / 10);
        assert(d == prev.push(digit_char(n % 10)));
        assert(d.drop_last() =~= prev);
        assert(d.last() == digit_char(n % 10));
        assert forall|i: int| 0 <= i < d.len() implies is_digit(#[trigger] d[i]) by {
            if i < prev.len() {
                assert(d[i] == prev[i]);
            }
        }
        assert(digits_value(d) == digits_value(prev) * 10 + ((d.last() as int) - ('0' as int)) as nat);
        assert(n == (n / 10) * 10 + n % 10);
    } else {
        assert(d == seq![digit_char(n)]);
        assert(d.drop_last() =~= Seq::<char>::empty());
        assert(d.last() == digit_char(n));
        assert(digits_value(d) == digits_value(d.drop_last()) * 10 + ((d.last() as int) - ('0' as int)) as nat);
    }
}

proof fn lemma_digits_monotone(s: Seq<char>, k: int)
    requires
        0 <= k <= s.len(),
        forall|i: int| 0 <= i < s.len() ==> is_digit(#[trigger] s[i]),
    ensures
        digits_value(s.subrange(0, k)) <= digits_value(s),
    decreases s.len() - k,
{
    if k < s.len() {
        lemma_digits_monotone(s, k + 1);
        let p = s.subrange(0, k + 1);
        assert(p.drop_last() =~= s.subrange(0, k));
    } else {
        assert(s.subrange(0, k) =~= s);
    }
}

/// Parse a `u64` as `str::parse::<u64>` does.
pub fn parse_u64(s: &str) -> (r: Option<u64>)
    ensures
        match r {
            Some(n) => parse_u64_spec(s@) == Some(n as nat),
            None => parse_u64_spec(s@) is None,
        },
{
    let cs = chars_of(s);
    let n = cs.len();
    let start: usize = if n > 0 && cs[0] == '+' {
        1
    } else {
        0
    };
    let ghost d = unsigned_part(s@);
    proof {
        assert(d =~= cs@.subrange(start as int, n as int));
    }
    if start >= n {
        return None;
    }
    let mut value: u64 = 0;
    let mut i = start;
    while i < n
        invariant
            cs@ == s@,
            n == cs@.len(),
            start <= i <= n,
            d == cs@.subrange(start as int, n as int),
            d == unsigned_part(s@),
            forall|j: int| start <= j < i ==> is_digit(#[trigger] cs@[j]),
            value == digits_value(cs@.subrange(start as int, i as int)),
        decreases n - i,
    {
        let c = cs[i];
        let ghost pre = cs@.subrange(start as int, i as int);
        let ghost next = cs@.subrange(start as int, i + 1);
        proof {
            assert(next.drop_last() =~= pre);
            assert(next.last() == c);
        }
        if !('0' <= c && c <= '9') {
            proof {
                assert(d[i - start] == c);
                assert(!is_digit(d[i - start]));
                assert(!(forall|j: int| 0 <= j < d.len() ==> is_digit(#[trigger] d[j])));
                assert(parse_u64_spec(s@) is None);
            }
            return None;
        }
        let digit = (c as u32 - '0' as u32) as u64;
        proof {
            assert(d.subrange(0, i + 1 - start) =~= next);
            assert(digits_value(next) == value * 10 + digit);
        }
        match value.checked_mul(10) {
            Some(v10) => match v10.checked_add(digit) {
                Some(v) => {
                    value = v;
                },
                None => {
                    proof {
                        assert forall|j: int| 0 <= j < next.len() implies is_digit(#[trigger] next[j]) by {
                            assert(next[j] == cs@[start + j]);
                        }
                        lemma_rest_digits_or_none(d, (i + 1 - start) as int);
                    }
                    return None;
                },
            },
            None => {
                proof {
                    assert forall|j: int| 0 <= j < next.len() implies is_digit(#[trigger] next[j]) by {
                        assert(next[j] == cs@[start + j]);
                    }
                    lemma_rest_digits_or_none(d, (i + 1 - start) as int);
                }
                return None;
            },
        }
        i = i + 1;
    }
    proof {
        assert(cs@.subrange(start as int, n as int) =~= d);
    }
    Some(value)
}

/// Once a digit prefix of `d` exceeds `u64::MAX`, `d` is not accepted.
proof fn lemma_rest_digits_or_none(d: Seq<char>, k: int)
    requires
        0 < k <= d.len(),
        forall|j: int| 0 <= j < k ==> is_digit(#[trigger] d.subrange(0, k)[j]),
        digits_value(d.subrange(0, k)) > u64::MAX,
    ensures
        !(all_digits(d) && digits_value(d) <= u64::MAX),
{
    if all_digits(d) {
        lemma_digits_monotone(d, k);
    }
}

/// What `str::len` gives for a string with characters `s`: its UTF-8
/// length.
pub open spec fn str_len_spec(s: Seq<char>) -> nat {
    (vstd::utf8::encode_utf8(s).len() as usize) as nat
}

} // verus!
