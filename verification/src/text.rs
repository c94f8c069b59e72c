//! Character-level string helpers with exact specifications.

use vstd::prelude::*;

verus! {

/// Appends one character (`String::push`); the new view is the old one with `c` added.
#[verifier::external_body]
pub(crate) fn push_char(s: &mut String, c: char)
    ensures
        final(s)@ == old(s)@.push(c),
{
    s.push(c);
}

/// Copies a string slice into a fresh `String`.
pub fn owned(s: &str) -> (out: String)
    ensures
        out@ == s@,
{
    s.to_owned()
}

/// Concatenation of two slices.
pub fn concat(a: &str, b: &str) -> (out: String)
    ensures
        out@ == a@ + b@,
{
    let mut s = a.to_owned();
    s.append(b);
    s
}

/// Character-wise equality of two slices.
pub fn str_eq(a: &str, b: &str) -> (r: bool)
    ensures
        r == (a@ == b@),
{
    let n = a.unicode_len();
    let m = b.unicode_len();
    if n != m {
        return false;
    }
    let mut i: usize = 0;
    while i < n
        invariant
            n == a@.len(),
            m == b@.len(),
            n == m,
            i <= n,
            a@.subrange(0, i as int) == b@.subrange(0, i as int),
        decreases n - i,
    {
        if a.get_char(i) != b.get_char(i) {
            assert(a@[i as int] != b@[i as int]);
            return false;
        }
        assert(a@.subrange(0, i + 1) == a@.subrange(0, i as int).push(a@[i as int]));
        assert(b@.subrange(0, i + 1) == b@.subrange(0, i as int).push(b@[i as int]));
        i = i + 1;
    }
    assert(a@ == a@.subrange(0, n as int));
    assert(b@ == b@.subrange(0, n as int));
    true
}

/// Whether `p` is a prefix of `s`.
pub fn starts_with(s: &str, p: &str) -> (r: bool)
    ensures
        r == p@.is_prefix_of(s@),
{
    let n = s.unicode_len();
    let m = p.unicode_len();
    if m > n {
        return false;
    }
    let mut i: usize = 0;
    while i < m
        invariant
            n == s@.len(),
            m == p@.len(),
            m <= n,
            i <= m,
            forall|j: int| 0 <= j < i ==> p@[j] == s@[j],
        decreases m - i,
    {
        if s.get_char(i) != p.get_char(i) {
            return false;
        }
        i = i + 1;
    }
    true
}

/// The characters of `s` from position `from` to the end.
pub fn suffix_from(s: &str, from: usize) -> (out: String)
    requires
        from <= s@.len(),
    ensures
        out@ == s@.skip(from as int),
{
    let n = s.unicode_len();
    let mut out = String::new();
    let mut i: usize = from;
    while i < n
        invariant
            n == s@.len(),
            from <= i <= n,
            out@ == s@.subrange(from as int, i as int),
        decreases n - i,
    {
        let c = s.get_char(i);
        push_char(&mut out, c);
        assert(s@.subrange(from as int, i + 1) == s@.subrange(from as int, i as int).push(c));
        i = i + 1;
    }
    out
}

/// `Some` of the rest of `s` after the prefix `p`, `None` when `p` does not start `s`.
pub fn strip_prefix(s: &str, p: &str) -> (r: Option<String>)
    ensures
        match r {
            Some(rest) => p@.is_prefix_of(s@) && rest@ == s@.skip(p@.len() as int),
            None => !p@.is_prefix_of(s@),
        },
{
    if starts_with(s, p) {
        let m = p.unicode_len();
        Some(suffix_from(s, m))
    } else {
        None
    }
}

/// ASCII lower-casing of one character (`char::to_ascii_lowercase`).
pub open spec fn ascii_lower(c: char) -> char {
    if 'A' <= c && c <= 'Z' {
        ((c as u32) + 32) as char
    } else {
        c
    }
}

/// ASCII lower-casing of a whole string (`str::to_ascii_lowercase`).
pub open spec fn ascii_lower_seq(s: Seq<char>) -> Seq<char> {
    s.map_values(|c: char| ascii_lower(c))
}

fn lower_char(c: char) -> (r: char)
    ensures
        r == ascii_lower(c),
{
    if 'A' <= c && c <= 'Z' {
        let b: u8 = (c as u8) + 32;
        b as char
    } else {
        c
    }
}

/// Lower-cases the ASCII letters of `s` and leaves every other character as it is.
pub fn to_ascii_lowercase(s: &str) -> (out: String)
    ensures
        out@ == ascii_lower_seq(s@),
{
    let n = s.unicode_len();
    let mut out = String::new();
    let mut i: usize = 0;
    while i < n
        invariant
            n == s@.len(),
            i <= n,
            out@ == ascii_lower_seq(s@.subrange(0, i as int)),
        decreases n - i,
    {
        let c = s.get_char(i);
        let l = lower_char(c);
        push_char(&mut out, l);
        assert(ascii_lower_seq(s@.subrange(0, i + 1)) == ascii_lower_seq(
            s@.subrange(0, i as int),
        ).push(l));
        i = i + 1;
    }
    assert(s@.subrange(0, n as int) == s@);
    out
}


/// `char::is_whitespace`: the Unicode `White_Space` property.
pub open spec fn is_white_space(c: char) -> bool {
    let u = c as u32;
    (0x09 <= u && u <= 0x0d) || u == 0x20 || u == 0x85 || u == 0xa0 || u == 0x1680
        || (0x2000 <= u && u <= 0x200a) || u == 0x2028 || u == 0x2029 || u == 0x202f
        || u == 0x205f || u == 0x3000
}

fn white_space(c: char) -> (r: bool)
    ensures
        r == is_white_space(c),
{
    let u = c as u32;
    (0x09 <= u && u <= 0x0d) || u == 0x20 || u == 0x85 || u == 0xa0 || u == 0x1680 || (0x2000
        <= u && u <= 0x200a) || u == 0x2028 || u == 0x2029 || u == 0x202f || u == 0x205f || u
        == 0x3000
}

/// `str::trim_start`: drops leading white space.
pub open spec fn trim_start(s: Seq<char>) -> Seq<char>
    decreases s.len(),
{
    if s.len() > 0 && is_white_space(s[0]) {
        trim_start(s.drop_first())
    } else {
        s
    }
}

/// `str::trim_end`: drops trailing white space.
pub open spec fn trim_end(s: Seq<char>) -> Seq<char>
    decreases s.len(),
{
    if s.len() > 0 && is_white_space(s.last()) {
        trim_end(s.drop_last())
    } else {
        s
    }
}

/// `str::trim`: drops leading and trailing white space.
pub open spec fn trim_spec(s: Seq<char>) -> Seq<char> {
    trim_end(trim_start(s))
}

proof fn lemma_trim_start_skip(s: Seq<char>, i: int)
    requires
        0 <= i < s.len(),
        is_white_space(s[i]),
    ensures
        trim_start(s.skip(i)) == trim_start(s.skip(i + 1)),
{
    assert(s.skip(i).drop_first() == s.skip(i + 1));
}

proof fn lemma_trim_end_take(s: Seq<char>, j: int)
    requires
        0 < j <= s.len(),
        is_white_space(s[j - 1]),
    ensures
        trim_end(s.take(j)) == trim_end(s.take(j - 1)),
{
    assert(s.take(j).drop_last() == s.take(j - 1));
}

/// Removes leading and trailing white space.
pub fn trim(s: &str) -> (out: String)
    ensures
        out@ == trim_spec(s@),
{
    let n = s.unicode_len();
    let mut i: usize = 0;
    assert(s@.skip(0) == s@);
    while i < n && white_space(s.get_char(i))
        invariant
            n == s@.len(),
            i <= n,
            trim_start(s@) == trim_start(s@.skip(i as int)),
        decreases n - i,
    {
        proof {
            lemma_trim_start_skip(s@, i as int);
        }
        i = i + 1;
    }
    let ghost front = s@.skip(i as int);
    assert(trim_start(s@) == front) by {
        if i < n {
            assert(!is_white_space(front[0]));
        }
    }
    let mut j: usize = n;
    assert(front.take(j - i) == front);
    while j > i && white_space(s.get_char(j - 1))
        invariant
            n == s@.len(),
            i <= j <= n,
            front == s@.skip(i as int),
            trim_end(front) == trim_end(front.take(j - i)),
        decreases j,
    {
        proof {
            lemma_trim_end_take(front, (j - i) as int);
        }
        j = j - 1;
    }
    let mut out = String::new();
    let mut k: usize = i;
    while k < j
        invariant
            n == s@.len(),
            i <= k <= j <= n,
            out@ == s@.subrange(i as int, k as int),
        decreases j - k,
    {
        let c = s.get_char(k);
        push_char(&mut out, c);
        assert(s@.subrange(i as int, k + 1) == s@.subrange(i as int, k as int).push(c));
        k = k + 1;
    }
    assert(out@ == front.take(j - i));
    assert(trim_end(front.take(j - i)) == front.take(j - i)) by {
        if j > i {
            assert(front.take(j - i).last() == s@[j - 1]);
        }
    }
    out
}

/// The ASCII digit for `d < 10`.
pub open spec fn digit_char(d: nat) -> char {
    ((d + 48) as u32) as char
}

/// Decimal digits of `n`, most significant first, without leading zeros.
pub open spec fn decimal(n: nat) -> Seq<char>
    decreases n,
{
    if n < 10 {
        seq![digit_char(n)]
    } else {
        decimal(n / 10).push(digit_char(n % 10))
    }
}

/// `n` zeros.
pub open spec fn zeros(n: nat) -> Seq<char> {
    Seq::new(n, |i: int| '0')
}

/// `format!("{:0w$}", n)`: sign first, then zeros up to the total width `w`.
pub open spec fn zero_padded(n: int, w: nat) -> Seq<char> {
    let digits = decimal(if n < 0 { (-n) as nat } else { n as nat });
    let sign: Seq<char> = if n < 0 { seq!['-'] } else { Seq::empty() };
    let used = sign.len() + digits.len();
    if used < w {
        sign + zeros((w - used) as nat) + digits
    } else {
        sign + digits
    }
}

fn digit(d: u64) -> (c: char)
    requires
        d < 10,
    ensures
        c == digit_char(d as nat),
{
    let b: u8 = (d as u8) + 48;
    b as char
}

/// Appends the decimal form of `n`.
pub fn push_decimal(out: &mut String, n: u64)
    ensures
        final(out)@ == old(out)@ + decimal(n as nat),
    decreases n,
{
    if n < 10 {
        push_char(out, digit(n));
    } else {
        push_decimal(out, n / 10);
        push_char(out, digit(n % 10));
    }
}

/// Decimal form of an unsigned integer.
pub fn u64_to_string(n: u64) -> (out: String)
    ensures
        out@ == decimal(n as nat),
{
    let mut out = String::new();
    push_decimal(&mut out, n);
    out
}

proof fn lemma_decimal_len(n: nat)
    requires
        n < 18446744073709551616,
    ensures
        1 <= decimal(n).len() <= 20,
{
    reveal_with_fuel(pow10, 21);
    assert(pow10(20) == 100000000000000000000);
    lemma_decimal_len_bound(n, 20);
    lemma_decimal_nonempty(n);
}

proof fn lemma_decimal_nonempty(n: nat)
    ensures
        1 <= decimal(n).len(),
    decreases n,
{
    if n >= 10 {
        lemma_decimal_nonempty(n / 10);
    }
}

proof fn lemma_decimal_len_bound(n: nat, k: nat)
    requires
        n < pow10(k),
        k >= 1,
    ensures
        decimal(n).len() <= k,
    decreases n,
{
    if n >= 10 {
        assert(k >= 2) by {
            if k == 1 {
                assert(pow10(1) == 10 * pow10(0));
            }
        }
        assert(pow10(k) == 10 * pow10((k - 1) as nat));
        lemma_decimal_len_bound(n / 10, (k - 1) as nat);
    }
}

/// `10^k`.
pub open spec fn pow10(k: nat) -> nat
    decreases k,
{
    if k == 0 {
        1
    } else {
        10 * pow10((k - 1) as nat)
    }
}

/// Appends `n` zeros.
pub fn push_zeros(out: &mut String, n: usize)
    ensures
        final(out)@ == old(out)@ + zeros(n as nat),
{
    let mut i: usize = 0;
    while i < n
        invariant
            i <= n,
            out@ == old(out)@ + zeros(i as nat),
        decreases n - i,
    {
        push_char(out, '0');
        assert(zeros((i + 1) as nat) == zeros(i as nat).push('0'));
        i = i + 1;
    }
}

/// Magnitude of a signed integer as `u64`.
pub fn magnitude(n: i64) -> (m: u64)
    ensures
        m as int == if n < 0 { -n } else { n as int },
{
    if n < 0 {
        if n == i64::MIN {
            9223372036854775808u64
        } else {
            (-n) as u64
        }
    } else {
        n as u64
    }
}

/// `format!("{:020}", n)`-style zero padding of a signed integer to width `w`.
pub fn zero_padded_string(n: i64, w: usize) -> (out: String)
    ensures
        out@ == zero_padded(n as int, w as nat),
{
    let m = magnitude(n);
    let digits = u64_to_string(m);
    let dlen = digits.unicode_len();
    let mut out = String::new();
    let sign_len: usize = if n < 0 { 1 } else { 0 };
    if n < 0 {
        push_char(&mut out, '-');
    }
    proof {
        lemma_decimal_len(m as nat);
    }
    let used = sign_len + dlen;
    if used < w {
        push_zeros(&mut out, w - used);
    }
    out.append(digits.as_str());
    let ghost sign: Seq<char> = if n < 0 { seq!['-'] } else { Seq::empty() };
    assert(n >= 0 ==> out@ == sign + out@);
    out
}

/// An ASCII decimal digit.
pub open spec fn is_ascii_digit(c: char) -> bool {
    '0' <= c && c <= '9'
}

/// Every character is an ASCII decimal digit.
pub open spec fn all_digits(s: Seq<char>) -> bool {
    forall|i: int| 0 <= i < s.len() ==> is_ascii_digit(#[trigger] s[i])
}

/// The number a string of decimal digits denotes.
pub open spec fn digits_value(s: Seq<char>) -> int
    decreases s.len(),
{
    if s.len() == 0 {
        0
    } else {
        digits_value(s.drop_last()) * 10 + ((s.last() as u32) as int - 48)
    }
}

/// `str::parse::<i64>`: an optional `+` or `-`, then at least one decimal
/// digit, denoting a value within `i64`.
pub open spec fn parse_i64_spec(s: Seq<char>) -> Option<i64> {
    let neg = s.len() > 0 && s[0] == '-';
    let body = if s.len() > 0 && (s[0] == '-' || s[0] == '+') {
        s.drop_first()
    } else {
        s
    };
    if body.len() == 0 || !all_digits(body) {
        None
    } else {
        let v = if neg {
            -digits_value(body)
        } else {
            digits_value(body)
        };
        if i64::MIN <= v && v <= i64::MAX {
            Some(v as i64)
        } else {
            None
        }
    }
}

proof fn lemma_digits_value_nonneg(s: Seq<char>)
    requires
        all_digits(s),
    ensures
        digits_value(s) >= 0,
    decreases s.len(),
{
    if s.len() > 0 {
        lemma_digits_value_nonneg(s.drop_last());
    }
}

proof fn lemma_digits_value_monotone(s: Seq<char>, j: int)
    requires
        all_digits(s),
        0 <= j <= s.len(),
    ensures
        digits_value(s) >= digits_value(s.take(j)),
    decreases s.len(),
{
    if j < s.len() {
        let d = s.drop_last();
        assert(d.take(j) =~= s.take(j));
        lemma_digits_value_monotone(d, j);
        lemma_digits_value_nonneg(d);
    } else {
        assert(s.take(j) =~= s);
    }
}

/// Parses a signed decimal integer the way `str::parse::<i64>` does.
pub fn parse_i64(s: &str) -> (r: Option<i64>)
    ensures
        r == parse_i64_spec(s@),
{
    let n = s.unicode_len();
    let mut start: usize = 0;
    let mut neg = false;
    if n > 0 {
        let c0 = s.get_char(0);
        if c0 == '-' {
            neg = true;
            start = 1;
        } else if c0 == '+' {
            start = 1;
        }
    }
    let ghost body = s@.skip(start as int);
    assert(body =~= (if s@.len() > 0 && (s@[0] == '-' || s@[0] == '+') {
        s@.drop_first()
    } else {
        s@
    }));
    if start >= n {
        return None;
    }
    let limit: u128 = 9223372036854775808;
    let mut acc: u128 = 0;
    let mut j: usize = start;
    assert(body.take(0) =~= Seq::<char>::empty());
    while j < n
        invariant
            n == s@.len(),
            start <= j <= n,
            body == s@.skip(start as int),
            all_digits(body.take(j - start)),
            acc as int == digits_value(body.take(j - start)),
            acc <= limit,
            limit == 9223372036854775808,
            body == (if s@.len() > 0 && (s@[0] == '-' || s@[0] == '+') {
                s@.drop_first()
            } else {
                s@
            }),
            neg == (s@.len() > 0 && s@[0] == '-'),
        decreases n - j,
    {
        let c = s.get_char(j);
        assert(body[j - start] == c);
        if !('0' <= c && c <= '9') {
            assert(!is_ascii_digit(body[j - start]));
            assert(!all_digits(body));
            return None;
        }
        let d = (c as u32 - 48) as u128;
        assert(body.take(j - start + 1).drop_last() =~= body.take(j - start));
        acc = acc * 10 + d;
        assert(all_digits(body.take(j - start + 1))) by {
            assert forall|i: int| 0 <= i < j - start + 1 implies is_ascii_digit(
                #[trigger] body.take(j - start + 1)[i],
            ) by {
                if i < j - start {
                    assert(body.take(j - start + 1)[i] == body.take(j - start)[i]);
                }
            }
        }
        if acc > limit {
            proof {
                if all_digits(body) {
                    lemma_digits_value_monotone(body, j - start + 1);
                }
            }
            return None;
        }
        j = j + 1;
    }
    assert(body.take(n - start) =~= body);
    if neg {
        if acc == limit {
            Some(i64::MIN)
        } else {
            Some(-(acc as i64))
        }
    } else {
        if acc > 9223372036854775807 {
            None
        } else {
            Some(acc as i64)
        }
    }
}

/// The decimal form of `n` is made of ASCII digits and denotes `n`.
pub proof fn lemma_decimal_digits(n: nat)
    ensures
        all_digits(decimal(n)),
        digits_value(decimal(n)) == n,
    decreases n,
{
    broadcast use vstd::utf8::char_u32_cast;
    if n >= 10 {
        lemma_decimal_digits(n / 10);
        let d = decimal(n);
        assert(d.drop_last() =~= decimal(n / 10));
        assert(((digit_char((n % 10) as nat) as u32) as int) == (n % 10) + 48);
        assert(d.last() == digit_char((n % 10) as nat));
        assert(digits_value(d) == digits_value(decimal(n / 10)) * 10 + (n % 10));
        assert((n / 10) * 10 + n % 10 == n);
        assert(digits_value(d) == n);
    } else {
        assert(((digit_char(n) as u32) as int) == n + 48);
        assert(decimal(n).drop_last() =~= Seq::<char>::empty());
        assert(digits_value(Seq::<char>::empty()) == 0);
        assert(decimal(n).last() == digit_char(n));
        assert(digits_value(decimal(n)) == n);
    }
}


/// Whether `pat` occurs in `s` at position `i`.
pub open spec fn occurs_at(s: Seq<char>, pat: Seq<char>, i: int) -> bool {
    0 <= i && i + pat.len() <= s.len() && s.subrange(i, i + pat.len()) == pat
}

/// `str::contains` for a string pattern.
pub open spec fn contains_spec(s: Seq<char>, pat: Seq<char>) -> bool {
    exists|i: int| #[trigger] occurs_at(s, pat, i)
}

/// Whether `pat` occurs in `s` at character position `i`.
fn matches_at(s: &str, pat: &str, i: usize) -> (r: bool)
    requires
        i <= s@.len(),
    ensures
        r == occurs_at(s@, pat@, i as int),
{
    let n = s.unicode_len();
    let m = pat.unicode_len();
    if m > n - i {
        return false;
    }
    let mut k: usize = 0;
    while k < m
        invariant
            n == s@.len(),
            m == pat@.len(),
            i + m <= n,
            k <= m,
            forall|q: int| 0 <= q < k ==> s@[i + q] == pat@[q],
        decreases m - k,
    {
        if s.get_char(i + k) != pat.get_char(k) {
            assert(s@.subrange(i as int, i + m)[k as int] != pat@[k as int]);
            return false;
        }
        k = k + 1;
    }
    assert(s@.subrange(i as int, i + m) =~= pat@);
    true
}

/// `str::contains`: whether `pat` occurs anywhere in `s`.
pub fn contains(s: &str, pat: &str) -> (r: bool)
    ensures
        r == contains_spec(s@, pat@),
{
    let n = s.unicode_len();
    let mut i: usize = 0;
    while i < n
        invariant
            n == s@.len(),
            i <= n,
            forall|j: int| 0 <= j < i ==> !occurs_at(s@, pat@, j),
        decreases n - i,
    {
        if matches_at(s, pat, i) {
            return true;
        }
        i = i + 1;
    }
    if matches_at(s, pat, n) {
        return true;
    }
    assert forall|j: int| !(#[trigger] occurs_at(s@, pat@, j)) by {
        if 0 <= j && j < n {
            assert(j < i);
        }
    }
    false
}

/// `str::replace` for a non-empty pattern: occurrences of `from`, found left
/// to right without overlap, are replaced by `to`.
pub open spec fn replace_spec(s: Seq<char>, from: Seq<char>, to: Seq<char>) -> Seq<char>
    decreases s.len(),
{
    if s.len() == 0 || from.len() == 0 {
        s
    } else if from.is_prefix_of(s) {
        to + replace_spec(s.skip(from.len() as int), from, to)
    } else {
        seq![s[0]] + replace_spec(s.drop_first(), from, to)
    }
}

/// Replaces every occurrence of a non-empty pattern, left to right.
pub fn replace_all(s: &str, from: &str, to: &str) -> (out: String)
    requires
        from@.len() > 0,
    ensures
        out@ == replace_spec(s@, from@, to@),
{
    let n = s.unicode_len();
    let m = from.unicode_len();
    let mut out = String::new();
    let mut i: usize = 0;
    assert(s@.skip(0) =~= s@);
    while i < n
        invariant
            n == s@.len(),
            m == from@.len(),
            m > 0,
            i <= n,
            out@ + replace_spec(s@.skip(i as int), from@, to@) == replace_spec(s@, from@, to@),
        decreases n - i,
    {
        let ghost rest = s@.skip(i as int);
        let ghost before = out@;
        if matches_at(s, from, i) {
            assert(from@.is_prefix_of(rest)) by {
                assert forall|q: int| 0 <= q < m implies rest[q] == from@[q] by {
                    assert(s@.subrange(i as int, i + m)[q] == s@[i + q]);
                }
            }
            assert(rest.skip(m as int) =~= s@.skip(i + m));
            out.append(to);
            assert(before + (to@ + replace_spec(s@.skip(i + m), from@, to@)) =~= out@ + replace_spec(
                s@.skip(i + m),
                from@,
                to@,
            ));
            i = i + m;
        } else {
            assert(!from@.is_prefix_of(rest)) by {
                if from@.is_prefix_of(rest) {
                    assert(s@.subrange(i as int, i + m) =~= from@);
                }
            }
            let c = s.get_char(i);
            assert(rest.drop_first() =~= s@.skip(i + 1));
            assert(rest[0] == c);
            push_char(&mut out, c);
            assert(before + (seq![c] + replace_spec(s@.skip(i + 1), from@, to@)) =~= out@ + replace_spec(
                s@.skip(i + 1),
                from@,
                to@,
            ));
            i = i + 1;
        }
    }
    assert(s@.skip(n as int) =~= Seq::<char>::empty());
    assert(out@ + Seq::<char>::empty() =~= out@);
    out
}

/// `str::split` on one character: the pieces between separators, in order
/// (a string without the separator is one piece; an empty string one empty piece).
pub open spec fn split_spec(s: Seq<char>, sep: char) -> Seq<Seq<char>>
    decreases s.len(),
{
    if s.len() == 0 {
        seq![Seq::empty()]
    } else {
        let init = split_spec(s.drop_last(), sep);
        if s.last() == sep {
            init.push(Seq::empty())
        } else {
            init.update(init.len() - 1, init.last().push(s.last()))
        }
    }
}

/// Splitting always yields at least one piece.
pub proof fn lemma_split_nonempty(s: Seq<char>, sep: char)
    ensures
        split_spec(s, sep).len() >= 1,
    decreases s.len(),
{
    if s.len() > 0 {
        lemma_split_nonempty(s.drop_last(), sep);
    }
}

/// Splits on a separator character.
pub fn split_on(s: &str, sep: char) -> (parts: Vec<String>)
    ensures
        parts@.len() >= 1,
        parts@.len() == split_spec(s@, sep).len(),
        forall|k: int| 0 <= k < parts@.len() ==> #[trigger] parts@[k]@ == split_spec(s@, sep)[k],
{
    let n = s.unicode_len();
    let mut parts: Vec<String> = Vec::new();
    let mut cur = String::new();
    let mut i: usize = 0;
    assert(s@.take(0) =~= Seq::<char>::empty());
    while i < n
        invariant
            n == s@.len(),
            i <= n,
            split_spec(s@.take(i as int), sep).len() == parts@.len() + 1,
            forall|k: int| 0 <= k < parts@.len() ==> #[trigger] parts@[k]@ == split_spec(s@.take(i as int), sep)[k],
            cur@ == split_spec(s@.take(i as int), sep).last(),
        decreases n - i,
    {
        let c = s.get_char(i);
        let ghost pre = s@.take(i as int);
        assert(s@.take(i + 1).drop_last() =~= pre);
        assert(s@.take(i + 1).last() == c);
        proof {
            lemma_split_nonempty(pre, sep);
        }
        if c == sep {
            let done = cur;
            parts.push(done);
            cur = String::new();
        } else {
            push_char(&mut cur, c);
        }
        i = i + 1;
    }
    assert(s@.take(n as int) =~= s@);
    parts.push(cur);
    proof {
        lemma_split_nonempty(s@, sep);
    }
    parts
}


/// `str::parse` into an unsigned integer type whose largest value is `max`:
/// an optional `+`, then at least one decimal digit, denoting at most `max`.
pub open spec fn parse_uint_spec(s: Seq<char>, max: nat) -> Option<nat> {
    let body = if s.len() > 0 && s[0] == '+' { s.drop_first() } else { s };
    if body.len() == 0 || !all_digits(body) {
        None
    } else if digits_value(body) <= max {
        Some(digits_value(body) as nat)
    } else {
        None
    }
}

/// Parses an unsigned integer no larger than `max` (`u8`, `usize`, ... by their `MAX`).
pub fn parse_uint(s: &str, max: u64) -> (r: Option<u64>)
    ensures
        r matches Some(v) ==> v <= max,
        match r {
            Some(v) => parse_uint_spec(s@, max as nat) == Some(v as nat),
            None => parse_uint_spec(s@, max as nat) is None,
        },
{
    let n = s.unicode_len();
    let mut start: usize = 0;
    if n > 0 && s.get_char(0) == '+' {
        start = 1;
    }
    let ghost body = s@.skip(start as int);
    assert(body =~= (if s@.len() > 0 && s@[0] == '+' { s@.drop_first() } else { s@ }));
    if start >= n {
        return None;
    }
    let mut acc: u128 = 0;
    let mut j: usize = start;
    assert(body.take(0) =~= Seq::<char>::empty());
    while j < n
        invariant
            n == s@.len(),
            start <= j <= n,
            body == s@.skip(start as int),
            all_digits(body.take(j - start)),
            acc as int == digits_value(body.take(j - start)),
            acc <= max,
            body == (if s@.len() > 0 && s@[0] == '+' { s@.drop_first() } else { s@ }),
        decreases n - j,
    {
        let c = s.get_char(j);
        assert(body[j - start] == c);
        if !('0' <= c && c <= '9') {
            assert(!is_ascii_digit(body[j - start]));
            assert(!all_digits(body));
            return None;
        }
        let d = (c as u32 - 48) as u128;
        assert(body.take(j - start + 1).drop_last() =~= body.take(j - start));
        acc = acc * 10 + d;
        assert(all_digits(body.take(j - start + 1))) by {
            assert forall|i: int| 0 <= i < j - start + 1 implies is_ascii_digit(
                #[trigger] body.take(j - start + 1)[i],
            ) by {
                if i < j - start {
                    assert(body.take(j - start + 1)[i] == body.take(j - start)[i]);
                }
            }
        }
        if acc > max as u128 {
            proof {
                if all_digits(body) {
                    lemma_digits_value_monotone(body, j - start + 1);
                }
            }
            return None;
        }
        j = j + 1;
    }
    assert(body.take(n - start) =~= body);
    proof {
        lemma_digits_value_nonneg(body);
    }
    Some(acc as u64)
}

/// Lower-casing leaves a string without ASCII capitals unchanged.
pub proof fn lemma_ascii_lower_unchanged(s: Seq<char>)
    requires
        forall|i: int| 0 <= i < s.len() ==> !('A' <= #[trigger] s[i] && s[i] <= 'Z'),
    ensures
        ascii_lower_seq(s) == s,
{
    assert(ascii_lower_seq(s) =~= s);
}


proof fn lemma_trim_start_first(s: Seq<char>)
    ensures
        trim_start(s).len() > 0 ==> !is_white_space(trim_start(s)[0]),
    decreases s.len(),
{
    if s.len() > 0 && is_white_space(s[0]) {
        lemma_trim_start_first(s.drop_first());
    }
}

proof fn lemma_trim_end_shape(u: Seq<char>)
    ensures
        trim_end(u).len() <= u.len(),
        trim_end(u) == u.take(trim_end(u).len() as int),
        trim_end(u).len() > 0 ==> !is_white_space(trim_end(u).last()),
    decreases u.len(),
{
    if u.len() > 0 && is_white_space(u.last()) {
        lemma_trim_end_shape(u.drop_last());
        let r = trim_end(u.drop_last());
        assert(u.drop_last().take(r.len() as int) =~= u.take(r.len() as int));
    } else {
        assert(u.take(u.len() as int) =~= u);
    }
}

/// Lower-casing a character changes neither whether it is white space nor
/// what lower-casing it again gives.
proof fn lemma_ascii_lower_char(c: char)
    ensures
        is_white_space(ascii_lower(c)) == is_white_space(c),
        ascii_lower(ascii_lower(c)) == ascii_lower(c),
{
    broadcast use vstd::utf8::char_u32_cast;
    if 'A' <= c && c <= 'Z' {
        let u = (c as u32) + 32;
        assert(((u as char) as u32) == u);
        assert(97 <= u <= 122);
    }
}

/// Trimming and ASCII lower-casing a string a second time changes nothing.
pub proof fn lemma_trim_lower_idempotent(s: Seq<char>)
    ensures
        ascii_lower_seq(trim_spec(ascii_lower_seq(trim_spec(s)))) == ascii_lower_seq(trim_spec(s)),
{
    let t = trim_spec(s);
    let l = ascii_lower_seq(t);
    lemma_trim_start_first(s);
    lemma_trim_end_shape(trim_start(s));
    if l.len() > 0 {
        assert(t[0] == trim_start(s)[0]);
        lemma_ascii_lower_char(t[0]);
        lemma_ascii_lower_char(t.last());
        assert(l[0] == ascii_lower(t[0]));
        assert(l.last() == ascii_lower(t.last()));
        assert(!is_white_space(l[0]) && !is_white_space(l.last()));
        assert(trim_start(l) == l);
        assert(trim_end(l) == l);
    } else {
        assert(trim_start(l) == l);
        assert(trim_end(l) == l);
    }
    assert forall|i: int| 0 <= i < l.len() implies #[trigger] ascii_lower_seq(l)[i] == l[i] by {
        lemma_ascii_lower_char(t[i]);
    }
    assert(ascii_lower_seq(l) =~= l);
}

} // verus!
