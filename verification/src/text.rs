//! Character-level string helpers shared by the formatter, the comparison
//! rules and the exporters, each with the mathematical definition it meets.
use vstd::prelude::*;
use vstd::string::*;

verus! {

/// The decimal digit character for `d` (`d < 10`).
pub open spec fn digit_char(d: nat) -> char {
    (48 + d) as char
}

/// Decimal spelling of a natural number, most significant digit first.
pub open spec fn nat_to_decimal(n: nat) -> Seq<char>
    decreases n,
{
    if n < 10 {
        seq![digit_char(n)]
    } else {
        nat_to_decimal(n / 10).push(digit_char(n % 10))
    }
}

/// Decimal spelling of an integer, with a leading `-` when negative.
pub open spec fn int_to_decimal(i: int) -> Seq<char> {
    if i < 0 {
        seq!['-'] + nat_to_decimal((-i) as nat)
    } else {
        nat_to_decimal(i as nat)
    }
}

/// Whether two strings are the same text.
pub fn same_text(a: &str, b: &str) -> (r: bool)
    ensures
        r == (a@ == b@),
{
    let n = a.unicode_len();
    if n != b.unicode_len() {
        return false;
    }
    let mut i: usize = 0;
    while i < n
        invariant
            n == a@.len() == b@.len(),
            i <= n,
            forall|j: int| 0 <= j < i ==> a@[j] == b@[j],
        decreases n - i,
    {
        if a.get_char(i) != b.get_char(i) {
            return false;
        }
        i = i + 1;
    }
    assert(a@ =~= b@);
    true
}

/// Appends one character to a string.
/// Trusted: `String::push`, documented to append the character at the end.
#[verifier::external_body]
pub(crate) fn push_char(s: &mut String, c: char)
    ensures
        final(s)@ == old(s)@.push(c),
{
    s.push(c);
}

/// Appends the decimal digits of `n`.
pub fn push_decimal(s: &mut String, n: u64)
    ensures
        final(s)@ == old(s)@ + nat_to_decimal(n as nat),
    decreases n,
{
    let ghost start = s@;
    if n >= 10 {
        push_decimal(s, n / 10);
    }
    let d: u8 = (n % 10) as u8;
    let c: char = (48u8 + d) as char;
    push_char(s, c);
    assert(s@ =~= start + nat_to_decimal(n as nat));
}

/// Appends the decimal text of a signed integer, as `{}` formats it.
pub fn push_int(s: &mut String, v: i64)
    ensures
        final(s)@ == old(s)@ + int_to_decimal(v as int),
{
    let ghost start = s@;
    if v < 0 {
        push_char(s, '-');
        let magnitude: u64 = (0i128 - (v as i128)) as u64;
        push_decimal(s, magnitude);
    } else {
        push_decimal(s, v as u64);
    }
    assert(s@ =~= start + int_to_decimal(v as int));
}

/// Decimal text of a signed integer, as `i64::to_string` writes it.
pub fn int_to_string(v: i64) -> (s: String)
    ensures
        s@ == int_to_decimal(v as int),
{
    let mut s = String::new();
    if v < 0 {
        push_char(&mut s, '-');
        let magnitude: u64 = (0i128 - (v as i128)) as u64;
        push_decimal(&mut s, magnitude);
    } else {
        push_decimal(&mut s, v as u64);
    }
    assert(s@ =~= int_to_decimal(v as int));
    s
}

/// The parts written one after another with `sep` between neighbours.
pub open spec fn seq_join(parts: Seq<Seq<char>>, sep: Seq<char>) -> Seq<char>
    decreases parts.len(),
{
    if parts.len() == 0 {
        Seq::empty()
    } else if parts.len() == 1 {
        parts[0]
    } else {
        seq_join(parts.drop_last(), sep) + sep + parts.last()
    }
}

/// The character sequences of a list of strings.
pub open spec fn views_of(parts: Seq<String>) -> Seq<Seq<char>> {
    parts.map_values(|p: String| p@)
}

/// Joins strings with a separator, as `[String]::join` does.
pub fn join_strings(parts: &Vec<String>, sep: &str) -> (s: String)
    ensures
        s@ == seq_join(views_of(parts@), sep@),
{
    let s = join_range(parts, 0, parts.len(), sep);
    assert(views_of(parts@).subrange(0, parts.len() as int) =~= views_of(parts@));
    s
}

/// Joins `parts[start..end]` with a separator.
pub fn join_range(parts: &Vec<String>, start: usize, end: usize, sep: &str) -> (s: String)
    requires
        start <= end <= parts.len(),
    ensures
        s@ == seq_join(views_of(parts@).subrange(start as int, end as int), sep@),
{
    let mut s = String::new();
    let mut i: usize = start;
    while i < end
        invariant
            start <= i <= end <= parts.len(),
            s@ == seq_join(views_of(parts@).subrange(start as int, i as int), sep@),
        decreases end - i,
    {
        if i > start {
            s.append(sep);
        }
        s.append(parts[i].as_str());
        assert(views_of(parts@).subrange(start as int, i + 1).drop_last() =~= views_of(parts@).subrange(
            start as int,
            i as int,
        ));
        i = i + 1;
    }
    s
}

/// ASCII lowercase of one character; other characters are unchanged.
pub open spec fn ascii_lower(c: char) -> char {
    if 'A' <= c && c <= 'Z' {
        ((c as u32) + 32) as char
    } else {
        c
    }
}

/// ASCII lowercase of a character sequence.
pub open spec fn lower_seq(s: Seq<char>) -> Seq<char> {
    s.map_values(|c: char| ascii_lower(c))
}

/// ASCII lowercase of one character, as `char::to_ascii_lowercase` computes it.
pub fn ascii_lower_char(c: char) -> (r: char)
    ensures
        r == ascii_lower(c),
{
    if 'A' <= c && c <= 'Z' {
        let b: u8 = ((c as u32) + 32) as u8;
        b as char
    } else {
        c
    }
}

/// Equality ignoring ASCII case, as `str::eq_ignore_ascii_case` decides it.
pub fn eq_ignore_ascii_case(a: &str, b: &str) -> (r: bool)
    ensures
        r == (lower_seq(a@) == lower_seq(b@)),
{
    let n = a.unicode_len();
    let m = b.unicode_len();
    if n != m {
        proof {
            if lower_seq(a@) == lower_seq(b@) {
                assert(lower_seq(a@).len() == lower_seq(b@).len());
            }
        }
        return false;
    }
    let mut i: usize = 0;
    while i < n
        invariant
            n == a@.len(),
            m == b@.len(),
            n == m,
            i <= n,
            forall|j: int| 0 <= j < i ==> ascii_lower(a@[j]) == ascii_lower(b@[j]),
        decreases n - i,
    {
        let ca = ascii_lower_char(a.get_char(i));
        let cb = ascii_lower_char(b.get_char(i));
        if ca != cb {
            proof {
                assert(lower_seq(a@)[i as int] != lower_seq(b@)[i as int]);
            }
            return false;
        }
        i = i + 1;
    }
    assert(lower_seq(a@) =~= lower_seq(b@));
    true
}

/// Lexicographic order of character sequences by code point, shorter prefix
/// first: the order `<` gives Rust strings.
pub open spec fn seq_lex_lt(a: Seq<char>, b: Seq<char>) -> bool
    decreases a.len(),
{
    if a.len() == 0 {
        b.len() > 0
    } else if b.len() == 0 {
        false
    } else if a[0] != b[0] {
        (a[0] as u32) < (b[0] as u32)
    } else {
        seq_lex_lt(a.drop_first(), b.drop_first())
    }
}

proof fn lemma_lex_lt_skip_common(a: Seq<char>, b: Seq<char>, i: int)
    requires
        0 <= i <= a.len(),
        i <= b.len(),
        forall|j: int| 0 <= j < i ==> a[j] == b[j],
    ensures
        seq_lex_lt(a, b) == seq_lex_lt(a.skip(i), b.skip(i)),
    decreases i,
{
    if i > 0 {
        assert(a.len() > 0 && b.len() > 0 && a[0] == b[0]);
        lemma_lex_lt_skip_common(a.drop_first(), b.drop_first(), i - 1);
        assert(a.drop_first().skip(i - 1) =~= a.skip(i));
        assert(b.drop_first().skip(i - 1) =~= b.skip(i));
    } else {
        assert(a.skip(0) =~= a);
        assert(b.skip(0) =~= b);
    }
}

/// Whether `a` sorts before `b` once both are ASCII-lowercased.
pub fn lt_ignore_ascii_case(a: &str, b: &str) -> (r: bool)
    ensures
        r == seq_lex_lt(lower_seq(a@), lower_seq(b@)),
{
    let n = a.unicode_len();
    let m = b.unicode_len();
    let ghost la = lower_seq(a@);
    let ghost lb = lower_seq(b@);
    let mut i: usize = 0;
    while i < n && i < m
        invariant
            n == a@.len(),
            m == b@.len(),
            la == lower_seq(a@),
            lb == lower_seq(b@),
            i <= n,
            i <= m,
            forall|j: int| 0 <= j < i ==> la[j] == lb[j],
        decreases n - i,
    {
        let ca = ascii_lower_char(a.get_char(i));
        let cb = ascii_lower_char(b.get_char(i));
        if ca != cb {
            proof {
                lemma_lex_lt_skip_common(la, lb, i as int);
                assert(la.skip(i as int)[0] == ca);
                assert(lb.skip(i as int)[0] == cb);
            }
            return (ca as u32) < (cb as u32);
        }
        i = i + 1;
    }
    proof {
        lemma_lex_lt_skip_common(la, lb, i as int);
    }
    i < m
}

/// ASCII decimal digit.
pub open spec fn is_digit(c: char) -> bool {
    '0' <= c && c <= '9'
}

/// Value of a string of decimal digits (0 for the empty string).
pub open spec fn digits_value(s: Seq<char>) -> int
    decreases s.len(),
{
    if s.len() == 0 {
        0
    } else {
        digits_value(s.drop_last()) * 10 + ((s.last() as u32) - 48)
    }
}

/// Every character is a decimal digit.
pub open spec fn all_digits(s: Seq<char>) -> bool {
    forall|i: int| 0 <= i < s.len() ==> is_digit(#[trigger] s[i])
}

/// The integer an optionally signed run of decimal digits denotes, of any size.
pub open spec fn signed_decimal_value(s: Seq<char>) -> Option<int> {
    let negative = s.len() > 0 && s[0] == '-';
    let body = if s.len() > 0 && (s[0] == '-' || s[0] == '+') {
        s.drop_first()
    } else {
        s
    };
    if body.len() == 0 || !all_digits(body) {
        None
    } else if negative {
        Some(-digits_value(body))
    } else {
        Some(digits_value(body))
    }
}

/// What `str::parse::<i32>` accepts and returns: an optional sign, at least
/// one digit, and a value within the 32-bit range.
pub open spec fn parse_i32_spec(s: Seq<char>) -> Option<i32> {
    match signed_decimal_value(s) {
        Some(v) => if i32::MIN <= v && v <= i32::MAX {
            Some(v as i32)
        } else {
            None
        },
        None => None,
    }
}

proof fn lemma_digits_value_nonneg(s: Seq<char>)
    requires
        all_digits(s),
    ensures
        digits_value(s) >= 0,
    decreases s.len(),
{
    if s.len() > 0 {
        lemma_digits_value_nonneg(s.drop_last());
    }
}

proof fn lemma_digits_value_grows(s: Seq<char>, i: int)
    requires
        all_digits(s),
        0 <= i <= s.len(),
    ensures
        digits_value(s.take(i)) <= digits_value(s),
    decreases s.len(),
{
    if i < s.len() {
        assert(s.take(i) =~= s.drop_last().take(i));
        lemma_digits_value_grows(s.drop_last(), i);
        lemma_digits_value_nonneg(s.drop_last());
    } else {
        assert(s.take(i) =~= s);
    }
}

/// Parses a decimal 32-bit integer as `str::parse::<i32>` does.
pub fn parse_i32(s: &str) -> (r: Option<i32>)
    ensures
        r == parse_i32_spec(s@),
{
    let n = s.unicode_len();
    if n == 0 {
        return None;
    }
    let first = s.get_char(0);
    let negative = first == '-';
    let start: usize = if first == '-' || first == '+' { 1 } else { 0 };
    let ghost body = if first == '-' || first == '+' { s@.drop_first() } else { s@ };
    if start == n {
        return None;
    }
    let mut acc: i64 = 0;
    let mut i: usize = start;
    while i < n
        invariant
            n == s@.len(),
            start <= i <= n,
            start < n,
            first == s@[0],
            negative == (first == '-'),
            start == (if first == '-' || first == '+' { 1usize } else { 0usize }),
            body == (if first == '-' || first == '+' { s@.drop_first() } else { s@ }),
            body == s@.skip(start as int),
            0 <= acc <= 2147483648,
            acc == digits_value(body.take(i - start)),
            all_digits(body.take(i - start)),
        decreases n - i,
    {
        let c = s.get_char(i);
        let ghost k = i - start;
        assert(body[k] == c);
        if !('0' <= c && c <= '9') {
            proof {
                assert(!is_digit(body[k]));
            }
            return None;
        }
        assert(body.take(k + 1).drop_last() =~= body.take(k));
        assert(all_digits(body.take(k + 1)));
        let d: i64 = ((c as u32) - 48) as i64;
        acc = acc * 10 + d;
        if acc > 2147483648 {
            proof {
                if all_digits(body) {
                    lemma_digits_value_grows(body, k + 1);
                }
            }
            return None;
        }
        i = i + 1;
    }
    assert(body.take(n - start) =~= body);
    if negative {
        Some((0 - acc) as i32)
    } else if acc > 2147483647 {
        None
    } else {
        Some(acc as i32)
    }
}

// ---- Numbers written as text ----

/// The first index of `a` or `b` in `s`, or its length where neither occurs.
pub open spec fn first_of(s: Seq<char>, a: char, b: char) -> int
    decreases s.len(),
{
    if s.len() == 0 {
        0
    } else if s[0] == a || s[0] == b {
        0
    } else {
        1 + first_of(s.drop_first(), a, b)
    }
}

/// Digits with at most one point, and at least one digit.
pub open spec fn is_mantissa(m: Seq<char>) -> bool {
    let d = first_of(m, '.', '.');
    if d == m.len() {
        m.len() > 0 && all_digits(m)
    } else {
        all_digits(m.take(d)) && all_digits(m.skip(d + 1)) && m.len() >= 2
    }
}

/// An optional sign, then at least one digit.
pub open spec fn is_exponent(x: Seq<char>) -> bool {
    let y = if x.len() > 0 && (x[0] == '+' || x[0] == '-') { x.skip(1) } else { x };
    y.len() > 0 && all_digits(y)
}

/// Text that Rust's `f64` parsing accepts: an optional sign, then `inf`,
/// `infinity` or `nan` in any ASCII case, or a mantissa (digits with at most
/// one point, at least one digit) followed, optionally, by `e` or `E` and an
/// exponent (an optional sign and digits).
pub open spec fn is_float_text(s: Seq<char>) -> bool {
    let b = if s.len() > 0 && (s[0] == '+' || s[0] == '-') { s.skip(1) } else { s };
    let e = first_of(b, 'e', 'E');
    ||| lower_seq(b) == lower_seq("inf"@)
    ||| lower_seq(b) == lower_seq("infinity"@)
    ||| lower_seq(b) == lower_seq("nan"@)
    ||| (is_mantissa(b.take(e)) && (e == b.len() || is_exponent(b.skip(e + 1))))
}

proof fn lemma_first_of(s: Seq<char>, a: char, b: char, i: int)
    requires
        0 <= i <= s.len(),
        forall|j: int| 0 <= j < i ==> s[j] != a && s[j] != b,
        i == s.len() || s[i] == a || s[i] == b,
    ensures
        first_of(s, a, b) == i,
    decreases i,
{
    if i > 0 {
        assert forall|j: int| 0 <= j < i - 1 implies s.drop_first()[j] != a && s.drop_first()[j] != b by {
            assert(s.drop_first()[j] == s[j + 1]);
        }
        lemma_first_of(s.drop_first(), a, b, i - 1);
    }
}

fn first_of_exec(s: &str, lo: usize, a: char, b: char) -> (r: usize)
    requires
        lo <= s@.len(),
    ensures
        lo <= r <= s@.len(),
        r - lo == first_of(s@.skip(lo as int), a, b),
{
    let n = s.unicode_len();
    let mut i = lo;
    while i < n && s.get_char(i) != a && s.get_char(i) != b
        invariant
            n == s@.len(),
            lo <= i <= n,
            forall|j: int| lo <= j < i ==> s@[j] != a && s@[j] != b,
        decreases n - i,
    {
        i = i + 1;
    }
    proof {
        let t = s@.skip(lo as int);
        assert forall|j: int| 0 <= j < i - lo implies t[j] != a && t[j] != b by {
            assert(t[j] == s@[lo + j]);
        }
        lemma_first_of(t, a, b, i - lo);
    }
    i
}

fn all_digits_in(s: &str, lo: usize, hi: usize) -> (r: bool)
    requires
        lo <= hi <= s@.len(),
    ensures
        r == all_digits(s@.subrange(lo as int, hi as int)),
{
    let mut i = lo;
    while i < hi
        invariant
            lo <= i <= hi <= s@.len(),
            forall|j: int| lo <= j < i ==> is_digit(s@[j]),
        decreases hi - i,
    {
        let c = s.get_char(i);
        if !('0' <= c && c <= '9') {
            proof {
                assert(s@.subrange(lo as int, hi as int)[i - lo] == c);
            }
            return false;
        }
        i = i + 1;
    }
    proof {
        let t = s@.subrange(lo as int, hi as int);
        assert forall|j: int| 0 <= j < t.len() implies is_digit(#[trigger] t[j]) by {
            assert(t[j] == s@[lo + j]);
        }
    }
    true
}

/// Whether the text is a number Rust's `f64` parsing accepts; see
/// `is_float_text`.
pub fn reads_as_float(s: &str) -> (r: bool)
    ensures
        r == is_float_text(s@),
{
    let n = s.unicode_len();
    let start: usize = if n > 0 && (s.get_char(0) == '+' || s.get_char(0) == '-') { 1 } else { 0 };
    let ghost b = s@.skip(start as int);
    assert(b == (if s@.len() > 0 && (s@[0] == '+' || s@[0] == '-') { s@.skip(1) } else { s@ })) by {
        if start == 0 {
            assert(s@.skip(0) =~= s@);
        }
    }
    let body = s.substring_char(start, n);
    assert(body@ =~= b);
    if eq_ignore_ascii_case(body, "inf") || eq_ignore_ascii_case(body, "infinity") || eq_ignore_ascii_case(body, "nan") {
        return true;
    }
    let e = first_of_exec(s, start, 'e', 'E');
    let ghost ei = e - start;
    // The mantissa: s[start..e].
    let d = first_of_exec(s, start, '.', '.');
    let mantissa = if d < e {
        all_digits_in(s, start, d) && all_digits_in(s, d + 1, e) && e - start >= 2
    } else {
        e > start && all_digits_in(s, start, e)
    };
    proof {
        let m = b.take(ei);
        assert(m =~= s@.subrange(start as int, e as int));
        let dm = first_of(m, '.', '.');
        let db = first_of(b, '.', '.');
        // the first point of the mantissa is the first point of b, if before e
        if db < ei {
            assert forall|j: int| 0 <= j < db implies m[j] != '.' && m[j] != '.' by {
                lemma_first_of_before(b, '.', '.', j);
            }
            lemma_first_of_at(b, '.', '.');
            lemma_first_of(m, '.', '.', db);
            assert(m.take(dm) =~= s@.subrange(start as int, d as int));
            assert(m.skip(dm + 1) =~= s@.subrange(d + 1, e as int));
        } else {
            assert forall|j: int| 0 <= j < ei implies m[j] != '.' && m[j] != '.' by {
                lemma_first_of_before(b, '.', '.', j);
            }
            lemma_first_of(m, '.', '.', ei);
        }
    }
    if !mantissa {
        return false;
    }
    if e == n {
        return true;
    }
    // The exponent: s[e+1..n].
    let xs = if e + 1 < n && (s.get_char(e + 1) == '+' || s.get_char(e + 1) == '-') { e + 2 } else { e + 1 };
    let r = xs < n && all_digits_in(s, xs, n);
    proof {
        let x = b.skip(ei + 1);
        assert(x =~= s@.subrange(e + 1, n as int));
        let y = if x.len() > 0 && (x[0] == '+' || x[0] == '-') { x.skip(1) } else { x };
        assert(y =~= s@.subrange(xs as int, n as int));
    }
    r
}

/// Every index before the first of `a` or `b` holds neither.
proof fn lemma_first_of_before(s: Seq<char>, a: char, b: char, j: int)
    requires
        0 <= j < first_of(s, a, b),
    ensures
        s[j] != a && s[j] != b,
    decreases s.len(),
{
    lemma_first_of_at(s, a, b);
    if j > 0 {
        lemma_first_of_before(s.drop_first(), a, b, j - 1);
        assert(s.drop_first()[j - 1] == s[j]);
    }
}

/// The first of `a` or `b` is within the text, and is one of them where it
/// is before the end.
proof fn lemma_first_of_at(s: Seq<char>, a: char, b: char)
    ensures
        0 <= first_of(s, a, b) <= s.len(),
        first_of(s, a, b) < s.len() ==> s[first_of(s, a, b)] == a || s[first_of(s, a, b)] == b,
    decreases s.len(),
{
    if s.len() > 0 && s[0] != a && s[0] != b {
        lemma_first_of_at(s.drop_first(), a, b);
    }
}

} // verus!
