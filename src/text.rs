//! Character-level helpers on strings, each with the sequence-level function
//! it computes.

use vstd::prelude::*;

verus! {

/// `p` is a prefix of `s`.
pub open spec fn is_prefix(p: Seq<char>, s: Seq<char>) -> bool {
    p.len() <= s.len() && s.subrange(0, p.len() as int) == p
}

/// `p` occurs in `s` starting at position `i`.
pub open spec fn occurs_at(s: Seq<char>, p: Seq<char>, i: int) -> bool {
    0 <= i && i + p.len() <= s.len() && s.subrange(i, i + p.len()) == p
}

/// The first position at or after `from` where `p` occurs in `s`.
pub open spec fn index_from(s: Seq<char>, p: Seq<char>, from: int) -> Option<int>
    decreases s.len() + 1 - from,
{
    if from < 0 || from + p.len() > s.len() {
        None
    } else if occurs_at(s, p, from) {
        Some(from)
    } else {
        index_from(s, p, from + 1)
    }
}

/// The first position where `p` occurs in `s`.
pub open spec fn index_of(s: Seq<char>, p: Seq<char>) -> Option<int> {
    index_from(s, p, 0)
}

/// Whether `p` is a prefix of `s`.
pub fn has_prefix(s: &str, p: &str) -> (r: bool)
    ensures
        r == is_prefix(p@, s@),
{
    let n = s.unicode_len();
    let m = p.unicode_len();
    if m > n {
        return false;
    }
    let mut i: usize = 0;
    while i < m
        invariant
            m == p@.len(),
            n == s@.len(),
            m <= n,
            i <= m,
            forall|k: int| 0 <= k < i ==> s@[k] == p@[k],
        decreases m - i,
    {
        if s.get_char(i) != p.get_char(i) {
            assert(s@.subrange(0, m as int)[i as int] != p@[i as int]);
            return false;
        }
        i = i + 1;
    }
    assert(s@.subrange(0, m as int) =~= p@);
    true
}

/// Whether `p` occurs in `s` at position `i`.
fn matches_at(s: &str, p: &str, i: usize) -> (r: bool)
    requires
        s@.len() <= usize::MAX,
    ensures
        r == occurs_at(s@, p@, i as int),
{
    let n = s.unicode_len();
    let m = p.unicode_len();
    if m > n || i > n - m {
        return false;
    }
    let mut k: usize = 0;
    while k < m
        invariant
            m == p@.len(),
            n == s@.len(),
            i + m <= n,
            k <= m,
            forall|j: int| 0 <= j < k ==> s@[i + j] == p@[j],
        decreases m - k,
    {
        if s.get_char(i + k) != p.get_char(k) {
            assert(s@.subrange(i as int, i + m)[k as int] != p@[k as int]);
            return false;
        }
        k = k + 1;
    }
    assert(s@.subrange(i as int, i + m) =~= p@);
    true
}

proof fn lemma_index_from_none(s: Seq<char>, p: Seq<char>, from: int)
    requires
        from >= 0,
        from + p.len() > s.len(),
    ensures
        index_from(s, p, from) is None,
{
}

/// A position that `index_from` reports is an occurrence, and the first one.
pub proof fn lemma_index_from(s: Seq<char>, p: Seq<char>, from: int)
    ensures
        index_from(s, p, from) matches Some(i) ==> from <= i && occurs_at(s, p, i) && forall|
            j: int,
        |
            from <= j < i ==> !occurs_at(s, p, j),
        index_from(s, p, from) is None && from >= 0 ==> forall|j: int| from <= j ==> !occurs_at(s, p, j),
    decreases s.len() + 1 - from,
{
    if from < 0 || from + p.len() > s.len() {
    } else if occurs_at(s, p, from) {
    } else {
        lemma_index_from(s, p, from + 1);
    }
}

/// The first position where `p` occurs in `s`, if any.
pub fn find(s: &str, p: &str) -> (r: Option<usize>)
    ensures
        r matches Some(i) ==> index_of(s@, p@) == Some(i as int),
        r is None ==> index_of(s@, p@) is None,
{
    let n = s.unicode_len();
    let m = p.unicode_len();
    if m > n {
        return None;
    }
    let last = n - m;
    let mut i: usize = 0;
    loop
        invariant
            m == p@.len(),
            n == s@.len(),
            last == n - m,
            i <= last,
            index_of(s@, p@) == index_from(s@, p@, i as int),
        decreases last - i,
    {
        if matches_at(s, p, i) {
            return Some(i);
        }
        if i == last {
            proof {
                lemma_index_from_none(s@, p@, i + 1);
            }
            return None;
        }
        i = i + 1;
    }
}

/// `s` with every `{}` replaced by `v`.
pub open spec fn fill(s: Seq<char>, v: Seq<char>) -> Seq<char>
    decreases s.len(),
{
    if s.len() == 0 {
        s
    } else if s.len() >= 2 && s[0] == '{' && s[1] == '}' {
        v + fill(s.subrange(2, s.len() as int), v)
    } else {
        seq![s[0]] + fill(s.subrange(1, s.len() as int), v)
    }
}

/// The part of `s` before the first `p`; all of `s` when `p` does not occur.
pub open spec fn before(s: Seq<char>, p: Seq<char>) -> Seq<char> {
    match index_of(s, p) {
        Some(i) => s.subrange(0, i),
        None => s,
    }
}

/// The part of `s` after the first `p`, when `p` occurs.
pub open spec fn after(s: Seq<char>, p: Seq<char>) -> Option<Seq<char>> {
    match index_of(s, p) {
        Some(i) => Some(s.subrange(i + p.len(), s.len() as int)),
        None => None,
    }
}

/// The characters with the Unicode `White_Space` property, which is what
/// `char::is_whitespace` tests.
pub open spec fn is_space(c: char) -> bool {
    ||| c == '\t' || c == '\n' || c == '\u{0B}' || c == '\u{0C}' || c == '\r'
    ||| c == ' ' || c == '\u{85}' || c == '\u{A0}' || c == '\u{1680}'
    ||| ('\u{2000}' <= c && c <= '\u{200A}')
    ||| c == '\u{2028}' || c == '\u{2029}' || c == '\u{202F}' || c == '\u{205F}'
    ||| c == '\u{3000}'
}

/// `s` without its leading white space.
pub open spec fn trim_start(s: Seq<char>) -> Seq<char>
    decreases s.len(),
{
    if s.len() > 0 && is_space(s[0]) {
        trim_start(s.subrange(1, s.len() as int))
    } else {
        s
    }
}

/// `s` without its trailing white space.
pub open spec fn trim_end(s: Seq<char>) -> Seq<char>
    decreases s.len(),
{
    if s.len() > 0 && is_space(s[s.len() - 1]) {
        trim_end(s.subrange(0, s.len() - 1))
    } else {
        s
    }
}

/// `s` without leading and trailing white space.
pub open spec fn trim(s: Seq<char>) -> Seq<char> {
    trim_end(trim_start(s))
}

/// Whether `a` and `b` hold the same characters.
pub fn same_text(a: &str, b: &str) -> (r: bool)
    ensures
        r == (a@ == b@),
{
    let n = a.unicode_len();
    let m = b.unicode_len();
    if n != m {
        return false;
    }
    let r = has_prefix(a, b);
    assert(a@.subrange(0, m as int) =~= a@);
    r
}

/// The concatenation of `a` and `b`.
pub fn join2(a: &str, b: &str) -> (r: String)
    ensures
        r@ == a@ + b@,
{
    let mut r = String::from_str(a);
    r.append(b);
    r
}

/// The concatenation of `a`, `b` and `c`.
pub fn join3(a: &str, b: &str, c: &str) -> (r: String)
    ensures
        r@ == a@ + b@ + c@,
{
    let mut r = String::from_str(a);
    r.append(b);
    r.append(c);
    r
}

/// `s` with every `{}` replaced by `v`.
pub fn fill_placeholder(s: &str, v: &str) -> (r: String)
    ensures
        r@ == fill(s@, v@),
{
    let n = s.unicode_len();
    let mut r = String::new();
    let mut i: usize = 0;
    assert(s@.subrange(0, n as int) =~= s@);
    assert(r@ + fill(s@, v@) =~= fill(s@, v@));
    while i < n
        invariant
            n == s@.len(),
            i <= n,
            fill(s@, v@) == r@ + fill(s@.subrange(i as int, n as int), v@),
        decreases n - i,
    {
        let rest = Ghost(s@.subrange(i as int, n as int));
        if i + 1 < n && s.get_char(i) == '{' && s.get_char(i + 1) == '}' {
            assert(rest@.subrange(2, rest@.len() as int) =~= s@.subrange(i + 2, n as int));
            r.append(v);
            i = i + 2;
        } else {
            assert(rest@.subrange(1, rest@.len() as int) =~= s@.subrange(i + 1, n as int));
            let c = s.substring_char(i, i + 1);
            assert(c@ =~= seq![rest@[0]]);
            r.append(c);
            i = i + 1;
        }
    }
    assert(s@.subrange(n as int, n as int) =~= Seq::<char>::empty());
    r
}

/// The part of `s` before the first `p`; all of `s` when `p` does not occur.
pub fn text_before<'a>(s: &'a str, p: &str) -> (r: &'a str)
    ensures
        r@ == before(s@, p@),
{
    proof {
        lemma_index_from(s@, p@, 0);
    }
    match find(s, p) {
        Some(i) => s.substring_char(0, i),
        None => s,
    }
}

/// The part of `s` after the first `p`, when `p` occurs.
pub fn text_after<'a>(s: &'a str, p: &str) -> (r: Option<&'a str>)
    ensures
        r matches Some(t) ==> after(s@, p@) == Some(t@),
        r is None ==> after(s@, p@) is None,
{
    proof {
        lemma_index_from(s@, p@, 0);
    }
    match find(s, p) {
        Some(i) => {
            let m = p.unicode_len();
            let n = s.unicode_len();
            Some(s.substring_char(i + m, n))
        },
        None => None,
    }
}

/// Whether `c` is white space in the sense of `char::is_whitespace`.
pub fn is_white_space(c: char) -> (r: bool)
    ensures
        r == is_space(c),
{
    c == '\t' || c == '\n' || c == '\u{0B}' || c == '\u{0C}' || c == '\r' || c == ' '
        || c == '\u{85}' || c == '\u{A0}' || c == '\u{1680}' || ('\u{2000}' <= c && c
        <= '\u{200A}') || c == '\u{2028}' || c == '\u{2029}' || c == '\u{202F}' || c
        == '\u{205F}' || c == '\u{3000}'
}

/// `s` without leading and trailing white space.
pub fn trim_text<'a>(s: &'a str) -> (r: &'a str)
    ensures
        r@ == trim(s@),
{
    let n = s.unicode_len();
    let mut a: usize = 0;
    assert(s@.subrange(0, n as int) =~= s@);
    while a < n && is_white_space(s.get_char(a))
        invariant
            n == s@.len(),
            a <= n,
            trim_start(s@) == trim_start(s@.subrange(a as int, n as int)),
        decreases n - a,
    {
        assert(s@.subrange(a as int, n as int).subrange(1, n - a) =~= s@.subrange(a + 1, n as int));
        a = a + 1;
    }
    let ghost front = s@.subrange(a as int, n as int);
    assert(trim_start(front) == front);
    let mut b: usize = n;
    while b > a && is_white_space(s.get_char(b - 1))
        invariant
            n == s@.len(),
            a <= b <= n,
            front == s@.subrange(a as int, n as int),
            trim_end(front) == trim_end(s@.subrange(a as int, b as int)),
        decreases b - a,
    {
        assert(s@.subrange(a as int, b as int).subrange(0, b - a - 1) =~= s@.subrange(
            a as int,
            b - 1,
        ));
        b = b - 1;
    }
    s.substring_char(a, b)
}

/// A copy of a list of strings.
pub fn copy_texts(v: &Vec<String>) -> (r: Vec<String>)
    ensures
        r.deep_view() == v.deep_view(),
{
    let r = v.clone();
    assert(r.deep_view() =~= v.deep_view());
    r
}

/// Whether `p` occurs in `s`.
pub fn contains_text(s: &str, p: &str) -> (r: bool)
    ensures
        r == (index_of(s@, p@) is Some),
{
    find(s, p).is_some()
}

/// The decimal digits of `n`, most significant first, with no leading zero.
pub open spec fn decimal(n: nat) -> Seq<char>
    decreases n,
{
    if n < 10 {
        seq![digit_char((n % 10) as u8)]
    } else {
        decimal(n / 10).push(digit_char((n % 10) as u8))
    }
}

/// The character of a decimal digit.
pub open spec fn digit_char(d: u8) -> char {
    ((48 + d) as u8) as char
}

/// The text of one decimal digit.
fn digit_text(d: u8) -> (r: &'static str)
    requires
        d < 10,
    ensures
        r@ == seq![digit_char(d)],
{
    proof {
        reveal_strlit("0");
        reveal_strlit("1");
        reveal_strlit("2");
        reveal_strlit("3");
        reveal_strlit("4");
        reveal_strlit("5");
        reveal_strlit("6");
        reveal_strlit("7");
        reveal_strlit("8");
        reveal_strlit("9");
    }
    match d {
        0 => "0",
        1 => "1",
        2 => "2",
        3 => "3",
        4 => "4",
        5 => "5",
        6 => "6",
        7 => "7",
        8 => "8",
        _ => "9",
    }
}

/// The characters of a sequence of decimal digit values.
pub open spec fn digit_chars(ds: Seq<u8>) -> Seq<char> {
    ds.map_values(|d: u8| digit_char(d))
}

/// The decimal text of `n`.
pub fn decimal_text(n: u64) -> (r: String)
    ensures
        r@ == decimal(n as nat),
{
    // Digits, least significant first.
    let mut digits: Vec<u8> = Vec::new();
    digits.push((n % 10) as u8);
    let mut m: u64 = n / 10;
    proof {
        assert(digit_chars(digits@) =~= seq![digit_char((n % 10) as u8)]);
        assert(digit_chars(digits@).reverse() =~= seq![digit_char((n % 10) as u8)]);
        if n >= 10 {
            assert(decimal(n as nat) == decimal(m as nat).push(digit_char((n % 10) as u8)));
            assert(decimal(n as nat) =~= decimal(m as nat) + digit_chars(digits@).reverse());
        } else {
            assert(decimal(n as nat) =~= Seq::<char>::empty() + digit_chars(digits@).reverse());
        }
    }
    while m > 0
        invariant
            forall|k: int| 0 <= k < digits.len() ==> digits@[k] < 10,
            decimal(n as nat) == (if m == 0 {
                Seq::<char>::empty()
            } else {
                decimal(m as nat)
            }) + digit_chars(digits@).reverse(),
        decreases m,
    {
        let d = (m % 10) as u8;
        let ghost before = digits@;
        digits.push(d);
        proof {
            assert(digit_chars(digits@) =~= digit_chars(before).push(digit_char(d)));
            assert(digit_chars(digits@).reverse() =~= seq![digit_char(d)] + digit_chars(
                before,
            ).reverse());
            if m >= 10 {
                assert(decimal(m as nat) == decimal((m / 10) as nat).push(digit_char(d)));
                assert(decimal((m / 10) as nat) + digit_chars(digits@).reverse() =~= decimal(
                    m as nat,
                ) + digit_chars(before).reverse());
            } else {
                assert(decimal(m as nat) == seq![digit_char(d)]);
                assert(Seq::<char>::empty() + digit_chars(digits@).reverse() =~= decimal(
                    m as nat,
                ) + digit_chars(before).reverse());
            }
        }
        m = m / 10;
    }
    assert(decimal(n as nat) =~= digit_chars(digits@).reverse());
    let mut r = String::new();
    let mut i: usize = digits.len();
    while i > 0
        invariant
            i <= digits.len(),
            forall|k: int| 0 <= k < digits.len() ==> digits@[k] < 10,
            r@ =~= digit_chars(digits@.subrange(i as int, digits.len() as int)).reverse(),
        decreases i,
    {
        i = i - 1;
        let one = digit_text(digits[i]);
        r.append(one);
        assert(digit_chars(digits@.subrange(i as int, digits.len() as int)).reverse()
            =~= digit_chars(digits@.subrange(i + 1, digits.len() as int)).reverse().push(
            digit_char(digits@[i as int]),
        ));
    }
    assert(digits@.subrange(0, digits.len() as int) =~= digits@);
    r
}

/// The decimal text of a signed number: a minus sign before the digits of
/// its magnitude when it is negative.
pub open spec fn signed_decimal(n: int) -> Seq<char> {
    if n < 0 {
        "-"@ + decimal((-n) as nat)
    } else {
        decimal(n as nat)
    }
}

/// The decimal text of `n`.
pub fn signed_decimal_text(n: i64) -> (r: String)
    ensures
        r@ == signed_decimal(n as int),
{
    if n < 0 {
        let magnitude: u64 = (-(n as i128)) as u64;
        let digits = decimal_text(magnitude);
        join2("-", digits.as_str())
    } else {
        decimal_text(n as u64)
    }
}

/// Ten to the power `k`.
pub open spec fn pow10(k: nat) -> nat
    decreases k,
{
    if k == 0 {
        1
    } else {
        10 * pow10((k - 1) as nat)
    }
}

/// A number below `10^k` has at most `k` digits.
pub proof fn lemma_decimal_len(n: nat, k: nat)
    requires
        k >= 1,
        n < pow10(k),
    ensures
        decimal(n).len() <= k,
    decreases n,
{
    if n >= 10 {
        assert(k >= 2) by {
            if k == 1 {
                assert(pow10(1) == 10 * pow10(0));
            }
        }
        assert(pow10(k) == 10 * pow10((k - 1) as nat));
        assert(n / 10 < pow10((k - 1) as nat));
        lemma_decimal_len(n / 10, (k - 1) as nat);
    }
}

/// The decimal text of a 64-bit signed number has at most 20 characters.
pub proof fn lemma_signed_decimal_len(n: i64)
    ensures
        signed_decimal(n as int).len() <= 20,
{
    reveal_with_fuel(pow10, 20);
    assert(pow10(19) == 10_000_000_000_000_000_000nat);
    let m: int = if n < 0 {
        -(n as int)
    } else {
        n as int
    };
    lemma_decimal_len(m as nat, 19);
    reveal_strlit("-");
}

} // verus!
