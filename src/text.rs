//! Character-level helpers shared by the decoder and the synthesizer.

use vstd::prelude::*;

verus! {

broadcast use vstd::string::group_string_axioms;

/// Relies on `String::push`: the character is appended at the end.
pub assume_specification[ String::push ](s: &mut String, ch: char)
    ensures
        final(s)@ == old(s)@.push(ch),
;

/// An owned copy of `s`.
pub fn owned(s: &str) -> (r: String)
    ensures
        r@ == s@,
{
    s.to_string()
}

/// The characters of `s`, in order.
pub fn chars_of(s: &str) -> (r: Vec<char>)
    ensures
        r@ == s@,
{
    let mut r: Vec<char> = Vec::new();
    for c in it: s.chars()
        invariant
            it.seq() == s@,
            r@ == it.seq().take(it.index() as int),
    {
        r.push(c);
    }
    r
}

/// A string holding exactly the characters of `v`.
pub fn string_of(v: &Vec<char>) -> (r: String)
    ensures
        r@ == v@,
{
    let mut r = String::new();
    let mut i: usize = 0;
    while i < v.len()
        invariant
            i <= v.len(),
            r@ == v@.take(i as int),
        decreases v.len() - i,
    {
        r.push(v[i]);
        i = i + 1;
        assert(v@.take(i as int) == v@.take(i - 1).push(v@[i - 1]));
    }
    assert(v@.take(v.len() as int) == v@);
    r
}

/// `p` occurs in `s` as a contiguous run of characters.
pub open spec fn has_sub(s: Seq<char>, p: Seq<char>) -> bool {
    exists|i: int| 0 <= i && i + p.len() <= s.len() && #[trigger] s.subrange(i, i + p.len()) == p
}

/// `s` ends with `p`.
pub open spec fn has_suffix(s: Seq<char>, p: Seq<char>) -> bool {
    p.len() <= s.len() && s.subrange(s.len() - p.len(), s.len() as int) == p
}

fn occurs_at(s: &Vec<char>, p: &Vec<char>, at: usize) -> (r: bool)
    requires
        at + p.len() <= s.len(),
    ensures
        r == (s@.subrange(at as int, at + p.len()) == p@),
{
    let mut j: usize = 0;
    while j < p.len()
        invariant
            at + p.len() <= s.len(),
            j <= p.len(),
            forall|k: int| 0 <= k < j ==> s@[at + k] == p@[k],
        decreases p.len() - j,
    {
        if s[at + j] != p[j] {
            assert(s@.subrange(at as int, at + p.len())[j as int] != p@[j as int]);
            return false;
        }
        j = j + 1;
    }
    assert(s@.subrange(at as int, at + p.len()) =~= p@);
    true
}

/// Whether `needle` occurs in `hay`.
pub fn contains(hay: &Vec<char>, needle: &str) -> (r: bool)
    ensures
        r == has_sub(hay@, needle@),
{
    let p = chars_of(needle);
    if p.len() == 0 {
        assert(hay@.subrange(0, 0 + needle@.len() as int) =~= needle@);
        return true;
    }
    let mut i: usize = 0;
    while p.len() <= hay.len() - i
        invariant
            1 <= p.len(),
            i <= hay.len(),
            p@ == needle@,
            forall|k: int| 0 <= k < i ==> #[trigger] hay@.subrange(k, k + p.len()) != p@,
        decreases hay.len() - i,
    {
        if occurs_at(hay, &p, i) {
            return true;
        }
        i = i + 1;
    }
    false
}

/// Whether `s` ends with `suffix`.
pub fn ends_with(s: &Vec<char>, suffix: &str) -> (r: bool)
    ensures
        r == has_suffix(s@, suffix@),
{
    let p = chars_of(suffix);
    if p.len() > s.len() {
        return false;
    }
    occurs_at(s, &p, s.len() - p.len())
}

/// What `str::to_lowercase` makes of a sequence of characters.
pub uninterp spec fn lower_of(s: Seq<char>) -> Seq<char>;

/// Relies on `str::to_lowercase`: the full Unicode lower-case mapping, which
/// depends on the characters alone and keeps an empty string empty.
#[verifier::external_body]
pub(crate) fn lowercase(s: &str) -> (r: String)
    ensures
        r@ == lower_of(s@),
        s@.len() == 0 ==> r@.len() == 0,
{
    s.to_lowercase()
}

/// The characters that Unicode gives the White_Space property, which is what
/// `char::is_whitespace` tests.
pub open spec fn is_space(c: char) -> bool {
    ||| ('\u{9}' <= c && c <= '\u{d}')
    ||| c == ' '
    ||| c == '\u{85}'
    ||| c == '\u{a0}'
    ||| c == '\u{1680}'
    ||| ('\u{2000}' <= c && c <= '\u{200a}')
    ||| c == '\u{2028}'
    ||| c == '\u{2029}'
    ||| c == '\u{202f}'
    ||| c == '\u{205f}'
    ||| c == '\u{3000}'
}

/// Whether `c` is white space in the sense of `is_space`.
pub fn is_space_char(c: char) -> (r: bool)
    ensures
        r == is_space(c),
{
    ('\u{9}' <= c && c <= '\u{d}') || c == ' ' || c == '\u{85}' || c == '\u{a0}'
        || c == '\u{1680}' || ('\u{2000}' <= c && c <= '\u{200a}') || c == '\u{2028}'
        || c == '\u{2029}' || c == '\u{202f}' || c == '\u{205f}' || c == '\u{3000}'
}

/// `s` without its leading white space.
pub open spec fn skip_space(s: Seq<char>) -> Seq<char>
    decreases s.len(),
{
    if s.len() > 0 && is_space(s[0]) {
        skip_space(s.drop_first())
    } else {
        s
    }
}

/// The longest prefix of `s` that holds no white space.
pub open spec fn word_prefix(s: Seq<char>) -> Seq<char>
    decreases s.len(),
{
    if s.len() > 0 && !is_space(s[0]) {
        seq![s[0]] + word_prefix(s.drop_first())
    } else {
        Seq::empty()
    }
}

/// The first white-space separated word of `s`, empty when there is none.
pub open spec fn first_word(s: Seq<char>) -> Seq<char> {
    word_prefix(skip_space(s))
}

proof fn lemma_skip_space_from(s: Seq<char>, i: int)
    requires
        0 <= i < s.len(),
        is_space(s[i]),
    ensures
        skip_space(s.subrange(i, s.len() as int)) == skip_space(s.subrange(i + 1, s.len() as int)),
{
    assert(s.subrange(i, s.len() as int).drop_first() =~= s.subrange(i + 1, s.len() as int));
}

proof fn lemma_word_prefix_from(s: Seq<char>, i: int)
    requires
        0 <= i < s.len(),
        !is_space(s[i]),
    ensures
        word_prefix(s.subrange(i, s.len() as int)) == seq![s[i]] + word_prefix(
            s.subrange(i + 1, s.len() as int),
        ),
{
    assert(s.subrange(i, s.len() as int).drop_first() =~= s.subrange(i + 1, s.len() as int));
}

/// The first white-space separated word of `s`.
pub fn first_word_of(s: &Vec<char>) -> (r: Vec<char>)
    ensures
        r@ == first_word(s@),
{
    let n = s.len();
    let mut i: usize = 0;
    assert(s@.subrange(0, n as int) =~= s@);
    while i < n && is_space_char(s[i])
        invariant
            n == s.len(),
            i <= n,
            skip_space(s@.subrange(i as int, n as int)) == skip_space(s@),
        decreases n - i,
    {
        proof {
            lemma_skip_space_from(s@, i as int);
        }
        i = i + 1;
    }
    let ghost start = i;
    let mut r: Vec<char> = Vec::new();
    while i < n && !is_space_char(s[i])
        invariant
            n == s.len(),
            start <= i <= n,
            skip_space(s@) == s@.subrange(start as int, n as int),
            first_word(s@) == r@ + word_prefix(s@.subrange(i as int, n as int)),
        decreases n - i,
    {
        proof {
            lemma_word_prefix_from(s@, i as int);
        }
        r.push(s[i]);
        i = i + 1;
        assert(first_word(s@) == r@ + word_prefix(s@.subrange(i as int, n as int)));
    }
    assert(word_prefix(s@.subrange(i as int, n as int)) =~= Seq::<char>::empty());
    assert(r@ + Seq::<char>::empty() =~= r@);
    r
}

/// `s` without its trailing white space.
pub open spec fn trim_end_spec(s: Seq<char>) -> Seq<char>
    decreases s.len(),
{
    if s.len() > 0 && is_space(s.last()) {
        trim_end_spec(s.drop_last())
    } else {
        s
    }
}

/// `s` without its leading and trailing white space.
pub open spec fn trim_spec(s: Seq<char>) -> Seq<char> {
    trim_end_spec(skip_space(s))
}

/// `s` without its leading and trailing white space.
pub fn trim_chars(s: &Vec<char>) -> (r: Vec<char>)
    ensures
        r@ == trim_spec(s@),
{
    let n = s.len();
    let mut a: usize = 0;
    assert(s@.subrange(0, n as int) =~= s@);
    while a < n && is_space_char(s[a])
        invariant
            n == s.len(),
            a <= n,
            skip_space(s@.subrange(a as int, n as int)) == skip_space(s@),
        decreases n - a,
    {
        proof {
            lemma_skip_space_from(s@, a as int);
        }
        a = a + 1;
    }
    let mut b: usize = n;
    while b > a && is_space_char(s[b - 1])
        invariant
            n == s.len(),
            a <= b <= n,
            skip_space(s@) == s@.subrange(a as int, n as int),
            trim_end_spec(s@.subrange(a as int, b as int)) == trim_spec(s@),
        decreases b - a,
    {
        assert(s@.subrange(a as int, b as int).drop_last() =~= s@.subrange(a as int, b - 1));
        b = b - 1;
    }
    let mut r: Vec<char> = Vec::new();
    let mut k: usize = a;
    while k < b
        invariant
            a <= k <= b <= n,
            n == s.len(),
            r@ == s@.subrange(a as int, k as int),
        decreases b - k,
    {
        r.push(s[k]);
        k = k + 1;
        assert(r@ =~= s@.subrange(a as int, k as int));
    }
    r
}

/// The pieces of `s` between commas, in order; there is always at least one.
pub open spec fn split_commas(s: Seq<char>) -> Seq<Seq<char>>
    decreases s.len(),
{
    if s.len() == 0 {
        seq![Seq::empty()]
    } else {
        let p = split_commas(s.drop_last());
        if s.last() == ',' {
            p.push(Seq::empty())
        } else {
            p.update(p.len() - 1, p.last().push(s.last()))
        }
    }
}

proof fn lemma_split_commas_nonempty(s: Seq<char>)
    ensures
        split_commas(s).len() >= 1,
    decreases s.len(),
{
    if s.len() > 0 {
        lemma_split_commas_nonempty(s.drop_last());
    }
}

/// The character views of a sequence of character vectors.
pub open spec fn char_views(v: Seq<Vec<char>>) -> Seq<Seq<char>> {
    v.map_values(|x: Vec<char>| x@)
}

/// The pieces of `s` between commas.
pub fn split_on_commas(s: &Vec<char>) -> (r: Vec<Vec<char>>)
    ensures
        char_views(r@) == split_commas(s@),
{
    let mut pieces: Vec<Vec<char>> = Vec::new();
    let mut current: Vec<char> = Vec::new();
    let mut i: usize = 0;
    assert(s@.take(0) =~= Seq::<char>::empty());
    assert(char_views(pieces@).push(current@) =~= split_commas(s@.take(0)));
    while i < s.len()
        invariant
            i <= s.len(),
            char_views(pieces@).push(current@) == split_commas(s@.take(i as int)),
        decreases s.len() - i,
    {
        assert(s@.take(i + 1).drop_last() =~= s@.take(i as int));
        assert(s@.take(i + 1).last() == s@[i as int]);
        proof {
            lemma_split_commas_nonempty(s@.take(i as int));
        }
        let c = s[i];
        if c == ',' {
            let done = current;
            pieces.push(done);
            current = Vec::new();
            assert(char_views(pieces@).push(current@) =~= split_commas(s@.take(i + 1)));
        } else {
            current.push(c);
            assert(char_views(pieces@).push(current@) =~= split_commas(s@.take(i + 1)));
        }
        i = i + 1;
    }
    assert(s@.take(s.len() as int) =~= s@);
    pieces.push(current);
    assert(char_views(pieces@) =~= split_commas(s@));
    pieces
}

/// The value of an ASCII decimal digit.
pub open spec fn digit_value(c: char) -> nat {
    (c as nat - '0' as nat) as nat
}

/// Every character of `d` is an ASCII decimal digit and there is at least one.
pub open spec fn is_decimal(d: Seq<char>) -> bool {
    d.len() > 0 && forall|i: int| 0 <= i < d.len() ==> '0' <= #[trigger] d[i] && d[i] <= '9'
}

/// The number that the decimal digits of `d` spell, most significant first.
pub open spec fn decimal_value(d: Seq<char>) -> nat
    decreases d.len(),
{
    if d.len() == 0 {
        0
    } else {
        decimal_value(d.drop_last()) * 10 + digit_value(d.last())
    }
}

/// The number that `d` spells in decimal, where it spells one that fits in a `u64`.
pub open spec fn parse_decimal_spec(d: Seq<char>) -> Option<u64> {
    if is_decimal(d) && decimal_value(d) <= u64::MAX {
        Some(decimal_value(d) as u64)
    } else {
        None
    }
}

proof fn lemma_decimal_value_grows(d: Seq<char>, i: int)
    requires
        0 <= i <= d.len(),
    ensures
        decimal_value(d.take(i)) <= decimal_value(d),
    decreases d.len() - i,
{
    if i < d.len() {
        lemma_decimal_value_grows(d, i + 1);
        assert(d.take(i + 1).drop_last() =~= d.take(i));
    } else {
        assert(d.take(i) =~= d);
    }
}

/// Reads `d` as an unsigned decimal number: digits only, at least one, and a
/// value that fits in a `u64`.
pub fn parse_decimal(d: &Vec<char>) -> (r: Option<u64>)
    ensures
        r == parse_decimal_spec(d@),
{
    if d.len() == 0 {
        return None;
    }
    let mut acc: u64 = 0;
    let mut i: usize = 0;
    while i < d.len()
        invariant
            i <= d.len(),
            acc == decimal_value(d@.take(i as int)),
            forall|k: int| 0 <= k < i ==> '0' <= #[trigger] d@[k] && d@[k] <= '9',
        decreases d.len() - i,
    {
        let c = d[i];
        if c < '0' || c > '9' {
            return None;
        }
        assert(d@.take(i + 1).drop_last() =~= d@.take(i as int));
        let digit = (c as u32 - '0' as u32) as u64;
        if acc > (u64::MAX - digit) / 10 {
            proof {
                lemma_decimal_value_grows(d@, i + 1);
            }
            assert(decimal_value(d@.take(i + 1)) > u64::MAX) by (nonlinear_arith)
                requires
                    acc > (u64::MAX - digit) / 10,
                    decimal_value(d@.take(i + 1)) == acc * 10 + digit,
                    digit <= 9,
            ;
            return None;
        }
        assert(acc * 10 + digit <= u64::MAX) by (nonlinear_arith)
            requires
                acc <= (u64::MAX - digit) / 10,
                digit <= 9,
        ;
        acc = acc * 10 + digit;
        i = i + 1;
    }
    assert(d@.take(d.len() as int) =~= d@);
    Some(acc)
}

/// The number that `d` spells as Rust writes an unsigned integer: an
/// optional `+`, then decimal digits, with a value that fits in a `u64`.
pub open spec fn parse_unsigned_spec(d: Seq<char>) -> Option<u64> {
    if d.len() > 0 && d[0] == '+' {
        parse_decimal_spec(d.drop_first())
    } else {
        parse_decimal_spec(d)
    }
}

/// Reads an unsigned integer as Rust writes one: an optional `+`, then
/// decimal digits.
pub fn parse_unsigned(d: &Vec<char>) -> (r: Option<u64>)
    ensures
        r == parse_unsigned_spec(d@),
{
    if d.len() > 0 && d[0] == '+' {
        let mut rest: Vec<char> = Vec::new();
        let mut i: usize = 1;
        while i < d.len()
            invariant
                1 <= i <= d.len(),
                rest@ == d@.subrange(1, i as int),
            decreases d.len() - i,
        {
            rest.push(d[i]);
            i = i + 1;
            assert(rest@ =~= d@.subrange(1, i as int));
        }
        assert(rest@ =~= d@.drop_first());
        parse_decimal(&rest)
    } else {
        parse_decimal(d)
    }
}

/// The decimal digits of `n`, most significant first, without leading zeros.
pub open spec fn decimal_of(n: nat) -> Seq<char>
    decreases n,
{
    if n < 10 {
        seq![digit_char(n)]
    } else {
        decimal_of(n / 10).push(digit_char(n % 10))
    }
}

/// The ASCII character of a digit below ten.
pub open spec fn digit_char(n: nat) -> char {
    (('0' as nat) + n) as char
}

/// Appends the decimal digits of `n` to `out`.
pub fn push_decimal(out: &mut String, n: u128)
    ensures
        final(out)@ == old(out)@ + decimal_of(n as nat),
    decreases n,
{
    if n >= 10 {
        push_decimal(out, n / 10);
    }
    let c = ((n % 10) as u8 + 48u8) as char;
    assert(c == digit_char((n % 10) as nat));
    out.push(c);
}

} // verus!
