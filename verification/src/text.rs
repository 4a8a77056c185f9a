//! Character-sequence helpers shared by the parsers and formatters:
//! substring search, ASCII case folding, whitespace trimming, and
//! decimal / hexadecimal rendering of integers.

use vstd::prelude::*;

verus! {

/// True when `needle` occurs in `hay` starting exactly at position `i`.
pub open spec fn sub_at(hay: Seq<char>, needle: Seq<char>, i: int) -> bool {
    0 <= i && i + needle.len() <= hay.len() && hay.subrange(i, i + needle.len() as int) =~= needle
}

/// True when `needle` occurs somewhere in `hay` at a position `>= from`.
pub open spec fn has_sub_from(hay: Seq<char>, needle: Seq<char>, from: int) -> bool {
    exists|i: int| from <= i && sub_at(hay, needle, i)
}

/// True when `needle` occurs somewhere in `hay`.
pub open spec fn has_sub(hay: Seq<char>, needle: Seq<char>) -> bool {
    has_sub_from(hay, needle, 0)
}

/// True when `needle` is the prefix of `hay` at position `i` up to length `k`.
spec fn prefix_matches(hay: Seq<char>, needle: Seq<char>, i: int, k: int) -> bool {
    forall|j: int| 0 <= j < k ==> hay[i + j] == needle[j]
}

proof fn lemma_sub_at_pointwise(hay: Seq<char>, needle: Seq<char>, i: int)
    requires
        0 <= i,
        i + needle.len() <= hay.len(),
    ensures
        sub_at(hay, needle, i) <==> prefix_matches(hay, needle, i, needle.len() as int),
{
    if prefix_matches(hay, needle, i, needle.len() as int) {
        assert(hay.subrange(i, i + needle.len() as int) =~= needle);
    }
    if sub_at(hay, needle, i) {
        assert forall|j: int| 0 <= j < needle.len() implies hay[i + j] == needle[j] by {
            assert(hay.subrange(i, i + needle.len() as int)[j] == needle[j]);
        }
    }
}

/// Find the first occurrence of `needle` in `hay` at a position `>= from`.
pub fn find_sub_from(hay: &Vec<char>, needle: &Vec<char>, from: usize) -> (r: Option<usize>)
    ensures
        match r {
            Some(i) => from <= i && sub_at(hay@, needle@, i as int)
                && forall|j: int| from <= j < i ==> !sub_at(hay@, needle@, j),
            None => !has_sub_from(hay@, needle@, from as int),
        },
{
    if needle.len() > hay.len() || from > hay.len() - needle.len() {
        return None;
    }
    let last = hay.len() - needle.len();
    let mut i: usize = from;
    while i <= last
        invariant
            needle.len() <= hay.len(),
            last == hay.len() - needle.len(),
            from <= i <= last + 1,
            forall|j: int| from <= j < i ==> !sub_at(hay@, needle@, j),
        decreases last + 1 - i,
    {
        let mut k: usize = 0;
        let mut matches: bool = true;
        while matches && k < needle.len()
            invariant
                i + needle.len() <= hay.len(),
                k <= needle.len(),
                matches ==> prefix_matches(hay@, needle@, i as int, k as int),
                !matches ==> !sub_at(hay@, needle@, i as int),
            decreases needle.len() - k + (if matches { 1int } else { 0int }),
        {
            if hay[i + k] == needle[k] {
                k = k + 1;
            } else {
                proof {
                    lemma_sub_at_pointwise(hay@, needle@, i as int);
                }
                matches = false;
            }
        }
        if matches {
            proof {
                lemma_sub_at_pointwise(hay@, needle@, i as int);
            }
            return Some(i);
        }
        i = i + 1;
    }
    assert forall|j: int| from <= j implies !sub_at(hay@, needle@, j) by {
        if sub_at(hay@, needle@, j) {
            assert(j + needle@.len() <= hay@.len());
        }
    }
    None
}

/// ASCII lower-casing of a single character; other characters are unchanged.
pub open spec fn lower_char(c: char) -> char {
    if 'A' <= c && c <= 'Z' {
        ((c as u32) + 32) as char
    } else {
        c
    }
}

/// ASCII lower-casing of a character sequence.
pub open spec fn lower_seq(s: Seq<char>) -> Seq<char> {
    s.map_values(|c: char| lower_char(c))
}

/// Lower-case the ASCII letters of `v`, leaving all other characters alone.
pub fn to_ascii_lower(v: &Vec<char>) -> (r: Vec<char>)
    ensures
        r@ =~= lower_seq(v@),
{
    let mut r: Vec<char> = Vec::new();
    let mut i: usize = 0;
    while i < v.len()
        invariant
            i <= v.len(),
            r@ =~= lower_seq(v@.subrange(0, i as int)),
        decreases v.len() - i,
    {
        let c = v[i];
        if 'A' <= c && c <= 'Z' {
            r.push((((c as u32) + 32) as u8) as char);
        } else {
            r.push(c);
        }
        assert(lower_seq(v@.subrange(0, i + 1 as int)) =~= lower_seq(v@.subrange(0, i as int)).push(lower_char(v@[i as int])));
        i = i + 1;
    }
    assert(v@.subrange(0, v@.len() as int) =~= v@);
    r
}

/// The whitespace characters that trimming removes.
pub open spec fn is_space(c: char) -> bool {
    c == ' ' || c == '\t' || c == '\n' || c == '\r' || c == '\u{0b}' || c == '\u{c}'
}

/// `s` with leading whitespace removed.
pub open spec fn trim_front(s: Seq<char>) -> Seq<char>
    decreases s.len(),
{
    if s.len() > 0 && is_space(s[0]) {
        trim_front(s.drop_first())
    } else {
        s
    }
}

/// `s` with trailing whitespace removed.
pub open spec fn trim_back(s: Seq<char>) -> Seq<char>
    decreases s.len(),
{
    if s.len() > 0 && is_space(s[s.len() - 1]) {
        trim_back(s.drop_last())
    } else {
        s
    }
}

/// `s` with whitespace removed from both ends.
pub open spec fn trim_seq(s: Seq<char>) -> Seq<char> {
    trim_back(trim_front(s))
}

fn is_space_exec(c: char) -> (r: bool)
    ensures
        r == is_space(c),
{
    c == ' ' || c == '\t' || c == '\n' || c == '\r' || c == '\u{0b}' || c == '\u{c}'
}

proof fn lemma_trim_front_skip(s: Seq<char>, i: int)
    requires
        0 <= i <= s.len(),
        forall|j: int| 0 <= j < i ==> is_space(s[j]),
    ensures
        trim_front(s) =~= trim_front(s.subrange(i, s.len() as int)),
    decreases i,
{
    if i > 0 {
        assert(trim_front(s) =~= trim_front(s.drop_first()));
        lemma_trim_front_skip(s.drop_first(), i - 1);
        assert(s.drop_first().subrange(i - 1, s.drop_first().len() as int) =~= s.subrange(i, s.len() as int));
    } else {
        assert(s.subrange(0, s.len() as int) =~= s);
    }
}

proof fn lemma_trim_back_skip(s: Seq<char>, i: int)
    requires
        0 <= i <= s.len(),
        forall|j: int| i <= j < s.len() ==> is_space(s[j]),
    ensures
        trim_back(s) =~= trim_back(s.subrange(0, i)),
    decreases s.len() - i,
{
    if i < s.len() {
        assert(trim_back(s) =~= trim_back(s.drop_last()));
        lemma_trim_back_skip(s.drop_last(), i);
        assert(s.drop_last().subrange(0, i) =~= s.subrange(0, i));
    } else {
        assert(s.subrange(0, s.len() as int) =~= s);
    }
}

/// Copy `v[a..b]` into a fresh vector.
pub fn vec_sub<T: Copy>(v: &Vec<T>, a: usize, b: usize) -> (r: Vec<T>)
    requires
        a <= b <= v.len(),
    ensures
        r@ =~= v@.subrange(a as int, b as int),
{
    let mut r: Vec<T> = Vec::new();
    let mut i: usize = a;
    while i < b
        invariant
            a <= i <= b <= v.len(),
            r@ =~= v@.subrange(a as int, i as int),
        decreases b - i,
    {
        r.push(v[i]);
        assert(v@.subrange(a as int, i + 1 as int) =~= v@.subrange(a as int, i as int).push(v@[i as int]));
        i = i + 1;
    }
    r
}

/// Append a copy of every element of `src` to `dst`.
pub fn push_all<T: Copy>(dst: &mut Vec<T>, src: &Vec<T>)
    ensures
        final(dst)@ =~= old(dst)@ + src@,
{
    let mut i: usize = 0;
    while i < src.len()
        invariant
            i <= src.len(),
            dst@ =~= old(dst)@ + src@.subrange(0, i as int),
        decreases src.len() - i,
    {
        dst.push(src[i]);
        assert(src@.subrange(0, i + 1 as int) =~= src@.subrange(0, i as int).push(src@[i as int]));
        i = i + 1;
    }
    assert(src@.subrange(0, src@.len() as int) =~= src@);
}

/// Remove whitespace from both ends of `v`.
pub fn trim(v: &Vec<char>) -> (r: Vec<char>)
    ensures
        r@ =~= trim_seq(v@),
{
    let mut a: usize = 0;
    while a < v.len() && is_space_exec(v[a])
        invariant
            a <= v.len(),
            forall|j: int| 0 <= j < a ==> is_space(v@[j]),
        decreases v.len() - a,
    {
        a = a + 1;
    }
    proof {
        lemma_trim_front_skip(v@, a as int);
    }
    let mut b: usize = v.len();
    while b > a && is_space_exec(v[b - 1])
        invariant
            a <= b <= v.len(),
            forall|j: int| b <= j < v.len() ==> is_space(v@[j]),
        decreases b,
    {
        b = b - 1;
    }
    let r = vec_sub(v, a, b);
    proof {
        let tail = v@.subrange(a as int, v@.len() as int);
        assert(a == v@.len() || !is_space(tail[0]));
        assert(trim_front(v@) =~= tail);
        assert forall|j: int| b as int - a as int <= j < tail.len() implies is_space(tail[j]) by {
            assert(tail[j] == v@[a + j]);
        }
        lemma_trim_back_skip(tail, b as int - a as int);
        let kept = tail.subrange(0, b as int - a as int);
        assert(b == a || !is_space(kept[kept.len() - 1]));
        assert(trim_back(kept) =~= kept);
        assert(kept =~= v@.subrange(a as int, b as int));
    }
    r
}

/// The character for one digit value below 16 (`0-9`, then `a-f`).
pub open spec fn digit_char(d: int) -> char {
    if d < 10 {
        ((d + 48) as u32) as char
    } else {
        ((d + 87) as u32) as char
    }
}

/// The decimal rendering of `n`, without leading zeros.
pub open spec fn dec_of(n: nat) -> Seq<char>
    decreases n,
{
    if n < 10 {
        seq![digit_char(n as int)]
    } else {
        dec_of(n / 10) + seq![digit_char((n % 10) as int)]
    }
}

/// `k` hexadecimal digits of `n`, most significant first, with leading zeros.
pub open spec fn hex_of(n: nat, k: nat) -> Seq<char>
    decreases k,
{
    if k == 0 {
        Seq::empty()
    } else {
        hex_of(n / 16, (k - 1) as nat) + seq![digit_char((n % 16) as int)]
    }
}

fn digit_char_exec(d: u64) -> (c: char)
    requires
        d < 16,
    ensures
        c == digit_char(d as int),
{
    if d < 10 {
        (((d + 48) as u8) as char)
    } else {
        (((d + 87) as u8) as char)
    }
}

fn dec_rec(n: u64, out: &mut Vec<char>)
    ensures
        final(out)@ =~= old(out)@ + dec_of(n as nat),
    decreases n,
{
    if n < 10 {
        out.push(digit_char_exec(n));
    } else {
        dec_rec(n / 10, out);
        out.push(digit_char_exec(n % 10));
    }
}

/// Render `n` in decimal.
pub fn u64_to_dec(n: u64) -> (r: Vec<char>)
    ensures
        r@ =~= dec_of(n as nat),
{
    let mut out: Vec<char> = Vec::new();
    dec_rec(n, &mut out);
    out
}

fn hex_rec(n: u64, k: u64, out: &mut Vec<char>)
    ensures
        final(out)@ =~= old(out)@ + hex_of(n as nat, k as nat),
    decreases k,
{
    if k > 0 {
        hex_rec(n / 16, k - 1, out);
        out.push(digit_char_exec(n % 16));
    }
}

/// Render `n` as exactly sixteen hexadecimal digits.
pub fn u64_to_hex16(n: u64) -> (r: Vec<char>)
    ensures
        r@ =~= hex_of(n as nat, 16),
{
    let mut out: Vec<char> = Vec::new();
    hex_rec(n, 16, &mut out);
    out
}

/// Every character of a fixed-width hexadecimal rendering is a hex digit.
pub proof fn lemma_hex_of_digits(n: nat, k: nat)
    ensures
        hex_of(n, k).len() == k,
        forall|i: int| 0 <= i < k ==> exists|d: int| 0 <= d < 16 && #[trigger] hex_of(n, k)[i] == digit_char(d),
    decreases k,
{
    if k > 0 {
        lemma_hex_of_digits(n / 16, (k - 1) as nat);
        assert forall|i: int| 0 <= i < k implies exists|d: int| 0 <= d < 16 && #[trigger] hex_of(n, k)[i] == digit_char(d) by {
            if i < k - 1 {
                assert(hex_of(n, k)[i] == hex_of(n / 16, (k - 1) as nat)[i]);
            } else {
                let d = (n % 16) as int;
                assert(0 <= d < 16 && hex_of(n, k)[i] == digit_char(d));
            }
        }
    }
}

proof fn lemma_digit_char_injective(a: int, b: int)
    requires
        0 <= a < 16,
        0 <= b < 16,
        digit_char(a) == digit_char(b),
    ensures
        a == b,
{
}

/// Fixed-width hexadecimal renderings agree only when the numbers agree
/// modulo `16^k`; for sixteen digits of a `u64`, only when they are equal.
pub proof fn lemma_hex_of_injective(n1: nat, n2: nat, k: nat)
    requires
        hex_of(n1, k) =~= hex_of(n2, k),
        n1 < vstd::arithmetic::power::pow(16, k),
        n2 < vstd::arithmetic::power::pow(16, k),
    ensures
        n1 == n2,
    decreases k,
{
    reveal(vstd::arithmetic::power::pow);
    vstd::arithmetic::power::lemma_pow_positive(16, k);
    if k == 0 {
        assert(vstd::arithmetic::power::pow(16, 0) == 1);
    } else {
        let km1 = (k - 1) as nat;
        assert(hex_of(n1, k).last() == digit_char((n1 % 16) as int));
        assert(hex_of(n2, k).last() == digit_char((n2 % 16) as int));
        lemma_digit_char_injective((n1 % 16) as int, (n2 % 16) as int);
        assert(hex_of(n1, k).drop_last() =~= hex_of(n1 / 16, km1)) by {
            lemma_hex_of_digits(n1 / 16, km1);
        }
        assert(hex_of(n2, k).drop_last() =~= hex_of(n2 / 16, km1)) by {
            lemma_hex_of_digits(n2 / 16, km1);
        }
        let p = vstd::arithmetic::power::pow(16, km1);
        vstd::arithmetic::power::lemma_pow_positive(16, km1);
        assert(vstd::arithmetic::power::pow(16, k) == 16 * p);
        assert(n1 / 16 < p && n2 / 16 < p);
        lemma_hex_of_injective(n1 / 16, n2 / 16, km1);
        assert(n1 == 16 * (n1 / 16) + n1 % 16);
        assert(n2 == 16 * (n2 / 16) + n2 % 16);
    }
}

/// The view of a string as a vector of its characters.
pub fn chars_of(s: &str) -> (r: Vec<char>)
    ensures
        r@ =~= s@,
{
    let n = s.unicode_len();
    let mut r: Vec<char> = Vec::new();
    let mut i: usize = 0;
    while i < n
        invariant
            n == s@.len(),
            i <= n,
            r@ =~= s@.subrange(0, i as int),
        decreases n - i,
    {
        r.push(s.get_char(i));
        assert(s@.subrange(0, i + 1 as int) =~= s@.subrange(0, i as int).push(s@[i as int]));
        i = i + 1;
    }
    assert(s@.subrange(0, s@.len() as int) =~= s@);
    r
}

/// Relies on `String::from_iter` over `char`: collecting characters yields
/// the string with exactly those characters.
#[verifier::external_body]
pub fn string_from_chars(v: &Vec<char>) -> (r: String)
    ensures
        r@ =~= v@,
{
    v.iter().collect()
}

/// Compare two string slices by their character sequences.
pub fn str_eq(a: &str, b: &str) -> (r: bool)
    ensures
        r == (a@ == b@),
{
    let na = a.unicode_len();
    let nb = b.unicode_len();
    if na != nb {
        return false;
    }
    let mut i: usize = 0;
    while i < na
        invariant
            na == a@.len() == b@.len(),
            i <= na,
            forall|j: int| 0 <= j < i ==> a@[j] == b@[j],
        decreases na - i,
    {
        if a.get_char(i) != b.get_char(i) {
            return false;
        }
        i = i + 1;
    }
    proof {
        assert(a@ =~= b@);
    }
    true
}

/// Compare two character vectors.
pub fn chars_eq(a: &Vec<char>, b: &Vec<char>) -> (r: bool)
    ensures
        r == (a@ == b@),
{
    if a.len() != b.len() {
        return false;
    }
    let mut i: usize = 0;
    while i < a.len()
        invariant
            a@.len() == b@.len(),
            i <= a@.len(),
            forall|j: int| 0 <= j < i ==> a@[j] == b@[j],
        decreases a.len() - i,
    {
        if a[i] != b[i] {
            return false;
        }
        i = i + 1;
    }
    proof {
        assert(a@ =~= b@);
    }
    true
}

} // verus!
