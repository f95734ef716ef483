//! Text building blocks: decimal rendering, zero padding, whitespace
//! trimming and character-level string access.

use vstd::prelude::*;
use vstd::string::*;

verus! {

broadcast use vstd::string::group_string_axioms;

/// The character of decimal digit `d` (`0 <= d < 10`).
pub open spec fn digit_char(d: int) -> char {
    (d + 48) as char
}

/// Decimal rendering of `n` without leading zeros (`"0"` for zero).
pub open spec fn digits(n: nat) -> Seq<char>
    decreases n,
{
    if n < 10 {
        seq![digit_char(n as int)]
    } else {
        digits(n / 10).push(digit_char((n % 10) as int))
    }
}

/// `k` zero characters (none when `k <= 0`).
pub open spec fn zeros(k: int) -> Seq<char> {
    Seq::new(if k > 0 { k as nat } else { 0 }, |i: int| '0')
}

/// Decimal rendering of `n`, padded on the left with zeros to at least `w`
/// characters, as `format!("{:0w$}", n)` renders an unsigned integer.
pub open spec fn padded(n: nat, w: int) -> Seq<char> {
    zeros(w - digits(n).len()) + digits(n)
}

/// Decimal rendering of the signed integer `n` with sign-aware zero padding
/// to at least `w` characters, as `format!("{:0w$}", n)` renders it: the
/// minus sign comes first and counts toward the width.
pub open spec fn padded_signed(n: int, w: int) -> Seq<char> {
    if n >= 0 {
        padded(n as nat, w)
    } else {
        seq!['-'] + padded((-n) as nat, w - 1)
    }
}

/// Characters with the Unicode `White_Space` property, the set that
/// `char::is_whitespace` and `str::trim` use.
pub open spec fn is_space(c: char) -> bool {
    let u = c as u32;
    ||| (0x09 <= u && u <= 0x0D)
    ||| u == 0x20
    ||| u == 0x85
    ||| u == 0xA0
    ||| u == 0x1680
    ||| (0x2000 <= u && u <= 0x200A)
    ||| u == 0x2028
    ||| u == 0x2029
    ||| u == 0x202F
    ||| u == 0x205F
    ||| u == 0x3000
}

/// Index of the first non-space character of `s` at or after `i`
/// (`s.len()` when there is none).
pub open spec fn first_non_space(s: Seq<char>, i: int) -> int
    decreases s.len() - i,
{
    if i >= s.len() || !is_space(s[i]) {
        i
    } else {
        first_non_space(s, i + 1)
    }
}

/// One past the index of the last non-space character of `s` before `j`
/// (`lo` when there is none at or after `lo`).
pub open spec fn end_non_space(s: Seq<char>, lo: int, j: int) -> int
    decreases j - lo,
{
    if j <= lo || !is_space(s[j - 1]) {
        j
    } else {
        end_non_space(s, lo, j - 1)
    }
}

/// `s` without leading and trailing whitespace, as `str::trim` returns it.
pub open spec fn trim(s: Seq<char>) -> Seq<char> {
    let lo = first_non_space(s, 0);
    s.subrange(lo, end_non_space(s, lo, s.len() as int))
}

/// Whether `s` holds nothing but whitespace.
pub open spec fn is_blank(s: Seq<char>) -> bool {
    forall|i: int| 0 <= i < s.len() ==> is_space(#[trigger] s[i])
}

/// The decimal digit character of `d`.
pub fn digit(d: u64) -> (c: char)
    requires
        d < 10,
    ensures
        c == digit_char(d as int),
{
    let b: u8 = 48 + d as u8;
    b as char
}

/// Append character `c` to `s` (`String::push`).
#[verifier::external_body]
pub fn push_char(s: &mut String, c: char)
    ensures
        final(s)@ == old(s)@.push(c),
{
    s.push(c)
}

/// Append `t` to `s`.
pub fn push_str(s: &mut String, t: &str)
    ensures
        final(s)@ == old(s)@ + t@,
{
    s.append(t);
}

/// Append the decimal rendering of `n` to `s`.
pub fn push_decimal(s: &mut String, n: u64)
    ensures
        final(s)@ == old(s)@ + digits(n as nat),
    decreases n,
{
    if n >= 10 {
        push_decimal(s, n / 10);
    }
    push_char(s, digit(n % 10));
}

/// `10` to the power `k`.
pub open spec fn pow10(k: nat) -> nat
    decreases k,
{
    if k == 0 {
        1
    } else {
        10 * pow10((k - 1) as nat)
    }
}

proof fn lemma_digits_len(n: nat, k: nat)
    requires
        k >= 1,
        n < pow10(k),
    ensures
        1 <= digits(n).len() <= k,
    decreases n,
{
    if n >= 10 {
        assert(k >= 2) by {
            if k == 1 {
                assert(pow10(1) == 10) by {
                    reveal_with_fuel(pow10, 2);
                }
            }
        }
        assert(n / 10 < pow10((k - 1) as nat));
        lemma_digits_len(n / 10, (k - 1) as nat);
    }
}

/// Number of characters in the decimal rendering of `n`.
pub fn digit_count(n: u64) -> (c: usize)
    ensures
        c == digits(n as nat).len(),
        1 <= c <= 20,
    decreases n,
{
    proof {
        assert(pow10(20) == 100000000000000000000nat) by {
            reveal_with_fuel(pow10, 21);
        }
        lemma_digits_len(n as nat, 20);
    }
    if n >= 10 {
        digit_count(n / 10) + 1
    } else {
        1
    }
}

/// Append `k` zero characters to `s`.
pub fn push_zeros(s: &mut String, k: usize)
    ensures
        final(s)@ == old(s)@ + zeros(k as int),
{
    let ghost start = s@;
    let mut i: usize = 0;
    while i < k
        invariant
            i <= k,
            s@ == start + zeros(i as int),
        decreases k - i,
    {
        push_char(s, '0');
        i = i + 1;
        assert(zeros(i as int) =~= zeros((i - 1) as int).push('0'));
    }
}

/// Append `n` zero-padded to at least `w` characters.
pub fn push_padded(s: &mut String, n: u64, w: usize)
    ensures
        final(s)@ == old(s)@ + padded(n as nat, w as int),
{
    let c = digit_count(n);
    if c < w {
        push_zeros(s, w - c);
    } else {
        push_zeros(s, 0);
        assert(zeros(w - digits(n as nat).len()) =~= zeros(0));
    }
    push_decimal(s, n);
    assert(old(s)@ + zeros(w - digits(n as nat).len()) + digits(n as nat) =~= old(s)@ + padded(
        n as nat,
        w as int,
    ));
}

/// Append the signed integer `n` with sign-aware zero padding to at least
/// `w` characters.
pub fn push_padded_signed(s: &mut String, n: i64, w: usize)
    ensures
        final(s)@ == old(s)@ + padded_signed(n as int, w as int),
{
    if n >= 0 {
        push_padded(s, n as u64, w);
    } else {
        push_char(s, '-');
        let m: u64 = ((-(n + 1)) as u64) + 1;
        assert(m == -n);
        if w >= 1 {
            push_padded(s, m, w - 1);
        } else {
            push_padded(s, m, 0);
            assert(zeros(w - 1 - digits(m as nat).len()) =~= zeros(0 - digits(m as nat).len()));
        }
        assert(old(s)@.push('-') + padded(m as nat, w - 1) =~= old(s)@ + (seq!['-'] + padded(
            m as nat,
            w - 1,
        )));
    }
}

/// The characters of `s`.
pub fn chars_of(s: &str) -> (v: Vec<char>)
    ensures
        v@ == s@,
{
    let n = s.unicode_len();
    let mut v: Vec<char> = Vec::new();
    let mut i: usize = 0;
    while i < n
        invariant
            n == s@.len(),
            i <= n,
            v@ == s@.subrange(0, i as int),
        decreases n - i,
    {
        v.push(s.get_char(i));
        i = i + 1;
        assert(v@ =~= s@.subrange(0, i as int));
    }
    assert(v@ =~= s@);
    v
}

/// A string holding the characters `v[lo..hi]`.
pub fn string_from(v: &Vec<char>, lo: usize, hi: usize) -> (s: String)
    requires
        lo <= hi <= v.len(),
    ensures
        s@ == v@.subrange(lo as int, hi as int),
{
    let mut s = String::new();
    let mut i = lo;
    while i < hi
        invariant
            lo <= i <= hi,
            hi <= v.len(),
            s@ == v@.subrange(lo as int, i as int),
        decreases hi - i,
    {
        push_char(&mut s, v[i]);
        i = i + 1;
        assert(s@ =~= v@.subrange(lo as int, i as int));
    }
    s
}

/// An owned copy of `t`.
pub fn to_owned(t: &str) -> (s: String)
    ensures
        s@ == t@,
{
    let mut s = String::new();
    push_str(&mut s, t);
    assert(s@ =~= t@);
    s
}

/// Whether two strings hold the same characters.
pub fn same_text(a: &str, b: &str) -> (r: bool)
    ensures
        r == (a@ == b@),
{
    let x = chars_of(a);
    let y = chars_of(b);
    if x.len() != y.len() {
        return false;
    }
    let mut i: usize = 0;
    while i < x.len()
        invariant
            x@ == a@,
            y@ == b@,
            x.len() == y.len(),
            i <= x.len(),
            forall|k: int| 0 <= k < i ==> x@[k] == y@[k],
        decreases x.len() - i,
    {
        if x[i] != y[i] {
            return false;
        }
        i = i + 1;
    }
    assert(x@ =~= y@);
    true
}

/// Whether `c` has the Unicode `White_Space` property.
pub fn is_space_char(c: char) -> (r: bool)
    ensures
        r == is_space(c),
{
    let u = c as u32;
    (0x09 <= u && u <= 0x0D) || u == 0x20 || u == 0x85 || u == 0xA0 || u == 0x1680 || (0x2000
        <= u && u <= 0x200A) || u == 0x2028 || u == 0x2029 || u == 0x202F || u == 0x205F || u
        == 0x3000
}

/// The bounds `(lo, hi)` of `v` without leading and trailing whitespace.
pub fn trim_bounds(v: &Vec<char>) -> (r: (usize, usize))
    ensures
        r.0 == first_non_space(v@, 0),
        r.1 == end_non_space(v@, r.0 as int, v.len() as int),
        r.0 <= r.1 <= v.len(),
{
    let mut lo: usize = 0;
    while lo < v.len() && is_space_char(v[lo])
        invariant
            lo <= v.len(),
            first_non_space(v@, 0) == first_non_space(v@, lo as int),
        decreases v.len() - lo,
    {
        lo = lo + 1;
    }
    let mut hi: usize = v.len();
    while hi > lo && is_space_char(v[hi - 1])
        invariant
            lo <= hi <= v.len(),
            end_non_space(v@, lo as int, v.len() as int) == end_non_space(v@, lo as int, hi as int),
        decreases hi,
    {
        hi = hi - 1;
    }
    (lo, hi)
}

/// `s` without leading and trailing whitespace (`str::trim`).
pub fn trimmed(s: &str) -> (r: String)
    ensures
        r@ == trim(s@),
{
    let v = chars_of(s);
    let (lo, hi) = trim_bounds(&v);
    string_from(&v, lo, hi)
}

proof fn lemma_first_non_space_bounds(s: Seq<char>, i: int)
    requires
        0 <= i <= s.len(),
    ensures
        i <= first_non_space(s, i) <= s.len(),
        forall|k: int| i <= k < first_non_space(s, i) ==> is_space(#[trigger] s[k]),
        first_non_space(s, i) < s.len() ==> !is_space(s[first_non_space(s, i)]),
    decreases s.len() - i,
{
    if i < s.len() && is_space(s[i]) {
        lemma_first_non_space_bounds(s, i + 1);
    }
}

proof fn lemma_end_non_space_bounds(s: Seq<char>, lo: int, j: int)
    requires
        0 <= lo <= j <= s.len(),
    ensures
        lo <= end_non_space(s, lo, j) <= j,
        forall|k: int| end_non_space(s, lo, j) <= k < j ==> is_space(#[trigger] s[k]),
        end_non_space(s, lo, j) > lo ==> !is_space(s[end_non_space(s, lo, j) - 1]),
    decreases j - lo,
{
    if j > lo && is_space(s[j - 1]) {
        lemma_end_non_space_bounds(s, lo, j - 1);
    }
}

/// Trimming leaves nothing exactly when the text is all whitespace, and
/// whatever it leaves neither starts nor ends with whitespace.
pub proof fn lemma_trim(s: Seq<char>)
    ensures
        trim(s).len() == 0 <==> is_blank(s),
        trim(s).len() > 0 ==> !is_space(trim(s)[0]) && !is_space(trim(s)[trim(s).len() - 1]),
{
    lemma_first_non_space_bounds(s, 0);
    let lo = first_non_space(s, 0);
    lemma_end_non_space_bounds(s, lo, s.len() as int);
    let hi = end_non_space(s, lo, s.len() as int);
    if trim(s).len() == 0 {
        assert forall|i: int| 0 <= i < s.len() implies is_space(#[trigger] s[i]) by {
            if i >= lo {
                assert(hi == lo);
            }
        }
    }
    if is_blank(s) && lo < s.len() {
        assert(is_space(s[lo]));
    }
}

/// Trimming twice is trimming once.
pub proof fn lemma_trim_idempotent(s: Seq<char>)
    ensures
        trim(trim(s)) == trim(s),
{
    lemma_trim(s);
    let t = trim(s);
    if t.len() == 0 {
        assert(trim(t) =~= t);
    } else {
        assert(first_non_space(t, 0) == 0);
        assert(end_non_space(t, 0, t.len() as int) == t.len());
        assert(trim(t) =~= t);
    }
}

} // verus!

verus! {

/// The lowercase form of `s` that `str::to_lowercase` computes: the Unicode
/// lowercase mapping of its characters, with a capital sigma mapped by its
/// place in a word.
pub uninterp spec fn lowercase(s: Seq<char>) -> Seq<char>;

/// `str::to_lowercase`; its result is named by [`lowercase`].
#[verifier::external_body]
pub fn to_lowercase(s: &str) -> (r: String)
    ensures
        r@ == lowercase(s@),
{
    s.to_lowercase()
}

} // verus!

verus! {

/// A decimal digit character is the ASCII byte `48 + d`.
pub proof fn lemma_digit_char(d: int)
    requires
        0 <= d < 10,
    ensures
        digit_char(d) as u32 == d + 48,
        digit_char(d) as u8 == d + 48,
        '\0' <= digit_char(d) <= '\u{7f}',
{
}

} // verus!

verus! {

/// A number below 100 zero-padded to two places is its tens digit
/// followed by its units digit.
pub proof fn lemma_two_digits(n: nat)
    requires
        n < 100,
    ensures
        padded(n, 2) == seq![digit_char((n / 10) as int), digit_char((n % 10) as int)],
{
    if n < 10 {
        assert(digits(n) == seq![digit_char(n as int)]);
        assert(zeros(1) =~= seq!['0']);
        assert(digit_char(0) == '0');
        assert(padded(n, 2) =~= seq![digit_char((n / 10) as int), digit_char((n % 10) as int)]);
    } else {
        assert(digits(n / 10) == seq![digit_char((n / 10) as int)]);
        assert(zeros(0) =~= Seq::<char>::empty());
        assert(padded(n, 2) =~= seq![digit_char((n / 10) as int), digit_char((n % 10) as int)]);
    }
}

/// A four-digit number needs no padding to four places: its four digits.
pub proof fn lemma_four_digits(n: nat)
    requires
        1000 <= n < 10000,
    ensures
        padded(n, 4) == seq![
            digit_char((n / 1000) as int),
            digit_char(((n / 100) % 10) as int),
            digit_char(((n / 10) % 10) as int),
            digit_char((n % 10) as int),
        ],
{
    let a = n / 10;
    let b = a / 10;
    let c = b / 10;
    assert(c == n / 1000 && b == n / 100 && 1 <= c < 10 && 10 <= b < 100 && 100 <= a < 1000);
    assert(digits(c) == seq![digit_char(c as int)]);
    assert(digits(b) == digits(c).push(digit_char((b % 10) as int)));
    assert(digits(a) == digits(b).push(digit_char((a % 10) as int)));
    assert(digits(n) == digits(a).push(digit_char((n % 10) as int)));
    assert(digits(n).len() == 4);
    assert(zeros(0) =~= Seq::<char>::empty());
    assert(padded(n, 4) =~= seq![
        digit_char((n / 1000) as int),
        digit_char(((n / 100) % 10) as int),
        digit_char(((n / 10) % 10) as int),
        digit_char((n % 10) as int),
    ]);
}

} // verus!

verus! {

/// A number below `10^w` zero-padded to `w` places takes exactly `w`
/// characters.
pub proof fn lemma_padded_len(n: nat, w: nat)
    requires
        w >= 1,
        n < pow10(w),
    ensures
        padded(n, w as int).len() == w,
{
    lemma_digits_len(n, w);
}

} // verus!

verus! {

/// Every character of a decimal rendering is a digit `0`..=`9`.
pub proof fn lemma_digits_chars(n: nat)
    ensures
        forall|i: int| 0 <= i < digits(n).len() ==> 48 <= (#[trigger] digits(n)[i]) as u32 <= 57,
    decreases n,
{
    if n >= 10 {
        lemma_digits_chars(n / 10);
        lemma_digit_char((n % 10) as int);
        assert forall|i: int| 0 <= i < digits(n).len() implies 48 <= (#[trigger] digits(n)[i]) as u32
            <= 57 by {
            if i < digits(n).len() - 1 {
                assert(digits(n)[i] == digits(n / 10)[i]);
            }
        }
    } else {
        lemma_digit_char(n as int);
    }
}

/// A decimal rendering holds no character outside `0`..=`9`.
pub proof fn lemma_digits_lack(n: nat, c: char)
    requires
        !(48 <= c as u32 <= 57),
    ensures
        !digits(n).contains(c),
{
    lemma_digits_chars(n);
    if digits(n).contains(c) {
        let k = choose|k: int| 0 <= k < digits(n).len() && digits(n)[k] == c;
        assert(48 <= digits(n)[k] as u32 <= 57);
    }
}

} // verus!
