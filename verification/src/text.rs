//! Small pieces of text handling the rest of the crate writes its names and
//! figures with: comparing two strings, rendering a count in decimal, and
//! reading one back.

use vstd::prelude::*;

verus! {

/// The character of one decimal digit.
pub open spec fn digit_char(d: int) -> char
    recommends
        0 <= d < 10,
{
    (d + 48) as char
}

/// `n` written in decimal, most significant digit first, with no sign and no
/// leading zeros — what `{}` prints for an unsigned integer.
pub open spec fn decimal(n: nat) -> Seq<char>
    decreases n,
{
    if n < 10 {
        seq![digit_char(n as int)]
    } else {
        decimal(n / 10).push(digit_char((n % 10) as int))
    }
}

/// Whether a character is an ASCII decimal digit.
pub open spec fn is_digit(c: char) -> bool {
    '0' <= c && c <= '9'
}

/// The value of a run of decimal digits, most significant first.
pub open spec fn digits_value(s: Seq<char>) -> nat
    decreases s.len(),
{
    if s.len() == 0 {
        0
    } else {
        digits_value(s.drop_last()) * 10 + ((s.last() as int - 48) as nat)
    }
}

/// `s` without the one `+` it may start with.
pub open spec fn unsigned_digits(s: Seq<char>) -> Seq<char> {
    if s.len() > 0 && s[0] == '+' {
        s.drop_first()
    } else {
        s
    }
}

/// What parsing `s` as a `u32` gives: an optional `+`, then one or more ASCII
/// digits whose value fits in 32 bits. Anything else has no value.
pub open spec fn parse_u32(s: Seq<char>) -> Option<u32> {
    let digits = unsigned_digits(s);
    if digits.len() == 0 || !(forall|i: int| 0 <= i < digits.len() ==> is_digit(#[trigger] digits[i])) {
        None
    } else if digits_value(digits) > u32::MAX {
        None
    } else {
        Some(digits_value(digits) as u32)
    }
}

/// `char::is_whitespace`: the characters with Unicode's `White_Space`
/// property.
pub open spec fn is_space(c: char) -> bool {
    ||| ('\u{9}' <= c && c <= '\u{d}')
    ||| c == ' '
    ||| c == '\u{85}'
    ||| c == '\u{a0}'
    ||| c == '\u{1680}'
    ||| ('\u{2000}' <= c && c <= '\u{200a}')
    ||| c == '\u{2028}'
    ||| c == '\u{2029}'
    ||| c == '\u{202f}'
    ||| c == '\u{205f}'
    ||| c == '\u{3000}'
}

/// Whether every character of `s` is whitespace — what `s.trim().is_empty()`
/// asks.
pub open spec fn all_space(s: Seq<char>) -> bool {
    forall|i: int| 0 <= i < s.len() ==> is_space(#[trigger] s[i])
}

/// The position of the first `c` in `s`, or `s.len()` where there is none.
pub open spec fn first_index(s: Seq<char>, c: char) -> int
    decreases s.len(),
{
    if s.len() == 0 {
        0
    } else if s[0] == c {
        0
    } else {
        1 + first_index(s.drop_first(), c)
    }
}

/// What the first position of `c` is: in range, holding `c` unless it is the
/// end, and with no `c` before it.
pub proof fn first_index_is_first(s: Seq<char>, c: char)
    ensures
        0 <= first_index(s, c) <= s.len(),
        first_index(s, c) < s.len() ==> s[first_index(s, c)] == c,
        forall|j: int| 0 <= j < first_index(s, c) ==> #[trigger] s[j] != c,
    decreases s.len(),
{
    if s.len() > 0 && s[0] != c {
        first_index_is_first(s.drop_first(), c);
        assert forall|j: int| 0 <= j < first_index(s, c) implies #[trigger] s[j] != c by {
            if j > 0 {
                assert(s[j] == s.drop_first()[j - 1]);
            }
        }
    }
}

/// A position with no `c` before it, that either holds `c` or is the end, is
/// the first position of `c`.
pub proof fn first_index_unique(s: Seq<char>, c: char, i: int)
    requires
        0 <= i <= s.len(),
        i < s.len() ==> s[i] == c,
        forall|j: int| 0 <= j < i ==> #[trigger] s[j] != c,
    ensures
        first_index(s, c) == i,
    decreases s.len(),
{
    if s.len() > 0 && i > 0 {
        assert(s[0] != c);
        assert forall|j: int| 0 <= j < i - 1 implies #[trigger] s.drop_first()[j] != c by {
            assert(s.drop_first()[j] == s[j + 1]);
        }
        first_index_unique(s.drop_first(), c, i - 1);
    }
}

/// The first `c` in `v[from..hi]`, as a position in `v`; `hi` where there is
/// none.
pub fn find_char(v: &Vec<char>, from: usize, hi: usize, c: char) -> (r: usize)
    requires
        from <= hi <= v@.len(),
    ensures
        r == from + first_index(v@.subrange(from as int, hi as int), c),
        from <= r <= hi,
{
    let mut i: usize = from;
    while i < hi
        invariant
            from <= i <= hi,
            hi <= v@.len(),
            forall|j: int| from <= j < i ==> #[trigger] v@[j] != c,
        ensures
            from <= i <= hi,
            i < hi ==> v@[i as int] == c,
            forall|j: int| from <= j < i ==> #[trigger] v@[j] != c,
        decreases hi - i,
    {
        if v[i] == c {
            break;
        }
        i = i + 1;
    }
    proof {
        let s = v@.subrange(from as int, hi as int);
        assert forall|j: int| 0 <= j < i - from implies #[trigger] s[j] != c by {
            assert(s[j] == v@[from + j]);
        }
        if i < hi {
            assert(s[i - from] == v@[i as int]);
        }
        first_index_unique(s, c, i - from);
    }
    i
}

/// Whether `v[lo..hi]` is all whitespace.
pub fn all_space_range(v: &Vec<char>, lo: usize, hi: usize) -> (r: bool)
    requires
        lo <= hi <= v@.len(),
    ensures
        r == all_space(v@.subrange(lo as int, hi as int)),
{
    let mut i: usize = lo;
    while i < hi
        invariant
            lo <= i <= hi,
            hi <= v@.len(),
            forall|j: int| lo <= j < i ==> is_space(#[trigger] v@[j]),
        decreases hi - i,
    {
        let c = v[i];
        let space = ('\u{9}' <= c && c <= '\u{d}') || c == ' ' || c == '\u{85}' || c == '\u{a0}'
            || c == '\u{1680}' || ('\u{2000}' <= c && c <= '\u{200a}') || c == '\u{2028}' || c
            == '\u{2029}' || c == '\u{202f}' || c == '\u{205f}' || c == '\u{3000}';
        if !space {
            assert(v@.subrange(lo as int, hi as int)[i - lo] == c);
            return false;
        }
        i = i + 1;
    }
    assert forall|j: int| 0 <= j < hi - lo implies is_space(
        #[trigger] v@.subrange(lo as int, hi as int)[j],
    ) by {
        assert(v@.subrange(lo as int, hi as int)[j] == v@[lo + j]);
    }
    true
}

/// Whether every character of `s` is a decimal digit.
pub open spec fn all_digits(s: Seq<char>) -> bool {
    forall|i: int| 0 <= i < s.len() ==> is_digit(#[trigger] s[i])
}

/// The first three places of a fraction's digits, padded with zeros.
pub open spec fn three_places(frac: Seq<char>) -> Seq<char> {
    Seq::new(3, |j: int| if j < frac.len() { frac[j] } else { '0' })
}

/// A non-negative decimal, in thousandths: an optional `+`, whole digits, and
/// optionally a point and fraction digits, with at least one digit in all.
/// It has a value only where thousandths hold it exactly — any place past the
/// third is zero — and where its whole part is below 10¹².
pub open spec fn parse_milli(s: Seq<char>) -> Option<u64> {
    let t = unsigned_digits(s);
    let d = first_index(t, '.');
    let frac = if d < t.len() {
        t.skip(d + 1)
    } else {
        Seq::empty()
    };
    milli_of(t.take(d), frac)
}

/// The value in thousandths of a decimal written as its whole digits and its
/// fraction digits.
pub open spec fn milli_of(whole: Seq<char>, frac: Seq<char>) -> Option<u64> {
    if whole.len() + frac.len() == 0 || !all_digits(whole) || !all_digits(frac) {
        None
    } else if !zeros_past_three(frac) {
        None
    } else if digits_value(whole) >= 1_000_000_000_000 {
        None
    } else {
        Some((digits_value(whole) * 1000 + digits_value(three_places(frac))) as u64)
    }
}

/// Whether every place of a fraction past the third is zero.
pub open spec fn zeros_past_three(frac: Seq<char>) -> bool {
    forall|i: int| 3 <= i < frac.len() ==> #[trigger] frac[i] == '0'
}

/// Whether `v[lo..hi]` is all digits.
pub fn all_digits_range(v: &Vec<char>, lo: usize, hi: usize) -> (r: bool)
    requires
        lo <= hi <= v@.len(),
    ensures
        r == all_digits(v@.subrange(lo as int, hi as int)),
{
    let mut i: usize = lo;
    while i < hi
        invariant
            lo <= i <= hi,
            hi <= v@.len(),
            forall|j: int| lo <= j < i ==> is_digit(#[trigger] v@[j]),
        decreases hi - i,
    {
        if !('0' <= v[i] && v[i] <= '9') {
            assert(v@.subrange(lo as int, hi as int)[i - lo] == v@[i as int]);
            return false;
        }
        i = i + 1;
    }
    assert forall|j: int| 0 <= j < hi - lo implies is_digit(
        #[trigger] v@.subrange(lo as int, hi as int)[j],
    ) by {
        assert(v@.subrange(lo as int, hi as int)[j] == v@[lo + j]);
    }
    true
}

/// The value of the digits `v[lo..hi]`, where it is below `limit`.
fn value_below(v: &Vec<char>, lo: usize, hi: usize, limit: u64) -> (r: Option<u64>)
    requires
        lo <= hi <= v@.len(),
        all_digits(v@.subrange(lo as int, hi as int)),
        0 < limit <= 1_000_000_000_000_000,
    ensures
        match r {
            Some(x) => x == digits_value(v@.subrange(lo as int, hi as int)) && x < limit,
            None => digits_value(v@.subrange(lo as int, hi as int)) >= limit,
        },
{
    let ghost s = v@.subrange(lo as int, hi as int);
    let mut acc: u64 = 0;
    let mut i: usize = lo;
    assert(s.take(0) =~= Seq::<char>::empty());
    while i < hi
        invariant
            lo <= i <= hi,
            hi <= v@.len(),
            s == v@.subrange(lo as int, hi as int),
            all_digits(s),
            limit <= 1_000_000_000_000_000,
            acc == digits_value(s.take(i - lo)),
            acc < limit,
        decreases hi - i,
    {
        assert(s[i - lo] == v@[i as int]);
        assert(is_digit(s[i - lo]));
        let d = (v[i] as u64) - 48;
        assert(s.take(i - lo + 1).drop_last() =~= s.take(i - lo));
        let w = acc * 10 + d;
        if w >= limit {
            proof {
                lemma_digits_value_monotone(s, i - lo + 1, s.len() as int);
                assert(s.take(s.len() as int) =~= s);
            }
            return None;
        }
        acc = w;
        i = i + 1;
    }
    assert(s.take(hi - lo) =~= s);
    if acc < limit {
        Some(acc)
    } else {
        None
    }
}

/// Whether every place of the fraction `v[lo..hi]` past the third is zero.
fn zeros_past_three_range(v: &Vec<char>, lo: usize, hi: usize) -> (r: bool)
    requires
        lo <= hi <= v@.len(),
    ensures
        r == zeros_past_three(v@.subrange(lo as int, hi as int)),
{
    let ghost f = v@.subrange(lo as int, hi as int);
    let k: usize = if hi - lo > 3 {
        lo + 3
    } else {
        hi
    };
    let mut i: usize = k;
    while i < hi
        invariant
            lo <= k <= i <= hi,
            k == hi || k == lo + 3,
            hi <= v@.len(),
            f == v@.subrange(lo as int, hi as int),
            forall|j: int| k <= j < i ==> #[trigger] v@[j] == '0',
        decreases hi - i,
    {
        if v[i] != '0' {
            assert(f[i - lo] == v@[i as int]);
            return false;
        }
        i = i + 1;
    }
    assert forall|j: int| 3 <= j < f.len() implies #[trigger] f[j] == '0' by {
        assert(f[j] == v@[lo + j]);
    }
    true
}

/// The first three places of the fraction `v[lo..hi]`, in thousandths.
fn three_places_value(v: &Vec<char>, lo: usize, hi: usize) -> (r: u64)
    requires
        lo <= hi <= v@.len(),
        all_digits(v@.subrange(lo as int, hi as int)),
    ensures
        r == digits_value(three_places(v@.subrange(lo as int, hi as int))),
        r < 1000,
{
    let ghost f = v@.subrange(lo as int, hi as int);
    let ghost p = three_places(f);
    let mut places: u64 = 0;
    let mut j: usize = 0;
    assert(p.take(0) =~= Seq::<char>::empty());
    while j < 3
        invariant
            j <= 3,
            lo <= hi <= v@.len(),
            f == v@.subrange(lo as int, hi as int),
            all_digits(f),
            p == three_places(f),
            places == digits_value(p.take(j as int)),
            j == 0 ==> places == 0,
            j == 1 ==> places < 10,
            j == 2 ==> places < 100,
            j == 3 ==> places < 1000,
        decreases 3 - j,
    {
        let c = if j < hi - lo {
            v[lo + j]
        } else {
            '0'
        };
        proof {
            if (j as int) < f.len() {
                assert(f[j as int] == v@[lo + j]);
                assert(is_digit(f[j as int]));
            }
        }
        assert(c == p[j as int]);
        assert(p.take(j as int + 1).drop_last() =~= p.take(j as int));
        places = places * 10 + (c as u64 - 48);
        j = j + 1;
    }
    assert(p.take(3) =~= p);
    places
}

/// The value in thousandths of the whole digits `v[wlo..whi]` and the
/// fraction digits `v[flo..fhi]`.
fn milli_of_ranges(v: &Vec<char>, wlo: usize, whi: usize, flo: usize, fhi: usize) -> (r: Option<
    u64,
>)
    requires
        wlo <= whi <= v@.len(),
        flo <= fhi <= v@.len(),
    ensures
        r == milli_of(v@.subrange(wlo as int, whi as int), v@.subrange(flo as int, fhi as int)),
{
    if whi == wlo && fhi == flo {
        return None;
    }
    if !all_digits_range(v, wlo, whi) || !all_digits_range(v, flo, fhi) {
        return None;
    }
    if !zeros_past_three_range(v, flo, fhi) {
        return None;
    }
    let whole = match value_below(v, wlo, whi, 1_000_000_000_000) {
        Some(x) => x,
        None => return None,
    };
    let places = three_places_value(v, flo, fhi);
    Some(whole * 1000 + places)
}

/// Parse `v[lo..hi]` as a non-negative decimal in thousandths.
pub fn parse_milli_range(v: &Vec<char>, lo: usize, hi: usize) -> (r: Option<u64>)
    requires
        lo <= hi <= v@.len(),
    ensures
        r == parse_milli(v@.subrange(lo as int, hi as int)),
{
    let ghost s = v@.subrange(lo as int, hi as int);
    let ghost t = unsigned_digits(s);
    let start: usize = if lo < hi && v[lo] == '+' {
        lo + 1
    } else {
        lo
    };
    assert(t =~= v@.subrange(start as int, hi as int));
    let d = find_char(v, start, hi, '.');
    assert(t.take(d - start) =~= v@.subrange(start as int, d as int));
    let frac_lo: usize = if d < hi {
        d + 1
    } else {
        hi
    };
    proof {
        let frac = if d - start < t.len() {
            t.skip(d - start + 1)
        } else {
            Seq::<char>::empty()
        };
        assert(frac =~= v@.subrange(frac_lo as int, hi as int));
    }
    milli_of_ranges(v, start, d, frac_lo, hi)
}

/// Whether two strings hold the same characters.
pub fn same_text(a: &str, b: &str) -> (r: bool)
    ensures
        r == (a@ == b@),
{
    let n = a.unicode_len();
    if n != b.unicode_len() {
        return false;
    }
    let mut i: usize = 0;
    while i < n
        invariant
            n == a@.len(),
            n == b@.len(),
            i <= n,
            forall|j: int| 0 <= j < i ==> a@[j] == b@[j],
        decreases n - i,
    {
        if a.get_char(i) != b.get_char(i) {
            return false;
        }
        i = i + 1;
    }
    assert(a@ =~= b@);
    true
}

/// One decimal digit as a string.
fn digit_text(d: u64) -> (s: &'static str)
    requires
        d < 10,
    ensures
        s@ == seq![digit_char(d as int)],
{
    proof {
        reveal_strlit("0");
        reveal_strlit("1");
        reveal_strlit("2");
        reveal_strlit("3");
        reveal_strlit("4");
        reveal_strlit("5");
        reveal_strlit("6");
        reveal_strlit("7");
        reveal_strlit("8");
        reveal_strlit("9");
    }
    if d == 0 {
        "0"
    } else if d == 1 {
        "1"
    } else if d == 2 {
        "2"
    } else if d == 3 {
        "3"
    } else if d == 4 {
        "4"
    } else if d == 5 {
        "5"
    } else if d == 6 {
        "6"
    } else if d == 7 {
        "7"
    } else if d == 8 {
        "8"
    } else {
        "9"
    }
}

/// Append `n` in decimal to `s`.
pub fn push_decimal(s: &mut String, n: u64)
    ensures
        final(s)@ == old(s)@ + decimal(n as nat),
    decreases n,
{
    if n < 10 {
        s.append(digit_text(n));
    } else {
        push_decimal(s, n / 10);
        s.append(digit_text(n % 10));
        assert(old(s)@ + decimal(n as nat) =~= old(s)@ + decimal((n / 10) as nat) + seq![
            digit_char((n % 10) as int),
        ]);
    }
}

/// `n` in decimal.
pub fn decimal_text(n: u64) -> (s: String)
    ensures
        s@ == decimal(n as nat),
{
    let mut s = String::new();
    push_decimal(&mut s, n);
    assert(s@ =~= decimal(n as nat));
    s
}

proof fn lemma_digits_value_monotone(s: Seq<char>, j: int, k: int)
    requires
        0 <= j <= k <= s.len(),
        forall|i: int| 0 <= i < s.len() ==> is_digit(#[trigger] s[i]),
    ensures
        digits_value(s.take(j)) <= digits_value(s.take(k)),
    decreases k - j,
{
    if j < k {
        lemma_digits_value_monotone(s, j, k - 1);
        assert(s.take(k).drop_last() =~= s.take(k - 1));
    }
}

/// The characters of a string, one per element.
pub fn to_chars(t: &str) -> (v: Vec<char>)
    ensures
        v@ == t@,
{
    let n = t.unicode_len();
    let mut v: Vec<char> = Vec::new();
    let mut i: usize = 0;
    while i < n
        invariant
            n == t@.len(),
            i <= n,
            v@ == t@.take(i as int),
        decreases n - i,
    {
        v.push(t.get_char(i));
        assert(v@ =~= t@.take(i as int + 1));
        i = i + 1;
    }
    assert(t@.take(n as int) =~= t@);
    v
}

/// Parse `v[lo..hi]` as a `u32` the way the standard library parses a string.
pub fn parse_u32_range(v: &Vec<char>, lo: usize, hi: usize) -> (r: Option<u32>)
    requires
        lo <= hi <= v@.len(),
    ensures
        r == parse_u32(v@.subrange(lo as int, hi as int)),
{
    let ghost t = v@.subrange(lo as int, hi as int);
    let mut start: usize = lo;
    if lo < hi && v[lo] == '+' {
        start = lo + 1;
    }
    let ghost digits = unsigned_digits(t);
    assert(digits =~= v@.subrange(start as int, hi as int));
    if start == hi {
        return None;
    }
    let mut acc: u32 = 0;
    assert(digits.take(0) =~= Seq::<char>::empty());
    let mut i: usize = start;
    while i < hi
        invariant
            hi <= v@.len(),
            lo <= start <= i <= hi,
            t == v@.subrange(lo as int, hi as int),
            start < hi,
            digits =~= v@.subrange(start as int, hi as int),
            digits == unsigned_digits(t),
            forall|j: int| 0 <= j < i - start ==> is_digit(#[trigger] digits[j]),
            acc == digits_value(digits.take(i - start)),
        decreases hi - i,
    {
        let c = v[i];
        if !('0' <= c && c <= '9') {
            proof {
                let k = i - start;
                assert(digits[k] == v@[i as int]);
                assert(!is_digit(digits[k]));
                assert(!(forall|j: int| 0 <= j < digits.len() ==> is_digit(#[trigger] digits[j])));
            }
            return None;
        }
        let d = (c as u64) - 48;
        assert(digits.take(i - start + 1).drop_last() =~= digits.take(i - start));
        let w: u64 = (acc as u64) * 10 + d;
        if w > 0xffff_ffff {
            proof {
                if forall|j: int| 0 <= j < digits.len() ==> is_digit(#[trigger] digits[j]) {
                    lemma_digits_value_monotone(digits, i - start + 1, digits.len() as int);
                    assert(digits.take(digits.len() as int) =~= digits);
                    assert(digits_value(digits) > u32::MAX);
                }
            }
            return None;
        }
        acc = w as u32;
        i = i + 1;
    }
    assert(digits.take(hi - start) =~= digits);
    Some(acc)
}

/// Parse a string as a `u32` the way the standard library does.
pub fn parse_u32_text(t: &str) -> (r: Option<u32>)
    ensures
        r == parse_u32(t@),
{
    let v = to_chars(t);
    assert(v@.subrange(0, v@.len() as int) =~= t@);
    parse_u32_range(&v, 0, v.len())
}

/// Every character of a decimal rendering is a digit, and reading the digits
/// back gives the number.
proof fn lemma_decimal_digits(n: nat)
    ensures
        decimal(n).len() > 0,
        forall|i: int| 0 <= i < decimal(n).len() ==> is_digit(#[trigger] decimal(n)[i]),
        digits_value(decimal(n)) == n,
    decreases n,
{
    let r = (n % 10) as int;
    assert(digit_char(r) as int == r + 48);
    if n < 10 {
        assert(decimal(n).drop_last() =~= Seq::<char>::empty());
        assert(decimal(n).last() == digit_char(r));
        assert(digits_value(decimal(n)) == digits_value(decimal(n).drop_last()) * 10 + ((
        decimal(n).last() as int - 48) as nat));
    } else {
        lemma_decimal_digits(n / 10);
        let d = decimal(n);
        assert(d.drop_last() =~= decimal(n / 10));
        assert((n / 10) * 10 + n % 10 == n);
        assert(d.last() == digit_char(r));
        assert(digits_value(d) == digits_value(d.drop_last()) * 10 + ((d.last() as int - 48) as nat));
        assert forall|i: int| 0 <= i < d.len() implies is_digit(#[trigger] d[i]) by {
            if i < d.len() - 1 {
                assert(d[i] == decimal(n / 10)[i]);
            }
        }
    }
}

/// `s` padded on the right with spaces to at least `width` characters.
pub open spec fn padded(s: Seq<char>, width: int) -> Seq<char> {
    if s.len() < width {
        s + Seq::new((width - s.len()) as nat, |i: int| ' ')
    } else {
        s
    }
}

/// Pad `s` on the right with spaces to at least `width` characters.
pub fn pad_to(s: &mut String, width: usize)
    ensures
        final(s)@ == padded(old(s)@, width as int),
{
    let ghost bare = s@;
    let mut n: usize = s.as_str().unicode_len();
    while n < width
        invariant
            bare.len() <= n <= width || (n == bare.len() && n >= width),
            s@ == bare + Seq::new((n - bare.len()) as nat, |j: int| ' '),
        decreases width - n,
    {
        s.append(" ");
        proof {
            reveal_strlit(" ");
        }
        assert(s@ =~= bare + Seq::new((n + 1 - bare.len()) as nat, |j: int| ' '));
        n = n + 1;
    }
    assert(s@ =~= padded(bare, width as int));
}

/// **Reading back what was written gives the number.** Any count that fits
/// in 32 bits, rendered in decimal, parses to itself.
pub proof fn decimal_reads_back(n: u32)
    ensures
        parse_u32(decimal(n as nat)) == Some(n),
{
    lemma_decimal_digits(n as nat);
    assert(unsigned_digits(decimal(n as nat)) == decimal(n as nat));
}

} // verus!
