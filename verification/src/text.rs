//! Character-level helpers on strings: whitespace, trimming, substring search.

use vstd::prelude::*;

verus! {

/// The characters with the Unicode `White_Space` property, which is what
/// `char::is_whitespace` tests and what `str::trim` strips.
pub open spec fn is_white_space(c: char) -> bool {
    let u = c as u32;
    ||| (0x9 <= u && u <= 0xD)
    ||| u == 0x20
    ||| u == 0x85
    ||| u == 0xA0
    ||| u == 0x1680
    ||| (0x2000 <= u && u <= 0x200A)
    ||| u == 0x2028
    ||| u == 0x2029
    ||| u == 0x202F
    ||| u == 0x205F
    ||| u == 0x3000
}

/// The lowercase form of `s` that `str::to_lowercase` gives: each character
/// mapped by the Unicode lowercase mapping, with the final-sigma rule.
pub uninterp spec fn lowercase(s: Seq<char>) -> Seq<char>;

/// Every character of `s` is ASCII.
pub open spec fn is_ascii_text(s: Seq<char>) -> bool {
    vstd::utf8::is_ascii_chars(s)
}

/// `c` with an ASCII capital letter turned into its small letter.
pub open spec fn ascii_lower_char(c: char) -> char {
    if 'A' <= c && c <= 'Z' {
        ((c as u32) + 32) as char
    } else {
        c
    }
}

/// `c` with an ASCII small letter turned into its capital letter.
pub open spec fn ascii_upper_char(c: char) -> char {
    if 'a' <= c && c <= 'z' {
        ((c as u32) - 32) as char
    } else {
        c
    }
}

/// `s` with each ASCII capital letter turned small, as `str::to_ascii_lowercase` gives it.
pub open spec fn ascii_lowercase(s: Seq<char>) -> Seq<char> {
    s.map_values(|c: char| ascii_lower_char(c))
}

/// `s` with each ASCII small letter turned capital, as `str::to_ascii_uppercase` gives it.
pub open spec fn ascii_uppercase(s: Seq<char>) -> Seq<char> {
    s.map_values(|c: char| ascii_upper_char(c))
}

/// `str::to_lowercase`: the lowercase form of `s`. Its result is named: it is
/// a function of `s` alone, given by the Unicode tables. For ASCII text, where
/// the Unicode lowercase mapping takes each capital letter to its small letter
/// and leaves every other character as it is, the result is stated.
#[verifier::external_body]
pub(crate) fn to_lowercase(s: &str) -> (r: String)
    ensures
        r@ == lowercase(s@),
        is_ascii_text(s@) ==> r@ == ascii_lowercase(s@),
{
    s.to_lowercase()
}

/// The length in bytes of the UTF-8 encoding of `s`, which is what `str::len` counts.
pub open spec fn byte_len(s: Seq<char>) -> usize {
    vstd::utf8::encode_utf8(s).len() as usize
}

/// `str::len`: the number of bytes of `s`.
pub fn str_byte_len(s: &str) -> (n: usize)
    ensures
        n == byte_len(s@),
{
    s.len()
}

/// `String::push`: appends `c` to `s`.
#[verifier::external_body]
pub(crate) fn string_push(s: &mut String, c: char)
    ensures
        final(s)@ == old(s)@.push(c),
{
    s.push(c)
}

/// `String::pop`: removes the last character of `s`, if there is one, and gives it.
#[verifier::external_body]
pub(crate) fn string_pop(s: &mut String) -> (r: Option<char>)
    ensures
        old(s)@.len() > 0 ==> final(s)@ == old(s)@.drop_last() && r == Some(old(s)@.last()),
        old(s)@.len() == 0 ==> final(s)@ == old(s)@ && r is None,
{
    s.pop()
}

/// `needle` occurs in `hay` starting at position `i`.
pub open spec fn occurs_at(hay: Seq<char>, needle: Seq<char>, i: int) -> bool {
    &&& 0 <= i
    &&& i + needle.len() <= hay.len()
    &&& hay.subrange(i, i + needle.len()) == needle
}

/// `needle` is a contiguous part of `hay` (the empty sequence is part of every one).
pub open spec fn has_substring(hay: Seq<char>, needle: Seq<char>) -> bool {
    exists|i: int| occurs_at(hay, needle, i)
}

/// `k` is the position of the first `c` in `s`.
pub open spec fn is_first_of(s: Seq<char>, c: char, k: int) -> bool {
    &&& 0 <= k < s.len()
    &&& s[k] == c
    &&& forall|j: int| 0 <= j < k ==> s[j] != c
}

/// A string that contains `a + b` contains `a`.
pub proof fn lemma_substring_of_longer(t: Seq<char>, a: Seq<char>, b: Seq<char>)
    requires
        has_substring(t, a + b),
    ensures
        has_substring(t, a),
{
    let i = choose|i: int| occurs_at(t, a + b, i);
    assert(t.subrange(i, i + a.len()) =~= (a + b).subrange(0, a.len() as int));
    assert((a + b).subrange(0, a.len() as int) =~= a);
    assert(occurs_at(t, a, i));
}

/// Whether `c` is white space, as `char::is_whitespace` answers.
pub fn is_white_space_char(c: char) -> (r: bool)
    ensures
        r == is_white_space(c),
{
    let u = c as u32;
    (0x9 <= u && u <= 0xD) || u == 0x20 || u == 0x85 || u == 0xA0 || u == 0x1680 || (0x2000
        <= u && u <= 0x200A) || u == 0x2028 || u == 0x2029 || u == 0x202F || u == 0x205F || u
        == 0x3000
}

/// The characters of `s`, one per element.
pub fn chars_of(s: &str) -> (v: Vec<char>)
    ensures
        v@ == s@,
{
    let n = s.unicode_len();
    let mut v: Vec<char> = Vec::new();
    let mut i: usize = 0;
    while i < n
        invariant
            n == s@.len(),
            i <= n,
            v@ == s@.subrange(0, i as int),
        decreases n - i,
    {
        let c = s.get_char(i);
        v.push(c);
        i = i + 1;
    }
    v
}

/// Whether `needle` occurs in `hay` at `i`, compared character by character.
fn matches_at(hay: &Vec<char>, needle: &Vec<char>, i: usize) -> (r: bool)
    requires
        i + needle@.len() <= hay@.len(),
    ensures
        r == occurs_at(hay@, needle@, i as int),
{
    let hay_len = hay.len();
    let mut j: usize = 0;
    while j < needle.len()
        invariant
            hay_len == hay@.len(),
            i + needle@.len() <= hay@.len(),
            j <= needle@.len(),
            forall|k: int| 0 <= k < j ==> hay@[i + k] == needle@[k],
        decreases needle@.len() - j,
    {
        if hay[i + j] != needle[j] {
            assert(hay@.subrange(i as int, i + needle@.len())[j as int] != needle@[j as int]);
            return false;
        }
        j = j + 1;
    }
    assert(hay@.subrange(i as int, i + needle@.len()) =~= needle@);
    true
}

/// Whether `needle` is a contiguous part of `hay`, as `str::contains` answers
/// for a string pattern.
pub fn contains_substring(hay: &str, needle: &str) -> (r: bool)
    ensures
        r == has_substring(hay@, needle@),
{
    let h = chars_of(hay);
    let n = chars_of(needle);
    if n.len() > h.len() {
        assert forall|i: int| !occurs_at(h@, n@, i) by {}
        return false;
    }
    let last = h.len() - n.len();
    let mut i: usize = 0;
    loop
        invariant
            h@ == hay@,
            n@ == needle@,
            last == h@.len() - n@.len(),
            i <= last,
            forall|k: int| 0 <= k < i ==> !occurs_at(h@, n@, k),
        decreases last - i,
    {
        if matches_at(&h, &n, i) {
            return true;
        }
        if i == last {
            assert forall|k: int| !occurs_at(h@, n@, k) by {}
            return false;
        }
        i = i + 1;
    }
}

/// `s` with its leading white space removed, as `str::trim_start` leaves it.
pub open spec fn trim_start(s: Seq<char>) -> Seq<char>
    decreases s.len(),
{
    if s.len() > 0 && is_white_space(s[0]) {
        trim_start(s.drop_first())
    } else {
        s
    }
}

/// `s` with its trailing white space removed, as `str::trim_end` leaves it.
pub open spec fn trim_end(s: Seq<char>) -> Seq<char>
    decreases s.len(),
{
    if s.len() > 0 && is_white_space(s.last()) {
        trim_end(s.drop_last())
    } else {
        s
    }
}

/// `s` without white space at either end, as `str::trim` leaves it.
pub open spec fn trim(s: Seq<char>) -> Seq<char> {
    trim_end(trim_start(s))
}

/// An ASCII decimal digit, the only digits that `u32::from_str` accepts.
pub open spec fn is_digit(c: char) -> bool {
    '0' <= c && c <= '9'
}

pub open spec fn digit_value(c: char) -> nat {
    (c as u32 - '0' as u32) as nat
}

pub open spec fn all_digits(s: Seq<char>) -> bool {
    forall|i: int| 0 <= i < s.len() ==> is_digit(#[trigger] s[i])
}

/// The number that the decimal digits `s` write, most significant first.
pub open spec fn digits_value(s: Seq<char>) -> nat
    decreases s.len(),
{
    if s.len() == 0 {
        0
    } else {
        digits_value(s.drop_last()) * 10 + digit_value(s.last())
    }
}

/// What `s.parse::<u32>()` gives: an optional `+`, then at least one ASCII
/// digit and nothing else, for a value that fits in a `u32`.
pub open spec fn parse_u32(s: Seq<char>) -> Option<u32> {
    let d = if s.len() > 0 && s[0] == '+' {
        s.drop_first()
    } else {
        s
    };
    if d.len() > 0 && all_digits(d) && digits_value(d) <= u32::MAX {
        Some(digits_value(d) as u32)
    } else {
        None
    }
}

/// Bounds `(a, b)` such that `v[a..b]` is `v[lo..hi]` trimmed of white space.
pub fn trim_bounds(v: &Vec<char>, lo: usize, hi: usize) -> (r: (usize, usize))
    requires
        lo <= hi <= v@.len(),
    ensures
        lo <= r.0 <= r.1 <= hi,
        v@.subrange(r.0 as int, r.1 as int) == trim(v@.subrange(lo as int, hi as int)),
{
    let mut a = lo;
    while a < hi && is_white_space_char(v[a])
        invariant
            lo <= a <= hi <= v@.len(),
            trim_start(v@.subrange(lo as int, hi as int)) == trim_start(
                v@.subrange(a as int, hi as int),
            ),
        decreases hi - a,
    {
        assert(v@.subrange(a as int, hi as int).drop_first() =~= v@.subrange(a + 1, hi as int));
        a = a + 1;
    }
    assert(trim_start(v@.subrange(a as int, hi as int)) == v@.subrange(a as int, hi as int));
    let mut b = hi;
    while b > a && is_white_space_char(v[b - 1])
        invariant
            lo <= a <= b <= hi <= v@.len(),
            trim_start(v@.subrange(lo as int, hi as int)) == v@.subrange(a as int, hi as int),
            trim_end(v@.subrange(a as int, hi as int)) == trim_end(
                v@.subrange(a as int, b as int),
            ),
        decreases b - a,
    {
        assert(v@.subrange(a as int, b as int).drop_last() =~= v@.subrange(a as int, b - 1));
        b = b - 1;
    }
    assert(trim_end(v@.subrange(a as int, b as int)) == v@.subrange(a as int, b as int));
    (a, b)
}

proof fn lemma_digits_value_step(s: Seq<char>, i: int)
    requires
        0 <= i < s.len(),
    ensures
        digits_value(s.subrange(0, i + 1)) == digits_value(s.subrange(0, i)) * 10 + digit_value(
            s[i],
        ),
{
    assert(s.subrange(0, i + 1).drop_last() =~= s.subrange(0, i));
}

/// `v[lo..hi].parse::<u32>()`.
pub fn parse_u32_range(v: &Vec<char>, lo: usize, hi: usize) -> (r: Option<u32>)
    requires
        lo <= hi <= v@.len(),
    ensures
        r == parse_u32(v@.subrange(lo as int, hi as int)),
{
    let ghost s = v@.subrange(lo as int, hi as int);
    let mut start = lo;
    if lo < hi && v[lo] == '+' {
        start = lo + 1;
        assert(s.drop_first() =~= v@.subrange(start as int, hi as int));
    } else {
        assert(s =~= v@.subrange(start as int, hi as int));
    }
    let ghost d = v@.subrange(start as int, hi as int);
    assert(parse_u32(s) == if d.len() > 0 && all_digits(d) && digits_value(d) <= u32::MAX {
        Some(digits_value(d) as u32)
    } else {
        None
    });
    if start == hi {
        return None;
    }
    // `acc` is the value read so far, held at `u32::MAX + 1` once it is larger.
    let cap: u64 = 0x1_0000_0000;
    let mut acc: u64 = 0;
    let mut i = start;
    while i < hi
        invariant
            lo <= start < hi <= v@.len(),
            start <= i <= hi,
            d == v@.subrange(start as int, hi as int),
            s == v@.subrange(lo as int, hi as int),
            parse_u32(s) == if d.len() > 0 && all_digits(d) && digits_value(d) <= u32::MAX {
                Some(digits_value(d) as u32)
            } else {
                None
            },
            cap == 0x1_0000_0000,
            all_digits(d.subrange(0, i - start)),
            acc == if digits_value(d.subrange(0, i - start)) < cap {
                digits_value(d.subrange(0, i - start))
            } else {
                cap as nat
            },
        decreases hi - i,
    {
        let c = v[i];
        if !('0' <= c && c <= '9') {
            assert(d[i - start] == c);
            assert(!is_digit(d[i - start]));
            assert(!all_digits(d));
            return None;
        }
        let dv = (c as u32 - '0' as u32) as u64;
        proof {
            lemma_digits_value_step(d, i - start);
            assert(d[i - start] == c);
            let p = digits_value(d.subrange(0, i - start));
            assert(p < cap ==> p * 10 + dv < cap * 10 + 10) by (nonlinear_arith)
                requires
                    dv <= 9,
            ;
            assert(p >= cap ==> p * 10 + dv >= cap) by (nonlinear_arith)
                requires
                    cap > 0,
            ;
            assert forall|k: int| 0 <= k < i + 1 - start implies is_digit(
                #[trigger] d.subrange(0, i + 1 - start)[k],
            ) by {
                if k < i - start {
                    assert(d.subrange(0, i + 1 - start)[k] == d.subrange(0, i - start)[k]);
                }
            }
        }
        let next = acc * 10 + dv;
        acc = if next < cap {
            next
        } else {
            cap
        };
        i = i + 1;
    }
    assert(d.subrange(0, hi - start) =~= d);
    if acc < cap {
        Some(acc as u32)
    } else {
        None
    }
}

/// Every character of `s` is white space.
pub open spec fn all_white_space(s: Seq<char>) -> bool {
    forall|i: int| 0 <= i < s.len() ==> is_white_space(#[trigger] s[i])
}

/// The ASCII digit for `d < 10`.
pub open spec fn digit_char(d: nat) -> char {
    (('0' as u32) + d) as char
}

/// The decimal numeral for `n`, without leading zeros.
pub open spec fn decimal(n: nat) -> Seq<char>
    decreases n,
{
    if n < 10 {
        seq![digit_char(n)]
    } else {
        decimal(n / 10).push(digit_char(n % 10))
    }
}

/// A decimal numeral is a run of digits that reads back as its number.
pub proof fn lemma_decimal_parses(n: nat)
    ensures
        decimal(n).len() > 0,
        all_digits(decimal(n)),
        digits_value(decimal(n)) == n,
        n <= u32::MAX ==> parse_u32(decimal(n)) == Some(n as u32),
    decreases n,
{
    if n >= 10 {
        lemma_decimal_parses(n / 10);
        let d = decimal(n);
        assert(d.drop_last() =~= decimal(n / 10));
        assert forall|i: int| 0 <= i < d.len() implies is_digit(#[trigger] d[i]) by {
            if i < d.len() - 1 {
                assert(d[i] == decimal(n / 10)[i]);
            }
        }
        assert(d.last() == digit_char(n % 10));
        assert(digit_value(digit_char(n % 10)) == n % 10);
        assert((n / 10) * 10 + n % 10 == n) by (nonlinear_arith);
        assert(is_digit(d[0]));
        assert(digits_value(d) == n);
    } else {
        assert(digit_value(digit_char(n)) == n);
        let d = decimal(n);
        assert(d.drop_last() =~= Seq::<char>::empty());
        assert(digits_value(Seq::<char>::empty()) == 0);
        assert(digits_value(d) == n);
        assert(is_digit(d[0]));
    }
}

/// A run of digits has nothing to trim.
pub proof fn lemma_trim_digits(s: Seq<char>)
    requires
        s.len() > 0,
        all_digits(s),
    ensures
        trim(s) == s,
{
    assert(is_digit(s[0]));
    assert(is_digit(s.last()));
}

proof fn lemma_trim_start_prefix(w: Seq<char>, x: Seq<char>)
    requires
        all_white_space(w),
    ensures
        trim_start(w + x) == trim_start(x),
    decreases w.len(),
{
    if w.len() > 0 {
        assert((w + x)[0] == w[0]);
        assert((w + x).drop_first() =~= w.drop_first() + x);
        lemma_trim_start_prefix(w.drop_first(), x);
    } else {
        assert(w + x =~= x);
    }
}

proof fn lemma_trim_end_suffix(x: Seq<char>, w: Seq<char>)
    requires
        all_white_space(w),
    ensures
        trim_end(x + w) == trim_end(x),
    decreases w.len(),
{
    if w.len() > 0 {
        assert((x + w).last() == w.last());
        assert((x + w).drop_last() =~= x + w.drop_last());
        lemma_trim_end_suffix(x, w.drop_last());
    } else {
        assert(x + w =~= x);
    }
}

proof fn lemma_trim_start_append(x: Seq<char>, w: Seq<char>)
    requires
        all_white_space(w),
    ensures
        trim_start(x).len() > 0 ==> trim_start(x + w) == trim_start(x) + w,
        trim_start(x).len() == 0 ==> trim_start(x + w).len() == 0,
    decreases x.len(),
{
    if x.len() == 0 {
        assert(x + w =~= w);
        lemma_trim_start_prefix(w, Seq::<char>::empty());
        assert(w + Seq::<char>::empty() =~= w);
    } else {
        assert((x + w)[0] == x[0]);
        if is_white_space(x[0]) {
            assert((x + w).drop_first() =~= x.drop_first() + w);
            lemma_trim_start_append(x.drop_first(), w);
        }
    }
}

/// Trimming ignores white space added at either end.
pub proof fn lemma_trim_padding(before: Seq<char>, x: Seq<char>, after: Seq<char>)
    requires
        all_white_space(before),
        all_white_space(after),
    ensures
        trim(before + x + after) == trim(x),
{
    assert(before + x + after =~= before + (x + after));
    lemma_trim_start_prefix(before, x + after);
    lemma_trim_start_append(x, after);
    if trim_start(x).len() > 0 {
        lemma_trim_end_suffix(trim_start(x), after);
    }
}

/// Turning ASCII text to capitals and then to small letters gives what turning
/// it to small letters gives; both forms stay ASCII.
pub proof fn lemma_ascii_case(s: Seq<char>)
    requires
        is_ascii_text(s),
    ensures
        is_ascii_text(ascii_uppercase(s)),
        is_ascii_text(ascii_lowercase(s)),
        ascii_lowercase(ascii_uppercase(s)) == ascii_lowercase(s),
        ascii_lowercase(ascii_lowercase(s)) == ascii_lowercase(s),
{
    assert forall|i: int| 0 <= i < s.len() implies '\0' <= #[trigger] ascii_uppercase(s)[i] <= '\u{7f}' by {
        assert('\0' <= s[i] <= '\u{7f}');
    }
    assert forall|i: int| 0 <= i < s.len() implies '\0' <= #[trigger] ascii_lowercase(s)[i] <= '\u{7f}' by {
        assert('\0' <= s[i] <= '\u{7f}');
    }
    assert(ascii_lowercase(ascii_uppercase(s)) =~= ascii_lowercase(s));
    assert(ascii_lowercase(ascii_lowercase(s)) =~= ascii_lowercase(s));
}

/// Lowering ASCII case goes character by character, so it lowers a joined
/// text part by part.
pub proof fn lemma_ascii_lowercase_add(a: Seq<char>, b: Seq<char>)
    ensures
        ascii_lowercase(a + b) == ascii_lowercase(a) + ascii_lowercase(b),
        is_ascii_text(a) && is_ascii_text(b) ==> is_ascii_text(a + b),
{
    assert(ascii_lowercase(a + b) =~= ascii_lowercase(a) + ascii_lowercase(b));
    if is_ascii_text(a) && is_ascii_text(b) {
        assert forall|i: int| 0 <= i < (a + b).len() implies '\0' <= #[trigger] (a + b)[i] <= '\u{7f}' by {
            if i < a.len() {
                assert((a + b)[i] == a[i]);
            } else {
                assert((a + b)[i] == b[i - a.len()]);
            }
        }
    }
}

} // verus!
