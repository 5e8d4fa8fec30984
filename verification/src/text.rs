//! Character-sequence functions that the service contracts are written over:
//! whitespace trimming, ASCII case folding, substring search and
//! lexicographic order.
use vstd::prelude::*;

verus! {

/// The characters that count as whitespace when a value is trimmed:
/// the Unicode `White_Space` set.
pub open spec fn is_space(c: char) -> bool {
    ||| c == ' '
    ||| c == '\t'
    ||| c == '\n'
    ||| c == '\r'
    ||| c as int == 0x0B
    ||| c as int == 0x0C
    ||| c as int == 0x85
    ||| c as int == 0xA0
    ||| c as int == 0x1680
    ||| (0x2000 <= c as int && c as int <= 0x200A)
    ||| c as int == 0x2028
    ||| c as int == 0x2029
    ||| c as int == 0x202F
    ||| c as int == 0x205F
    ||| c as int == 0x3000
}

pub fn is_space_char(c: char) -> (r: bool)
    ensures
        r == is_space(c),
{
    let u = c as u32;
    u == 0x20 || u == 0x09 || u == 0x0A || u == 0x0D || u == 0x0B || u == 0x0C || u == 0x85
        || u == 0xA0 || u == 0x1680 || (0x2000 <= u && u <= 0x200A) || u == 0x2028 || u == 0x2029
        || u == 0x202F || u == 0x205F || u == 0x3000
}

/// The sequence with its leading whitespace removed.
pub open spec fn trim_start_spec(s: Seq<char>) -> Seq<char>
    decreases s.len(),
{
    if s.len() == 0 {
        s
    } else if is_space(s[0]) {
        trim_start_spec(s.drop_first())
    } else {
        s
    }
}

/// The sequence with its trailing whitespace removed.
pub open spec fn trim_end_spec(s: Seq<char>) -> Seq<char>
    decreases s.len(),
{
    if s.len() == 0 {
        s
    } else if is_space(s.last()) {
        trim_end_spec(s.drop_last())
    } else {
        s
    }
}

/// The sequence with whitespace removed from both ends; every string input
/// is reduced to this form before it is validated or stored.
pub open spec fn trim_spec(s: Seq<char>) -> Seq<char> {
    trim_end_spec(trim_start_spec(s))
}

proof fn lemma_trim_start_prefix(s: Seq<char>, a: int)
    requires
        0 <= a <= s.len(),
        forall|k: int| 0 <= k < a ==> is_space(s[k]),
        a < s.len() ==> !is_space(s[a]),
    ensures
        trim_start_spec(s) == s.skip(a),
    decreases a,
{
    if a == 0 {
        assert(s.skip(0) =~= s);
    } else {
        assert(is_space(s[0]));
        let t = s.drop_first();
        assert forall|k: int| 0 <= k < a - 1 implies is_space(t[k]) by {
            assert(t[k] == s[k + 1]);
        }
        if a - 1 < t.len() {
            assert(t[a - 1] == s[a]);
        }
        lemma_trim_start_prefix(t, a - 1);
        assert(t.skip(a - 1) =~= s.skip(a));
    }
}

proof fn lemma_trim_end_suffix(s: Seq<char>, b: int)
    requires
        0 <= b <= s.len(),
        forall|k: int| b <= k < s.len() ==> is_space(s[k]),
        b > 0 ==> !is_space(s[b - 1]),
    ensures
        trim_end_spec(s) == s.take(b),
    decreases s.len() - b,
{
    if b == s.len() {
        if s.len() == 0 {
            assert(s.take(0) =~= s);
        } else {
            assert(!is_space(s.last()));
            assert(s.take(b) =~= s);
        }
    } else {
        assert(is_space(s.last()));
        let t = s.drop_last();
        assert forall|k: int| b <= k < t.len() implies is_space(t[k]) by {
            assert(t[k] == s[k]);
        }
        lemma_trim_end_suffix(t, b);
        assert(t.take(b) =~= s.take(b));
    }
}

/// Returns the trimmed copy of a string: leading and trailing whitespace
/// removed, the middle untouched.
pub fn trim_str(s: &str) -> (r: String)
    ensures
        r@ == trim_spec(s@),
{
    let n = s.unicode_len();
    let mut a: usize = 0;
    while a < n && is_space_char(s.get_char(a))
        invariant
            0 <= a <= n,
            n == s@.len(),
            forall|k: int| 0 <= k < a ==> is_space(s@[k]),
        decreases n - a,
    {
        a = a + 1;
    }
    let mut b: usize = n;
    while b > a && is_space_char(s.get_char(b - 1))
        invariant
            a <= b <= n,
            n == s@.len(),
            forall|k: int| b <= k < n ==> is_space(s@[k]),
        decreases b,
    {
        b = b - 1;
    }
    proof {
        lemma_trim_start_prefix(s@, a as int);
        let t = s@.skip(a as int);
        assert forall|k: int| b - a <= k < t.len() implies is_space(t[k]) by {
            assert(t[k] == s@[a + k]);
        }
        if b > a {
            assert(t[b - a - 1] == s@[b - 1]);
        }
        lemma_trim_end_suffix(t, b - a);
        assert(t.take(b - a) =~= s@.subrange(a as int, b as int));
    }
    let sub = s.substring_char(a, b);
    String::from_str(sub)
}

/// The code point a character folds to when upper-case ASCII letters are
/// identified with their lower-case forms.
pub open spec fn fold_char(c: char) -> int {
    if 0x41 <= c as int && c as int <= 0x5A {
        c as int + 0x20
    } else {
        c as int
    }
}

pub fn fold_char_exec(c: char) -> (r: u32)
    ensures
        r as int == fold_char(c),
{
    let u = c as u32;
    if 0x41 <= u && u <= 0x5A {
        u + 0x20
    } else {
        u
    }
}

/// Two sequences are the same name up to ASCII letter case.
pub open spec fn fold_eq(a: Seq<char>, b: Seq<char>) -> bool {
    a.len() == b.len() && forall|i: int| 0 <= i < a.len() ==> fold_char(a[i]) == fold_char(b[i])
}

/// Exact equality of two string slices.
pub fn str_eq(a: &str, b: &str) -> (r: bool)
    ensures
        r == (a@ == b@),
{
    let n = a.unicode_len();
    let m = b.unicode_len();
    if n != m {
        return false;
    }
    let mut i: usize = 0;
    while i < n
        invariant
            0 <= i <= n,
            n == a@.len(),
            n == b@.len(),
            forall|k: int| 0 <= k < i ==> a@[k] == b@[k],
        decreases n - i,
    {
        let ca = a.get_char(i);
        let cb = b.get_char(i);
        if ca != cb {
            return false;
        }
        i = i + 1;
    }
    proof {
        assert(a@ =~= b@);
    }
    true
}

/// Equality of two string slices up to ASCII letter case.
pub fn str_fold_eq(a: &str, b: &str) -> (r: bool)
    ensures
        r == fold_eq(a@, b@),
{
    let n = a.unicode_len();
    let m = b.unicode_len();
    if n != m {
        return false;
    }
    let mut i: usize = 0;
    while i < n
        invariant
            0 <= i <= n,
            n == a@.len(),
            n == b@.len(),
            forall|k: int| 0 <= k < i ==> fold_char(a@[k]) == fold_char(b@[k]),
        decreases n - i,
    {
        let ca = fold_char_exec(a.get_char(i));
        let cb = fold_char_exec(b.get_char(i));
        if ca != cb {
            return false;
        }
        i = i + 1;
    }
    true
}

/// The needle occurs in the haystack starting at position `i`, up to ASCII
/// letter case.
pub open spec fn fold_matches_at(hay: Seq<char>, needle: Seq<char>, i: int) -> bool {
    forall|k: int| 0 <= k < needle.len() ==> fold_char(hay[i + k]) == fold_char(needle[k])
}

/// The needle occurs somewhere in the haystack, up to ASCII letter case.
pub open spec fn contains_fold(hay: Seq<char>, needle: Seq<char>) -> bool {
    exists|i: int| 0 <= i <= hay.len() - needle.len() && fold_matches_at(hay, needle, i)
}

fn matches_at(hay: &str, needle: &str, i: usize, n: usize, m: usize) -> (r: bool)
    requires
        n == hay@.len(),
        m == needle@.len(),
        i + m <= n,
    ensures
        r == fold_matches_at(hay@, needle@, i as int),
{
    let mut k: usize = 0;
    while k < m
        invariant
            0 <= k <= m,
            n == hay@.len(),
            m == needle@.len(),
            i + m <= n,
            forall|k2: int| 0 <= k2 < k ==> fold_char(hay@[i + k2]) == fold_char(needle@[k2]),
        decreases m - k,
    {
        let ch = fold_char_exec(hay.get_char(i + k));
        let cn = fold_char_exec(needle.get_char(k));
        if ch != cn {
            return false;
        }
        k = k + 1;
    }
    true
}

/// Case-insensitive substring search: does the needle occur in the haystack
/// when ASCII letter case is ignored?
pub fn str_contains_fold(hay: &str, needle: &str) -> (r: bool)
    ensures
        r == contains_fold(hay@, needle@),
{
    let n = hay.unicode_len();
    let m = needle.unicode_len();
    if m > n {
        return false;
    }
    let mut i: usize = 0;
    while i <= n - m
        invariant
            0 <= i <= n - m + 1,
            m <= n,
            n == hay@.len(),
            m == needle@.len(),
            forall|i2: int| 0 <= i2 < i ==> !fold_matches_at(hay@, needle@, i2),
        decreases n - m + 1 - i,
    {
        if matches_at(hay, needle, i, n, m) {
            return true;
        }
        i = i + 1;
    }
    false
}

/// Lexicographic order on character sequences by code point: `a` sorts at or
/// before `b`.
pub open spec fn lex_leq(a: Seq<char>, b: Seq<char>) -> bool
    decreases a.len(),
{
    if a.len() == 0 {
        true
    } else if b.len() == 0 {
        false
    } else if (a[0] as int) < (b[0] as int) {
        true
    } else if (a[0] as int) > (b[0] as int) {
        false
    } else {
        lex_leq(a.drop_first(), b.drop_first())
    }
}

proof fn lemma_lex_skip(a: Seq<char>, b: Seq<char>, i: int)
    requires
        0 <= i <= a.len(),
        i <= b.len(),
        forall|k: int| 0 <= k < i ==> a[k] == b[k],
    ensures
        lex_leq(a, b) == lex_leq(a.skip(i), b.skip(i)),
    decreases i,
{
    if i == 0 {
        assert(a.skip(0) =~= a);
        assert(b.skip(0) =~= b);
    } else {
        assert(a[0] == b[0]);
        assert(a.len() > 0 && b.len() > 0);
        let ta = a.drop_first();
        let tb = b.drop_first();
        assert forall|k: int| 0 <= k < i - 1 implies ta[k] == tb[k] by {
            assert(ta[k] == a[k + 1]);
            assert(tb[k] == b[k + 1]);
        }
        lemma_lex_skip(ta, tb, i - 1);
        assert(ta.skip(i - 1) =~= a.skip(i));
        assert(tb.skip(i - 1) =~= b.skip(i));
    }
}

/// Lexicographic comparison of two string slices by code point.
pub fn str_leq(a: &str, b: &str) -> (r: bool)
    ensures
        r == lex_leq(a@, b@),
{
    let n = a.unicode_len();
    let m = b.unicode_len();
    let mut i: usize = 0;
    while i < n && i < m
        invariant
            0 <= i <= n,
            i <= m,
            n == a@.len(),
            m == b@.len(),
            forall|k: int| 0 <= k < i ==> a@[k] == b@[k],
        decreases n - i,
    {
        let ca = a.get_char(i);
        let cb = b.get_char(i);
        if ca != cb {
            proof {
                lemma_lex_skip(a@, b@, i as int);
            }
            return (ca as u32) < (cb as u32);
        }
        i = i + 1;
    }
    proof {
        lemma_lex_skip(a@, b@, i as int);
    }
    i == n
}

/// The character that writes a single decimal digit.
pub open spec fn digit_char(d: int) -> char {
    if d == 0 {
        '0'
    } else if d == 1 {
        '1'
    } else if d == 2 {
        '2'
    } else if d == 3 {
        '3'
    } else if d == 4 {
        '4'
    } else if d == 5 {
        '5'
    } else if d == 6 {
        '6'
    } else if d == 7 {
        '7'
    } else if d == 8 {
        '8'
    } else {
        '9'
    }
}

/// The decimal digits of a non-negative number, most significant first.
pub open spec fn dec_digits(n: int) -> Seq<char>
    decreases n,
{
    if n < 10 {
        seq![digit_char(n)]
    } else {
        dec_digits(n / 10) + seq![digit_char(n % 10)]
    }
}

fn digit_str(d: usize) -> (r: &'static str)
    requires
        d < 10,
    ensures
        r@ =~= seq![digit_char(d as int)],
{
    if d == 0 {
        proof {
            reveal_strlit("0");
        }
        "0"
    } else if d == 1 {
        proof {
            reveal_strlit("1");
        }
        "1"
    } else if d == 2 {
        proof {
            reveal_strlit("2");
        }
        "2"
    } else if d == 3 {
        proof {
            reveal_strlit("3");
        }
        "3"
    } else if d == 4 {
        proof {
            reveal_strlit("4");
        }
        "4"
    } else if d == 5 {
        proof {
            reveal_strlit("5");
        }
        "5"
    } else if d == 6 {
        proof {
            reveal_strlit("6");
        }
        "6"
    } else if d == 7 {
        proof {
            reveal_strlit("7");
        }
        "7"
    } else if d == 8 {
        proof {
            reveal_strlit("8");
        }
        "8"
    } else {
        proof {
            reveal_strlit("9");
        }
        "9"
    }
}

/// Writes a number in decimal.
pub fn usize_to_string(n: usize) -> (r: String)
    ensures
        r@ == dec_digits(n as int),
    decreases n,
{
    if n < 10 {
        String::from_str(digit_str(n))
    } else {
        let mut s = usize_to_string(n / 10);
        s.append(digit_str(n % 10));
        s
    }
}

} // verus!
