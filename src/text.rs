//! Text helpers with exact specifications: decimal rendering of integers,
//! dot-path splitting and substring search.

use vstd::prelude::*;

verus! {

/// `p` occurs somewhere inside `s` as a contiguous run of characters.
pub open spec fn has_substring(s: Seq<char>, p: Seq<char>) -> bool {
    exists|i: int| 0 <= i && i + p.len() <= s.len() && #[trigger] s.subrange(i, i + p.len()) == p
}

/// Whether `p` occurs in `s`, as `str::contains` answers for a string pattern.
pub fn contains_text(s: &str, p: &str) -> (r: bool)
    ensures
        r == has_substring(s@, p@),
{
    let n = s.unicode_len();
    let m = p.unicode_len();
    if m > n {
        return false;
    }
    if m == 0 {
        assert(s@.subrange(0int, 0int + p@.len()) =~= p@);
        return true;
    }
    let mut i: usize = 0;
    while i <= n - m
        invariant
            n == s@.len(),
            m == p@.len(),
            1 <= m <= n,
            i <= n - m + 1,
            forall|j: int| 0 <= j < i ==> #[trigger] s@.subrange(j, j + m) != p@,
        decreases n - m + 1 - i,
    {
        if text_equal(s.substring_char(i, i + m), p) {
            return true;
        }
        i = i + 1;
    }
    false
}

/// Unicode White_Space, the characters `char::is_whitespace` accepts and
/// `str::trim` removes.
pub open spec fn is_white_space(c: char) -> bool {
    ('\u{9}' <= c && c <= '\u{d}') || c == ' ' || c == '\u{85}' || c == '\u{a0}' || c == '\u{1680}'
        || ('\u{2000}' <= c && c <= '\u{200a}') || c == '\u{2028}' || c == '\u{2029}' || c
        == '\u{202f}' || c == '\u{205f}' || c == '\u{3000}'
}

/// Nothing is left of the text once leading and trailing white space is
/// removed: every character is white space.
pub open spec fn blank_text(s: Seq<char>) -> bool {
    forall|i: int| 0 <= i < s.len() ==> is_white_space(#[trigger] s[i])
}

fn white_space_char(c: char) -> (r: bool)
    ensures
        r == is_white_space(c),
{
    ('\u{9}' <= c && c <= '\u{d}') || c == ' ' || c == '\u{85}' || c == '\u{a0}' || c == '\u{1680}'
        || ('\u{2000}' <= c && c <= '\u{200a}') || c == '\u{2028}' || c == '\u{2029}' || c
        == '\u{202f}' || c == '\u{205f}' || c == '\u{3000}'
}

/// Whether `s.trim()` is empty.
pub fn is_blank(s: &str) -> (r: bool)
    ensures
        r == blank_text(s@),
{
    let n = s.unicode_len();
    let mut i: usize = 0;
    while i < n
        invariant
            n == s@.len(),
            i <= n,
            forall|j: int| 0 <= j < i ==> is_white_space(#[trigger] s@[j]),
        decreases n - i,
    {
        if !white_space_char(s.get_char(i)) {
            return false;
        }
        i = i + 1;
    }
    true
}

/// The ASCII digit for `d` (`d < 10`).
pub open spec fn digit_char(d: nat) -> char {
    (48 + d) as char
}

/// Decimal text of a natural number, without leading zeros.
pub open spec fn nat_text(n: nat) -> Seq<char>
    decreases n,
{
    if n < 10 {
        seq![digit_char(n)]
    } else {
        nat_text(n / 10) + seq![digit_char(n % 10)]
    }
}

/// Decimal text of an integer, with a leading `-` when negative.
pub open spec fn int_text(i: int) -> Seq<char> {
    if i < 0 {
        seq!['-'] + nat_text((-i) as nat)
    } else {
        nat_text(i as nat)
    }
}

fn digit_str(d: u64) -> (r: &'static str)
    requires
        d < 10,
    ensures
        r@ == seq![digit_char(d as nat)],
{
    proof {
        reveal_strlit("0");
        reveal_strlit("1");
        reveal_strlit("2");
        reveal_strlit("3");
        reveal_strlit("4");
        reveal_strlit("5");
        reveal_strlit("6");
        reveal_strlit("7");
        reveal_strlit("8");
        reveal_strlit("9");
    }
    match d {
        0 => "0",
        1 => "1",
        2 => "2",
        3 => "3",
        4 => "4",
        5 => "5",
        6 => "6",
        7 => "7",
        8 => "8",
        _ => "9",
    }
}

fn nat_to_string(n: u64) -> (r: String)
    ensures
        r@ == nat_text(n as nat),
{
    let mut m: u64 = n / 10;
    let mut s = String::from_str(digit_str(n % 10));
    while m > 0
        invariant
            m > 0 ==> nat_text(n as nat) == nat_text(m as nat) + s@,
            m == 0 ==> nat_text(n as nat) == s@,
        decreases m,
    {
        let ghost old_s = s@;
        let t = String::from_str(digit_str(m % 10));
        s = t.concat(s.as_str());
        proof {
            if m >= 10 {
                assert(nat_text(m as nat) == nat_text((m / 10) as nat) + seq![
                    digit_char((m % 10) as nat),
                ]);
                assert(nat_text(n as nat) == nat_text((m / 10) as nat) + s@);
            } else {
                assert(nat_text(n as nat) == s@);
            }
        }
        m = m / 10;
    }
    s
}

/// Decimal text of `n`, as `i64::to_string` writes it.
pub fn int_to_string(n: i64) -> (r: String)
    ensures
        r@ == int_text(n as int),
{
    if n < 0 {
        let mag: u64 = (0i128 - n as i128) as u64;
        let digits = nat_to_string(mag);
        proof {
            reveal_strlit("-");
        }
        String::from_str("-").concat(digits.as_str())
    } else {
        nat_to_string(n as u64)
    }
}

/// The segments of `s` between dots, as `str::split('.')` yields them: one more
/// segment than there are dots, empty segments included.
pub open spec fn split_dots(s: Seq<char>) -> Seq<Seq<char>>
    decreases s.len(),
{
    if s.len() == 0 {
        seq![Seq::empty()]
    } else {
        let parts = split_dots(s.drop_last());
        if s.last() == '.' {
            parts.push(Seq::empty())
        } else {
            parts.update(parts.len() - 1, parts.last().push(s.last()))
        }
    }
}

/// Splits a dotted path into its segments.
pub fn split_path(path: &str) -> (r: Vec<String>)
    ensures
        r@.map_values(|x: String| x@) == split_dots(path@),
{
    let n = path.unicode_len();
    let mut parts: Vec<String> = Vec::new();
    let mut start: usize = 0;
    let mut i: usize = 0;
    proof {
        assert(path@.subrange(0, 0) =~= Seq::<char>::empty());
        assert(parts@.map_values(|x: String| x@) =~= Seq::<Seq<char>>::empty());
        assert(split_dots(path@.subrange(0, 0)) =~= parts@.map_values(|x: String| x@).push(
            path@.subrange(0, 0),
        ));
    }
    while i < n
        invariant
            n == path@.len(),
            start <= i <= n,
            split_dots(path@.subrange(0, i as int)) == parts@.map_values(|x: String| x@).push(
                path@.subrange(start as int, i as int),
            ),
        decreases n - i,
    {
        let c = path.get_char(i);
        proof {
            let pre = path@.subrange(0, i as int + 1);
            assert(pre.drop_last() =~= path@.subrange(0, i as int));
            assert(pre.last() == c);
        }
        if c == '.' {
            let seg = String::from_str(path.substring_char(start, i));
            parts.push(seg);
            start = i + 1;
            proof {
                assert(path@.subrange(start as int, i as int + 1) =~= Seq::<char>::empty());
                assert(split_dots(path@.subrange(0, i as int + 1)) =~= parts@.map_values(
                    |x: String| x@,
                ).push(path@.subrange(start as int, i as int + 1)));
            }
        } else {
            proof {
                assert(path@.subrange(start as int, i as int).push(c) =~= path@.subrange(
                    start as int,
                    i as int + 1,
                ));
                assert(split_dots(path@.subrange(0, i as int + 1)) =~= parts@.map_values(
                    |x: String| x@,
                ).push(path@.subrange(start as int, i as int + 1)));
            }
        }
        i = i + 1;
    }
    let last = String::from_str(path.substring_char(start, n));
    parts.push(last);
    proof {
        assert(path@.subrange(0, n as int) =~= path@);
        assert(parts@.map_values(|x: String| x@) =~= split_dots(path@));
    }
    parts
}

/// Character-wise equality of two strings.
pub fn text_equal(a: &str, b: &str) -> (r: bool)
    ensures
        r == (a@ == b@),
{
    let n = a.unicode_len();
    if n != b.unicode_len() {
        return false;
    }
    let mut i: usize = 0;
    while i < n
        invariant
            n == a@.len() == b@.len(),
            i <= n,
            forall|j: int| 0 <= j < i ==> a@[j] == b@[j],
        decreases n - i,
    {
        if a.get_char(i) != b.get_char(i) {
            return false;
        }
        i = i + 1;
    }
    assert(a@ =~= b@);
    true
}

/// The characters of an optional string.
pub open spec fn opt_text(o: Option<String>) -> Option<Seq<char>> {
    match o {
        Some(s) => Some(s@),
        None => None,
    }
}

/// A copy of an optional string.
pub fn copy_opt(o: &Option<String>) -> (r: Option<String>)
    ensures
        opt_text(r) == opt_text(*o),
{
    match o {
        Some(s) => Some(s.clone()),
        None => None,
    }
}

} // verus!
