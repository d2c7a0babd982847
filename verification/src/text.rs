//! Character-level helpers over `String` / `&str`, specified on `Seq<char>`.

use vstd::prelude::*;

verus! {

/// Unicode `White_Space`, the property that `char::is_whitespace` tests.
pub open spec fn is_space(c: char) -> bool {
    let u = c as u32;
    (9 <= u && u <= 13) || u == 32 || u == 0x85 || u == 0xA0 || u == 0x1680 || (0x2000 <= u
        && u <= 0x200A) || u == 0x2028 || u == 0x2029 || u == 0x202F || u == 0x205F || u == 0x3000
}

/// `s` without its leading whitespace.
pub open spec fn trim_start(s: Seq<char>) -> Seq<char>
    decreases s.len(),
{
    if s.len() > 0 && is_space(s[0]) {
        trim_start(s.drop_first())
    } else {
        s
    }
}

/// `s` without its trailing whitespace.
pub open spec fn trim_end(s: Seq<char>) -> Seq<char>
    decreases s.len(),
{
    if s.len() > 0 && is_space(s.last()) {
        trim_end(s.drop_last())
    } else {
        s
    }
}

/// What `str::trim` returns: both ends stripped of whitespace.
pub open spec fn trim(s: Seq<char>) -> Seq<char> {
    trim_end(trim_start(s))
}

/// `p` is a prefix of `s`.
pub open spec fn has_prefix(s: Seq<char>, p: Seq<char>) -> bool {
    p.len() <= s.len() && s.take(p.len() as int) == p
}

/// ASCII lowercasing of one character (other characters are kept).
pub open spec fn lower_char(c: char) -> char {
    if 'A' <= c && c <= 'Z' {
        ((c as u32) + 32) as char
    } else {
        c
    }
}

/// ASCII lowercasing; on ASCII text this is what `str::to_lowercase` returns.
pub open spec fn ascii_lower(s: Seq<char>) -> Seq<char> {
    s.map_values(|c: char| lower_char(c))
}

/// Appends one character to a string.
/// Trusted: `String::push` appends `c` at the end of the string (std documentation).
#[verifier::external_body]
pub(crate) fn push_char(s: &mut String, c: char)
    ensures
        final(s)@ == old(s)@.push(c),
{
    s.push(c);
}

/// The characters of `s`, in order.
pub fn chars_of(s: &str) -> (res: Vec<char>)
    ensures
        res@ == s@,
{
    let mut res: Vec<char> = Vec::new();
    for c in it: s.chars()
        invariant
            res@ == it.seq().take(it.index() as int),
            it.seq() == s@,
    {
        res.push(c);
    }
    res
}

/// A new string holding `chars[lo..hi]`.
pub fn string_from_range(chars: &Vec<char>, lo: usize, hi: usize) -> (res: String)
    requires
        lo <= hi <= chars.len(),
    ensures
        res@ == chars@.subrange(lo as int, hi as int),
{
    let mut res = String::new();
    let mut i = lo;
    while i < hi
        invariant
            lo <= i <= hi <= chars.len(),
            res@ == chars@.subrange(lo as int, i as int),
        decreases hi - i,
    {
        push_char(&mut res, chars[i]);
        assert(chars@.subrange(lo as int, i + 1) == chars@.subrange(lo as int, i as int).push(
            chars@[i as int],
        ));
        i = i + 1;
    }
    res
}

/// An owned copy of `s`.
pub fn owned(s: &str) -> (res: String)
    ensures
        res@ == s@,
{
    let c = chars_of(s);
    string_from_range(&c, 0, c.len())
}

/// Appends all of `t` to `s`.
pub fn push_all(s: &mut String, t: &str)
    ensures
        final(s)@ == old(s)@ + t@,
{
    let c = chars_of(t);
    let mut i: usize = 0;
    while i < c.len()
        invariant
            i <= c.len(),
            c@ == t@,
            s@ == old(s)@ + c@.take(i as int),
        decreases c.len() - i,
    {
        push_char(s, c[i]);
        assert(c@.take(i + 1) == c@.take(i as int).push(c@[i as int]));
        i = i + 1;
    }
    assert(c@.take(c.len() as int) == c@);
}

/// Whether `c` is Unicode whitespace (`char::is_whitespace`).
pub fn char_is_space(c: char) -> (res: bool)
    ensures
        res == is_space(c),
{
    let u = c as u32;
    (9 <= u && u <= 13) || u == 32 || u == 0x85 || u == 0xA0 || u == 0x1680 || (0x2000 <= u
        && u <= 0x200A) || u == 0x2028 || u == 0x2029 || u == 0x202F || u == 0x205F || u == 0x3000
}

/// Bounds of `trim(chars[start..end])` inside `chars`.
pub fn trim_bounds(chars: &Vec<char>, start: usize, end: usize) -> (res: (usize, usize))
    requires
        start <= end <= chars.len(),
    ensures
        start <= res.0 <= res.1 <= end,
        chars@.subrange(res.0 as int, res.1 as int) == trim(
            chars@.subrange(start as int, end as int),
        ),
{
    let ghost s = chars@;
    let mut lo = start;
    while lo < end && char_is_space(chars[lo])
        invariant
            start <= lo <= end <= chars.len(),
            s == chars@,
            trim_start(s.subrange(start as int, end as int)) == trim_start(
                s.subrange(lo as int, end as int),
            ),
        decreases end - lo,
    {
        assert(s.subrange(lo as int, end as int).drop_first() == s.subrange(lo + 1, end as int));
        lo = lo + 1;
    }
    assert(trim_start(s.subrange(lo as int, end as int)) == s.subrange(lo as int, end as int));
    let mut hi = end;
    while hi > lo && char_is_space(chars[hi - 1])
        invariant
            start <= lo <= hi <= end <= chars.len(),
            s == chars@,
            trim_end(s.subrange(lo as int, end as int)) == trim_end(
                s.subrange(lo as int, hi as int),
            ),
        decreases hi - lo,
    {
        assert(s.subrange(lo as int, hi as int).drop_last() == s.subrange(lo as int, hi - 1));
        hi = hi - 1;
    }
    assert(trim_end(s.subrange(lo as int, hi as int)) == s.subrange(lo as int, hi as int));
    (lo, hi)
}

/// `s.trim().is_empty()`: the string holds nothing but whitespace.
pub fn is_blank(s: &str) -> (res: bool)
    ensures
        res == (trim(s@).len() == 0),
{
    let c = chars_of(s);
    let (lo, hi) = trim_bounds(&c, 0, c.len());
    assert(c@.subrange(0, c.len() as int) == c@);
    lo == hi
}

/// Whether two character vectors hold the same characters.
pub fn chars_equal(a: &Vec<char>, b: &Vec<char>) -> (res: bool)
    ensures
        res == (a@ == b@),
{
    if a.len() != b.len() {
        return false;
    }
    let mut i: usize = 0;
    while i < a.len()
        invariant
            i <= a.len() == b.len(),
            forall|j: int| 0 <= j < i ==> a@[j] == b@[j],
        decreases a.len() - i,
    {
        if a[i] != b[i] {
            return false;
        }
        i = i + 1;
    }
    assert(a@ =~= b@);
    true
}

/// `a == b` on string slices.
pub fn str_equals(a: &str, b: &str) -> (res: bool)
    ensures
        res == (a@ == b@),
{
    let ca = chars_of(a);
    let cb = chars_of(b);
    chars_equal(&ca, &cb)
}

/// `s.starts_with(p)`.
pub fn starts_with(s: &str, p: &str) -> (res: bool)
    ensures
        res == has_prefix(s@, p@),
{
    let cs = chars_of(s);
    let cp = chars_of(p);
    if cp.len() > cs.len() {
        return false;
    }
    let mut i: usize = 0;
    while i < cp.len()
        invariant
            i <= cp.len() <= cs.len(),
            cs@ == s@,
            cp@ == p@,
            forall|j: int| 0 <= j < i ==> cs@[j] == cp@[j],
        decreases cp.len() - i,
    {
        if cs[i] != cp[i] {
            assert(cs@.take(cp.len() as int)[i as int] == cs@[i as int]);
            assert(cs@.take(cp.len() as int) != cp@);
            return false;
        }
        i = i + 1;
    }
    assert(cs@.take(cp.len() as int) =~= cp@);
    true
}

/// ASCII lowercase copy of `s`.
pub fn to_ascii_lower(s: &str) -> (res: String)
    ensures
        res@ == ascii_lower(s@),
{
    let c = chars_of(s);
    let mut res = String::new();
    let mut i: usize = 0;
    while i < c.len()
        invariant
            i <= c.len(),
            c@ == s@,
            res@ == ascii_lower(c@.take(i as int)),
        decreases c.len() - i,
    {
        let ch = c[i];
        let lc = if 'A' <= ch && ch <= 'Z' {
            (((ch as u32) + 32) as u8) as char
        } else {
            ch
        };
        push_char(&mut res, lc);
        assert(ascii_lower(c@.take(i + 1)) =~= ascii_lower(c@.take(i as int)).push(lower_char(ch)));
        i = i + 1;
    }
    assert(c@.take(c.len() as int) == c@);
    res
}

} // verus!
