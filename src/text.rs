//! Character-level helpers: whitespace, splitting into lines and tokens, and
//! searching for delimiters inside a token.
use vstd::prelude::*;

verus! {

/// The Unicode `White_Space` property.
pub open spec fn is_ws(c: char) -> bool {
    let u = c as u32;
    (0x9 <= u && u <= 0xd) || u == 0x20 || u == 0x85 || u == 0xa0 || u == 0x1680 || (0x2000
        <= u && u <= 0x200a) || u == 0x2028 || u == 0x2029 || u == 0x202f || u == 0x205f || u
        == 0x3000
}

pub fn is_ws_char(c: char) -> (r: bool)
    ensures
        r == is_ws(c),
{
    let u = c as u32;
    (0x9 <= u && u <= 0xd) || u == 0x20 || u == 0x85 || u == 0xa0 || u == 0x1680 || (0x2000
        <= u && u <= 0x200a) || u == 0x2028 || u == 0x2029 || u == 0x202f || u == 0x205f || u
        == 0x3000
}

/// Whether `c` is a Unicode decimal digit (general category `Nd`).
pub uninterp spec fn is_decimal_digit(c: char) -> bool;

/// Relies on regex's `\d` class, which is `\p{Nd}`: matches exactly the decimal digits.
#[verifier::external_body]
pub(crate) fn decimal_digit(c: char) -> (r: bool)
    ensures
        r == is_decimal_digit(c),
        '0' <= c && c <= '9' ==> r,
{
    regex::Regex::new(r"^\d$").unwrap().is_match(&c.to_string())
}

/// Relies on `str::chars` collected into a `Vec`: the characters in order.
#[verifier::external_body]
pub(crate) fn chars_of(s: &str) -> (r: Vec<char>)
    ensures
        r@ == s@,
{
    s.chars().collect()
}

/// Relies on `String: FromIterator<char>`: the string of the characters in order.
#[verifier::external_body]
pub(crate) fn string_of(v: &Vec<char>) -> (r: String)
    ensures
        r@ == v@,
{
    v.iter().collect()
}

/// Appends `s` to `out`.
pub fn append(out: &mut Vec<char>, s: &Vec<char>)
    ensures
        final(out)@ == old(out)@ + s@,
{
    let mut i: usize = 0;
    while i < s.len()
        invariant
            i <= s@.len(),
            out@ == old(out)@ + s@.subrange(0, i as int),
        decreases s@.len() - i,
    {
        out.push(s[i]);
        i = i + 1;
        assert(s@.subrange(0, i as int) == s@.subrange(0, i - 1) .push(s@[i - 1]));
    }
    assert(s@.subrange(0, s@.len() as int) == s@);
}

/// The character sequences held by a sequence of vectors.
pub open spec fn views_of(v: Seq<Vec<char>>) -> Seq<Seq<char>> {
    v.map_values(|x: Vec<char>| x@)
}

/// Drops one trailing carriage return.
pub open spec fn strip_cr(l: Seq<char>) -> Seq<char> {
    if l.len() > 0 && l.last() == '\r' {
        l.drop_last()
    } else {
        l
    }
}

/// Reading `s` left to right: the lines already ended by a line feed, and the
/// characters of the line still open.
pub open spec fn line_scan(s: Seq<char>) -> (Seq<Seq<char>>, Seq<char>)
    decreases s.len(),
{
    if s.len() == 0 {
        (seq![], seq![])
    } else {
        let (done, cur) = line_scan(s.drop_last());
        if s.last() == '\n' {
            (done.push(strip_cr(cur)), seq![])
        } else {
            (done, cur.push(s.last()))
        }
    }
}

/// The lines of `s` as `str::lines` yields them: split at each line feed, a
/// carriage return before the line feed removed, and no empty line after a
/// final line feed.
pub open spec fn lines_of(s: Seq<char>) -> Seq<Seq<char>> {
    let (done, cur) = line_scan(s);
    if cur.len() > 0 {
        done.push(cur)
    } else {
        done
    }
}

/// Reading `s` left to right: the tokens already ended by whitespace, and the
/// characters of the token still open.
pub open spec fn token_scan(s: Seq<char>) -> (Seq<Seq<char>>, Seq<char>)
    decreases s.len(),
{
    if s.len() == 0 {
        (seq![], seq![])
    } else {
        let (done, cur) = token_scan(s.drop_last());
        if is_ws(s.last()) {
            if cur.len() > 0 {
                (done.push(cur), seq![])
            } else {
                (done, seq![])
            }
        } else {
            (done, cur.push(s.last()))
        }
    }
}

/// The maximal runs of non-whitespace characters of `s`, in order, as
/// `str::split_whitespace` yields them.
pub open spec fn tokens_of(s: Seq<char>) -> Seq<Seq<char>> {
    let (done, cur) = token_scan(s);
    if cur.len() > 0 {
        done.push(cur)
    } else {
        done
    }
}

/// Splits `s` into its lines.
pub fn split_lines(s: &Vec<char>) -> (r: Vec<Vec<char>>)
    ensures
        views_of(r@) == lines_of(s@),
{
    let mut done: Vec<Vec<char>> = Vec::new();
    let mut cur: Vec<char> = Vec::new();
    let mut i: usize = 0;
    while i < s.len()
        invariant
            i <= s@.len(),
            (views_of(done@), cur@) == line_scan(s@.subrange(0, i as int)),
        decreases s@.len() - i,
    {
        let ghost pre = s@.subrange(0, i as int);
        assert(s@.subrange(0, i + 1).drop_last() == pre);
        let c = s[i];
        if c == '\n' {
            let n = cur.len();
            if n > 0 && cur[n - 1] == '\r' {
                cur.pop();
            }
            let ghost dv = views_of(done@);
            let ghost cv = cur@;
            done.push(cur);
            assert(views_of(done@) =~= dv.push(cv));
            cur = Vec::new();
        } else {
            cur.push(c);
        }
        i = i + 1;
        assert(views_of(done@) == line_scan(s@.subrange(0, i as int)).0);
    }
    assert(s@.subrange(0, s@.len() as int) == s@);
    if cur.len() > 0 {
        let ghost dv = views_of(done@);
        let ghost cv = cur@;
        done.push(cur);
        assert(views_of(done@) =~= dv.push(cv));
    }
    done
}

/// Splits `s` into its whitespace-delimited tokens.
pub fn split_tokens(s: &Vec<char>) -> (r: Vec<Vec<char>>)
    ensures
        views_of(r@) == tokens_of(s@),
{
    let mut done: Vec<Vec<char>> = Vec::new();
    let mut cur: Vec<char> = Vec::new();
    let mut i: usize = 0;
    while i < s.len()
        invariant
            i <= s@.len(),
            (views_of(done@), cur@) == token_scan(s@.subrange(0, i as int)),
        decreases s@.len() - i,
    {
        let ghost pre = s@.subrange(0, i as int);
        assert(s@.subrange(0, i + 1).drop_last() == pre);
        let c = s[i];
        if is_ws_char(c) {
            if cur.len() > 0 {
                let ghost dv = views_of(done@);
                let ghost cv = cur@;
                done.push(cur);
                assert(views_of(done@) =~= dv.push(cv));
            }
            cur = Vec::new();
        } else {
            cur.push(c);
        }
        i = i + 1;
        assert(views_of(done@) == token_scan(s@.subrange(0, i as int)).0);
    }
    assert(s@.subrange(0, s@.len() as int) == s@);
    if cur.len() > 0 {
        let ghost dv = views_of(done@);
        let ghost cv = cur@;
        done.push(cur);
        assert(views_of(done@) =~= dv.push(cv));
    }
    done
}

/// `d` occurs in `t` starting at position `i`.
pub open spec fn occurs_at(t: Seq<char>, d: Seq<char>, i: int) -> bool {
    0 <= i && i + d.len() <= t.len() && t.subrange(i, i + d.len()) == d
}

/// The first position at or after `i` where `d` occurs in `t`, or -1.
pub open spec fn first_from(t: Seq<char>, d: Seq<char>, i: int) -> int
    decreases t.len() + 1 - i,
{
    if i < 0 || i + d.len() > t.len() {
        -1
    } else if occurs_at(t, d, i) {
        i
    } else {
        first_from(t, d, i + 1)
    }
}

/// The last position below `k` where `d` occurs in `t`, or -1.
pub open spec fn last_below(t: Seq<char>, d: Seq<char>, k: int) -> int
    decreases k,
{
    if k <= 0 {
        -1
    } else if occurs_at(t, d, k - 1) {
        k - 1
    } else {
        last_below(t, d, k - 1)
    }
}

/// A position that `first_from` finds is an occurrence at or after `i`.
pub proof fn lemma_first_from(t: Seq<char>, d: Seq<char>, i: int)
    ensures
        first_from(t, d, i) == -1 || (i <= first_from(t, d, i) && occurs_at(t, d, first_from(t, d, i))),
    decreases t.len() + 1 - i,
{
    if !(i < 0 || i + d.len() > t.len()) && !occurs_at(t, d, i) {
        lemma_first_from(t, d, i + 1);
    }
}

/// A position that `last_below` finds is an occurrence below `k`.
pub proof fn lemma_last_below(t: Seq<char>, d: Seq<char>, k: int)
    ensures
        last_below(t, d, k) == -1 || (last_below(t, d, k) < k && occurs_at(t, d, last_below(t, d, k))),
    decreases k,
{
    if k > 0 && !occurs_at(t, d, k - 1) {
        lemma_last_below(t, d, k - 1);
    }
}

/// The position of the first character at or after `i` that is not whitespace
/// (the length of `t` if there is none).
pub open spec fn skip_ws(t: Seq<char>, i: int) -> int
    decreases t.len() - i,
{
    if 0 <= i < t.len() && is_ws(t[i]) {
        skip_ws(t, i + 1)
    } else {
        i
    }
}

/// The position of the first character at or after `i` that is not a decimal
/// digit (the length of `t` if there is none).
pub open spec fn skip_digits(t: Seq<char>, i: int) -> int
    decreases t.len() - i,
{
    if 0 <= i < t.len() && is_decimal_digit(t[i]) {
        skip_digits(t, i + 1)
    } else {
        i
    }
}

/// Whether `d` occurs in `t` at position `i`.
pub fn occurs_at_pos(t: &Vec<char>, d: &Vec<char>, i: usize) -> (r: bool)
    ensures
        r == occurs_at(t@, d@, i as int),
{
    if i > t.len() || d.len() > t.len() - i {
        return false;
    }
    let n = t.len();
    let mut k: usize = 0;
    while k < d.len()
        invariant
            k <= d@.len(),
            n == t@.len(),
            i + d@.len() <= t@.len(),
            forall|m: int| 0 <= m < k ==> t@[i + m] == d@[m],
        decreases d@.len() - k,
    {
        if t[i + k] != d[k] {
            assert(t@.subrange(i as int, i + d@.len())[k as int] != d@[k as int]);
            return false;
        }
        k = k + 1;
    }
    assert(t@.subrange(i as int, i + d@.len()) =~= d@);
    true
}

/// The first position where `d` occurs in `t`, if any.
pub fn find_first(t: &Vec<char>, d: &Vec<char>) -> (r: Option<usize>)
    ensures
        match r {
            Some(p) => p == first_from(t@, d@, 0) && occurs_at(t@, d@, p as int),
            None => first_from(t@, d@, 0) == -1,
        },
{
    proof {
        lemma_first_from(t@, d@, 0);
    }
    let mut i: usize = 0;
    while i < t.len()
        invariant
            i <= t@.len(),
            first_from(t@, d@, 0) == first_from(t@, d@, i as int),
        decreases t@.len() - i,
    {
        if d.len() > t.len() - i {
            return None;
        }
        if occurs_at_pos(t, d, i) {
            return Some(i);
        }
        i = i + 1;
    }
    if occurs_at_pos(t, d, i) {
        return Some(i);
    }
    assert(first_from(t@, d@, i + 1) == -1);
    None
}

/// The last position below `k` where `d` occurs in `t`, if any.
pub fn find_last_below(t: &Vec<char>, d: &Vec<char>, k: usize) -> (r: Option<usize>)
    ensures
        match r {
            Some(p) => p == last_below(t@, d@, k as int) && p < k && occurs_at(t@, d@, p as int),
            None => last_below(t@, d@, k as int) == -1,
        },
{
    proof {
        lemma_last_below(t@, d@, k as int);
    }
    let mut j: usize = k;
    while j > 0
        invariant
            j <= k,
            last_below(t@, d@, k as int) == last_below(t@, d@, j as int),
        decreases j,
    {
        if occurs_at_pos(t, d, j - 1) {
            return Some(j - 1);
        }
        j = j - 1;
    }
    None
}

/// The position of the first non-whitespace character of `t` at or after `i`.
pub fn skip_ws_from(t: &Vec<char>, i: usize) -> (r: usize)
    requires
        i <= t@.len(),
    ensures
        r == skip_ws(t@, i as int),
        i <= r <= t@.len(),
{
    let mut j: usize = i;
    while j < t.len() && is_ws_char(t[j])
        invariant
            i <= j <= t@.len(),
            skip_ws(t@, i as int) == skip_ws(t@, j as int),
        decreases t@.len() - j,
    {
        j = j + 1;
    }
    j
}

/// The position of the first character of `t` at or after `i` that is not a
/// decimal digit.
pub fn skip_digits_from(t: &Vec<char>, i: usize) -> (r: usize)
    requires
        i <= t@.len(),
    ensures
        r == skip_digits(t@, i as int),
        i <= r <= t@.len(),
{
    let mut j: usize = i;
    while j < t.len() && decimal_digit(t[j])
        invariant
            i <= j <= t@.len(),
            skip_digits(t@, i as int) == skip_digits(t@, j as int),
        decreases t@.len() - j,
    {
        j = j + 1;
    }
    j
}

/// The characters of `t` from `i` up to `j`.
pub fn slice(t: &Vec<char>, i: usize, j: usize) -> (r: Vec<char>)
    requires
        i <= j <= t@.len(),
    ensures
        r@ == t@.subrange(i as int, j as int),
{
    let mut r: Vec<char> = Vec::new();
    let mut k: usize = i;
    while k < j
        invariant
            i <= k <= j <= t@.len(),
            r@ == t@.subrange(i as int, k as int),
        decreases j - k,
    {
        r.push(t[k]);
        k = k + 1;
        assert(t@.subrange(i as int, k as int) == t@.subrange(i as int, k - 1).push(t@[k - 1]));
    }
    r
}

/// Whether the two character sequences are equal.
pub fn same(a: &Vec<char>, b: &Vec<char>) -> (r: bool)
    ensures
        r == (a@ == b@),
{
    if a.len() != b.len() {
        return false;
    }
    let mut k: usize = 0;
    while k < a.len()
        invariant
            k <= a@.len(),
            a@.len() == b@.len(),
            forall|m: int| 0 <= m < k ==> a@[m] == b@[m],
        decreases a@.len() - k,
    {
        if a[k] != b[k] {
            assert(a@[k as int] != b@[k as int]);
            return false;
        }
        k = k + 1;
    }
    assert(a@ =~= b@);
    true
}

} // verus!
