//! Text primitives: conversions between `String` and `Vec<char>`, substring
//! search and replacement, all specified over `Seq<char>`.

use vstd::prelude::*;
use vstd::string::StrSliceExecFns;

verus! {

/// Relies on String::push: appends exactly one character at the end.
#[verifier::external_body]
fn push_char(s: &mut String, c: char)
    ensures
        final(s)@ == old(s)@.push(c),
{
    s.push(c);
}

/// The characters of a string slice, as a vector.
pub fn to_chars(s: &str) -> (r: Vec<char>)
    ensures
        r@ == s@,
{
    let n = s.unicode_len();
    let mut v: Vec<char> = Vec::new();
    let mut i: usize = 0;
    while i < n
        invariant
            i <= n,
            n == s@.len(),
            v@ =~= s@.subrange(0, i as int),
        decreases n - i,
    {
        v.push(s.get_char(i));
        i += 1;
    }
    proof {
        assert(v@ =~= s@);
    }
    v
}

/// A string holding exactly the given characters.
pub fn from_chars(v: &Vec<char>) -> (r: String)
    ensures
        r@ == v@,
{
    let mut s = String::new();
    let mut i: usize = 0;
    while i < v.len()
        invariant
            i <= v@.len(),
            s@ =~= v@.subrange(0, i as int),
        decreases v@.len() - i,
    {
        push_char(&mut s, v[i]);
        i += 1;
    }
    proof {
        assert(s@ =~= v@);
    }
    s
}

/// A fresh copy of a character vector.
pub fn copy_chars(v: &Vec<char>) -> (r: Vec<char>)
    ensures
        r@ == v@,
{
    let mut out: Vec<char> = Vec::new();
    let mut i: usize = 0;
    while i < v.len()
        invariant
            i <= v@.len(),
            out@ =~= v@.subrange(0, i as int),
        decreases v@.len() - i,
    {
        out.push(v[i]);
        i += 1;
    }
    proof {
        assert(out@ =~= v@);
    }
    out
}

/// Appends all characters of `src` to `dst`.
pub fn push_all(dst: &mut Vec<char>, src: &Vec<char>)
    ensures
        final(dst)@ == old(dst)@ + src@,
{
    let ghost orig = dst@;
    let mut i: usize = 0;
    while i < src.len()
        invariant
            i <= src@.len(),
            dst@ =~= orig + src@.subrange(0, i as int),
        decreases src@.len() - i,
    {
        dst.push(src[i]);
        i += 1;
    }
    proof {
        assert(dst@ =~= orig + src@);
    }
}

/// Appends the characters `src[a..b]` to `dst`.
pub fn push_range(dst: &mut Vec<char>, src: &Vec<char>, a: usize, b: usize)
    requires
        a <= b <= src@.len(),
    ensures
        final(dst)@ == old(dst)@ + src@.subrange(a as int, b as int),
{
    let ghost orig = dst@;
    let mut i: usize = a;
    while i < b
        invariant
            a <= i <= b <= src@.len(),
            dst@ =~= orig + src@.subrange(a as int, i as int),
        decreases b - i,
    {
        dst.push(src[i]);
        i += 1;
    }
    proof {
        assert(dst@ =~= orig + src@.subrange(a as int, b as int));
    }
}

/// The characters `src[a..b]`, as a fresh vector.
pub fn copy_range(src: &Vec<char>, a: usize, b: usize) -> (r: Vec<char>)
    requires
        a <= b <= src@.len(),
    ensures
        r@ == src@.subrange(a as int, b as int),
{
    let mut out: Vec<char> = Vec::new();
    push_range(&mut out, src, a, b);
    out
}

/// The pattern `p` occurs in `s` starting exactly at index `i`.
pub open spec fn contains_at(s: Seq<char>, i: int, p: Seq<char>) -> bool {
    0 <= i && i + p.len() <= s.len() && s.subrange(i, i + p.len()) == p
}

/// The pattern `p` occurs somewhere in `s`.
pub open spec fn contains_seq(s: Seq<char>, p: Seq<char>) -> bool {
    exists|i: int| contains_at(s, i, p)
}

/// Index of the first occurrence of `p` in `s` at or after `from`.
pub open spec fn spec_find(s: Seq<char>, p: Seq<char>, from: int) -> Option<int>
    decreases s.len() - from,
{
    if from < 0 || from + p.len() > s.len() {
        None
    } else if contains_at(s, from, p) {
        Some(from)
    } else if from < s.len() {
        spec_find(s, p, from + 1)
    } else {
        None
    }
}

/// What `spec_find` returns: the first occurrence at or after `from`,
/// or `None` when there is none.
pub proof fn lemma_spec_find(s: Seq<char>, p: Seq<char>, from: int)
    requires
        0 <= from,
    ensures
        match spec_find(s, p, from) {
            Some(i) => from <= i && contains_at(s, i, p) && forall|j: int|
                from <= j < i ==> !contains_at(s, j, p),
            None => forall|j: int| from <= j ==> !contains_at(s, j, p),
        },
    decreases s.len() - from,
{
    if from + p.len() > s.len() {
        assert forall|j: int| from <= j implies !contains_at(s, j, p) by {}
    } else if contains_at(s, from, p) {
    } else if from < s.len() {
        lemma_spec_find(s, p, from + 1);
    }
}

/// `p` occurs at or after `from` iff `spec_find` returns an index.
pub proof fn lemma_spec_find_exists(s: Seq<char>, p: Seq<char>)
    ensures
        spec_find(s, p, 0) is None ==> !contains_seq(s, p),
        contains_seq(s, p) ==> spec_find(s, p, 0) is Some,
{
    lemma_spec_find(s, p, 0);
    if spec_find(s, p, 0) is None {
        assert forall|i: int| !contains_at(s, i, p) by {
            if 0 <= i {
                assert(!contains_at(s, i, p));
            }
        }
    }
}

/// Whether `pat` occurs in `text` starting exactly at `i`.
pub fn match_at(text: &Vec<char>, pat: &Vec<char>, i: usize) -> (b: bool)
    requires
        i + pat@.len() <= text@.len(),
    ensures
        b == contains_at(text@, i as int, pat@),
{
    let n: usize = text.len();
    let m: usize = pat.len();
    let mut k: usize = 0;
    while k < m
        invariant
            k <= m,
            m == pat@.len(),
            n == text@.len(),
            i + m <= n,
            forall|j: int| 0 <= j < k ==> text@[i + j] == pat@[j],
        decreases m - k,
    {
        if text[i + k] != pat[k] {
            proof {
                assert(text@.subrange(i as int, i + pat@.len())[k as int] != pat@[k as int]);
            }
            return false;
        }
        k += 1;
    }
    proof {
        assert(text@.subrange(i as int, i + pat@.len()) =~= pat@);
    }
    true
}

/// First occurrence of `pat` in `text` at or after `from`, by scanning.
pub fn find_from(text: &Vec<char>, pat: &Vec<char>, from: usize) -> (r: Option<usize>)
    ensures
        match r {
            Some(i) => from <= i && spec_find(text@, pat@, from as int) == Some(i as int),
            None => spec_find(text@, pat@, from as int) is None,
        },
{
    let n: usize = text.len();
    let m: usize = pat.len();
    let mut i: usize = from;
    loop
        invariant
            from <= i,
            n == text@.len(),
            m == pat@.len(),
            spec_find(text@, pat@, from as int) == spec_find(text@, pat@, i as int),
        decreases n + 1 - i,
    {
        if m > n || i > n - m {
            proof {
                assert(spec_find(text@, pat@, i as int) is None);
            }
            return None;
        }
        if match_at(text, pat, i) {
            return Some(i);
        }
        proof {
            if pat@.len() == 0 {
                assert(text@.subrange(i as int, i as int) =~= pat@);
            }
            assert(spec_find(text@, pat@, i as int) == spec_find(text@, pat@, i + 1));
        }
        i += 1;
    }
}

/// `s` with every occurrence of `p` replaced by `t`, scanning left to
/// right; the replacement text is never rescanned.
pub open spec fn spec_replace(s: Seq<char>, p: Seq<char>, t: Seq<char>) -> Seq<char>
    decreases s.len(),
{
    if p.len() == 0 {
        s
    } else {
        match spec_find(s, p, 0) {
            None => s,
            Some(i) => if 0 <= i && i + p.len() <= s.len() && i + p.len() > 0 {
                s.subrange(0, i) + t + spec_replace(s.subrange(i + p.len(), s.len() as int), p, t)
            } else {
                s
            },
        }
    }
}

/// Every occurrence of `pat` in `text` replaced by `to`.
pub fn replace_all(text: &Vec<char>, pat: &Vec<char>, to: &Vec<char>) -> (r: Vec<char>)
    ensures
        r@ == spec_replace(text@, pat@, to@),
{
    if pat.len() == 0 {
        return copy_chars(text);
    }
    let mut acc: Vec<char> = Vec::new();
    let mut rest: Vec<char> = copy_chars(text);
    loop
        invariant
            pat@.len() > 0,
            spec_replace(text@, pat@, to@) == acc@ + spec_replace(rest@, pat@, to@),
        decreases rest@.len(),
    {
        match find_from(&rest, pat, 0) {
            None => {
                push_all(&mut acc, &rest);
                return acc;
            },
            Some(i) => {
                proof {
                    lemma_spec_find(rest@, pat@, 0);
                    assert(contains_at(rest@, i as int, pat@));
                    assert(i + pat@.len() <= rest@.len());
                }
                push_range(&mut acc, &rest, 0, i);
                push_all(&mut acc, to);
                let rl: usize = rest.len();
                let tail = copy_range(&rest, i + pat.len(), rl);
                proof {
                    assert(acc@ + spec_replace(tail@, pat@, to@) =~= spec_replace(
                        text@,
                        pat@,
                        to@,
                    ));
                }
                rest = tail;
            },
        }
    }
}

/// The character for one decimal digit.
pub open spec fn spec_digit_char(d: int) -> char {
    if d == 0 {
        '0'
    } else if d == 1 {
        '1'
    } else if d == 2 {
        '2'
    } else if d == 3 {
        '3'
    } else if d == 4 {
        '4'
    } else if d == 5 {
        '5'
    } else if d == 6 {
        '6'
    } else if d == 7 {
        '7'
    } else if d == 8 {
        '8'
    } else {
        '9'
    }
}

/// Decimal digits of `n`, most significant first.
pub open spec fn spec_digits(n: nat) -> Seq<char>
    decreases n,
{
    let c = spec_digit_char((n % 10) as int);
    if n < 10 {
        seq![c]
    } else {
        spec_digits(n / 10).push(c)
    }
}

fn digit_char(d: u16) -> (c: char)
    requires
        d < 10,
    ensures
        c == spec_digit_char(d as int),
{
    match d {
        0 => '0',
        1 => '1',
        2 => '2',
        3 => '3',
        4 => '4',
        5 => '5',
        6 => '6',
        7 => '7',
        8 => '8',
        _ => '9',
    }
}

/// The decimal representation of a port number.
pub fn u16_digits(n: u16) -> (r: Vec<char>)
    ensures
        r@ == spec_digits(n as nat),
    decreases n,
{
    let c = digit_char(n % 10);
    if n < 10 {
        let mut v: Vec<char> = Vec::new();
        v.push(c);
        proof {
            assert(v@ =~= spec_digits(n as nat));
        }
        v
    } else {
        let mut v = u16_digits(n / 10);
        v.push(c);
        proof {
            assert(v@ =~= spec_digits(n as nat));
        }
        v
    }
}

} // verus!
