//! Character-level text utilities.
//!
//! All parsing and formatting in this crate works over `Vec<char>`, whose
//! view is a `Seq<char>`, the same view that `String` and `&str` have.
//! The helpers here connect the two worlds and give exact specifications
//! for the small set of text operations the rest of the library needs.

use vstd::prelude::*;

verus! {

/// Converts a string slice into the vector of its characters.
pub fn str_to_chars(s: &str) -> (r: Vec<char>)
    ensures
        r@ == s@,
{
    let mut r: Vec<char> = Vec::new();
    for c in it: s.chars()
        invariant
            it.seq() == s@,
            r@ == it.seq().take(it.index()),
    {
        r.push(c);
    }
    proof {
        assert(s@.take(s@.len() as int) =~= s@);
    }
    r
}

/// Builds a `String` from a vector of characters.
///
/// Relies on `String`'s `FromIterator<char>`: the resulting string holds
/// exactly the characters of the iterator, in order.
#[verifier::external_body]
pub fn chars_to_string(v: &Vec<char>) -> (r: String)
    ensures
        r@ == v@,
{
    v.iter().collect()
}

/// ASCII lower-casing of a single character; other characters are unchanged.
pub open spec fn lower_char(c: char) -> char {
    if 'A' <= c && c <= 'Z' {
        (c as u8 + 32) as char
    } else {
        c
    }
}

/// ASCII lower-casing of a character sequence.
pub open spec fn lower(s: Seq<char>) -> Seq<char> {
    s.map_values(|c: char| lower_char(c))
}

/// Lower-cases the ASCII letters of `v`; other characters are unchanged.
pub fn to_lower_vec(v: &Vec<char>) -> (r: Vec<char>)
    ensures
        r@ == lower(v@),
{
    let mut r: Vec<char> = Vec::new();
    let mut i: usize = 0;
    while i < v.len()
        invariant
            i <= v.len(),
            r@ == lower(v@.take(i as int)),
        decreases v.len() - i,
    {
        let c = v[i];
        let lc: char = if 'A' <= c && c <= 'Z' {
            (c as u8 + 32) as char
        } else {
            c
        };
        r.push(lc);
        proof {
            assert(v@.take(i + 1 as int).map_values(|ch: char| lower_char(ch))
                =~= v@.take(i as int).map_values(|ch: char| lower_char(ch)).push(lower_char(v@[i as int])));
        }
        i += 1;
    }
    proof {
        assert(v@.take(v@.len() as int) =~= v@);
    }
    r
}

/// The ASCII whitespace characters this library trims.
pub open spec fn is_space(c: char) -> bool {
    c == ' ' || c == '\t' || c == '\n' || c == '\r'
}

/// `pat` occurs in `s` starting exactly at position `i`.
pub open spec fn match_at(s: Seq<char>, pat: Seq<char>, i: int) -> bool {
    0 <= i && i + pat.len() <= s.len() && s.subrange(i, i + pat.len()) == pat
}

/// Position of the first occurrence of `pat` in `s` at or after `i`.
pub open spec fn find_from(s: Seq<char>, pat: Seq<char>, i: int) -> Option<int>
    decreases s.len() - i + 1,
{
    if i < 0 || i + pat.len() > s.len() {
        None
    } else if match_at(s, pat, i) {
        Some(i)
    } else {
        find_from(s, pat, i + 1)
    }
}

pub open spec fn contains_seq(s: Seq<char>, pat: Seq<char>) -> bool {
    find_from(s, pat, 0) is Some
}

pub proof fn lemma_find_from_bounds(s: Seq<char>, pat: Seq<char>, i: int)
    ensures
        find_from(s, pat, i) matches Some(k) ==> i <= k && k + pat.len() <= s.len()
            && match_at(s, pat, k),
    decreases s.len() - i + 1,
{
    if !(i < 0 || i + pat.len() > s.len()) && !match_at(s, pat, i) {
        lemma_find_from_bounds(s, pat, i + 1);
    }
}

/// Whether `pat` matches `v` at position `i`.
pub fn eq_at(v: &Vec<char>, i: usize, pat: &Vec<char>) -> (b: bool)
    ensures
        b == match_at(v@, pat@, i as int),
{
    if i > v.len() || pat.len() > v.len() - i {
        return false;
    }
    let mut j: usize = 0;
    while j < pat.len()
        invariant
            i + pat.len() <= v.len(),
            j <= pat.len(),
            forall|k: int| 0 <= k < j ==> v@[i + k] == pat@[k],
        decreases pat.len() - j,
    {
        if v[i + j] != pat[j] {
            proof {
                assert(v@.subrange(i as int, i + pat@.len())[j as int] == v@[i + j]);
            }
            return false;
        }
        j += 1;
    }
    proof {
        assert(v@.subrange(i as int, i + pat@.len()) =~= pat@);
    }
    true
}

/// First occurrence of `pat` in `v` at or after `from`.
pub fn find_vec(v: &Vec<char>, pat: &Vec<char>, from: usize) -> (r: Option<usize>)
    ensures
        match r {
            Some(k) => find_from(v@, pat@, from as int) == Some(k as int),
            None => find_from(v@, pat@, from as int) is None,
        },
{
    let mut i: usize = from;
    if pat.len() > v.len() {
        return None;
    }
    if pat.len() == 0 {
        if from <= v.len() {
            proof {
                assert(v@.subrange(from as int, from as int) =~= pat@);
            }
            return Some(from);
        } else {
            return None;
        }
    }
    let stop: usize = v.len() - pat.len();
    if i > stop {
        return None;
    }
    while i <= stop
        invariant
            1 <= pat.len() <= v.len(),
            stop == v.len() - pat.len(),
            i <= stop + 1,
            find_from(v@, pat@, from as int) == find_from(v@, pat@, i as int),
        decreases stop + 1 - i,
    {
        if eq_at(v, i, pat) {
            return Some(i);
        }
        i += 1;
    }
    None
}

pub fn contains_vec(v: &Vec<char>, pat: &Vec<char>) -> (b: bool)
    ensures
        b == contains_seq(v@, pat@),
{
    find_vec(v, pat, 0).is_some()
}

pub fn starts_with_vec(v: &Vec<char>, pat: &Vec<char>) -> (b: bool)
    ensures
        b == match_at(v@, pat@, 0),
{
    eq_at(v, 0, pat)
}

pub fn vec_eq(a: &Vec<char>, b: &Vec<char>) -> (r: bool)
    ensures
        r == (a@ == b@),
{
    if a.len() != b.len() {
        return false;
    }
    let r = eq_at(a, 0, b);
    proof {
        if r {
            assert(a@.subrange(0, b@.len() as int) =~= a@);
        } else {
            assert(a@.subrange(0, b@.len() as int) =~= a@);
        }
    }
    r
}

/// Copy of `v[from..to]`.
pub fn subvec(v: &Vec<char>, from: usize, to: usize) -> (r: Vec<char>)
    requires
        from <= to <= v@.len(),
    ensures
        r@ == v@.subrange(from as int, to as int),
{
    let mut r: Vec<char> = Vec::new();
    let mut i: usize = from;
    while i < to
        invariant
            from <= i <= to <= v@.len(),
            r@ == v@.subrange(from as int, i as int),
        decreases to - i,
    {
        r.push(v[i]);
        proof {
            assert(v@.subrange(from as int, i + 1 as int)
                =~= v@.subrange(from as int, i as int).push(v@[i as int]));
        }
        i += 1;
    }
    r
}

/// Appends all of `src` to `dst`.
pub fn push_all(dst: &mut Vec<char>, src: &Vec<char>)
    ensures
        final(dst)@ == old(dst)@ + src@,
{
    let mut i: usize = 0;
    while i < src.len()
        invariant
            i <= src.len(),
            dst@ == old(dst)@ + src@.take(i as int),
        decreases src.len() - i,
    {
        dst.push(src[i]);
        proof {
            assert(old(dst)@ + src@.take(i + 1 as int)
                =~= (old(dst)@ + src@.take(i as int)).push(src@[i as int]));
        }
        i += 1;
    }
    proof {
        assert(old(dst)@ + src@.take(src@.len() as int) =~= old(dst)@ + src@);
    }
}

/// The sequence with leading and trailing ASCII whitespace removed.
pub open spec fn trim_spec(s: Seq<char>) -> Seq<char>
    decreases s.len(),
{
    if s.len() > 0 && is_space(s[0]) {
        trim_spec(s.drop_first())
    } else if s.len() > 0 && is_space(s.last()) {
        trim_spec(s.drop_last())
    } else {
        s
    }
}

pub fn is_space_char(c: char) -> (b: bool)
    ensures
        b == is_space(c),
{
    c == ' ' || c == '\t' || c == '\n' || c == '\r'
}

pub proof fn lemma_trim_range(s: Seq<char>, i: int, j: int)
    requires
        0 <= i <= j <= s.len(),
        forall|k: int| 0 <= k < i ==> is_space(s[k]),
        forall|k: int| j <= k < s.len() ==> is_space(s[k]),
        i < j ==> !is_space(s[i]) && !is_space(s[j - 1]),
    ensures
        trim_spec(s) == s.subrange(i, j),
    decreases s.len(),
{
    if i == j {
        assert(forall|k: int| 0 <= k < s.len() ==> is_space(s[k]));
        if s.len() > 0 {
            lemma_trim_range(s.drop_first(), 0, 0);
            assert(trim_spec(s) =~= s.subrange(i, j));
        } else {
            assert(trim_spec(s) =~= s.subrange(i, j));
        }
    } else if i > 0 {
        lemma_trim_range(s.drop_first(), i - 1, j - 1);
        assert(s.drop_first().subrange(i - 1, j - 1) =~= s.subrange(i, j));
    } else if j < s.len() {
        lemma_trim_range(s.drop_last(), i, j);
        assert(s.drop_last().subrange(i, j) =~= s.subrange(i, j));
    } else {
        assert(s.subrange(0, s.len() as int) =~= s);
    }
}

/// Copy of `v` with leading and trailing ASCII whitespace removed.
pub fn trim_vec(v: &Vec<char>) -> (r: Vec<char>)
    ensures
        r@ == trim_spec(v@),
{
    let mut i: usize = 0;
    while i < v.len() && is_space_char(v[i])
        invariant
            i <= v.len(),
            forall|k: int| 0 <= k < i ==> is_space(v@[k]),
        decreases v.len() - i,
    {
        i += 1;
    }
    let mut j: usize = v.len();
    while j > i && is_space_char(v[j - 1])
        invariant
            i <= j <= v.len(),
            forall|k: int| j <= k < v@.len() ==> is_space(v@[k]),
        decreases j,
    {
        j -= 1;
    }
    proof {
        lemma_trim_range(v@, i as int, j as int);
    }
    subvec(v, i, j)
}

/// One UTF-8 carriage return stripped from the end, if present.
pub open spec fn strip_cr(s: Seq<char>) -> Seq<char> {
    if s.len() > 0 && s.last() == '\r' {
        s.drop_last()
    } else {
        s
    }
}

/// The lines of `s`, split at `'\n'`, with a `'\r'` before each split point
/// removed; a final line ending is optional, as with `str::lines`.
pub open spec fn lines_acc(s: Seq<char>, cur: Seq<char>) -> Seq<Seq<char>>
    decreases s.len(),
{
    if s.len() == 0 {
        if cur.len() == 0 {
            Seq::empty()
        } else {
            seq![cur]
        }
    } else if s[0] == '\n' {
        seq![strip_cr(cur)] + lines_acc(s.drop_first(), Seq::empty())
    } else {
        lines_acc(s.drop_first(), cur.push(s[0]))
    }
}

pub open spec fn lines_spec(s: Seq<char>) -> Seq<Seq<char>> {
    lines_acc(s, Seq::empty())
}

/// Splits `v` into its lines.
pub fn lines_vec(v: &Vec<char>) -> (r: Vec<Vec<char>>)
    ensures
        r.deep_view() == lines_spec(v@),
{
    let mut r: Vec<Vec<char>> = Vec::new();
    let mut cur: Vec<char> = Vec::new();
    let mut i: usize = 0;
    proof {
        assert(v@.skip(0) =~= v@);
        assert(r.deep_view() =~~= Seq::<Seq<char>>::empty());
        assert(Seq::<Seq<char>>::empty() + lines_acc(v@, Seq::<char>::empty())
            =~= lines_acc(v@, Seq::<char>::empty()));
    }
    while i < v.len()
        invariant
            i <= v.len(),
            lines_spec(v@) == r.deep_view() + lines_acc(v@.skip(i as int), cur@),
        decreases v.len() - i,
    {
        let c = v[i];
        proof {
            assert(v@.skip(i as int).drop_first() =~= v@.skip(i + 1 as int));
            assert(v@.skip(i as int)[0] == v@[i as int]);
        }
        if c == '\n' {
            let ghost cur0 = cur@;
            let ghost r0 = r.deep_view();
            if cur.len() > 0 && cur[cur.len() - 1] == '\r' {
                cur.pop();
            }
            assert(cur@ == strip_cr(cur0));
            r.push(cur);
            cur = Vec::new();
            proof {
                assert(r.deep_view() =~~= r0.push(strip_cr(cur0)));
                assert(r0 + (seq![strip_cr(cur0)] + lines_acc(v@.skip(i + 1 as int), Seq::empty()))
                    =~= r.deep_view() + lines_acc(v@.skip(i + 1 as int), cur@));
            }
        } else {
            cur.push(c);
        }
        i += 1;
    }
    proof {
        assert(v@.skip(v@.len() as int) =~= Seq::<char>::empty());
    }
    if cur.len() > 0 {
        let ghost r0 = r.deep_view();
        let ghost cur0 = cur@;
        r.push(cur);
        proof {
            assert(r.deep_view() =~~= r0.push(cur0));
            assert(r0 + seq![cur0] =~= r0.push(cur0));
        }
    } else {
        proof {
            assert(r.deep_view() + Seq::<Seq<char>>::empty() =~= r.deep_view());
        }
    }
    r
}

pub open spec fn is_digit(c: char) -> bool {
    '0' <= c && c <= '9'
}

pub open spec fn digit_val(c: char) -> int {
    c as u32 - '0' as u32
}

pub open spec fn all_digits(s: Seq<char>) -> bool {
    forall|i: int| 0 <= i < s.len() ==> is_digit(s[i])
}

/// The number denoted by a sequence of decimal digits.
pub open spec fn dec_val(s: Seq<char>) -> int
    decreases s.len(),
{
    if s.len() == 0 {
        0
    } else {
        dec_val(s.drop_last()) * 10 + digit_val(s.last())
    }
}

/// A numeral accepted by `u64::from_str`: an optional `'+'` sign followed by
/// at least one decimal digit.
pub open spec fn numeral_body(s: Seq<char>) -> Seq<char> {
    if s.len() > 0 && s[0] == '+' {
        s.drop_first()
    } else {
        s
    }
}

pub open spec fn is_numeral(s: Seq<char>) -> bool {
    numeral_body(s).len() > 0 && all_digits(numeral_body(s))
}

proof fn lemma_dec_val_grows(s: Seq<char>, i: int)
    requires
        0 <= i <= s.len(),
        all_digits(s),
    ensures
        dec_val(s.take(i)) <= dec_val(s),
    decreases s.len() - i,
{
    if i < s.len() {
        assert(s.take(i + 1).drop_last() =~= s.take(i));
        assert(dec_val(s.take(i + 1)) == dec_val(s.take(i)) * 10 + digit_val(s.take(i + 1).last()));
        assert(dec_val(s.take(i)) >= 0) by {
            lemma_dec_val_nonneg(s.take(i));
        }
        assert(dec_val(s.take(i)) <= dec_val(s.take(i + 1)));
        lemma_dec_val_grows(s, i + 1);
    } else {
        assert(s.take(i) =~= s);
    }
}

proof fn lemma_dec_val_nonneg(s: Seq<char>)
    requires
        all_digits(s),
    ensures
        dec_val(s) >= 0,
    decreases s.len(),
{
    if s.len() > 0 {
        assert(all_digits(s.drop_last()));
        lemma_dec_val_nonneg(s.drop_last());
    }
}

/// Parses `v` as a `u64`, as `u64::from_str` would: an optional `'+'` sign,
/// then decimal digits; fails on anything else and on overflow.
pub fn parse_u64(v: &Vec<char>) -> (r: Option<u64>)
    ensures
        r is Some <==> is_numeral(v@) && dec_val(numeral_body(v@)) <= u64::MAX,
        r matches Some(n) ==> n == dec_val(numeral_body(v@)),
{
    let start: usize = if v.len() > 0 && v[0] == '+' {
        1
    } else {
        0
    };
    proof {
        assert(numeral_body(v@) =~= v@.skip(start as int));
    }
    let ghost body = v@.skip(start as int);
    if v.len() == start {
        return None;
    }
    let mut acc: u64 = 0;
    let mut i: usize = start;
    while i < v.len()
        invariant
            start <= i <= v.len(),
            start < v.len(),
            body == v@.skip(start as int),
            numeral_body(v@) == body,
            all_digits(body.take(i - start)),
            acc == dec_val(body.take(i - start)),
        decreases v.len() - i,
    {
        let c = v[i];
        proof {
            assert(body[i - start] == v@[i as int]);
        }
        if !('0' <= c && c <= '9') {
            proof {
                assert(!is_digit(body[i - start]));
                assert(!all_digits(body));
            }
            return None;
        }
        let d: u64 = (c as u8 - 48) as u64;
        proof {
            assert(d == digit_val(v@[i as int]));
            assert(body.take(i - start + 1).drop_last() =~= body.take(i - start));
        }
        if acc > (u64::MAX - d) / 10 {
            proof {
                assert(all_digits(body.take(i - start + 1)));
                assert(acc * 10 + d > u64::MAX) by {
                    let q = (u64::MAX - d) as int / 10;
                    vstd::arithmetic::div_mod::lemma_fundamental_div_mod((u64::MAX - d) as int, 10);
                    assert(acc >= q + 1);
                    assert(acc * 10 >= (q + 1) * 10) by (nonlinear_arith)
                        requires acc >= q + 1,
                    ;
                };
                assert(dec_val(body.take(i - start + 1))
                    == dec_val(body.take(i - start)) * 10 + digit_val(body[i - start]));
                assert(dec_val(body.take(i - start + 1)) > u64::MAX);
                if all_digits(body) {
                    lemma_dec_val_grows(body, i - start + 1);
                    assert(dec_val(body) > u64::MAX);
                }
            }
            return None;
        }
        acc = acc * 10 + d;
        i += 1;
    }
    proof {
        assert(body.take(v@.len() - start) =~= body);
    }
    Some(acc)
}


pub open spec fn digit_char(d: int) -> char {
    if d == 0 { '0' }
    else if d == 1 { '1' }
    else if d == 2 { '2' }
    else if d == 3 { '3' }
    else if d == 4 { '4' }
    else if d == 5 { '5' }
    else if d == 6 { '6' }
    else if d == 7 { '7' }
    else if d == 8 { '8' }
    else { '9' }
}

fn digit_to_char(d: u64) -> (c: char)
    requires
        d <= 9,
    ensures
        c == digit_char(d as int),
{
    if d == 0 { '0' }
    else if d == 1 { '1' }
    else if d == 2 { '2' }
    else if d == 3 { '3' }
    else if d == 4 { '4' }
    else if d == 5 { '5' }
    else if d == 6 { '6' }
    else if d == 7 { '7' }
    else if d == 8 { '8' }
    else { '9' }
}

/// The decimal digits of `n`, most significant first, no leading zeros
/// (except for `n == 0` itself).
pub open spec fn dec_digits(n: int) -> Seq<char>
    decreases n,
{
    if n < 10 {
        seq![digit_char(n)]
    } else {
        dec_digits(n / 10).push(digit_char(n % 10))
    }
}

/// Formats `n` in decimal, as `{}` formatting of a `u64` would.
pub fn u64_to_dec(n: u64) -> (r: Vec<char>)
    ensures
        r@ == dec_digits(n as int),
{
    let mut rev: Vec<char> = Vec::new();
    rev.push(digit_to_char(n % 10));
    let mut m: u64 = n / 10;
    proof {
        if n < 10 {
            assert(dec_digits(n as int) =~= rev@.reverse());
        } else {
            assert(dec_digits(n as int) =~= dec_digits(n as int / 10) + rev@.reverse());
        }
    }
    while m > 0
        invariant
            rev@.len() > 0,
            dec_digits(n as int) == (if m > 0 {
                dec_digits(m as int) + rev@.reverse()
            } else {
                rev@.reverse()
            }),
        decreases m,
    {
        let ghost rev0 = rev@;
        let ghost m0 = m as int;
        rev.push(digit_to_char(m % 10));
        m = m / 10;
        proof {
            if m0 >= 10 {
                assert(dec_digits(m0 / 10) + rev@.reverse() =~= dec_digits(m0) + rev0.reverse());
            } else {
                assert(rev@.reverse() =~= dec_digits(m0) + rev0.reverse());
            }
        }
    }
    let mut r: Vec<char> = Vec::new();
    let mut i: usize = rev.len();
    while i > 0
        invariant
            i <= rev.len(),
            r@ == rev@.reverse().take(rev@.len() - i),
        decreases i,
    {
        i -= 1;
        r.push(rev[i]);
        proof {
            assert(rev@.reverse()[rev@.len() - i - 1] == rev@[i as int]);
            assert(rev@.reverse().take(rev@.len() - i)
                =~= rev@.reverse().take(rev@.len() - i - 1).push(rev@[i as int]));
        }
    }
    proof {
        assert(rev@.reverse().take(rev@.len() as int) =~= rev@.reverse());
    }
    r
}

/// Two-digit zero-padded decimal, for values below 100.
pub open spec fn pad2(n: int) -> Seq<char> {
    seq![digit_char(n / 10 % 10), digit_char(n % 10)]
}

/// Four-digit zero-padded decimal, for values below 10000.
pub open spec fn pad4(n: int) -> Seq<char> {
    seq![
        digit_char(n / 1000 % 10),
        digit_char(n / 100 % 10),
        digit_char(n / 10 % 10),
        digit_char(n % 10),
    ]
}

pub fn u64_to_pad2(n: u64) -> (r: Vec<char>)
    requires
        n < 100,
    ensures
        r@ == pad2(n as int),
{
    let mut r: Vec<char> = Vec::new();
    r.push(digit_to_char(n / 10 % 10));
    r.push(digit_to_char(n % 10));
    proof {
        assert(r@ =~= pad2(n as int));
    }
    r
}

pub fn u64_to_pad4(n: u64) -> (r: Vec<char>)
    requires
        n < 10000,
    ensures
        r@ == pad4(n as int),
{
    let mut r: Vec<char> = Vec::new();
    r.push(digit_to_char(n / 1000 % 10));
    r.push(digit_to_char(n / 100 % 10));
    r.push(digit_to_char(n / 10 % 10));
    r.push(digit_to_char(n % 10));
    proof {
        assert(r@ =~= pad4(n as int));
    }
    r
}

pub open spec fn hex_char(d: int) -> char {
    if d < 10 {
        digit_char(d)
    } else if d == 10 { 'a' }
    else if d == 11 { 'b' }
    else if d == 12 { 'c' }
    else if d == 13 { 'd' }
    else if d == 14 { 'e' }
    else { 'f' }
}

pub fn nibble_to_char(d: u64) -> (c: char)
    requires
        d <= 15,
    ensures
        c == hex_char(d as int),
{
    if d < 10 {
        digit_to_char(d)
    } else if d == 10 { 'a' }
    else if d == 11 { 'b' }
    else if d == 12 { 'c' }
    else if d == 13 { 'd' }
    else if d == 14 { 'e' }
    else { 'f' }
}

/// Four-digit zero-padded lower-case hexadecimal, for values below 0x10000.
pub open spec fn hex4(n: int) -> Seq<char> {
    seq![
        hex_char(n / 4096 % 16),
        hex_char(n / 256 % 16),
        hex_char(n / 16 % 16),
        hex_char(n % 16),
    ]
}

pub fn u64_to_hex4(n: u64) -> (r: Vec<char>)
    requires
        n < 0x10000,
    ensures
        r@ == hex4(n as int),
{
    let mut r: Vec<char> = Vec::new();
    r.push(nibble_to_char(n / 4096 % 16));
    r.push(nibble_to_char(n / 256 % 16));
    r.push(nibble_to_char(n / 16 % 16));
    r.push(nibble_to_char(n % 16));
    proof {
        assert(r@ =~= hex4(n as int));
    }
    r
}

/// Joining parts with a separator.
pub open spec fn join_with(parts: Seq<Seq<char>>, sep: Seq<char>) -> Seq<char>
    decreases parts.len(),
{
    if parts.len() == 0 {
        Seq::empty()
    } else if parts.len() == 1 {
        parts[0]
    } else {
        parts[0] + sep + join_with(parts.drop_first(), sep)
    }
}

pub proof fn lemma_join_push(parts: Seq<Seq<char>>, sep: Seq<char>, x: Seq<char>)
    ensures
        join_with(parts.push(x), sep) == if parts.len() == 0 {
            x
        } else {
            join_with(parts, sep) + sep + x
        },
    decreases parts.len(),
{
    if parts.len() == 0 {
        assert(parts.push(x)[0] == x);
    } else if parts.len() == 1 {
        assert(parts.push(x).drop_first() =~= seq![x]);
        assert(join_with(parts.push(x), sep) == parts[0] + sep + join_with(seq![x], sep));
        assert(join_with(seq![x], sep) == x);
    } else {
        assert(parts.push(x).drop_first() =~= parts.drop_first().push(x));
        lemma_join_push(parts.drop_first(), sep, x);
        assert(join_with(parts.push(x), sep)
            =~= join_with(parts, sep) + sep + x);
    }
}

/// Concatenates the parts, separated by `sep`.
pub fn join_vecs(parts: &Vec<Vec<char>>, sep: &Vec<char>) -> (r: Vec<char>)
    ensures
        r@ == join_with(parts.deep_view(), sep@),
{
    let mut r: Vec<char> = Vec::new();
    let mut i: usize = 0;
    proof {
        assert(parts.deep_view().take(0) =~= Seq::<Seq<char>>::empty());
    }
    while i < parts.len()
        invariant
            i <= parts.len(),
            r@ == join_with(parts.deep_view().take(i as int), sep@),
        decreases parts.len() - i,
    {
        if i > 0 {
            push_all(&mut r, sep);
        }
        push_all(&mut r, &parts[i]);
        proof {
            assert(parts.deep_view().take(i + 1 as int)
                =~= parts.deep_view().take(i as int).push(parts.deep_view()[i as int]));
            lemma_join_push(parts.deep_view().take(i as int), sep@, parts.deep_view()[i as int]);
            assert(parts.deep_view()[i as int] =~= parts@[i as int]@);
        }
        i += 1;
    }
    proof {
        assert(parts.deep_view().take(parts@.len() as int) =~= parts.deep_view());
    }
    r
}

/// Every occurrence of `pat` replaced by `to`, left to right and without
/// rescanning what was substituted in, as `str::replace` does; an empty
/// pattern replaces nothing.
pub open spec fn replace_all(s: Seq<char>, pat: Seq<char>, to: Seq<char>) -> Seq<char>
    decreases s.len(),
        via replace_all_dec
{
    if pat.len() == 0 {
        s
    } else {
        match find_from(s, pat, 0) {
            None => s,
            Some(k) => s.subrange(0, k) + to + replace_all(
                s.subrange(k + pat.len(), s.len() as int),
                pat,
                to,
            ),
        }
    }
}

#[via_fn]
proof fn replace_all_dec(s: Seq<char>, pat: Seq<char>, to: Seq<char>) {
    lemma_find_from_bounds(s, pat, 0);
}

/// Replaces every occurrence of `pat` in `v` by `to`.
pub fn replace_all_vec(v: &Vec<char>, pat: &Vec<char>, to: &Vec<char>) -> (r: Vec<char>)
    requires
        pat@.len() >= 1,
    ensures
        r@ == replace_all(v@, pat@, to@),
{
    let mut out: Vec<char> = Vec::new();
    let mut rest: Vec<char> = subvec(v, 0, v.len());
    proof {
        assert(rest@ =~= v@);
        assert(out@ + replace_all(rest@, pat@, to@) =~= replace_all(v@, pat@, to@));
    }
    loop
        invariant
            pat@.len() >= 1,
            out@ + replace_all(rest@, pat@, to@) == replace_all(v@, pat@, to@),
        decreases rest@.len() + 1,
    {
        match find_vec(&rest, pat, 0) {
            Some(k) => {
                let rl = rest.len();
                proof {
                    lemma_find_from_bounds(rest@, pat@, 0);
                    assert(k + pat@.len() <= rl);
                }
                let head = subvec(&rest, 0, k);
                let tail = subvec(&rest, k + pat.len(), rl);
                let ghost out0 = out@;
                let ghost rest0 = rest@;
                push_all(&mut out, &head);
                push_all(&mut out, to);
                proof {
                    assert(replace_all(rest0, pat@, to@) == rest0.subrange(0, k as int) + to@
                        + replace_all(tail@, pat@, to@));
                    assert(out@ + replace_all(tail@, pat@, to@)
                        =~= out0 + replace_all(rest0, pat@, to@));
                }
                rest = tail;
            }
            None => {
                push_all(&mut out, &rest);
                proof {
                    assert(replace_all(rest@, pat@, to@) == rest@);
                }
                return out;
            }
        }
    }
}

} // verus!
