//! String scanning and formatting helpers.

use vstd::prelude::*;

verus! {

/// The pattern `pat` occurs in `s` at position `i`.
pub open spec fn occurs_at(s: Seq<char>, pat: Seq<char>, i: int) -> bool {
    0 <= i && i + pat.len() <= s.len() && s.subrange(i, i + pat.len() as int) == pat
}

/// The pattern `pat` occurs somewhere in `s`.
pub open spec fn has_sub(s: Seq<char>, pat: Seq<char>) -> bool {
    exists|i: int| occurs_at(s, pat, i)
}

/// Position of the first occurrence of `pat` in `s` (meaningful only when
/// one exists).
pub open spec fn first_occur(s: Seq<char>, pat: Seq<char>) -> int
    decreases s.len(),
    when has_sub(s, pat)
{
    if occurs_at(s, pat, 0) {
        0
    } else if s.len() == 0 {
        0
    } else {
        1 + first_occur(s.drop_first(), pat)
    }
}

/// Occurrences shift by one when the first character is dropped.
pub proof fn lemma_occurs_drop_first(s: Seq<char>, pat: Seq<char>, i: int)
    requires
        s.len() > 0,
        i >= 1,
    ensures
        occurs_at(s, pat, i) <==> occurs_at(s.drop_first(), pat, i - 1),
{
    if occurs_at(s, pat, i) {
        assert(s.drop_first().subrange(i - 1, i - 1 + pat.len() as int) =~= s.subrange(
            i,
            i + pat.len() as int,
        ));
    }
    if occurs_at(s.drop_first(), pat, i - 1) {
        assert(s.subrange(i, i + pat.len() as int) =~= s.drop_first().subrange(
            i - 1,
            i - 1 + pat.len() as int,
        ));
    }
}

/// The first occurrence is an occurrence, and nothing occurs before it.
pub proof fn lemma_first_occur(s: Seq<char>, pat: Seq<char>)
    requires
        has_sub(s, pat),
    ensures
        occurs_at(s, pat, first_occur(s, pat)),
        forall|j: int| 0 <= j < first_occur(s, pat) ==> !occurs_at(s, pat, j),
    decreases s.len(),
{
    if !occurs_at(s, pat, 0) {
        let w = choose|i: int| occurs_at(s, pat, i);
        assert(w >= 1);
        assert(s.len() > 0);
        lemma_occurs_drop_first(s, pat, w);
        lemma_first_occur(s.drop_first(), pat);
        let f = first_occur(s.drop_first(), pat);
        lemma_occurs_drop_first(s, pat, f + 1);
        assert forall|j: int| 0 <= j < 1 + f implies !occurs_at(s, pat, j) by {
            if j >= 1 && occurs_at(s, pat, j) {
                lemma_occurs_drop_first(s, pat, j);
            }
        }
    }
}

/// First occurrence of `pat` in `s` at position `from` or later, if any.
pub fn find_sub(s: &str, pat: &str, from: usize) -> (r: Option<usize>)
    requires
        from <= s@.len(),
        pat@.len() >= 1,
    ensures
        match r {
            Some(p) => from <= p && p + pat@.len() <= s@.len() && occurs_at(
                s@.skip(from as int),
                pat@,
                p - from,
            ) && (forall|j: int| 0 <= j < p - from ==> !occurs_at(s@.skip(from as int), pat@, j)),
            None => !has_sub(s@.skip(from as int), pat@),
        },
{
    let n = s.unicode_len();
    let m = pat.unicode_len();
    let ghost suf = s@.skip(from as int);
    if m > n - from {
        proof {
            assert forall|i: int| !occurs_at(suf, pat@, i) by {}
        }
        return None;
    }
    let mut i: usize = from;
    while i <= n - m
        invariant
            from <= i <= n - m + 1,
            m >= 1,
            m <= n,
            n == s@.len(),
            m == pat@.len(),
            from <= s@.len(),
            suf == s@.skip(from as int),
            forall|j: int| 0 <= j < i - from ==> !occurs_at(suf, pat@, j),
        decreases n - m - i + 1,
    {
        let mut j: usize = 0;
        let mut matched = true;
        while j < m
            invariant
                0 <= j <= m,
                from <= i <= n - m,
                n == s@.len(),
                m == pat@.len(),
                matched || j == m,
                matched == (forall|l: int| 0 <= l < j as int ==> s@[i + l] == pat@[l]),
            decreases m - j,
        {
            let sc = s.get_char(i + j);
            let pc = pat.get_char(j);
            if sc != pc {
                matched = false;
                proof {
                    assert(s@[i as int + j as int] != pat@[j as int]);
                }
                j = m;
            } else {
                proof {
                    assert(s@[i + j as int] == pat@[j as int]);
                    assert forall|l: int| 0 <= l < j as int + 1 implies s@[i + l] == pat@[l] by {
                        if l < j as int {
                            assert(s@[i + l] == pat@[l]);
                        }
                    }
                }
                j = j + 1;
            }
        }
        if matched {
            proof {
                assert(suf.subrange(i - from, i - from + m as int) =~= pat@) by {
                    assert forall|l: int| 0 <= l < m as int implies suf[i - from + l] == pat@[l] by {
                        assert(suf[i - from + l] == s@[i + l]);
                    }
                }
                assert(occurs_at(suf, pat@, i as int - from as int));
            }
            return Some(i);
        }
        proof {
            assert(!occurs_at(suf, pat@, i as int - from as int)) by {
                if occurs_at(suf, pat@, i as int - from as int) {
                    let l = choose|l: int| 0 <= l < m as int && s@[i + l] != pat@[l];
                    assert(suf.subrange(i - from, i - from + m as int)[l] == pat@[l]);
                    assert(suf[i - from + l] == s@[i + l]);
                }
            }
        }
        i = i + 1;
    }
    proof {
        assert forall|j: int| !occurs_at(suf, pat@, j) by {
            if occurs_at(suf, pat@, j) {
                assert(0 <= j && j + m <= suf.len());
                assert(j < i - from);
            }
        }
    }
    None
}

/// Whether `pat` occurs anywhere in `s`.
pub fn contains_sub(s: &str, pat: &str) -> (r: bool)
    requires
        pat@.len() >= 1,
    ensures
        r == has_sub(s@, pat@),
{
    let r = find_sub(s, pat, 0);
    proof {
        assert(s@.skip(0) =~= s@);
    }
    match r {
        Some(_) => true,
        None => false,
    }
}

/// The decimal digit character for `d`.
pub open spec fn digit_char(d: int) -> char {
    "0123456789"@[d]
}

/// Decimal representation of a natural number, most significant digit
/// first.
pub open spec fn dec_digits(n: nat) -> Seq<char>
    decreases n,
{
    if n < 10 {
        seq![digit_char(n as int)]
    } else {
        dec_digits(n / 10).push(digit_char((n % 10) as int))
    }
}

/// Decimal representation of an integer, with a leading minus sign when
/// negative.
pub open spec fn dec_int(i: int) -> Seq<char> {
    if i >= 0 {
        dec_digits(i as nat)
    } else {
        seq!['-'] + dec_digits((-i) as nat)
    }
}

/// Formats a natural number in decimal.
pub fn u64_to_string(n: u64) -> (r: String)
    ensures
        r@ == dec_digits(n as nat),
    decreases n,
{
    let digits = "0123456789";
    proof {
        reveal_strlit("0123456789");
    }
    if n < 10 {
        let d = digits.substring_char((n % 10) as usize, (n % 10) as usize + 1);
        proof {
            assert(d@ =~= seq![digit_char(n as int)]);
        }
        String::from_str(d)
    } else {
        let mut s = u64_to_string(n / 10);
        let d = digits.substring_char((n % 10) as usize, (n % 10) as usize + 1);
        proof {
            assert(d@ =~= seq![digit_char((n as nat % 10) as int)]);
        }
        s.append(d);
        proof {
            assert(s@ =~= dec_digits(n as nat));
        }
        s
    }
}

/// Formats a signed integer in decimal.
pub fn i64_to_string(i: i64) -> (r: String)
    ensures
        r@ == dec_int(i as int),
{
    if i >= 0 {
        u64_to_string(i as u64)
    } else {
        let mag: u64 = ((-(i + 1)) as u64) + 1;
        proof {
            assert(mag as nat == (-(i as int)) as nat);
        }
        let mut s = String::from_str("-");
        let tail = u64_to_string(mag);
        s.append(tail.as_str());
        proof {
            reveal_strlit("-");
            assert(s@ =~= dec_int(i as int));
        }
        s
    }
}

/// Formats a 32-bit counter in decimal.
pub fn i32_to_string(i: i32) -> (r: String)
    ensures
        r@ == dec_int(i as int),
{
    i64_to_string(i as i64)
}

/// Occurrences away from the end survive dropping the last character.
pub proof fn lemma_occurs_drop_last(s: Seq<char>, pat: Seq<char>, i: int)
    requires
        s.len() > 0,
        i + pat.len() <= s.len() - 1,
    ensures
        occurs_at(s, pat, i) <==> occurs_at(s.drop_last(), pat, i),
{
    if occurs_at(s, pat, i) {
        assert(s.drop_last().subrange(i, i + pat.len() as int) =~= s.subrange(
            i,
            i + pat.len() as int,
        ));
    }
    if occurs_at(s.drop_last(), pat, i) {
        assert(s.subrange(i, i + pat.len() as int) =~= s.drop_last().subrange(
            i,
            i + pat.len() as int,
        ));
    }
}

/// Occurrences in a suffix shift by the skipped length.
pub proof fn lemma_occurs_skip(s: Seq<char>, pat: Seq<char>, k: int, i: int)
    requires
        0 <= k <= s.len(),
        0 <= i,
    ensures
        occurs_at(s, pat, k + i) <==> occurs_at(s.skip(k), pat, i),
{
    if occurs_at(s, pat, k + i) {
        assert(s.skip(k).subrange(i, i + pat.len() as int) =~= s.subrange(
            k + i,
            k + i + pat.len() as int,
        ));
    }
    if occurs_at(s.skip(k), pat, i) {
        assert(s.subrange(k + i, k + i + pat.len() as int) =~= s.skip(k).subrange(
            i,
            i + pat.len() as int,
        ));
    }
}

/// Position of the last occurrence of `pat` in `s` (meaningful only when
/// one exists).
pub open spec fn last_occur(s: Seq<char>, pat: Seq<char>) -> int
    decreases s.len(),
    when has_sub(s, pat)
{
    if occurs_at(s, pat, s.len() - pat.len()) {
        s.len() - pat.len()
    } else if s.len() == 0 {
        0
    } else {
        last_occur(s.drop_last(), pat)
    }
}

/// The last occurrence is an occurrence, and nothing occurs after it.
pub proof fn lemma_last_occur(s: Seq<char>, pat: Seq<char>)
    requires
        has_sub(s, pat),
    ensures
        occurs_at(s, pat, last_occur(s, pat)),
        forall|j: int| last_occur(s, pat) < j ==> !occurs_at(s, pat, j),
    decreases s.len(),
{
    let m = pat.len() as int;
    if !occurs_at(s, pat, s.len() - m) {
        let w = choose|i: int| occurs_at(s, pat, i);
        assert(w + m <= s.len());
        assert(w != s.len() - m);
        assert(s.len() > 0) by {
            if s.len() == 0 {
                assert(w + m <= 0 && 0 <= w);
            }
        }
        lemma_occurs_drop_last(s, pat, w);
        lemma_last_occur(s.drop_last(), pat);
        let l = last_occur(s.drop_last(), pat);
        lemma_occurs_drop_last(s, pat, l);
        assert forall|j: int| l < j implies !occurs_at(s, pat, j) by {
            if occurs_at(s, pat, j) {
                assert(j != s.len() - m);
                assert(j + m <= s.len() - 1);
                lemma_occurs_drop_last(s, pat, j);
            }
        }
    }
}

/// Last occurrence of `pat` in `s`, if any.
pub fn find_last(s: &str, pat: &str) -> (r: Option<usize>)
    requires
        pat@.len() >= 1,
    ensures
        match r {
            Some(p) => occurs_at(s@, pat@, p as int) && (forall|j: int|
                (p as int) < j ==> !occurs_at(s@, pat@, j)),
            None => !has_sub(s@, pat@),
        },
{
    let mut best: Option<usize> = None;
    let mut from: usize = 0;
    let n = s.unicode_len();
    loop
        invariant
            from <= n,
            n == s@.len(),
            pat@.len() >= 1,
            match best {
                Some(b) => occurs_at(s@, pat@, b as int) && b < from,
                None => true,
            },
            forall|j: int| 0 <= j < from as int && occurs_at(s@, pat@, j) ==> (match best {
                Some(b) => j <= b as int,
                None => false,
            }),
        decreases n - from,
    {
        match find_sub(s, pat, from) {
            Some(p) => {
                proof {
                    lemma_occurs_skip(s@, pat@, from as int, p as int - from as int);
                    assert(occurs_at(s@, pat@, p as int));
                    assert forall|j: int|
                        0 <= j < p as int + 1 && occurs_at(s@, pat@, j) implies j <= p as int by {}
                }
                best = Some(p);
                from = p + 1;
                proof {
                    assert(from <= n) by {
                        assert(p as int + pat@.len() <= n as int);
                    }
                }
            },
            None => {
                proof {
                    assert forall|j: int|
                        occurs_at(s@, pat@, j) implies j < from as int by {
                        if j >= from as int {
                            lemma_occurs_skip(s@, pat@, from as int, j - from as int);
                            assert(occurs_at(s@.skip(from as int), pat@, j - from as int));
                            assert(has_sub(s@.skip(from as int), pat@));
                        }
                    }
                }
                return best;
            },
        }
    }
}

/// Whitespace as the trimmer sees it.
pub open spec fn is_space(c: char) -> bool {
    c == ' ' || c == '\t' || c == '\n' || c == '\r'
}

/// The string with leading whitespace removed.
pub open spec fn trim_start_spec(s: Seq<char>) -> Seq<char>
    decreases s.len(),
{
    if s.len() > 0 && is_space(s[0]) {
        trim_start_spec(s.drop_first())
    } else {
        s
    }
}

/// The string with trailing whitespace removed.
pub open spec fn trim_end_spec(s: Seq<char>) -> Seq<char>
    decreases s.len(),
{
    if s.len() > 0 && is_space(s.last()) {
        trim_end_spec(s.drop_last())
    } else {
        s
    }
}

/// The string with surrounding whitespace removed.
pub open spec fn trim_spec(s: Seq<char>) -> Seq<char> {
    trim_end_spec(trim_start_spec(s))
}

proof fn lemma_trim_start_skip(s: Seq<char>, a: int)
    requires
        0 <= a <= s.len(),
        forall|j: int| 0 <= j < a ==> is_space(s[j]),
        a < s.len() ==> !is_space(s[a]),
    ensures
        trim_start_spec(s) == s.skip(a),
    decreases a,
{
    if a == 0 {
        assert(s.skip(0) =~= s);
    } else {
        assert(is_space(s[0]));
        assert forall|j: int| 0 <= j < a - 1 implies is_space(s.drop_first()[j]) by {
            assert(s.drop_first()[j] == s[j + 1]);
        }
        assert(a - 1 < s.drop_first().len() ==> !is_space(s.drop_first()[a - 1]));
        lemma_trim_start_skip(s.drop_first(), a - 1);
        assert(s.drop_first().skip(a - 1) =~= s.skip(a));
    }
}

proof fn lemma_trim_end_take(s: Seq<char>, b: int)
    requires
        0 <= b <= s.len(),
        forall|j: int| b <= j < s.len() ==> is_space(s[j]),
        b > 0 ==> !is_space(s[b - 1]),
    ensures
        trim_end_spec(s) == s.take(b),
    decreases s.len() - b,
{
    if b == s.len() {
        assert(s.take(b) =~= s);
    } else {
        assert(is_space(s.last()));
        assert forall|j: int| b <= j < s.drop_last().len() implies is_space(s.drop_last()[j]) by {
            assert(s.drop_last()[j] == s[j]);
        }
        lemma_trim_end_take(s.drop_last(), b);
        assert(s.drop_last().take(b) =~= s.take(b));
    }
}

/// Whether a character is whitespace, decided executably.
fn char_is_space(c: char) -> (r: bool)
    ensures
        r == is_space(c),
{
    c == ' ' || c == '\t' || c == '\n' || c == '\r'
}

/// Removes surrounding whitespace.
pub fn trim_str(s: &str) -> (r: String)
    ensures
        r@ == trim_spec(s@),
{
    let n = s.unicode_len();
    let mut a: usize = 0;
    while a < n && char_is_space(s.get_char(a))
        invariant
            a <= n,
            n == s@.len(),
            forall|j: int| 0 <= j < a as int ==> is_space(s@[j]),
        decreases n - a,
    {
        a = a + 1;
    }
    proof {
        lemma_trim_start_skip(s@, a as int);
    }
    let mut b: usize = n;
    while b > a && char_is_space(s.get_char(b - 1))
        invariant
            a <= b <= n,
            n == s@.len(),
            forall|j: int| b as int <= j < n as int ==> is_space(s@[j]),
        decreases b,
    {
        b = b - 1;
    }
    let r = String::from_str(s.substring_char(a, b));
    proof {
        let t = s@.skip(a as int);
        assert forall|j: int| b as int - a as int <= j < t.len() implies is_space(t[j]) by {
            assert(t[j] == s@[a + j]);
        }
        if b > a {
            assert(!is_space(s@[b as int - 1]));
            assert(t[b - a - 1] == s@[b as int - 1]);
        }
        lemma_trim_end_take(t, b as int - a as int);
        assert(r@ =~= t.take(b as int - a as int));
    }
    r
}

} // verus!
