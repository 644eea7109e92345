//! Character classes and prefix scanning over character sequences: the
//! groundwork for the persisted-configuration codec.

use vstd::prelude::*;

verus! {

/// A decimal digit.
pub open spec fn is_digit(c: char) -> bool {
    '0' <= c && c <= '9'
}

/// A character that may appear in a decimal numeral: a digit or the point.
pub open spec fn is_num_char(c: char) -> bool {
    is_digit(c) || c == '.'
}

/// A character admitted in the opaque text fields of a specification:
/// printable ASCII except the double quote and the backslash, so the field
/// embeds in a quoted string without escaping.
pub open spec fn is_plain_char(c: char) -> bool {
    ' ' <= c && c <= '~' && c != '"' && c != '\\'
}

/// Every character of `s` is a decimal digit.
pub open spec fn all_digits(s: Seq<char>) -> bool {
    forall|i: int| 0 <= i < s.len() ==> is_digit(#[trigger] s[i])
}

/// Every character of `s` may appear in a decimal numeral.
pub open spec fn all_num_chars(s: Seq<char>) -> bool {
    forall|i: int| 0 <= i < s.len() ==> is_num_char(#[trigger] s[i])
}

/// Every character of `s` is plain text.
pub open spec fn all_plain_chars(s: Seq<char>) -> bool {
    forall|i: int| 0 <= i < s.len() ==> is_plain_char(#[trigger] s[i])
}

/// `s` is a decimal numeral: digits, with at most one point that is neither
/// first nor last.
pub open spec fn is_numeral(s: Seq<char>) -> bool {
    (s.len() > 0 && all_digits(s)) || (exists|k: int|
        1 <= k < s.len() - 1 && #[trigger] s[k] == '.' && all_digits(s.subrange(0, k))
            && all_digits(s.subrange(k + 1, s.len() as int)))
}

/// `s` denotes a strictly positive quantity: some digit is nonzero.
pub open spec fn has_nonzero_digit(s: Seq<char>) -> bool {
    exists|i: int| 0 <= i < s.len() && '1' <= #[trigger] s[i] && s[i] <= '9'
}

/// `s` is an acceptable specimen dimension: a strictly positive decimal
/// numeral.
pub open spec fn is_dim(s: Seq<char>) -> bool {
    is_numeral(s) && has_nonzero_digit(s)
}

/// The numeral-character class as a first-class predicate, for prefix
/// scanning.
pub open spec fn num_charp() -> spec_fn(char) -> bool {
    |c: char| is_num_char(c)
}

/// The plain-character class as a first-class predicate, for prefix scanning.
pub open spec fn plain_charp() -> spec_fn(char) -> bool {
    |c: char| is_plain_char(c)
}

/// The longest prefix of `s` whose characters all satisfy `p`.
pub open spec fn take_while(p: spec_fn(char) -> bool, s: Seq<char>) -> Seq<char>
    decreases s.len(),
{
    if s.len() > 0 && p(s[0]) {
        seq![s[0]] + take_while(p, s.skip(1))
    } else {
        Seq::empty()
    }
}

/// `take_while` yields exactly the first `k` characters when those satisfy
/// `p` and the character after them (if any) does not.
pub proof fn lemma_take_while_exact(p: spec_fn(char) -> bool, s: Seq<char>, k: int)
    requires
        0 <= k <= s.len(),
        forall|i: int| 0 <= i < k ==> p(#[trigger] s[i]),
        k == s.len() || !p(s[k]),
    ensures
        take_while(p, s) == s.subrange(0, k),
    decreases s.len(),
{
    if k == 0 {
        assert(s.subrange(0, 0) =~= Seq::<char>::empty());
    } else {
        assert(p(s[0]));
        lemma_take_while_exact(p, s.skip(1), k - 1);
        assert(take_while(p, s) == seq![s[0]] + take_while(p, s.skip(1)));
        assert(s.skip(1).subrange(0, k - 1) =~= s.subrange(1, k));
        assert(seq![s[0]] + s.subrange(1, k) =~= s.subrange(0, k));
    }
}

/// Every character of a `take_while` prefix satisfies the predicate.
pub proof fn lemma_take_while_all(p: spec_fn(char) -> bool, s: Seq<char>)
    ensures
        forall|i: int| 0 <= i < take_while(p, s).len() ==> p(#[trigger] take_while(p, s)[i]),
    decreases s.len(),
{
    if s.len() > 0 && p(s[0]) {
        lemma_take_while_all(p, s.skip(1));
        assert forall|i: int| 0 <= i < take_while(p, s).len() implies p(
            #[trigger] take_while(p, s)[i],
        ) by {
            if i > 0 {
                assert(take_while(p, s)[i] == take_while(p, s.skip(1))[i - 1]);
            }
        }
    }
}

/// A numeral is nonempty and made of numeral characters only.
pub proof fn lemma_numeral_chars(s: Seq<char>)
    requires
        is_numeral(s),
    ensures
        s.len() > 0,
        all_num_chars(s),
{
    if s.len() > 0 && all_digits(s) {
    } else {
        let k = choose|k: int|
            1 <= k < s.len() - 1 && #[trigger] s[k] == '.' && all_digits(s.subrange(0, k))
                && all_digits(s.subrange(k + 1, s.len() as int));
        assert forall|i: int| 0 <= i < s.len() implies is_num_char(#[trigger] s[i]) by {
            if i < k {
                assert(s[i] == s.subrange(0, k)[i]);
            } else if i > k {
                assert(s[i] == s.subrange(k + 1, s.len() as int)[i - k - 1]);
            }
        }
    }
}

/// Whether the characters of `s` from position `i` on start with `lit`.
pub open spec fn starts_at(s: Seq<char>, i: int, lit: Seq<char>) -> bool {
    i + lit.len() <= s.len() && s.subrange(i, i + lit.len()) == lit
}

/// Compares the characters of `s` from position `i` on against `lit`.
pub fn starts_with_at(s: &str, i: usize, lit: &str) -> (b: bool)
    requires
        i <= s@.len(),
    ensures
        b == starts_at(s@, i as int, lit@),
{
    let n = lit.unicode_len();
    let total = s.unicode_len();
    if n > total - i {
        assert(!starts_at(s@, i as int, lit@));
        return false;
    }
    let mut j: usize = 0;
    while j < n
        invariant
            0 <= j <= n,
            n == lit@.len(),
            total == s@.len(),
            i + n <= total,
            forall|m: int| 0 <= m < j ==> s@[i + m] == lit@[m],
        decreases n - j,
    {
        if s.get_char(i + j) != lit.get_char(j) {
            assert(s@.subrange(i as int, i + lit@.len())[j as int] != lit@[j as int]);
            return false;
        }
        j += 1;
    }
    assert(s@.subrange(i as int, i + lit@.len()) =~= lit@);
    true
}

/// Starting at position `i` of `s` is the same as starting at the head of
/// `s` with its first `i` characters dropped.
pub proof fn lemma_starts_at_skip(s: Seq<char>, i: int, lit: Seq<char>)
    requires
        0 <= i <= s.len(),
    ensures
        starts_at(s, i, lit) == starts_at(s.skip(i), 0, lit),
{
    if i + lit.len() <= s.len() {
        assert(s.skip(i).subrange(0, lit.len() as int) =~= s.subrange(i, i + lit.len()));
    }
}

/// Compares two character sequences for equality.
pub fn str_eq(a: &str, b: &str) -> (r: bool)
    ensures
        r == (a@ == b@),
{
    let n = a.unicode_len();
    let m = b.unicode_len();
    if n != m {
        return false;
    }
    let eq = starts_with_at(a, 0, b);
    proof {
        assert(a@.subrange(0, b@.len() as int) =~= a@);
    }
    eq
}

/// Scans forward from `i` over numeral characters and returns the position of
/// the first character that is not one (or the end of `s`).
pub fn scan_num(s: &str, i: usize) -> (j: usize)
    requires
        i <= s@.len(),
    ensures
        i <= j <= s@.len(),
        forall|m: int| i <= m < j ==> is_num_char(#[trigger] s@[m]),
        j == s@.len() || !is_num_char(s@[j as int]),
{
    let n = s.unicode_len();
    let mut j: usize = i;
    while j < n
        invariant
            i <= j <= n,
            n == s@.len(),
            forall|m: int| i <= m < j ==> is_num_char(#[trigger] s@[m]),
        decreases n - j,
    {
        let c = s.get_char(j);
        if !(('0' <= c && c <= '9') || c == '.') {
            return j;
        }
        j += 1;
    }
    j
}

/// Scans forward from `i` over plain characters and returns the position of
/// the first character that is not one (or the end of `s`).
pub fn scan_plain(s: &str, i: usize) -> (j: usize)
    requires
        i <= s@.len(),
    ensures
        i <= j <= s@.len(),
        forall|m: int| i <= m < j ==> is_plain_char(#[trigger] s@[m]),
        j == s@.len() || !is_plain_char(s@[j as int]),
{
    let n = s.unicode_len();
    let mut j: usize = i;
    while j < n
        invariant
            i <= j <= n,
            n == s@.len(),
            forall|m: int| i <= m < j ==> is_plain_char(#[trigger] s@[m]),
        decreases n - j,
    {
        let c = s.get_char(j);
        if !(' ' <= c && c <= '~' && c != '"' && c != '\\') {
            return j;
        }
        j += 1;
    }
    j
}

/// Decides whether `s` is a decimal numeral.
pub fn check_numeral(s: &str) -> (b: bool)
    ensures
        b == is_numeral(s@),
{
    let n = s.unicode_len();
    if n == 0 {
        return false;
    }
    // Find the point, if any, and check that everything else is a digit.
    let mut point: Option<usize> = None;
    let mut j: usize = 0;
    while j < n
        invariant
            0 <= j <= n,
            n == s@.len(),
            match point {
                None => forall|m: int| 0 <= m < j ==> is_digit(#[trigger] s@[m]),
                Some(k) => {
                    &&& 0 <= k < j
                    &&& s@[k as int] == '.'
                    &&& forall|m: int| 0 <= m < j && m != k ==> is_digit(#[trigger] s@[m])
                },
            },
        decreases n - j,
    {
        let c = s.get_char(j);
        if c == '.' {
            if point.is_some() {
                proof {
                    let k = point.unwrap() as int;
                    assert(!all_digits(s@)) by {
                        assert(s@[k] == '.');
                    }
                    assert forall|k2: int|
                        !(1 <= k2 < s@.len() - 1 && s@[k2] == '.' && all_digits(
                            s@.subrange(0, k2),
                        ) && all_digits(s@.subrange(k2 + 1, s@.len() as int))) by {
                        if 1 <= k2 < s@.len() - 1 && s@[k2] == '.' {
                            if k2 < k {
                                assert(s@.subrange(k2 + 1, s@.len() as int)[k - k2 - 1] == '.');
                            } else if k2 > k {
                                assert(s@.subrange(0, k2)[k] == '.');
                            } else {
                                assert(s@.subrange(0, k2)[j as int] == '.' || s@.subrange(
                                    k2 + 1,
                                    s@.len() as int,
                                )[j - k2 - 1] == '.');
                            }
                        }
                    }
                }
                return false;
            }
            point = Some(j);
        } else if !('0' <= c && c <= '9') {
            proof {
                let bad = j as int;
                assert(!all_digits(s@)) by {
                    assert(!is_digit(s@[bad]));
                }
                assert forall|k2: int|
                    !(1 <= k2 < s@.len() - 1 && s@[k2] == '.' && all_digits(s@.subrange(0, k2))
                        && all_digits(s@.subrange(k2 + 1, s@.len() as int))) by {
                    if 1 <= k2 < s@.len() - 1 && s@[k2] == '.' && k2 != bad {
                        if bad < k2 {
                            assert(!is_digit(s@.subrange(0, k2)[bad]));
                        } else {
                            assert(!is_digit(s@.subrange(k2 + 1, s@.len() as int)[bad - k2 - 1]));
                        }
                    }
                }
            }
            return false;
        }
        j += 1;
    }
    match point {
        None => {
            assert(all_digits(s@));
            true
        },
        Some(k) => {
            if k == 0 || k == n - 1 {
                proof {
                    let kk = k as int;
                    assert(!all_digits(s@)) by {
                        assert(s@[kk] == '.');
                    }
                    assert forall|k2: int|
                        !(1 <= k2 < s@.len() - 1 && s@[k2] == '.' && all_digits(
                            s@.subrange(0, k2),
                        ) && all_digits(s@.subrange(k2 + 1, s@.len() as int))) by {
                        if 1 <= k2 < s@.len() - 1 && s@[k2] == '.' && k2 != kk {
                            if kk < k2 {
                                assert(!is_digit(s@.subrange(0, k2)[kk]));
                            } else {
                                assert(!is_digit(s@.subrange(k2 + 1, s@.len() as int)[kk - k2 - 1]));
                            }
                        }
                    }
                }
                false
            } else {
                proof {
                    let kk = k as int;
                    assert(all_digits(s@.subrange(0, kk))) by {
                        assert(forall|m: int|
                            0 <= m < kk ==> is_digit(#[trigger] s@.subrange(0, kk)[m]));
                    }
                    assert(all_digits(s@.subrange(kk + 1, s@.len() as int))) by {
                        assert(forall|m: int|
                            0 <= m < s@.len() - kk - 1 ==> is_digit(
                                #[trigger] s@.subrange(kk + 1, s@.len() as int)[m],
                            ));
                    }
                    assert(1 <= kk < s@.len() - 1 && s@[kk] == '.' && all_digits(
                        s@.subrange(0, kk),
                    ) && all_digits(s@.subrange(kk + 1, s@.len() as int)));
                }
                true
            }
        },
    }
}

/// Decides whether some character of `s` is a nonzero digit.
pub fn check_nonzero_digit(s: &str) -> (b: bool)
    ensures
        b == has_nonzero_digit(s@),
{
    let n = s.unicode_len();
    let mut j: usize = 0;
    while j < n
        invariant
            0 <= j <= n,
            n == s@.len(),
            forall|m: int| 0 <= m < j ==> !('1' <= #[trigger] s@[m] && s@[m] <= '9'),
        decreases n - j,
    {
        let c = s.get_char(j);
        if '1' <= c && c <= '9' {
            return true;
        }
        j += 1;
    }
    false
}

/// Decides whether every character of `s` is plain text.
pub fn check_all_plain(s: &str) -> (b: bool)
    ensures
        b == all_plain_chars(s@),
{
    let n = s.unicode_len();
    let mut j: usize = 0;
    while j < n
        invariant
            0 <= j <= n,
            n == s@.len(),
            forall|m: int| 0 <= m < j ==> is_plain_char(#[trigger] s@[m]),
        decreases n - j,
    {
        let c = s.get_char(j);
        if !(' ' <= c && c <= '~' && c != '"' && c != '\\') {
            return false;
        }
        j += 1;
    }
    true
}

} // verus!
