//! Character-sequence utilities the intent heuristics are built on:
//! ASCII case folding, substring search, trimming, and decimal parsing,
//! all specified over `Seq<char>`.

use vstd::prelude::*;

verus! {

/// Relies on String::push_str: appends the given string slice onto the end
/// of the string.
pub assume_specification[ String::push_str ](s: &mut String, other: &str)
    ensures
        final(s)@ == old(s)@ + other@,
;

/// ASCII lowercase of one character; every other character is unchanged.
pub open spec fn lower_char(c: char) -> char {
    if 'A' <= c && c <= 'Z' {
        (((c as u8) + 32) as char)
    } else {
        c
    }
}

/// ASCII-lowercased copy of a character sequence.
pub open spec fn lower(s: Seq<char>) -> Seq<char> {
    Seq::new(s.len(), |i: int| lower_char(s[i]))
}

/// The needle `n` occurs in `h` starting at position `i`.
pub open spec fn matches_at(h: Seq<char>, n: Seq<char>, i: int) -> bool {
    0 <= i && i + n.len() <= h.len() && h.subrange(i, i + n.len()) == n
}

/// The needle `n` occurs somewhere in `h`.
pub open spec fn contains_seq(h: Seq<char>, n: Seq<char>) -> bool {
    exists|i: int| matches_at(h, n, i)
}

/// `h` begins with `n`.
pub open spec fn starts_with_seq(h: Seq<char>, n: Seq<char>) -> bool {
    matches_at(h, n, 0)
}

/// `h` ends with `n`.
pub open spec fn ends_with_seq(h: Seq<char>, n: Seq<char>) -> bool {
    matches_at(h, n, h.len() - n.len())
}

/// Collects the characters of a string slice into a vector.
pub fn to_chars(s: &str) -> (r: Vec<char>)
    ensures
        r@ == s@,
{
    let n = s.unicode_len();
    let mut r: Vec<char> = Vec::new();
    let mut i: usize = 0;
    while i < n
        invariant
            n == s@.len(),
            i <= n,
            r@ == s@.subrange(0, i as int),
        decreases n - i,
    {
        r.push(s.get_char(i));
        i = i + 1;
        proof {
            assert(r@ =~= s@.subrange(0, i as int));
        }
    }
    proof {
        assert(r@ =~= s@);
    }
    r
}

/// ASCII-lowercases one character.
pub fn lower_char_exec(c: char) -> (r: char)
    ensures
        r == lower_char(c),
{
    if 'A' <= c && c <= 'Z' {
        ((c as u8) + 32) as char
    } else {
        c
    }
}

/// ASCII-lowercases a character vector.
pub fn lower_vec(v: &Vec<char>) -> (r: Vec<char>)
    ensures
        r@ == lower(v@),
{
    let mut r: Vec<char> = Vec::new();
    let mut i: usize = 0;
    while i < v.len()
        invariant
            i <= v@.len(),
            r@ == lower(v@).subrange(0, i as int),
        decreases v@.len() - i,
    {
        r.push(lower_char_exec(v[i]));
        i = i + 1;
        proof {
            assert(r@ =~= lower(v@).subrange(0, i as int));
        }
    }
    proof {
        assert(r@ =~= lower(v@));
    }
    r
}

/// Whether `n` occurs in `h` at position `i`.
fn matches_at_exec(h: &Vec<char>, n: &Vec<char>, i: usize) -> (r: bool)
    requires
        i + n@.len() <= h@.len(),
    ensures
        r == matches_at(h@, n@, i as int),
{
    let hlen = h.len();
    let mut j: usize = 0;
    while j < n.len()
        invariant
            hlen == h@.len(),
            i + n@.len() <= h@.len(),
            j <= n@.len(),
            forall|k: int| 0 <= k < j ==> h@[i + k] == n@[k],
        decreases n@.len() - j,
    {
        if h[i + j] != n[j] {
            proof {
                assert(h@.subrange(i as int, i + n@.len())[j as int] != n@[j as int]);
            }
            return false;
        }
        j = j + 1;
    }
    proof {
        assert(h@.subrange(i as int, i + n@.len()) =~= n@);
    }
    true
}

/// Whether `n` occurs anywhere in `h`.
pub fn contains_chars(h: &Vec<char>, n: &Vec<char>) -> (r: bool)
    ensures
        r == contains_seq(h@, n@),
{
    if n.len() > h.len() {
        return false;
    }
    let last = h.len() - n.len();
    let mut i: usize = 0;
    while i < last
        invariant
            n@.len() <= h@.len(),
            last == h@.len() - n@.len(),
            i <= last,
            forall|k: int| 0 <= k < i ==> !matches_at(h@, n@, k),
        decreases last - i,
    {
        if matches_at_exec(h, n, i) {
            return true;
        }
        i = i + 1;
    }
    matches_at_exec(h, n, last)
}

/// Whether the sequences held by two vectors are equal.
pub fn eq_chars(a: &Vec<char>, b: &Vec<char>) -> (r: bool)
    ensures
        r == (a@ == b@),
{
    if a.len() != b.len() {
        proof {
            assert(a@ != b@) by {
                assert(a@.len() != b@.len());
            }
        }
        return false;
    }
    let r = matches_at_exec(a, b, 0);
    proof {
        if r {
            assert(a@.subrange(0, b@.len() as int) =~= a@);
        } else {
            assert(a@.subrange(0, a@.len() as int) =~= a@);
        }
    }
    r
}

/// Whether `h` begins with `n`.
pub fn starts_with_chars(h: &Vec<char>, n: &Vec<char>) -> (r: bool)
    ensures
        r == starts_with_seq(h@, n@),
{
    if n.len() > h.len() {
        return false;
    }
    matches_at_exec(h, n, 0)
}

/// Whether `h` ends with `n`.
pub fn ends_with_chars(h: &Vec<char>, n: &Vec<char>) -> (r: bool)
    ensures
        r == ends_with_seq(h@, n@),
{
    if n.len() > h.len() {
        return false;
    }
    matches_at_exec(h, n, h.len() - n.len())
}

/// ASCII whitespace.
pub open spec fn is_space_char(c: char) -> bool {
    c == ' ' || c == '\t' || c == '\n' || c == '\r'
}

/// `s` without its leading whitespace.
pub open spec fn trim_front(s: Seq<char>) -> Seq<char>
    decreases s.len(),
{
    if s.len() > 0 && is_space_char(s[0]) {
        trim_front(s.subrange(1, s.len() as int))
    } else {
        s
    }
}

/// `s` without its trailing whitespace.
pub open spec fn trim_back(s: Seq<char>) -> Seq<char>
    decreases s.len(),
{
    if s.len() > 0 && is_space_char(s[s.len() - 1]) {
        trim_back(s.subrange(0, s.len() - 1))
    } else {
        s
    }
}

/// `s` without leading and trailing whitespace.
pub open spec fn trim_spec(s: Seq<char>) -> Seq<char> {
    trim_back(trim_front(s))
}

proof fn lemma_trim_front_at(s: Seq<char>, k: int)
    requires
        0 <= k <= s.len(),
        forall|j: int| 0 <= j < k ==> is_space_char(s[j]),
        k == s.len() || !is_space_char(s[k]),
    ensures
        trim_front(s) == s.subrange(k, s.len() as int),
    decreases k,
{
    if k == 0 {
        assert(s.subrange(0, s.len() as int) =~= s);
    } else {
        let s1 = s.subrange(1, s.len() as int);
        lemma_trim_front_at(s1, k - 1);
        assert(s1.subrange(k - 1, s1.len() as int) =~= s.subrange(k, s.len() as int));
    }
}

proof fn lemma_trim_back_at(s: Seq<char>, e: int)
    requires
        0 <= e <= s.len(),
        forall|j: int| e <= j < s.len() ==> is_space_char(s[j]),
        e == 0 || !is_space_char(s[e - 1]),
    ensures
        trim_back(s) == s.subrange(0, e),
    decreases s.len() - e,
{
    if e == s.len() {
        assert(s.subrange(0, s.len() as int) =~= s);
        if s.len() > 0 && is_space_char(s[s.len() - 1]) {
            assert(false);
        }
    } else {
        let s1 = s.subrange(0, s.len() - 1);
        lemma_trim_back_at(s1, e);
        assert(s1.subrange(0, e) =~= s.subrange(0, e));
    }
}

/// Whether a character is ASCII whitespace.
pub fn is_space_exec(c: char) -> (r: bool)
    ensures
        r == is_space_char(c),
{
    c == ' ' || c == '\t' || c == '\n' || c == '\r'
}

/// Copy of `v` without leading and trailing whitespace.
pub fn trim_chars(v: &Vec<char>) -> (r: Vec<char>)
    ensures
        r@ == trim_spec(v@),
{
    let len = v.len();
    let mut start: usize = 0;
    while start < len && is_space_exec(v[start])
        invariant
            len == v@.len(),
            start <= len,
            forall|j: int| 0 <= j < start ==> is_space_char(v@[j]),
        decreases len - start,
    {
        start = start + 1;
    }
    proof {
        lemma_trim_front_at(v@, start as int);
    }
    if start == len {
        let r: Vec<char> = Vec::new();
        proof {
            assert(trim_front(v@) =~= Seq::<char>::empty());
            assert(trim_spec(v@) =~= Seq::<char>::empty());
        }
        return r;
    }
    let mut end: usize = len;
    while end > 0 && is_space_exec(v[end - 1])
        invariant
            len == v@.len(),
            start < len,
            !is_space_char(v@[start as int]),
            start < end,
            end <= len,
            forall|j: int| end <= j < len ==> is_space_char(v@[j]),
        decreases end,
    {
        end = end - 1;
    }
    proof {
        let front = v@.subrange(start as int, len as int);
        lemma_trim_back_at(front, end - start);
        assert(front.subrange(0, end - start) =~= v@.subrange(start as int, end as int));
    }
    let mut r: Vec<char> = Vec::new();
    let mut i: usize = start;
    while i < end
        invariant
            len == v@.len(),
            start <= i <= end <= len,
            r@ == v@.subrange(start as int, i as int),
        decreases end - i,
    {
        r.push(v[i]);
        i = i + 1;
        proof {
            assert(r@ =~= v@.subrange(start as int, i as int));
        }
    }
    r
}

/// Copy of the characters of `v` from `from` (inclusive) to `to`
/// (exclusive).
pub fn subrange_chars(v: &Vec<char>, from: usize, to: usize) -> (r: Vec<char>)
    requires
        from <= to <= v@.len(),
    ensures
        r@ == v@.subrange(from as int, to as int),
{
    let mut r: Vec<char> = Vec::new();
    let mut i: usize = from;
    while i < to
        invariant
            from <= i <= to <= v@.len(),
            r@ == v@.subrange(from as int, i as int),
        decreases to - i,
    {
        r.push(v[i]);
        i = i + 1;
        proof {
            assert(r@ =~= v@.subrange(from as int, i as int));
        }
    }
    r
}

/// A decimal digit.
pub open spec fn is_digit(c: char) -> bool {
    '0' <= c && c <= '9'
}

/// Every character of `s` is a decimal digit.
pub open spec fn all_digits(s: Seq<char>) -> bool {
    forall|i: int| 0 <= i < s.len() ==> is_digit(#[trigger] s[i])
}

/// Numeric value of a digit string, most significant digit first.
pub open spec fn digits_value(s: Seq<char>) -> int
    decreases s.len(),
{
    if s.len() == 0 {
        0
    } else {
        digits_value(s.drop_last()) * 10 + (s.last() as int - 48)
    }
}

/// `s` is a nonempty digit string whose value fits in a `u64`.
pub open spec fn is_u64_decimal(s: Seq<char>) -> bool {
    s.len() > 0 && all_digits(s) && digits_value(s) <= u64::MAX
}

proof fn lemma_digits_nonneg(s: Seq<char>)
    requires
        all_digits(s),
    ensures
        digits_value(s) >= 0,
    decreases s.len(),
{
    if s.len() > 0 {
        assert(all_digits(s.drop_last())) by {
            assert(forall|i: int|
                0 <= i < s.len() - 1 ==> is_digit(#[trigger] s.drop_last()[i]) == is_digit(s[i]));
        }
        lemma_digits_nonneg(s.drop_last());
    }
}

/// Parses a nonempty decimal digit string into a `u64`; `None` when a
/// character is not a digit, the string is empty, or the value overflows.
pub fn parse_u64_chars(v: &Vec<char>) -> (r: Option<u64>)
    ensures
        match r {
            Some(x) => is_u64_decimal(v@) && x == digits_value(v@),
            None => !is_u64_decimal(v@),
        },
{
    if v.len() == 0 {
        return None;
    }
    let mut acc: u64 = 0;
    let mut i: usize = 0;
    while i < v.len()
        invariant
            i <= v@.len(),
            forall|j: int| 0 <= j < i ==> is_digit(#[trigger] v@[j]),
            acc == digits_value(v@.subrange(0, i as int)),
        decreases v@.len() - i,
    {
        let c = v[i];
        if !('0' <= c && c <= '9') {
            return None;
        }
        let d: u64 = (c as u8 - 48) as u64;
        if acc > (u64::MAX - d) / 10 {
            proof {
                let pre = v@.subrange(0, (i + 1) as int);
                assert(pre.drop_last() =~= v@.subrange(0, i as int));
                assert(digits_value(pre) == acc * 10 + d);
                assert(acc * 10 + d > u64::MAX) by (nonlinear_arith)
                    requires
                        acc > (u64::MAX - d) / 10,
                        d <= 9,
                ;
                lemma_prefix_overflow(v@, i + 1);
            }
            return None;
        }
        proof {
            assert(acc * 10 + d <= u64::MAX) by (nonlinear_arith)
                requires
                    acc <= (u64::MAX - d) / 10,
                    d <= 9,
            ;
            let pre = v@.subrange(0, (i + 1) as int);
            assert(pre.drop_last() =~= v@.subrange(0, i as int));
        }
        acc = acc * 10 + d;
        i = i + 1;
    }
    proof {
        assert(v@.subrange(0, v@.len() as int) =~= v@);
    }
    Some(acc)
}

proof fn lemma_prefix_overflow(s: Seq<char>, k: int)
    requires
        0 < k <= s.len(),
        all_digits(s.subrange(0, k)),
        digits_value(s.subrange(0, k)) > u64::MAX,
    ensures
        !all_digits(s) || digits_value(s) > u64::MAX,
    decreases s.len() - k,
{
    if k == s.len() {
        assert(s.subrange(0, k) =~= s);
    } else {
        if all_digits(s) {
            let p = s.subrange(0, k);
            let q = s.subrange(0, k + 1);
            assert(q.drop_last() =~= p);
            assert(is_digit(s[k]));
            assert(all_digits(q)) by {
                assert(forall|i: int| 0 <= i < k + 1 ==> #[trigger] q[i] == s[i]);
            }
            lemma_digits_nonneg(p);
            assert(digits_value(q) == digits_value(p) * 10 + (s[k] as int - 48));
            assert(digits_value(q) > u64::MAX) by (nonlinear_arith)
                requires
                    digits_value(p) > u64::MAX,
                    digits_value(q) == digits_value(p) * 10 + (s[k] as int - 48),
                    s[k] as int - 48 >= 0,
            ;
            lemma_prefix_overflow(s, k + 1);
        }
    }
}

} // verus!
