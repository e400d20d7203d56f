//! Character-level text helpers.
//!
//! The substitution and formatting logic works over vectors of characters,
//! whose view is the same `Seq<char>` as the view of the `String` they came
//! from.  Trimming and whitespace follow the six ASCII whitespace
//! characters.

use vstd::prelude::*;

use crate::alist::rev_seq;

verus! {

/// Relies on str::chars: the characters of the string, in order.
#[verifier::external_body]
pub(crate) fn str_to_chars(s: &str) -> (v: Vec<char>)
    ensures
        v@ == s@,
{
    s.chars().collect()
}

/// Relies on the FromIterator impl of String: the string of exactly the
/// given characters, in order.
#[verifier::external_body]
pub(crate) fn chars_to_string(v: &Vec<char>) -> (s: String)
    ensures
        s@ == v@,
{
    v.iter().collect()
}

/// The characters the placeholder syntax treats as whitespace.
pub open spec fn is_space(c: char) -> bool {
    c == ' ' || c == '\t' || c == '\n' || c == '\r' || c == '\u{b}' || c == '\u{c}'
}

/// Runtime check for `is_space`.
pub fn is_space_char(c: char) -> (b: bool)
    ensures
        b == is_space(c),
{
    c == ' ' || c == '\t' || c == '\n' || c == '\r' || c == '\u{b}' || c == '\u{c}'
}

/// The sequence with its leading whitespace removed.
pub open spec fn trim_front(s: Seq<char>) -> Seq<char>
    decreases s.len(),
{
    if s.len() > 0 && is_space(s[0]) {
        trim_front(s.drop_first())
    } else {
        s
    }
}

/// The sequence with its trailing whitespace removed.
pub open spec fn trim_back(s: Seq<char>) -> Seq<char>
    decreases s.len(),
{
    if s.len() > 0 && is_space(s.last()) {
        trim_back(s.drop_last())
    } else {
        s
    }
}

/// The sequence with whitespace removed at both ends.
pub open spec fn trim_spec(s: Seq<char>) -> Seq<char> {
    trim_back(trim_front(s))
}

proof fn lemma_trim_front_skip(s: Seq<char>, k: int)
    requires
        0 <= k <= s.len(),
        forall|i: int| 0 <= i < k ==> is_space(s[i]),
    ensures
        trim_front(s) == trim_front(s.subrange(k, s.len() as int)),
    decreases k,
{
    if k == 0 {
        assert(s.subrange(0, s.len() as int) =~= s);
    } else {
        assert(is_space(s[0]));
        let t = s.drop_first();
        assert(forall|i: int| 0 <= i < k - 1 ==> is_space(#[trigger] t[i]));
        lemma_trim_front_skip(t, k - 1);
        assert(t.subrange(k - 1, t.len() as int) =~= s.subrange(k, s.len() as int));
    }
}

proof fn lemma_trim_back_skip(s: Seq<char>, k: int)
    requires
        0 <= k <= s.len(),
        forall|i: int| s.len() - k <= i < s.len() ==> is_space(s[i]),
    ensures
        trim_back(s) == trim_back(s.subrange(0, s.len() - k)),
    decreases k,
{
    if k == 0 {
        assert(s.subrange(0, s.len() as int) =~= s);
    } else {
        assert(is_space(s.last()));
        let t = s.drop_last();
        assert(forall|i: int| t.len() - (k - 1) <= i < t.len() ==> is_space(#[trigger] t[i]));
        lemma_trim_back_skip(t, k - 1);
        assert(t.subrange(0, t.len() - (k - 1)) =~= s.subrange(0, s.len() - k));
    }
}

/// Copies the characters of `v` between `from` and `to`.
pub fn sub_chars(v: &Vec<char>, from: usize, to: usize) -> (r: Vec<char>)
    requires
        from <= to <= v@.len(),
    ensures
        r@ == v@.subrange(from as int, to as int),
{
    let mut r: Vec<char> = Vec::new();
    let mut i: usize = from;
    while i < to
        invariant
            from <= i <= to <= v@.len(),
            r@ =~= v@.subrange(from as int, i as int),
        decreases to - i,
    {
        r.push(v[i]);
        i = i + 1;
        proof {
            assert(r@ =~= v@.subrange(from as int, i as int));
        }
    }
    proof {
        assert(r@ =~= v@.subrange(from as int, to as int));
    }
    r
}

/// Removes whitespace at both ends of the characters.
pub fn trim_chars(v: &Vec<char>) -> (r: Vec<char>)
    ensures
        r@ == trim_spec(v@),
{
    let n = v.len();
    let mut start: usize = 0;
    while start < n && is_space_char(v[start])
        invariant
            0 <= start <= n == v@.len(),
            forall|i: int| 0 <= i < start ==> is_space(v@[i]),
        decreases n - start,
    {
        start = start + 1;
    }
    let mut end: usize = n;
    while end > start && is_space_char(v[end - 1])
        invariant
            start <= end <= n == v@.len(),
            forall|i: int| end <= i < n ==> is_space(v@[i]),
        decreases end,
    {
        end = end - 1;
    }
    let r = sub_chars(v, start, end);
    proof {
        let s = v@;
        lemma_trim_front_skip(s, start as int);
        let t = s.subrange(start as int, s.len() as int);
        assert(trim_front(s) == t) by {
            if t.len() > 0 {
                assert(t[0] == s[start as int]);
                assert(!is_space(t[0]));
            }
        }
        lemma_trim_back_skip(t, (n - end) as int);
        let u = t.subrange(0, t.len() - (n - end));
        assert(trim_back(t) == u) by {
            if u.len() > 0 {
                assert(u.last() == s[end - 1]);
                assert(!is_space(u.last()));
            }
        }
        assert(u =~= s.subrange(start as int, end as int));
    }
    r
}

/// The decimal digit character for a value below ten.
pub open spec fn digit_char(d: int) -> char {
    ((d + 48) as u8) as char
}

/// The decimal rendering of a natural number, most significant digit first.
pub open spec fn dec_rep(n: nat) -> Seq<char>
    decreases n,
{
    if n < 10 {
        seq![digit_char(n as int)]
    } else {
        dec_rep(n / 10) + seq![digit_char((n % 10) as int)]
    }
}

/// Renders a number in decimal.
pub fn u64_to_chars(n: u64) -> (r: Vec<char>)
    ensures
        r@ == dec_rep(n as nat),
{
    let mut digits: Vec<char> = Vec::new();
    let mut m: u64 = n;
    loop
        invariant_except_break
            (digits@.len() == 0 && m == n) || (digits@.len() > 0 && m > 0 && dec_rep(n as nat)
                =~= dec_rep(m as nat) + rev_seq(digits@)),
        ensures
            dec_rep(n as nat) =~= rev_seq(digits@),
        decreases m,
    {
        let d: u64 = m % 10;
        let c = (48 + d as u8) as char;
        let ghost pre = digits@;
        proof {
            assert(dec_rep(n as nat) =~= dec_rep(m as nat) + rev_seq(pre));
        }
        digits.push(c);
        proof {
            assert(rev_seq(digits@) =~= seq![c] + rev_seq(pre));
            assert(c == digit_char((m % 10) as int));
        }
        let next = m / 10;
        proof {
            if next > 0 {
                assert(m >= 10);
                assert(dec_rep(m as nat) == dec_rep((m as nat) / 10) + seq![
                    digit_char((m % 10) as int),
                ]);
                assert(dec_rep(n as nat) =~= dec_rep(next as nat) + rev_seq(digits@));
            } else {
                assert(m < 10);
                assert(dec_rep(m as nat) == seq![digit_char(m as int)]);
                assert(dec_rep(n as nat) =~= rev_seq(digits@));
            }
        }
        m = next;
        if m == 0 {
            break ;
        }
    }
    let mut r: Vec<char> = Vec::new();
    let k = digits.len();
    let mut i: usize = 0;
    while i < k
        invariant
            0 <= i <= k == digits@.len(),
            r@ =~= rev_seq(digits@).subrange(0, i as int),
        decreases k - i,
    {
        r.push(digits[k - 1 - i]);
        i = i + 1;
        proof {
            assert(r@ =~= rev_seq(digits@).subrange(0, i as int));
        }
    }
    proof {
        assert(r@ =~= rev_seq(digits@));
    }
    r
}

} // verus!
