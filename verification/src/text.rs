//! Character-level utilities shared by the stat parser and the template
//! renderer: converting between `&str` and `Vec<char>`, and locating
//! characters in sequences.

use vstd::prelude::*;

verus! {

use vstd::std_specs::iter::IteratorSpec;

broadcast use vstd::string::group_string_axioms;

/// Collects the characters of `s` into a vector, in order.
pub fn chars_of(s: &str) -> (r: Vec<char>)
    ensures
        r@ == s@,
{
    let mut it = s.chars();
    let mut r: Vec<char> = Vec::new();
    loop
        invariant
            it.obeys_prophetic_iter_laws(),
            it.decrease() is Some,
            r@ + it.remaining() == s@,
        ensures
            r@ == s@,
        decreases it.decrease()->0,
    {
        match it.next() {
            Some(c) => {
                r.push(c);
            },
            None => {
                assert(r@ =~= s@);
                break ;
            },
        }
    }
    r
}

/// Compares the characters of `s` with the contents of `w`.
pub fn str_eq_chars(s: &str, w: &Vec<char>) -> (r: bool)
    ensures
        r == (s@ == w@),
{
    let mut it = s.chars();
    let mut i: usize = 0;
    let mut res: bool = false;
    loop
        invariant_except_break
            it.obeys_prophetic_iter_laws(),
            it.decrease() is Some,
            i <= w.len(),
            i <= s@.len(),
            it.remaining() =~= s@.skip(i as int),
            s@.take(i as int) =~= w@.take(i as int),
        ensures
            res == (s@ == w@),
        decreases it.decrease()->0,
    {
        let ghost prev = it;
        match it.next() {
            Some(c) => {
                assert(prev.remaining().len() > 0);
                assert(c == prev.remaining()[0]);
                assert(s@.skip(i as int)[0] == s@[i as int]);
                assert(c == s@[i as int]);
                if i >= w.len() {
                    assert(s@.len() > w@.len());
                    res = false;
                    break ;
                }
                if c != w[i] {
                    assert(s@[i as int] != w@[i as int]);
                    res = false;
                    break ;
                }
                assert(s@.take(i as int + 1) =~= w@.take(i as int + 1));
                i = i + 1;
            },
            None => {
                assert(prev.remaining().len() == 0);
                assert(s@.skip(i as int).len() == 0);
                assert(s@.len() == i);
                if i == w.len() {
                    assert(s@ =~= s@.take(i as int));
                    assert(w@ =~= w@.take(i as int));
                    assert(s@ =~= w@);
                    res = true;
                } else {
                    assert(s@.len() != w@.len());
                    res = false;
                }
                break ;
            },
        }
    }
    res
}

/// Relies on `String`'s `FromIterator<char>` implementation: collecting
/// yields a string holding exactly the characters of `v`, in order.
#[verifier::external_body]
pub fn string_from_chars(v: &Vec<char>) -> (r: String)
    ensures
        r@ == v@,
{
    v.iter().collect()
}

/// Copies the characters of `v` between `from` and `to` into a fresh vector.
pub fn subrange_vec(v: &Vec<char>, from: usize, to: usize) -> (r: Vec<char>)
    requires
        from <= to <= v.len(),
    ensures
        r@ == v@.subrange(from as int, to as int),
{
    let mut r: Vec<char> = Vec::new();
    let mut i: usize = from;
    while i < to
        invariant
            from <= i <= to <= v.len(),
            r@ =~= v@.subrange(from as int, i as int),
        decreases to - i,
    {
        r.push(v[i]);
        assert(r@ =~= v@.subrange(from as int, i as int + 1));
        i = i + 1;
    }
    r
}

/// Index of the first occurrence of `c` in `s`, if any.
pub open spec fn find_char(s: Seq<char>, c: char) -> Option<int>
    decreases s.len(),
{
    if s.len() == 0 {
        None
    } else if s[0] == c {
        Some(0int)
    } else {
        match find_char(s.skip(1), c) {
            Some(j) => Some(j + 1),
            None => None,
        }
    }
}

pub proof fn lemma_find_char_found(s: Seq<char>, c: char, j: int)
    requires
        0 <= j < s.len(),
        s[j] == c,
        forall|m: int| 0 <= m < j ==> s[m] != c,
    ensures
        find_char(s, c) == Some(j),
    decreases j,
{
    if j == 0 {
    } else {
        assert(s[0] != c);
        assert forall|m: int| 0 <= m < j - 1 implies s.skip(1)[m] != c by {
            assert(s.skip(1)[m] == s[m + 1]);
        }
        assert(s.skip(1)[j - 1] == s[j]);
        lemma_find_char_found(s.skip(1), c, j - 1);
    }
}

pub proof fn lemma_find_char_bounds(s: Seq<char>, c: char)
    ensures
        find_char(s, c) matches Some(j) ==> 0 <= j < s.len() && s[j] == c,
    decreases s.len(),
{
    if s.len() == 0 {
    } else if s[0] == c {
    } else {
        lemma_find_char_bounds(s.skip(1), c);
        match find_char(s.skip(1), c) {
            Some(j) => {
                assert(s.skip(1)[j] == s[j + 1]);
            },
            None => {},
        }
    }
}

pub proof fn lemma_find_char_none(s: Seq<char>, c: char)
    requires
        forall|m: int| 0 <= m < s.len() ==> s[m] != c,
    ensures
        find_char(s, c) is None,
    decreases s.len(),
{
    if s.len() == 0 {
    } else {
        assert forall|m: int| 0 <= m < s.skip(1).len() implies s.skip(1)[m] != c by {
            assert(s.skip(1)[m] == s[m + 1]);
        }
        lemma_find_char_none(s.skip(1), c);
    }
}

/// The whitespace characters that separate a key from its value on one line.
pub open spec fn is_space(c: char) -> bool {
    c == ' ' || c == '\t' || c == '\r'
}

/// Runtime test for `is_space`.
pub fn space_char(c: char) -> (r: bool)
    ensures
        r == is_space(c),
{
    c == ' ' || c == '\t' || c == '\r'
}

/// `s` with its leading whitespace removed.
pub open spec fn skip_ws(s: Seq<char>) -> Seq<char>
    decreases s.len(),
{
    if s.len() > 0 && is_space(s[0]) {
        skip_ws(s.skip(1))
    } else {
        s
    }
}

/// The maximal run of non-whitespace characters at the front of `s`.
pub open spec fn head_token(s: Seq<char>) -> Seq<char>
    decreases s.len(),
{
    if s.len() == 0 || is_space(s[0]) {
        Seq::empty()
    } else {
        seq![s[0]] + head_token(s.skip(1))
    }
}

pub proof fn lemma_skip_ws_at(s: Seq<char>, a: int)
    requires
        0 <= a <= s.len(),
        forall|m: int| 0 <= m < a ==> is_space(s[m]),
        a < s.len() ==> !is_space(s[a]),
    ensures
        skip_ws(s) == s.skip(a),
    decreases a,
{
    if a == 0 {
        assert(s.skip(0) =~= s);
    } else {
        assert(is_space(s[0]));
        assert forall|m: int| 0 <= m < a - 1 implies is_space(s.skip(1)[m]) by {
            assert(s.skip(1)[m] == s[m + 1]);
        }
        if a - 1 < s.skip(1).len() {
            assert(s.skip(1)[a - 1] == s[a]);
        }
        lemma_skip_ws_at(s.skip(1), a - 1);
        assert(s.skip(1).skip(a - 1) =~= s.skip(a));
    }
}

pub proof fn lemma_head_token_at(s: Seq<char>, b: int)
    requires
        0 <= b <= s.len(),
        forall|m: int| 0 <= m < b ==> !is_space(s[m]),
        b < s.len() ==> is_space(s[b]),
    ensures
        head_token(s) == s.take(b),
    decreases b,
{
    if b == 0 {
        assert(s.take(0) =~= Seq::<char>::empty());
    } else {
        assert(!is_space(s[0]));
        assert forall|m: int| 0 <= m < b - 1 implies !is_space(s.skip(1)[m]) by {
            assert(s.skip(1)[m] == s[m + 1]);
        }
        if b - 1 < s.skip(1).len() {
            assert(s.skip(1)[b - 1] == s[b]);
        }
        lemma_head_token_at(s.skip(1), b - 1);
        assert(seq![s[0]] + s.skip(1).take(b - 1) =~= s.take(b));
    }
}

/// Decimal digits.
pub open spec fn is_digit(c: char) -> bool {
    48 <= c as u32 <= 57
}

pub open spec fn digit_val(c: char) -> int {
    c as u32 - 48
}

pub open spec fn all_digits(s: Seq<char>) -> bool {
    forall|m: int| 0 <= m < s.len() ==> is_digit(s[m])
}

/// Value of a digit string read in base ten.
pub open spec fn digits_val(s: Seq<char>) -> int
    decreases s.len(),
{
    if s.len() == 0 {
        0
    } else {
        digits_val(s.drop_last()) * 10 + digit_val(s.last())
    }
}

/// The number a decimal token denotes: an optional leading `+`, then one or
/// more digits, whose value must fit in a `u64`; anything else is no number.
pub open spec fn parse_u64_spec(s: Seq<char>) -> Option<u64> {
    let body = if s.len() > 0 && s[0] == '+' {
        s.skip(1)
    } else {
        s
    };
    if body.len() > 0 && all_digits(body) && digits_val(body) <= u64::MAX {
        Some(digits_val(body) as u64)
    } else {
        None
    }
}

pub proof fn lemma_digits_val_nonneg(s: Seq<char>)
    requires
        all_digits(s),
    ensures
        digits_val(s) >= 0,
    decreases s.len(),
{
    if s.len() == 0 {
    } else {
        assert(all_digits(s.drop_last()));
        lemma_digits_val_nonneg(s.drop_last());
        assert(is_digit(s.last()));
    }
}

pub proof fn lemma_digits_val_take_step(s: Seq<char>, i: int)
    requires
        0 <= i < s.len(),
    ensures
        digits_val(s.take(i + 1)) == digits_val(s.take(i)) * 10 + digit_val(s[i]),
{
    assert(s.take(i + 1).drop_last() =~= s.take(i));
    assert(s.take(i + 1).last() == s[i]);
}

pub proof fn lemma_digits_val_prefix_le(s: Seq<char>, i: int)
    requires
        all_digits(s),
        0 <= i <= s.len(),
    ensures
        digits_val(s.take(i)) <= digits_val(s),
    decreases s.len() - i,
{
    if i == s.len() {
        assert(s.take(i) =~= s);
    } else {
        assert(all_digits(s.take(i)));
        lemma_digits_val_nonneg(s.take(i));
        lemma_digits_val_take_step(s, i);
        assert(is_digit(s[i]));
        lemma_digits_val_prefix_le(s, i + 1);
    }
}

/// Reads `v` as a decimal `u64`, exactly as `parse_u64_spec` describes.
pub fn parse_u64_chars(v: &Vec<char>) -> (r: Option<u64>)
    ensures
        r == parse_u64_spec(v@),
{
    let start: usize = if v.len() > 0 && v[0] == '+' {
        1
    } else {
        0
    };
    let ghost body = if v@.len() > 0 && v@[0] == '+' {
        v@.skip(1)
    } else {
        v@
    };
    assert(body =~= v@.skip(start as int));
    if start >= v.len() {
        assert(body.len() == 0);
        return None;
    }
    let mut acc: u64 = 0;
    let mut i: usize = start;
    while i < v.len()
        invariant
            start <= i <= v.len(),
            start <= 1,
            body == (if v@.len() > 0 && v@[0] == '+' { v@.skip(1) } else { v@ }),
            body =~= v@.skip(start as int),
            all_digits(body.take(i - start)),
            acc == digits_val(body.take(i - start)),
        decreases v.len() - i,
    {
        let c = v[i];
        let cu = c as u32;
        proof {
            assert(body[i - start] == v@[i as int]);
        }
        if cu < 48 || cu > 57 {
            proof {
                assert(!is_digit(body[i - start]));
            }
            return None;
        }
        let d: u64 = (cu - 48) as u64;
        proof {
            lemma_digits_val_take_step(body, i - start);
            if all_digits(body) {
                lemma_digits_val_prefix_le(body, i - start + 1);
            }
        }
        let next = match acc.checked_mul(10) {
            Some(x) => x.checked_add(d),
            None => None,
        };
        match next {
            Some(x) => {
                acc = x;
            },
            None => {
                proof {
                    assert(digits_val(body.take(i - start + 1)) > u64::MAX);
                }
                return None;
            },
        }
        assert(body.take(i - start + 1) =~= body.take(i + 1 - start as int));
        i = i + 1;
    }
    proof {
        assert(body.take(i - start) =~= body);
        assert(body.len() > 0);
    }
    Some(acc)
}

} // verus!
