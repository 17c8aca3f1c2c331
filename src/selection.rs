//! Reading the user's choice of capsule: one line holding a 1-based number.

use vstd::prelude::*;
use vstd::string::StrSliceExecFns;

verus! {

/// Why a line does not select a capsule.
#[derive(Clone, Copy, Debug, PartialEq, Eq)]
pub enum SelectError {
    /// The line, once trimmed, is not a decimal number.
    NotANumber,
    /// The number is 0 or greater than the number of capsules offered.
    OutOfRange,
}

/// Unicode `White_Space`, the characters that trimming removes.
pub open spec fn is_white(c: char) -> bool {
    let v = c as int;
    (0x9 <= v <= 0xd) || v == 0x20 || v == 0x85 || v == 0xa0 || v == 0x1680 || (0x2000 <= v
        <= 0x200a) || v == 0x2028 || v == 0x2029 || v == 0x202f || v == 0x205f || v == 0x3000
}

pub open spec fn trim_start(s: Seq<char>) -> Seq<char>
    decreases s.len(),
{
    if s.len() > 0 && is_white(s[0]) {
        trim_start(s.drop_first())
    } else {
        s
    }
}

pub open spec fn trim_end(s: Seq<char>) -> Seq<char>
    decreases s.len(),
{
    if s.len() > 0 && is_white(s.last()) {
        trim_end(s.drop_last())
    } else {
        s
    }
}

/// `s` without leading and trailing white space.
pub open spec fn trimmed(s: Seq<char>) -> Seq<char> {
    trim_end(trim_start(s))
}

pub open spec fn is_digit(c: char) -> bool {
    48 <= c as int <= 57
}

/// The digits of a numeral: an optional leading `+` is not part of them.
pub open spec fn numeral_digits(t: Seq<char>) -> Seq<char> {
    if t.len() > 0 && t[0] == '+' {
        t.drop_first()
    } else {
        t
    }
}

pub open spec fn all_digits(d: Seq<char>) -> bool {
    forall|k: int| 0 <= k < d.len() ==> is_digit(#[trigger] d[k])
}

/// A numeral: an optional `+` followed by one or more decimal digits.
pub open spec fn is_numeral(t: Seq<char>) -> bool {
    numeral_digits(t).len() > 0 && all_digits(numeral_digits(t))
}

/// The value of a string of decimal digits.
pub open spec fn digits_value(d: Seq<char>) -> nat
    decreases d.len(),
{
    if d.len() == 0 {
        0
    } else {
        digits_value(d.drop_last()) * 10 + (d.last() as int - 48) as nat
    }
}

pub open spec fn numeral_value(t: Seq<char>) -> nat {
    digits_value(numeral_digits(t))
}

/// What choosing with line `line` among `count` capsules yields: the
/// 0-based index of the chosen capsule, or why there is none.
pub open spec fn selection(line: Seq<char>, count: nat) -> Result<nat, SelectError> {
    let t = trimmed(line);
    if !is_numeral(t) {
        Err(SelectError::NotANumber)
    } else if numeral_value(t) == 0 || numeral_value(t) > count {
        Err(SelectError::OutOfRange)
    } else {
        Ok((numeral_value(t) - 1) as nat)
    }
}

pub fn is_white_char(c: char) -> (r: bool)
    ensures
        r == is_white(c),
{
    let v = c as u32;
    (0x9 <= v && v <= 0xd) || v == 0x20 || v == 0x85 || v == 0xa0 || v == 0x1680 || (0x2000 <= v
        && v <= 0x200a) || v == 0x2028 || v == 0x2029 || v == 0x202f || v == 0x205f || v == 0x3000
}

proof fn lemma_trim_start_at(s: Seq<char>, a: int)
    requires
        0 <= a <= s.len(),
        forall|k: int| 0 <= k < a ==> is_white(#[trigger] s[k]),
        a < s.len() ==> !is_white(s[a]),
    ensures
        trim_start(s) == s.skip(a),
    decreases a,
{
    if a == 0 {
        assert(s.skip(0) =~= s);
    } else {
        lemma_trim_start_at(s.drop_first(), a - 1);
        assert(s.drop_first().skip(a - 1) =~= s.skip(a));
    }
}

proof fn lemma_trim_end_at(s: Seq<char>, b: int)
    requires
        0 <= b <= s.len(),
        forall|k: int| b <= k < s.len() ==> is_white(#[trigger] s[k]),
        b > 0 ==> !is_white(s[b - 1]),
    ensures
        trim_end(s) == s.take(b),
    decreases s.len() - b,
{
    if b == s.len() {
        assert(s.take(b) =~= s);
    } else {
        lemma_trim_end_at(s.drop_last(), b);
        assert(s.drop_last().take(b) =~= s.take(b));
    }
}

/// `s` without leading and trailing white space.
pub fn trim(s: &str) -> (r: &str)
    ensures
        r@ == trimmed(s@),
{
    let n = s.unicode_len();
    let mut a: usize = 0;
    while a < n
        invariant
            a <= n,
            n == s@.len(),
            forall|k: int| 0 <= k < a ==> is_white(#[trigger] s@[k]),
        ensures
            a <= n,
            forall|k: int| 0 <= k < a ==> is_white(#[trigger] s@[k]),
            a < n ==> !is_white(s@[a as int]),
        decreases n - a,
    {
        if !is_white_char(s.get_char(a)) {
            break;
        }
        a += 1;
    }
    let mut b: usize = n;
    while b > a
        invariant
            a <= b <= n,
            n == s@.len(),
            forall|k: int| b <= k < n ==> is_white(#[trigger] s@[k]),
        ensures
            a <= b <= n,
            forall|k: int| b <= k < n ==> is_white(#[trigger] s@[k]),
            b > a ==> !is_white(s@[b - 1]),
        decreases b,
    {
        if !is_white_char(s.get_char(b - 1)) {
            break;
        }
        b -= 1;
    }
    proof {
        lemma_trim_start_at(s@, a as int);
        let u = s@.skip(a as int);
        lemma_trim_end_at(u, (b - a) as int);
        assert(u.take((b - a) as int) =~= s@.subrange(a as int, b as int));
    }
    s.substring_char(a, b)
}

proof fn lemma_digits_value_grows(d: Seq<char>, i: int)
    requires
        0 <= i < d.len(),
        is_digit(d[i]),
    ensures
        digits_value(d.take(i + 1)) == digits_value(d.take(i)) * 10 + (d[i] as int - 48),
        digits_value(d.take(i + 1)) >= digits_value(d.take(i)),
{
    assert(d.take(i + 1).drop_last() =~= d.take(i));
}

/// The choice that `line` makes among `count` capsules: the 0-based index
/// of the capsule, or why the line chooses none.
pub fn parse_selection(line: &str, count: usize) -> (r: Result<usize, SelectError>)
    ensures
        r matches Ok(i) ==> selection(line@, count as nat) == Ok::<nat, SelectError>(i as nat),
        r matches Err(e) ==> selection(line@, count as nat) == Err::<nat, SelectError>(e),
        r matches Ok(i) ==> i < count,
{
    let t = trim(line);
    let n = t.unicode_len();
    let mut start: usize = 0;
    if n > 0 && t.get_char(0) == '+' {
        start = 1;
    }
    let ghost d = numeral_digits(t@);
    assert(d =~= t@.skip(start as int));
    if start == n {
        return Err(SelectError::NotANumber);
    }
    let mut i: usize = start;
    let mut v: usize = 0;
    let mut big = false;
    assert(d.take(0) =~= Seq::<char>::empty());
    while i < n
        invariant
            start <= i <= n,
            n == t@.len(),
            d == t@.skip(start as int),
            d == numeral_digits(t@),
            t@ == trimmed(line@),
            forall|k: int| 0 <= k < i - start ==> is_digit(#[trigger] d[k]),
            !big ==> v as nat == digits_value(d.take(i - start)) && v <= count,
            big ==> digits_value(d.take(i - start)) > count,
        decreases n - i,
    {
        let c = t.get_char(i) as u32;
        if !(48 <= c && c <= 57) {
            assert(!is_digit(d[i - start]));
            assert(!all_digits(d));

            return Err(SelectError::NotANumber);
        }
        proof {
            lemma_digits_value_grows(d, i - start);
        }
        if !big {
            let nv: u128 = (v as u128) * 10 + (c - 48) as u128;
            if nv > count as u128 {
                big = true;
            } else {
                v = nv as usize;
            }
        }
        i += 1;
    }
    assert(d.take(n - start) =~= d);
    if big || v == 0 {
        Err(SelectError::OutOfRange)
    } else {
        Ok(v - 1)
    }
}

/// The capsule that `line` picks from `menu`, numbered from 1 in the
/// menu's order, or why it picks none.
pub fn choose_capsule(menu: &Vec<String>, line: &str) -> (r: Result<String, SelectError>)
    ensures
        selection(line@, menu@.len()) matches Ok(i) ==> r matches Ok(n) && n@ == menu@[i as int]@,
        selection(line@, menu@.len()) matches Err(e) ==> r == Err::<String, SelectError>(e),
{
    match parse_selection(line, menu.len()) {
        Ok(i) => Ok(menu[i].clone()),
        Err(e) => Err(e),
    }
}

/// Choosing number 0, or a number above the count of capsules offered, is
/// rejected as out of range; a choice that succeeds always lies in range.
pub proof fn lemma_selection_in_bounds(line: Seq<char>, count: nat)
    ensures
        is_numeral(trimmed(line)) && (numeral_value(trimmed(line)) == 0 || numeral_value(
            trimmed(line),
        ) > count) ==> selection(line, count) == Err::<nat, SelectError>(SelectError::OutOfRange),
        selection(line, count) matches Ok(i) ==> i < count,
{
}

} // verus!
