//! Small operations on text.

use vstd::prelude::*;
use vstd::string::*;

verus! {

/// `String::from_iter`: the text made of the given characters.
#[verifier::external_body]
pub(crate) fn string_of(chars: &Vec<char>) -> (r: String)
    ensures
        r@ == chars@,
{
    String::from_iter(chars.iter())
}

/// The characters of a text.
pub fn chars_of(s: &str) -> (r: Vec<char>)
    ensures
        r@ == s@,
{
    let n: usize = s.unicode_len();
    let mut out: Vec<char> = Vec::new();
    let mut i: usize = 0;
    while i < n
        invariant
            i <= n,
            n == s@.len(),
            out@ =~= s@.take(i as int),
        decreases n - i,
    {
        out.push(s.get_char(i));
        i += 1;
    }
    out
}

/// Whether two texts are the same.
pub fn same(a: &str, b: &str) -> (r: bool)
    ensures
        r == (a@ == b@),
{
    a.to_owned() == b.to_owned()
}

/// Whether a list of texts has one.
pub open spec fn listed(list: Seq<String>, s: Seq<char>) -> bool {
    exists|i: int| 0 <= i < list.len() && (#[trigger] list[i])@ == s
}

/// Whether a list of texts has one.
pub fn is_listed(list: &Vec<String>, s: &str) -> (r: bool)
    ensures
        r == listed(list@, s@),
{
    let mut i: usize = 0;
    while i < list.len()
        invariant
            i <= list@.len(),
            forall|k: int| 0 <= k < i ==> (#[trigger] list@[k])@ != s@,
        decreases list@.len() - i,
    {
        if same(list[i].as_str(), s) {
            assert(list@[i as int]@ == s@);
            return true;
        }
        i += 1;
    }
    false
}

/// The texts of a list, as they read.
pub open spec fn texts(list: Seq<String>) -> Seq<Seq<char>> {
    Seq::new(list.len(), |i: int| list[i]@)
}

/// An ASCII letter in its lower case; another character as it is.
pub open spec fn lower_char(c: char) -> char {
    if 'A' <= c && c <= 'Z' {
        (c as u32 + 32) as char
    } else {
        c
    }
}

/// A text with its ASCII letters in lower case.
pub open spec fn lowered(s: Seq<char>) -> Seq<char> {
    Seq::new(s.len(), |i: int| lower_char(s[i]))
}

/// A text with its ASCII letters in lower case.
pub fn lower(s: &str) -> (r: String)
    ensures
        r@ == lowered(s@),
{
    let chars = chars_of(s);
    let mut out: Vec<char> = Vec::new();
    let mut i: usize = 0;
    while i < chars.len()
        invariant
            i <= chars@.len(),
            chars@ == s@,
            out@ =~= lowered(s@).take(i as int),
        decreases chars@.len() - i,
    {
        let c = chars[i];
        let l = if 'A' <= c && c <= 'Z' {
            (c as u8 + 32) as char
        } else {
            c
        };
        out.push(l);
        i += 1;
    }
    assert(out@ =~= lowered(s@));
    string_of(&out)
}

/// The position of the first `mark` at or after `from`, else the length.
pub open spec fn mark_from(s: Seq<char>, mark: char, from: int) -> int
    decreases s.len() - from,
{
    if from >= s.len() {
        s.len() as int
    } else if s[from] == mark {
        from
    } else {
        mark_from(s, mark, from + 1)
    }
}

/// A search for a mark finds the first one, or the end.
pub proof fn mark_is_first(s: Seq<char>, mark: char, from: int)
    requires
        0 <= from <= s.len(),
    ensures
        from <= mark_from(s, mark, from) <= s.len(),
        mark_from(s, mark, from) < s.len() ==> s[mark_from(s, mark, from)] == mark,
        forall|j: int| from <= j < mark_from(s, mark, from) ==> s[j] != mark,
    decreases s.len() - from,
{
    if from < s.len() && s[from] != mark {
        mark_is_first(s, mark, from + 1);
    }
}

/// The position of the first `mark` at or after `from`, else the length.
pub fn find_mark(s: &Vec<char>, mark: char, from: usize) -> (r: usize)
    requires
        from <= s@.len(),
    ensures
        r == mark_from(s@, mark, from as int),
        from <= r <= s@.len(),
        r < s@.len() ==> s@[r as int] == mark,
{
    let mut i: usize = from;
    while i < s.len()
        invariant
            from <= i <= s@.len(),
            mark_from(s@, mark, from as int) == mark_from(s@, mark, i as int),
        decreases s@.len() - i,
    {
        if s[i] == mark {
            return i;
        }
        i += 1;
    }
    i
}

/// The text between two positions.
pub fn part(s: &Vec<char>, from: usize, to: usize) -> (r: String)
    requires
        from <= to <= s@.len(),
    ensures
        r@ == s@.subrange(from as int, to as int),
{
    let mut out: Vec<char> = Vec::new();
    let mut i: usize = from;
    while i < to
        invariant
            from <= i <= to <= s@.len(),
            out@ =~= s@.subrange(from as int, i as int),
        decreases to - i,
    {
        out.push(s[i]);
        i += 1;
    }
    string_of(&out)
}

/// What follows the last `mark` of a text; all of it where there is none.
pub open spec fn after_last(s: Seq<char>, mark: char) -> Seq<char>
    decreases s.len(),
{
    if s.len() == 0 || s.last() == mark {
        Seq::empty()
    } else {
        after_last(s.drop_last(), mark).push(s.last())
    }
}

/// What follows the last `mark` of a text.
pub fn tail_after(s: &str, mark: char) -> (r: String)
    ensures
        r@ == after_last(s@, mark),
{
    let chars = chars_of(s);
    let n: usize = chars.len();
    let mut i: usize = n;
    assert(s@.subrange(n as int, n as int) =~= Seq::<char>::empty());
    assert(s@.take(n as int) =~= s@);
    assert(after_last(s@, mark) =~= after_last(s@.take(n as int), mark) + s@.subrange(
        n as int,
        n as int,
    ));
    while i > 0 && chars[i - 1] != mark
        invariant
            i <= n,
            n == s@.len(),
            chars@ == s@,
            after_last(s@, mark) =~= after_last(s@.take(i as int), mark) + s@.subrange(
                i as int,
                n as int,
            ),
        decreases i,
    {
        assert(s@.take(i as int).drop_last() =~= s@.take(i - 1));
        i -= 1;
    }
    assert(after_last(s@.take(i as int), mark) =~= Seq::<char>::empty());
    assert(s@.subrange(i as int, n as int) =~= after_last(s@, mark));
    part(&chars, i, n)
}

/// The value of a text of decimal digits; none where it has anything else.
pub open spec fn digits_value(s: Seq<char>) -> Option<int>
    decreases s.len(),
{
    if s.len() == 0 {
        Some(0)
    } else {
        match digits_value(s.drop_last()) {
            Some(v) if '0' <= s.last() && s.last() <= '9' => Some(
                v * 10 + (s.last() as u32 - '0' as u32),
            ),
            _ => None,
        }
    }
}

/// A whole decimal number: digits, with at most a plus sign before them.
pub open spec fn whole_in(s: Seq<char>) -> Option<int> {
    let digits = if s.len() > 0 && s[0] == '+' {
        s.subrange(1, s.len() as int)
    } else {
        s
    };
    if digits.len() == 0 {
        None
    } else {
        digits_value(digits)
    }
}

/// A whole decimal number of 32 bits.
pub open spec fn number_in(s: Seq<char>) -> Option<u32> {
    match whole_in(s) {
        Some(v) if v <= u32::MAX => Some(v as u32),
        _ => None,
    }
}

/// A whole decimal number that can be an index.
pub open spec fn index_in(s: Seq<char>) -> Option<usize> {
    match whole_in(s) {
        Some(v) if v <= usize::MAX => Some(v as usize),
        _ => None,
    }
}

proof fn digits_grow(s: Seq<char>, n: int)
    requires
        0 <= n <= s.len(),
    ensures
        digits_value(s.take(n)) is None ==> digits_value(s) is None,
        digits_value(s.take(n)) matches Some(v) ==> v >= 0,
        digits_value(s) matches Some(w) ==> (digits_value(s.take(n)) matches Some(v) && v <= w),
    decreases s.len(),
{
    if n == s.len() {
        assert(s.take(n) =~= s);
        if s.len() > 0 {
            digits_grow(s.drop_last(), s.len() - 1);
            assert(s.drop_last().take(s.len() - 1) =~= s.drop_last());
        }
    } else {
        digits_grow(s.drop_last(), n);
        assert(s.drop_last().take(n) =~= s.take(n));
    }
}

fn parse_up_to(s: &str, limit: u64) -> (r: Option<u64>)
    ensures
        r == (match whole_in(s@) {
            Some(v) if v <= limit => Some(v as u64),
            _ => None,
        }),
        r matches Some(v) ==> v <= limit && whole_in(s@) == Some(v as int),
{
    let chars = chars_of(s);
    let from: usize = if chars.len() > 0 && chars[0] == '+' {
        1
    } else {
        0
    };
    if from == chars.len() {
        return None;
    }
    let ghost digits = s@.subrange(from as int, s@.len() as int);
    assert(from == 0 ==> digits =~= s@);
    let mut v: u128 = 0;
    let mut i: usize = from;
    assert(digits.take(0) =~= Seq::<char>::empty());
    while i < chars.len()
        invariant
            from <= i <= chars@.len(),
            from < chars@.len(),
            chars@ == s@,
            digits == s@.subrange(from as int, s@.len() as int),
            whole_in(s@) == digits_value(digits),
            v <= limit,
            digits_value(digits.take(i - from)) == Some(v as int),
        decreases chars@.len() - i,
    {
        let c = chars[i];
        assert(digits.take(i - from + 1).drop_last() =~= digits.take(i - from));
        assert(digits.take(i - from + 1).last() == c);
        if c < '0' || c > '9' {
            proof {
                digits_grow(digits, i - from + 1);
            }
            return None;
        }
        v = v * 10 + (c as u32 - '0' as u32) as u128;
        if v > limit as u128 {
            proof {
                digits_grow(digits, i - from + 1);
            }
            return None;
        }
        i += 1;
    }
    assert(digits.take(i - from) =~= digits);
    Some(v as u64)
}

/// Reads a whole decimal number of 32 bits.
pub fn parse_number(s: &str) -> (r: Option<u32>)
    ensures
        r == number_in(s@),
{
    match parse_up_to(s, 0xffff_ffff) {
        None => None,
        Some(v) => Some(v as u32),
    }
}

/// Reads a whole decimal number that can be an index.
pub fn parse_index(s: &str) -> (r: Option<usize>)
    ensures
        r == index_in(s@),
{
    match parse_up_to(s, usize::MAX as u64) {
        None => None,
        Some(v) => Some(v as usize),
    }
}

/// The character of a decimal digit.
pub open spec fn digit(d: int) -> char {
    (d + 48) as u8 as char
}

/// A number in decimal digits.
pub open spec fn decimal(n: int) -> Seq<char>
    decreases n,
{
    if n < 10 {
        seq![digit(n)]
    } else {
        decimal(n / 10).push(digit(n % 10))
    }
}

fn push_decimal(out: &mut Vec<char>, n: u64)
    ensures
        final(out)@ == old(out)@ + decimal(n as int),
    decreases n,
{
    if n >= 10 {
        push_decimal(out, n / 10);
    }
    out.push((48 + n % 10) as u8 as char);
    assert(out@ =~= old(out)@ + decimal(n as int));
}

/// A number in decimal digits.
pub fn number_text(n: u64) -> (r: String)
    ensures
        r@ == decimal(n as int),
{
    let mut out: Vec<char> = Vec::new();
    push_decimal(&mut out, n);
    assert(out@ =~= decimal(n as int));
    string_of(&out)
}

/// A number that may be negative, in decimal digits.
pub open spec fn signed_decimal(n: int) -> Seq<char> {
    if n < 0 {
        seq!['-'] + decimal(-n)
    } else {
        decimal(n)
    }
}

/// A number that may be negative, in decimal digits.
pub fn signed_text(n: i32) -> (r: String)
    ensures
        r@ == signed_decimal(n as int),
{
    let mut out: Vec<char> = Vec::new();
    if n < 0 {
        out.push('-');
        push_decimal(&mut out, (-(n as i64)) as u64);
    } else {
        push_decimal(&mut out, n as u64);
    }
    assert(out@ =~= signed_decimal(n as int));
    string_of(&out)
}

/// Two texts, one after the other.
pub fn joined(a: &str, b: &str) -> (r: String)
    ensures
        r@ == a@ + b@,
{
    let mut out = a.to_owned();
    out.append(b);
    out
}

/// A number read back from its digits is the number.
pub proof fn digits_read_back(n: int)
    requires
        n >= 0,
    ensures
        digits_value(decimal(n)) == Some(n),
        decimal(n).len() > 0,
        decimal(n)[0] != '+',
        whole_in(decimal(n)) == Some(n),
    decreases n,
{
    if n < 10 {
        let s = decimal(n);
        assert(s.drop_last() =~= Seq::<char>::empty());
        assert(digits_value(s.drop_last()) == Some(0int));
    } else {
        digits_read_back(n / 10);
        assert(decimal(n).drop_last() =~= decimal(n / 10));
    }
}

/// Lower case changes the letters from A to Z, which are 32 places apart from
/// the small ones, and nothing else.
pub proof fn only_capitals_are_lowered(s: Seq<char>, i: int)
    requires
        0 <= i < s.len(),
    ensures
        lowered(s).len() == s.len(),
        0x41 <= s[i] as u32 <= 0x5a ==> lowered(s)[i] as u32 == s[i] as u32 + 32,
        !(0x41 <= s[i] as u32 <= 0x5a) ==> lowered(s)[i] == s[i],
        lowered(lowered(s)) == lowered(s),
{
    assert forall|k: int| 0 <= k < s.len() implies lower_char(#[trigger] lower_char(s[k]))
        == lower_char(s[k]) by {
        let c = s[k];
    }
    assert(lowered(lowered(s)) =~= lowered(s));
}

/// What follows the last mark is everything behind it; without a mark it is
/// the whole text.
pub proof fn the_tail_is_behind_the_last_mark(a: Seq<char>, b: Seq<char>, mark: char)
    requires
        forall|j: int| 0 <= j < b.len() ==> #[trigger] b[j] != mark,
    ensures
        after_last(b, mark) == b,
        after_last(a.push(mark) + b, mark) == b,
    decreases b.len(),
{
    let s = a.push(mark) + b;
    if b.len() == 0 {
        assert(s =~= a.push(mark));
        assert(s.last() == mark);
    } else {
        the_tail_is_behind_the_last_mark(a, b.drop_last(), mark);
        assert(s.last() == b.last());
        assert(s.drop_last() =~= a.push(mark) + b.drop_last());
        assert(b.drop_last().push(b.last()) =~= b);
    }
}

/// A plus sign before a number changes nothing, and nothing is no number.
pub proof fn a_plus_sign_does_not_count(s: Seq<char>)
    requires
        s.len() > 0,
        s[0] != '+',
    ensures
        whole_in(seq!['+'] + s) == whole_in(s),
        whole_in(s) == digits_value(s),
        whole_in(Seq::empty()).is_none(),
        whole_in(seq!['+']).is_none(),
{
    let t = seq!['+'] + s;
    assert(t[0] == '+');
    assert(t.subrange(1, t.len() as int) =~= s);
    assert(seq!['+'].subrange(1, 1) =~= Seq::<char>::empty());
}

/// Digits count by their place: one more digit makes ten times the number and
/// the digit. Anything but a digit makes it no number.
pub proof fn digits_count_by_their_place(s: Seq<char>, c: char)
    ensures
        digits_value(Seq::empty()) == Some(0int),
        0x30 <= c as u32 <= 0x39 && digits_value(s).is_some() ==> digits_value(s.push(c)) == Some(
            digits_value(s).unwrap() * 10 + (c as u32 - 0x30),
        ),
        !(0x30 <= c as u32 <= 0x39) ==> digits_value(s.push(c)).is_none(),
{
    assert(s.push(c).drop_last() =~= s);
}

/// A number that fits is read, one that does not is refused.
pub proof fn numbers_that_fit_are_read(s: Seq<char>)
    ensures
        whole_in(s).is_none() ==> number_in(s).is_none() && index_in(s).is_none(),
        whole_in(s) matches Some(v) ==> {
            &&& 0 <= v <= 0xffff_ffff ==> (number_in(s) matches Some(n) && n == v)
            &&& v > 0xffff_ffff ==> number_in(s).is_none()
            &&& 0 <= v <= usize::MAX ==> (index_in(s) matches Some(n) && n == v)
            &&& v > usize::MAX ==> index_in(s).is_none()
        },
{
}

/// A number below zero is written with a minus sign before it.
pub proof fn negative_numbers_have_a_minus_sign(n: int)
    requires
        n > 0,
    ensures
        signed_decimal(-n) == seq!['-'] + signed_decimal(n),
        signed_decimal(n) == decimal(n),
        signed_decimal(0) == decimal(0),
{
}

} // verus!
