//! Decimal numerals and the small string tools that the codecs share.

use vstd::prelude::*;

verus! {

/// The value of a decimal digit; `None` for any other character.
pub open spec fn digit_value(c: char) -> Option<nat> {
    if c == '0' {
        Some(0nat)
    } else if c == '1' {
        Some(1nat)
    } else if c == '2' {
        Some(2nat)
    } else if c == '3' {
        Some(3nat)
    } else if c == '4' {
        Some(4nat)
    } else if c == '5' {
        Some(5nat)
    } else if c == '6' {
        Some(6nat)
    } else if c == '7' {
        Some(7nat)
    } else if c == '8' {
        Some(8nat)
    } else if c == '9' {
        Some(9nat)
    } else {
        None
    }
}

/// The digit that writes a number below ten.
pub open spec fn digit_char(d: nat) -> char {
    if d == 0 {
        '0'
    } else if d == 1 {
        '1'
    } else if d == 2 {
        '2'
    } else if d == 3 {
        '3'
    } else if d == 4 {
        '4'
    } else if d == 5 {
        '5'
    } else if d == 6 {
        '6'
    } else if d == 7 {
        '7'
    } else if d == 8 {
        '8'
    } else {
        '9'
    }
}

/// Whether every character is a decimal digit.
pub open spec fn all_digits(s: Seq<char>) -> bool {
    forall|i: int| 0 <= i < s.len() ==> (#[trigger] digit_value(s[i])) is Some
}

/// The number that a run of decimal digits writes, most significant digit
/// first. Meaningful where `all_digits` holds.
pub open spec fn numeral_value(s: Seq<char>) -> nat
    decreases s.len(),
{
    if s.len() == 0 {
        0
    } else {
        numeral_value(s.drop_last()) * 10 + match digit_value(s.last()) {
            Some(d) => d,
            None => 0,
        }
    }
}

/// The decimal numeral of a number, without leading zeros.
pub open spec fn numeral(n: nat) -> Seq<char>
    decreases n,
{
    if n < 10 {
        seq![digit_char(n)]
    } else {
        numeral(n / 10).push(digit_char(n % 10))
    }
}

/// A numeral is made of digits, is not empty, and writes its number.
pub proof fn lemma_numeral(n: nat)
    ensures
        all_digits(numeral(n)),
        numeral(n).len() >= 1,
        numeral_value(numeral(n)) == n,
    decreases n,
{
    if n < 10 {
        let s = numeral(n);
        assert(s.len() == 1);
        assert(s[0] == digit_char(n));
        assert(s.drop_last() =~= Seq::<char>::empty());
        assert(numeral_value(s.drop_last()) == 0);
        assert(s.last() == digit_char(n));
    } else {
        lemma_numeral(n / 10);
        let p = numeral(n / 10);
        let s = numeral(n);
        assert(s == p.push(digit_char(n % 10)));
        assert(s.drop_last() =~= p);
        assert(s.last() == digit_char(n % 10));
        assert forall|i: int| 0 <= i < s.len() implies (#[trigger] digit_value(s[i])) is Some by {
            if i < p.len() {
                assert(s[i] == p[i]);
            }
        }
    }
}

/// Appending a digit multiplies by ten and adds the digit.
pub proof fn lemma_numeral_value_push(s: Seq<char>, c: char)
    ensures
        numeral_value(s.push(c)) == numeral_value(s) * 10 + match digit_value(c) {
            Some(d) => d,
            None => 0,
        },
{
    assert(s.push(c).drop_last() =~= s);
    assert(s.push(c).last() == c);
}

/// The value of a decimal digit; `None` for any other character.
pub fn digit_of(c: char) -> (d: Option<u8>)
    ensures
        match d {
            Some(v) => digit_value(c) == Some(v as nat),
            None => digit_value(c) is None,
        },
{
    match c {
        '0' => Some(0),
        '1' => Some(1),
        '2' => Some(2),
        '3' => Some(3),
        '4' => Some(4),
        '5' => Some(5),
        '6' => Some(6),
        '7' => Some(7),
        '8' => Some(8),
        '9' => Some(9),
        _ => None,
    }
}

/// The characters of a string.
pub fn chars_of(s: &str) -> (r: Vec<char>)
    ensures
        r@ == s@,
{
    let mut out: Vec<char> = Vec::new();
    for c in it: s.chars()
        invariant
            it.seq() == s@,
            out@ == it.seq().subrange(0, it.index() as int),
    {
        out.push(c);
        assert(out@ =~= it.seq().subrange(0, it.index() + 1));
    }
    assert(out@ =~= s@);
    out
}

/// Whether the characters from `from` on start with those of `prefix`.
pub open spec fn has_prefix_at(s: Seq<char>, from: int, prefix: Seq<char>) -> bool {
    &&& 0 <= from
    &&& from + prefix.len() <= s.len()
    &&& s.subrange(from, from + prefix.len()) == prefix
}

/// Whether `chars` holds `prefix` at position `from`.
pub fn starts_with_at(chars: &Vec<char>, from: usize, prefix: &str) -> (r: bool)
    ensures
        r == has_prefix_at(chars@, from as int, prefix@),
{
    let p = chars_of(prefix);
    if from > chars.len() || p.len() > chars.len() - from {
        return false;
    }
    let mut i: usize = 0;
    while i < p.len()
        invariant
            p@ == prefix@,
            from + p.len() <= chars.len(),
            i <= p.len(),
            chars@.subrange(from as int, from + i) == p@.subrange(0, i as int),
        decreases p.len() - i,
    {
        if chars[from + i] != p[i] {
            proof {
                let a = chars@.subrange(from as int, from + p.len());
                assert(a[i as int] == chars@[from + i]);
            }
            return false;
        }
        assert(chars@.subrange(from as int, from + i + 1) =~= chars@.subrange(
            from as int,
            from + i,
        ).push(chars@[from + i]));
        assert(p@.subrange(0, i + 1) =~= p@.subrange(0, i as int).push(p@[i as int]));
        i += 1;
    }
    assert(p@.subrange(0, p.len() as int) =~= p@);
    true
}

/// The end of the run of decimal digits that starts at `from`.
pub open spec fn digits_end(s: Seq<char>, from: int) -> int
    decreases s.len() - from,
{
    if 0 <= from < s.len() && digit_value(s[from]) is Some {
        digits_end(s, from + 1)
    } else {
        from
    }
}

/// The run of digits from `from` ends at `digits_end`, holds digits only,
/// and is followed by no digit.
pub proof fn lemma_digits_end(s: Seq<char>, from: int)
    requires
        0 <= from <= s.len(),
    ensures
        from <= digits_end(s, from) <= s.len(),
        all_digits(s.subrange(from, digits_end(s, from))),
        digits_end(s, from) < s.len() ==> digit_value(s[digits_end(s, from)]) is None,
    decreases s.len() - from,
{
    if from < s.len() && digit_value(s[from]) is Some {
        lemma_digits_end(s, from + 1);
        let e = digits_end(s, from);
        let run = s.subrange(from, e);
        assert forall|i: int| 0 <= i < run.len() implies (#[trigger] digit_value(run[i]))
            is Some by {
            if i > 0 {
                assert(run[i] == s.subrange(from + 1, e)[i - 1]);
            }
        }
    }
}

/// A numeral that was read: where it ends, and its value if the value is at
/// most `limit`.
pub(crate) struct Numeral {
    pub end: usize,
    pub value: Option<u64>,
}

/// Reads the run of decimal digits that starts at `from`.
pub(crate) fn read_numeral(chars: &Vec<char>, from: usize, limit: u64) -> (r: Numeral)
    requires
        from <= chars.len(),
        limit <= 0xffff_ffff_ffff,
    ensures
        r.end == digits_end(chars@, from as int),
        match r.value {
            Some(v) => v == numeral_value(chars@.subrange(from as int, r.end as int)) && v <= limit,
            None => numeral_value(chars@.subrange(from as int, r.end as int)) > limit,
        },
{
    let mut i: usize = from;
    let mut acc: u64 = 0;
    let mut over: bool = false;
    proof {
        assert(chars@.subrange(from as int, from as int) =~= Seq::<char>::empty());
    }
    while i < chars.len()
        invariant
            from <= i <= chars.len(),
            limit <= 0xffff_ffff_ffff,
            digits_end(chars@, from as int) == digits_end(chars@, i as int),
            !over ==> acc == numeral_value(chars@.subrange(from as int, i as int)) && acc <= limit,
            over ==> numeral_value(chars@.subrange(from as int, i as int)) > limit,
        decreases chars.len() - i,
    {
        match digit_of(chars[i]) {
            None => {
                return Numeral { end: i, value: if over { None } else { Some(acc) } };
            },
            Some(d) => {
                proof {
                    let run = chars@.subrange(from as int, i as int);
                    assert(chars@.subrange(from as int, i + 1) =~= run.push(chars@[i as int]));
                    lemma_numeral_value_push(run, chars@[i as int]);
                }
                if !over {
                    let next: u64 = acc * 10 + d as u64;
                    if next > limit {
                        over = true;
                    } else {
                        acc = next;
                    }
                }
                i += 1;
            },
        }
    }
    Numeral { end: i, value: if over { None } else { Some(acc) } }
}

/// The string that holds one decimal digit.
fn digit_text(d: u64) -> (r: &'static str)
    requires
        d < 10,
    ensures
        r@ == seq![digit_char(d as nat)],
{
    proof {
        reveal_strlit("0");
        reveal_strlit("1");
        reveal_strlit("2");
        reveal_strlit("3");
        reveal_strlit("4");
        reveal_strlit("5");
        reveal_strlit("6");
        reveal_strlit("7");
        reveal_strlit("8");
        reveal_strlit("9");
    }
    let r = if d == 0 {
        "0"
    } else if d == 1 {
        "1"
    } else if d == 2 {
        "2"
    } else if d == 3 {
        "3"
    } else if d == 4 {
        "4"
    } else if d == 5 {
        "5"
    } else if d == 6 {
        "6"
    } else if d == 7 {
        "7"
    } else if d == 8 {
        "8"
    } else {
        "9"
    };
    assert(r@ =~= seq![digit_char(d as nat)]);
    r
}

/// Appends the decimal numeral of `n` to `out`.
pub fn push_numeral(out: &mut String, n: u64)
    ensures
        final(out)@ == old(out)@ + numeral(n as nat),
    decreases n,
{
    if n >= 10 {
        push_numeral(out, n / 10);
    }
    out.append(digit_text(n % 10));
    assert(final(out)@ =~= old(out)@ + numeral(n as nat));
}

/// Whether the character is white space, as Unicode defines it.
pub open spec fn is_space(c: char) -> bool {
    ||| c == '\u{9}'
    ||| c == '\u{a}'
    ||| c == '\u{b}'
    ||| c == '\u{c}'
    ||| c == '\u{d}'
    ||| c == ' '
    ||| c == '\u{85}'
    ||| c == '\u{a0}'
    ||| c == '\u{1680}'
    ||| c == '\u{2000}'
    ||| c == '\u{2001}'
    ||| c == '\u{2002}'
    ||| c == '\u{2003}'
    ||| c == '\u{2004}'
    ||| c == '\u{2005}'
    ||| c == '\u{2006}'
    ||| c == '\u{2007}'
    ||| c == '\u{2008}'
    ||| c == '\u{2009}'
    ||| c == '\u{200a}'
    ||| c == '\u{2028}'
    ||| c == '\u{2029}'
    ||| c == '\u{202f}'
    ||| c == '\u{205f}'
    ||| c == '\u{3000}'
}

/// Whether the character is white space, as Unicode defines it.
pub fn space(c: char) -> (r: bool)
    ensures
        r == is_space(c),
{
    c == '\u{9}' || c == '\u{a}' || c == '\u{b}' || c == '\u{c}' || c == '\u{d}' || c == ' '
        || c == '\u{85}' || c == '\u{a0}' || c == '\u{1680}' || c == '\u{2000}' || c == '\u{2001}'
        || c == '\u{2002}' || c == '\u{2003}' || c == '\u{2004}' || c == '\u{2005}' || c
        == '\u{2006}' || c == '\u{2007}' || c == '\u{2008}' || c == '\u{2009}' || c == '\u{200a}'
        || c == '\u{2028}' || c == '\u{2029}' || c == '\u{202f}' || c == '\u{205f}' || c
        == '\u{3000}'
}

/// The end of the run of white space that starts at `from`.
pub open spec fn spaces_end(s: Seq<char>, from: int) -> int
    decreases s.len() - from,
{
    if 0 <= from < s.len() && is_space(s[from]) {
        spaces_end(s, from + 1)
    } else {
        from
    }
}

/// The run of white space from `from` stays inside the string.
pub proof fn lemma_spaces_end(s: Seq<char>, from: int)
    requires
        0 <= from <= s.len(),
    ensures
        from <= spaces_end(s, from) <= s.len(),
    decreases s.len() - from,
{
    if from < s.len() && is_space(s[from]) {
        lemma_spaces_end(s, from + 1);
    }
}

/// Skips the run of white space that starts at `from`.
pub(crate) fn skip_spaces(chars: &Vec<char>, from: usize) -> (end: usize)
    requires
        from <= chars.len(),
    ensures
        end == spaces_end(chars@, from as int),
        from <= end <= chars.len(),
{
    let mut i: usize = from;
    while i < chars.len() && space(chars[i])
        invariant
            from <= i <= chars.len(),
            spaces_end(chars@, from as int) == spaces_end(chars@, i as int),
        decreases chars.len() - i,
    {
        i += 1;
    }
    i
}

/// A run of digits that reaches from `from` to `to`, where no digit
/// follows, is the run that `digits_end` finds.
pub proof fn lemma_digits_end_is(s: Seq<char>, from: int, to: int)
    requires
        0 <= from <= to <= s.len(),
        forall|i: int| from <= i < to ==> (#[trigger] digit_value(s[i])) is Some,
        to < s.len() ==> digit_value(s[to]) is None,
    ensures
        digits_end(s, from) == to,
    decreases to - from,
{
    if from < to {
        lemma_digits_end_is(s, from + 1, to);
    }
}

/// A run of white space that reaches from `from` to `to`, where no white
/// space follows, is the run that `spaces_end` finds.
pub proof fn lemma_spaces_end_is(s: Seq<char>, from: int, to: int)
    requires
        0 <= from <= to <= s.len(),
        forall|i: int| from <= i < to ==> is_space(#[trigger] s[i]),
        to < s.len() ==> !is_space(s[to]),
    ensures
        spaces_end(s, from) == to,
    decreases to - from,
{
    if from < to {
        lemma_spaces_end_is(s, from + 1, to);
    }
}

/// The digits of a string of the form `name[digits]`, with at least one
/// digit; `None` for any other string.
pub open spec fn bracketed(s: Seq<char>, name: Seq<char>) -> Option<Seq<char>> {
    let start = name.len() as int + 1;
    let end = digits_end(s, start);
    if has_prefix_at(s, 0, name) && start <= s.len() && s[start - 1] == '[' && start < end && end
        + 1 == s.len() && s[end] == ']' {
        Some(s.subrange(start, end))
    } else {
        None
    }
}

/// The string `name[digits]`.
pub open spec fn bracket_form(name: Seq<char>, digits: Seq<char>) -> Seq<char> {
    name + seq!['['] + digits + seq![']']
}

/// `bracketed` accepts exactly the strings of the form `name[digits]` with
/// at least one digit, and gives back those digits.
pub proof fn lemma_bracketed(s: Seq<char>, name: Seq<char>, digits: Seq<char>)
    ensures
        bracketed(s, name) == Some(digits) <==> (s == bracket_form(name, digits) && all_digits(
            digits,
        ) && digits.len() > 0),
{
    let start = name.len() as int + 1;
    if s == bracket_form(name, digits) && all_digits(digits) && digits.len() > 0 {
        let to = start + digits.len() as int;
        assert(s.subrange(0, name.len() as int) =~= name);
        assert forall|i: int| start <= i < to implies (#[trigger] digit_value(s[i])) is Some by {
            assert(s[i] == digits[i - start]);
        }
        assert(s[to] == ']');
        lemma_digits_end_is(s, start as int, to as int);
        assert(s.subrange(start as int, to as int) =~= digits);
    }
    if bracketed(s, name) == Some(digits) {
        let end = digits_end(s, start as int);
        lemma_digits_end(s, start as int);
        assert(s =~= bracket_form(name, digits));
    }
}

/// What reading a string of the form `name[digits]` gives.
pub enum Bracketed {
    /// The string has another form.
    Mismatch,
    /// The digits write a number above the limit.
    TooLarge,
    /// The number that the digits write.
    Value(u32),
}

/// Reads a string of the form `name[digits]`.
pub fn read_bracketed(value: &str, name: &str) -> (r: Bracketed)
    ensures
        match bracketed(value@, name@) {
            None => r is Mismatch,
            Some(digits) => if numeral_value(digits) <= 0xffff_ffff {
                r == Bracketed::Value(numeral_value(digits) as u32)
            } else {
                r is TooLarge
            },
        },
{
    let chars = chars_of(value);
    let name_len = name.unicode_len();
    if !starts_with_at(&chars, 0, name) {
        return Bracketed::Mismatch;
    }
    if name_len >= chars.len() || chars[name_len] != '[' {
        return Bracketed::Mismatch;
    }
    let start = name_len + 1;
    let numeral = read_numeral(&chars, start, 0xffff_ffff);
    proof {
        lemma_digits_end(chars@, start as int);
    }
    if numeral.end == start || numeral.end >= chars.len() || chars[numeral.end] != ']'
        || numeral.end + 1 != chars.len() {
        return Bracketed::Mismatch;
    }
    match numeral.value {
        Some(v) => Bracketed::Value(v as u32),
        None => Bracketed::TooLarge,
    }
}

/// Writes the string `name[n]`.
pub fn write_bracketed(name: &str, n: u32) -> (r: String)
    ensures
        r@ == bracket_form(name@, numeral(n as nat)),
{
    let mut out = String::from_str(name);
    proof {
        reveal_strlit("[");
        reveal_strlit("]");
    }
    out.append("[");
    assert(out@ =~= name@ + seq!['[']);
    push_numeral(&mut out, n as u64);
    out.append("]");
    assert(out@ =~= bracket_form(name@, numeral(n as nat)));
    out
}

/// Whether two strings hold the same characters.
pub fn same_text(a: &str, b: &str) -> (r: bool)
    ensures
        r == (a@ == b@),
{
    let x = String::from_str(a);
    let y = String::from_str(b);
    x == y
}

/// Whether a string starts with another.
pub fn starts_with(value: &str, prefix: &str) -> (r: bool)
    ensures
        r == has_prefix_at(value@, 0, prefix@),
{
    let chars = chars_of(value);
    starts_with_at(&chars, 0, prefix)
}

} // verus!
