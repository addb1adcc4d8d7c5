//! Star catalogs as text: which catalog a file is, and the whole numbers in
//! its lines.
use vstd::prelude::*;

verus! {

broadcast use vstd::string::axiom_spec_iter;

/// Whether a catalog's first line is that of a Hipparcos catalog, whose
/// lines begin with `H` and part their fields with bars.
pub open spec fn is_hipparcos(first_line: Seq<char>) -> bool {
    first_line.len() > 0 && first_line[0] == 'H' && first_line.contains('|')
}

/// Detect catalog format from first line: `"hipparcos"`, or `"bsc"` for the
/// fixed-width lines of the Yale Bright Star Catalog.
pub fn detect_format(first_line: &str) -> (format: &'static str)
    ensures
        format@ == (if is_hipparcos(first_line@) {
            "hipparcos"@
        } else {
            "bsc"@
        }),
{
    let mut starts_with_h = false;
    let mut has_bar = false;
    let mut seen: usize = 0;
    for c in it: first_line.chars()
        invariant
            it.seq() == first_line@,
            seen == it.index() || (seen == usize::MAX && it.index() >= usize::MAX),
            starts_with_h == (it.index() > 0 && first_line@[0] == 'H'),
            has_bar == (exists|j: int| 0 <= j < it.index() && first_line@[j] == '|'),
    {
        if seen == 0 {
            starts_with_h = c == 'H';
        }
        if c == '|' {
            has_bar = true;
        }
        if seen < usize::MAX {
            seen = seen + 1;
        }
    }
    if starts_with_h && has_bar {
        "hipparcos"
    } else {
        "bsc"
    }
}


/// Whether a character is white space, as Unicode defines it.
pub open spec fn is_whitespace(c: char) -> bool {
    let u = c as u32;
    ||| 0x09 <= u <= 0x0d
    ||| u == 0x20
    ||| u == 0x85
    ||| u == 0xa0
    ||| u == 0x1680
    ||| 0x2000 <= u <= 0x200a
    ||| u == 0x2028
    ||| u == 0x2029
    ||| u == 0x202f
    ||| u == 0x205f
    ||| u == 0x3000
}

/// Whether a character is one of the ten decimal digits.
pub open spec fn is_digit(c: char) -> bool {
    '0' as u32 <= c as u32 <= '9' as u32
}

/// The number of white-space characters with which the text begins.
pub open spec fn leading_space(s: Seq<char>) -> nat
    decreases s.len(),
{
    if s.len() > 0 && is_whitespace(s[0]) {
        1 + leading_space(s.drop_first())
    } else {
        0
    }
}

/// The number of white-space characters with which the text ends.
pub open spec fn trailing_space(s: Seq<char>) -> nat
    decreases s.len(),
{
    if s.len() > 0 && is_whitespace(s.last()) {
        1 + trailing_space(s.drop_last())
    } else {
        0
    }
}

/// The text without the white space at its two ends.
pub open spec fn trimmed(s: Seq<char>) -> Seq<char> {
    if leading_space(s) == s.len() {
        Seq::empty()
    } else {
        s.subrange(leading_space(s) as int, s.len() - trailing_space(s))
    }
}

/// Whether the text is made of decimal digits only.
pub open spec fn all_digits(s: Seq<char>) -> bool {
    forall|i: int| 0 <= i < s.len() ==> is_digit(#[trigger] s[i])
}

/// The number that decimal digits spell.
pub open spec fn decimal_value(digits: Seq<char>) -> nat
    decreases digits.len(),
{
    if digits.len() == 0 {
        0
    } else {
        (10 * decimal_value(digits.drop_last()) + (digits.last() as u32 - '0' as u32)) as nat
    }
}

/// The whole number that a text spells, if it spells one: at least one
/// decimal digit, after a plus sign or none, and nothing else.
pub open spec fn whole_number(s: Seq<char>) -> Option<nat> {
    let digits = if s.len() > 0 && s[0] == '+' {
        s.drop_first()
    } else {
        s
    };
    if digits.len() > 0 && all_digits(digits) {
        Some(decimal_value(digits))
    } else {
        None
    }
}

/// What `parse_u32` gives for a text: the whole number that the text
/// spells between the white space at its ends, if that is one that 32 bits
/// hold.
pub open spec fn parsed_u32(s: Seq<char>) -> Option<u32> {
    match whole_number(trimmed(s)) {
        Some(value) => if value <= u32::MAX {
            Some(value as u32)
        } else {
            None
        },
        None => None,
    }
}

/// Text that begins with exactly `count` white-space characters.
proof fn lemma_leading_space(s: Seq<char>, count: nat)
    requires
        count <= s.len(),
        forall|k: int| 0 <= k < count ==> is_whitespace(#[trigger] s[k]),
        count < s.len() ==> !is_whitespace(s[count as int]),
    ensures
        leading_space(s) == count,
    decreases count,
{
    if count > 0 {
        let rest = s.drop_first();
        lemma_leading_space(rest, (count - 1) as nat);
    }
}

/// Text that ends with exactly `count` white-space characters.
proof fn lemma_trailing_space(s: Seq<char>, count: nat)
    requires
        count <= s.len(),
        forall|k: int| s.len() - count <= k < s.len() ==> is_whitespace(#[trigger] s[k]),
        count < s.len() ==> !is_whitespace(s[s.len() - count - 1]),
    ensures
        trailing_space(s) == count,
    decreases count,
{
    if count > 0 {
        let rest = s.drop_last();
        lemma_trailing_space(rest, (count - 1) as nat);
    }
}

/// Digits that follow a number make it no smaller.
proof fn lemma_decimal_value_grows(digits: Seq<char>, upto: int)
    requires
        0 <= upto <= digits.len(),
        all_digits(digits),
    ensures
        decimal_value(digits.take(upto)) <= decimal_value(digits),
    decreases digits.len() - upto,
{
    if upto < digits.len() {
        lemma_decimal_value_grows(digits, upto + 1);
        let longer = digits.take(upto + 1);
        assert(longer.drop_last() =~= digits.take(upto));
    } else {
        assert(digits.take(upto) =~= digits);
    }
}

fn is_space(c: char) -> (r: bool)
    ensures
        r == is_whitespace(c),
{
    let u: u32 = c as u32;
    (0x09 <= u && u <= 0x0d) || u == 0x20 || u == 0x85 || u == 0xa0 || u == 0x1680 || (0x2000 <= u
        && u <= 0x200a) || u == 0x2028 || u == 0x2029 || u == 0x202f || u == 0x205f || u == 0x3000
}

/// Parse the whole number that stands in a text, with white space around it
/// or none.
pub fn parse_u32(s: &str) -> (r: Option<u32>)
    ensures
        r == parsed_u32(s@),
{
    let mut chars: Vec<char> = Vec::new();
    for c in it: s.chars()
        invariant
            it.seq() == s@,
            chars@ == s@.take(it.index() as int),
    {
        chars.push(c);
    }
    assert(chars@ =~= s@);
    let n = chars.len();
    let mut start: usize = 0;
    while start < n && is_space(chars[start])
        invariant
            n == chars@.len(),
            0 <= start <= n,
            forall|k: int| 0 <= k < start ==> is_whitespace(#[trigger] chars@[k]),
        decreases n - start,
    {
        start = start + 1;
    }
    proof {
        lemma_leading_space(chars@, start as nat);
    }
    if start == n {
        return None;
    }
    let mut end: usize = n;
    while is_space(chars[end - 1])
        invariant
            n == chars@.len(),
            start < end <= n,
            !is_whitespace(chars@[start as int]),
            forall|k: int| end <= k < n ==> is_whitespace(#[trigger] chars@[k]),
        decreases end,
    {
        end = end - 1;
    }
    proof {
        lemma_trailing_space(chars@, (n - end) as nat);
    }
    let ghost core = chars@.subrange(start as int, end as int);
    let first: usize = if chars[start] == '+' {
        start + 1
    } else {
        start
    };
    let ghost digits = chars@.subrange(first as int, end as int);
    assert(digits =~= (if core.len() > 0 && core[0] == '+' {
        core.drop_first()
    } else {
        core
    }));
    if first == end {
        return None;
    }
    assert(whole_number(trimmed(s@)) == (if all_digits(digits) {
        Some(decimal_value(digits))
    } else {
        None
    }));
    let mut value: u64 = 0;
    let mut i: usize = first;
    while i < end
        invariant
            n == chars@.len(),
            first <= i <= end <= n,
            digits == chars@.subrange(first as int, end as int),
            whole_number(trimmed(s@)) == (if all_digits(digits) {
                Some(decimal_value(digits))
            } else {
                None
            }),
            all_digits(digits.take(i - first)),
            value == decimal_value(digits.take(i - first)),
            value <= u32::MAX,
        decreases end - i,
    {
        let u: u32 = chars[i] as u32;
        if u < '0' as u32 || u > '9' as u32 {
            assert(!is_digit(digits[i - first]));
            return None;
        }
        proof {
            let longer = digits.take(i - first + 1);
            assert(longer.drop_last() =~= digits.take(i - first));
        }
        value = 10 * value + (u - '0' as u32) as u64;
        if value > u32::MAX as u64 {
            proof {
                if all_digits(digits) {
                    lemma_decimal_value_grows(digits, i - first + 1);
                }
            }
            return None;
        }
        i = i + 1;
    }
    assert(digits.take(i - first) =~= digits);
    Some(value as u32)
}

} // verus!
