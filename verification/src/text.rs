//! Character classes and string helpers shared by every identity validator and
//! by the diagnostic renderers.

use vstd::prelude::*;
use vstd::string::StrSliceExecFns;
use vstd::string::StringExecFns;

verus! {

/// Unicode general category `Cc`, the set `char::is_control` tests.
pub open spec fn spec_is_control(c: char) -> bool {
    let v = c as u32;
    v <= 0x1f || (0x7f <= v && v <= 0x9f)
}

/// The Unicode `White_Space` property, the set `char::is_whitespace` tests and
/// therefore the set `str::trim` strips.
pub open spec fn spec_is_whitespace(c: char) -> bool {
    let v = c as u32;
    ||| (0x09 <= v && v <= 0x0d)
    ||| v == 0x20
    ||| v == 0x85
    ||| v == 0xa0
    ||| v == 0x1680
    ||| (0x2000 <= v && v <= 0x200a)
    ||| v == 0x2028
    ||| v == 0x2029
    ||| v == 0x202f
    ||| v == 0x205f
    ||| v == 0x3000
}

/// An ASCII letter or digit.
pub open spec fn spec_is_ascii_alphanumeric(c: char) -> bool {
    let v = c as u32;
    ||| (0x30 <= v && v <= 0x39)
    ||| (0x41 <= v && v <= 0x5a)
    ||| (0x61 <= v && v <= 0x7a)
}

/// An ASCII lowercase letter or digit.
pub open spec fn spec_is_ascii_lower_or_digit(c: char) -> bool {
    let v = c as u32;
    ||| (0x30 <= v && v <= 0x39)
    ||| (0x61 <= v && v <= 0x7a)
}

/// Whether `c` is a control character.
pub fn is_control(c: char) -> (r: bool)
    ensures
        r == spec_is_control(c),
{
    let v = c as u32;
    v <= 0x1f || (0x7f <= v && v <= 0x9f)
}

/// Whether `c` is Unicode white space.
pub fn is_whitespace(c: char) -> (r: bool)
    ensures
        r == spec_is_whitespace(c),
{
    let v = c as u32;
    (0x09 <= v && v <= 0x0d) || v == 0x20 || v == 0x85 || v == 0xa0 || v == 0x1680 || (0x2000
        <= v && v <= 0x200a) || v == 0x2028 || v == 0x2029 || v == 0x202f || v == 0x205f || v
        == 0x3000
}

/// Whether `c` is an ASCII letter or digit.
pub fn is_ascii_alphanumeric(c: char) -> (r: bool)
    ensures
        r == spec_is_ascii_alphanumeric(c),
{
    let v = c as u32;
    (0x30 <= v && v <= 0x39) || (0x41 <= v && v <= 0x5a) || (0x61 <= v && v <= 0x7a)
}

/// Whether `c` is an ASCII lowercase letter or digit.
pub fn is_ascii_lower_or_digit(c: char) -> (r: bool)
    ensures
        r == spec_is_ascii_lower_or_digit(c),
{
    let v = c as u32;
    (0x30 <= v && v <= 0x39) || (0x61 <= v && v <= 0x7a)
}

/// Whether two string slices hold the same characters.
pub fn str_eq(left: &str, right: &str) -> (same: bool)
    ensures
        same == (left@ == right@),
{
    let n = left.unicode_len();
    if n != right.unicode_len() {
        return false;
    }
    let mut i: usize = 0;
    while i < n
        invariant
            n == left@.len(),
            n == right@.len(),
            i <= n,
            forall|j: int| 0 <= j < i ==> left@[j] == right@[j],
        decreases n - i,
    {
        if left.get_char(i) != right.get_char(i) {
            return false;
        }
        i = i + 1;
    }
    assert(left@ =~= right@);
    true
}

/// Whether `needle` occurs among `haystack`, compared by characters.
pub fn contains_str(haystack: &Vec<&'static str>, needle: &str) -> (found: bool)
    ensures
        found == (exists|i: int| 0 <= i < haystack@.len() && (#[trigger] haystack@[i])@ == needle@),
{
    let mut i: usize = 0;
    while i < haystack.len()
        invariant
            i <= haystack@.len(),
            forall|j: int| 0 <= j < i ==> (#[trigger] haystack@[j])@ != needle@,
        decreases haystack@.len() - i,
    {
        if str_eq(haystack[i], needle) {
            return true;
        }
        i = i + 1;
    }
    false
}

/// The decimal rendering of one digit.
pub open spec fn spec_digit(d: nat) -> Seq<char> {
    if d == 0 {
        "0"@
    } else if d == 1 {
        "1"@
    } else if d == 2 {
        "2"@
    } else if d == 3 {
        "3"@
    } else if d == 4 {
        "4"@
    } else if d == 5 {
        "5"@
    } else if d == 6 {
        "6"@
    } else if d == 7 {
        "7"@
    } else if d == 8 {
        "8"@
    } else {
        "9"@
    }
}

/// The decimal rendering of `n`, without sign or leading zeros.
pub open spec fn spec_decimal(n: nat) -> Seq<char>
    decreases n,
{
    if n < 10 {
        spec_digit(n)
    } else {
        spec_decimal(n / 10) + spec_digit(n % 10)
    }
}

fn digit(d: usize) -> (text: &'static str)
    requires
        d < 10,
    ensures
        text@ == spec_digit(d as nat),
{
    if d == 0 {
        "0"
    } else if d == 1 {
        "1"
    } else if d == 2 {
        "2"
    } else if d == 3 {
        "3"
    } else if d == 4 {
        "4"
    } else if d == 5 {
        "5"
    } else if d == 6 {
        "6"
    } else if d == 7 {
        "7"
    } else if d == 8 {
        "8"
    } else {
        "9"
    }
}

/// Render `n` in decimal.
pub fn decimal(n: usize) -> (text: String)
    ensures
        text@ == spec_decimal(n as nat),
    decreases n,
{
    if n < 10 {
        let mut out = String::new();
        out.append(digit(n));
        out
    } else {
        let mut out = decimal(n / 10);
        out.append(digit(n % 10));
        out
    }
}

} // verus!

verus! {

/// `parts` joined by `sep`.
pub open spec fn spec_join(parts: Seq<Seq<char>>, sep: Seq<char>) -> Seq<char>
    decreases parts.len(),
{
    if parts.len() == 0 {
        Seq::empty()
    } else if parts.len() == 1 {
        parts[0]
    } else {
        spec_join(parts.drop_last(), sep) + sep + parts.last()
    }
}

/// The common shape of an aggregate diagnostic: `"<n> <noun>[s]: a; b; c"`.
pub open spec fn spec_aggregate_text(noun: Seq<char>, parts: Seq<Seq<char>>) -> Seq<char> {
    spec_decimal(parts.len()) + " "@ + noun + (if parts.len() != 1 {
        "s"@
    } else {
        Seq::empty()
    }) + ": "@ + spec_join(parts, "; "@)
}

/// Render an aggregate diagnostic from the already rendered parts.
pub fn aggregate_text(noun: &str, parts: &Vec<String>) -> (text: String)
    ensures
        text@ == spec_aggregate_text(noun@, parts@.map_values(|p: String| p@)),
{
    let ghost texts = parts@.map_values(|p: String| p@);
    let mut out = decimal(parts.len());
    out.append(" ");
    out.append(noun);
    if parts.len() != 1 {
        out.append("s");
    }
    out.append(": ");
    let ghost head = out@;
    let mut i: usize = 0;
    while i < parts.len()
        invariant
            i <= parts@.len(),
            texts == parts@.map_values(|p: String| p@),
            out@ == head + spec_join(texts.take(i as int), "; "@),
        decreases parts@.len() - i,
    {
        if i > 0 {
            out.append("; ");
        }
        out.append(parts[i].as_str());
        proof {
            assert(texts.take(i + 1).drop_last() =~= texts.take(i as int));
            assert(texts.take(i + 1).last() == parts@[i as int]@);
            if i == 0 {
                assert(spec_join(texts.take(0), "; "@) =~= Seq::<char>::empty());
            }
        }
        i = i + 1;
    }
    assert(texts.take(parts@.len() as int) =~= texts);
    out
}

} // verus!
