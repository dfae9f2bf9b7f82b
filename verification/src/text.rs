use vstd::prelude::*;
use vstd::string::StrSliceExecFns;

verus! {

/// The lower-case form of an ASCII letter; every other character is kept
/// as it is.
pub open spec fn spec_lower_char(c: char) -> char {
    if c == 'A' {
        'a'
    } else if c == 'B' {
        'b'
    } else if c == 'C' {
        'c'
    } else if c == 'D' {
        'd'
    } else if c == 'E' {
        'e'
    } else if c == 'F' {
        'f'
    } else if c == 'G' {
        'g'
    } else if c == 'H' {
        'h'
    } else if c == 'I' {
        'i'
    } else if c == 'J' {
        'j'
    } else if c == 'K' {
        'k'
    } else if c == 'L' {
        'l'
    } else if c == 'M' {
        'm'
    } else if c == 'N' {
        'n'
    } else if c == 'O' {
        'o'
    } else if c == 'P' {
        'p'
    } else if c == 'Q' {
        'q'
    } else if c == 'R' {
        'r'
    } else if c == 'S' {
        's'
    } else if c == 'T' {
        't'
    } else if c == 'U' {
        'u'
    } else if c == 'V' {
        'v'
    } else if c == 'W' {
        'w'
    } else if c == 'X' {
        'x'
    } else if c == 'Y' {
        'y'
    } else if c == 'Z' {
        'z'
    } else {
        c
    }
}

/// Whether `c` is an upper-case ASCII letter.
pub open spec fn spec_is_upper(c: char) -> bool {
    spec_lower_char(c) != c
}

/// What one character contributes to the snake-case form: an underscore
/// before a lowered upper-case letter, except at the very front.
pub open spec fn spec_snake_fragment(c: char, first: bool) -> Seq<char> {
    if spec_is_upper(c) && !first {
        seq!['_', spec_lower_char(c)]
    } else {
        seq![spec_lower_char(c)]
    }
}

/// The snake-case form of the first `i` characters of `s`.
pub open spec fn spec_snake_prefix(s: Seq<char>, i: int) -> Seq<char>
    decreases i,
{
    if i <= 0 {
        Seq::empty()
    } else {
        spec_snake_prefix(s, i - 1) + spec_snake_fragment(s[i - 1], i - 1 == 0)
    }
}

/// The snake-case form of `s`.
pub open spec fn spec_snake_case(s: Seq<char>) -> Seq<char> {
    spec_snake_prefix(s, s.len() as int)
}

/// Relies on std's String::push: appends the given character at the end of
/// the string.
#[verifier::external_body]
fn push_char(s: &mut String, c: char)
    ensures
        final(s)@ == old(s)@.push(c),
{
    s.push(c);
}

/// The lower-case form of an ASCII letter; every other character is kept.
pub fn lower_char(c: char) -> (r: char)
    ensures
        r == spec_lower_char(c),
{
    if c == 'A' {
        'a'
    } else if c == 'B' {
        'b'
    } else if c == 'C' {
        'c'
    } else if c == 'D' {
        'd'
    } else if c == 'E' {
        'e'
    } else if c == 'F' {
        'f'
    } else if c == 'G' {
        'g'
    } else if c == 'H' {
        'h'
    } else if c == 'I' {
        'i'
    } else if c == 'J' {
        'j'
    } else if c == 'K' {
        'k'
    } else if c == 'L' {
        'l'
    } else if c == 'M' {
        'm'
    } else if c == 'N' {
        'n'
    } else if c == 'O' {
        'o'
    } else if c == 'P' {
        'p'
    } else if c == 'Q' {
        'q'
    } else if c == 'R' {
        'r'
    } else if c == 'S' {
        's'
    } else if c == 'T' {
        't'
    } else if c == 'U' {
        'u'
    } else if c == 'V' {
        'v'
    } else if c == 'W' {
        'w'
    } else if c == 'X' {
        'x'
    } else if c == 'Y' {
        'y'
    } else if c == 'Z' {
        'z'
    } else {
        c
    }
}

/// Turns an upper-camel-case identifier into snake case: each upper-case
/// ASCII letter is lowered, and preceded by an underscore unless it stands
/// first.
pub fn camel_to_snake_case(s: &str) -> (r: String)
    ensures
        r@ == spec_snake_case(s@),
{
    let n = s.unicode_len();
    let mut out = String::new();
    let mut i: usize = 0;
    while i < n
        invariant
            i <= n,
            n == s@.len(),
            out@ == spec_snake_prefix(s@, i as int),
        decreases n - i,
    {
        let c = s.get_char(i);
        let l = lower_char(c);
        if i > 0 && l != c {
            push_char(&mut out, '_');
        }
        push_char(&mut out, l);
        proof {
            assert(out@ =~= spec_snake_prefix(s@, i + 1));
        }
        i += 1;
    }
    out
}

} // verus!
