//! Character and string helpers the dispatcher is specified with: the
//! whitespace predicate, exact string comparison, splitting the raw input
//! into command name and argument text, and decimal rendering of capture
//! group indices.

use vstd::prelude::*;

verus! {

// ---------------------------------------------------------------------------
// Characters and words
// ---------------------------------------------------------------------------

/// The whitespace characters, as `char::is_whitespace` has them: the Unicode
/// `White_Space` property.
pub open spec fn is_space_spec(c: char) -> bool {
    c == ' ' || c == '\t' || c == '\n' || c == '\u{b}' || c == '\u{c}' || c == '\r'
        || c == '\u{85}' || c == '\u{a0}' || c == '\u{1680}' || c == '\u{2000}' || c == '\u{2001}'
        || c == '\u{2002}' || c == '\u{2003}' || c == '\u{2004}' || c == '\u{2005}'
        || c == '\u{2006}' || c == '\u{2007}' || c == '\u{2008}' || c == '\u{2009}'
        || c == '\u{200a}' || c == '\u{2028}' || c == '\u{2029}' || c == '\u{202f}'
        || c == '\u{205f}' || c == '\u{3000}'
}

/// Whether a character is whitespace.
pub fn is_space(c: char) -> (r: bool)
    ensures
        r == is_space_spec(c),
{
    c == ' ' || c == '\t' || c == '\n' || c == '\u{b}' || c == '\u{c}' || c == '\r'
        || c == '\u{85}' || c == '\u{a0}' || c == '\u{1680}' || c == '\u{2000}' || c == '\u{2001}'
        || c == '\u{2002}' || c == '\u{2003}' || c == '\u{2004}' || c == '\u{2005}'
        || c == '\u{2006}' || c == '\u{2007}' || c == '\u{2008}' || c == '\u{2009}'
        || c == '\u{200a}' || c == '\u{2028}' || c == '\u{2029}' || c == '\u{202f}'
        || c == '\u{205f}' || c == '\u{3000}'
}

/// Whether two string slices hold the same characters.
pub fn str_eq(a: &str, b: &str) -> (r: bool)
    ensures
        r == (a@ == b@),
{
    let na = a.unicode_len();
    let nb = b.unicode_len();
    if na != nb {
        return false;
    }
    let mut i: usize = 0;
    while i < na
        invariant
            na == a@.len(),
            na == b@.len(),
            0 <= i <= na,
            forall|j: int| 0 <= j < i ==> a@[j] == b@[j],
        decreases na - i,
    {
        if a.get_char(i) != b.get_char(i) {
            return false;
        }
        i += 1;
    }
    proof {
        assert(a@ =~= b@);
    }
    true
}

/// The index of the first whitespace character, or the length when there is
/// none: where the command name ends.
pub open spec fn split_index(s: Seq<char>) -> int
    decreases s.len(),
{
    if s.len() == 0 {
        0
    } else if is_space_spec(s[0]) {
        0
    } else {
        1 + split_index(s.drop_first())
    }
}

/// The number of leading whitespace characters.
pub open spec fn leading_spaces(s: Seq<char>) -> int
    decreases s.len(),
{
    if s.len() == 0 {
        0
    } else if !is_space_spec(s[0]) {
        0
    } else {
        1 + leading_spaces(s.drop_first())
    }
}

/// The command name: everything before the first whitespace character.
pub open spec fn first_word(s: Seq<char>) -> Seq<char> {
    s.take(split_index(s))
}

/// The argument text: everything after the first whitespace character, with
/// further leading whitespace trimmed; empty when there is no whitespace.
pub open spec fn rest_text(s: Seq<char>) -> Seq<char> {
    if split_index(s) == s.len() {
        Seq::empty()
    } else {
        let r = s.skip(split_index(s) + 1);
        r.skip(leading_spaces(r))
    }
}

proof fn lemma_split_index_is(s: Seq<char>, i: int)
    requires
        0 <= i <= s.len(),
        forall|j: int| 0 <= j < i ==> !is_space_spec(s[j]),
        i < s.len() ==> is_space_spec(s[i]),
    ensures
        split_index(s) == i,
    decreases i,
{
    if i == 0 {
    } else {
        lemma_split_index_is(s.drop_first(), i - 1);
    }
}

proof fn lemma_leading_spaces_is(s: Seq<char>, i: int)
    requires
        0 <= i <= s.len(),
        forall|j: int| 0 <= j < i ==> is_space_spec(s[j]),
        i < s.len() ==> !is_space_spec(s[i]),
    ensures
        leading_spaces(s) == i,
    decreases i,
{
    if i == 0 {
    } else {
        lemma_leading_spaces_is(s.drop_first(), i - 1);
    }
}

/// Splits the raw input into the command name (before the first whitespace
/// character) and the argument text (after it, leading whitespace trimmed).
pub fn split_input<'a>(input: &'a str) -> (r: (&'a str, &'a str))
    ensures
        r.0@ == first_word(input@),
        r.1@ == rest_text(input@),
{
    let n = input.unicode_len();
    let mut i: usize = 0;
    while i < n && !is_space(input.get_char(i))
        invariant
            n == input@.len(),
            0 <= i <= n,
            forall|j: int| 0 <= j < i ==> !is_space_spec(input@[j]),
        decreases n - i,
    {
        i += 1;
    }
    proof {
        lemma_split_index_is(input@, i as int);
    }
    let name = input.substring_char(0, i);
    if i == n {
        let rest = input.substring_char(n, n);
        proof {
            assert(name@ =~= first_word(input@));
            assert(rest@ =~= rest_text(input@));
        }
        (name, rest)
    } else {
        let mut j: usize = i + 1;
        while j < n && is_space(input.get_char(j))
            invariant
                n == input@.len(),
                i + 1 <= j <= n,
                forall|k: int| i + 1 <= k < j ==> is_space_spec(input@[k]),
            decreases n - j,
        {
            j += 1;
        }
        proof {
            let tail = input@.skip(i + 1);
            assert forall|k: int| 0 <= k < j - i - 1 implies is_space_spec(tail[k]) by {
                assert(tail[k] == input@[k + i + 1]);
            }
            if j < n {
                assert(tail[j - i - 1] == input@[j as int]);
            }
            lemma_leading_spaces_is(tail, j - i - 1);
        }
        let rest = input.substring_char(j, n);
        proof {
            assert(name@ =~= first_word(input@));
            assert(rest@ =~= rest_text(input@));
        }
        (name, rest)
    }
}

// ---------------------------------------------------------------------------
// Decimal rendering of group indices
// ---------------------------------------------------------------------------

/// The decimal digits of a number, most significant first.
pub open spec fn spec_decimal(n: nat) -> Seq<char>
    decreases n,
{
    if n < 10 {
        seq![digit_char(n)]
    } else {
        spec_decimal(n / 10).push(digit_char(n % 10))
    }
}

/// The character of one decimal digit.
pub open spec fn digit_char(d: nat) -> char {
    if d == 0 {
        '0'
    } else if d == 1 {
        '1'
    } else if d == 2 {
        '2'
    } else if d == 3 {
        '3'
    } else if d == 4 {
        '4'
    } else if d == 5 {
        '5'
    } else if d == 6 {
        '6'
    } else if d == 7 {
        '7'
    } else if d == 8 {
        '8'
    } else {
        '9'
    }
}

fn push_digit(s: &mut String, d: usize)
    requires
        d < 10,
    ensures
        final (s)@ == old(s)@.push(digit_char(d as nat)),
{
    let t: &str = match d {
        0 => "0",
        1 => "1",
        2 => "2",
        3 => "3",
        4 => "4",
        5 => "5",
        6 => "6",
        7 => "7",
        8 => "8",
        _ => "9",
    };
    proof {
        reveal_strlit("0");
        reveal_strlit("1");
        reveal_strlit("2");
        reveal_strlit("3");
        reveal_strlit("4");
        reveal_strlit("5");
        reveal_strlit("6");
        reveal_strlit("7");
        reveal_strlit("8");
        reveal_strlit("9");
        assert(t@ =~= seq![digit_char(d as nat)]);
    }
    s.append(t);
    proof {
        assert(s@ =~= old(s)@.push(digit_char(d as nat)));
    }
}

/// Renders a group index in decimal, the key its captured text is bound
/// under when the group has no name.
pub fn decimal(n: usize) -> (r: String)
    ensures
        r@ == spec_decimal(n as nat),
    decreases n,
{
    if n < 10 {
        let mut s = String::new();
        push_digit(&mut s, n);
        proof {
            assert(s@ =~= spec_decimal(n as nat));
        }
        s
    } else {
        let mut s = decimal(n / 10);
        push_digit(&mut s, n % 10);
        s
    }
}

} // verus!
