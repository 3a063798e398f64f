//! Character-level text handling: white space, trimming, splitting and ASCII
//! case, on sequences of characters.

use vstd::prelude::*;
use vstd::slice::slice_subrange;

verus! {

/// `String::push` appends one character.
pub assume_specification[ String::push ](s: &mut String, c: char)
    ensures
        final(s)@ == old(s)@.push(c),
;

/// The characters with Unicode's `White_Space` property.
pub open spec fn is_white_space(c: char) -> bool {
    let u = c as u32;
    ||| 0x09 <= u <= 0x0d
    ||| u == 0x20
    ||| u == 0x85
    ||| u == 0xa0
    ||| u == 0x1680
    ||| 0x2000 <= u <= 0x200a
    ||| u == 0x2028
    ||| u == 0x2029
    ||| u == 0x202f
    ||| u == 0x205f
    ||| u == 0x3000
}

/// Whether `c` is white space.
pub fn is_whitespace(c: char) -> (r: bool)
    ensures
        r == is_white_space(c),
{
    let u: u32 = c as u32;
    (0x09 <= u && u <= 0x0d) || u == 0x20 || u == 0x85 || u == 0xa0 || u == 0x1680 || (0x2000 <= u
        && u <= 0x200a) || u == 0x2028 || u == 0x2029 || u == 0x202f || u == 0x205f || u == 0x3000
}

/// The control characters (Unicode's general category `Cc`).
pub open spec fn is_control_char(c: char) -> bool {
    let u = c as u32;
    u <= 0x1f || 0x7f <= u <= 0x9f
}

/// Whether `c` is a control character.
pub fn is_control(c: char) -> (r: bool)
    ensures
        r == is_control_char(c),
{
    let u: u32 = c as u32;
    u <= 0x1f || (0x7f <= u && u <= 0x9f)
}

/// `c` with an ASCII lower-case letter turned into its upper-case form.
pub open spec fn upper(c: char) -> char {
    if 'a' <= c && c <= 'z' {
        ((c as u32) - 32) as char
    } else {
        c
    }
}

/// `s` with every ASCII letter in upper case.
pub open spec fn uppercase(s: Seq<char>) -> Seq<char> {
    s.map_values(|c: char| upper(c))
}

/// Whether two texts are equal once ASCII case is ignored.
pub open spec fn same_ignoring_case(a: Seq<char>, b: Seq<char>) -> bool {
    uppercase(a) == uppercase(b)
}

fn upper_code(c: char) -> (r: u32)
    ensures
        r == upper(c) as u32,
{
    let u: u32 = c as u32;
    if 0x61 <= u && u <= 0x7a {
        u - 32
    } else {
        u
    }
}

/// Whether two texts are equal once ASCII case is ignored.
pub fn eq_ignore_case(a: &[char], b: &[char]) -> (r: bool)
    ensures
        r == same_ignoring_case(a@, b@),
{
    if a.len() != b.len() {
        assert(uppercase(a@).len() != uppercase(b@).len());
        return false;
    }
    let mut i: usize = 0;
    while i < a.len()
        invariant
            i <= a.len(),
            a.len() == b.len(),
            forall|j: int| 0 <= j < i ==> upper(a@[j]) == upper(b@[j]),
        decreases a.len() - i,
    {
        if upper_code(a[i]) != upper_code(b[i]) {
            assert(uppercase(a@)[i as int] != uppercase(b@)[i as int]);
            return false;
        }
        i = i + 1;
    }
    assert(uppercase(a@) =~= uppercase(b@));
    true
}

/// Whether two texts are equal.
pub fn eq_chars(a: &[char], b: &[char]) -> (r: bool)
    ensures
        r == (a@ == b@),
{
    if a.len() != b.len() {
        return false;
    }
    let mut i: usize = 0;
    while i < a.len()
        invariant
            i <= a.len(),
            a.len() == b.len(),
            forall|j: int| 0 <= j < i ==> a@[j] == b@[j],
        decreases a.len() - i,
    {
        if a[i] != b[i] {
            return false;
        }
        i = i + 1;
    }
    assert(a@ =~= b@);
    true
}

/// The characters of a string.
pub fn to_chars(s: &str) -> (r: Vec<char>)
    ensures
        r@ == s@,
{
    let mut r: Vec<char> = Vec::new();
    for c in it: s.chars()
        invariant
            it.seq() == s@,
            r@ == s@.take(it.index() as int),
    {
        r.push(c);
    }
    assert(s@.take(s@.len() as int) =~= s@);
    r
}

/// Appends characters to a string.
pub fn push_chars(out: &mut String, s: &[char])
    ensures
        final(out)@ == old(out)@ + s@,
{
    let mut i: usize = 0;
    while i < s.len()
        invariant
            i <= s.len(),
            out@ == old(out)@ + s@.take(i as int),
        decreases s.len() - i,
    {
        out.push(s[i]);
        i = i + 1;
        assert(s@.take(i as int) =~= s@.take(i - 1).push(s@[i - 1]));
    }
    assert(s@.take(s@.len() as int) =~= s@);
}

/// The string with the given characters.
pub fn from_chars(s: &[char]) -> (r: String)
    ensures
        r@ == s@,
{
    let mut r = String::new();
    push_chars(&mut r, s);
    assert(Seq::<char>::empty() + s@ =~= s@);
    r
}

/// `s` without its leading white space.
pub open spec fn trim_start_spec(s: Seq<char>) -> Seq<char>
    decreases s.len(),
{
    if s.len() > 0 && is_white_space(s[0]) {
        trim_start_spec(s.drop_first())
    } else {
        s
    }
}

/// `s` without its trailing white space.
pub open spec fn trim_end_spec(s: Seq<char>) -> Seq<char>
    decreases s.len(),
{
    if s.len() > 0 && is_white_space(s.last()) {
        trim_end_spec(s.drop_last())
    } else {
        s
    }
}

/// `s` without the white space around it.
pub open spec fn trim_spec(s: Seq<char>) -> Seq<char> {
    trim_end_spec(trim_start_spec(s))
}

/// `s` without its leading white space.
pub fn trim_start(s: &[char]) -> (r: &[char])
    ensures
        r@ == trim_start_spec(s@),
{
    let mut i: usize = 0;
    assert(s@.skip(0) =~= s@);
    while i < s.len() && is_whitespace(s[i])
        invariant
            i <= s.len(),
            trim_start_spec(s@.skip(i as int)) == trim_start_spec(s@),
        decreases s.len() - i,
    {
        assert(s@.skip(i as int).drop_first() =~= s@.skip(i + 1));
        i = i + 1;
    }
    assert(s@.skip(i as int) =~= s@.subrange(i as int, s@.len() as int));
    slice_subrange(s, i, s.len())
}

/// `s` without its trailing white space.
pub fn trim_end(s: &[char]) -> (r: &[char])
    ensures
        r@ == trim_end_spec(s@),
{
    let mut n: usize = s.len();
    assert(s@.take(n as int) =~= s@);
    while n > 0 && is_whitespace(s[n - 1])
        invariant
            n <= s.len(),
            trim_end_spec(s@.take(n as int)) == trim_end_spec(s@),
        decreases n,
    {
        assert(s@.take(n as int).drop_last() =~= s@.take(n - 1));
        n = n - 1;
    }
    assert(s@.take(n as int) =~= s@.subrange(0, n as int));
    slice_subrange(s, 0, n)
}

/// `s` without the white space around it.
pub fn trim(s: &[char]) -> (r: &[char])
    ensures
        r@ == trim_spec(s@),
{
    trim_end(trim_start(s))
}

/// The number of characters before the first `c`, or all of them without one.
pub open spec fn length_before(s: Seq<char>, c: char) -> nat
    decreases s.len(),
{
    if s.len() == 0 || s[0] == c {
        0
    } else {
        1 + length_before(s.drop_first(), c)
    }
}

/// The number of characters before the first white space.
pub open spec fn first_word_len(s: Seq<char>) -> nat
    decreases s.len(),
{
    if s.len() == 0 || is_white_space(s[0]) {
        0
    } else {
        1 + first_word_len(s.drop_first())
    }
}

/// The number of characters after the last white space.
pub open spec fn last_word_len(s: Seq<char>) -> nat
    decreases s.len(),
{
    if s.len() == 0 || is_white_space(s.last()) {
        0
    } else {
        1 + last_word_len(s.drop_last())
    }
}

/// The position of the first `c`, or the length without one.
pub fn find_char(s: &[char], c: char) -> (r: usize)
    ensures
        r == length_before(s@, c),
        r <= s@.len(),
{
    let mut i: usize = 0;
    assert(s@.skip(0) =~= s@);
    while i < s.len() && s[i] != c
        invariant
            i <= s.len(),
            length_before(s@, c) == i + length_before(s@.skip(i as int), c),
        decreases s.len() - i,
    {
        assert(s@.skip(i as int).drop_first() =~= s@.skip(i + 1));
        i = i + 1;
    }
    i
}

/// The position of the first white space, or the length without any.
pub fn find_whitespace(s: &[char]) -> (r: usize)
    ensures
        r == first_word_len(s@),
        r <= s@.len(),
{
    let mut i: usize = 0;
    assert(s@.skip(0) =~= s@);
    while i < s.len() && !is_whitespace(s[i])
        invariant
            i <= s.len(),
            first_word_len(s@) == i + first_word_len(s@.skip(i as int)),
        decreases s.len() - i,
    {
        assert(s@.skip(i as int).drop_first() =~= s@.skip(i + 1));
        i = i + 1;
    }
    i
}

/// The number of characters after the last white space.
pub fn count_last_word(s: &[char]) -> (r: usize)
    ensures
        r == last_word_len(s@),
        r <= s@.len(),
{
    let mut n: usize = s.len();
    assert(s@.take(n as int) =~= s@);
    while n > 0 && !is_whitespace(s[n - 1])
        invariant
            n <= s.len(),
            last_word_len(s@) == s.len() - n + last_word_len(s@.take(n as int)),
        decreases n,
    {
        assert(s@.take(n as int).drop_last() =~= s@.take(n - 1));
        n = n - 1;
    }
    s.len() - n
}

/// A text behind a prefix.
pub fn prefixed(prefix: &str, text: &str) -> (r: String)
    ensures
        r@ == prefix@ + text@,
{
    let mut out = String::new();
    out.append(prefix);
    out.append(text);
    assert(out@ =~= prefix@ + text@);
    out
}

} // verus!
