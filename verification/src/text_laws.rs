//! What holds of text handling.

use vstd::prelude::*;

use crate::text::{
    first_word_len, is_control_char, is_white_space, last_word_len, length_before,
    same_ignoring_case, trim_end_spec, trim_spec, trim_start_spec, upper, uppercase,
};

verus! {

/// Whether a text is white space alone.
pub open spec fn is_blank(s: Seq<char>) -> bool {
    forall|i: int| 0 <= i < s.len() ==> is_white_space(#[trigger] s[i])
}

/// Whether a text has no white space.
pub open spec fn is_word(s: Seq<char>) -> bool {
    forall|i: int| 0 <= i < s.len() ==> !is_white_space(#[trigger] s[i])
}

/// Whether a text neither begins nor ends with white space.
pub open spec fn is_trimmed(s: Seq<char>) -> bool {
    s.len() > 0 ==> !is_white_space(s[0]) && !is_white_space(s.last())
}

/// Among the ASCII characters, white space is the space and the five from tab to carriage return.
pub proof fn ascii_white_space(c: char)
    requires
        (c as u32) < 0x80,
    ensures
        is_white_space(c) <==> c == ' ' || 9 <= (c as u32) <= 13,
{
}

/// The white space beyond ASCII.
pub proof fn other_white_space(c: char)
    requires
        c as u32 >= 0x80,
    ensures
        is_white_space(c) <==> {
            let u = c as u32 as int;
            ||| seq![0x85int, 0xa0, 0x1680, 0x2028, 0x2029, 0x202f, 0x205f, 0x3000].contains(u)
            ||| 0x2000 <= u <= 0x200a
        },
{
    let u = c as u32 as int;
    let s = seq![0x85int, 0xa0, 0x1680, 0x2028, 0x2029, 0x202f, 0x205f, 0x3000];
    assert(s[0] == 0x85 && s[1] == 0xa0 && s[2] == 0x1680 && s[3] == 0x2028 && s[4] == 0x2029
        && s[5] == 0x202f && s[6] == 0x205f && s[7] == 0x3000);
}

/// Control characters are the first 32, and the 33 from delete on.
pub proof fn control_characters(c: char)
    ensures
        is_control_char(c) <==> (c as u32) < 32 || 127 <= (c as u32) < 160,
{
}

/// Upper case turns the letters from a to z into those from A to Z, and keeps all else.
pub proof fn upper_case_is_ascii(c: char)
    ensures
        'a' <= c <= 'z' ==> upper(c) as u32 == c as u32 - ('a' as u32 - 'A' as u32),
        !('a' <= c <= 'z') ==> upper(c) == c,
{
    if 'a' <= c <= 'z' {
        let u = (c as u32 - 32) as u32;
        assert(0x41 <= u <= 0x5a);
    }
}

/// A text is turned into upper case character by character.
pub proof fn upper_case_is_one_by_one(s: Seq<char>, i: int)
    requires
        0 <= i < s.len(),
    ensures
        uppercase(s).len() == s.len(),
        uppercase(s)[i] == upper(s[i]),
{
}

/// Texts that are equal ignoring case have the same length, and character by character differ at
/// most in the case of an ASCII letter.
pub proof fn same_but_for_case(a: Seq<char>, b: Seq<char>)
    ensures
        same_ignoring_case(a, b) <==> a.len() == b.len() && forall|i: int|
            #![trigger a[i]]
            0 <= i < a.len() ==> {
                ||| a[i] == b[i]
                ||| 'a' <= a[i] <= 'z' && a[i] as u32 == b[i] as u32 + 32
                ||| 'a' <= b[i] <= 'z' && b[i] as u32 == a[i] as u32 + 32
            },
{
    if same_ignoring_case(a, b) {
        assert(uppercase(a).len() == a.len());
        assert(uppercase(b).len() == b.len());
        assert forall|i: int| #![trigger a[i]] 0 <= i < a.len() implies {
            ||| a[i] == b[i]
            ||| 'a' <= a[i] <= 'z' && a[i] as u32 == b[i] as u32 + 32
            ||| 'a' <= b[i] <= 'z' && b[i] as u32 == a[i] as u32 + 32
        } by {
            assert(uppercase(a)[i] == uppercase(b)[i]);
            upper_case_is_ascii(a[i]);
            upper_case_is_ascii(b[i]);
        }
    }
    if a.len() == b.len() && forall|i: int|
        #![trigger a[i]]
        0 <= i < a.len() ==> {
            ||| a[i] == b[i]
            ||| 'a' <= a[i] <= 'z' && a[i] as u32 == b[i] as u32 + 32
            ||| 'a' <= b[i] <= 'z' && b[i] as u32 == a[i] as u32 + 32
        } {
        assert forall|i: int| 0 <= i < a.len() implies upper(a[i]) == upper(b[i]) by {
            upper_case_is_ascii(a[i]);
            upper_case_is_ascii(b[i]);
        }
        assert(uppercase(a) =~= uppercase(b));
    }
}

/// Leading white space goes, and nothing else.
pub proof fn trimming_starts(pre: Seq<char>, body: Seq<char>)
    requires
        is_blank(pre),
        body.len() > 0 ==> !is_white_space(body[0]),
    ensures
        trim_start_spec(pre + body) == body,
    decreases pre.len(),
{
    if pre.len() > 0 {
        assert((pre + body).drop_first() =~= pre.drop_first() + body);
        assert((pre + body)[0] == pre[0]);
        trimming_starts(pre.drop_first(), body);
    } else {
        assert(pre + body =~= body);
    }
}

/// Trailing white space goes, and nothing else.
pub proof fn trimming_ends(body: Seq<char>, post: Seq<char>)
    requires
        is_blank(post),
        body.len() > 0 ==> !is_white_space(body.last()),
    ensures
        trim_end_spec(body + post) == body,
    decreases post.len(),
{
    if post.len() > 0 {
        assert((body + post).drop_last() =~= body + post.drop_last());
        assert((body + post).last() == post[post.len() - 1]);
        trimming_ends(body, post.drop_last());
    } else {
        assert(body + post =~= body);
    }
}

/// The white space around a text goes, and nothing else: whatever is put around what neither
/// begins nor ends with it.
pub proof fn trimming_goes_around(pre: Seq<char>, body: Seq<char>, post: Seq<char>)
    requires
        is_blank(pre),
        is_blank(post),
        is_trimmed(body),
    ensures
        trim_spec(pre + body + post) == body,
{
    if body.len() > 0 {
        assert(pre + body + post =~= pre + (body + post));
        trimming_starts(pre, body + post);
        trimming_ends(body, post);
    } else {
        let all = pre + post;
        assert(pre + body + post =~= all);
        let none = Seq::<char>::empty();
        assert(all + none =~= all);
        trimming_starts(all, none);
        assert(trim_end_spec(none) == none);
        assert(body =~= none);
    }
}

/// The first word reaches up to the first white space, or to the end.
pub proof fn first_word_ends(word: Seq<char>, rest: Seq<char>)
    requires
        is_word(word),
        rest.len() > 0 ==> is_white_space(rest[0]),
    ensures
        first_word_len(word + rest) == word.len(),
    decreases word.len(),
{
    let s = word + rest;
    if word.len() > 0 {
        assert(s[0] == word[0]);
        assert(s.drop_first() =~= word.drop_first() + rest);
        first_word_ends(word.drop_first(), rest);
    } else if rest.len() > 0 {
        assert(s[0] == rest[0]);
    }
}

/// The last word reaches back to the last white space, or to the beginning.
pub proof fn last_word_begins(rest: Seq<char>, word: Seq<char>)
    requires
        is_word(word),
        rest.len() > 0 ==> is_white_space(rest.last()),
    ensures
        last_word_len(rest + word) == word.len(),
    decreases word.len(),
{
    let s = rest + word;
    if word.len() > 0 {
        assert(s.last() == word[word.len() - 1]);
        assert(s.drop_last() =~= rest + word.drop_last());
        last_word_begins(rest, word.drop_last());
    } else if rest.len() > 0 {
        assert(s.last() == rest.last());
    }
}

/// A character is found where it first stands, or behind the end.
pub proof fn characters_are_found(s: Seq<char>, c: char)
    ensures
        length_before(s, c) <= s.len(),
        length_before(s, c) < s.len() ==> s[length_before(s, c) as int] == c,
        forall|i: int| 0 <= i < length_before(s, c) ==> #[trigger] s[i] != c,
    decreases s.len(),
{
    if s.len() > 0 && s[0] != c {
        characters_are_found(s.drop_first(), c);
        assert forall|i: int| 0 <= i < length_before(s, c) implies #[trigger] s[i] != c by {
            if i > 0 {
                assert(s[i] == s.drop_first()[i - 1]);
            }
        }
    }
}

} // verus!
