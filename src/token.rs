//! Whitespace-separated tokens of decoded text.
use vstd::prelude::*;

verus! {

/// Whether `c` has Unicode's White_Space property, as `char::is_whitespace` decides.
pub uninterp spec fn white_space(c: char) -> bool;

/// Relies on `char::is_whitespace`: its result is a property of the character
/// alone.
#[verifier::external_body]
fn is_white_space(c: char) -> (r: bool)
    ensures
        r == white_space(c),
{
    c.is_whitespace()
}

/// `s` without its trailing whitespace.
pub open spec fn trim_end(s: Seq<char>) -> Seq<char>
    decreases s.len(),
{
    if s.len() > 0 && white_space(s.last()) {
        trim_end(s.drop_last())
    } else {
        s
    }
}

/// The run of non-whitespace characters that ends `s` (empty when `s` ends in
/// whitespace or is empty).
pub open spec fn trailing_word(s: Seq<char>) -> Seq<char>
    decreases s.len(),
{
    if s.len() == 0 || white_space(s.last()) {
        Seq::empty()
    } else {
        trailing_word(s.drop_last()).push(s.last())
    }
}

/// The last whitespace-separated token of `s`, or `None` when `s` holds no token.
pub open spec fn last_token(s: Seq<char>) -> Option<Seq<char>> {
    let t = trim_end(s);
    if t.len() == 0 {
        None
    } else {
        Some(trailing_word(t))
    }
}

/// The text returned in place of a token when there is none: `"unknown"`.
pub open spec fn sentinel() -> Seq<char> {
    seq!['u', 'n', 'k', 'n', 'o', 'w', 'n']
}

/// The last token of `s`, or the sentinel when `s` holds none.
pub open spec fn token_or_sentinel(s: Seq<char>) -> Seq<char> {
    match last_token(s) {
        Some(t) => t,
        None => sentinel(),
    }
}

/// `trim_end(s)` is the prefix of `s` before its trailing whitespace.
proof fn lemma_trim_end_split(s: Seq<char>) -> (m: int)
    ensures
        0 <= m <= s.len(),
        trim_end(s) == s.subrange(0, m),
        forall|k: int| m <= k < s.len() ==> white_space(#[trigger] s[k]),
        m > 0 ==> !white_space(s[m - 1]),
    decreases s.len(),
{
    if s.len() > 0 && white_space(s.last()) {
        let m = lemma_trim_end_split(s.drop_last());
        assert(s.drop_last().subrange(0, m) =~= s.subrange(0, m));
        assert forall|k: int| m <= k < s.len() implies white_space(#[trigger] s[k]) by {
            if k < s.len() - 1 {
                assert(s.drop_last()[k] == s[k]);
            }
        }
        m
    } else {
        assert(s.subrange(0, s.len() as int) =~= s);
        s.len() as int
    }
}

/// `trailing_word(s)` is the suffix of `s` after its last whitespace character.
proof fn lemma_trailing_word_split(s: Seq<char>) -> (n: int)
    ensures
        0 <= n <= s.len(),
        trailing_word(s) == s.subrange(n, s.len() as int),
        forall|k: int| n <= k < s.len() ==> !white_space(#[trigger] s[k]),
        n > 0 ==> white_space(s[n - 1]),
    decreases s.len(),
{
    if s.len() == 0 || white_space(s.last()) {
        assert(s.subrange(s.len() as int, s.len() as int) =~= Seq::<char>::empty());
        s.len() as int
    } else {
        let n = lemma_trailing_word_split(s.drop_last());
        assert(s.drop_last().subrange(n, s.len() - 1).push(s.last()) =~= s.subrange(
            n,
            s.len() as int,
        ));
        assert forall|k: int| n <= k < s.len() implies !white_space(#[trigger] s[k]) by {
            if k < s.len() - 1 {
                assert(s.drop_last()[k] == s[k]);
            }
        }
        if n > 0 {
            assert(s.drop_last()[n - 1] == s[n - 1]);
        }
        n
    }
}

/// A text holds no token exactly when every character of it is whitespace.
pub proof fn lemma_no_token_iff_all_white_space(s: Seq<char>)
    ensures
        last_token(s) is None <==> forall|k: int| 0 <= k < s.len() ==> white_space(#[trigger] s[k]),
{
    let m = lemma_trim_end_split(s);
    if m > 0 {
        assert(!white_space(s[m - 1]));
    }
}

/// A text that holds no token, being empty or all whitespace, yields `"unknown"`.
pub proof fn lemma_no_token_gives_unknown(s: Seq<char>)
    requires
        forall|k: int| 0 <= k < s.len() ==> white_space(#[trigger] s[k]),
    ensures
        token_or_sentinel(s) == sentinel(),
{
    lemma_no_token_iff_all_white_space(s);
}

/// The last token of a text is a nonempty run of non-whitespace characters
/// `s[i..j]` that starts the text or follows whitespace, and after which
/// only whitespace comes.
pub proof fn lemma_last_token_shape(s: Seq<char>)
    requires
        last_token(s) is Some,
    ensures
        exists|i: int, j: int|
            {
                &&& 0 <= i < j <= s.len()
                &&& last_token(s) == Some(#[trigger] s.subrange(i, j))
                &&& i > 0 ==> white_space(s[i - 1])
                &&& forall|k: int| i <= k < j ==> !white_space(#[trigger] s[k])
                &&& forall|k: int| j <= k < s.len() ==> white_space(#[trigger] s[k])
            },
{
    let j = lemma_trim_end_split(s);
    let t = s.subrange(0, j);
    let i = lemma_trailing_word_split(t);
    assert(t.subrange(i, j) =~= s.subrange(i, j));
    assert(!white_space(t[j - 1]));
    assert(i < j);
    if i > 0 {
        assert(t[i - 1] == s[i - 1]);
    }
    assert forall|k: int| i <= k < j implies !white_space(#[trigger] s[k]) by {
        assert(t[k] == s[k]);
    }
}

/// The characters of `text`, one by one.
fn chars_of(text: &str) -> (r: Vec<char>)
    ensures
        r@ == text@,
{
    let mut r: Vec<char> = Vec::new();
    for c in it: text.chars()
        invariant
            r@ == it.seq().subrange(0, it.index() as int),
    {
        r.push(c);
    }
    r
}

/// Where the last token of `text` lies: `Some((i, j))` when it is
/// `text[i..j]`, in characters; `None` when `text` holds no token.
pub fn last_token_span(text: &Vec<char>) -> (r: Option<(usize, usize)>)
    ensures
        match r {
            Some((i, j)) => {
                &&& i <= j <= text@.len()
                &&& last_token(text@) == Some(text@.subrange(i as int, j as int))
            },
            None => last_token(text@) is None,
        },
{
    let mut j: usize = text.len();
    assert(text@.subrange(0, j as int) =~= text@);
    while j > 0 && is_white_space(text[j - 1])
        invariant
            j <= text@.len(),
            trim_end(text@) == trim_end(text@.subrange(0, j as int)),
        decreases j,
    {
        assert(text@.subrange(0, j as int).drop_last() =~= text@.subrange(0, j - 1));
        j = j - 1;
    }
    assert(trim_end(text@.subrange(0, j as int)) == text@.subrange(0, j as int));
    if j == 0 {
        return None;
    }
    let mut i: usize = j;
    while i > 0 && !is_white_space(text[i - 1])
        invariant
            i <= j <= text@.len(),
            trailing_word(text@.subrange(0, j as int)) == trailing_word(
                text@.subrange(0, i as int),
            ) + text@.subrange(i as int, j as int),
        decreases i,
    {
        let ghost pre = text@.subrange(0, i as int);
        assert(pre.drop_last() =~= text@.subrange(0, i - 1));
        assert(trailing_word(text@.subrange(0, i - 1)) + text@.subrange(i - 1, j as int)
            =~= trailing_word(text@.subrange(0, i - 1)).push(text@[i - 1])
            + text@.subrange(i as int, j as int));
        i = i - 1;
    }
    assert(trailing_word(text@.subrange(0, i as int)) =~= Seq::<char>::empty());
    assert(trailing_word(text@.subrange(0, j as int)) =~= text@.subrange(i as int, j as int));
    Some((i, j))
}

/// The last whitespace-separated token of `text`, or `"unknown"` when `text`
/// is empty or all whitespace.
pub fn last_token_or_unknown(text: &str) -> (r: String)
    ensures
        r@ == token_or_sentinel(text@),
{
    let chars = chars_of(text);
    match last_token_span(&chars) {
        Some((i, j)) => String::from_str(text.substring_char(i, j)),
        None => {
            proof {
                reveal_strlit("unknown");
            }
            let r = String::from_str("unknown");
            assert(r@ =~= sentinel());
            r
        },
    }
}

} // verus!
