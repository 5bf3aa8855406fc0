//! Reading the user's reply to a yes/no question.

use vstd::prelude::*;

verus! {

/// The characters with the Unicode `White_Space` property, which is what
/// `char::is_whitespace` and `str::trim` go by.
pub open spec fn is_white_space(c: char) -> bool {
    let n = c as int;
    ||| 0x09 <= n <= 0x0D
    ||| n == 0x20
    ||| n == 0x85
    ||| n == 0xA0
    ||| n == 0x1680
    ||| 0x2000 <= n <= 0x200A
    ||| n == 0x2028
    ||| n == 0x2029
    ||| n == 0x202F
    ||| n == 0x205F
    ||| n == 0x3000
}

/// `s` without its leading white space.
pub open spec fn trim_start(s: Seq<char>) -> Seq<char>
    decreases s.len(),
{
    if s.len() > 0 && is_white_space(s[0]) {
        trim_start(s.drop_first())
    } else {
        s
    }
}

/// `s` without its trailing white space.
pub open spec fn trim_end(s: Seq<char>) -> Seq<char>
    decreases s.len(),
{
    if s.len() > 0 && is_white_space(s.last()) {
        trim_end(s.drop_last())
    } else {
        s
    }
}

/// `s` without leading and trailing white space.
pub open spec fn trimmed(s: Seq<char>) -> Seq<char> {
    trim_end(trim_start(s))
}

/// Whether `c` has the `White_Space` property.
fn is_white_space_char(c: char) -> (r: bool)
    ensures
        r == is_white_space(c),
{
    let n = c as u32;
    (0x09 <= n && n <= 0x0D) || n == 0x20 || n == 0x85 || n == 0xA0 || n == 0x1680 || (0x2000
        <= n && n <= 0x200A) || n == 0x2028 || n == 0x2029 || n == 0x202F || n == 0x205F || n
        == 0x3000
}

/// `s` without leading and trailing white space, as `str::trim` gives it.
pub fn trim_whitespace(s: &str) -> (r: &str)
    ensures
        r@ == trimmed(s@),
{
    let len = s.unicode_len();
    let mut i: usize = 0;
    assert(s@.subrange(0, len as int) =~= s@);
    loop
        invariant
            i <= len,
            len == s@.len(),
            trim_start(s@) == trim_start(s@.subrange(i as int, len as int)),
        ensures
            i <= len,
            trim_start(s@) == s@.subrange(i as int, len as int),
        decreases len - i,
    {
        let ghost t = s@.subrange(i as int, len as int);
        if i == len {
            assert(trim_start(t) == t);
            break;
        }
        if !is_white_space_char(s.get_char(i)) {
            assert(t[0] == s@[i as int]);
            assert(trim_start(t) == t);
            break;
        }
        assert(t[0] == s@[i as int]);
        assert(t.drop_first() =~= s@.subrange(i + 1, len as int));
        i = i + 1;
    }
    let mut j: usize = len;
    loop
        invariant
            i <= j <= len,
            len == s@.len(),
            trim_start(s@) == s@.subrange(i as int, len as int),
            trim_end(s@.subrange(i as int, len as int)) == trim_end(s@.subrange(i as int, j as int)),
        ensures
            i <= j <= len,
            trimmed(s@) == s@.subrange(i as int, j as int),
        decreases j - i,
    {
        let ghost t = s@.subrange(i as int, j as int);
        if j == i {
            assert(trim_end(t) == t);
            break;
        }
        if !is_white_space_char(s.get_char(j - 1)) {
            assert(t.last() == s@[j - 1]);
            assert(trim_end(t) == t);
            break;
        }
        assert(t.last() == s@[j - 1]);
        assert(t.drop_last() =~= s@.subrange(i as int, j - 1));
        j = j - 1;
    }
    s.substring_char(i, j)
}

/// Whether a reply means yes: once white space is trimmed from both ends, it
/// is the single letter `y`, in either case.
pub open spec fn is_yes(reply: Seq<char>) -> bool {
    trimmed(reply) == seq!['y'] || trimmed(reply) == seq!['Y']
}

/// Whether the line the user typed means yes. Anything else, the empty line
/// included, means no.
pub fn is_affirmative(reply: &str) -> (r: bool)
    ensures
        r == is_yes(reply@),
{
    let t = trim_whitespace(reply);
    if t.unicode_len() != 1 {
        return false;
    }
    let c = t.get_char(0);
    if c == 'y' || c == 'Y' {
        assert(t@ =~= seq![c]);
        true
    } else {
        assert(t@ != seq!['y'] && t@ != seq!['Y']) by {
            assert(seq!['y'][0] == 'y');
            assert(seq!['Y'][0] == 'Y');
        }
        false
    }
}

/// Whether every character of `s` is white space.
pub open spec fn all_white_space(s: Seq<char>) -> bool {
    forall|k: int| 0 <= k < s.len() ==> is_white_space(#[trigger] s[k])
}

proof fn lemma_trim_start_shape(s: Seq<char>) -> (i: int)
    ensures
        0 <= i <= s.len(),
        trim_start(s) == s.skip(i),
        forall|k: int| 0 <= k < i ==> is_white_space(#[trigger] s[k]),
        i < s.len() ==> !is_white_space(s[i]),
    decreases s.len(),
{
    if s.len() > 0 && is_white_space(s[0]) {
        let j = lemma_trim_start_shape(s.drop_first());
        assert(s.drop_first().skip(j) =~= s.skip(j + 1));
        assert forall|k: int| 0 <= k < j + 1 implies is_white_space(#[trigger] s[k]) by {
            if k > 0 {
                assert(s[k] == s.drop_first()[k - 1]);
            }
        }
        j + 1
    } else {
        assert(s.skip(0) =~= s);
        0
    }
}

proof fn lemma_trim_end_shape(s: Seq<char>) -> (m: int)
    ensures
        0 <= m <= s.len(),
        trim_end(s) == s.take(m),
        forall|k: int| m <= k < s.len() ==> is_white_space(#[trigger] s[k]),
        m > 0 ==> !is_white_space(s[m - 1]),
    decreases s.len(),
{
    if s.len() > 0 && is_white_space(s.last()) {
        let m = lemma_trim_end_shape(s.drop_last());
        assert(s.drop_last().take(m) =~= s.take(m));
        assert forall|k: int| m <= k < s.len() implies is_white_space(#[trigger] s[k]) by {
            if k < s.len() - 1 {
                assert(s[k] == s.drop_last()[k]);
            }
        }
        m
    } else {
        assert(s.take(s.len() as int) =~= s);
        s.len() as int
    }
}

/// Trimming keeps one stretch of the text: everything before it and after it
/// is white space, and the stretch, unless empty, neither starts nor ends
/// with white space.
pub proof fn trimming_drops_only_outer_white_space(s: Seq<char>)
    ensures
        exists|i: int, j: int|
            0 <= i <= j <= s.len() && #[trigger] trimmed(s) == s.subrange(i, j) && (forall|k: int|
                0 <= k < i ==> is_white_space(#[trigger] s[k])) && (forall|k: int|
                j <= k < s.len() ==> is_white_space(#[trigger] s[k])) && (i < j ==> !is_white_space(
                s[i]) && !is_white_space(s[j - 1])),
{
    let i = lemma_trim_start_shape(s);
    let t = s.skip(i);
    let m = lemma_trim_end_shape(t);
    let j = i + m;
    assert(t.take(m) =~= s.subrange(i, j));
    assert forall|k: int| j <= k < s.len() implies is_white_space(#[trigger] s[k]) by {
        assert(s[k] == t[k - i]);
    }
    if i < j {
        assert(s[i] == t[0]);
        assert(s[j - 1] == t[m - 1]);
    }
}

/// A reply that is one character, with any white space around it, means yes
/// exactly when that character is `y` or `Y`: `N`, `n` or any other letter
/// means no.
pub proof fn lone_letter_reply_means_yes_only_for_y(before: Seq<char>, c: char, after: Seq<char>)
    requires
        all_white_space(before),
        all_white_space(after),
        !is_white_space(c),
    ensures
        is_yes(before + seq![c] + after) <==> (c == 'y' || c == 'Y'),
{
    let s = before + seq![c] + after;
    trimming_drops_only_outer_white_space(s);
    let (i, j) = choose|i: int, j: int|
        0 <= i <= j <= s.len() && #[trigger] trimmed(s) == s.subrange(i, j) && (forall|k: int|
            0 <= k < i ==> is_white_space(#[trigger] s[k])) && (forall|k: int|
            j <= k < s.len() ==> is_white_space(#[trigger] s[k])) && (i < j ==> !is_white_space(
            s[i]) && !is_white_space(s[j - 1]));
    let p = before.len() as int;
    assert(s[p] == c);
    assert forall|k: int| 0 <= k < s.len() && k != p implies is_white_space(#[trigger] s[k]) by {
        if k < p {
            assert(s[k] == before[k]);
        } else {
            assert(s[k] == after[k - p - 1]);
        }
    }
    // The kept stretch cannot start after c nor end before it.
    assert(i <= p) by {
        if i > p {
            assert(is_white_space(s[p]));
        }
    }
    assert(j > p) by {
        if j <= p {
            assert(is_white_space(s[p]));
        }
    }
    assert(i == p);
    assert(j == p + 1);
    assert(trimmed(s) =~= seq![c]);
    assert(seq!['y'][0] == 'y');
    assert(seq!['Y'][0] == 'Y');
}

/// A reply means yes only when it holds a single `y` or `Y` and nothing else
/// but white space.
pub proof fn yes_reply_is_a_lone_y(reply: Seq<char>)
    requires
        is_yes(reply),
    ensures
        exists|p: int|
            0 <= p < reply.len() && (reply[p] == 'y' || reply[p] == 'Y') && forall|k: int|
                0 <= k < reply.len() && k != p ==> is_white_space(#[trigger] reply[k]),
{
    trimming_drops_only_outer_white_space(reply);
    let (i, j) = choose|i: int, j: int|
        0 <= i <= j <= reply.len() && #[trigger] trimmed(reply) == reply.subrange(i, j) && (forall|
            k: int,
        | 0 <= k < i ==> is_white_space(#[trigger] reply[k])) && (forall|k: int|
            j <= k < reply.len() ==> is_white_space(#[trigger] reply[k])) && (i < j
            ==> !is_white_space(reply[i]) && !is_white_space(reply[j - 1]));
    assert(trimmed(reply).len() == 1);
    assert(j == i + 1);
    assert(reply[i] == trimmed(reply)[0]);
    assert(seq!['y'][0] == 'y');
    assert(seq!['Y'][0] == 'Y');
    assert(reply[i] == 'y' || reply[i] == 'Y');
}

} // verus!
