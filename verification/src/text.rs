use vstd::prelude::*;
use vstd::string::StrSliceExecFns;
use vstd::string::StringExecFns;

verus! {

/// ASCII whitespace: the separator between a numeric run and its unit,
/// and what trimming strips from either end.
pub open spec fn is_space_char(c: char) -> bool {
    c == ' ' || c == '\t' || c == '\n' || c == '\r'
}

/// The index of the first occurrence of a character, or the length of the
/// sequence when it does not occur.
pub open spec fn char_pos(s: Seq<char>, c: char) -> nat
    decreases s.len(),
{
    if s.len() == 0 {
        0
    } else if s[0] == c {
        0
    } else {
        1 + char_pos(s.drop_first(), c)
    }
}

/// The count of leading whitespace characters.
pub open spec fn leading_spaces(s: Seq<char>) -> nat
    decreases s.len(),
{
    if s.len() == 0 || !is_space_char(s[0]) {
        0
    } else {
        1 + leading_spaces(s.drop_first())
    }
}

/// The count of trailing whitespace characters.
pub open spec fn trailing_spaces(s: Seq<char>) -> nat
    decreases s.len(),
{
    if s.len() == 0 || !is_space_char(s.last()) {
        0
    } else {
        1 + trailing_spaces(s.drop_last())
    }
}

/// A string without its leading and trailing whitespace.
pub open spec fn spec_trim(s: Seq<char>) -> Seq<char> {
    if leading_spaces(s) == s.len() {
        Seq::empty()
    } else {
        s.subrange(leading_spaces(s) as int, s.len() - trailing_spaces(s))
    }
}

/// What precedes the first occurrence of a character; the whole string
/// when the character does not occur.
pub open spec fn spec_before(s: Seq<char>, c: char) -> Seq<char> {
    s.take(char_pos(s, c) as int)
}

/// What stands between the first occurrence of a character and its next
/// occurrence (or the end); `None` when the character does not occur at
/// all.
pub open spec fn spec_between(s: Seq<char>, c: char) -> Option<Seq<char>> {
    if char_pos(s, c) == s.len() {
        Option::None
    } else {
        let rest = s.skip(char_pos(s, c) as int + 1);
        Option::Some(rest.take(char_pos(rest, c) as int))
    }
}

/// A scan that stops at the first occurrence has found `char_pos`.
proof fn lemma_char_pos_scan(s: Seq<char>, c: char, j: nat)
    requires
        j <= s.len(),
        forall|k: int| 0 <= k < j ==> #[trigger] s[k] != c,
        j < s.len() ==> s[j as int] == c,
    ensures
        char_pos(s, c) == j,
    decreases j, s.len(),
{
    if j == 0 {
    } else {
        lemma_char_pos_scan(s.drop_first(), c, (j - 1) as nat);
    }
}

/// A scan that stops at the first non-space has found `leading_spaces`.
proof fn lemma_leading_spaces_scan(s: Seq<char>, j: nat)
    requires
        j <= s.len(),
        forall|k: int| 0 <= k < j ==> is_space_char(#[trigger] s[k]),
        j < s.len() ==> !is_space_char(s[j as int]),
    ensures
        leading_spaces(s) == j,
    decreases j, s.len(),
{
    if j == 0 {
    } else {
        lemma_leading_spaces_scan(s.drop_first(), (j - 1) as nat);
    }
}

/// A scan from the end that stops at the first non-space has found
/// `trailing_spaces`.
proof fn lemma_trailing_spaces_scan(s: Seq<char>, j: nat)
    requires
        j <= s.len(),
        forall|k: int| s.len() - j <= k < s.len() ==> is_space_char(#[trigger] s[k]),
        j < s.len() ==> !is_space_char(s[s.len() - j - 1]),
    ensures
        trailing_spaces(s) == j,
    decreases j, s.len(),
{
    if j == 0 {
    } else {
        lemma_trailing_spaces_scan(s.drop_last(), (j - 1) as nat);
    }
}

/// Whether a character counts as whitespace for trimming.
fn space_char(c: char) -> (r: bool)
    ensures
        r == is_space_char(c),
{
    c == ' ' || c == '\t' || c == '\n' || c == '\r'
}

/// The index of the first occurrence of a character, or the length when
/// it does not occur.
pub fn find_char(text: &str, c: char) -> (i: usize)
    ensures
        i as nat == char_pos(text@, c),
        i <= text@.len(),
{
    let n = text.unicode_len();
    let mut i: usize = 0;
    while i < n
        invariant
            i <= n,
            n as nat == text@.len(),
            forall|k: int| 0 <= k < i ==> #[trigger] text@[k] != c,
        ensures
            i <= n,
            n as nat == text@.len(),
            forall|k: int| 0 <= k < i ==> #[trigger] text@[k] != c,
            i < n ==> text@[i as int] == c,
        decreases n - i,
    {
        if text.get_char(i) == c {
            break;
        }
        i = i + 1;
    }
    proof {
        lemma_char_pos_scan(text@, c, i as nat);
    }
    i
}

/// A string without its leading and trailing whitespace.
pub fn trim_spaces(text: &str) -> (r: &str)
    ensures
        r@ == spec_trim(text@),
{
    let n = text.unicode_len();
    let mut a: usize = 0;
    while a < n
        invariant
            a <= n,
            n as nat == text@.len(),
            forall|k: int| 0 <= k < a ==> is_space_char(#[trigger] text@[k]),
        ensures
            a <= n,
            n as nat == text@.len(),
            forall|k: int| 0 <= k < a ==> is_space_char(#[trigger] text@[k]),
            a < n ==> !is_space_char(text@[a as int]),
        decreases n - a,
    {
        if !space_char(text.get_char(a)) {
            break;
        }
        a = a + 1;
    }
    proof {
        lemma_leading_spaces_scan(text@, a as nat);
    }
    if a == n {
        let r = text.substring_char(0, 0);
        proof {
            assert(r@ =~= spec_trim(text@));
        }
        return r;
    }
    let mut b: usize = 0;
    while b < n
        invariant
            b <= n,
            n as nat == text@.len(),
            forall|k: int| n - b <= k < n ==> is_space_char(#[trigger] text@[k]),
        ensures
            b <= n,
            n as nat == text@.len(),
            forall|k: int| n - b <= k < n ==> is_space_char(#[trigger] text@[k]),
            b < n ==> !is_space_char(text@[n - b - 1]),
        decreases n - b,
    {
        if !space_char(text.get_char(n - 1 - b)) {
            break;
        }
        b = b + 1;
    }
    proof {
        lemma_trailing_spaces_scan(text@, b as nat);
        // the first non-space bounds the trailing run
        assert(!is_space_char(text@[a as int]));
        assert(n - b > a);
    }
    let r = text.substring_char(a, n - b);
    proof {
        assert(r@ =~= spec_trim(text@));
    }
    r
}

/// What precedes the first occurrence of a character; the whole string
/// when the character does not occur.
pub fn take_before(text: &str, c: char) -> (r: &str)
    ensures
        r@ == spec_before(text@, c),
{
    let i = find_char(text, c);
    text.substring_char(0, i)
}

/// What precedes the first occurrence of a character, or `None` when the
/// character does not occur.
pub fn take_before_strict(text: &str, c: char) -> (r: Option<&str>)
    ensures
        match r {
            Option::Some(p) => char_pos(text@, c) < text@.len() && p@ == spec_before(text@, c),
            Option::None => char_pos(text@, c) == text@.len(),
        },
{
    let n = text.unicode_len();
    let i = find_char(text, c);
    if i == n {
        None
    } else {
        Some(text.substring_char(0, i))
    }
}

/// What stands between the first occurrence of a character and its next
/// occurrence (or the end); `None` when the character does not occur.
pub fn take_between(text: &str, c: char) -> (r: Option<&str>)
    ensures
        r.deep_view() == spec_between(text@, c),
{
    let n = text.unicode_len();
    let i = find_char(text, c);
    if i == n {
        None
    } else {
        let rest = text.substring_char(i + 1, n);
        let j = find_char(rest, c);
        Some(rest.substring_char(0, j))
    }
}

/// The string an optional extraction produced, or the empty string when
/// the extraction came up empty.
pub fn unwrap_or_empty(o: Option<String>) -> (r: String)
    ensures
        r@ == match o.deep_view() {
            Option::Some(s) => s,
            Option::None => Seq::<char>::empty(),
        },
{
    match o {
        Option::Some(s) => s,
        Option::None => String::new(),
    }
}

/// The concatenation of a static prefix and a suffix.
pub fn concat_str(base: &str, rest: &str) -> (r: String)
    ensures
        r@ == base@ + rest@,
{
    let mut s = base.to_owned();
    s.append(rest);
    s
}

} // verus!
