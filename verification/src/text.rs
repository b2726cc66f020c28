//! Character-level text utilities for the script reader: splitting on
//! whitespace and separators, trimming punctuation, case folding of ASCII
//! letters, joining tokens, and decimal number reading and writing.  The
//! reader works on whole lines held as character vectors, so everything here
//! is stated over sequences of characters.

use vstd::prelude::*;
use vstd::string::StrSliceExecFns;

verus! {

/// True exactly when the two string slices hold the same characters.
pub fn str_eq(a: &str, b: &str) -> (r: bool)
    ensures
        r == (a@ == b@),
{
    let alen = a.unicode_len();
    let blen = b.unicode_len();
    if alen != blen {
        return false;
    }
    let mut i: usize = 0;
    while i < alen
        invariant
            alen == a@.len(),
            blen == b@.len(),
            alen == blen,
            i <= alen,
            forall|j: int| 0 <= j < i ==> a@[j] == b@[j],
        decreases alen - i,
    {
        if a.get_char(i) != b.get_char(i) {
            return false;
        }
        i = i + 1;
    }
    proof {
        assert(a@ =~= b@);
    }
    true
}

/// The characters of a string slice, in order.
pub fn string_to_chars(s: &str) -> (r: Vec<char>)
    ensures
        r@ == s@,
{
    let len = s.unicode_len();
    let mut r: Vec<char> = Vec::new();
    let mut i: usize = 0;
    while i < len
        invariant
            len == s@.len(),
            i <= len,
            r@ =~= s@.subrange(0, i as int),
        decreases len - i,
    {
        r.push(s.get_char(i));
        i = i + 1;
    }
    proof {
        assert(r@ =~= s@);
    }
    r
}

/// Relies on `String`'s `FromIterator` implementation for `char`: collecting
/// characters yields the string of exactly those characters in order.
#[verifier::external_body]
pub fn chars_to_string(v: &Vec<char>) -> (r: String)
    ensures
        r@ == v@,
{
    v.iter().collect()
}

/// The characters the line reader treats as token separators.
pub open spec fn is_space(c: char) -> bool {
    c == ' ' || c == '\t' || c == '\r' || c == '\n' || c == '\u{b}' || c == '\u{c}'
}

/// The characters the line reader treats as token separators.
pub fn is_space_char(c: char) -> (r: bool)
    ensures
        r == is_space(c),
{
    c == ' ' || c == '\t' || c == '\r' || c == '\n' || c == '\u{b}' || c == '\u{c}'
}

/// An ASCII upper-case letter folded to lower case; all else unchanged.
pub open spec fn lower_char(c: char) -> char {
    match c {
        'A' => 'a',
        'B' => 'b',
        'C' => 'c',
        'D' => 'd',
        'E' => 'e',
        'F' => 'f',
        'G' => 'g',
        'H' => 'h',
        'I' => 'i',
        'J' => 'j',
        'K' => 'k',
        'L' => 'l',
        'M' => 'm',
        'N' => 'n',
        'O' => 'o',
        'P' => 'p',
        'Q' => 'q',
        'R' => 'r',
        'S' => 's',
        'T' => 't',
        'U' => 'u',
        'V' => 'v',
        'W' => 'w',
        'X' => 'x',
        'Y' => 'y',
        'Z' => 'z',
        _ => c,
    }
}

/// An ASCII lower-case letter folded to upper case; all else unchanged.
pub open spec fn upper_char(c: char) -> char {
    match c {
        'a' => 'A',
        'b' => 'B',
        'c' => 'C',
        'd' => 'D',
        'e' => 'E',
        'f' => 'F',
        'g' => 'G',
        'h' => 'H',
        'i' => 'I',
        'j' => 'J',
        'k' => 'K',
        'l' => 'L',
        'm' => 'M',
        'n' => 'N',
        'o' => 'O',
        'p' => 'P',
        'q' => 'Q',
        'r' => 'R',
        's' => 'S',
        't' => 'T',
        'u' => 'U',
        'v' => 'V',
        'w' => 'W',
        'x' => 'X',
        'y' => 'Y',
        'z' => 'Z',
        _ => c,
    }
}

/// A token folded to lower case, character by character.
pub open spec fn lower(s: Seq<char>) -> Seq<char> {
    s.map_values(|c: char| lower_char(c))
}

/// A token folded to upper case, character by character.
pub open spec fn upper(s: Seq<char>) -> Seq<char> {
    s.map_values(|c: char| upper_char(c))
}

/// Folds a token to lower case, character by character.
pub fn lower_chars(s: &Vec<char>) -> (r: Vec<char>)
    ensures
        r@ == lower(s@),
{
    let mut r: Vec<char> = Vec::new();
    let mut i: usize = 0;
    while i < s.len()
        invariant
            i <= s@.len(),
            r@ =~= lower(s@.subrange(0, i as int)),
        decreases s@.len() - i,
    {
        let c = s[i];
        let folded = match c {
            'A' => 'a',
            'B' => 'b',
            'C' => 'c',
            'D' => 'd',
            'E' => 'e',
            'F' => 'f',
            'G' => 'g',
            'H' => 'h',
            'I' => 'i',
            'J' => 'j',
            'K' => 'k',
            'L' => 'l',
            'M' => 'm',
            'N' => 'n',
            'O' => 'o',
            'P' => 'p',
            'Q' => 'q',
            'R' => 'r',
            'S' => 's',
            'T' => 't',
            'U' => 'u',
            'V' => 'v',
            'W' => 'w',
            'X' => 'x',
            'Y' => 'y',
            'Z' => 'z',
            _ => c,
        };
        r.push(folded);
        proof {
            assert(lower(s@.subrange(0, i + 1)) =~= lower(s@.subrange(0, i as int)).push(
                lower_char(s@[i as int]),
            ));
        }
        i = i + 1;
    }
    proof {
        assert(s@.subrange(0, s@.len() as int) =~= s@);
    }
    r
}

/// Folds a token to upper case, character by character.
pub fn upper_chars(s: &Vec<char>) -> (r: Vec<char>)
    ensures
        r@ == upper(s@),
{
    let mut r: Vec<char> = Vec::new();
    let mut i: usize = 0;
    while i < s.len()
        invariant
            i <= s@.len(),
            r@ =~= upper(s@.subrange(0, i as int)),
        decreases s@.len() - i,
    {
        let c = s[i];
        let folded = match c {
            'a' => 'A',
            'b' => 'B',
            'c' => 'C',
            'd' => 'D',
            'e' => 'E',
            'f' => 'F',
            'g' => 'G',
            'h' => 'H',
            'i' => 'I',
            'j' => 'J',
            'k' => 'K',
            'l' => 'L',
            'm' => 'M',
            'n' => 'N',
            'o' => 'O',
            'p' => 'P',
            'q' => 'Q',
            'r' => 'R',
            's' => 'S',
            't' => 'T',
            'u' => 'U',
            'v' => 'V',
            'w' => 'W',
            'x' => 'X',
            'y' => 'Y',
            'z' => 'Z',
            _ => c,
        };
        r.push(folded);
        proof {
            assert(upper(s@.subrange(0, i + 1)) =~= upper(s@.subrange(0, i as int)).push(
                upper_char(s@[i as int]),
            ));
        }
        i = i + 1;
    }
    proof {
        assert(s@.subrange(0, s@.len() as int) =~= s@);
    }
    r
}

/// The sets of punctuation the reader trims from token ends.
#[derive(Copy, Clone, Debug, PartialEq, Eq, Structural)]
pub enum TrimSet {
    Comma,
    Colon,
    HotkeyPunct,
    Brace,
    Paren,
    Backslash,
}

/// Whether a character belongs to a trim set.
pub open spec fn in_trim_set(t: TrimSet, c: char) -> bool {
    match t {
        TrimSet::Comma => c == ',',
        TrimSet::Colon => c == ':',
        TrimSet::HotkeyPunct => c == ':' || c == '^' || c == '!' || c == '+' || c == '#',
        TrimSet::Brace => c == '{' || c == '}',
        TrimSet::Paren => c == '(' || c == ')',
        TrimSet::Backslash => c == '\\',
    }
}

/// Whether a character belongs to a trim set.
pub fn in_trim_set_char(t: TrimSet, c: char) -> (r: bool)
    ensures
        r == in_trim_set(t, c),
{
    match t {
        TrimSet::Comma => c == ',',
        TrimSet::Colon => c == ':',
        TrimSet::HotkeyPunct => c == ':' || c == '^' || c == '!' || c == '+' || c == '#',
        TrimSet::Brace => c == '{' || c == '}',
        TrimSet::Paren => c == '(' || c == ')',
        TrimSet::Backslash => c == '\\',
    }
}

/// A token with its leading trim-set characters removed.
pub open spec fn trim_start(s: Seq<char>, t: TrimSet) -> Seq<char>
    decreases s.len(),
{
    if s.len() > 0 && in_trim_set(t, s[0]) {
        trim_start(s.drop_first(), t)
    } else {
        s
    }
}

/// A token with its trailing trim-set characters removed.
pub open spec fn trim_end(s: Seq<char>, t: TrimSet) -> Seq<char>
    decreases s.len(),
{
    if s.len() > 0 && in_trim_set(t, s.last()) {
        trim_end(s.drop_last(), t)
    } else {
        s
    }
}

/// A token with leading and trailing trim-set characters removed.
pub open spec fn spec_trim(s: Seq<char>, t: TrimSet) -> Seq<char> {
    trim_end(trim_start(s, t), t)
}

proof fn lemma_trim_start_skip(s: Seq<char>, t: TrimSet, i: int)
    requires
        0 <= i <= s.len(),
        forall|j: int| 0 <= j < i ==> in_trim_set(t, s[j]),
        i == s.len() || !in_trim_set(t, s[i]),
    ensures
        trim_start(s, t) == s.skip(i),
    decreases i,
{
    if i == 0 {
        assert(s.skip(0) =~= s);
    } else {
        lemma_trim_start_skip(s.drop_first(), t, i - 1);
        assert(s.drop_first().skip(i - 1) =~= s.skip(i));
    }
}

proof fn lemma_trim_end_take(s: Seq<char>, t: TrimSet, b: int)
    requires
        0 <= b <= s.len(),
        forall|j: int| b <= j < s.len() ==> in_trim_set(t, s[j]),
        b == 0 || !in_trim_set(t, s[b - 1]),
    ensures
        trim_end(s, t) == s.take(b),
    decreases s.len() - b,
{
    if b == s.len() {
        assert(s.take(b) =~= s);
    } else {
        lemma_trim_end_take(s.drop_last(), t, b);
        assert(s.drop_last().take(b) =~= s.take(b));
    }
}

/// Removes leading and trailing trim-set characters from a token.
pub fn trim_chars(s: &Vec<char>, t: TrimSet) -> (r: Vec<char>)
    ensures
        r@ == spec_trim(s@, t),
{
    let mut a: usize = 0;
    while a < s.len() && in_trim_set_char(t, s[a])
        invariant
            a <= s@.len(),
            forall|j: int| 0 <= j < a ==> in_trim_set(t, s@[j]),
        decreases s@.len() - a,
    {
        a = a + 1;
    }
    let mut b: usize = s.len();
    while b > a && in_trim_set_char(t, s[b - 1])
        invariant
            a <= b <= s@.len(),
            forall|j: int| b <= j < s@.len() ==> in_trim_set(t, s@[j]),
        decreases b,
    {
        b = b - 1;
    }
    let mut r: Vec<char> = Vec::new();
    let mut i: usize = a;
    while i < b
        invariant
            a <= i <= b <= s@.len(),
            r@ =~= s@.subrange(a as int, i as int),
        decreases b - i,
    {
        r.push(s[i]);
        i = i + 1;
    }
    proof {
        lemma_trim_start_skip(s@, t, a as int);
        let u = s@.skip(a as int);
        lemma_trim_end_take(u, t, b - a);
        assert(u.take(b - a) =~= s@.subrange(a as int, b as int));
    }
    r
}

/// The length of the separator-free prefix of a line.
pub open spec fn token_len(s: Seq<char>) -> nat
    decreases s.len(),
{
    if s.len() == 0 || is_space(s[0]) {
        0
    } else {
        1 + token_len(s.drop_first())
    }
}

proof fn lemma_token_len_bounds(s: Seq<char>)
    ensures
        token_len(s) <= s.len(),
        s.len() > 0 && !is_space(s[0]) ==> token_len(s) >= 1,
    decreases s.len(),
{
    if s.len() > 0 && !is_space(s[0]) {
        lemma_token_len_bounds(s.drop_first());
    }
}

proof fn lemma_token_len_at(s: Seq<char>, n: int)
    requires
        0 <= n <= s.len(),
        forall|j: int| 0 <= j < n ==> !is_space(s[j]),
        n == s.len() || is_space(s[n]),
    ensures
        token_len(s) == n,
    decreases n,
{
    if n > 0 {
        lemma_token_len_at(s.drop_first(), n - 1);
    }
}

/// A line split into its separator-free tokens, in order, empty runs dropped.
pub open spec fn split_ws(s: Seq<char>) -> Seq<Seq<char>>
    decreases s.len(),
    via split_ws_decreases
{
    if s.len() == 0 {
        seq![]
    } else if is_space(s[0]) {
        split_ws(s.drop_first())
    } else {
        seq![s.take(token_len(s) as int)] + split_ws(s.skip(token_len(s) as int))
    }
}

#[via_fn]
proof fn split_ws_decreases(s: Seq<char>) {
    if s.len() > 0 && !is_space(s[0]) {
        lemma_token_len_bounds(s);
    }
}

/// Splits a line into its separator-free tokens, in order.
pub fn split_whitespace_chars(s: &Vec<char>) -> (r: Vec<Vec<char>>)
    ensures
        r.deep_view() == split_ws(s@),
{
    let mut r: Vec<Vec<char>> = Vec::new();
    let mut i: usize = 0;
    proof {
        assert(s@.skip(0) =~= s@);
        assert(r.deep_view() + split_ws(s@) =~= split_ws(s@));
    }
    while i < s.len()
        invariant
            i <= s@.len(),
            split_ws(s@) == r.deep_view() + split_ws(s@.skip(i as int)),
        decreases s@.len() - i,
    {
        if is_space_char(s[i]) {
            proof {
                assert(s@.skip(i as int).drop_first() =~= s@.skip(i + 1));
            }
            i = i + 1;
        } else {
            let start = i;
            let mut tok: Vec<char> = Vec::new();
            while i < s.len() && !is_space_char(s[i])
                invariant
                    start <= i <= s@.len(),
                    tok@ =~= s@.subrange(start as int, i as int),
                    forall|j: int| start <= j < i ==> !is_space(s@[j]),
                decreases s@.len() - i,
            {
                tok.push(s[i]);
                i = i + 1;
            }
            proof {
                let u = s@.skip(start as int);
                lemma_token_len_at(u, i - start);
                assert(u.take(i - start) =~= s@.subrange(start as int, i as int));
                assert(u.skip(i - start) =~= s@.skip(i as int));
                assert(split_ws(u) == seq![tok@] + split_ws(s@.skip(i as int)));
            }
            let ghost r0 = r.deep_view();
            r.push(tok);
            proof {
                assert(r.deep_view() =~~= r0.push(tok@));
                assert(r0 + (seq![tok@] + split_ws(s@.skip(i as int))) =~= r.deep_view()
                    + split_ws(s@.skip(i as int)));
            }
        }
    }
    proof {
        assert(s@.skip(s@.len() as int) =~= Seq::<char>::empty());
        assert(r.deep_view() =~= r.deep_view() + split_ws(s@.skip(s@.len() as int)));
    }
    r
}

/// The index of the first occurrence of a separator, or the line's length.
pub open spec fn find_char(s: Seq<char>, sep: char) -> nat
    decreases s.len(),
{
    if s.len() == 0 || s[0] == sep {
        0
    } else {
        1 + find_char(s.drop_first(), sep)
    }
}

proof fn lemma_find_char_bounds(s: Seq<char>, sep: char)
    ensures
        find_char(s, sep) <= s.len(),
    decreases s.len(),
{
    if s.len() > 0 && s[0] != sep {
        lemma_find_char_bounds(s.drop_first(), sep);
    }
}

proof fn lemma_find_char_at(s: Seq<char>, sep: char, n: int)
    requires
        0 <= n <= s.len(),
        forall|j: int| 0 <= j < n ==> s[j] != sep,
        n == s.len() || s[n] == sep,
    ensures
        find_char(s, sep) == n,
    decreases n,
{
    if n > 0 {
        lemma_find_char_at(s.drop_first(), sep, n - 1);
    }
}

/// A line split at every occurrence of a separator, keeping empty pieces.
pub open spec fn split_char(s: Seq<char>, sep: char) -> Seq<Seq<char>>
    decreases s.len(),
    via split_char_decreases
{
    let j = find_char(s, sep) as int;
    if j == s.len() {
        seq![s]
    } else {
        seq![s.take(j)] + split_char(s.skip(j + 1), sep)
    }
}

#[via_fn]
proof fn split_char_decreases(s: Seq<char>, sep: char) {
    lemma_find_char_bounds(s, sep);
}

/// Splits a line at every occurrence of a separator, keeping empty pieces.
pub fn split_char_chars(s: &Vec<char>, sep: char) -> (r: Vec<Vec<char>>)
    ensures
        r.deep_view() == split_char(s@, sep),
{
    let mut r: Vec<Vec<char>> = Vec::new();
    let mut i: usize = 0;
    proof {
        assert(s@.skip(0) =~= s@);
        assert(r.deep_view() + split_char(s@, sep) =~= split_char(s@, sep));
    }
    loop
        invariant_except_break
            i <= s@.len(),
            split_char(s@, sep) == r.deep_view() + split_char(s@.skip(i as int), sep),
        ensures
            r.deep_view() == split_char(s@, sep),
        decreases s@.len() - i,
    {
        let start = i;
        let mut tok: Vec<char> = Vec::new();
        while i < s.len() && s[i] != sep
            invariant
                start <= i <= s@.len(),
                tok@ =~= s@.subrange(start as int, i as int),
                forall|j: int| start <= j < i ==> s@[j] != sep,
            decreases s@.len() - i,
        {
            tok.push(s[i]);
            i = i + 1;
        }
        proof {
            let u = s@.skip(start as int);
            lemma_find_char_at(u, sep, i - start);
            assert(u.take(i - start) =~= s@.subrange(start as int, i as int));
        }
        let ghost r0 = r.deep_view();
        let at_end = i == s.len();
        proof {
            let u = s@.skip(start as int);
            if at_end {
                assert(u.take(i - start) =~= u);
                assert(split_char(u, sep) == seq![tok@]);
            } else {
                assert(u.skip(i - start + 1) =~= s@.skip(i + 1));
                assert(split_char(u, sep) == seq![tok@] + split_char(s@.skip(i + 1), sep));
            }
        }
        r.push(tok);
        proof {
            assert(r.deep_view() =~~= r0.push(tok@));
        }
        if at_end {
            proof {
                assert(r0 + seq![tok@] =~= r.deep_view());
            }
            break;
        }
        proof {
            assert(r0 + (seq![tok@] + split_char(s@.skip(i + 1), sep)) =~= r.deep_view()
                + split_char(s@.skip(i + 1), sep));
        }
        i = i + 1;
    }
    r
}

/// Tokens joined with a separator between neighbours.
pub open spec fn join_with(ts: Seq<Seq<char>>, sep: Seq<char>) -> Seq<char>
    decreases ts.len(),
{
    if ts.len() == 0 {
        seq![]
    } else if ts.len() == 1 {
        ts[0]
    } else {
        ts[0] + sep + join_with(ts.drop_first(), sep)
    }
}

proof fn lemma_join_with_append(ts: Seq<Seq<char>>, last: Seq<char>, sep: Seq<char>)
    ensures
        ts.len() == 0 ==> join_with(ts.push(last), sep) == last,
        ts.len() > 0 ==> join_with(ts.push(last), sep) == join_with(ts, sep) + sep + last,
    decreases ts.len(),
{
    if ts.len() == 0 {
        assert(join_with(ts.push(last), sep) == last);
    } else if ts.len() == 1 {
        assert(ts.push(last).drop_first() =~= seq![last]);
        assert(join_with(seq![last], sep) == last);
        assert(join_with(ts.push(last), sep) == ts[0] + sep + last);
    } else {
        lemma_join_with_append(ts.drop_first(), last, sep);
        assert(ts.push(last).drop_first() =~= ts.drop_first().push(last));
        assert((ts[0] + sep + join_with(ts.drop_first(), sep)) + sep + last =~= ts[0] + sep + (
        join_with(ts.drop_first(), sep) + sep + last));
    }
}

/// Appends the characters of one token to another.
pub fn append_chars(dst: &mut Vec<char>, src: &Vec<char>)
    ensures
        final(dst)@ == old(dst)@ + src@,
{
    let mut i: usize = 0;
    while i < src.len()
        invariant
            i <= src@.len(),
            dst@ =~= old(dst)@ + src@.subrange(0, i as int),
        decreases src@.len() - i,
    {
        dst.push(src[i]);
        i = i + 1;
    }
    proof {
        assert(old(dst)@ + src@.subrange(0, src@.len() as int) =~= old(dst)@ + src@);
    }
}

/// Joins tokens with a separator between neighbours.
pub fn join_chars(ts: &Vec<Vec<char>>, sep: &Vec<char>) -> (r: Vec<char>)
    ensures
        r@ == join_with(ts.deep_view(), sep@),
{
    let mut r: Vec<char> = Vec::new();
    let mut k: usize = 0;
    while k < ts.len()
        invariant
            k <= ts@.len(),
            ts.deep_view().len() == ts@.len(),
            r@ == join_with(ts.deep_view().take(k as int), sep@),
        decreases ts@.len() - k,
    {
        if k > 0 {
            append_chars(&mut r, sep);
        }
        append_chars(&mut r, &ts[k]);
        proof {
            let pre = ts.deep_view().take(k as int);
            lemma_join_with_append(pre, ts@[k as int].deep_view(), sep@);
            assert(ts.deep_view().take(k + 1) =~= pre.push(ts@[k as int].deep_view()));
            assert(ts@[k as int].deep_view() =~= ts@[k as int]@);
        }
        k = k + 1;
    }
    proof {
        assert(ts.deep_view().take(ts@.len() as int) =~= ts.deep_view());
    }
    r
}

/// Whether the pattern occurs at the given position.
pub open spec fn has_sub_at(s: Seq<char>, pat: Seq<char>, i: int) -> bool {
    0 <= i && i + pat.len() <= s.len() && s.subrange(i, i + pat.len()) == pat
}

/// Whether the pattern occurs anywhere in the line.
pub open spec fn has_sub(s: Seq<char>, pat: Seq<char>) -> bool {
    exists|i: int| has_sub_at(s, pat, i)
}

/// Decides whether the pattern occurs anywhere in the line.
pub fn contains_seq(s: &Vec<char>, pat: &Vec<char>) -> (r: bool)
    ensures
        r == has_sub(s@, pat@),
{
    if pat.len() == 0 {
        proof {
            assert(s@.subrange(0, 0) =~= pat@);
            assert(has_sub_at(s@, pat@, 0));
        }
        return true;
    }
    if pat.len() > s.len() {
        return false;
    }
    let last_start = s.len() - pat.len();
    let mut i: usize = 0;
    while i <= last_start
        invariant
            1 <= pat@.len() <= s@.len(),
            s@.len() <= usize::MAX,
            last_start == s@.len() - pat@.len(),
            i <= last_start + 1,
            forall|k: int| 0 <= k < i ==> !has_sub_at(s@, pat@, k),
        decreases last_start + 1 - i,
    {
        let mut j: usize = 0;
        let mut hit = true;
        while j < pat.len()
            invariant
                i + pat@.len() <= s@.len(),
                s@.len() <= usize::MAX,
                j <= pat@.len(),
                hit ==> forall|m: int| 0 <= m < j ==> s@[i + m] == pat@[m],
                !hit ==> !has_sub_at(s@, pat@, i as int),
            decreases pat@.len() - j,
        {
            if s[i + j] != pat[j] {
                proof {
                    if has_sub_at(s@, pat@, i as int) {
                        let sub = s@.subrange(i as int, i + pat@.len());
                        assert(sub[j as int] == s@[i + j]);
                    }
                }
                hit = false;
                j = pat.len();
            } else {
                j = j + 1;
            }
        }
        if hit {
            proof {
                assert(s@.subrange(i as int, i + pat@.len()) =~= pat@);
                assert(has_sub_at(s@, pat@, i as int));
            }
            return true;
        }
        i = i + 1;
    }
    proof {
        assert forall|k: int| !has_sub_at(s@, pat@, k) by {
            if 0 <= k && k + pat@.len() <= s@.len() {
                assert(k < i);
            }
        }
    }
    false
}

/// Decides whether the literal pattern occurs anywhere in the line.
pub fn contains_str(s: &Vec<char>, pat: &str) -> (r: bool)
    ensures
        r == has_sub(s@, pat@),
{
    let p = string_to_chars(pat);
    contains_seq(s, &p)
}

/// Compares a token with a literal, character for character.
pub fn chars_eq_str(v: &Vec<char>, p: &str) -> (r: bool)
    ensures
        r == (v@ == p@),
{
    let pc = string_to_chars(p);
    if v.len() != pc.len() {
        return false;
    }
    let mut i: usize = 0;
    while i < v.len()
        invariant
            pc@ == p@,
            v@.len() == pc@.len(),
            i <= v@.len(),
            forall|j: int| 0 <= j < i ==> v@[j] == pc@[j],
        decreases v@.len() - i,
    {
        if v[i] != pc[i] {
            return false;
        }
        i = i + 1;
    }
    proof {
        assert(v@ =~= p@);
    }
    true
}

/// A copy of part of a token.
pub fn slice_chars(s: &Vec<char>, a: usize, b: usize) -> (r: Vec<char>)
    requires
        a <= b <= s@.len(),
    ensures
        r@ == s@.subrange(a as int, b as int),
{
    let mut r: Vec<char> = Vec::new();
    let mut i: usize = a;
    while i < b
        invariant
            a <= i <= b <= s@.len(),
            r@ =~= s@.subrange(a as int, i as int),
        decreases b - i,
    {
        r.push(s[i]);
        i = i + 1;
    }
    r
}

/// Whether a character is a decimal digit.
pub open spec fn is_digit(c: char) -> bool {
    48 <= c as u32 && c as u32 <= 57
}

/// The numeric value of a decimal digit.
pub open spec fn digit_val(c: char) -> int {
    c as u32 - 48
}

/// Whether a token is one or more decimal digits.
pub open spec fn all_digits(s: Seq<char>) -> bool {
    s.len() > 0 && forall|i: int| 0 <= i < s.len() ==> is_digit(s[i])
}

/// The number a digit token denotes.
pub open spec fn digits_val(s: Seq<char>) -> int
    decreases s.len(),
{
    if s.len() == 0 {
        0
    } else {
        digits_val(s.drop_last()) * 10 + digit_val(s.last())
    }
}

proof fn lemma_digits_val_nonneg(s: Seq<char>)
    requires
        forall|i: int| 0 <= i < s.len() ==> is_digit(s[i]),
    ensures
        digits_val(s) >= 0,
    decreases s.len(),
{
    if s.len() > 0 {
        lemma_digits_val_nonneg(s.drop_last());
    }
}

proof fn lemma_digits_val_extend(s: Seq<char>, i: int)
    requires
        0 <= i < s.len(),
    ensures
        digits_val(s.subrange(0, i + 1)) == digits_val(s.subrange(0, i)) * 10 + digit_val(s[i]),
{
    assert(s.subrange(0, i + 1).drop_last() =~= s.subrange(0, i));
    assert(s.subrange(0, i + 1).last() == s[i]);
}

proof fn lemma_digits_val_prefix_le(s: Seq<char>, i: int)
    requires
        0 <= i <= s.len(),
        forall|j: int| 0 <= j < s.len() ==> is_digit(s[j]),
    ensures
        digits_val(s.subrange(0, i)) <= digits_val(s),
    decreases s.len() - i,
{
    if i == s.len() {
        assert(s.subrange(0, i) =~= s);
    } else {
        lemma_digits_val_extend(s, i);
        lemma_digits_val_nonneg(s.subrange(0, i));
        lemma_digits_val_prefix_le(s, i + 1);
    }
}

/// Reads a decimal digit token as an unsigned number; anything else, and any
/// value over the range, reads as nothing.
pub fn parse_u64_chars(s: &Vec<char>) -> (r: Option<u64>)
    ensures
        r is Some <==> all_digits(s@) && digits_val(s@) <= u64::MAX,
        r is Some ==> r->0 == digits_val(s@),
{
    if s.len() == 0 {
        return None;
    }
    let mut acc: u64 = 0;
    let mut i: usize = 0;
    while i < s.len()
        invariant
            0 < s@.len(),
            i <= s@.len(),
            forall|j: int| 0 <= j < i ==> is_digit(s@[j]),
            acc == digits_val(s@.subrange(0, i as int)),
        decreases s@.len() - i,
    {
        let u = s[i] as u32;
        if u < 48 || u > 57 {
            return None;
        }
        let d = (u - 48) as u64;
        let step = match acc.checked_mul(10) {
            Some(m) => m.checked_add(d),
            None => None,
        };
        proof {
            lemma_digits_val_extend(s@, i as int);
        }
        match step {
            Some(v) => {
                acc = v;
            },
            None => {
                proof {
                    if all_digits(s@) {
                        lemma_digits_val_prefix_le(s@, i + 1);
                    }
                }
                return None;
            },
        }
        i = i + 1;
    }
    proof {
        assert(s@.subrange(0, s@.len() as int) =~= s@);
    }
    Some(acc)
}

/// Reads a decimal digit token as an unsigned number within `u32` range.
pub fn parse_u32_chars(s: &Vec<char>) -> (r: Option<u32>)
    ensures
        r is Some <==> all_digits(s@) && digits_val(s@) <= u32::MAX,
        r is Some ==> r->0 == digits_val(s@),
{
    match parse_u64_chars(s) {
        Some(v) => if v <= 0xffff_ffff {
            Some(v as u32)
        } else {
            None
        },
        None => None,
    }
}

/// Reads a decimal digit token as an unsigned number within `u16` range.
pub fn parse_u16_chars(s: &Vec<char>) -> (r: Option<u16>)
    ensures
        r is Some <==> all_digits(s@) && digits_val(s@) <= u16::MAX,
        r is Some ==> r->0 == digits_val(s@),
{
    match parse_u64_chars(s) {
        Some(v) => if v <= 0xffff {
            Some(v as u16)
        } else {
            None
        },
        None => None,
    }
}

/// Whether a token is an optionally negated decimal digit token.
pub open spec fn is_signed_digits(s: Seq<char>) -> bool {
    if s.len() > 0 && s[0] == '-' {
        all_digits(s.drop_first())
    } else {
        all_digits(s)
    }
}

/// The signed number a token denotes.
pub open spec fn signed_val(s: Seq<char>) -> int {
    if s.len() > 0 && s[0] == '-' {
        -digits_val(s.drop_first())
    } else {
        digits_val(s)
    }
}

/// Reads an optionally negated decimal digit token as a signed number within
/// `i32` range.
pub fn parse_i32_chars(s: &Vec<char>) -> (r: Option<i32>)
    ensures
        r is Some <==> is_signed_digits(s@) && i32::MIN <= signed_val(s@) <= i32::MAX,
        r is Some ==> r->0 == signed_val(s@),
{
    if s.len() > 0 && s[0] == '-' {
        let rest = slice_chars(s, 1, s.len());
        proof {
            assert(rest@ =~= s@.drop_first());
        }
        match parse_u64_chars(&rest) {
            Some(v) => if v <= 0x8000_0000 {
                let neg: i64 = -(v as i64);
                Some(neg as i32)
            } else {
                None
            },
            None => None,
        }
    } else {
        match parse_u64_chars(s) {
            Some(v) => if v <= 0x7fff_ffff {
                Some(v as i32)
            } else {
                None
            },
            None => None,
        }
    }
}

/// The character that denotes a decimal digit value.
pub open spec fn digit_char(d: int) -> char {
    if d == 0 {
        '0'
    } else if d == 1 {
        '1'
    } else if d == 2 {
        '2'
    } else if d == 3 {
        '3'
    } else if d == 4 {
        '4'
    } else if d == 5 {
        '5'
    } else if d == 6 {
        '6'
    } else if d == 7 {
        '7'
    } else if d == 8 {
        '8'
    } else {
        '9'
    }
}

/// The decimal digits of a positive number, empty for zero.
pub open spec fn dec_rest(n: int) -> Seq<char>
    decreases n,
{
    if n <= 0 {
        seq![]
    } else {
        dec_rest(n / 10) + seq![digit_char(n % 10)]
    }
}

/// The decimal digits a non-negative number writes as.
pub open spec fn dec_digits(n: int) -> Seq<char> {
    if n == 0 {
        seq!['0']
    } else {
        dec_rest(n)
    }
}

/// The token a signed number writes as.
pub open spec fn dec_signed(v: int) -> Seq<char> {
    if v < 0 {
        seq!['-'] + dec_digits(-v)
    } else {
        dec_digits(v)
    }
}

/// Writes a number as its decimal digits.
pub fn u64_to_chars(n: u64) -> (r: Vec<char>)
    ensures
        r@ == dec_digits(n as int),
{
    if n == 0 {
        let mut r: Vec<char> = Vec::new();
        r.push('0');
        proof {
            assert(r@ =~= dec_digits(0));
        }
        return r;
    }
    let mut r: Vec<char> = Vec::new();
    let mut cur = n;
    while cur > 0
        invariant
            dec_rest(n as int) == dec_rest(cur as int) + r@,
        decreases cur,
    {
        let d = cur % 10;
        let c = match d {
            0 => '0',
            1 => '1',
            2 => '2',
            3 => '3',
            4 => '4',
            5 => '5',
            6 => '6',
            7 => '7',
            8 => '8',
            _ => '9',
        };
        proof {
            assert(c == digit_char(cur as int % 10));
            assert(dec_rest(cur as int) == dec_rest(cur as int / 10) + seq![digit_char(
                cur as int % 10,
            )]);
            assert(dec_rest(cur as int / 10) + (seq![c] + r@) =~= (dec_rest(cur as int / 10)
                + seq![c]) + r@);
        }
        r.insert(0, c);
        cur = cur / 10;
    }
    proof {
        assert(dec_rest(0) + r@ =~= r@);
        assert(dec_digits(n as int) == dec_rest(n as int));
    }
    r
}

/// Writes a signed number as an optionally negated decimal digit token.
pub fn i32_to_chars(v: i32) -> (r: Vec<char>)
    ensures
        r@ == dec_signed(v as int),
{
    if v >= 0 {
        u64_to_chars(v as u64)
    } else {
        let mag: i64 = -(v as i64);
        let digits = u64_to_chars(mag as u64);
        let mut r: Vec<char> = Vec::new();
        r.push('-');
        append_chars(&mut r, &digits);
        proof {
            assert(r@ =~= seq!['-'] + dec_digits(-(v as int)));
        }
        r
    }
}

/// Writes a truth value as its word.
pub fn bool_to_chars(b: bool) -> (r: Vec<char>)
    ensures
        b ==> r@ == "true"@,
        !b ==> r@ == "false"@,
{
    if b {
        string_to_chars("true")
    } else {
        string_to_chars("false")
    }
}

/// Reads a truth value written as its word; anything else reads as nothing.
pub fn parse_bool_chars(s: &Vec<char>) -> (r: Option<bool>)
    ensures
        r == (if s@ == "true"@ {
            Some(true)
        } else if s@ == "false"@ {
            Some(false)
        } else {
            None::<bool>
        }),
{
    if chars_eq_str(s, "true") {
        Some(true)
    } else if chars_eq_str(s, "false") {
        Some(false)
    } else {
        None
    }
}

/// Every digit token a number writes as reads back as that number.
pub proof fn lemma_dec_digits_val(n: int)
    requires
        n >= 0,
    ensures
        all_digits(dec_digits(n)),
        digits_val(dec_digits(n)) == n,
{
    if n == 0 {
        assert(dec_digits(0) =~= seq!['0']);
        assert(digits_val(seq!['0']) == 0) by {
            reveal_with_fuel(digits_val, 2);
            assert(seq!['0'].drop_last() =~= Seq::<char>::empty());
            assert(seq!['0'].last() == '0');
        }
    } else {
        lemma_dec_rest_val(n);
    }
}

proof fn lemma_dec_rest_val(n: int)
    requires
        n > 0,
    ensures
        dec_rest(n).len() > 0,
        forall|i: int| 0 <= i < dec_rest(n).len() ==> is_digit(dec_rest(n)[i]),
        digits_val(dec_rest(n)) == n,
    decreases n,
{
    let tail = seq![digit_char(n % 10)];
    assert(dec_rest(n) == dec_rest(n / 10) + tail);
    assert((dec_rest(n / 10) + tail).drop_last() =~= dec_rest(n / 10));
    if n / 10 > 0 {
        lemma_dec_rest_val(n / 10);
    } else {
        assert(dec_rest(n / 10) =~= Seq::<char>::empty());
    }
}


/// The characters a command line splits on: commas and spaces.
pub open spec fn is_list_sep(c: char) -> bool {
    c == ',' || c == ' '
}

/// The characters a command line splits on: commas and spaces.
pub fn is_list_sep_char(c: char) -> (r: bool)
    ensures
        r == is_list_sep(c),
{
    c == ',' || c == ' '
}

/// The length of the separator-free prefix of a command line.
pub open spec fn list_token_len(s: Seq<char>) -> nat
    decreases s.len(),
{
    if s.len() == 0 || is_list_sep(s[0]) {
        0
    } else {
        1 + list_token_len(s.drop_first())
    }
}

proof fn lemma_list_token_len_bounds(s: Seq<char>)
    ensures
        list_token_len(s) <= s.len(),
        s.len() > 0 && !is_list_sep(s[0]) ==> list_token_len(s) >= 1,
    decreases s.len(),
{
    if s.len() > 0 && !is_list_sep(s[0]) {
        lemma_list_token_len_bounds(s.drop_first());
    }
}

proof fn lemma_list_token_len_at(s: Seq<char>, n: int)
    requires
        0 <= n <= s.len(),
        forall|j: int| 0 <= j < n ==> !is_list_sep(s[j]),
        n == s.len() || is_list_sep(s[n]),
    ensures
        list_token_len(s) == n,
    decreases n,
{
    if n > 0 {
        lemma_list_token_len_at(s.drop_first(), n - 1);
    }
}

/// A command line split into its comma-and-space-free pieces, in order,
/// empty runs dropped.
pub open spec fn split_list(s: Seq<char>) -> Seq<Seq<char>>
    decreases s.len(),
    via split_list_decreases
{
    if s.len() == 0 {
        seq![]
    } else if is_list_sep(s[0]) {
        split_list(s.drop_first())
    } else {
        seq![s.take(list_token_len(s) as int)] + split_list(s.skip(list_token_len(s) as int))
    }
}

#[via_fn]
proof fn split_list_decreases(s: Seq<char>) {
    if s.len() > 0 && !is_list_sep(s[0]) {
        lemma_list_token_len_bounds(s);
    }
}

/// Splits a command line into its comma-and-space-free pieces, in order.
pub fn split_list_chars(s: &Vec<char>) -> (r: Vec<Vec<char>>)
    ensures
        r.deep_view() == split_list(s@),
{
    let mut r: Vec<Vec<char>> = Vec::new();
    let mut i: usize = 0;
    proof {
        assert(s@.skip(0) =~= s@);
        assert(r.deep_view() + split_list(s@) =~= split_list(s@));
    }
    while i < s.len()
        invariant
            i <= s@.len(),
            split_list(s@) == r.deep_view() + split_list(s@.skip(i as int)),
        decreases s@.len() - i,
    {
        if is_list_sep_char(s[i]) {
            proof {
                assert(s@.skip(i as int).drop_first() =~= s@.skip(i + 1));
            }
            i = i + 1;
        } else {
            let start = i;
            let mut tok: Vec<char> = Vec::new();
            while i < s.len() && !is_list_sep_char(s[i])
                invariant
                    start <= i <= s@.len(),
                    tok@ =~= s@.subrange(start as int, i as int),
                    forall|j: int| start <= j < i ==> !is_list_sep(s@[j]),
                decreases s@.len() - i,
            {
                tok.push(s[i]);
                i = i + 1;
            }
            proof {
                let u = s@.skip(start as int);
                lemma_list_token_len_at(u, i - start);
                assert(u.take(i - start) =~= s@.subrange(start as int, i as int));
                assert(u.skip(i - start) =~= s@.skip(i as int));
                assert(split_list(u) == seq![tok@] + split_list(s@.skip(i as int)));
            }
            let ghost r0 = r.deep_view();
            r.push(tok);
            proof {
                assert(r.deep_view() =~~= r0.push(tok@));
                assert(r0 + (seq![tok@] + split_list(s@.skip(i as int))) =~= r.deep_view()
                    + split_list(s@.skip(i as int)));
            }
        }
    }
    proof {
        assert(s@.skip(s@.len() as int) =~= Seq::<char>::empty());
        assert(r.deep_view() =~= r.deep_view() + split_list(s@.skip(s@.len() as int)));
    }
    r
}

/// Splitting on a separator always yields at least one piece.
pub proof fn lemma_split_char_len(s: Seq<char>, sep: char)
    ensures
        split_char(s, sep).len() >= 1,
{
    lemma_find_char_bounds(s, sep);
}

/// Indexing the deep view of a token list gives the token's characters.
pub proof fn lemma_token_view(v: &Vec<Vec<char>>, i: int)
    requires
        0 <= i < v@.len(),
    ensures
        v.deep_view()[i] == v@[i]@,
{
    assert(v.deep_view()[i] =~= v@[i]@);
}

/// The deep view of a character vector is its view.
pub broadcast proof fn lemma_charvec_deep(v: Vec<char>)
    ensures
        #[trigger] v.deep_view() == v@,
{
    assert(v.deep_view() =~= v@);
}

/// Every token a signed number writes as reads back as that number.
pub proof fn lemma_dec_signed_val(v: int)
    ensures
        is_signed_digits(dec_signed(v)),
        signed_val(dec_signed(v)) == v,
{
    if v < 0 {
        lemma_dec_digits_val(-v);
        assert(dec_signed(v)[0] == '-');
        assert(dec_signed(v).drop_first() =~= dec_digits(-v));
    } else {
        lemma_dec_digits_val(v);
        assert(dec_signed(v) == dec_digits(v));
        assert(is_digit(dec_digits(v)[0]));
        assert(dec_digits(v)[0] != '-');
    }
}

} // verus!
