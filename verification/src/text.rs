//! Text helpers on `str` and `String`, each stated over the characters that
//! the strings hold.

use vstd::prelude::*;
use vstd::string::*;
use vstd::utf8::decode_utf8;
use vstd::utf8::valid_utf8;

verus! {

/// The characters of `s`, in order.
pub fn chars_of(s: &str) -> (res: Vec<char>)
    ensures
        res@ == s@,
{
    let mut res: Vec<char> = Vec::new();
    for c in it: s.chars()
        invariant
            it.seq() == s@,
            res@ == it.seq().take(it.index() as int),
    {
        res.push(c);
    }
    res
}

/// Whether `p` occurs in `s` starting at index `i`.
pub open spec fn matches_at(s: Seq<char>, p: Seq<char>, i: int) -> bool {
    0 <= i && i + p.len() <= s.len() && s.subrange(i, i + p.len()) == p
}

/// The first index at or after `from` where `p` occurs in `s`.
pub open spec fn first_match_from(s: Seq<char>, p: Seq<char>, from: int) -> Option<int>
    decreases s.len() + 1 - from,
{
    if from < 0 || from + p.len() > s.len() {
        None
    } else if matches_at(s, p, from) {
        Some(from)
    } else {
        first_match_from(s, p, from + 1)
    }
}

/// The last index at or before `end` where `p` occurs in `s`.
pub open spec fn last_match_from(s: Seq<char>, p: Seq<char>, end: int) -> Option<int>
    decreases end + 1,
{
    if end < 0 {
        None
    } else if matches_at(s, p, end) {
        Some(end)
    } else {
        last_match_from(s, p, end - 1)
    }
}

/// What `str::split_once` gives: the text before and after the first `p`.
pub open spec fn split_once_spec(s: Seq<char>, p: Seq<char>) -> Option<(Seq<char>, Seq<char>)> {
    match first_match_from(s, p, 0) {
        Some(i) => Some((s.subrange(0, i), s.subrange(i + p.len(), s.len() as int))),
        None => None,
    }
}

/// What `str::rsplit_once` gives: the text before and after the last `p`.
pub open spec fn rsplit_once_spec(s: Seq<char>, p: Seq<char>) -> Option<(Seq<char>, Seq<char>)> {
    match last_match_from(s, p, s.len() - p.len()) {
        Some(i) => Some((s.subrange(0, i), s.subrange(i + p.len(), s.len() as int))),
        None => None,
    }
}

proof fn lemma_first_match(s: Seq<char>, p: Seq<char>, from: int)
    requires
        0 <= from,
    ensures
        match first_match_from(s, p, from) {
            Some(i) => from <= i && matches_at(s, p, i) && forall|j: int|
                from <= j < i ==> !matches_at(s, p, j),
            None => forall|j: int| from <= j ==> !matches_at(s, p, j),
        },
    decreases s.len() + 1 - from,
{
    if from + p.len() <= s.len() && !matches_at(s, p, from) {
        lemma_first_match(s, p, from + 1);
    }
}

proof fn lemma_last_match(s: Seq<char>, p: Seq<char>, end: int)
    requires
        end + p.len() <= s.len(),
    ensures
        match last_match_from(s, p, end) {
            Some(i) => 0 <= i <= end && matches_at(s, p, i) && forall|j: int|
                i < j <= end ==> !matches_at(s, p, j),
            None => forall|j: int| j <= end ==> !matches_at(s, p, j),
        },
    decreases end + 1,
{
    if end >= 0 && !matches_at(s, p, end) {
        lemma_last_match(s, p, end - 1);
    }
}

/// Splitting at the first occurrence of a pattern loses nothing: the text
/// before it, the pattern and the text after it make up the whole, and the
/// pattern starts nowhere before the split. Where there is no split, the
/// pattern occurs nowhere.
pub proof fn law_split_once(s: Seq<char>, p: Seq<char>)
    ensures
        match split_once_spec(s, p) {
            Some((a, b)) => a + p + b == s && forall|j: int|
                0 <= j < a.len() ==> !matches_at(s, p, j),
            None => forall|j: int| 0 <= j ==> !matches_at(s, p, j),
        },
{
    lemma_first_match(s, p, 0);
    if let Some(i) = first_match_from(s, p, 0) {
        assert(s.subrange(0, i) + p + s.subrange(i + p.len(), s.len() as int) =~= s);
    }
}

/// Splitting at the last occurrence of a pattern loses nothing, and the
/// pattern starts nowhere after the split. Where there is no split, the
/// pattern occurs nowhere.
pub proof fn law_rsplit_once(s: Seq<char>, p: Seq<char>)
    ensures
        match rsplit_once_spec(s, p) {
            Some((a, b)) => a + p + b == s && forall|j: int|
                a.len() < j ==> !matches_at(s, p, j),
            None => forall|j: int| 0 <= j ==> !matches_at(s, p, j),
        },
{
    lemma_last_match(s, p, s.len() - p.len());
    if let Some(i) = last_match_from(s, p, s.len() - p.len()) {
        assert(s.subrange(0, i) + p + s.subrange(i + p.len(), s.len() as int) =~= s);
    }
}

/// Whether `p` occurs in the character vector `sv` at index `i`.
fn matches_at_exec(sv: &Vec<char>, pv: &Vec<char>, i: usize) -> (res: bool)
    ensures
        res == matches_at(sv@, pv@, i as int),
{
    let m = sv.len();
    if i > m || pv.len() > m - i {
        return false;
    }
    let n = pv.len();
    let mut k: usize = 0;
    while k < n
        invariant
            n == pv@.len(),
            m == sv@.len(),
            i + n <= m,
            k <= n,
            forall|j: int| 0 <= j < k ==> sv@[i + j] == pv@[j],
        decreases n - k,
    {
        if sv[i + k] != pv[k] {
            assert(sv@.subrange(i as int, i + n)[k as int] != pv@[k as int]);
            return false;
        }
        k = k + 1;
    }
    assert(sv@.subrange(i as int, i + n) =~= pv@);
    true
}

/// The text of `s` before and after the first occurrence of `pat`, or
/// `None` when `pat` does not occur.
pub fn split_once(s: &str, pat: &str) -> (res: Option<(String, String)>)
    ensures
        match split_once_spec(s@, pat@) {
            Some((a, b)) => res matches Some((x, y)) && x@ == a && y@ == b,
            None => res is None,
        },
{
    let sv = chars_of(s);
    let pv = chars_of(pat);
    if pv.len() > sv.len() {
        return None;
    }
    let slen = sv.len();
    let plen = pv.len();
    let last = slen - plen;
    let mut i: usize = 0;
    loop
        invariant
            sv@ == s@,
            pv@ == pat@,
            slen == sv@.len(),
            plen == pv@.len(),
            last == slen - plen,
            i <= last,
            first_match_from(s@, pat@, 0) == first_match_from(s@, pat@, i as int),
        decreases last - i,
    {
        if matches_at_exec(&sv, &pv, i) {
            let before = String::from_str(s.substring_char(0, i));
            let after = String::from_str(s.substring_char(i + plen, slen));
            return Some((before, after));
        }
        if i == last {
            assert(first_match_from(s@, pat@, i + 1) is None);
            return None;
        }
        i = i + 1;
    }
}

/// The text of `s` before and after the last occurrence of `pat`, or `None`
/// when `pat` does not occur.
pub fn rsplit_once(s: &str, pat: &str) -> (res: Option<(String, String)>)
    ensures
        match rsplit_once_spec(s@, pat@) {
            Some((a, b)) => res matches Some((x, y)) && x@ == a && y@ == b,
            None => res is None,
        },
{
    let sv = chars_of(s);
    let pv = chars_of(pat);
    if pv.len() > sv.len() {
        return None;
    }
    let slen = sv.len();
    let plen = pv.len();
    let mut i: usize = slen - plen;
    if matches_at_exec(&sv, &pv, i) {
        let before = String::from_str(s.substring_char(0, i));
        let after = String::from_str(s.substring_char(slen, slen));
        return Some((before, after));
    }
    while i > 0
        invariant
            sv@ == s@,
            pv@ == pat@,
            slen == sv@.len(),
            plen == pv@.len(),
            i <= slen - plen,
            last_match_from(s@, pat@, s@.len() - pat@.len()) == last_match_from(
                s@,
                pat@,
                i - 1,
            ),
        decreases i,
    {
        if matches_at_exec(&sv, &pv, i - 1) {
            let before = String::from_str(s.substring_char(0, i - 1));
            let after = String::from_str(s.substring_char(i - 1 + plen, slen));
            return Some((before, after));
        }
        i = i - 1;
    }
    None
}

/// The characters with the Unicode White_Space property, which is what
/// `char::is_whitespace` tests.
pub open spec fn is_white_space(c: char) -> bool {
    let u = c as u32;
    ||| 0x09 <= u <= 0x0D
    ||| u == 0x20
    ||| u == 0x85
    ||| u == 0xA0
    ||| u == 0x1680
    ||| 0x2000 <= u <= 0x200A
    ||| u == 0x2028
    ||| u == 0x2029
    ||| u == 0x202F
    ||| u == 0x205F
    ||| u == 0x3000
}

/// Whether `c` is white space in the sense of `char::is_whitespace`.
pub fn is_whitespace(c: char) -> (res: bool)
    ensures
        res == is_white_space(c),
{
    let u = c as u32;
    (0x09 <= u && u <= 0x0D) || u == 0x20 || u == 0x85 || u == 0xA0 || u == 0x1680 || (0x2000 <= u
        && u <= 0x200A) || u == 0x2028 || u == 0x2029 || u == 0x202F || u == 0x205F || u == 0x3000
}

/// `s` without its leading white space.
pub open spec fn trim_start_spec(s: Seq<char>) -> Seq<char>
    decreases s.len(),
{
    if s.len() > 0 && is_white_space(s[0]) {
        trim_start_spec(s.drop_first())
    } else {
        s
    }
}

/// `s` without its trailing white space.
pub open spec fn trim_end_spec(s: Seq<char>) -> Seq<char>
    decreases s.len(),
{
    if s.len() > 0 && is_white_space(s.last()) {
        trim_end_spec(s.drop_last())
    } else {
        s
    }
}

/// What `str::trim` gives: `s` without leading and trailing white space.
pub open spec fn trim_spec(s: Seq<char>) -> Seq<char> {
    trim_end_spec(trim_start_spec(s))
}

/// `s` without its leading and trailing white space.
pub fn trim(s: &str) -> (res: String)
    ensures
        res@ == trim_spec(s@),
{
    let sv = chars_of(s);
    let n = sv.len();
    let mut i: usize = 0;
    assert(s@.skip(0) =~= s@);
    while i < n && is_whitespace(sv[i])
        invariant
            sv@ == s@,
            n == sv@.len(),
            i <= n,
            trim_start_spec(s@) == trim_start_spec(s@.skip(i as int)),
        decreases n - i,
    {
        assert(s@.skip(i as int).drop_first() =~= s@.skip(i + 1));
        i = i + 1;
    }
    assert(trim_start_spec(s@.skip(i as int)) == s@.skip(i as int));
    let mut j: usize = n;
    while j > i && is_whitespace(sv[j - 1])
        invariant
            sv@ == s@,
            n == sv@.len(),
            i <= j <= n,
            trim_spec(s@) == trim_end_spec(s@.subrange(i as int, j as int)),
        decreases j,
    {
        assert(s@.subrange(i as int, j as int).drop_last() =~= s@.subrange(i as int, j - 1));
        j = j - 1;
    }
    String::from_str(s.substring_char(i, j))
}

proof fn lemma_trim_start(s: Seq<char>)
    ensures
        trim_start_spec(s).len() == 0 || !is_white_space(trim_start_spec(s)[0]),
        trim_start_spec(s).len() <= s.len(),
        trim_start_spec(s) == s.skip(s.len() - trim_start_spec(s).len()),
    decreases s.len(),
{
    if s.len() > 0 && is_white_space(s[0]) {
        lemma_trim_start(s.drop_first());
        assert(s.drop_first().skip(s.drop_first().len() - trim_start_spec(s).len()) =~= s.skip(
            s.len() - trim_start_spec(s).len(),
        ));
    } else {
        assert(s.skip(0) =~= s);
    }
}

proof fn lemma_trim_end(s: Seq<char>)
    ensures
        trim_end_spec(s).len() == 0 || !is_white_space(trim_end_spec(s).last()),
        trim_end_spec(s).len() <= s.len(),
        trim_end_spec(s) == s.take(trim_end_spec(s).len() as int),
    decreases s.len(),
{
    if s.len() > 0 && is_white_space(s.last()) {
        lemma_trim_end(s.drop_last());
        assert(s.drop_last().take(trim_end_spec(s).len() as int) =~= s.take(
            trim_end_spec(s).len() as int,
        ));
    } else {
        assert(s.take(s.len() as int) =~= s);
    }
}

/// Trimmed text neither starts nor ends with white space, so trimming it
/// again changes nothing.
pub proof fn law_trim(s: Seq<char>)
    ensures
        trim_spec(s).len() == 0 || (!is_white_space(trim_spec(s)[0]) && !is_white_space(
            trim_spec(s).last(),
        )),
        trim_spec(trim_spec(s)) == trim_spec(s),
{
    let u = trim_start_spec(s);
    let t = trim_end_spec(u);
    lemma_trim_start(s);
    lemma_trim_end(u);
    if t.len() > 0 {
        assert(t[0] == u[0]);
    }
    assert(trim_start_spec(t) == t);
    assert(trim_end_spec(t) == t);
}

/// `n` written in decimal, as `{}` formats an unsigned integer.
pub open spec fn decimal(n: nat) -> Seq<char>
    decreases n,
{
    if n < 10 {
        seq![(48 + n) as char]
    } else {
        decimal(n / 10).push((48 + n % 10) as char)
    }
}

/// The one-character string of the decimal digit `d`.
fn digit_str(d: u64) -> (res: &'static str)
    requires
        d < 10,
    ensures
        res@ == seq![(48 + d) as char],
{
    proof {
        reveal_strlit("0");
        reveal_strlit("1");
        reveal_strlit("2");
        reveal_strlit("3");
        reveal_strlit("4");
        reveal_strlit("5");
        reveal_strlit("6");
        reveal_strlit("7");
        reveal_strlit("8");
        reveal_strlit("9");
    }
    if d == 0 {
        "0"
    } else if d == 1 {
        "1"
    } else if d == 2 {
        "2"
    } else if d == 3 {
        "3"
    } else if d == 4 {
        "4"
    } else if d == 5 {
        "5"
    } else if d == 6 {
        "6"
    } else if d == 7 {
        "7"
    } else if d == 8 {
        "8"
    } else {
        "9"
    }
}

/// `n` in decimal digits, as `{}` formats it.
pub fn decimal_string(n: u64) -> (res: String)
    ensures
        res@ == decimal(n as nat),
    decreases n,
{
    if n < 10 {
        String::from_str(digit_str(n))
    } else {
        let mut s = decimal_string(n / 10);
        s.append(digit_str(n % 10));
        s
    }
}

/// The text that `{:?}` makes of a string: the string between double quotes,
/// with quotes, backslashes and control characters escaped.
pub uninterp spec fn debug_quoted(s: Seq<char>) -> Seq<char>;

/// Formats `s` with `{:?}`, through std's `Debug` for `str`.
/// Trusted: the result is `debug_quoted` of the characters of `s`; no more is
/// stated of it.
#[verifier::external_body]
pub(crate) fn debug_str(s: &str) -> (res: String)
    ensures
        res@ == debug_quoted(s@),
{
    format!("{:?}", s)
}

/// Decodes `bytes` as UTF-8 with `String::from_utf8`.
/// Trusted: std documents that it succeeds exactly on valid UTF-8, and the
/// characters are then those the bytes encode; vstd's `valid_utf8` and
/// `decode_utf8` state both.
#[verifier::external_body]
pub(crate) fn string_from_utf8(bytes: Vec<u8>) -> (res: Option<String>)
    ensures
        res is Some <==> valid_utf8(bytes@),
        res matches Some(s) ==> s@ == decode_utf8(bytes@),
{
    String::from_utf8(bytes).ok()
}

} // verus!
