//! Character-level text helpers shared by the validation, mail and report code.
use vstd::prelude::*;
use vstd::std_specs::iter::IteratorSpec;

verus! {

// ---------------------------------------------------------------------------
// Conversions between `str`/`String` and character vectors
// ---------------------------------------------------------------------------
/// Returns the characters of `s` in order.
pub fn chars_of(s: &str) -> (r: Vec<char>)
    ensures
        r@ == s@,
{
    let mut out: Vec<char> = Vec::new();
    let mut it = s.chars();
    let ghost total = s@;
    assert(it.remaining() == s@) by {
        broadcast use vstd::string::group_string_axioms;
    }
    loop
        invariant
            out@ + it.remaining() == total,
            total == s@,
        decreases total.len() - out@.len(),
    {
        let ghost before = it.remaining();
        match it.next() {
            Some(c) => {
                proof {
                    broadcast use vstd::string::group_string_axioms;
                }
                assert(before.len() > 0);
                out.push(c);
                assert(out@ + it.remaining() =~= total);
            },
            None => {
                proof {
                    broadcast use vstd::string::group_string_axioms;
                }
                assert(out@ =~= total);
                return out;
            },
        }
    }
}

/// Appends one character to a string (`String::push`).
#[verifier::external_body]
pub(crate) fn push_char(s: &mut String, c: char)
    ensures
        final(s)@ == old(s)@.push(c),
{
    s.push(c)
}

/// Builds a string holding exactly the characters of `v`.
pub fn string_from_chars(v: &Vec<char>) -> (r: String)
    ensures
        r@ == v@,
{
    let mut out = String::new();
    let mut i: usize = 0;
    while i < v.len()
        invariant
            i <= v.len(),
            out@ == v@.subrange(0, i as int),
        decreases v.len() - i,
    {
        push_char(&mut out, v[i]);
        i = i + 1;
        assert(out@ =~= v@.subrange(0, i as int));
    }
    assert(out@ =~= v@);
    out
}

/// Copies a string slice into an owned string.
pub fn owned(s: &str) -> (r: String)
    ensures
        r@ == s@,
{
    let v = chars_of(s);
    string_from_chars(&v)
}

/// Returns `a` followed by `b`.
pub fn concat(a: &str, b: &str) -> (r: String)
    ensures
        r@ == a@ + b@,
{
    let mut out = owned(a);
    out.append(b);
    out
}

/// Equality of two string slices (`<str as PartialEq>::eq`).
#[verifier::external_body]
pub(crate) fn str_eq(a: &str, b: &str) -> (r: bool)
    ensures
        r == (a@ == b@),
{
    a == b
}

// ---------------------------------------------------------------------------
// Whitespace trimming
// ---------------------------------------------------------------------------
/// What `char::is_whitespace` answers for a character: whether it has the
/// Unicode `White_Space` property, which these 25 code points have.
pub open spec fn char_is_whitespace(c: char) -> bool {
    let u = c as u32;
    ||| 0x09 <= u <= 0x0D
    ||| u == 0x20
    ||| u == 0x85
    ||| u == 0xA0
    ||| u == 0x1680
    ||| 0x2000 <= u <= 0x200A
    ||| u == 0x2028
    ||| u == 0x2029
    ||| u == 0x202F
    ||| u == 0x205F
    ||| u == 0x3000
}

/// Whether `c` is Unicode white space, as `char::is_whitespace` answers.
pub(crate) fn is_whitespace(c: char) -> (r: bool)
    ensures
        r == char_is_whitespace(c),
{
    let u = c as u32;
    (0x09 <= u && u <= 0x0D) || u == 0x20 || u == 0x85 || u == 0xA0 || u == 0x1680 || (0x2000 <= u && u
        <= 0x200A) || u == 0x2028 || u == 0x2029 || u == 0x202F || u == 0x205F || u == 0x3000
}

/// `s` without its leading white space.
pub open spec fn trim_start_seq(s: Seq<char>) -> Seq<char>
    decreases s.len(),
{
    if s.len() > 0 && char_is_whitespace(s[0]) {
        trim_start_seq(s.drop_first())
    } else {
        s
    }
}

/// `s` without its trailing white space.
pub open spec fn trim_end_seq(s: Seq<char>) -> Seq<char>
    decreases s.len(),
{
    if s.len() > 0 && char_is_whitespace(s.last()) {
        trim_end_seq(s.drop_last())
    } else {
        s
    }
}

/// `s` without leading and trailing white space (`str::trim`).
pub open spec fn trim_seq(s: Seq<char>) -> Seq<char> {
    trim_end_seq(trim_start_seq(s))
}

proof fn lemma_trim_start_step(s: Seq<char>, i: int)
    requires
        0 <= i < s.len(),
        char_is_whitespace(s[i]),
    ensures
        trim_start_seq(s.subrange(i, s.len() as int)) == trim_start_seq(
            s.subrange(i + 1, s.len() as int),
        ),
{
    let sub = s.subrange(i, s.len() as int);
    assert(sub.drop_first() =~= s.subrange(i + 1, s.len() as int));
}

proof fn lemma_trim_end_step(s: Seq<char>, j: int)
    requires
        0 < j <= s.len(),
        char_is_whitespace(s[j - 1]),
    ensures
        trim_end_seq(s.subrange(0, j)) == trim_end_seq(s.subrange(0, j - 1)),
{
    let sub = s.subrange(0, j);
    assert(sub.drop_last() =~= s.subrange(0, j - 1));
}

/// Characters of `s` without leading and trailing white space.
pub fn trim_chars(s: &Vec<char>) -> (r: Vec<char>)
    ensures
        r@ == trim_seq(s@),
{
    let mut i: usize = 0;
    assert(s@.subrange(0, s@.len() as int) =~= s@);
    while i < s.len() && is_whitespace(s[i])
        invariant
            i <= s.len(),
            trim_start_seq(s@) == trim_start_seq(s@.subrange(i as int, s@.len() as int)),
        decreases s.len() - i,
    {
        proof {
            lemma_trim_start_step(s@, i as int);
        }
        i = i + 1;
    }
    let ghost rest = s@.subrange(i as int, s@.len() as int);
    assert(trim_start_seq(rest) == rest);
    let mut j: usize = s.len();
    while j > i && is_whitespace(s[j - 1])
        invariant
            i <= j <= s.len(),
            rest == s@.subrange(i as int, s@.len() as int),
            trim_end_seq(rest) == trim_end_seq(s@.subrange(i as int, j as int)),
        decreases j - i,
    {
        proof {
            let t = s@.subrange(i as int, s@.len() as int);
            lemma_trim_end_step(s@.subrange(i as int, s@.len() as int).subrange(0, (j - i) as int), (j - i) as int);
            assert(s@.subrange(i as int, j as int) =~= t.subrange(0, (j - i) as int));
            assert(s@.subrange(i as int, j as int) =~= s@.subrange(i as int, s@.len() as int).subrange(0, (j - i) as int));
            let u = s@.subrange(i as int, j as int);
            assert(u.drop_last() =~= s@.subrange(i as int, j - 1));
        }
        j = j - 1;
    }
    let ghost kept = s@.subrange(i as int, j as int);
    assert(trim_end_seq(kept) == kept);
    let mut out: Vec<char> = Vec::new();
    let mut k: usize = i;
    while k < j
        invariant
            i <= k <= j <= s.len(),
            out@ == s@.subrange(i as int, k as int),
        decreases j - k,
    {
        out.push(s[k]);
        k = k + 1;
        assert(out@ =~= s@.subrange(i as int, k as int));
    }
    out
}

/// `value` without leading and trailing white space (`str::trim`).
pub fn trim(value: &str) -> (r: String)
    ensures
        r@ == trim_seq(value@),
{
    let chars = chars_of(value);
    let trimmed = trim_chars(&chars);
    string_from_chars(&trimmed)
}

// ---------------------------------------------------------------------------
// Searching
// ---------------------------------------------------------------------------
/// `needle` occurs in `hay` starting at position `i`.
pub open spec fn match_at(hay: Seq<char>, needle: Seq<char>, i: int) -> bool {
    0 <= i && i + needle.len() <= hay.len() && hay.subrange(i, i + needle.len()) == needle
}

/// `hay` contains `needle` somewhere.
pub open spec fn contains_seq(hay: Seq<char>, needle: Seq<char>) -> bool {
    exists|i: int| match_at(hay, needle, i)
}

/// Whether `needle` occurs in `hay` at position `i`.
pub fn matches_at(hay: &Vec<char>, needle: &Vec<char>, i: usize) -> (r: bool)
    ensures
        r == match_at(hay@, needle@, i as int),
{
    if needle.len() > hay.len() || i > hay.len() - needle.len() {
        return false;
    }
    let mut k: usize = 0;
    while k < needle.len()
        invariant
            k <= needle.len(),
            i + needle.len() <= hay.len(),
            forall|m: int| 0 <= m < k ==> hay@[i + m] == needle@[m],
        decreases needle.len() - k,
    {
        if hay[i + k] != needle[k] {
            assert(hay@.subrange(i as int, i + needle.len())[k as int] != needle@[k as int]);
            return false;
        }
        k = k + 1;
    }
    assert(hay@.subrange(i as int, i + needle.len()) =~= needle@);
    true
}

/// The first position at or after `start` where `needle` occurs in `hay`.
pub fn find_from(hay: &Vec<char>, needle: &Vec<char>, start: usize) -> (r: Option<usize>)
    ensures
        match r {
            Some(i) => start <= i && match_at(hay@, needle@, i as int) && forall|k: int|
                start <= k < i ==> !match_at(hay@, needle@, k),
            None => forall|k: int| start <= k ==> !match_at(hay@, needle@, k),
        },
{
    if start > hay.len() {
        return None;
    }
    let mut i = start;
    while i < hay.len()
        invariant
            start <= i <= hay.len(),
            forall|k: int| start <= k < i ==> !match_at(hay@, needle@, k),
        decreases hay.len() - i,
    {
        if matches_at(hay, needle, i) {
            return Some(i);
        }
        i = i + 1;
    }
    if matches_at(hay, needle, i) {
        return Some(i);
    }
    None
}

/// The last position `i` with `i + needle.len() <= end` where `needle` occurs,
/// that is the last occurrence that lies wholly inside `hay[..end]`.
pub fn rfind_before(hay: &Vec<char>, needle: &Vec<char>, end: usize) -> (r: Option<usize>)
    requires
        end <= hay.len(),
    ensures
        match r {
            Some(i) => i + needle.len() <= end && match_at(hay@, needle@, i as int) && forall|
                k: int,
            |
                i < k && k + needle.len() <= end ==> !match_at(hay@, needle@, k),
            None => forall|k: int| 0 <= k && k + needle.len() <= end ==> !match_at(hay@, needle@, k),
        },
{
    if needle.len() > end {
        return None;
    }
    let top: usize = end - needle.len();
    let mut i: usize = top;
    loop
        invariant
            i <= top,
            top + needle.len() == end,
            forall|k: int| i < k && k + needle.len() <= end ==> !match_at(hay@, needle@, k),
        decreases i,
    {
        if matches_at(hay, needle, i) {
            return Some(i);
        }
        if i == 0 {
            return None;
        }
        i = i - 1;
    }
}

/// The first position at or after `start` where `needle` occurs in `hay`.
pub open spec fn find_spec(hay: Seq<char>, needle: Seq<char>, start: int) -> Option<int>
    decreases hay.len() + 1 - start,
{
    if start < 0 || start > hay.len() {
        None
    } else if match_at(hay, needle, start) {
        Some(start)
    } else {
        find_spec(hay, needle, start + 1)
    }
}

/// The last occurrence of `needle` at a position not after `k`.
pub open spec fn rfind_from(hay: Seq<char>, needle: Seq<char>, k: int) -> Option<int>
    decreases k + 1,
{
    if k < 0 {
        None
    } else if match_at(hay, needle, k) {
        Some(k)
    } else {
        rfind_from(hay, needle, k - 1)
    }
}

/// The last occurrence of `needle` lying wholly inside `hay[..end]`.
pub open spec fn rfind_spec(hay: Seq<char>, needle: Seq<char>, end: int) -> Option<int> {
    if needle.len() > end {
        None
    } else {
        rfind_from(hay, needle, end - needle.len())
    }
}

proof fn lemma_find_spec_first(hay: Seq<char>, needle: Seq<char>, start: int, i: int)
    requires
        0 <= start <= i,
        match_at(hay, needle, i),
        forall|k: int| start <= k < i ==> !match_at(hay, needle, k),
    ensures
        find_spec(hay, needle, start) == Some(i),
    decreases i - start,
{
    if start < i {
        lemma_find_spec_first(hay, needle, start + 1, i);
    }
}

proof fn lemma_find_spec_none(hay: Seq<char>, needle: Seq<char>, start: int)
    requires
        0 <= start,
        forall|k: int| start <= k ==> !match_at(hay, needle, k),
    ensures
        find_spec(hay, needle, start) is None,
    decreases hay.len() + 1 - start,
{
    if start <= hay.len() {
        lemma_find_spec_none(hay, needle, start + 1);
    }
}

/// Properties of a found position.
pub proof fn lemma_find_spec_props(hay: Seq<char>, needle: Seq<char>, start: int)
    ensures
        find_spec(hay, needle, start) matches Some(i) ==> start <= i && match_at(hay, needle, i),
    decreases hay.len() + 1 - start,
{
    if 0 <= start <= hay.len() && !match_at(hay, needle, start) {
        lemma_find_spec_props(hay, needle, start + 1);
    }
}

proof fn lemma_rfind_from_last(hay: Seq<char>, needle: Seq<char>, k: int, i: int)
    requires
        0 <= i <= k,
        match_at(hay, needle, i),
        forall|m: int| i < m <= k ==> !match_at(hay, needle, m),
    ensures
        rfind_from(hay, needle, k) == Some(i),
    decreases k - i,
{
    if i < k {
        lemma_rfind_from_last(hay, needle, k - 1, i);
    }
}

proof fn lemma_rfind_from_none(hay: Seq<char>, needle: Seq<char>, k: int)
    requires
        forall|m: int| 0 <= m <= k ==> !match_at(hay, needle, m),
    ensures
        rfind_from(hay, needle, k) is None,
    decreases k + 1,
{
    if k >= 0 {
        lemma_rfind_from_none(hay, needle, k - 1);
    }
}

/// Properties of a position found searching backwards.
pub proof fn lemma_rfind_spec_props(hay: Seq<char>, needle: Seq<char>, end: int)
    ensures
        rfind_spec(hay, needle, end) matches Some(i) ==> 0 <= i && i + needle.len() <= end && match_at(
            hay,
            needle,
            i,
        ),
{
    if needle.len() <= end {
        lemma_rfind_from_props(hay, needle, end - needle.len());
    }
}

proof fn lemma_rfind_from_props(hay: Seq<char>, needle: Seq<char>, k: int)
    ensures
        rfind_from(hay, needle, k) matches Some(i) ==> 0 <= i <= k && match_at(hay, needle, i),
    decreases k + 1,
{
    if k >= 0 && !match_at(hay, needle, k) {
        lemma_rfind_from_props(hay, needle, k - 1);
    }
}

/// The first occurrence of `needle` at or after `start` (`str::find` on
/// `hay[start..]`, as a position in `hay`).
pub fn find_first(hay: &Vec<char>, needle: &Vec<char>, start: usize) -> (r: Option<usize>)
    requires
        start <= hay@.len(),
    ensures
        match r {
            Some(i) => find_spec(hay@, needle@, start as int) == Some(i as int),
            None => find_spec(hay@, needle@, start as int) is None,
        },
{
    let r = find_from(hay, needle, start);
    proof {
        match r {
            Some(i) => lemma_find_spec_first(hay@, needle@, start as int, i as int),
            None => lemma_find_spec_none(hay@, needle@, start as int),
        }
    }
    r
}

/// The last occurrence of `needle` lying wholly inside `hay[..end]`
/// (`str::rfind` on `hay[..end]`).
pub fn find_last(hay: &Vec<char>, needle: &Vec<char>, end: usize) -> (r: Option<usize>)
    requires
        end <= hay@.len(),
    ensures
        match r {
            Some(i) => rfind_spec(hay@, needle@, end as int) == Some(i as int),
            None => rfind_spec(hay@, needle@, end as int) is None,
        },
{
    let r = rfind_before(hay, needle, end);
    proof {
        if needle@.len() <= end {
            match r {
                Some(i) => lemma_rfind_from_last(hay@, needle@, end - needle@.len(), i as int),
                None => lemma_rfind_from_none(hay@, needle@, end - needle@.len()),
            }
        }
    }
    r
}

/// When the search finds nothing, `needle` occurs nowhere at or after `start`.
pub proof fn lemma_find_spec_none_means(hay: Seq<char>, needle: Seq<char>, start: int, k: int)
    requires
        0 <= start <= k,
        find_spec(hay, needle, start) is None,
    ensures
        !match_at(hay, needle, k),
    decreases k - start,
{
    if start <= hay.len() && start < k {
        lemma_find_spec_none_means(hay, needle, start + 1, k);
    }
}

/// Searching from the start finds something exactly when `needle` occurs.
pub proof fn lemma_find_spec_contains(hay: Seq<char>, needle: Seq<char>)
    ensures
        (find_spec(hay, needle, 0) is Some) == contains_seq(hay, needle),
{
    lemma_find_spec_props(hay, needle, 0);
    if find_spec(hay, needle, 0) is None && contains_seq(hay, needle) {
        let k = choose|k: int| match_at(hay, needle, k);
        lemma_find_spec_none_means(hay, needle, 0, k);
    }
}

/// The characters `v[a..b]`.
pub fn subvec(v: &Vec<char>, a: usize, b: usize) -> (r: Vec<char>)
    requires
        a <= b <= v@.len(),
    ensures
        r@ == v@.subrange(a as int, b as int),
{
    let mut out: Vec<char> = Vec::new();
    let mut k: usize = a;
    while k < b
        invariant
            a <= k <= b <= v@.len(),
            out@ == v@.subrange(a as int, k as int),
        decreases b - k,
    {
        out.push(v[k]);
        k = k + 1;
        assert(out@ =~= v@.subrange(a as int, k as int));
    }
    out
}

/// Whether `c` occurs in `s`.
pub fn contains_char(s: &Vec<char>, c: char) -> (r: bool)
    ensures
        r == s@.contains(c),
{
    let mut i: usize = 0;
    while i < s.len()
        invariant
            i <= s.len(),
            forall|k: int| 0 <= k < i ==> s@[k] != c,
        decreases s.len() - i,
    {
        if s[i] == c {
            return true;
        }
        i = i + 1;
    }
    false
}

// ---------------------------------------------------------------------------
// Replacing
// ---------------------------------------------------------------------------
/// `s` with every non-overlapping occurrence of `pat` (scanned left to right)
/// replaced by `rep` (`str::replace` for a non-empty pattern).
pub open spec fn replace_seq(s: Seq<char>, pat: Seq<char>, rep: Seq<char>) -> Seq<char>
    decreases s.len(),
{
    if pat.len() == 0 || s.len() < pat.len() {
        s
    } else if s.subrange(0, pat.len() as int) == pat {
        rep + replace_seq(s.subrange(pat.len() as int, s.len() as int), pat, rep)
    } else {
        seq![s[0]] + replace_seq(s.drop_first(), pat, rep)
    }
}

proof fn lemma_replace_short(s: Seq<char>, pat: Seq<char>, rep: Seq<char>)
    requires
        s.len() < pat.len(),
    ensures
        replace_seq(s, pat, rep) == s,
{
}

/// `s` with every occurrence of the non-empty `pat` replaced by `rep`.
pub fn replace_all(s: &Vec<char>, pat: &Vec<char>, rep: &Vec<char>) -> (r: Vec<char>)
    requires
        pat.len() > 0,
    ensures
        r@ == replace_seq(s@, pat@, rep@),
{
    let mut out: Vec<char> = Vec::new();
    let mut i: usize = 0;
    assert(s@.subrange(0, s@.len() as int) =~= s@);
    while i < s.len()
        invariant
            i <= s.len(),
            pat.len() > 0,
            out@ + replace_seq(s@.subrange(i as int, s.len() as int), pat@, rep@) == replace_seq(
                s@,
                pat@,
                rep@,
            ),
        decreases s.len() - i,
    {
        let ghost rest = s@.subrange(i as int, s.len() as int);
        if matches_at(s, pat, i) {
            assert(rest.subrange(0, pat@.len() as int) =~= s@.subrange(
                i as int,
                i + pat@.len(),
            ));
            assert(rest.subrange(pat@.len() as int, rest.len() as int) =~= s@.subrange(
                i + pat@.len(),
                s.len() as int,
            ));
            let mut k: usize = 0;
            let ghost out0 = out@;
            while k < rep.len()
                invariant
                    k <= rep.len(),
                    out@ == out0 + rep@.subrange(0, k as int),
                decreases rep.len() - k,
            {
                out.push(rep[k]);
                k = k + 1;
                assert(out@ =~= out0 + rep@.subrange(0, k as int));
            }
            assert(rep@.subrange(0, k as int) =~= rep@);
            assert(out@ + replace_seq(s@.subrange(i + pat@.len(), s.len() as int), pat@, rep@)
                =~= out0 + replace_seq(rest, pat@, rep@));
            i = i + pat.len();
        } else {
            if s.len() - i >= pat.len() {
                assert(rest.subrange(0, pat@.len() as int) =~= s@.subrange(
                    i as int,
                    i + pat@.len(),
                ));
                assert(rest.drop_first() =~= s@.subrange(i + 1, s.len() as int));
                assert(out@.push(s@[i as int]) + replace_seq(
                    s@.subrange(i + 1, s.len() as int),
                    pat@,
                    rep@,
                ) =~= out@ + replace_seq(rest, pat@, rep@));
            } else {
                proof {
                    lemma_replace_short(rest, pat@, rep@);
                    let rest2 = s@.subrange(i + 1, s.len() as int);
                    lemma_replace_short(rest2, pat@, rep@);
                    assert(rest =~= seq![s@[i as int]] + rest2);
                }
                assert(out@.push(s@[i as int]) + replace_seq(
                    s@.subrange(i + 1, s.len() as int),
                    pat@,
                    rep@,
                ) =~= out@ + replace_seq(rest, pat@, rep@));
            }
            out.push(s[i]);
            i = i + 1;
        }
    }
    assert(s@.subrange(i as int, s.len() as int) =~= Seq::<char>::empty());
    assert(out@ + Seq::<char>::empty() =~= out@);
    out
}

// ---------------------------------------------------------------------------
// Number formatting
// ---------------------------------------------------------------------------
/// The decimal digit character for `d < 10`.
pub open spec fn digit_char(d: nat) -> char {
    (('0' as u32) + d) as char
}

/// The decimal representation of `n` without leading zeros.
pub open spec fn decimal_seq(n: nat) -> Seq<char>
    decreases n,
{
    if n < 10 {
        seq![digit_char(n)]
    } else {
        decimal_seq(n / 10).push(digit_char(n % 10))
    }
}

fn digit(d: u64) -> (c: char)
    requires
        d < 10,
    ensures
        c == digit_char(d as nat),
{
    match d {
        0 => '0',
        1 => '1',
        2 => '2',
        3 => '3',
        4 => '4',
        5 => '5',
        6 => '6',
        7 => '7',
        8 => '8',
        _ => '9',
    }
}

/// The decimal text of `n` (what `n.to_string()` gives).
pub fn u64_to_string(n: u64) -> (r: String)
    ensures
        r@ == decimal_seq(n as nat),
{
    // Collect digits from least to most significant.
    let mut rev: Vec<char> = Vec::new();
    let mut m: u64 = n;
    let ghost mut suffix: Seq<char> = Seq::empty();
    // invariant: decimal_seq(n) == decimal_seq(m) + suffix, once m < 10 we stop
    while m >= 10
        invariant
            decimal_seq(n as nat) == decimal_seq(m as nat) + suffix,
            rev@ == suffix.reverse(),
        decreases m,
    {
        let d = m % 10;
        proof {
            assert(decimal_seq(m as nat) == decimal_seq((m / 10) as nat).push(digit_char(d as nat)));
            assert(decimal_seq(m as nat) + suffix =~= decimal_seq((m / 10) as nat) + (seq![
                digit_char(d as nat),
            ] + suffix));
            suffix = seq![digit_char(d as nat)] + suffix;
        }
        rev.push(digit(d));
        m = m / 10;
        assert(rev@ =~= suffix.reverse());
    }
    proof {
        suffix = seq![digit_char(m as nat)] + suffix;
    }
    rev.push(digit(m));
    assert(decimal_seq(n as nat) =~= suffix);
    assert(rev@ =~= suffix.reverse());
    let mut out = String::new();
    let mut i: usize = rev.len();
    while i > 0
        invariant
            i <= rev.len(),
            rev@ == suffix.reverse(),
            out@ == suffix.subrange(0, (rev.len() - i) as int),
        decreases i,
    {
        i = i - 1;
        push_char(&mut out, rev[i]);
        assert(out@ =~= suffix.subrange(0, (rev.len() - i) as int));
    }
    assert(out@ =~= suffix);
    out
}

/// The decimal representation of a signed integer.
pub open spec fn signed_decimal(i: int) -> Seq<char> {
    if i < 0 {
        seq!['-'] + decimal_seq((-i) as nat)
    } else {
        decimal_seq(i as nat)
    }
}

/// The decimal text of `n` (what `n.to_string()` gives).
pub fn i64_to_string(n: i64) -> (r: String)
    ensures
        r@ == signed_decimal(n as int),
{
    if n < 0 {
        let magnitude: u64 = if n == i64::MIN {
            9_223_372_036_854_775_808u64
        } else {
            (-n) as u64
        };
        let digits = u64_to_string(magnitude);
        let mut out = String::new();
        push_char(&mut out, '-');
        out.append(digits.as_str());
        out
    } else {
        u64_to_string(n as u64)
    }
}

/// `c` lowered if it is an ASCII upper-case letter.
pub open spec fn ascii_lower(c: char) -> char {
    if 'A' <= c && c <= 'Z' {
        ((c as u32) + 32) as char
    } else {
        c
    }
}

/// Characters of `s` with ASCII letters lowered (`str::to_ascii_lowercase`).
pub fn to_ascii_lowercase(s: &Vec<char>) -> (r: Vec<char>)
    ensures
        r@ == s@.map_values(|c: char| ascii_lower(c)),
{
    let mut out: Vec<char> = Vec::new();
    let mut i: usize = 0;
    while i < s.len()
        invariant
            i <= s.len(),
            out@ == s@.subrange(0, i as int).map_values(|c: char| ascii_lower(c)),
        decreases s.len() - i,
    {
        let c = s[i];
        let lowered = if 'A' <= c && c <= 'Z' {
            ((c as u8) + 32) as char
        } else {
            c
        };
        out.push(lowered);
        i = i + 1;
        assert(out@ =~= s@.subrange(0, i as int).map_values(|c: char| ascii_lower(c)));
    }
    assert(s@.subrange(0, i as int) =~= s@);
    out
}

} // verus!
