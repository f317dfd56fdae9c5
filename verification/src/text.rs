//! Character-sequence helpers shared by the parsers and formatters.
//!
//! Text is modelled as `Seq<char>`, the view of `String` and `&str`. The
//! executable helpers work on `Vec<char>` and are proved against the spec
//! functions of this module.

use vstd::prelude::*;

verus! {

// ---------------------------------------------------------------------------
// Spec vocabulary
// ---------------------------------------------------------------------------

/// `p` is a prefix of `s`.
pub open spec fn starts_with(s: Seq<char>, p: Seq<char>) -> bool {
    p.len() <= s.len() && s.take(p.len() as int) == p
}

/// `p` is a suffix of `s`.
pub open spec fn ends_with(s: Seq<char>, p: Seq<char>) -> bool {
    p.len() <= s.len() && s.skip(s.len() - p.len()) == p
}

/// `p` occurs in `s` starting at index `i`.
pub open spec fn occurs_at(s: Seq<char>, p: Seq<char>, i: int) -> bool {
    0 <= i && i + p.len() <= s.len() && s.subrange(i, i + p.len()) == p
}

/// `p` occurs somewhere in `s`.
pub open spec fn contains(s: Seq<char>, p: Seq<char>) -> bool {
    exists|i: int| occurs_at(s, p, i)
}

/// `i` is the leftmost occurrence of `p` in `s` at or after `from`.
pub open spec fn first_occurrence_from(s: Seq<char>, p: Seq<char>, from: int, i: int) -> bool {
    &&& from <= i
    &&& occurs_at(s, p, i)
    &&& forall|j: int| from <= j < i ==> !occurs_at(s, p, j)
}

/// An occurrence in the first part of a text is one in the whole; one in the
/// second part is one shifted by the first part's length.
pub proof fn lemma_occurs_in_concat(a: Seq<char>, b: Seq<char>, p: Seq<char>, i: int)
    ensures
        occurs_at(a, p, i) ==> occurs_at(a + b, p, i),
        occurs_at(b, p, i) ==> occurs_at(a + b, p, i + a.len()),
{
    if occurs_at(a, p, i) {
        assert((a + b).subrange(i, i + p.len()) =~= a.subrange(i, i + p.len()));
    }
    if occurs_at(b, p, i) {
        assert((a + b).subrange(i + a.len(), i + a.len() + p.len()) =~= b.subrange(i, i + p.len()));
    }
}

/// Each part of a joined list occurs in the joined text.
pub proof fn lemma_join_contains_part(parts: Seq<Seq<char>>, sep: Seq<char>, k: int)
    requires
        0 <= k < parts.len(),
    ensures
        contains(join(parts, sep), parts[k]),
    decreases parts.len(),
{
    if parts.len() == 1 {
        assert(join(parts, sep).subrange(0, parts[0].len() as int) =~= parts[0]);
        assert(occurs_at(join(parts, sep), parts[k], 0));
    } else {
        let front = join(parts.drop_last(), sep) + sep;
        assert(join(parts, sep) == front + parts.last());
        if k == parts.len() - 1 {
            assert(parts.last().subrange(0, parts.last().len() as int) =~= parts.last());
            assert(occurs_at(parts.last(), parts[k], 0));
            lemma_occurs_in_concat(front, parts.last(), parts[k], 0);
        } else {
            lemma_join_contains_part(parts.drop_last(), sep, k);
            assert(parts.drop_last()[k] == parts[k]);
            let i = choose|i: int| occurs_at(join(parts.drop_last(), sep), parts[k], i);
            lemma_occurs_in_concat(join(parts.drop_last(), sep), sep, parts[k], i);
            lemma_occurs_in_concat(front, parts.last(), parts[k], i);
        }
    }
}

/// `str::split_once` with a character pattern: the text before and after
/// the first occurrence of `c`.
pub open spec fn split_once_char(s: Seq<char>, c: char) -> Option<(Seq<char>, Seq<char>)>
    decreases s.len(),
{
    if s.len() == 0 {
        None
    } else if s[0] == c {
        Some((Seq::empty(), s.drop_first()))
    } else {
        match split_once_char(s.drop_first(), c) {
            Some((a, b)) => Some((seq![s[0]] + a, b)),
            None => None,
        }
    }
}

/// Replaces every non-overlapping occurrence of the non-empty pattern `pat`,
/// scanning from the left, as `str::replace` does.
pub open spec fn replace_all(s: Seq<char>, pat: Seq<char>, rep: Seq<char>) -> Seq<char>
    decreases s.len(),
{
    if s.len() == 0 || pat.len() == 0 {
        s
    } else if starts_with(s, pat) {
        rep + replace_all(s.skip(pat.len() as int), pat, rep)
    } else {
        seq![s[0]] + replace_all(s.drop_first(), pat, rep)
    }
}

/// Joins `parts`, putting `sep` between neighbours.
pub open spec fn join(parts: Seq<Seq<char>>, sep: Seq<char>) -> Seq<char>
    decreases parts.len(),
{
    if parts.len() == 0 {
        Seq::empty()
    } else if parts.len() == 1 {
        parts[0]
    } else {
        join(parts.drop_last(), sep) + sep + parts.last()
    }
}

/// The Unicode `White_Space` property of a character, as `char::is_whitespace`
/// reports it: the code points that Unicode's `PropList.txt` lists as
/// `White_Space`.
pub open spec fn is_white_space(c: char) -> bool {
    let n = c as int;
    ||| 0x09 <= n <= 0x0d
    ||| n == 0x20
    ||| n == 0x85
    ||| n == 0xa0
    ||| n == 0x1680
    ||| 0x2000 <= n <= 0x200a
    ||| n == 0x2028
    ||| n == 0x2029
    ||| n == 0x202f
    ||| n == 0x205f
    ||| n == 0x3000
}

/// The Unicode `Alphabetic` or `Numeric` property of a character, as
/// `char::is_alphanumeric` reports it.
pub uninterp spec fn is_alphanumeric_char(c: char) -> bool;

/// What `str::to_lowercase` returns for a text that is not all ASCII.
pub uninterp spec fn unicode_lowercase(s: Seq<char>) -> Seq<char>;

/// What `str::to_uppercase` returns for a text that is not all ASCII.
pub uninterp spec fn unicode_uppercase(s: Seq<char>) -> Seq<char>;

/// What `str::to_lowercase` returns for a text: ASCII text is lower-cased
/// letter by letter; other text is named by `unicode_lowercase`.
pub open spec fn lowercase(s: Seq<char>) -> Seq<char> {
    if all_ascii(s) {
        s.map_values(|c: char| ascii_lower_char(c))
    } else {
        unicode_lowercase(s)
    }
}

/// What `str::to_uppercase` returns for a text: ASCII text is upper-cased
/// letter by letter; other text is named by `unicode_uppercase`.
pub open spec fn uppercase(s: Seq<char>) -> Seq<char> {
    if all_ascii(s) {
        s.map_values(|c: char| ascii_upper_char(c))
    } else {
        unicode_uppercase(s)
    }
}

/// Every character is ASCII.
pub open spec fn all_ascii(s: Seq<char>) -> bool {
    forall|i: int| 0 <= i < s.len() ==> (s[i] as u32) < 128
}

/// ASCII lower-casing of one character.
pub open spec fn ascii_lower_char(c: char) -> char {
    if 'A' <= c && c <= 'Z' {
        ((c as u32) + 32) as char
    } else {
        c
    }
}

/// ASCII upper-casing of one character.
pub open spec fn ascii_upper_char(c: char) -> char {
    if 'a' <= c && c <= 'z' {
        ((c as u32) - 32) as char
    } else {
        c
    }
}

/// Leading white space removed.
pub open spec fn trim_start(s: Seq<char>) -> Seq<char>
    decreases s.len(),
{
    if s.len() > 0 && is_white_space(s[0]) {
        trim_start(s.drop_first())
    } else {
        s
    }
}

/// Trailing white space removed.
pub open spec fn trim_end(s: Seq<char>) -> Seq<char>
    decreases s.len(),
{
    if s.len() > 0 && is_white_space(s.last()) {
        trim_end(s.drop_last())
    } else {
        s
    }
}

/// Leading and trailing white space removed, as `str::trim` does.
pub open spec fn trim(s: Seq<char>) -> Seq<char> {
    trim_end(trim_start(s))
}

// ---------------------------------------------------------------------------
// Calls into std
// ---------------------------------------------------------------------------

/// Appends one character to a string (`String::push`).
#[verifier::external_body]
pub fn push_char(s: &mut String, c: char)
    ensures
        final(s)@ == old(s)@.push(c),
{
    s.push(c);
}

/// Whether the character has Unicode's `White_Space` property (what
/// `char::is_whitespace` reports), by its code point.
pub fn char_is_whitespace(c: char) -> (b: bool)
    ensures
        b == is_white_space(c),
{
    let n = c as u32;
    (0x09 <= n && n <= 0x0d) || n == 0x20 || n == 0x85 || n == 0xa0 || n == 0x1680 || (0x2000 <= n && n
        <= 0x200a) || n == 0x2028 || n == 0x2029 || n == 0x202f || n == 0x205f || n == 0x3000
}

/// `char::is_alphanumeric`: the result is the character's `Alphabetic` or
/// `Numeric` property.
#[verifier::external_body]
pub fn char_is_alphanumeric(c: char) -> (b: bool)
    ensures
        b == is_alphanumeric_char(c),
{
    c.is_alphanumeric()
}

/// `str::to_lowercase`. For ASCII text, Unicode lower-casing is the ASCII
/// mapping, which the first clause states; the result for other text is
/// named by `unicode_lowercase`, and nothing more is said of it.
#[verifier::external_body]
pub fn str_to_lowercase(s: &str) -> (r: String)
    ensures
        all_ascii(s@) ==> r@ == s@.map_values(|c: char| ascii_lower_char(c)),
        !all_ascii(s@) ==> r@ == unicode_lowercase(s@),
{
    s.to_lowercase()
}

/// `str::to_uppercase`. For ASCII text, Unicode upper-casing is the ASCII
/// mapping, which the first clause states; the result for other text is
/// named by `unicode_uppercase`, and nothing more is said of it.
#[verifier::external_body]
pub fn str_to_uppercase(s: &str) -> (r: String)
    ensures
        all_ascii(s@) ==> r@ == s@.map_values(|c: char| ascii_upper_char(c)),
        !all_ascii(s@) ==> r@ == unicode_uppercase(s@),
{
    s.to_uppercase()
}

// ---------------------------------------------------------------------------
// Conversions
// ---------------------------------------------------------------------------

/// The characters of a string slice, in order.
pub fn chars_of(s: &str) -> (v: Vec<char>)
    ensures
        v@ == s@,
{
    let mut v: Vec<char> = Vec::new();
    for c in it: s.chars()
        invariant
            v@ == it.seq().take(it.index() as int),
            it.seq() == s@,
    {
        v.push(c);
    }
    v
}

/// Builds a string from a sequence of characters.
pub fn string_of(v: &[char]) -> (s: String)
    ensures
        s@ == v@,
{
    let mut s = String::new();
    push_chars(&mut s, v);
    s
}

/// Appends a sequence of characters to a string.
pub fn push_chars(s: &mut String, v: &[char])
    ensures
        final(s)@ == old(s)@ + v@,
{
    let ghost start = s@;
    let mut i: usize = 0;
    while i < v.len()
        invariant
            i <= v.len(),
            s@ == start + v@.take(i as int),
        decreases v.len() - i,
    {
        push_char(s, v[i]);
        assert(v@.take(i as int + 1) == v@.take(i as int).push(v@[i as int]));
        i = i + 1;
    }
    assert(v@.take(v@.len() as int) == v@);
}

/// Appends a string slice to a string.
pub fn push_str(s: &mut String, t: &str)
    ensures
        final(s)@ == old(s)@ + t@,
{
    let v = chars_of(t);
    push_chars(s, v.as_slice());
}

/// Lower-cases a character sequence with `str::to_lowercase`.
pub fn lowercase_chars(v: &[char]) -> (r: Vec<char>)
    ensures
        r@ == lowercase(v@),
        all_ascii(v@) ==> r@ == v@.map_values(|c: char| ascii_lower_char(c)),
{
    let s = string_of(v);
    let l = str_to_lowercase(s.as_str());
    chars_of(l.as_str())
}

/// Upper-cases a character sequence with `str::to_uppercase`.
pub fn uppercase_chars(v: &[char]) -> (r: Vec<char>)
    ensures
        r@ == uppercase(v@),
        all_ascii(v@) ==> r@ == v@.map_values(|c: char| ascii_upper_char(c)),
{
    let s = string_of(v);
    let u = str_to_uppercase(s.as_str());
    chars_of(u.as_str())
}

// ---------------------------------------------------------------------------
// Comparisons and searches
// ---------------------------------------------------------------------------

/// Character-wise equality.
pub fn chars_eq(a: &[char], b: &[char]) -> (r: bool)
    ensures
        r == (a@ == b@),
{
    if a.len() != b.len() {
        return false;
    }
    let mut i: usize = 0;
    while i < a.len()
        invariant
            i <= a.len(),
            a.len() == b.len(),
            forall|j: int| 0 <= j < i ==> a@[j] == b@[j],
        decreases a.len() - i,
    {
        if a[i] != b[i] {
            return false;
        }
        i = i + 1;
    }
    assert(a@ =~= b@);
    true
}

/// Equal up to ASCII case.
pub open spec fn ascii_ieq(a: Seq<char>, b: Seq<char>) -> bool {
    a.len() == b.len() && forall|i: int| 0 <= i < a.len() ==> ascii_lower_char(#[trigger] a[i]) == ascii_lower_char(b[i])
}

fn ascii_lower_code(c: char) -> (r: u32)
    ensures
        r == ascii_lower_char(c) as u32,
{
    let u = c as u32;
    if 65 <= u && u <= 90 {
        u + 32
    } else {
        u
    }
}

/// Whether two strings are equal up to ASCII case.
pub fn ascii_ieq_str(a: &str, b: &str) -> (r: bool)
    ensures
        r == ascii_ieq(a@, b@),
{
    let ac = chars_of(a);
    let bc = chars_of(b);
    if ac.len() != bc.len() {
        return false;
    }
    let mut i: usize = 0;
    while i < ac.len()
        invariant
            i <= ac.len(),
            ac.len() == bc.len(),
            ac@ == a@,
            bc@ == b@,
            forall|j: int| 0 <= j < i ==> ascii_lower_char(#[trigger] a@[j]) == ascii_lower_char(b@[j]),
        decreases ac.len() - i,
    {
        if ascii_lower_code(ac[i]) != ascii_lower_code(bc[i]) {
            return false;
        }
        i = i + 1;
    }
    true
}

/// Equality of a character sequence with a string slice.
pub fn chars_eq_str(a: &[char], b: &str) -> (r: bool)
    ensures
        r == (a@ == b@),
{
    let bv = chars_of(b);
    chars_eq(a, bv.as_slice())
}

/// Whether `p` occurs in `s` at index `i`.
pub fn occurs_at_exec(s: &[char], p: &[char], i: usize) -> (r: bool)
    ensures
        r == occurs_at(s@, p@, i as int),
{
    if i > s.len() || p.len() > s.len() - i {
        return false;
    }
    let mut k: usize = 0;
    while k < p.len()
        invariant
            k <= p.len(),
            i + p.len() <= s.len(),
            forall|j: int| 0 <= j < k ==> s@[i + j] == p@[j],
        decreases p.len() - k,
    {
        if s[i + k] != p[k] {
            assert(s@.subrange(i as int, i + p.len())[k as int] != p@[k as int]);
            return false;
        }
        k = k + 1;
    }
    assert(s@.subrange(i as int, i + p.len()) =~= p@);
    true
}

/// `p` is a prefix of `s`.
pub fn starts_with_exec(s: &[char], p: &[char]) -> (r: bool)
    ensures
        r == starts_with(s@, p@),
{
    let r = occurs_at_exec(s, p, 0);
    assert(s@.subrange(0, p@.len() as int) == s@.take(p@.len() as int));
    r
}

/// `p` is a suffix of `s`.
pub fn ends_with_exec(s: &[char], p: &[char]) -> (r: bool)
    ensures
        r == ends_with(s@, p@),
{
    if p.len() > s.len() {
        return false;
    }
    let r = occurs_at_exec(s, p, s.len() - p.len());
    assert(s@.subrange(s@.len() - p@.len(), s@.len() as int) == s@.skip(s@.len() - p@.len()));
    r
}

/// The leftmost occurrence of `p` in `s` at or after `from`.
pub fn find_from(s: &[char], p: &[char], from: usize) -> (r: Option<usize>)
    ensures
        match r {
            Some(i) => first_occurrence_from(s@, p@, from as int, i as int),
            None => forall|j: int| from <= j ==> !occurs_at(s@, p@, j),
        },
{
    if from > s.len() {
        return None;
    }
    let mut i: usize = from;
    while i <= s.len()
        invariant
            from <= i <= s.len() + 1,
            forall|j: int| from <= j < i ==> !occurs_at(s@, p@, j),
        decreases s.len() + 1 - i,
    {
        if occurs_at_exec(s, p, i) {
            return Some(i);
        }
        if i == s.len() {
            return None;
        }
        i = i + 1;
    }
    None
}

/// Whether `p` occurs anywhere in `s`.
pub fn contains_exec(s: &[char], p: &[char]) -> (r: bool)
    ensures
        r == contains(s@, p@),
{
    match find_from(s, p, 0) {
        Some(_) => true,
        None => {
            assert forall|j: int| !occurs_at(s@, p@, j) by {
                if 0 <= j {
                }
            }
            false
        },
    }
}

/// Whether `p` occurs anywhere in `s` (string-slice pattern).
pub fn contains_str(s: &[char], p: &str) -> (r: bool)
    ensures
        r == contains(s@, p@),
{
    let pv = chars_of(p);
    contains_exec(s, pv.as_slice())
}

/// Whether `s` starts with `p` (string-slice pattern).
pub fn starts_with_str(s: &[char], p: &str) -> (r: bool)
    ensures
        r == starts_with(s@, p@),
{
    let pv = chars_of(p);
    starts_with_exec(s, pv.as_slice())
}

/// Whether `s` ends with `p` (string-slice pattern).
pub fn ends_with_str(s: &[char], p: &str) -> (r: bool)
    ensures
        r == ends_with(s@, p@),
{
    let pv = chars_of(p);
    ends_with_exec(s, pv.as_slice())
}

/// A copy of `s[lo..hi]`.
pub fn slice_chars(s: &[char], lo: usize, hi: usize) -> (r: Vec<char>)
    requires
        lo <= hi <= s.len(),
    ensures
        r@ == s@.subrange(lo as int, hi as int),
{
    let mut r: Vec<char> = Vec::new();
    let mut i: usize = lo;
    while i < hi
        invariant
            lo <= i <= hi <= s.len(),
            r@ == s@.subrange(lo as int, i as int),
        decreases hi - i,
    {
        r.push(s[i]);
        assert(s@.subrange(lo as int, i + 1) == s@.subrange(lo as int, i as int).push(s@[i as int]));
        i = i + 1;
    }
    r
}

// ---------------------------------------------------------------------------
// split_once
// ---------------------------------------------------------------------------

/// The first occurrence of `c` at index `i` splits `s` into the text before and after it.
pub proof fn lemma_split_once_at(s: Seq<char>, c: char, i: int)
    requires
        0 <= i < s.len(),
        s[i] == c,
        forall|j: int| 0 <= j < i ==> s[j] != c,
    ensures
        split_once_char(s, c) == Some((s.take(i), s.skip(i + 1))),
    decreases i,
{
    if i > 0 {
        lemma_split_once_at(s.drop_first(), c, i - 1);
        assert(seq![s[0]] + s.drop_first().take(i - 1) =~= s.take(i));
        assert(s.drop_first().skip(i) =~= s.skip(i + 1));
    } else {
        assert(s.take(0) =~= Seq::<char>::empty());
        assert(s.drop_first() =~= s.skip(1));
    }
}

/// Without `c`, `split_once_char` finds nothing.
pub proof fn lemma_split_once_none(s: Seq<char>, c: char)
    requires
        forall|j: int| 0 <= j < s.len() ==> s[j] != c,
    ensures
        split_once_char(s, c) is None,
    decreases s.len(),
{
    if s.len() > 0 {
        lemma_split_once_none(s.drop_first(), c);
    }
}

/// `split_once` at the first occurrence of a character.
pub fn split_once_exec(s: &[char], c: char) -> (r: Option<(Vec<char>, Vec<char>)>)
    ensures
        match r {
            Some((a, b)) => split_once_char(s@, c) == Some((a@, b@)),
            None => split_once_char(s@, c) is None,
        },
{
    let mut i: usize = 0;
    while i < s.len()
        invariant
            i <= s.len(),
            forall|j: int| 0 <= j < i ==> s@[j] != c,
        decreases s.len() - i,
    {
        if s[i] == c {
            proof {
                lemma_split_once_at(s@, c, i as int);
            }
            let a = slice_chars(s, 0, i);
            let b = slice_chars(s, i + 1, s.len());
            assert(a@ =~= s@.take(i as int));
            assert(b@ =~= s@.skip(i + 1));
            return Some((a, b));
        }
        i = i + 1;
    }
    proof {
        lemma_split_once_none(s@, c);
    }
    None
}

// ---------------------------------------------------------------------------
// trim
// ---------------------------------------------------------------------------

/// Skipping a run of leading white space reaches the trimmed start.
pub proof fn lemma_trim_start_at(s: Seq<char>, i: int)
    requires
        0 <= i <= s.len(),
        forall|j: int| 0 <= j < i ==> is_white_space(s[j]),
        i == s.len() || !is_white_space(s[i]),
    ensures
        trim_start(s) == s.skip(i),
    decreases i,
{
    if i > 0 {
        lemma_trim_start_at(s.drop_first(), i - 1);
        assert(s.drop_first().skip(i - 1) =~= s.skip(i));
    } else {
        assert(s.skip(0) =~= s);
    }
}

/// Dropping a run of trailing white space reaches the trimmed end.
pub proof fn lemma_trim_end_at(s: Seq<char>, k: int)
    requires
        0 <= k <= s.len(),
        forall|j: int| k <= j < s.len() ==> is_white_space(s[j]),
        k == 0 || !is_white_space(s[k - 1]),
    ensures
        trim_end(s) == s.take(k),
    decreases s.len() - k,
{
    if k < s.len() {
        lemma_trim_end_at(s.drop_last(), k);
        assert(s.drop_last().take(k) =~= s.take(k));
    } else {
        assert(s.take(k) =~= s);
    }
}

/// `str::trim` on a character sequence.
pub fn trim_chars(s: &[char]) -> (r: Vec<char>)
    ensures
        r@ == trim(s@),
{
    let mut i: usize = 0;
    while i < s.len() && char_is_whitespace(s[i])
        invariant
            i <= s.len(),
            forall|j: int| 0 <= j < i ==> is_white_space(s@[j]),
        decreases s.len() - i,
    {
        i = i + 1;
    }
    proof {
        lemma_trim_start_at(s@, i as int);
    }
    let mut k: usize = s.len();
    while k > i && char_is_whitespace(s[k - 1])
        invariant
            i <= k <= s.len(),
            forall|j: int| k <= j < s.len() ==> is_white_space(s@[j]),
        decreases k,
    {
        k = k - 1;
    }
    let ghost t = s@.skip(i as int);
    proof {
        let kk = k - i;
        assert forall|j: int| kk <= j < t.len() implies is_white_space(t[j]) by {
            assert(t[j] == s@[j + i]);
        }
        if k == i {
            assert(kk == 0);
        } else {
            assert(t[kk - 1] == s@[k - 1]);
        }
        lemma_trim_end_at(t, kk);
        assert(t.take(kk) =~= s@.subrange(i as int, k as int));
    }
    slice_chars(s, i, k)
}

/// `str::trim` on a string slice.
pub fn trim_str(s: &str) -> (r: Vec<char>)
    ensures
        r@ == trim(s@),
{
    let v = chars_of(s);
    trim_chars(v.as_slice())
}

// ---------------------------------------------------------------------------
// replace
// ---------------------------------------------------------------------------

/// `str::replace` on a character sequence (the pattern must be non-empty).
pub fn replace_chars(s: &[char], pat: &[char], rep: &[char]) -> (r: Vec<char>)
    requires
        pat.len() > 0,
    ensures
        r@ == replace_all(s@, pat@, rep@),
{
    let mut out: Vec<char> = Vec::new();
    let mut i: usize = 0;
    assert(s@.skip(0) =~= s@);
    assert(out@ + replace_all(s@, pat@, rep@) =~= replace_all(s@, pat@, rep@));
    while i < s.len()
        invariant
            i <= s.len(),
            pat@.len() > 0,
            out@ + replace_all(s@.skip(i as int), pat@, rep@) == replace_all(s@, pat@, rep@),
        decreases s.len() - i,
    {
        let ghost rest = s@.skip(i as int);
        if occurs_at_exec(s, pat, i) {
            assert(starts_with(rest, pat@)) by {
                assert(rest.take(pat@.len() as int) =~= s@.subrange(i as int, i + pat@.len()));
            }
            assert(rest.skip(pat@.len() as int) =~= s@.skip(i + pat@.len()));
            let mut k: usize = 0;
            let ghost before = out@;
            while k < rep.len()
                invariant
                    k <= rep.len(),
                    out@ == before + rep@.take(k as int),
                decreases rep.len() - k,
            {
                out.push(rep[k]);
                assert(rep@.take(k + 1) == rep@.take(k as int).push(rep@[k as int]));
                k = k + 1;
            }
            assert(rep@.take(rep@.len() as int) == rep@);
            assert(out@ + replace_all(s@.skip(i + pat@.len()), pat@, rep@) =~= before + (rep@
                + replace_all(rest.skip(pat@.len() as int), pat@, rep@)));
            i = i + pat.len();
        } else {
            assert(!starts_with(rest, pat@)) by {
                if pat@.len() <= rest.len() {
                    assert(rest.take(pat@.len() as int) =~= s@.subrange(i as int, i + pat@.len()));
                }
            }
            assert(rest.drop_first() =~= s@.skip(i + 1));
            let ghost before = out@;
            out.push(s[i]);
            assert(out@ + replace_all(s@.skip(i + 1), pat@, rep@) =~= before + (seq![rest[0]]
                + replace_all(rest.drop_first(), pat@, rep@)));
            i = i + 1;
        }
    }
    assert(s@.skip(s@.len() as int) =~= Seq::<char>::empty());
    assert(out@ + Seq::<char>::empty() =~= out@);
    out
}

// ---------------------------------------------------------------------------
// join
// ---------------------------------------------------------------------------

/// The character views of a list of character vectors.
pub open spec fn views_of(v: Seq<Vec<char>>) -> Seq<Seq<char>> {
    v.map_values(|x: Vec<char>| x@)
}

/// The character views of a list of strings.
pub open spec fn string_views(v: Seq<String>) -> Seq<Seq<char>> {
    v.map_values(|x: String| x@)
}

/// Joins character vectors with a separator.
pub fn join_chars(parts: &Vec<Vec<char>>, sep: &[char]) -> (r: Vec<char>)
    ensures
        r@ == join(views_of(parts@), sep@),
{
    let mut r: Vec<char> = Vec::new();
    let mut i: usize = 0;
    while i < parts.len()
        invariant
            i <= parts.len(),
            r@ == join(views_of(parts@).take(i as int), sep@),
        decreases parts.len() - i,
    {
        let ghost pv = views_of(parts@);
        assert(pv.take(i + 1).drop_last() =~= pv.take(i as int));
        assert(pv.take(i + 1).last() == parts@[i as int]@);
        if i > 0 {
            append_chars(&mut r, sep);
        } else {
            assert(pv.take(1)[0] == parts@[0]@);
        }
        append_chars(&mut r, parts[i].as_slice());
        proof {
            if i == 0 {
                assert(r@ =~= pv.take(1)[0]);
            }
        }
        i = i + 1;
    }
    assert(views_of(parts@).take(parts@.len() as int) =~= views_of(parts@));
    r
}

/// Appends a character slice to a character vector.
pub fn append_chars(r: &mut Vec<char>, s: &[char])
    ensures
        final(r)@ == old(r)@ + s@,
{
    let ghost start = r@;
    let mut k: usize = 0;
    while k < s.len()
        invariant
            k <= s.len(),
            r@ == start + s@.take(k as int),
        decreases s.len() - k,
    {
        r.push(s[k]);
        assert(s@.take(k + 1) == s@.take(k as int).push(s@[k as int]));
        k = k + 1;
    }
    assert(s@.take(s@.len() as int) == s@);
}

/// Appends a string slice to a character vector.
pub fn append_str(r: &mut Vec<char>, s: &str)
    ensures
        final(r)@ == old(r)@ + s@,
{
    let v = chars_of(s);
    append_chars(r, v.as_slice());
}

// ---------------------------------------------------------------------------
// split and lines
// ---------------------------------------------------------------------------

/// `str::split` with a character pattern: the pieces between occurrences of
/// `c`; there is always at least one piece.
pub open spec fn split_char(s: Seq<char>, c: char) -> Seq<Seq<char>>
    decreases s.len(),
{
    if s.len() == 0 {
        seq![Seq::empty()]
    } else {
        let prev = split_char(s.drop_last(), c);
        if s.last() == c {
            prev.push(Seq::empty())
        } else {
            prev.update(prev.len() - 1, prev.last().push(s.last()))
        }
    }
}

/// `split_char` never yields an empty list.
pub proof fn lemma_split_char_nonempty(s: Seq<char>, c: char)
    ensures
        split_char(s, c).len() >= 1,
    decreases s.len(),
{
    if s.len() > 0 {
        lemma_split_char_nonempty(s.drop_last(), c);
    }
}

/// `str::split` on a character sequence.
pub fn split_chars(s: &[char], c: char) -> (r: Vec<Vec<char>>)
    ensures
        views_of(r@) == split_char(s@, c),
        r@.len() >= 1,
{
    let mut r: Vec<Vec<char>> = Vec::new();
    r.push(Vec::new());
    let mut i: usize = 0;
    assert(views_of(r@) =~= split_char(s@.take(0), c));
    while i < s.len()
        invariant
            i <= s.len(),
            r@.len() >= 1,
            views_of(r@) == split_char(s@.take(i as int), c),
        decreases s.len() - i,
    {
        let ghost prev = views_of(r@);
        assert(s@.take(i + 1).drop_last() =~= s@.take(i as int));
        if s[i] == c {
            r.push(Vec::new());
            assert(views_of(r@) =~= prev.push(Seq::empty()));
        } else {
            let last = r.len() - 1;
            let mut piece: Vec<char> = Vec::new();
            std::mem::swap(&mut piece, &mut r[last]);
            piece.push(s[i]);
            r.set(last, piece);
            assert(views_of(r@) =~= prev.update(prev.len() - 1, prev.last().push(s@[i as int])));
        }
        i = i + 1;
    }
    assert(s@.take(s@.len() as int) =~= s@);
    r
}

/// The first line of a text, as `str::lines` yields it: `None` for empty
/// text; otherwise the text before the first line feed, without a carriage
/// return right before that line feed.
pub open spec fn first_line(s: Seq<char>) -> Option<Seq<char>> {
    if s.len() == 0 {
        None
    } else {
        match split_once_char(s, '\n') {
            Some((l, _)) => if l.len() > 0 && l.last() == '\r' {
                Some(l.drop_last())
            } else {
                Some(l)
            },
            None => Some(s),
        }
    }
}

/// The first line of a text (`str::lines().next()`).
pub fn first_line_exec(s: &[char]) -> (r: Option<Vec<char>>)
    ensures
        match r {
            Some(l) => first_line(s@) == Some(l@),
            None => first_line(s@) is None,
        },
{
    if s.len() == 0 {
        return None;
    }
    match split_once_exec(s, '\n') {
        Some((l, _)) => {
            if l.len() > 0 && l[l.len() - 1] == '\r' {
                let d = slice_chars(l.as_slice(), 0, l.len() - 1);
                assert(d@ =~= l@.drop_last());
                Some(d)
            } else {
                Some(l)
            }
        },
        None => Some(slice_chars(s, 0, s.len())),
    }
}

// ---------------------------------------------------------------------------
// find
// ---------------------------------------------------------------------------

/// The leftmost occurrence of `p` in `s` at or after `from`.
pub open spec fn find_spec(s: Seq<char>, p: Seq<char>, from: int) -> Option<int> {
    if exists|i: int| first_occurrence_from(s, p, from, i) {
        Some(choose|i: int| first_occurrence_from(s, p, from, i))
    } else {
        None
    }
}

/// There is only one leftmost occurrence.
pub proof fn lemma_first_occurrence_unique(s: Seq<char>, p: Seq<char>, from: int, i: int, j: int)
    requires
        first_occurrence_from(s, p, from, i),
        first_occurrence_from(s, p, from, j),
    ensures
        i == j,
{
    if i < j {
        assert(!occurs_at(s, p, i));
    } else if j < i {
        assert(!occurs_at(s, p, j));
    }
}


/// The text before the first `c` is shorter than the whole.
pub proof fn lemma_split_once_len(s: Seq<char>, c: char)
    ensures
        split_once_char(s, c) matches Some((a, b)) ==> a.len() < s.len() && s == a + seq![c] + b,
    decreases s.len(),
{
    if s.len() > 0 {
        lemma_split_once_len(s.drop_first(), c);
        if s[0] == c {
            assert(s =~= Seq::<char>::empty() + seq![c] + s.drop_first());
        } else if let Some((a, b)) = split_once_char(s.drop_first(), c) {
            assert(s.drop_first() == a + seq![c] + b);
            assert(s =~= seq![s[0]] + s.drop_first());
            assert(s =~= seq![s[0]] + a + seq![c] + b);
        }
    }
}


// ---------------------------------------------------------------------------
// Order
// ---------------------------------------------------------------------------

/// The order of `String`s: lexicographic by character (UTF-8 byte order and
/// code point order agree).
pub open spec fn text_lt(a: Seq<char>, b: Seq<char>) -> bool
    decreases a.len(),
{
    if a.len() == 0 {
        b.len() > 0
    } else if b.len() == 0 {
        false
    } else if a[0] != b[0] {
        (a[0] as int) < (b[0] as int)
    } else {
        text_lt(a.drop_first(), b.drop_first())
    }
}

/// No text is below itself.
pub proof fn lemma_text_lt_irreflexive(a: Seq<char>)
    ensures
        !text_lt(a, a),
    decreases a.len(),
{
    if a.len() > 0 {
        lemma_text_lt_irreflexive(a.drop_first());
    }
}

/// Of two different texts, one is below the other.
pub proof fn lemma_text_lt_total(a: Seq<char>, b: Seq<char>)
    ensures
        a == b || text_lt(a, b) || text_lt(b, a),
    decreases a.len(),
{
    if a.len() > 0 && b.len() > 0 && a[0] == b[0] {
        lemma_text_lt_total(a.drop_first(), b.drop_first());
        if a.drop_first() == b.drop_first() {
            assert(a =~= seq![a[0]] + a.drop_first());
            assert(b =~= seq![b[0]] + b.drop_first());
            assert(a =~= b);
        }
    } else if a.len() == 0 && b.len() == 0 {
        assert(a =~= b);
    } else if a.len() > 0 && b.len() > 0 {
        assert((a[0] as int) != (b[0] as int));
    }
}

/// The order is transitive.
pub proof fn lemma_text_lt_transitive(a: Seq<char>, b: Seq<char>, c: Seq<char>)
    requires
        text_lt(a, b),
        text_lt(b, c),
    ensures
        text_lt(a, c),
    decreases a.len(),
{
    if a.len() > 0 && b.len() > 0 && c.len() > 0 && a[0] == b[0] && b[0] == c[0] {
        lemma_text_lt_transitive(a.drop_first(), b.drop_first(), c.drop_first());
    }
}

/// Compares two texts in the order of `String`s.
pub fn text_less(a: &[char], b: &[char]) -> (r: bool)
    ensures
        r == text_lt(a@, b@),
{
    let mut i: usize = 0;
    assert(a@.skip(0) =~= a@);
    assert(b@.skip(0) =~= b@);
    while i < a.len() && i < b.len()
        invariant
            i <= a.len(),
            i <= b.len(),
            text_lt(a@, b@) == text_lt(a@.skip(i as int), b@.skip(i as int)),
        decreases a.len() - i,
    {
        assert(a@.skip(i as int)[0] == a@[i as int]);
        assert(b@.skip(i as int)[0] == b@[i as int]);
        if a[i] != b[i] {
            return a[i] < b[i];
        }
        assert(a@.skip(i as int).drop_first() =~= a@.skip(i + 1));
        assert(b@.skip(i as int).drop_first() =~= b@.skip(i + 1));
        i = i + 1;
    }
    i < b.len()
}


// ---------------------------------------------------------------------------
// Facts about replace_all
// ---------------------------------------------------------------------------

/// Replacing leaves a text alone when the pattern's first character does not
/// occur in it.
pub proof fn lemma_replace_absent(s: Seq<char>, pat: Seq<char>, rep: Seq<char>)
    requires
        pat.len() > 0,
        forall|i: int| 0 <= i < s.len() ==> s[i] != pat[0],
    ensures
        replace_all(s, pat, rep) == s,
    decreases s.len(),
{
    if s.len() > 0 {
        if starts_with(s, pat) {
            assert(s.take(pat.len() as int)[0] == s[0]);
        }
        lemma_replace_absent(s.drop_first(), pat, rep);
        assert(s =~= seq![s[0]] + s.drop_first());
    }
}

/// Replacing a two-character pattern distributes over a concatenation whose
/// left part does not end with the pattern's first character.
pub proof fn lemma_replace_concat(x: Seq<char>, y: Seq<char>, pat: Seq<char>, rep: Seq<char>)
    requires
        pat.len() == 2,
        x.len() == 0 || x.last() != pat[0],
    ensures
        replace_all(x + y, pat, rep) == replace_all(x, pat, rep) + replace_all(y, pat, rep),
    decreases x.len(),
{
    if x.len() == 0 {
        assert(x + y =~= y);
        assert(replace_all(x, pat, rep) =~= Seq::<char>::empty());
        assert(Seq::<char>::empty() + replace_all(y, pat, rep) =~= replace_all(y, pat, rep));
    } else if x.len() == 1 {
        assert((x + y)[0] == x[0]);
        if starts_with(x + y, pat) {
            assert((x + y).take(2)[0] == x[0]);
        }
        assert(!starts_with(x, pat));
        assert((x + y).drop_first() =~= y);
        assert(x.drop_first() =~= Seq::<char>::empty());
        assert(replace_all(x.drop_first(), pat, rep) =~= Seq::<char>::empty());
        assert(replace_all(x, pat, rep) =~= seq![x[0]]);
    } else {
        assert((x + y).take(2) =~= x.take(2));
        if starts_with(x, pat) {
            assert((x + y).skip(2) =~= x.skip(2) + y);
            lemma_replace_concat(x.skip(2), y, pat, rep);
            assert(rep + replace_all(x.skip(2), pat, rep) + replace_all(y, pat, rep) =~= rep + (
            replace_all(x.skip(2), pat, rep) + replace_all(y, pat, rep)));
        } else {
            assert((x + y).drop_first() =~= x.drop_first() + y);
            assert((x + y)[0] == x[0]);
            lemma_replace_concat(x.drop_first(), y, pat, rep);
            assert(seq![x[0]] + replace_all(x.drop_first(), pat, rep) + replace_all(y, pat, rep) =~= seq![
                x[0],
            ] + (replace_all(x.drop_first(), pat, rep) + replace_all(y, pat, rep)));
        }
    }
}

} // verus!
