//! Character-level text handling: ASCII case folding, searching, splitting, trimming,
//! replacing, decimal numbers and UTF-16.
use vstd::prelude::*;

verus! {

/// A character with ASCII letters `A`..=`Z` mapped to lower case; every other character unchanged.
pub open spec fn ascii_lower(c: char) -> char {
    if 'A' <= c && c <= 'Z' {
        ((c as u32) + 32) as char
    } else {
        c
    }
}

/// Every character of `s` passed through [`ascii_lower`].
pub open spec fn lower_seq(s: Seq<char>) -> Seq<char> {
    s.map_values(|c: char| ascii_lower(c))
}

/// `a` and `b` are equal once ASCII letters are folded to lower case.
pub open spec fn eq_ignore_case(a: Seq<char>, b: Seq<char>) -> bool {
    a.len() == b.len() && forall|i: int| 0 <= i < a.len() ==> ascii_lower(a[i]) == ascii_lower(b[i])
}

/// `prefix` is the beginning of `s`.
pub open spec fn starts_with(s: Seq<char>, prefix: Seq<char>) -> bool {
    prefix.len() <= s.len() && s.take(prefix.len() as int) == prefix
}

/// `needle` occurs in `s` starting at position `i`.
pub open spec fn occurs_at<T>(s: Seq<T>, needle: Seq<T>, i: int) -> bool {
    0 <= i && i + needle.len() <= s.len() && s.subrange(i, i + needle.len()) == needle
}

/// `needle` occurs somewhere in `s`.
pub open spec fn occurs<T>(s: Seq<T>, needle: Seq<T>) -> bool {
    exists|i: int| occurs_at(s, needle, i)
}

/// `i` is the position of the first `c` in `s`.
pub open spec fn first_at<T>(s: Seq<T>, c: T, i: int) -> bool {
    0 <= i < s.len() && s[i] == c && forall|j: int| 0 <= j < i ==> s[j] != c
}

/// The parts of `s` before and after its first `sep`, or `None` when `s` holds no `sep`
/// (what `str::split_once` gives for a character pattern).
pub open spec fn split_once<T>(s: Seq<T>, sep: T) -> Option<(Seq<T>, Seq<T>)> {
    if exists|i: int| first_at(s, sep, i) {
        let i = choose|i: int| first_at(s, sep, i);
        Some((s.take(i), s.skip(i + 1)))
    } else {
        None
    }
}

/// The pieces of `s` between its `sep` characters (what `str::split` gives for a character
/// pattern: one more piece than there are separators).
pub open spec fn split_all<T>(s: Seq<T>, sep: T) -> Seq<Seq<T>>
    decreases s.len(),
{
    if exists|i: int| first_at(s, sep, i) {
        let i = choose|i: int| first_at(s, sep, i);
        seq![s.take(i)] + split_all(s.skip(i + 1), sep)
    } else {
        seq![s]
    }
}

/// Two first positions of the same character are the same position.
pub proof fn lemma_first_unique<T>(s: Seq<T>, c: T, i: int, j: int)
    requires
        first_at(s, c, i),
        first_at(s, c, j),
    ensures
        i == j,
{
    if i < j {
        assert(s[i] != c);
    }
    if j < i {
        assert(s[j] != c);
    }
}

/// `split_once` at a known first position.
pub proof fn lemma_split_once_at<T>(s: Seq<T>, c: T, i: int)
    requires
        first_at(s, c, i),
    ensures
        split_once(s, c) == Some((s.take(i), s.skip(i + 1))),
        split_all(s, c) == seq![s.take(i)] + split_all(s.skip(i + 1), c),
{
    let k = choose|k: int| first_at(s, c, k);
    lemma_first_unique(s, c, i, k);
}

/// `split_once` and `split_all` when `c` does not occur.
pub proof fn lemma_split_none<T>(s: Seq<T>, c: T)
    requires
        forall|j: int| 0 <= j < s.len() ==> s[j] != c,
    ensures
        split_once(s, c) is None,
        split_all(s, c) == seq![s],
{
}

/// The characters of a string slice, in order (`str::chars`, collected).
#[verifier::external_body]
pub(crate) fn chars_of(s: &str) -> (r: Vec<char>)
    ensures
        r@ == s@,
{
    s.chars().collect()
}

/// A string made of the given characters (`String::from_iter` over chars).
#[verifier::external_body]
pub(crate) fn string_of(cs: &[char]) -> (r: String)
    ensures
        r@ == cs@,
{
    cs.iter().collect()
}

/// Lower-cases one character the way `char::to_ascii_lowercase` does.
pub fn lower_char(c: char) -> (r: char)
    ensures
        r == ascii_lower(c),
{
    if c >= 'A' && c <= 'Z' {
        let b: u8 = c as u8;
        (b + 32) as char
    } else {
        c
    }
}

/// `s` with ASCII letters lower-cased (`str::to_ascii_lowercase`).
pub fn to_ascii_lowercase(s: &str) -> (r: String)
    ensures
        r@ == lower_seq(s@),
{
    let cs = chars_of(s);
    let mut out: Vec<char> = Vec::new();
    let mut i: usize = 0;
    while i < cs.len()
        invariant
            cs@ == s@,
            i <= cs.len(),
            out@ == lower_seq(s@).take(i as int),
        decreases cs.len() - i,
    {
        let c = lower_char(cs[i]);
        out.push(c);
        i += 1;
        assert(out@ =~= lower_seq(s@).take(i as int));
    }
    assert(out@ =~= lower_seq(s@));
    string_of(out.as_slice())
}

/// Whether two character sequences are equal once ASCII letters are folded to lower case.
pub fn chars_eq_ignore_case(a: &[char], b: &[char]) -> (r: bool)
    ensures
        r == eq_ignore_case(a@, b@),
{
    if a.len() != b.len() {
        return false;
    }
    let mut i: usize = 0;
    while i < a.len()
        invariant
            a.len() == b.len(),
            i <= a.len(),
            forall|j: int| 0 <= j < i ==> ascii_lower(a@[j]) == ascii_lower(b@[j]),
        decreases a.len() - i,
    {
        if lower_char(a[i]) != lower_char(b[i]) {
            return false;
        }
        i += 1;
    }
    true
}

/// Whether two strings are equal ignoring ASCII case (`str::eq_ignore_ascii_case`).
pub fn eq_ignore_ascii_case(a: &str, b: &str) -> (r: bool)
    ensures
        r == eq_ignore_case(a@, b@),
{
    let ca = chars_of(a);
    let cb = chars_of(b);
    chars_eq_ignore_case(ca.as_slice(), cb.as_slice())
}

/// Whether `s` begins with `prefix` (`str::starts_with` for a string pattern).
pub fn chars_start_with(s: &[char], prefix: &[char]) -> (r: bool)
    ensures
        r == starts_with(s@, prefix@),
{
    if prefix.len() > s.len() {
        return false;
    }
    let mut i: usize = 0;
    while i < prefix.len()
        invariant
            prefix.len() <= s.len(),
            i <= prefix.len(),
            forall|j: int| 0 <= j < i ==> s@[j] == prefix@[j],
        decreases prefix.len() - i,
    {
        if s[i] != prefix[i] {
            assert(s@.take(prefix@.len() as int)[i as int] != prefix@[i as int]);
            return false;
        }
        i += 1;
    }
    assert(s@.take(prefix@.len() as int) =~= prefix@);
    true
}

/// Whether string `s` begins with string `prefix`.
pub fn str_starts_with(s: &str, prefix: &str) -> (r: bool)
    ensures
        r == starts_with(s@, prefix@),
{
    let cs = chars_of(s);
    let cp = chars_of(prefix);
    chars_start_with(cs.as_slice(), cp.as_slice())
}

/// The position of the first `c` in `s`, if any.
pub fn find_char(s: &[char], c: char) -> (r: Option<usize>)
    ensures
        match r {
            Some(i) => first_at(s@, c, i as int),
            None => forall|j: int| 0 <= j < s@.len() ==> s@[j] != c,
        },
{
    let mut i: usize = 0;
    while i < s.len()
        invariant
            i <= s.len(),
            forall|j: int| 0 <= j < i ==> s@[j] != c,
        decreases s.len() - i,
    {
        if s[i] == c {
            return Some(i);
        }
        i += 1;
    }
    None
}

/// The characters `s[from..to]` as a new vector.
pub fn slice_chars(s: &[char], from: usize, to: usize) -> (r: Vec<char>)
    requires
        from <= to <= s@.len(),
    ensures
        r@ == s@.subrange(from as int, to as int),
{
    let mut out: Vec<char> = Vec::new();
    let mut i: usize = from;
    while i < to
        invariant
            from <= i <= to <= s@.len(),
            out@ == s@.subrange(from as int, i as int),
        decreases to - i,
    {
        out.push(s[i]);
        i += 1;
        assert(out@ =~= s@.subrange(from as int, i as int));
    }
    out
}

/// The parts before and after the first `sep` (`str::split_once` with a character).
pub fn split_once_chars(s: &[char], sep: char) -> (r: Option<(Vec<char>, Vec<char>)>)
    ensures
        match r {
            Some((a, b)) => split_once(s@, sep) == Some((a@, b@)),
            None => split_once(s@, sep) is None,
        },
{
    match find_char(s, sep) {
        Some(i) => {
            assert(i < s.len());
            let a = slice_chars(s, 0, i);
            let b = slice_chars(s, i + 1, s.len());
            proof {
                lemma_split_once_at(s@, sep, i as int);
                assert(a@ =~= s@.take(i as int));
                assert(b@ =~= s@.skip(i + 1));
            }
            Some((a, b))
        },
        None => {
            proof {
                lemma_split_none(s@, sep);
            }
            None
        },
    }
}

/// The views of a vector of character vectors.
pub open spec fn views(v: Seq<Vec<char>>) -> Seq<Seq<char>> {
    v.map_values(|x: Vec<char>| x@)
}

/// The pieces of `s` between its `sep` characters (`str::split` with a character).
pub fn split_chars(s: &[char], sep: char) -> (r: Vec<Vec<char>>)
    ensures
        views(r@) == split_all(s@, sep),
{
    let mut done: Vec<Vec<char>> = Vec::new();
    let mut start: usize = 0;
    let mut i: usize = 0;
    assert(s@.skip(0) =~= s@);
    assert(views(done@) =~= Seq::<Seq<char>>::empty());
    while i < s.len()
        invariant
            start <= i <= s@.len(),
            forall|j: int| start <= j < i ==> s@[j] != sep,
            split_all(s@, sep) == views(done@) + split_all(s@.skip(start as int), sep),
        decreases s.len() - i,
    {
        if s[i] == sep {
            let piece = slice_chars(s, start, i);
            proof {
                let t = s@.skip(start as int);
                let k = (i - start) as int;
                assert(first_at(t, sep, k));
                lemma_split_once_at(t, sep, k);
                assert(t.take(k) =~= piece@);
                assert(t.skip(k + 1) =~= s@.skip(i + 1));
            }
            let ghost before = done@;
            done.push(piece);
            proof {
                assert(views(done@) =~= views(before) + seq![piece@]);
            }
            start = i + 1;
        }
        i += 1;
    }
    let last = slice_chars(s, start, s.len());
    proof {
        let t = s@.skip(start as int);
        assert forall|j: int| 0 <= j < t.len() implies t[j] != sep by {
            assert(t[j] == s@[start + j]);
        }
        lemma_split_none(t, sep);
        assert(last@ =~= t);
    }
    let ghost before = done@;
    done.push(last);
    proof {
        assert(views(done@) =~= views(before) + seq![last@]);
    }
    done
}


/// The characters Rust's `char::is_whitespace` accepts (the Unicode `White_Space` set).
pub open spec fn is_space(c: char) -> bool {
    ||| '\t' <= c && c <= '\r'
    ||| c == ' '
    ||| c == '\u{85}'
    ||| c == '\u{A0}'
    ||| c == '\u{1680}'
    ||| '\u{2000}' <= c && c <= '\u{200A}'
    ||| c == '\u{2028}'
    ||| c == '\u{2029}'
    ||| c == '\u{202F}'
    ||| c == '\u{205F}'
    ||| c == '\u{3000}'
}

/// `a` is the first and `b` the last position of `s` that holds a non-space character.
pub open spec fn kept_span(s: Seq<char>, a: int, b: int) -> bool {
    &&& 0 <= a <= b < s.len()
    &&& !is_space(s[a])
    &&& !is_space(s[b])
    &&& forall|j: int| 0 <= j < a ==> is_space(s[j])
    &&& forall|j: int| b < j < s.len() ==> is_space(s[j])
}

/// `s` without leading and trailing white space (what `str::trim` gives).
pub open spec fn trimmed(s: Seq<char>) -> Seq<char> {
    if exists|a: int, b: int| kept_span(s, a, b) {
        let (a, b) = choose|a: int, b: int| kept_span(s, a, b);
        s.subrange(a, b + 1)
    } else {
        Seq::empty()
    }
}

/// The span of kept characters is unique.
pub proof fn lemma_kept_span_unique(s: Seq<char>, a: int, b: int, c: int, d: int)
    requires
        kept_span(s, a, b),
        kept_span(s, c, d),
    ensures
        a == c && b == d,
{
    if a < c {
        assert(is_space(s[a]));
    }
    if c < a {
        assert(is_space(s[c]));
    }
    if b < d {
        assert(is_space(s[d]));
    }
    if d < b {
        assert(is_space(s[b]));
    }
}

/// `trimmed` at a known span.
pub proof fn lemma_trimmed_at(s: Seq<char>, a: int, b: int)
    requires
        kept_span(s, a, b),
    ensures
        trimmed(s) == s.subrange(a, b + 1),
{
    let (c, d) = choose|c: int, d: int| kept_span(s, c, d);
    lemma_kept_span_unique(s, a, b, c, d);
}

/// `trimmed` of a sequence that holds only spaces.
pub proof fn lemma_trimmed_blank(s: Seq<char>)
    requires
        forall|j: int| 0 <= j < s.len() ==> is_space(s[j]),
    ensures
        trimmed(s) == Seq::<char>::empty(),
{
    if exists|a: int, b: int| kept_span(s, a, b) {
        let (a, b) = choose|a: int, b: int| kept_span(s, a, b);
        assert(is_space(s[a]));
    }
}

/// A sequence without spaces at its ends is its own trim.
pub proof fn lemma_trimmed_clean(s: Seq<char>)
    requires
        s.len() > 0,
        !is_space(s[0]),
        !is_space(s[s.len() - 1]),
    ensures
        trimmed(s) == s,
{
    assert(kept_span(s, 0, s.len() - 1));
    lemma_trimmed_at(s, 0, s.len() - 1);
    assert(s.subrange(0, s.len() as int) =~= s);
}

/// Trimming twice is trimming once.
pub proof fn lemma_trimmed_idempotent(s: Seq<char>)
    ensures
        trimmed(trimmed(s)) == trimmed(s),
{
    if exists|a: int, b: int| kept_span(s, a, b) {
        let (a, b) = choose|a: int, b: int| kept_span(s, a, b);
        let t = s.subrange(a, b + 1);
        assert(t[0] == s[a]);
        assert(t[t.len() - 1] == s[b]);
        lemma_trimmed_clean(t);
    } else {
        lemma_trimmed_blank(Seq::<char>::empty());
    }
}

/// Whether `c` is white space (`char::is_whitespace`).
pub fn is_space_char(c: char) -> (r: bool)
    ensures
        r == is_space(c),
{
    (c >= '\t' && c <= '\r') || c == ' ' || c == '\u{85}' || c == '\u{A0}' || c == '\u{1680}'
        || (c >= '\u{2000}' && c <= '\u{200A}') || c == '\u{2028}' || c == '\u{2029}'
        || c == '\u{202F}' || c == '\u{205F}' || c == '\u{3000}'
}

/// `s` without leading and trailing white space (`str::trim`).
pub fn trim(s: &str) -> (r: String)
    ensures
        r@ == trimmed(s@),
{
    let cs = chars_of(s);
    let n = cs.len();
    let mut a: usize = 0;
    while a < n && is_space_char(cs[a])
        invariant
            cs@ == s@,
            n == cs@.len(),
            a <= n,
            forall|j: int| 0 <= j < a ==> is_space(cs@[j]),
        decreases n - a,
    {
        a += 1;
    }
    if a == n {
        proof {
            lemma_trimmed_blank(s@);
        }
        return string_of(&[]);
    }
    let mut b: usize = n - 1;
    while is_space_char(cs[b])
        invariant
            cs@ == s@,
            n == cs@.len(),
            a <= b < n,
            !is_space(cs@[a as int]),
            forall|j: int| b < j < n ==> is_space(cs@[j]),
        decreases b,
    {
        b -= 1;
    }
    proof {
        assert(kept_span(s@, a as int, b as int));
        lemma_trimmed_at(s@, a as int, b as int);
    }
    let kept = slice_chars(cs.as_slice(), a, b + 1);
    string_of(kept.as_slice())
}

/// `i` is where the first occurrence of `needle` in `s` starts.
pub open spec fn first_occurrence(s: Seq<char>, needle: Seq<char>, i: int) -> bool {
    occurs_at(s, needle, i) && forall|j: int| 0 <= j < i ==> !occurs_at(s, needle, j)
}

/// `s` with every occurrence of `needle`, taken left to right without overlap, replaced by
/// `rep` (what `str::replace` gives for a non-empty pattern).
pub open spec fn replace_all(s: Seq<char>, needle: Seq<char>, rep: Seq<char>) -> Seq<char>
    decreases s.len(),
{
    if needle.len() > 0 && exists|i: int| first_occurrence(s, needle, i) {
        let i = choose|i: int| first_occurrence(s, needle, i);
        s.take(i) + rep + replace_all(s.skip(i + needle.len()), needle, rep)
    } else {
        s
    }
}

/// First occurrences are unique.
pub proof fn lemma_first_occurrence_unique(s: Seq<char>, needle: Seq<char>, i: int, j: int)
    requires
        first_occurrence(s, needle, i),
        first_occurrence(s, needle, j),
    ensures
        i == j,
{
}

/// Occurrences in a suffix are occurrences in the whole, shifted.
pub proof fn lemma_occurs_skip(s: Seq<char>, needle: Seq<char>, k: int, j: int)
    requires
        0 <= k <= s.len(),
        0 <= j,
    ensures
        occurs_at(s.skip(k), needle, j) == occurs_at(s, needle, j + k),
{
    if j + needle.len() <= s.len() - k {
        assert(s.skip(k).subrange(j, j + needle.len()) =~= s.subrange(j + k, j + k + needle.len()));
    }
}

/// `replace_all` where a match starts at the front.
pub proof fn lemma_replace_match(s: Seq<char>, needle: Seq<char>, rep: Seq<char>)
    requires
        needle.len() > 0,
        occurs_at(s, needle, 0),
    ensures
        replace_all(s, needle, rep) == rep + replace_all(s.skip(needle.len() as int), needle, rep),
{
    assert(first_occurrence(s, needle, 0));
    let i = choose|i: int| first_occurrence(s, needle, i);
    lemma_first_occurrence_unique(s, needle, 0, i);
    assert(s.take(0) + rep =~= rep);
}

/// `replace_all` where no match starts at the front.
pub proof fn lemma_replace_skip(s: Seq<char>, needle: Seq<char>, rep: Seq<char>)
    requires
        needle.len() > 0,
        s.len() > 0,
        !occurs_at(s, needle, 0),
    ensures
        replace_all(s, needle, rep) == seq![s[0]] + replace_all(s.skip(1), needle, rep),
{
    let t = s.skip(1);
    if exists|i: int| first_occurrence(s, needle, i) {
        let i = choose|i: int| first_occurrence(s, needle, i);
        assert(i > 0);
        lemma_occurs_skip(s, needle, 1, i - 1);
        assert forall|j: int| 0 <= j < i - 1 implies !occurs_at(t, needle, j) by {
            lemma_occurs_skip(s, needle, 1, j);
        }
        assert(first_occurrence(t, needle, i - 1));
        let k = choose|k: int| first_occurrence(t, needle, k);
        lemma_first_occurrence_unique(t, needle, i - 1, k);
        assert(t.skip(i - 1 + needle.len()) =~= s.skip(i + needle.len()));
        assert(s.take(i) =~= seq![s[0]] + t.take(i - 1));
    } else {
        if exists|k: int| first_occurrence(t, needle, k) {
            let k = choose|k: int| first_occurrence(t, needle, k);
            lemma_occurs_skip(s, needle, 1, k);
            assert forall|j: int| 0 <= j < k + 1 implies !occurs_at(s, needle, j) by {
                if j > 0 {
                    lemma_occurs_skip(s, needle, 1, j - 1);
                }
            }
            assert(first_occurrence(s, needle, k + 1));
        }
        assert(s =~= seq![s[0]] + t);
    }
}

/// Whether `needle` occurs in `s` at position `i`.
pub fn chars_occur_at(s: &[char], needle: &[char], i: usize) -> (r: bool)
    ensures
        r == occurs_at(s@, needle@, i as int),
{
    if i > s.len() || needle.len() > s.len() - i {
        return false;
    }
    let mut j: usize = 0;
    while j < needle.len()
        invariant
            i + needle.len() <= s.len(),
            j <= needle.len(),
            forall|k: int| 0 <= k < j ==> s@[i + k] == needle@[k],
        decreases needle.len() - j,
    {
        if s[i + j] != needle[j] {
            assert(s@.subrange(i as int, i + needle.len())[j as int] != needle@[j as int]);
            return false;
        }
        j += 1;
    }
    assert(s@.subrange(i as int, i + needle.len()) =~= needle@);
    true
}

/// `s` with every occurrence of a non-empty `needle` replaced by `rep` (`str::replace`).
pub fn replace(s: &str, needle: &str, rep: &str) -> (r: String)
    requires
        needle@.len() > 0,
    ensures
        r@ == replace_all(s@, needle@, rep@),
{
    let cs = chars_of(s);
    let cn = chars_of(needle);
    let cr = chars_of(rep);
    let n = cs.len();
    let mut out: Vec<char> = Vec::new();
    let mut i: usize = 0;
    assert(cs@.skip(0) =~= cs@);
    while i < n
        invariant
            cs@ == s@,
            cn@ == needle@,
            cr@ == rep@,
            n == cs@.len(),
            cn@.len() > 0,
            i <= n,
            replace_all(s@, needle@, rep@) == out@ + replace_all(cs@.skip(i as int), needle@, rep@),
        decreases n - i,
    {
        let ghost t = cs@.skip(i as int);
        if chars_occur_at(cs.as_slice(), cn.as_slice(), i) {
            proof {
                lemma_occurs_skip(cs@, needle@, i as int, 0);
                lemma_replace_match(t, needle@, rep@);
                assert(t.skip(needle@.len() as int) =~= cs@.skip(i + cn@.len()));
            }
            let ghost before = out@;
            let mut k: usize = 0;
            while k < cr.len()
                invariant
                    k <= cr@.len(),
                    out@ == before + cr@.take(k as int),
                decreases cr.len() - k,
            {
                out.push(cr[k]);
                k += 1;
                assert(out@ =~= before + cr@.take(k as int));
            }
            assert(cr@.take(cr@.len() as int) =~= cr@);
            assert(before + rep@ + replace_all(cs@.skip(i + cn@.len()), needle@, rep@) =~= out@ + replace_all(cs@.skip(i + cn@.len()), needle@, rep@));
            i = i + cn.len();
        } else {
            proof {
                lemma_occurs_skip(cs@, needle@, i as int, 0);
                lemma_replace_skip(t, needle@, rep@);
                assert(t.skip(1) =~= cs@.skip(i + 1));
            }
            let ghost before = out@;
            out.push(cs[i]);
            assert(before + seq![t[0]] + replace_all(cs@.skip(i + 1), needle@, rep@) =~= out@ + replace_all(cs@.skip(i + 1), needle@, rep@));
            i += 1;
        }
    }
    assert(cs@.skip(n as int) =~= Seq::<char>::empty());
    assert(out@ + Seq::<char>::empty() =~= out@);
    string_of(out.as_slice())
}

/// Whether `needle` occurs anywhere in `s` (`str::contains` for a string pattern).
pub fn contains(s: &str, needle: &str) -> (r: bool)
    ensures
        r == occurs(s@, needle@),
{
    let cs = chars_of(s);
    let cn = chars_of(needle);
    let mut i: usize = 0;
    while i < cs.len()
        invariant
            cs@ == s@,
            cn@ == needle@,
            i <= cs@.len(),
            forall|j: int| 0 <= j < i ==> !occurs_at(s@, needle@, j),
        decreases cs.len() - i,
    {
        if chars_occur_at(cs.as_slice(), cn.as_slice(), i) {
            return true;
        }
        i += 1;
    }
    if chars_occur_at(cs.as_slice(), cn.as_slice(), cs.len()) {
        return true;
    }
    assert forall|j: int| !occurs_at(s@, needle@, j) by {
        if 0 <= j <= cs@.len() {
        }
    }
    false
}

/// Whether two character sequences are equal.
pub fn chars_equal(a: &[char], b: &[char]) -> (r: bool)
    ensures
        r == (a@ == b@),
{
    if a.len() != b.len() {
        return false;
    }
    let mut i: usize = 0;
    while i < a.len()
        invariant
            a.len() == b.len(),
            i <= a.len(),
            forall|j: int| 0 <= j < i ==> a@[j] == b@[j],
        decreases a.len() - i,
    {
        if a[i] != b[i] {
            return false;
        }
        i += 1;
    }
    assert(a@ =~= b@);
    true
}

/// Whether two strings are equal.
pub fn str_equal(a: &str, b: &str) -> (r: bool)
    ensures
        r == (a@ == b@),
{
    let ca = chars_of(a);
    let cb = chars_of(b);
    chars_equal(ca.as_slice(), cb.as_slice())
}

/// The texts of a sequence of strings.
pub open spec fn texts(v: Seq<String>) -> Seq<Seq<char>> {
    v.map_values(|s: String| s@)
}

/// An occurrence implies a first occurrence.
pub proof fn lemma_first_occurrence_exists(s: Seq<char>, needle: Seq<char>, j: int)
    requires
        occurs_at(s, needle, j),
    ensures
        exists|i: int| first_occurrence(s, needle, i),
    decreases j,
{
    if exists|k: int| 0 <= k < j && occurs_at(s, needle, k) {
        let k = choose|k: int| 0 <= k < j && occurs_at(s, needle, k);
        lemma_first_occurrence_exists(s, needle, k);
    } else {
        assert(first_occurrence(s, needle, j));
    }
}

/// Replacing cannot leave an occurrence behind when the replacement holds no first character of
/// the needle and no later character of the needle is the replacement's first character.
pub proof fn lemma_replace_all_removes(s: Seq<char>, needle: Seq<char>, rep: Seq<char>)
    requires
        needle.len() > 0,
        rep.len() > 0,
        forall|k: int| 0 <= k < rep.len() ==> rep[k] != needle[0],
        forall|m: int| 1 <= m < needle.len() ==> needle[m] != rep[0],
    ensures
        !occurs(replace_all(s, needle, rep), needle),
    decreases s.len(),
{
    if exists|i: int| first_occurrence(s, needle, i) {
        let i = choose|i: int| first_occurrence(s, needle, i);
        let pre = s.take(i);
        let rest = s.skip(i + needle.len());
        let tail = replace_all(rest, needle, rep);
        lemma_replace_all_removes(rest, needle, rep);
        let out = pre + rep + tail;
        assert(replace_all(s, needle, rep) == out);
        assert forall|j: int| !occurs_at(out, needle, j) by {
            if occurs_at(out, needle, j) {
                if j + needle.len() <= i {
                    assert(s.subrange(j, j + needle.len()) =~= out.subrange(j, j + needle.len()));
                    assert(occurs_at(s, needle, j));
                } else if j < i {
                    let m = i - j;
                    assert(out.subrange(j, j + needle.len())[m] == out[i]);
                    assert(out[i] == rep[0]);
                    assert(needle[m] == rep[0]);
                } else if j < i + rep.len() {
                    assert(out.subrange(j, j + needle.len())[0] == out[j]);
                    assert(out[j] == rep[j - i]);
                } else {
                    let k = j - i - rep.len();
                    assert(tail.subrange(k, k + needle.len()) =~= out.subrange(j, j + needle.len()));
                    assert(occurs_at(tail, needle, k));
                }
            }
        }
    } else {
        if occurs(s, needle) {
            let j = choose|j: int| occurs_at(s, needle, j);
            lemma_first_occurrence_exists(s, needle, j);
        }
    }
}

} // verus!
