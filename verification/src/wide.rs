//! UTF-16 ("wide") strings as the Windows API takes and gives them.
use vstd::prelude::*;

use crate::text::chars_of;

verus! {

/// The UTF-16 code units of one character (what `char::encode_utf16` writes).
pub open spec fn utf16_of(c: char) -> Seq<u16> {
    let v = c as u32;
    if v < 0x10000 {
        seq![v as u16]
    } else {
        let w = (v - 0x10000) as u32;
        seq![(0xD800 + w / 1024) as u16, (0xDC00 + w % 1024) as u16]
    }
}

/// The UTF-16 code units of a character sequence (what `str::encode_utf16` yields).
pub open spec fn utf16_encode(s: Seq<char>) -> Seq<u16>
    decreases s.len(),
{
    if s.len() == 0 {
        Seq::empty()
    } else {
        utf16_encode(s.drop_last()) + utf16_of(s.last())
    }
}

/// A leading (high) surrogate.
pub open spec fn is_high_surrogate(u: u16) -> bool {
    0xD800 <= u <= 0xDBFF
}

/// A trailing (low) surrogate.
pub open spec fn is_low_surrogate(u: u16) -> bool {
    0xDC00 <= u <= 0xDFFF
}

/// The scalar value a surrogate pair stands for.
pub open spec fn pair_scalar(high: u16, low: u16) -> u32 {
    (0x10000 + (high - 0xD800) * 0x400 + (low - 0xDC00)) as u32
}

/// What `String::from_utf16_lossy` makes of code units: a high surrogate followed by a low one is
/// one character; any other surrogate becomes U+FFFD; every other unit is the character with its
/// value.
pub open spec fn utf16_lossy(units: Seq<u16>) -> Seq<char>
    decreases units.len(),
{
    if units.len() == 0 {
        Seq::empty()
    } else if units.len() >= 2 && is_high_surrogate(units[0]) && is_low_surrogate(units[1]) {
        seq![pair_scalar(units[0], units[1]) as char] + utf16_lossy(units.skip(2))
    } else if is_high_surrogate(units[0]) || is_low_surrogate(units[0]) {
        seq!['\u{FFFD}'] + utf16_lossy(units.skip(1))
    } else {
        seq![(units[0] as u32) as char] + utf16_lossy(units.skip(1))
    }
}

/// Decodes UTF-16 code units, replacing each surrogate that is not part of a pair with U+FFFD
/// (`String::from_utf16_lossy`, as its documentation describes it).
#[verifier::external_body]
pub(crate) fn decode_utf16_lossy(units: &[u16]) -> (r: String)
    ensures
        r@ == utf16_lossy(units@),
{
    String::from_utf16_lossy(units)
}

/// The encoding of a non-empty text is its first character's units followed by the encoding of
/// the rest.
pub proof fn lemma_utf16_encode_front(s: Seq<char>)
    requires
        s.len() > 0,
    ensures
        utf16_encode(s) == utf16_of(s[0]) + utf16_encode(s.skip(1)),
    decreases s.len(),
{
    if s.len() == 1 {
        assert(s.drop_last() =~= Seq::<char>::empty());
        assert(s.skip(1) =~= Seq::<char>::empty());
        assert(utf16_of(s[0]) + Seq::<u16>::empty() =~= utf16_of(s[0]));
    } else {
        let d = s.drop_last();
        lemma_utf16_encode_front(d);
        assert(d.skip(1) =~= s.skip(1).drop_last());
        assert(s.skip(1).last() == s.last());
        assert(utf16_of(s[0]) + utf16_encode(d.skip(1)) + utf16_of(s.last()) =~= utf16_of(s[0])
            + (utf16_encode(d.skip(1)) + utf16_of(s.last())));
    }
}

/// Decoding a character's units followed by anything gives the character followed by the
/// decoding of the rest.
pub proof fn lemma_utf16_lossy_char(c: char, rest: Seq<u16>)
    ensures
        utf16_lossy(utf16_of(c) + rest) == seq![c] + utf16_lossy(rest),
{
    vstd::utf8::char_is_scalar(c);
    let v = c as u32;
    vstd::utf8::char_u32_cast(c, v);
    let u = utf16_of(c) + rest;
    if v < 0x10000 {
        assert(u[0] == v as u16);
        assert((u[0] as u32) == v);
        assert(u.skip(1) =~= rest);
    } else {
        let w = (v - 0x10000) as u32;
        let high = (0xD800 + w / 1024) as u16;
        let low = (0xDC00 + w % 1024) as u16;
        assert(w / 1024 * 1024 + w % 1024 == w) by (nonlinear_arith)
            requires
                w >= 0,
        ;
        assert(w / 1024 <= 0x3FF) by (nonlinear_arith)
            requires
                w <= 0xFFFFF,
        ;
        assert(u[0] == high && u[1] == low);
        assert(pair_scalar(high, low) == v);
        assert(u.skip(2) =~= rest);
    }
}

/// Valid UTF-16, the encoding of a text, decodes to that text.
pub proof fn lemma_utf16_lossy_encode(s: Seq<char>)
    ensures
        utf16_lossy(utf16_encode(s)) == s,
    decreases s.len(),
{
    if s.len() > 0 {
        lemma_utf16_encode_front(s);
        lemma_utf16_lossy_char(s[0], utf16_encode(s.skip(1)));
        lemma_utf16_lossy_encode(s.skip(1));
        assert(seq![s[0]] + s.skip(1) =~= s);
    }
}

/// The position of the first zero unit, or the length when there is none.
pub open spec fn nul_position(units: Seq<u16>, p: int) -> bool {
    &&& 0 <= p <= units.len()
    &&& p < units.len() ==> units[p] == 0
    &&& forall|j: int| 0 <= j < p ==> units[j] != 0
}

/// A zero-terminated wide string: the text encoded as UTF-16, followed by one zero unit.
pub fn wide(text: &str) -> (r: Vec<u16>)
    ensures
        r@ == utf16_encode(text@).push(0),
{
    let cs = chars_of(text);
    let mut out: Vec<u16> = Vec::new();
    let mut i: usize = 0;
    assert(cs@.take(0) =~= Seq::<char>::empty());
    while i < cs.len()
        invariant
            cs@ == text@,
            i <= cs@.len(),
            out@ == utf16_encode(cs@.take(i as int)),
        decreases cs.len() - i,
    {
        let c = cs[i];
        let v: u32 = c as u32;
        let ghost before = out@;
        proof {
            assert(cs@.take(i + 1).drop_last() =~= cs@.take(i as int));
        }
        if v < 0x10000 {
            out.push(v as u16);
        } else {
            let w: u32 = v - 0x10000;
            assert(w < 0x100000) by {
                vstd::utf8::char_is_scalar(c);
            }
            out.push((0xD800 + w / 1024) as u16);
            out.push((0xDC00 + w % 1024) as u16);
        }
        i += 1;
        assert(out@ =~= before + utf16_of(c));
    }
    assert(cs@.take(cs@.len() as int) =~= cs@);
    out.push(0);
    out
}

/// The text of a zero-terminated wide buffer: the units before the first zero (all of them when
/// there is none), decoded leniently. What [`wide`] wrote for a text without NUL characters reads
/// back as that text.
pub fn wide_to_string(value: &[u16]) -> (r: String)
    ensures
        exists|p: int| nul_position(value@, p) && r@ == utf16_lossy(value@.take(p)),
        forall|s: Seq<char>| !s.contains('\0') && value@ == utf16_encode(s).push(0) ==> r@ == s,
{
    let mut end: usize = 0;
    while end < value.len() && value[end] != 0
        invariant
            end <= value@.len(),
            forall|j: int| 0 <= j < end ==> value@[j] != 0,
        decreases value.len() - end,
    {
        end += 1;
    }
    let mut head: Vec<u16> = Vec::new();
    let mut k: usize = 0;
    while k < end
        invariant
            end <= value@.len(),
            k <= end,
            head@ == value@.take(k as int),
        decreases end - k,
    {
        head.push(value[k]);
        k += 1;
        assert(head@ =~= value@.take(k as int));
    }
    let r = decode_utf16_lossy(head.as_slice());
    assert(nul_position(value@, end as int));
    assert forall|s: Seq<char>| !s.contains('\0') && value@ == utf16_encode(s).push(0) implies r@ == s by {
        lemma_wide_read_back(s);
        lemma_utf16_lossy_encode(s);
        assert(end == utf16_encode(s).len());
    }
    r
}

/// The encoding of a character holds a zero unit only for the NUL character.
pub proof fn lemma_utf16_of_nonzero(c: char)
    requires
        c != '\0',
    ensures
        forall|j: int| 0 <= j < utf16_of(c).len() ==> utf16_of(c)[j] != 0,
{
    vstd::utf8::char_is_scalar(c);
    let v = c as u32;
    if v < 0x10000 {
        assert(v != 0) by {
            vstd::utf8::char_u32_cast(c, v);
        }
    }
}

/// The encoding of text without NUL characters holds no zero unit.
pub proof fn lemma_utf16_encode_nonzero(s: Seq<char>)
    requires
        !s.contains('\0'),
    ensures
        forall|j: int| 0 <= j < utf16_encode(s).len() ==> utf16_encode(s)[j] != 0,
    decreases s.len(),
{
    if s.len() > 0 {
        assert(!s.drop_last().contains('\0')) by {
            if s.drop_last().contains('\0') {
                let k = choose|k: int| 0 <= k < s.drop_last().len() && s.drop_last()[k] == '\0';
                assert(s[k] == '\0');
            }
        }
        lemma_utf16_encode_nonzero(s.drop_last());
        assert(s.last() != '\0') by {
            assert(s[s.len() - 1] == s.last());
        }
        lemma_utf16_of_nonzero(s.last());
        let a = utf16_encode(s.drop_last());
        let b = utf16_of(s.last());
        assert forall|j: int| 0 <= j < utf16_encode(s).len() implies utf16_encode(s)[j] != 0 by {
            if j < a.len() {
                assert(utf16_encode(s)[j] == a[j]);
            } else {
                assert(utf16_encode(s)[j] == b[j - a.len()]);
            }
        }
    }
}

/// Reading a wide string back stops at the terminator that `wide` adds, so it reads exactly the
/// text's encoding when the text holds no NUL character.
pub proof fn lemma_wide_read_back(s: Seq<char>)
    requires
        !s.contains('\0'),
    ensures
        nul_position(utf16_encode(s).push(0), utf16_encode(s).len() as int),
        forall|p: int| nul_position(utf16_encode(s).push(0), p) ==> p == utf16_encode(s).len(),
        utf16_encode(s).push(0).take(utf16_encode(s).len() as int) == utf16_encode(s),
{
    lemma_utf16_encode_nonzero(s);
    let e = utf16_encode(s);
    let w = e.push(0);
    assert forall|p: int| nul_position(w, p) implies p == e.len() by {
        if p < e.len() {
            assert(w[p] == e[p]);
        }
        if p > e.len() {
            assert(w[e.len() as int] == 0);
        }
    }
    assert(w.take(e.len() as int) =~= e);
}

} // verus!
