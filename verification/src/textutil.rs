use vstd::prelude::*;
use vstd::string::StringSliceAdditionalSpecFns;
use vstd::utf8::encode_utf8_decode_utf8;

verus! {

/// Compares two byte slices for equality.
pub fn bytes_eq(a: &[u8], b: &[u8]) -> (r: bool)
    ensures
        r == (a@ == b@),
{
    if a.len() != b.len() {
        return false;
    }
    let mut i: usize = 0;
    while i < a.len()
        invariant
            i <= a@.len() == b@.len(),
            forall|k: int| 0 <= k < i ==> a@[k] == b@[k],
        decreases a@.len() - i,
    {
        if a[i] != b[i] {
            return false;
        }
        i = i + 1;
    }
    proof {
        assert(a@ =~= b@);
    }
    true
}

/// Compares two strings for equality, by their UTF-8 bytes.
pub fn str_eq(a: &str, b: &str) -> (r: bool)
    ensures
        r == (a@ == b@),
{
    let r = bytes_eq(a.as_bytes(), b.as_bytes());
    proof {
        if a.spec_bytes() == b.spec_bytes() {
            encode_utf8_decode_utf8(a@);
            encode_utf8_decode_utf8(b@);
        }
    }
    r
}

/// Whether a character has the Unicode White_Space property.
pub uninterp spec fn is_ws_char(c: char) -> bool;

/// Relies on char::is_whitespace: whether the character has the Unicode
/// White_Space property, a property of the character alone.
#[verifier::external_body]
pub fn char_is_whitespace(c: char) -> (r: bool)
    ensures
        r == is_ws_char(c),
{
    c.is_whitespace()
}

/// Relies on String::from_iter: collects the characters into a string, in
/// order.
#[verifier::external_body]
pub fn string_from_chars(v: &Vec<char>) -> (r: String)
    ensures
        r@ == v@,
{
    v.iter().collect()
}

/// The characters of a string, as a vector.
pub fn chars_vec(s: &str) -> (r: Vec<char>)
    ensures
        r@ == s@,
{
    let n = s.unicode_len();
    let mut out: Vec<char> = Vec::new();
    let mut i: usize = 0;
    while i < n
        invariant
            i <= n == s@.len(),
            out@ == s@.subrange(0, i as int),
        decreases n - i,
    {
        out.push(s.get_char(i));
        i = i + 1;
        assert(out@ =~= s@.subrange(0, i as int));
    }
    proof {
        assert(s@.subrange(0, s@.len() as int) =~= s@);
    }
    out
}

/// What is left after the leading whitespace goes.
pub open spec fn trim_start_spec(s: Seq<char>) -> Seq<char>
    decreases s.len(),
{
    if s.len() > 0 && is_ws_char(s[0]) {
        trim_start_spec(s.drop_first())
    } else {
        s
    }
}

/// What is left after the trailing whitespace goes.
pub open spec fn trim_end_spec(s: Seq<char>) -> Seq<char>
    decreases s.len(),
{
    if s.len() > 0 && is_ws_char(s[s.len() - 1]) {
        trim_end_spec(s.drop_last())
    } else {
        s
    }
}

/// What is left after whitespace goes from both ends.
pub open spec fn trim_spec(s: Seq<char>) -> Seq<char> {
    trim_end_spec(trim_start_spec(s))
}

proof fn lemma_trim_start_at(s: Seq<char>, a: int)
    requires
        0 <= a <= s.len(),
        forall|k: int| 0 <= k < a ==> is_ws_char(s[k]),
        a < s.len() ==> !is_ws_char(s[a]),
    ensures
        trim_start_spec(s) =~= s.subrange(a, s.len() as int),
    decreases a,
{
    if a == 0 {
        assert(s.subrange(0, s.len() as int) =~= s);
    } else {
        lemma_trim_start_at(s.drop_first(), a - 1);
        assert(s.drop_first().subrange(a - 1, s.drop_first().len() as int) =~= s.subrange(
            a,
            s.len() as int,
        ));
    }
}

proof fn lemma_trim_end_at(s: Seq<char>, b: int)
    requires
        0 <= b <= s.len(),
        forall|k: int| b <= k < s.len() ==> is_ws_char(s[k]),
        b > 0 ==> !is_ws_char(s[b - 1]),
    ensures
        trim_end_spec(s) =~= s.subrange(0, b),
    decreases s.len() - b,
{
    if b == s.len() {
        assert(s.subrange(0, s.len() as int) =~= s);
    } else {
        lemma_trim_end_at(s.drop_last(), b);
        assert(s.drop_last().subrange(0, b) =~= s.subrange(0, b));
    }
}

/// Removes the whitespace at both ends of a string.
pub fn trim(s: &str) -> (r: &str)
    ensures
        r@ == trim_spec(s@),
{
    let n = s.unicode_len();
    let mut a: usize = 0;
    while a < n && char_is_whitespace(s.get_char(a))
        invariant
            a <= n == s@.len(),
            forall|k: int| 0 <= k < a ==> is_ws_char(s@[k]),
        decreases n - a,
    {
        a = a + 1;
    }
    let mut b: usize = n;
    while b > a && char_is_whitespace(s.get_char(b - 1))
        invariant
            a <= b <= n == s@.len(),
            forall|k: int| 0 <= k < a ==> is_ws_char(s@[k]),
            forall|k: int| b <= k < n ==> is_ws_char(s@[k]),
            a < s@.len() ==> !is_ws_char(s@[a as int]),
        decreases b,
    {
        b = b - 1;
    }
    let r = s.substring_char(a, b);
    proof {
        lemma_trim_start_at(s@, a as int);
        let t = s@.subrange(a as int, s@.len() as int);
        lemma_trim_end_at(t, b - a);
        assert(t.subrange(0, b - a) =~= s@.subrange(a as int, b as int));
    }
    r
}

/// The index of the first whitespace character, or the length when there is
/// none.
pub open spec fn first_ws(s: Seq<char>) -> int
    decreases s.len(),
{
    if s.len() == 0 {
        0
    } else if is_ws_char(s[0]) {
        0
    } else {
        1 + first_ws(s.drop_first())
    }
}

proof fn lemma_first_ws_at(s: Seq<char>, w: int)
    requires
        0 <= w <= s.len(),
        forall|k: int| 0 <= k < w ==> !is_ws_char(s[k]),
        w < s.len() ==> is_ws_char(s[w]),
    ensures
        first_ws(s) == w,
    decreases w,
{
    if w == 0 {
    } else {
        lemma_first_ws_at(s.drop_first(), w - 1);
    }
}

/// Finds the first whitespace character of a string.
pub fn find_first_ws(s: &str) -> (w: usize)
    ensures
        w == first_ws(s@),
        w <= s@.len(),
{
    let n = s.unicode_len();
    let mut w: usize = 0;
    while w < n && !char_is_whitespace(s.get_char(w))
        invariant
            w <= n == s@.len(),
            forall|k: int| 0 <= k < w ==> !is_ws_char(s@[k]),
        decreases n - w,
    {
        w = w + 1;
    }
    proof {
        lemma_first_ws_at(s@, w as int);
    }
    w
}

} // verus!
