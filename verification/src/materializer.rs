use crate::textutil::{chars_vec, string_from_chars};
use vstd::prelude::*;

verus! {

/// The decimal digit character for one value under ten.
pub open spec fn digit_char(d: u64) -> char {
    ((48 + d) as u8) as char
}

/// The decimal digits of a number, most significant first.
pub open spec fn dec_digits(n: u64) -> Seq<char>
    decreases n,
{
    if n < 10 {
        seq![digit_char(n)]
    } else {
        dec_digits(n / 10).push(digit_char(n % 10))
    }
}

pub proof fn lemma_dec_digits_len(n: u64)
    ensures
        dec_digits(n).len() >= 1,
    decreases n,
{
    if n >= 10 {
        lemma_dec_digits_len(n / 10);
    }
}

/// Appends the decimal digits of a number.
fn push_dec(n: u64, out: &mut Vec<char>)
    ensures
        final (out)@ == old(out)@ + dec_digits(n),
    decreases n,
{
    if n < 10 {
        out.push((48 + n as u8) as char);
        assert(out@ =~= old(out)@ + dec_digits(n));
    } else {
        push_dec(n / 10, out);
        out.push((48 + (n % 10) as u8) as char);
        assert(out@ =~= old(out)@ + dec_digits(n));
    }
}

/// Renders a number in decimal.
pub fn u64_to_string(n: u64) -> (r: String)
    ensures
        r@ == dec_digits(n),
{
    let mut v: Vec<char> = Vec::new();
    push_dec(n, &mut v);
    string_from_chars(&v)
}

/// The largest index holding the character, or -1 when it is absent.
pub open spec fn last_index_of(s: Seq<char>, c: char) -> int
    decreases s.len(),
{
    if s.len() == 0 {
        -1
    } else if s[s.len() - 1] == c {
        s.len() - 1
    } else {
        last_index_of(s.drop_last(), c)
    }
}

pub proof fn lemma_last_index_bounds(s: Seq<char>, c: char)
    ensures
        -1 <= last_index_of(s, c) < s.len(),
    decreases s.len(),
{
    if s.len() > 0 && s[s.len() - 1] != c {
        lemma_last_index_bounds(s.drop_last(), c);
    }
}

proof fn lemma_last_index_at(s: Seq<char>, c: char, i: int)
    requires
        -1 <= i < s.len(),
        i >= 0 ==> s[i] == c,
        forall|k: int| i < k < s.len() ==> s[k] != c,
    ensures
        last_index_of(s, c) == i,
    decreases s.len(),
{
    if s.len() > 0 && i < s.len() - 1 {
        lemma_last_index_at(s.drop_last(), c, i);
    }
}

/// The base component of a name: what follows its last slash.
pub open spec fn base_of(s: Seq<char>) -> Seq<char> {
    s.subrange(last_index_of(s, '/') + 1, s.len() as int)
}

/// A base component that may be written under the save directory: not
/// empty, and no traversal to the current or parent directory.
pub open spec fn base_ok(b: Seq<char>) -> bool {
    b.len() > 0 && b != seq!['.'] && b != seq!['.', '.']
}

/// Finds the largest index holding the character.
fn rfind_char(v: &Vec<char>, c: char) -> (r: Option<usize>)
    ensures
        r matches Some(i) ==> i < v@.len() && last_index_of(v@, c) == i as int,
        r is None ==> last_index_of(v@, c) == -1,
{
    let mut i: usize = v.len();
    while i > 0
        invariant
            i <= v@.len(),
            forall|k: int| i <= k < v@.len() ==> v@[k] != c,
        decreases i,
    {
        i = i - 1;
        if v[i] == c {
            proof {
                lemma_last_index_at(v@, c, i as int);
            }
            return Some(i);
        }
    }
    proof {
        lemma_last_index_at(v@, c, -1);
    }
    None
}

/// Appends `v[from..to]`.
fn push_chars_range(out: &mut Vec<char>, v: &Vec<char>, from: usize, to: usize)
    requires
        from <= to <= v@.len(),
    ensures
        final (out)@ == old(out)@ + v@.subrange(from as int, to as int),
{
    let mut i: usize = from;
    while i < to
        invariant
            from <= i <= to <= v@.len(),
            out@ == old(out)@ + v@.subrange(from as int, i as int),
        decreases to - i,
    {
        out.push(v[i]);
        i = i + 1;
        assert(out@ =~= old(out)@ + v@.subrange(from as int, i as int));
    }
}

/// Extracts and checks the base component of a received file's name,
/// refusing empty names and path traversal. What is accepted is exactly
/// `base_of` the name.
pub fn sanitize_file_name(name: &str) -> (r: Option<String>)
    ensures
        r matches Some(b) ==> b@ == base_of(name@) && base_ok(base_of(name@)),
        r is None <==> !base_ok(base_of(name@)),
{
    let chars = chars_vec(name);
    let clen = chars.len();
    let start: usize = match rfind_char(&chars, '/') {
        Some(i) => {
            proof {
                assert(i < clen);
            }
            i + 1
        },
        None => 0,
    };
    let mut base: Vec<char> = Vec::new();
    push_chars_range(&mut base, &chars, start, chars.len());
    proof {
        assert(base@ =~= base_of(name@));
    }
    if base.len() == 0 {
        return None;
    }
    if base.len() == 1 && base[0] == '.' {
        proof {
            assert(base@ =~= seq!['.']);
        }
        return None;
    }
    if base.len() == 2 && base[0] == '.' && base[1] == '.' {
        proof {
            assert(base@ =~= seq!['.', '.']);
        }
        return None;
    }
    proof {
        assert(base@ != seq!['.'] && base@ != seq!['.', '.']) by {
            if base@.len() == 1 {
                assert(base@[0] != '.');
            }
            if base@.len() == 2 {
                assert(base@ =~= seq![base@[0], base@[1]]);
            }
        }
    }
    Some(string_from_chars(&base))
}

/// Where the extension starts in a path, or the length when it has none:
/// the last dot, if it falls inside the last component and not at its head.
pub open spec fn ext_start(s: Seq<char>) -> int {
    let dot = last_index_of(s, '.');
    if dot > last_index_of(s, '/') + 1 {
        dot
    } else {
        s.len() as int
    }
}

/// The path a colliding save falls back to: `_<timestamp>` inserted before
/// the extension, or appended when there is none.
pub open spec fn with_timestamp_spec(s: Seq<char>, ts: u64) -> Seq<char> {
    s.subrange(0, ext_start(s)) + seq!['_'] + dec_digits(ts) + s.subrange(
        ext_start(s),
        s.len() as int,
    )
}

/// Rewrites a target path that already exists on disk: `_<timestamp>` goes
/// in before the extension. The caller passes the current Unix time in
/// seconds; within one same-second window two saves can still aim at one
/// name, an accepted limitation of the policy.
pub fn resolve_collision(target: &str, ts: u64) -> (r: String)
    ensures
        r@ == with_timestamp_spec(target@, ts),
{
    let chars = chars_vec(target);
    let clen = chars.len();
    let dot: Option<usize> = rfind_char(&chars, '.');
    let slash: Option<usize> = rfind_char(&chars, '/');
    let cut: usize = match dot {
        Some(d) => {
            let after_slash: bool = match slash {
                Some(s) => {
                    proof {
                        assert(s < clen);
                    }
                    d > s + 1
                },
                None => d > 0,
            };
            if after_slash {
                d
            } else {
                chars.len()
            }
        },
        None => chars.len(),
    };
    proof {
        assert(cut as int == ext_start(target@));
    }
    let mut out: Vec<char> = Vec::new();
    push_chars_range(&mut out, &chars, 0, cut);
    out.push('_');
    push_dec(ts, &mut out);
    push_chars_range(&mut out, &chars, cut, chars.len());
    proof {
        assert(out@ =~= with_timestamp_spec(target@, ts));
    }
    string_from_chars(&out)
}

/// The path a received file is first aimed at: its sanitized base name
/// under the files directory. A name with no acceptable base is refused.
pub fn file_save_target(name: &str) -> (r: Option<String>)
    ensures
        r matches Some(t) ==> base_ok(base_of(name@)) && t@ == "files/"@ + base_of(name@),
        r is None <==> !base_ok(base_of(name@)),
{
    match sanitize_file_name(name) {
        Some(b) => {
            let mut t = String::from_str("files/");
            t.append(b.as_str());
            Some(t)
        },
        None => None,
    }
}

/// The path a received image is first aimed at: the current Unix time in
/// seconds, as a PNG file under the images directory.
pub fn image_save_target(ts: u64) -> (r: String)
    ensures
        r@ == "images/"@ + dec_digits(ts) + ".png"@,
{
    let mut t = String::from_str("images/");
    let digits = u64_to_string(ts);
    t.append(digits.as_str());
    t.append(".png");
    t
}

/// Collision-safe save: the fallback path is never the path that already
/// exists, so a second file of the same name goes to a fresh path and
/// nothing is overwritten.
pub proof fn lemma_collision_renames(s: Seq<char>, ts: u64)
    ensures
        with_timestamp_spec(s, ts).len() > s.len(),
        with_timestamp_spec(s, ts) != s,
{
    lemma_dec_digits_len(ts);
    lemma_last_index_bounds(s, '.');
    lemma_last_index_bounds(s, '/');
}

} // verus!
