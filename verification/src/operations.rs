use crate::csvfmt::{csv_render_spec, csv_table_of, parse_as_csv};
use crate::textutil::{
    char_is_whitespace, is_ws_char, string_from_chars, str_eq, trim, trim_spec,
};
use vstd::prelude::*;

verus! {

/// What str::to_lowercase returns for these characters.
pub uninterp spec fn lower_of(s: Seq<char>) -> Seq<char>;

/// What str::to_uppercase returns for these characters.
pub uninterp spec fn upper_of(s: Seq<char>) -> Seq<char>;

/// What slug::slugify returns for these characters.
pub uninterp spec fn slug_of(s: Seq<char>) -> Seq<char>;

/// What char::to_uppercase yields for this character.
pub uninterp spec fn char_upper_of(c: char) -> Seq<char>;

/// What char::to_lowercase yields for this character.
pub uninterp spec fn char_lower_of(c: char) -> Seq<char>;

/// Relies on str::to_lowercase: the result depends on the characters alone.
#[verifier::external_body]
fn to_lowercase_str(s: &str) -> (r: String)
    ensures
        r@ == lower_of(s@),
        s@.len() == 0 ==> r@.len() == 0,
{
    s.to_lowercase()
}

/// Relies on str::to_uppercase: the result depends on the characters alone.
#[verifier::external_body]
fn to_uppercase_str(s: &str) -> (r: String)
    ensures
        r@ == upper_of(s@),
        s@.len() == 0 ==> r@.len() == 0,
{
    s.to_uppercase()
}

/// Relies on slug::slugify: the result depends on the characters alone.
#[verifier::external_body]
fn slugify_str(s: &str) -> (r: String)
    ensures
        r@ == slug_of(s@),
{
    slug::slugify(s)
}

/// Relies on char::to_uppercase: the uppercase mapping of one character,
/// a property of the character alone.
#[verifier::external_body]
fn char_to_uppercase(c: char) -> (r: Vec<char>)
    ensures
        r@ == char_upper_of(c),
{
    c.to_uppercase().collect()
}

/// Relies on char::to_lowercase: the lowercase mapping of one character,
/// a property of the character alone.
#[verifier::external_body]
fn char_to_lowercase(c: char) -> (r: Vec<char>)
    ensures
        r@ == char_lower_of(c),
{
    c.to_lowercase().collect()
}

/// Lowercases a whole string.
pub fn lowercase(input: &str) -> (r: String)
    ensures
        r@ == lower_of(input@),
{
    to_lowercase_str(input)
}

/// Uppercases a whole string.
pub fn uppercase(input: &str) -> (r: String)
    ensures
        r@ == upper_of(input@),
{
    to_uppercase_str(input)
}

/// The string with every space character removed.
pub open spec fn no_spaces_spec(s: Seq<char>) -> Seq<char>
    decreases s.len(),
{
    if s.len() == 0 {
        Seq::empty()
    } else {
        no_spaces_spec(s.drop_last()) + (if s[s.len() - 1] == ' ' {
            Seq::<char>::empty()
        } else {
            seq![s[s.len() - 1]]
        })
    }
}

/// Removes every space character.
pub fn no_spaces(input: &str) -> (r: String)
    ensures
        r@ == no_spaces_spec(input@),
{
    let n = input.unicode_len();
    let mut out: Vec<char> = Vec::new();
    let mut i: usize = 0;
    while i < n
        invariant
            i <= n == input@.len(),
            out@ == no_spaces_spec(input@.subrange(0, i as int)),
        decreases n - i,
    {
        let c = input.get_char(i);
        if c != ' ' {
            out.push(c);
        }
        i = i + 1;
        proof {
            assert(input@.subrange(0, i as int).drop_last() =~= input@.subrange(0, i - 1));
            assert(out@ =~= no_spaces_spec(input@.subrange(0, i as int)));
        }
    }
    proof {
        assert(input@.subrange(0, n as int) =~= input@);
    }
    string_from_chars(&out)
}

/// The string's characters in reverse order.
pub open spec fn reversed(s: Seq<char>) -> Seq<char> {
    Seq::new(s.len(), |i: int| s[s.len() - 1 - i])
}

/// Reverses the characters.
pub fn reverse(input: &str) -> (r: String)
    ensures
        r@ == reversed(input@),
{
    let n = input.unicode_len();
    let mut out: Vec<char> = Vec::new();
    let mut i: usize = 0;
    while i < n
        invariant
            i <= n == input@.len(),
            out@ == reversed(input@).subrange(0, i as int),
        decreases n - i,
    {
        out.push(input.get_char(n - 1 - i));
        i = i + 1;
        proof {
            assert(out@ =~= reversed(input@).subrange(0, i as int));
        }
    }
    proof {
        assert(reversed(input@).subrange(0, n as int) =~= reversed(input@));
    }
    string_from_chars(&out)
}

/// Slugifies a string.
pub fn slugify_input(input: &str) -> (r: String)
    ensures
        r@ == slug_of(input@),
{
    slugify_str(input)
}

/// The title-cased form of a string, read left to right: whitespace starts
/// a new word; a word's first character is uppercased and the rest
/// lowercased; words are joined by single spaces.
pub open spec fn title_rec(s: Seq<char>, at_start: bool, emitted: bool) -> Seq<char>
    decreases s.len(),
{
    if s.len() == 0 {
        Seq::empty()
    } else {
        let c = s[0];
        let rest = s.drop_first();
        if is_ws_char(c) {
            title_rec(rest, true, emitted)
        } else if at_start {
            (if emitted {
                seq![' ']
            } else {
                Seq::<char>::empty()
            }) + char_upper_of(c) + title_rec(rest, false, true)
        } else {
            char_lower_of(c) + title_rec(rest, false, emitted)
        }
    }
}

pub open spec fn title_case_spec(s: Seq<char>) -> Seq<char> {
    title_rec(s, true, false)
}

/// Appends a vector of characters.
fn push_all(out: &mut Vec<char>, v: &Vec<char>)
    ensures
        final (out)@ == old(out)@ + v@,
{
    let mut i: usize = 0;
    while i < v.len()
        invariant
            i <= v@.len(),
            out@ == old(out)@ + v@.subrange(0, i as int),
        decreases v@.len() - i,
    {
        out.push(v[i]);
        i = i + 1;
        assert(out@ =~= old(out)@ + v@.subrange(0, i as int));
    }
    assert(old(out)@ + v@.subrange(0, v@.len() as int) =~= old(out)@ + v@);
}

/// Title-cases a string: each whitespace-separated word is capitalized and
/// the words are joined by single spaces.
pub fn get_title_case(input: &str) -> (r: String)
    ensures
        r@ == title_case_spec(input@),
{
    let n = input.unicode_len();
    let mut out: Vec<char> = Vec::new();
    let mut at_start: bool = true;
    let mut emitted: bool = false;
    let mut i: usize = 0;
    proof {
        assert(input@.subrange(0, n as int) =~= input@);
        assert(Seq::<char>::empty() + title_case_spec(input@) =~= title_case_spec(input@));
    }
    while i < n
        invariant
            i <= n == input@.len(),
            out@ + title_rec(input@.subrange(i as int, n as int), at_start, emitted)
                == title_case_spec(input@),
        decreases n - i,
    {
        let c = input.get_char(i);
        let ghost rest = input@.subrange(i as int, n as int);
        proof {
            assert(rest.drop_first() =~= input@.subrange(i + 1, n as int));
        }
        if char_is_whitespace(c) {
            at_start = true;
        } else if at_start {
            if emitted {
                out.push(' ');
            }
            let up = char_to_uppercase(c);
            push_all(&mut out, &up);
            at_start = false;
            emitted = true;
        } else {
            let low = char_to_lowercase(c);
            push_all(&mut out, &low);
        }
        i = i + 1;
    }
    proof {
        assert(input@.subrange(n as int, n as int) =~= Seq::<char>::empty());
        assert(out@ =~= title_case_spec(input@));
    }
    string_from_chars(&out)
}

/// Title-cases one input string.
pub fn title_case(input: &str) -> (r: String)
    ensures
        r@ == title_case_spec(input@),
{
    get_title_case(input)
}

/// A non-blank input: something besides whitespace. The second component
/// names the validation, for the caller's error report.
pub fn is_valid_string(input: &str) -> (r: (bool, &'static str))
    ensures
        r.0 == (trim_spec(input@).len() > 0),
        r.1@ == "string_validation"@,
{
    let t = trim(input);
    (t.unicode_len() > 0, "string_validation")
}

/// The text transformations the command-line tool offers.
#[derive(Debug, Clone, Copy, PartialEq)]
pub enum StringOperation {
    Lowercase,
    Uppercase,
    NoSpaces,
    Slugify,
    Reverse,
    TitleCase,
    Csv,
}

impl StringOperation {
    /// Reads an operation from its command name; any other name is refused.
    pub fn from_str(s: &str) -> (r: Result<StringOperation, String>)
        ensures
            s@ == "lowercase"@ ==> r == Ok::<_, String>(StringOperation::Lowercase),
            s@ == "uppercase"@ ==> r == Ok::<_, String>(StringOperation::Uppercase),
            s@ == "no-spaces"@ ==> r == Ok::<_, String>(StringOperation::NoSpaces),
            s@ == "slugify"@ ==> r == Ok::<_, String>(StringOperation::Slugify),
            s@ == "reverse"@ ==> r == Ok::<_, String>(StringOperation::Reverse),
            s@ == "title-case"@ ==> r == Ok::<_, String>(StringOperation::TitleCase),
            s@ == "csv"@ ==> r == Ok::<_, String>(StringOperation::Csv),
            r is Err <==> (s@ != "lowercase"@ && s@ != "uppercase"@ && s@ != "no-spaces"@ && s@
                != "slugify"@ && s@ != "reverse"@ && s@ != "title-case"@ && s@ != "csv"@),
            r matches Err(m) ==> m@ == "Unknown modification: "@ + s@
                + "\nAvailable modifications: lowercase, uppercase, no-spaces, slugify, reverse, title-case, csv"@,
    {
        proof {
            reveal_strlit("lowercase");
            reveal_strlit("uppercase");
            reveal_strlit("no-spaces");
            reveal_strlit("slugify");
            reveal_strlit("reverse");
            reveal_strlit("title-case");
            reveal_strlit("csv");
            assert("lowercase"@[0] == 'l' && "uppercase"@[0] == 'u' && "no-spaces"@[0] == 'n'
                && "slugify"@[0] == 's' && "reverse"@[0] == 'r' && "title-case"@[0] == 't'
                && "csv"@[0] == 'c');
        }
        if str_eq(s, "lowercase") {
            Ok(StringOperation::Lowercase)
        } else if str_eq(s, "uppercase") {
            Ok(StringOperation::Uppercase)
        } else if str_eq(s, "no-spaces") {
            Ok(StringOperation::NoSpaces)
        } else if str_eq(s, "slugify") {
            Ok(StringOperation::Slugify)
        } else if str_eq(s, "reverse") {
            Ok(StringOperation::Reverse)
        } else if str_eq(s, "title-case") {
            Ok(StringOperation::TitleCase)
        } else if str_eq(s, "csv") {
            Ok(StringOperation::Csv)
        } else {
            Err(
                String::from_str("Unknown modification: ").concat(s).concat(
                    "\nAvailable modifications: lowercase, uppercase, no-spaces, slugify, reverse, title-case, csv",
                ),
            )
        }
    }
}

/// Applies one operation to one input string. For `Csv` the input is the
/// text of a CSV document, rendered as an aligned table; every other
/// operation transforms the input directly and cannot fail.
pub fn get_modified_input(input: &str, operation: StringOperation) -> (r: Result<String, String>)
    ensures
        operation is Lowercase ==> (r matches Ok(s) && s@ == lower_of(input@)),
        operation is Uppercase ==> (r matches Ok(s) && s@ == upper_of(input@)),
        operation is NoSpaces ==> (r matches Ok(s) && s@ == no_spaces_spec(input@)),
        operation is Slugify ==> (r matches Ok(s) && s@ == slug_of(input@)),
        operation is Reverse ==> (r matches Ok(s) && s@ == reversed(input@)),
        operation is TitleCase ==> (r matches Ok(s) && s@ == title_case_spec(input@)),
        operation is Csv ==> ((r matches Ok(s) ==> csv_table_of(input@) matches Some(t) && s@
            == csv_render_spec(t)) && (r is Err <==> csv_table_of(input@) is None)),
{
    match operation {
        StringOperation::Lowercase => Ok(lowercase(input)),
        StringOperation::Uppercase => Ok(uppercase(input)),
        StringOperation::NoSpaces => Ok(no_spaces(input)),
        StringOperation::Slugify => Ok(slugify_input(input)),
        StringOperation::Reverse => Ok(reverse(input)),
        StringOperation::TitleCase => Ok(title_case(input)),
        StringOperation::Csv => parse_as_csv(input),
    }
}

} // verus!
