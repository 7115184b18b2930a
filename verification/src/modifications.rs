use crate::operations::{
    get_title_case, lower_of, lowercase, no_spaces, no_spaces_spec, reverse, reversed, slug_of,
    slugify_input, title_case_spec, upper_of, uppercase,
};
use crate::textutil::str_eq;
use vstd::prelude::*;

verus! {

/// Applies one of the six plain text modifications, picked by its command
/// name; any other name is refused. These are the operations of the
/// simpler command-line tool, which has no CSV mode.
pub fn get_modified_input(raw_modification: &str, input: &str) -> (r: Result<String, String>)
    ensures
        raw_modification@ == "lowercase"@ ==> (r matches Ok(s) && s@ == lower_of(input@)),
        raw_modification@ == "uppercase"@ ==> (r matches Ok(s) && s@ == upper_of(input@)),
        raw_modification@ == "no-spaces"@ ==> (r matches Ok(s) && s@ == no_spaces_spec(input@)),
        raw_modification@ == "slugify"@ ==> (r matches Ok(s) && s@ == slug_of(input@)),
        raw_modification@ == "reverse"@ ==> (r matches Ok(s) && s@ == reversed(input@)),
        raw_modification@ == "title-case"@ ==> (r matches Ok(s) && s@ == title_case_spec(input@)),
        r is Err <==> (raw_modification@ != "lowercase"@ && raw_modification@ != "uppercase"@
            && raw_modification@ != "no-spaces"@ && raw_modification@ != "slugify"@
            && raw_modification@ != "reverse"@ && raw_modification@ != "title-case"@),
        r matches Err(m) ==> m@ == "Unknown modification: "@ + raw_modification@
            + "\nAvailable modifications: lowercase, uppercase, no-spaces, slugify, reverse, title-case"@,
{
    proof {
        reveal_strlit("lowercase");
        reveal_strlit("uppercase");
        reveal_strlit("no-spaces");
        reveal_strlit("slugify");
        reveal_strlit("reverse");
        reveal_strlit("title-case");
        assert("lowercase"@[0] == 'l' && "uppercase"@[0] == 'u' && "no-spaces"@[0] == 'n'
            && "slugify"@[0] == 's' && "reverse"@[0] == 'r' && "title-case"@[0] == 't');
    }
    if str_eq(raw_modification, "lowercase") {
        Ok(lowercase(input))
    } else if str_eq(raw_modification, "uppercase") {
        Ok(uppercase(input))
    } else if str_eq(raw_modification, "no-spaces") {
        Ok(no_spaces(input))
    } else if str_eq(raw_modification, "slugify") {
        Ok(slugify_input(input))
    } else if str_eq(raw_modification, "reverse") {
        Ok(reverse(input))
    } else if str_eq(raw_modification, "title-case") {
        Ok(get_title_case(input))
    } else {
        Err(
            String::from_str("Unknown modification: ").concat(raw_modification).concat(
                "\nAvailable modifications: lowercase, uppercase, no-spaces, slugify, reverse, title-case",
            ),
        )
    }
}

} // verus!
