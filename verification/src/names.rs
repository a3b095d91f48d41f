//! Names of Move modules and functions.
use vstd::prelude::*;

verus! {

/// Whether a character is an ASCII letter.
pub open spec fn is_letter(c: char) -> bool {
    'a' <= c <= 'z' || 'A' <= c <= 'Z'
}

/// Whether a character can stand in a name.
pub open spec fn is_name_char(c: char) -> bool {
    is_letter(c) || '0' <= c <= '9' || c == '_'
}

/// A name begins with a letter, or with an underscore that is not all of it,
/// and goes on with letters, digits and underscores. `<SELF>` is one too.
pub open spec fn is_identifier(text: Seq<char>) -> bool {
    ||| text == "<SELF>"@
    ||| {
        &&& text.len() > 0
        &&& is_letter(text[0]) || (text[0] == '_' && text.len() > 1)
        &&& forall|i: int| 1 <= i < text.len() ==> is_name_char(#[trigger] text[i])
    }
}

/// A name holds no colon.
pub proof fn lemma_name_without_colon(text: Seq<char>)
    requires
        is_identifier(text),
    ensures
        forall|i: int| 0 <= i < text.len() ==> #[trigger] text[i] != ':',
{
    reveal_strlit("<SELF>");
    assert forall|i: int| 0 <= i < text.len() implies #[trigger] text[i] != ':' by {
        if text != "<SELF>"@ && i >= 1 {
            assert(is_name_char(text[i]));
        }
    }
}

/// `move_core_types::identifier::Identifier::new` keeps a text that is a valid
/// name as it is, and refuses every other text with a message that quotes it.
#[verifier::external_body]
pub(crate) fn identifier(text: &str) -> (name: Result<String, String>)
    ensures
        match name {
            Ok(n) => is_identifier(text@) && n@ == text@,
            Err(e) => !is_identifier(text@) && e@ == "Invalid identifier '"@ + text@ + "'"@,
        },
{
    move_core_types::identifier::Identifier::new(text)
        .map(|name| name.into_string())
        .map_err(|e| e.to_string())
}

} // verus!
