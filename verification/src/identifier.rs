//! Identifiers of program functions: a letter followed by letters, digits and
//! underscores, at most 31 bytes long, and not the name of a literal type.

use vstd::prelude::*;

verus! {

/// The longest identifier, in bytes: what fits in the data bits of a field element.
pub const MAX_IDENTIFIER_BYTES: usize = 31;

/// `c` is an ASCII letter.
pub open spec fn is_ascii_letter(c: char) -> bool {
    ('a' <= c && c <= 'z') || ('A' <= c && c <= 'Z')
}

/// `c` is an ASCII letter, an ASCII digit or an underscore.
pub open spec fn is_identifier_char(c: char) -> bool {
    is_ascii_letter(c) || ('0' <= c && c <= '9') || c == '_'
}

/// The names of the literal types, which identifiers may not take.
pub open spec fn literal_type_names() -> Seq<Seq<char>> {
    seq![
        "address"@,
        "boolean"@,
        "field"@,
        "group"@,
        "i8"@,
        "i16"@,
        "i32"@,
        "i64"@,
        "i128"@,
        "u8"@,
        "u16"@,
        "u32"@,
        "u64"@,
        "u128"@,
        "scalar"@,
        "signature"@,
        "string"@,
    ]
}

/// The literal type names are exactly these seventeen.
pub proof fn lemma_literal_type_names(s: Seq<char>)
    ensures
        literal_type_names().len() == 17,
        literal_type_names().contains(s) <==> is_literal_type_name_text(s),
{
    let names = literal_type_names();
    if s == "address"@ { assert(names[0] == s); }
    if s == "boolean"@ { assert(names[1] == s); }
    if s == "field"@ { assert(names[2] == s); }
    if s == "group"@ { assert(names[3] == s); }
    if s == "i8"@ { assert(names[4] == s); }
    if s == "i16"@ { assert(names[5] == s); }
    if s == "i32"@ { assert(names[6] == s); }
    if s == "i64"@ { assert(names[7] == s); }
    if s == "i128"@ { assert(names[8] == s); }
    if s == "u8"@ { assert(names[9] == s); }
    if s == "u16"@ { assert(names[10] == s); }
    if s == "u32"@ { assert(names[11] == s); }
    if s == "u64"@ { assert(names[12] == s); }
    if s == "u128"@ { assert(names[13] == s); }
    if s == "scalar"@ { assert(names[14] == s); }
    if s == "signature"@ { assert(names[15] == s); }
    if s == "string"@ { assert(names[16] == s); }
}

/// `s` is written as one of the literal types of the language.
pub open spec fn is_literal_type_name_text(s: Seq<char>) -> bool {
    ||| s == "address"@
    ||| s == "boolean"@
    ||| s == "field"@
    ||| s == "group"@
    ||| s == "i8"@
    ||| s == "i16"@
    ||| s == "i32"@
    ||| s == "i64"@
    ||| s == "i128"@
    ||| s == "u8"@
    ||| s == "u16"@
    ||| s == "u32"@
    ||| s == "u64"@
    ||| s == "u128"@
    ||| s == "scalar"@
    ||| s == "signature"@
    ||| s == "string"@
}

/// No literal type name is an identifier: parsing one always fails.
pub proof fn lemma_literal_type_names_are_not_identifiers(s: Seq<char>)
    requires
        is_literal_type_name_text(s),
    ensures
        !is_identifier(s),
        identifier_error(s) is Some,
{
    lemma_literal_type_names(s);
}

/// Why a string is not an identifier, in the order in which the rules are checked.
#[derive(Debug, PartialEq, Eq, Clone, Copy)]
pub enum IdentifierError {
    /// The string is empty.
    Empty,
    /// The first character is not an ASCII letter.
    MustStartWithLetter,
    /// A character is not an ASCII letter, an ASCII digit or an underscore.
    InvalidCharacter,
    /// The string is longer than `MAX_IDENTIFIER_BYTES`.
    TooLong,
    /// The string is the name of a literal type.
    ReservedLiteralType,
}

/// The error, if any, that the identifier rules give for `s`.
pub open spec fn identifier_error(s: Seq<char>) -> Option<IdentifierError> {
    if s.len() == 0 {
        Some(IdentifierError::Empty)
    } else if !is_ascii_letter(s[0]) {
        Some(IdentifierError::MustStartWithLetter)
    } else if exists|i: int| 0 <= i < s.len() && !is_identifier_char(#[trigger] s[i]) {
        Some(IdentifierError::InvalidCharacter)
    } else if s.len() > MAX_IDENTIFIER_BYTES {
        Some(IdentifierError::TooLong)
    } else if literal_type_names().contains(s) {
        Some(IdentifierError::ReservedLiteralType)
    } else {
        None
    }
}

/// `s` is an identifier.
pub open spec fn is_identifier(s: Seq<char>) -> bool {
    identifier_error(s) is None
}

/// An identifier.
#[derive(Debug, PartialEq, Eq)]
pub struct Identifier {
    name: String,
}

impl View for Identifier {
    type V = Seq<char>;

    open spec fn view(&self) -> Seq<char> {
        self.text()@
    }
}

/// Whether `s` is the name of a literal type.
fn is_literal_type_name(s: &String) -> (b: bool)
    ensures
        b == literal_type_names().contains(s@),
{
    let mut names: Vec<String> = Vec::new();
    names.push("address".to_owned());
    names.push("boolean".to_owned());
    names.push("field".to_owned());
    names.push("group".to_owned());
    names.push("i8".to_owned());
    names.push("i16".to_owned());
    names.push("i32".to_owned());
    names.push("i64".to_owned());
    names.push("i128".to_owned());
    names.push("u8".to_owned());
    names.push("u16".to_owned());
    names.push("u32".to_owned());
    names.push("u64".to_owned());
    names.push("u128".to_owned());
    names.push("scalar".to_owned());
    names.push("signature".to_owned());
    names.push("string".to_owned());
    let ghost spec_names = literal_type_names();
    assert(names@.len() == spec_names.len());
    assert(forall|k: int| 0 <= k < names@.len() ==> (#[trigger] names@[k])@ == spec_names[k]);
    let n = names.len();
    for i in 0..n
        invariant
            n == names@.len(),
            n == spec_names.len(),
            spec_names == literal_type_names(),
            forall|k: int| 0 <= k < names@.len() ==> (#[trigger] names@[k])@ == spec_names[k],
            forall|k: int| 0 <= k < i ==> spec_names[k] != s@,
    {
        if names[i] == *s {
            return true;
        }
    }
    false
}

fn is_letter(c: char) -> (b: bool)
    ensures
        b == is_ascii_letter(c),
{
    ('a' <= c && c <= 'z') || ('A' <= c && c <= 'Z')
}

impl Identifier {
    #[verifier::type_invariant]
    spec fn is_valid(self) -> bool {
        is_identifier(self.name@)
    }

    /// Parses an identifier, giving the first rule that `s` breaks otherwise.
    pub fn from_str(s: &str) -> (r: Result<Identifier, IdentifierError>)
        ensures
            identifier_error(s@) matches Some(e) ==> r == Err::<Identifier, IdentifierError>(e),
            identifier_error(s@) is None ==> (r matches Ok(id) && id@ == s@),
    {
        let n = s.unicode_len();
        if n == 0 {
            return Err(IdentifierError::Empty);
        }
        if !is_letter(s.get_char(0)) {
            return Err(IdentifierError::MustStartWithLetter);
        }
        for i in 0..n
            invariant
                n == s@.len(),
                n > 0,
                is_ascii_letter(s@[0]),
                forall|j: int| 0 <= j < i ==> is_identifier_char(#[trigger] s@[j]),
        {
            let c = s.get_char(i);
            if !(is_letter(c) || ('0' <= c && c <= '9') || c == '_') {
                assert(!is_identifier_char(s@[i as int]));
                return Err(IdentifierError::InvalidCharacter);
            }
        }
        if n > MAX_IDENTIFIER_BYTES {
            return Err(IdentifierError::TooLong);
        }
        let name = s.to_owned();
        if is_literal_type_name(&name) {
            return Err(IdentifierError::ReservedLiteralType);
        }
        Ok(Identifier { name })
    }

    /// The identifier's text, as a string.
    pub closed spec fn text(self) -> String {
        self.name
    }

    /// The identifier's text.
    pub fn as_string(&self) -> (r: &String)
        ensures
            *r == self.text(),
            is_identifier(self@),
    {
        proof {
            use_type_invariant(self);
        }
        &self.name
    }
}

} // verus!
