use vstd::prelude::*;
use vstd::string::*;
use crate::errors::Error;
use crate::text::same_text;

verus! {

/// The class of a token or of a stored value.
#[derive(PartialEq, Eq, Structural, Clone, Copy, Debug)]
pub enum Types {
    String,
    Number,
    Identifier,
    Unknown,
}

pub open spec fn is_digit(c: char) -> bool {
    '0' <= c <= '9'
}

pub open spec fn is_identifier_start(c: char) -> bool {
    ||| 'a' <= c <= 'z'
    ||| 'A' <= c <= 'Z'
    ||| c == '_'
}

pub open spec fn is_identifier_char(c: char) -> bool {
    is_identifier_start(c) || is_digit(c)
}

/// At least two characters, the first and the last a double quote.
pub open spec fn is_string_literal(s: Seq<char>) -> bool {
    s.len() >= 2 && s[0] == '"' && s.last() == '"'
}

/// One or more ASCII digits.
pub open spec fn is_number_literal(s: Seq<char>) -> bool {
    s.len() > 0 && forall|i: int| 0 <= i < s.len() ==> is_digit(#[trigger] s[i])
}

/// A letter or `_`, then letters, digits and `_`.
pub open spec fn is_identifier(s: Seq<char>) -> bool {
    &&& s.len() > 0
    &&& is_identifier_start(s[0])
    &&& forall|i: int| 1 <= i < s.len() ==> is_identifier_char(#[trigger] s[i])
}

/// The class of a token: a string literal is checked first, then a number,
/// then an identifier.
pub open spec fn classify(s: Seq<char>) -> Types {
    if is_string_literal(s) {
        Types::String
    } else if is_number_literal(s) {
        Types::Number
    } else if is_identifier(s) {
        Types::Identifier
    } else {
        Types::Unknown
    }
}

fn all_digits(s: &Vec<char>) -> (r: bool)
    ensures
        r == is_number_literal(s@),
{
    if s.len() == 0 {
        return false;
    }
    let mut i: usize = 0;
    while i < s.len()
        invariant
            i <= s.len(),
            forall|j: int| 0 <= j < i ==> is_digit(#[trigger] s@[j]),
        decreases s.len() - i,
    {
        if !('0' <= s[i] && s[i] <= '9') {
            return false;
        }
        i = i + 1;
    }
    true
}

fn identifier_shaped(s: &Vec<char>) -> (r: bool)
    ensures
        r == is_identifier(s@),
{
    if s.len() == 0 {
        return false;
    }
    let c = s[0];
    if !(('a' <= c && c <= 'z') || ('A' <= c && c <= 'Z') || c == '_') {
        return false;
    }
    let mut i: usize = 1;
    while i < s.len()
        invariant
            1 <= i <= s.len(),
            forall|j: int| 1 <= j < i ==> is_identifier_char(#[trigger] s@[j]),
        decreases s.len() - i,
    {
        let c = s[i];
        if !(('a' <= c && c <= 'z') || ('A' <= c && c <= 'Z') || c == '_' || ('0' <= c && c
            <= '9')) {
            return false;
        }
        i = i + 1;
    }
    true
}

/// Classifies a token or a stored value.
pub fn get_type(token: &str) -> (r: Types)
    ensures
        r == classify(token@),
{
    let chars = crate::text::chars_of(token);
    let n = chars.len();
    if n >= 2 && chars[0] == '"' && chars[n - 1] == '"' {
        Types::String
    } else if all_digits(&chars) {
        Types::Number
    } else if identifier_shaped(&chars) {
        Types::Identifier
    } else {
        Types::Unknown
    }
}

/// The name of a type as programs write it.
pub open spec fn class_name(t: Types) -> Seq<char> {
    match t {
        Types::String => "String"@,
        Types::Number => "Number"@,
        Types::Identifier => "Identifier"@,
        Types::Unknown => "Unknown"@,
    }
}

impl Types {
    /// The name of this type, as messages show it.
    pub fn name(&self) -> (r: String)
        ensures
            r@ == class_name(*self),
    {
        match self {
            Types::String => String::from_str("String"),
            Types::Number => String::from_str("Number"),
            Types::Identifier => String::from_str("Identifier"),
            Types::Unknown => String::from_str("Unknown"),
        }
    }
}

/// The message of the error for a type name other than `Number` and `String`.
pub open spec fn invalid_type_message() -> Seq<char> {
    "Invalid type"@
}

/// Reads a type name: `Number` or `String`.
pub fn string_to_type(string: String) -> (r: Result<Types, Error>)
    ensures
        string@ == "Number"@ ==> r == Ok::<Types, Error>(Types::Number),
        string@ == "String"@ && string@ != "Number"@ ==> r == Ok::<Types, Error>(Types::String),
        string@ != "Number"@ && string@ != "String"@ ==> (r matches Err(Error::RuntimeError(m))
            && m@ == invalid_type_message()),
{
    if same_text(string.as_str(), "Number") {
        Ok(Types::Number)
    } else if same_text(string.as_str(), "String") {
        Ok(Types::String)
    } else {
        Err(Error::RuntimeError(String::from_str("Invalid type")))
    }
}

} // verus!
