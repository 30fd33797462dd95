use vstd::prelude::*;

verus! {

/// A display name is accepted unless it is empty.
pub fn validate_name(name: String) -> (r: Result<String, String>)
    ensures
        r is Ok <==> name@.len() > 0,
        r matches Ok(n) ==> n@ == name@,
{
    if name.as_str().is_empty() {
        Err("Names must not be empty".to_owned())
    } else {
        Ok(name)
    }
}

/// A chat message is accepted unless it is empty.
pub fn validate_message(text: String) -> (r: Result<String, String>)
    ensures
        r is Ok <==> text@.len() > 0,
        r matches Ok(t) ==> t@ == text@,
{
    if text.as_str().is_empty() {
        Err("Messages must not be empty".to_owned())
    } else {
        Ok(text)
    }
}

} // verus!
