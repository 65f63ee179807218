//! The upload of a similarity search: which part of the form holds the
//! image.

use crate::error::Error;
use vstd::prelude::*;

verus! {

/// One part of an uploaded form: its name and its content.
#[derive(Debug, Clone, PartialEq, Eq)]
pub struct Part {
    pub name: String,
    pub data: Vec<u8>,
}

/// A form that could not be read to its end.
#[derive(Debug, Clone, Copy, PartialEq, Eq, Structural)]
pub struct BrokenForm;

/// Whether a part is named `image`.
pub open spec fn is_image(part: Part) -> bool {
    part.name@ == "image"@
}

/// The index of the last part named `image` among the first `n` parts.
pub open spec fn last_image(parts: Seq<Part>, n: int) -> Option<int>
    decreases n,
{
    if n <= 0 {
        None
    } else if is_image(parts[n - 1]) {
        Some(n - 1)
    } else {
        last_image(parts, n - 1)
    }
}

/// The content of the part named `image`. A form is a map from names to
/// parts in which a later part of a name replaces an earlier one: where
/// several parts have that name, the last one counts.
pub fn image_part(parts: Vec<Part>) -> (r: Option<Vec<u8>>)
    ensures
        match last_image(parts@, parts.len() as int) {
            Some(i) => r == Some(parts[i].data),
            None => r.is_none(),
        },
{
    let ghost all = parts@;
    let mut rest = parts;
    let wanted = "image".to_owned();
    while rest.len() > 0
        invariant
            wanted@ == "image"@,
            all == parts@,
            rest.len() <= all.len(),
            rest@ == all.take(rest.len() as int),
            last_image(all, all.len() as int) == last_image(all, rest.len() as int),
        decreases rest.len(),
    {
        let ghost n = rest.len() as int;
        let part = rest.pop().unwrap();
        assert(rest@ =~= all.take(n - 1));
        if part.name == wanted {
            return Some(part.data);
        }
    }
    None
}

/// The image of an upload: the content of its last part named `image`. A
/// form that could not be read has none, nor has one without such a part.
pub open spec fn image_in(form: Result<Vec<Part>, BrokenForm>) -> Result<Vec<u8>, Error> {
    match form {
        Ok(parts) => match last_image(parts@, parts.len() as int) {
            Some(i) => Ok(parts[i].data),
            None => Err(Error::InvalidData),
        },
        Err(_) => Err(Error::InvalidData),
    }
}

/// The image of an upload once the quota gate has decided: a request
/// refused there is refused with that error, whatever its form holds.
pub open spec fn gated_image_of(
    gate: Result<i16, Error>,
    form: Result<Vec<Part>, BrokenForm>,
) -> Result<Vec<u8>, Error> {
    match gate {
        Err(e) => Err(e),
        Ok(_) => image_in(form),
    }
}

/// The image of an upload. A form that could not be read is refused, and
/// so is one without a part named `image`.
pub fn image_of(form: Result<Vec<Part>, BrokenForm>) -> (r: Result<Vec<u8>, Error>)
    ensures
        r == image_in(form),
{
    match form {
        Ok(parts) => match image_part(parts) {
            Some(data) => Ok(data),
            None => Err(Error::InvalidData),
        },
        Err(_) => Err(Error::InvalidData),
    }
}

/// The image of an upload once the quota gate has decided. A request
/// refused there is refused with that error, whatever its form holds; the
/// image of an admitted request is found as by [`image_of`].
pub fn gated_image(gate: Result<i16, Error>, form: Result<Vec<Part>, BrokenForm>) -> (r: Result<
    Vec<u8>,
    Error,
>)
    ensures
        r == gated_image_of(gate, form),
{
    match gate {
        Err(e) => Err(e),
        Ok(_) => image_of(form),
    }
}

} // verus!
