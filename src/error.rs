use vstd::prelude::*;

verus! {

/// Every fault that the library reports.
#[derive(Debug)]
pub enum Error {
    /// The host could not be reached.
    Transport(String),
    /// The host answered with a status other than 200.
    HttpErrorCode(u16),
    /// The bytes are not well-formed XML.
    XmlMalformed,
    /// A required element is absent: the enclosing element's name, then the missing one's.
    MissingElement(String, String),
    /// An element's text does not have the expected form.
    InvalidResponse(String),
    /// The device reported a fault: its code and its description.
    ActionFailed(u32, String),
}

/// The fault for a status code: none for 200, `HttpErrorCode` for any other.
pub fn err_if_not_200(status: u16) -> (r: Result<(), Error>)
    ensures
        status == 200 ==> r is Ok,
        status != 200 ==> (r matches Err(Error::HttpErrorCode(s)) && s == status),
{
    if status != 200 {
        Err(Error::HttpErrorCode(status))
    } else {
        Ok(())
    }
}

} // verus!
