use vstd::prelude::*;

verus! {

/// The envelope every endpoint answers with: a success flag, an HTTP status
/// code, and either a payload or a human-readable error message.
#[derive(Debug)]
pub struct Response<T> {
    pub ok: bool,
    pub code: u16,
    pub data: Option<T>,
    pub error: Option<String>,
}

impl<T> Response<T> {
    /// A successful answer carrying `data`, with code 200.
    pub fn ok(data: T) -> (r: Self)
        ensures
            r.ok == true,
            r.code == 200,
            r.data == Some(data),
            r.error is None,
    {
        Self { ok: true, code: 200, data: Some(data), error: None }
    }

    /// A denied answer carrying `error`, with code 403.
    pub fn fobidden(error: String) -> (r: Self)
        ensures
            r.ok == false,
            r.code == 403,
            r.data is None,
            r.error == Some(error),
    {
        Self { ok: false, code: 403, data: None, error: Some(error) }
    }

    /// A rejected answer carrying `error`, with code 400.
    pub fn incompatible(error: String) -> (r: Self)
        ensures
            r.ok == false,
            r.code == 400,
            r.data is None,
            r.error == Some(error),
    {
        Self { ok: false, code: 400, data: None, error: Some(error) }
    }

    /// A failed answer carrying `error`, with code 500.
    pub fn internal(error: String) -> (r: Self)
        ensures
            r.ok == false,
            r.code == 500,
            r.data is None,
            r.error == Some(error),
    {
        Self { ok: false, code: 500, data: None, error: Some(error) }
    }

    /// An unauthorized answer carrying `error`, with code 401.
    pub fn strange(error: String) -> (r: Self)
        ensures
            r.ok == false,
            r.code == 401,
            r.data is None,
            r.error == Some(error),
    {
        Self { ok: false, code: 401, data: None, error: Some(error) }
    }
}

/// Unwraps an optional request payload, or builds the rejection every
/// endpoint answers when the payload is missing.
pub fn require_request_payload<T>(value: Option<T>) -> (r: Result<T, Response<()>>)
    ensures
        value matches Some(v) ==> r matches Ok(w) && w == v,
        value is None ==> (r matches Err(e) && e.ok == false && e.code == 400 && e.data is None && (
        e.error matches Some(m) && m@ == "please provide valid request payload"@)),
{
    match value {
        Some(v) => Ok(v),
        None => Err(Response::incompatible(String::from_str("please provide valid request payload"))),
    }
}

/// The rejection answered whenever a caller lacks the administrator role.
pub fn response_access_denied() -> (r: Response<()>)
    ensures
        r.ok == false,
        r.code == 403,
        r.data is None,
        r.error matches Some(m) && m@ == "Access denied"@,
{
    Response::fobidden(String::from_str("Access denied"))
}

} // verus!
