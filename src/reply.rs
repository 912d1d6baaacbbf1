use vstd::prelude::*;
use crate::models::CoreError;

verus! {

/// What goes back to a client: a status code, headers and a body.
pub struct Reply {
    pub status: u16,
    pub headers: Vec<(String, String)>,
    pub body: String,
}

/// The status code an outcome is answered with: 200 for success, 400 for a
/// bad parameter, 500 for every other failure.
pub open spec fn status_for(outcome: Result<Seq<char>, CoreError>) -> u16 {
    match outcome {
        Ok(_) => 200,
        Err(CoreError::InvalidParameter) => 400,
        Err(_) => 500,
    }
}

/// The body of a failure: a JSON string that names only the class of
/// error, never the underlying cause.
pub open spec fn failure_body(e: CoreError) -> Seq<char> {
    match e {
        CoreError::InvalidParameter => "\"400 - Bad Request\""@,
        _ => "\"500 - Internal Server Error\""@,
    }
}

pub open spec fn header_is(h: (String, String), name: Seq<char>, value: Seq<char>) -> bool {
    h.0@ == name && h.1@ == value
}

fn json_content_type() -> (r: (String, String))
    ensures
        header_is(r, "content-type"@, "application/json"@),
{
    ("content-type".to_owned(), "application/json".to_owned())
}

/// Shapes the reply to a request whose work ended in `outcome`, which holds
/// the rendered payload on success. A success carries the fixed `X-TEST`
/// marker and the JSON content type; a failure carries the JSON content type
/// and a generic body.
pub fn reply_for(outcome: Result<String, CoreError>) -> (r: Reply)
    ensures
        r.status == status_for(
            match outcome {
                Ok(p) => Ok(p@),
                Err(e) => Err(e),
            },
        ),
        outcome matches Ok(p) ==> r.body@ == p@ && r.headers.len() == 2 && header_is(
            r.headers@[0],
            "X-TEST"@,
            "value"@,
        ) && header_is(r.headers@[1], "content-type"@, "application/json"@),
        outcome matches Err(e) ==> r.body@ == failure_body(e) && r.headers.len() == 1 && header_is(
            r.headers@[0],
            "content-type"@,
            "application/json"@,
        ),
{
    match outcome {
        Ok(payload) => {
            let mut headers: Vec<(String, String)> = Vec::new();
            headers.push(("X-TEST".to_owned(), "value".to_owned()));
            headers.push(json_content_type());
            Reply { status: 200, headers, body: payload }
        },
        Err(e) => {
            let mut headers: Vec<(String, String)> = Vec::new();
            headers.push(json_content_type());
            match e {
                CoreError::InvalidParameter => Reply {
                    status: 400,
                    headers,
                    body: "\"400 - Bad Request\"".to_owned(),
                },
                _ => Reply { status: 500, headers, body: "\"500 - Internal Server Error\"".to_owned() },
            }
        },
    }
}

} // verus!
