use vstd::prelude::*;

verus! {

/// The outcome of an update, as a status code could report it to a client.
#[derive(Debug)]
pub enum Response {
    OkResponse,
    BadMessage(String),
    BadSignature,
    AlreadyClaimed,
}

/// The decimal digit `d`.
pub open spec fn digit(d: nat) -> char {
    if d == 0 {
        '0'
    } else if d == 1 {
        '1'
    } else if d == 2 {
        '2'
    } else if d == 3 {
        '3'
    } else if d == 4 {
        '4'
    } else if d == 5 {
        '5'
    } else if d == 6 {
        '6'
    } else if d == 7 {
        '7'
    } else if d == 8 {
        '8'
    } else {
        '9'
    }
}

/// `n` written in decimal.
pub open spec fn decimal(n: nat) -> Seq<char>
    decreases n,
{
    if n < 10 {
        seq![digit(n)]
    } else {
        decimal(n / 10).push(digit(n % 10))
    }
}

/// The message for a status code that is not understood.
pub open spec fn unknown_code_text(code: u16) -> Seq<char> {
    "Code "@ + decimal(code as nat) + " not understood"@
}

/// Relies on `format!` and the `Display` impl of `u16`, which writes the
/// number in decimal.
#[verifier::external_body]
fn unknown_code_message(code: u16) -> (r: String)
    ensures
        r@ == unknown_code_text(code),
{
    format!("Code {} not understood", code)
}

impl TryFrom<u16> for Response {
    type Error = String;

    /// 200, 444 and 455 are the codes understood.
    fn try_from(i: u16) -> (r: Result<Response, String>)
        ensures
            i == 200 ==> r matches Ok(Response::OkResponse),
            i == 444 ==> (r matches Ok(Response::BadMessage(m)) && m@
                == "i haven't the foggiest"@),
            i == 455 ==> r matches Ok(Response::BadSignature),
            i != 200 && i != 444 && i != 455 ==> (r matches Err(e) && e@ == unknown_code_text(i)),
    {
        if i == 200 {
            Ok(Response::OkResponse)
        } else if i == 444 {
            Ok(Response::BadMessage("i haven't the foggiest".to_owned()))
        } else if i == 455 {
            Ok(Response::BadSignature)
        } else {
            Err(unknown_code_message(i))
        }
    }
}

impl vstd::std_specs::convert::TryFromSpecImpl<u16> for Response {
    open spec fn obeys_try_from_spec() -> bool {
        false
    }

    open spec fn try_from_spec(v: u16) -> Result<Response, String> {
        vstd::pervasive::arbitrary()
    }
}

/// A response to a client: the protocol version and a status.
#[derive(Debug)]
pub struct UpdateResponse {
    version: u8,
    status: Response,
}

impl UpdateResponse {
    pub fn new(version: u8, status: Response) -> (r: UpdateResponse)
        ensures
            r.spec_version() == version,
            r.spec_status() == status,
    {
        UpdateResponse { version, status }
    }

    pub closed spec fn spec_version(&self) -> u8 {
        self.version
    }

    pub closed spec fn spec_status(&self) -> Response {
        self.status
    }

    pub fn version(&self) -> (r: u8)
        ensures
            r == self.spec_version(),
    {
        self.version
    }

    pub fn status(&self) -> (r: &Response)
        ensures
            *r == self.spec_status(),
    {
        &self.status
    }
}

} // verus!
