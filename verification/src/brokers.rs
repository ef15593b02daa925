//! Registering and removing brokers at run time (`POST /brokers`, `DELETE /brokers/{id}`).
use vstd::prelude::*;
use crate::model::ErrorResponse;
use crate::text::{is_blank, is_blank_text};

verus! {

/// A character allowed in a broker id where the id is spliced into an InfluxDB Flux
/// query: an ASCII letter or digit, `-`, `_` or `.`. Everything else, among it `"` and
/// `\`, which could end or escape the Flux string literal, is refused.
pub open spec fn is_broker_id_char(c: char) -> bool {
    ||| 'a' <= c && c <= 'z'
    ||| 'A' <= c && c <= 'Z'
    ||| '0' <= c && c <= '9'
    ||| c == '-'
    ||| c == '_'
    ||| c == '.'
}

/// A broker id that may be put into a Flux query: non-empty, of allowed characters only.
pub open spec fn valid_broker_id(id: Seq<char>) -> bool {
    id.len() > 0 && forall|k: int| 0 <= k < id.len() ==> is_broker_id_char(#[trigger] id[k])
}

/// Law: the broker ids that may go into a Flux query are exactly the non-empty texts of
/// ASCII letters of either case, digits, `-`, `_` and `.`.
pub proof fn law_broker_id_charset(id: Seq<char>)
    ensures
        valid_broker_id(id) <==> (id.len() > 0 && forall|k: int|
            0 <= k < id.len() ==> {
                let c = #[trigger] id[k];
                ||| 'a' <= c <= 'z'
                ||| 'A' <= c <= 'Z'
                ||| '0' <= c <= '9'
                ||| c == '-'
                ||| c == '_'
                ||| c == '.'
            }),
{
}

/// Decides `valid_broker_id`.
pub fn broker_id_is_valid(id: &str) -> (b: bool)
    ensures
        b == valid_broker_id(id@),
{
    let n = id.unicode_len();
    if n == 0 {
        return false;
    }
    let mut i: usize = 0;
    while i < n
        invariant
            n == id@.len(),
            i <= n,
            forall|k: int| 0 <= k < i ==> is_broker_id_char(#[trigger] id@[k]),
        decreases n - i,
    {
        let c = id.get_char(i);
        let ok = ('a' <= c && c <= 'z') || ('A' <= c && c <= 'Z') || ('0' <= c && c <= '9')
            || c == '-' || c == '_' || c == '.';
        if !ok {
            return false;
        }
        i = i + 1;
    }
    true
}

/// Answer of `POST /brokers`.
pub enum RegisterReply {
    /// 201: the broker is registered and its task is to be started.
    Registered { id: String },
    /// 400: the broker id is empty or whitespace.
    Rejected(ErrorResponse),
}

impl RegisterReply {
    pub open spec fn status_spec(&self) -> u16 {
        match self {
            RegisterReply::Registered { .. } => 201,
            RegisterReply::Rejected(_) => 400,
        }
    }

    /// The HTTP status code of the answer.
    pub fn status(&self) -> (c: u16)
        ensures
            c == self.status_spec(),
    {
        match self {
            RegisterReply::Registered { .. } => 201,
            RegisterReply::Rejected(_) => 400,
        }
    }
}

/// `POST /brokers`: a broker whose id trims to nothing is refused.
pub fn post_broker(id: String) -> (r: RegisterReply)
    ensures
        is_blank(id@) ==> (r is Rejected && r->Rejected_0.error@ == "broker id must not be empty"@),
        !is_blank(id@) ==> (r == (RegisterReply::Registered { id })),
{
    if is_blank_text(id.as_str()) {
        RegisterReply::Rejected(ErrorResponse { error: String::from_str("broker id must not be empty") })
    } else {
        RegisterReply::Registered { id }
    }
}

/// `DELETE /brokers/{id}`: 204 when a running broker was stopped, 404 when none had that id.
pub fn delete_broker_status(stopped: bool) -> (c: u16)
    ensures
        c == (if stopped {
            204u16
        } else {
            404u16
        }),
{
    if stopped {
        204
    } else {
        404
    }
}

} // verus!
