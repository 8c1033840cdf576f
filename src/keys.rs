use vstd::prelude::*;

verus! {

/// `session:{id}`: the hash holding a session's fields.
pub open spec fn session_key_spec(session_id: Seq<char>) -> Seq<char> {
    "session:"@ + session_id
}

/// `request:{session}:{request}`: the hash holding one captured request.
pub open spec fn request_key_spec(session_id: Seq<char>, request_id: Seq<char>) -> Seq<char> {
    "request:"@ + session_id + ":"@ + request_id
}

/// `session:{id}:requests`: the sorted set ordering a session's requests.
pub open spec fn index_key_spec(session_id: Seq<char>) -> Seq<char> {
    "session:"@ + session_id + ":requests"@
}

pub fn session_key(session_id: &str) -> (r: String)
    ensures
        r@ == session_key_spec(session_id@),
{
    let mut k = String::from_str("session:");
    k.append(session_id);
    k
}

pub fn request_key(session_id: &str, request_id: &str) -> (r: String)
    ensures
        r@ == request_key_spec(session_id@, request_id@),
{
    let mut k = String::from_str("request:");
    k.append(session_id);
    k.append(":");
    k.append(request_id);
    k
}

pub fn index_key(session_id: &str) -> (r: String)
    ensures
        r@ == index_key_spec(session_id@),
{
    let mut k = String::from_str("session:");
    k.append(session_id);
    k.append(":requests");
    k
}

} // verus!
