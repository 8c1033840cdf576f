use vstd::prelude::*;
use crate::query::first_pos;

verus! {

/// A character of Unicode's White_Space property, as `char::is_whitespace` has it.
pub open spec fn is_white_space(c: char) -> bool {
    let u = c as u32;
    (0x9 <= u && u <= 0xd) || u == 0x20 || u == 0x85 || u == 0xa0 || u == 0x1680 || (0x2000 <= u
        && u <= 0x200a) || u == 0x2028 || u == 0x2029 || u == 0x202f || u == 0x205f || u == 0x3000
}

/// `t` is `s` without its leading and trailing white space.
pub open spec fn is_trim_of(t: Seq<char>, s: Seq<char>) -> bool {
    exists|a: int, b: int|
        {
            &&& 0 <= a <= b <= s.len()
            &&& t == s.subrange(a, b)
            &&& forall|i: int| 0 <= i < a ==> is_white_space(#[trigger] s[i])
            &&& forall|i: int| b <= i < s.len() ==> is_white_space(#[trigger] s[i])
            &&& a < b ==> !is_white_space(s[a]) && !is_white_space(s[b - 1])
        }
}

/// Relies on `str::trim`: the text without leading and trailing characters of
/// the White_Space property, as its documentation defines it.
#[verifier::external_body]
fn trim_text(s: &str) -> (r: String)
    ensures
        is_trim_of(r@, s@),
{
    s.trim().to_string()
}

/// The text before the first comma, or all of it.
pub open spec fn first_item(s: Seq<char>) -> Seq<char> {
    s.subrange(0, first_pos(s, ','))
}

/// The address a call came from: the `X-Real-IP` header, else the first entry of
/// `X-Forwarded-For` without surrounding white space, else the peer address, else `unknown`.
pub fn client_address(real_ip: Option<&str>, forwarded_for: Option<&str>, peer: Option<&str>) -> (r: String)
    ensures
        real_ip matches Some(ip) ==> r@ == ip@,
        real_ip is None ==> (forwarded_for matches Some(f) ==> is_trim_of(r@, first_item(f@))),
        real_ip is None && forwarded_for is None ==> (peer matches Some(p) ==> r@ == p@),
        real_ip is None && forwarded_for is None && peer is None ==> r@ == "unknown"@,
{
    match real_ip {
        Some(ip) => String::from_str(ip),
        None => match forwarded_for {
            Some(f) => {
                let n = f.unicode_len();
                let mut k: usize = 0;
                while k < n && f.get_char(k) != ','
                    invariant
                        n == f@.len(),
                        k <= n,
                        forall|j: int| 0 <= j < k ==> f@[j] != ',',
                    decreases n - k,
                {
                    k = k + 1;
                }
                proof {
                    crate::query::lemma_first_pos(f@, ',', k as int);
                }
                trim_text(f.substring_char(0, k))
            },
            None => match peer {
                Some(p) => String::from_str(p),
                None => String::from_str("unknown"),
            },
        },
    }
}

/// The caller's `User-Agent`, or `unknown`.
pub fn user_agent_or_unknown(user_agent: Option<&str>) -> (r: String)
    ensures
        user_agent matches Some(u) ==> r@ == u@,
        user_agent is None ==> r@ == "unknown"@,
{
    match user_agent {
        Some(u) => String::from_str(u),
        None => String::from_str("unknown"),
    }
}

} // verus!
