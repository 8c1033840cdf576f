use vstd::prelude::*;
use crate::error::{decimal, decimal_text};
use crate::keys::{
    index_key, index_key_spec, request_key, request_key_spec, session_key, session_key_spec,
};
use crate::models::{Session, WebhookRequest};
use crate::query::as_map;

verus! {

/// One write of a batch sent to the store.
#[derive(Debug)]
pub enum StoreCommand {
    /// Set `field` of the hash at `key`.
    HashSet { key: String, field: String, value: String },
    /// Let `key` expire after `seconds`.
    Expire { key: String, seconds: u64 },
    /// Add or move `member` in the sorted set at `key`, with `score`.
    IndexAdd { key: String, member: String, score: i64 },
}

pub enum CommandView {
    HashSet(Seq<char>, Seq<char>, Seq<char>),
    Expire(Seq<char>, u64),
    IndexAdd(Seq<char>, Seq<char>, i64),
}

impl View for StoreCommand {
    type V = CommandView;

    open spec fn view(&self) -> CommandView {
        match self {
            StoreCommand::HashSet { key, field, value } => CommandView::HashSet(key@, field@, value@),
            StoreCommand::Expire { key, seconds } => CommandView::Expire(key@, *seconds),
            StoreCommand::IndexAdd { key, member, score } => CommandView::IndexAdd(key@, member@, *score),
        }
    }
}

pub open spec fn batch_view(cmds: Seq<StoreCommand>) -> Seq<CommandView> {
    cmds.map_values(|c: StoreCommand| c@)
}

/// The batch that stores a session: its three fields, then its time to live.
pub open spec fn session_batch(session_id: Seq<char>, created_at: Seq<char>, expires_at: Seq<char>, ttl: u64) -> Seq<CommandView> {
    let key = session_key_spec(session_id);
    seq![
        CommandView::HashSet(key, "session_id"@, session_id),
        CommandView::HashSet(key, "created_at"@, created_at),
        CommandView::HashSet(key, "expires_at"@, expires_at),
        CommandView::Expire(key, ttl),
    ]
}

/// The batch that stores a captured request: its fields and time to live, then
/// its entry in the session's order index, scored `score`, and the index's time to live.
pub open spec fn request_batch(
    session_id: Seq<char>,
    r: WebhookRequest,
    query_json: Seq<char>,
    headers_json: Seq<char>,
    ttl: u64,
    score: i64,
) -> Seq<CommandView> {
    let key = request_key_spec(session_id, r.request_id@);
    let index = index_key_spec(session_id);
    seq![
        CommandView::HashSet(key, "request_id"@, r.request_id@),
        CommandView::HashSet(key, "method"@, r.method@),
        CommandView::HashSet(key, "path"@, r.path@),
        CommandView::HashSet(key, "query_params"@, query_json),
        CommandView::HashSet(key, "headers"@, headers_json),
        CommandView::HashSet(key, "body"@, r.body@),
        CommandView::HashSet(key, "ip_address"@, r.ip_address@),
        CommandView::HashSet(key, "user_agent"@, r.user_agent@),
        CommandView::HashSet(key, "timestamp"@, r.timestamp@),
        CommandView::HashSet(key, "content_length"@, decimal(r.content_length as nat)),
        CommandView::Expire(key, ttl),
        CommandView::IndexAdd(index, r.request_id@, score),
        CommandView::Expire(index, ttl),
    ]
}

fn hash_set(key: &String, field: &str, value: &str) -> (r: StoreCommand)
    ensures
        r@ == CommandView::HashSet(key@, field@, value@),
{
    StoreCommand::HashSet {
        key: String::from_str(key.as_str()),
        field: String::from_str(field),
        value: String::from_str(value),
    }
}

/// The writes that store a session with time to live `ttl` seconds.
pub fn session_commands(session: &Session, ttl: u64) -> (r: Vec<StoreCommand>)
    ensures
        batch_view(r@) == session_batch(session.session_id@, session.created_at@, session.expires_at@, ttl),
{
    let key = session_key(session.session_id.as_str());
    let mut v: Vec<StoreCommand> = Vec::new();
    v.push(hash_set(&key, "session_id", session.session_id.as_str()));
    v.push(hash_set(&key, "created_at", session.created_at.as_str()));
    v.push(hash_set(&key, "expires_at", session.expires_at.as_str()));
    v.push(StoreCommand::Expire { key, seconds: ttl });
    assert(batch_view(v@) =~= session_batch(session.session_id@, session.created_at@, session.expires_at@, ttl));
    v
}

/// The writes that store a captured request of a session and index it.
/// `query_json` and `headers_json` are the encoded parameter and header maps.
pub fn request_commands(
    session_id: &str,
    req: &WebhookRequest,
    query_json: &str,
    headers_json: &str,
    ttl: u64,
    score: i64,
) -> (r: Vec<StoreCommand>)
    ensures
        batch_view(r@) == request_batch(session_id@, *req, query_json@, headers_json@, ttl, score),
{
    let key = request_key(session_id, req.request_id.as_str());
    let index = index_key(session_id);
    let mut v: Vec<StoreCommand> = Vec::new();
    v.push(hash_set(&key, "request_id", req.request_id.as_str()));
    v.push(hash_set(&key, "method", req.method.as_str()));
    v.push(hash_set(&key, "path", req.path.as_str()));
    v.push(hash_set(&key, "query_params", query_json));
    v.push(hash_set(&key, "headers", headers_json));
    v.push(hash_set(&key, "body", req.body.as_str()));
    v.push(hash_set(&key, "ip_address", req.ip_address.as_str()));
    v.push(hash_set(&key, "user_agent", req.user_agent.as_str()));
    v.push(hash_set(&key, "timestamp", req.timestamp.as_str()));
    let len_text = decimal_text(req.content_length);
    v.push(hash_set(&key, "content_length", len_text.as_str()));
    v.push(StoreCommand::Expire { key, seconds: ttl });
    v.push(
        StoreCommand::IndexAdd {
            key: String::from_str(index.as_str()),
            member: String::from_str(req.request_id.as_str()),
            score,
        },
    );
    v.push(StoreCommand::Expire { key: index, seconds: ttl });
    assert(batch_view(v@) =~= request_batch(session_id@, *req, query_json@, headers_json@, ttl, score));
    v
}

/// The value of a stored field, or empty when the hash lacks it.
pub open spec fn field_or_empty(fields: Seq<(String, String)>, name: Seq<char>) -> Seq<char> {
    if as_map(fields).contains_key(name) {
        as_map(fields)[name]
    } else {
        Seq::empty()
    }
}

proof fn lemma_as_map_suffix_free(v: Seq<(String, String)>, i: int, k: Seq<char>)
    requires
        0 <= i <= v.len(),
        forall|j: int| i <= j < v.len() ==> v[j].0@ != k,
    ensures
        as_map(v).contains_key(k) == as_map(v.subrange(0, i)).contains_key(k),
        as_map(v).contains_key(k) ==> as_map(v)[k] == as_map(v.subrange(0, i))[k],
    decreases v.len() - i,
{
    if i < v.len() {
        assert(v.drop_last().subrange(0, i) =~= v.subrange(0, i));
        lemma_as_map_suffix_free(v.drop_last(), i, k);
    } else {
        assert(v.subrange(0, i) =~= v);
    }
}

/// Looks a field up in a stored hash; the last pair of a name wins.
pub fn field_value(fields: &Vec<(String, String)>, name: &str) -> (r: String)
    ensures
        r@ == field_or_empty(fields@, name@),
{
    let key = String::from_str(name);
    let mut i: usize = fields.len();
    while i > 0
        invariant
            i <= fields@.len(),
            key@ == name@,
            forall|j: int| i <= j < fields@.len() ==> fields@[j].0@ != name@,
        decreases i,
    {
        if fields[i - 1].0 == key {
            proof {
                lemma_as_map_suffix_free(fields@, i as int, name@);
                assert(fields@.subrange(0, i as int).drop_last() =~= fields@.subrange(0, i - 1));
            }
            return fields[i - 1].1.clone();
        }
        i = i - 1;
    }
    proof {
        lemma_as_map_suffix_free(fields@, 0, name@);
    }
    String::new()
}

pub open spec fn is_digit(c: char) -> bool {
    '0' <= c && c <= '9'
}

/// Value of a run of decimal digits.
pub open spec fn digits_value(s: Seq<char>) -> nat
    decreases s.len(),
{
    if s.len() == 0 {
        0
    } else {
        digits_value(s.drop_last()) * 10 + (s.last() as nat - '0' as nat) as nat
    }
}

/// The text after an optional leading `+`.
pub open spec fn unsigned_part(s: Seq<char>) -> Seq<char> {
    if s.len() > 0 && s[0] == '+' {
        s.drop_first()
    } else {
        s
    }
}

pub open spec fn all_digits(d: Seq<char>) -> bool {
    forall|i: int| 0 <= i < d.len() ==> is_digit(#[trigger] d[i])
}

/// The unsigned number a text spells: an optional `+`, then one or more digits,
/// of a value that fits in `usize`.
pub open spec fn count_of_text(s: Seq<char>) -> Option<usize> {
    let d = unsigned_part(s);
    if d.len() > 0 && all_digits(d) && digits_value(d) <= usize::MAX {
        Some(digits_value(d) as usize)
    } else {
        None
    }
}

proof fn lemma_digits_monotone(s: Seq<char>, i: int)
    requires
        0 <= i <= s.len(),
        all_digits(s),
    ensures
        digits_value(s.subrange(0, i)) <= digits_value(s),
    decreases s.len() - i,
{
    if i < s.len() {
        assert(s.drop_last().subrange(0, i) =~= s.subrange(0, i));
        lemma_digits_monotone(s.drop_last(), i);
    } else {
        assert(s.subrange(0, i) =~= s);
    }
}

/// Reads a stored count.
pub fn parse_count(s: &str) -> (r: Option<usize>)
    ensures
        r == count_of_text(s@),
{
    let n = s.unicode_len();
    let start: usize = if n > 0 && s.get_char(0) == '+' { 1 } else { 0 };
    let ghost d = unsigned_part(s@);
    proof {
        assert(d =~= s@.subrange(start as int, n as int));
    }
    if start >= n {
        return None;
    }
    let mut value: usize = 0;
    let mut i: usize = start;
    while i < n
        invariant
            start <= i <= n,
            n == s@.len(),
            d == s@.subrange(start as int, n as int),
            d == unsigned_part(s@),
            forall|j: int| start <= j < i ==> is_digit(#[trigger] s@[j]),
            value as nat == digits_value(s@.subrange(start as int, i as int)),
        decreases n - i,
    {
        let c = s.get_char(i);
        let ghost pre = s@.subrange(start as int, i as int);
        proof {
            assert(s@.subrange(start as int, i + 1).drop_last() =~= pre);
        }
        if !('0' <= c && c <= '9') {
            proof {
                assert(d[i - start] == c);
                assert(!is_digit(d[i - start]));
                assert(!all_digits(d));
            }
            return None;
        }
        let digit = (c as u32 - '0' as u32) as usize;
        if value > (usize::MAX - digit) / 10 {
            proof {
                assert(value * 10 + digit > usize::MAX) by (nonlinear_arith)
                    requires
                        value > (usize::MAX - digit) / 10,
                        digit <= 9,
                ;
                let k = i + 1 - start;
                assert(d.subrange(0, k) =~= s@.subrange(start as int, i + 1));
                let pre1 = s@.subrange(start as int, i + 1);
                assert(pre1.last() == c);
                assert(digits_value(pre1) == digits_value(pre) * 10 + (c as nat - '0' as nat) as nat);
                assert(digits_value(pre1) == value * 10 + digit);
                if all_digits(d) {
                    lemma_digits_monotone(d, k);
                }
            }
            return None;
        }
        value = value * 10 + digit;
        i = i + 1;
    }
    proof {
        assert(s@.subrange(start as int, n as int) =~= d);
        assert forall|j: int| 0 <= j < d.len() implies is_digit(#[trigger] d[j]) by {
            assert(d[j] == s@[j + start]);
        }
    }
    Some(value)
}

/// The count a stored text spells, or 0 when it spells none.
pub open spec fn count_or_zero(s: Seq<char>) -> usize {
    match count_of_text(s) {
        Some(n) => n,
        None => 0,
    }
}

/// Rebuilds a captured request from the fields of its stored hash, with its
/// already decoded parameter and header maps; an empty hash (expired or never
/// written) gives `None`.  A missing field reads as empty, a missing or
/// malformed length as 0.
pub fn decode_request(
    fields: &Vec<(String, String)>,
    query_params: Vec<(String, String)>,
    headers: Vec<(String, String)>,
) -> (r: Option<WebhookRequest>)
    ensures
        fields@.len() == 0 <==> r is None,
        r matches Some(w) ==> {
            &&& w.request_id@ == field_or_empty(fields@, "request_id"@)
            &&& w.method@ == field_or_empty(fields@, "method"@)
            &&& w.path@ == field_or_empty(fields@, "path"@)
            &&& w.body@ == field_or_empty(fields@, "body"@)
            &&& w.ip_address@ == field_or_empty(fields@, "ip_address"@)
            &&& w.user_agent@ == field_or_empty(fields@, "user_agent"@)
            &&& w.timestamp@ == field_or_empty(fields@, "timestamp"@)
            &&& w.content_length == count_or_zero(field_or_empty(fields@, "content_length"@))
            &&& w.query_params@ == query_params@
            &&& w.headers@ == headers@
        },
{
    if fields.len() == 0 {
        return None;
    }
    let length_text = field_value(fields, "content_length");
    let content_length = match parse_count(length_text.as_str()) {
        Some(n) => n,
        None => 0,
    };
    Some(
        WebhookRequest {
            request_id: field_value(fields, "request_id"),
            method: field_value(fields, "method"),
            path: field_value(fields, "path"),
            query_params,
            headers,
            body: field_value(fields, "body"),
            ip_address: field_value(fields, "ip_address"),
            user_agent: field_value(fields, "user_agent"),
            timestamp: field_value(fields, "timestamp"),
            content_length,
        },
    )
}

/// Rebuilds a session from the fields of its stored hash; an empty hash
/// (expired or never written) gives `None`, a missing field reads as empty.
pub fn decode_session(fields: &Vec<(String, String)>) -> (r: Option<Session>)
    ensures
        fields@.len() == 0 <==> r is None,
        r matches Some(s) ==> {
            &&& s.session_id@ == field_or_empty(fields@, "session_id"@)
            &&& s.created_at@ == field_or_empty(fields@, "created_at"@)
            &&& s.expires_at@ == field_or_empty(fields@, "expires_at"@)
        },
{
    if fields.len() == 0 {
        return None;
    }
    Some(
        Session {
            session_id: field_value(fields, "session_id"),
            created_at: field_value(fields, "created_at"),
            expires_at: field_value(fields, "expires_at"),
        },
    )
}

/// Members one batch adds to the sorted set at `key`.
pub open spec fn added_members(batch: Seq<CommandView>, key: Seq<char>) -> Set<Seq<char>> {
    Set::new(
        |m: Seq<char>|
            exists|i: int, score: i64|
                0 <= i < batch.len() && batch[i] == CommandView::IndexAdd(key, m, score),
    )
}

/// Members of the sorted set at `key` once the batches have run; its
/// cardinality is what a count of the session's requests reads.
pub open spec fn index_members(batches: Seq<Seq<CommandView>>, key: Seq<char>) -> Set<Seq<char>>
    decreases batches.len(),
{
    if batches.len() == 0 {
        Set::empty()
    } else {
        index_members(batches.drop_last(), key).union(added_members(batches.last(), key))
    }
}

proof fn lemma_request_batch_adds_one(
    session_id: Seq<char>,
    r: WebhookRequest,
    query_json: Seq<char>,
    headers_json: Seq<char>,
    ttl: u64,
    score: i64,
)
    ensures
        added_members(request_batch(session_id, r, query_json, headers_json, ttl, score), index_key_spec(session_id))
            == set![r.request_id@],
{
    let b = request_batch(session_id, r, query_json, headers_json, ttl, score);
    let key = index_key_spec(session_id);
    assert(b[11] == CommandView::IndexAdd(key, r.request_id@, score));
    assert forall|m: Seq<char>| added_members(b, key).contains(m) implies m == r.request_id@ by {
        let (i, sc) = choose|i: int, sc: i64| 0 <= i < b.len() && b[i] == CommandView::IndexAdd(key, m, sc);
        assert(i == 11);
    }
    assert(added_members(b, key).contains(r.request_id@));
    assert(added_members(b, key) =~= set![r.request_id@]);
}

/// After the write batches of `n` captures with distinct identifiers into one
/// session, the session's order index holds exactly `n` members.
pub proof fn count_after_captures(
    session_id: Seq<char>,
    reqs: Seq<WebhookRequest>,
    query_jsons: Seq<Seq<char>>,
    headers_jsons: Seq<Seq<char>>,
    ttl: u64,
    scores: Seq<i64>,
    batches: Seq<Seq<CommandView>>,
)
    requires
        reqs.map_values(|r: WebhookRequest| r.request_id@).no_duplicates(),
        batches.len() == reqs.len(),
        query_jsons.len() == reqs.len(),
        headers_jsons.len() == reqs.len(),
        scores.len() == reqs.len(),
        forall|i: int|
            0 <= i < batches.len() ==> batches[i] == request_batch(
                session_id,
                reqs[i],
                query_jsons[i],
                headers_jsons[i],
                ttl,
                scores[i],
            ),
    ensures
        index_members(batches, index_key_spec(session_id)).len() == reqs.len(),
    decreases reqs.len(),
{
    let ids = reqs.map_values(|r: WebhookRequest| r.request_id@);
    lemma_members_are_ids(session_id, reqs, query_jsons, headers_jsons, ttl, scores, batches);
    ids.unique_seq_to_set();
}

proof fn lemma_members_are_ids(
    session_id: Seq<char>,
    reqs: Seq<WebhookRequest>,
    query_jsons: Seq<Seq<char>>,
    headers_jsons: Seq<Seq<char>>,
    ttl: u64,
    scores: Seq<i64>,
    batches: Seq<Seq<CommandView>>,
)
    requires
        batches.len() == reqs.len(),
        query_jsons.len() == reqs.len(),
        headers_jsons.len() == reqs.len(),
        scores.len() == reqs.len(),
        forall|i: int|
            0 <= i < batches.len() ==> batches[i] == request_batch(
                session_id,
                reqs[i],
                query_jsons[i],
                headers_jsons[i],
                ttl,
                scores[i],
            ),
    ensures
        index_members(batches, index_key_spec(session_id)) == reqs.map_values(
            |r: WebhookRequest| r.request_id@,
        ).to_set(),
    decreases reqs.len(),
{
    let ids = reqs.map_values(|r: WebhookRequest| r.request_id@);
    if reqs.len() == 0 {
        assert(ids.to_set() =~= Set::<Seq<char>>::empty());
    } else {
        let k = reqs.len() - 1;
        lemma_members_are_ids(
            session_id,
            reqs.drop_last(),
            query_jsons.drop_last(),
            headers_jsons.drop_last(),
            ttl,
            scores.drop_last(),
            batches.drop_last(),
        );
        lemma_request_batch_adds_one(session_id, reqs[k], query_jsons[k], headers_jsons[k], ttl, scores[k]);
        let prev = reqs.drop_last().map_values(|r: WebhookRequest| r.request_id@);
        assert(ids =~= prev.push(reqs[k].request_id@));
        assert(ids.to_set() =~= prev.to_set().insert(reqs[k].request_id@)) by {
            assert forall|m: Seq<char>| ids.to_set().contains(m) <==> prev.to_set().insert(reqs[k].request_id@).contains(m) by {
                if ids.contains(m) {
                    let i = choose|i: int| 0 <= i < ids.len() && ids[i] == m;
                    if i < k {
                        assert(prev[i] == m);
                    }
                }
                if prev.contains(m) {
                    let i = choose|i: int| 0 <= i < prev.len() && prev[i] == m;
                    assert(ids[i] == m);
                }
                if m == reqs[k].request_id@ {
                    assert(ids[k] == m);
                }
            }
        }
        assert(index_members(batches, index_key_spec(session_id)) =~= prev.to_set().insert(reqs[k].request_id@));
    }
}

} // verus!
