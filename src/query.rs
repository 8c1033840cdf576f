use vstd::prelude::*;

verus! {

/// The mapping an association list denotes: later pairs override earlier ones.
pub open spec fn as_map(v: Seq<(String, String)>) -> Map<Seq<char>, Seq<char>>
    decreases v.len(),
{
    if v.len() == 0 {
        Map::empty()
    } else {
        as_map(v.drop_last()).insert(v.last().0@, v.last().1@)
    }
}

/// No key occurs twice.
pub open spec fn unique_keys(v: Seq<(String, String)>) -> bool {
    forall|i: int, j: int| 0 <= i < j < v.len() ==> v[i].0@ != v[j].0@
}

/// Pieces of `s` between occurrences of `sep`, as `str::split` yields them.
pub open spec fn split_on(s: Seq<char>, sep: char) -> Seq<Seq<char>>
    decreases s.len(),
{
    if s.len() == 0 {
        seq![Seq::empty()]
    } else {
        let prev = split_on(s.drop_last(), sep);
        if s.last() == sep {
            prev.push(Seq::empty())
        } else {
            prev.update(prev.len() - 1, prev.last().push(s.last()))
        }
    }
}

/// Position of the first `c` in `s`, or `s.len()` if there is none.
pub open spec fn first_pos(s: Seq<char>, c: char) -> int
    decreases s.len(),
{
    if s.len() == 0 {
        0
    } else if s[0] == c {
        0
    } else {
        1 + first_pos(s.subrange(1, s.len() as int), c)
    }
}

/// Key of a `key=value` parameter: all of it when there is no `=`.
pub open spec fn param_key(p: Seq<char>) -> Seq<char> {
    p.subrange(0, first_pos(p, '='))
}

/// Value of a `key=value` parameter: empty when there is no `=`.
pub open spec fn param_value(p: Seq<char>) -> Seq<char> {
    let k = first_pos(p, '=');
    if k < p.len() {
        p.subrange(k + 1, p.len() as int)
    } else {
        Seq::empty()
    }
}

/// The parameters of `parts` (skipping empty ones), the last one of a key winning.
pub open spec fn params_map(parts: Seq<Seq<char>>) -> Map<Seq<char>, Seq<char>>
    decreases parts.len(),
{
    if parts.len() == 0 {
        Map::empty()
    } else {
        let m = params_map(parts.drop_last());
        let p = parts.last();
        if p.len() == 0 {
            m
        } else {
            m.insert(param_key(p), param_value(p))
        }
    }
}

/// What a query string means: `a=b`, `a=` and `a` joined by `&`.
pub open spec fn query_map(q: Seq<char>) -> Map<Seq<char>, Seq<char>> {
    params_map(split_on(q, '&'))
}

proof fn lemma_as_map_update(v: Seq<(String, String)>, i: int, k: String, val: String)
    requires
        unique_keys(v),
        0 <= i < v.len(),
        v[i].0@ == k@,
    ensures
        as_map(v.update(i, (k, val))) == as_map(v).insert(k@, val@),
        unique_keys(v.update(i, (k, val))),
    decreases v.len(),
{
    let u = v.update(i, (k, val));
    if i == v.len() - 1 {
        assert(u.drop_last() =~= v.drop_last());
        assert(as_map(u) =~= as_map(v).insert(k@, val@));
    } else {
        assert(u.drop_last() =~= v.drop_last().update(i, (k, val)));
        lemma_as_map_update(v.drop_last(), i, k, val);
        assert(v.last().0@ != k@);
        assert(as_map(u) =~= as_map(v).insert(k@, val@));
    }
}

proof fn lemma_as_map_absent(v: Seq<(String, String)>, k: Seq<char>)
    requires
        forall|j: int| 0 <= j < v.len() ==> v[j].0@ != k,
    ensures
        !as_map(v).contains_key(k),
    decreases v.len(),
{
    if v.len() > 0 {
        lemma_as_map_absent(v.drop_last(), k);
    }
}

/// Sets `key` to `value` in an association list, replacing an earlier value.
pub fn insert_last_wins(v: &mut Vec<(String, String)>, key: String, value: String)
    requires
        unique_keys(old(v)@),
    ensures
        unique_keys(final(v)@),
        as_map(final(v)@) == as_map(old(v)@).insert(key@, value@),
{
    let n = v.len();
    let mut i: usize = 0;
    while i < n
        invariant
            n == v.len(),
            i <= n,
            v@ == old(v)@,
            unique_keys(v@),
            forall|j: int| 0 <= j < i ==> v@[j].0@ != key@,
        decreases n - i,
    {
        if v[i].0 == key {
            proof {
                lemma_as_map_update(v@, i as int, key, value);
            }
            let ghost before = v@;
            v.set(i, (key, value));
            assert(v@ == before.update(i as int, (key, value)));
            return;
        }
        i = i + 1;
    }
    proof {
        lemma_as_map_absent(v@, key@);
        assert(v@.push((key, value)).drop_last() =~= v@);
    }
    v.push((key, value));
}

pub proof fn lemma_first_pos(s: Seq<char>, c: char, k: int)
    requires
        0 <= k <= s.len(),
        forall|j: int| 0 <= j < k ==> s[j] != c,
        k == s.len() || s[k] == c,
    ensures
        first_pos(s, c) == k,
    decreases s.len(),
{
    if s.len() > 0 && s[0] != c {
        lemma_first_pos(s.subrange(1, s.len() as int), c, k - 1);
    }
}

/// Splits one parameter into its key and value.
fn split_param(p: &str) -> (r: (String, String))
    ensures
        r.0@ == param_key(p@),
        r.1@ == param_value(p@),
{
    let n = p.unicode_len();
    let mut k: usize = 0;
    while k < n && p.get_char(k) != '='
        invariant
            n == p@.len(),
            k <= n,
            forall|j: int| 0 <= j < k ==> p@[j] != '=',
        decreases n - k,
    {
        k = k + 1;
    }
    proof {
        lemma_first_pos(p@, '=', k as int);
    }
    let key = String::from_str(p.substring_char(0, k));
    if k < n {
        (key, String::from_str(p.substring_char(k + 1, n)))
    } else {
        (key, String::new())
    }
}

proof fn lemma_split_step(s: Seq<char>, sep: char, i: int)
    requires
        0 <= i < s.len(),
    ensures
        split_on(s.subrange(0, i + 1), sep) == ({
            let prev = split_on(s.subrange(0, i), sep);
            if s[i] == sep {
                prev.push(Seq::empty())
            } else {
                prev.update(prev.len() - 1, prev.last().push(s[i]))
            }
        }),
{
    assert(s.subrange(0, i + 1).drop_last() =~= s.subrange(0, i));
}

/// Parses a query string into unique `(key, value)` pairs: parameters are joined
/// by `&`, empty ones are skipped, a parameter without `=` has an empty value,
/// and a repeated key keeps its last value.
pub fn parse_query(q: &str) -> (r: Vec<(String, String)>)
    ensures
        unique_keys(r@),
        as_map(r@) == query_map(q@),
{
    let n = q.unicode_len();
    let mut out: Vec<(String, String)> = Vec::new();
    let mut start: usize = 0;
    let mut i: usize = 0;
    let ghost mut done: Seq<Seq<char>> = Seq::empty();
    proof {
        assert(q@.subrange(0, 0) =~= Seq::<char>::empty());
        assert(q@.subrange(0, 0) =~= q@.subrange(start as int, 0));
    }
    while i < n
        invariant
            n == q@.len(),
            start <= i <= n,
            split_on(q@.subrange(0, i as int), '&') == done.push(q@.subrange(start as int, i as int)),
            unique_keys(out@),
            as_map(out@) == params_map(done),
        decreases n - i,
    {
        proof {
            lemma_split_step(q@, '&', i as int);
        }
        if q.get_char(i) == '&' {
            let part = q.substring_char(start, i);
            let ghost prev_done = done;
            proof {
                done = done.push(part@);
                assert(done.drop_last() =~= prev_done);
            }
            if start < i {
                let (k, v) = split_param(part);
                insert_last_wins(&mut out, k, v);
            }
            start = i + 1;
            proof {
                assert(q@.subrange(start as int, i + 1) =~= Seq::<char>::empty());
            }
        } else {
            proof {
                assert(q@.subrange(start as int, i + 1) =~= q@.subrange(start as int, i as int).push(q@[i as int]));
            }
        }
        i = i + 1;
    }
    let part = q.substring_char(start, n);
    let ghost prev_done = done;
    proof {
        assert(q@.subrange(0, n as int) =~= q@);
        done = done.push(part@);
        assert(done.drop_last() =~= prev_done);
    }
    if start < n {
        let (k, v) = split_param(part);
        insert_last_wins(&mut out, k, v);
    }
    out
}

/// Collapses header lines into unique names, the last line of a name winning.
pub fn collapse_headers(lines: Vec<(String, String)>) -> (r: Vec<(String, String)>)
    ensures
        unique_keys(r@),
        as_map(r@) == as_map(lines@),
{
    let mut out: Vec<(String, String)> = Vec::new();
    let n = lines.len();
    let mut i: usize = 0;
    while i < n
        invariant
            n == lines.len(),
            i <= n,
            unique_keys(out@),
            as_map(out@) == as_map(lines@.subrange(0, i as int)),
        decreases n - i,
    {
        proof {
            assert(lines@.subrange(0, i + 1).drop_last() =~= lines@.subrange(0, i as int));
        }
        let k = lines[i].0.clone();
        let v = lines[i].1.clone();
        insert_last_wins(&mut out, k, v);
        i = i + 1;
    }
    proof {
        assert(lines@.subrange(0, n as int) =~= lines@);
    }
    out
}

} // verus!
