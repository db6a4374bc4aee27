//! The planning half of the HTTP forwarder: extracting the routing name
//! from the path, rewriting the path for the backend, and filtering
//! hop-by-hop headers in both directions. Sending the request and relaying
//! the response happen outside the library with exactly these values.

use vstd::prelude::*;
use vstd::string::{StrSliceExecFns, StringExecFns};

verus! {

// ---------- case folding ----------

/// ASCII lowercase of one character; everything else is untouched.
pub open spec fn ascii_lower_char(c: char) -> char {
    if 65 <= c as u32 <= 90 {
        ((c as u32 + 32) as u32) as char
    } else {
        c
    }
}

/// ASCII lowercase of a string.
pub open spec fn ascii_lower(s: Seq<char>) -> Seq<char> {
    Seq::new(s.len(), |i: int| ascii_lower_char(s[i]))
}

fn ascii_lower_char_exec(c: char) -> (r: char)
    ensures
        r == ascii_lower_char(c),
{
    let u = c as u32;
    if 65 <= u && u <= 90 {
        ((u + 32) as u8) as char
    } else {
        c
    }
}

/// ASCII-lowercase a string, as header names are folded for comparison.
pub fn ascii_lower_string(s: &str) -> (r: String)
    ensures
        r@ == ascii_lower(s@),
{
    let n = s.unicode_len();
    let mut out = String::new();
    let mut i: usize = 0;
    while i < n
        invariant
            n == s@.len(),
            i <= n,
            out@.len() == i,
            forall|k: int| 0 <= k < i ==> out@[k] == ascii_lower_char(s@[k]),
        decreases n - i,
    {
        crate::codec::push_char(&mut out, ascii_lower_char_exec(s.get_char(i)));
        i += 1;
    }
    proof {
        assert(out@ =~= ascii_lower(s@));
    }
    out
}

/// Two strings hold the same characters.
pub fn str_eq(a: &str, b: &str) -> (r: bool)
    ensures
        r == (a@ == b@),
{
    let n = a.unicode_len();
    let m = b.unicode_len();
    if n != m {
        return false;
    }
    let mut i: usize = 0;
    while i < n
        invariant
            n == a@.len(),
            n == b@.len(),
            i <= n,
            forall|k: int| 0 <= k < i ==> a@[k] == b@[k],
        decreases n - i,
    {
        if a.get_char(i) != b.get_char(i) {
            return false;
        }
        i += 1;
    }
    proof {
        assert(a@ =~= b@);
    }
    true
}

// ---------- hop-by-hop headers ----------

/// The transport headers a proxy must not relay, by their lowercase name.
pub open spec fn is_hop_name(n: Seq<char>) -> bool {
    n == "host"@ || n == "connection"@ || n == "transfer-encoding"@ || n == "content-length"@
}

/// Whether a header name, in any letter casing, is hop-by-hop.
pub open spec fn is_hop_header(name: Seq<char>) -> bool {
    is_hop_name(ascii_lower(name))
}

/// Whether an already-lowercased header name must not be forwarded.
pub fn should_skip_header(name: &str) -> (r: bool)
    ensures
        r == is_hop_name(name@),
{
    str_eq(name, "host") || str_eq(name, "connection") || str_eq(name, "transfer-encoding")
        || str_eq(name, "content-length")
}

/// The predicate that keeps a header: its name is not hop-by-hop.
pub open spec fn keep_pred() -> spec_fn((String, String)) -> bool {
    |h: (String, String)| !is_hop_header(h.0@)
}

/// The headers that cross the proxy: everything except hop-by-hop ones,
/// kept verbatim and in order.
pub open spec fn filtered_spec(hs: Seq<(String, String)>) -> Seq<(String, String)> {
    hs.filter(keep_pred())
}

/// Drop hop-by-hop headers (matched in any letter casing) and keep every
/// other header exactly as it came, in order.
pub fn filter_headers(headers: &Vec<(String, String)>) -> (r: Vec<(String, String)>)
    ensures
        r@ == filtered_spec(headers@),
{
    let n = headers.len();
    let mut out: Vec<(String, String)> = Vec::new();
    let mut i: usize = 0;
    proof {
        reveal(Seq::filter);
        assert(headers@.take(0) =~= Seq::<(String, String)>::empty());
    }
    while i < n
        invariant
            n == headers@.len(),
            i <= n,
            out@ == headers@.take(i as int).filter(keep_pred()),
        decreases n - i,
    {
        let lower = ascii_lower_string(headers[i].0.as_str());
        proof {
            reveal(Seq::filter);
            assert(headers@.take(i as int + 1).drop_last() =~= headers@.take(i as int));
            assert(headers@.take(i as int + 1).last() == headers@[i as int]);
        }
        if !should_skip_header(lower.as_str()) {
            let name_kept = headers[i].0.clone();
            let value_kept = headers[i].1.clone();
            proof {
                assert((name_kept, value_kept) == headers@[i as int]);
            }
            out.push((name_kept, value_kept));
        }
        i += 1;
    }
    proof {
        assert(headers@.take(n as int) =~= headers@);
    }
    out
}

/// No header that folds to `content-length` survives filtering, and a
/// header that folds to `x-api-key` always survives, unchanged.
pub proof fn lemma_header_filtering(hs: Seq<(String, String)>, i: int)
    requires
        0 <= i < hs.len(),
    ensures
        ascii_lower(hs[i].0@) == "content-length"@ ==> !filtered_spec(hs).contains(hs[i]),
        ascii_lower(hs[i].0@) == "x-api-key"@ ==> filtered_spec(hs).contains(hs[i]),
{
    reveal_strlit("host");
    reveal_strlit("connection");
    reveal_strlit("transfer-encoding");
    reveal_strlit("content-length");
    reveal_strlit("x-api-key");
    if ascii_lower(hs[i].0@) == "content-length"@ {
        if filtered_spec(hs).contains(hs[i]) {
            let j = choose|j: int|
                0 <= j < filtered_spec(hs).len() && filtered_spec(hs)[j] == hs[i];
            hs.lemma_filter_pred(keep_pred(), j);
        }
    }
    if ascii_lower(hs[i].0@) == "x-api-key"@ {
        assert("x-api-key"@.len() == 9);
        assert("host"@.len() == 4);
        assert("connection"@.len() == 10);
        assert("transfer-encoding"@.len() == 17);
        assert("content-length"@.len() == 14);
        assert(!is_hop_header(hs[i].0@));
        assert(keep_pred()(hs[i]));
        hs.lemma_filter_contains(keep_pred(), i);
    }
}

// ---------- path handling ----------

/// The path with its leading slashes removed.
pub open spec fn skip_slashes(path: Seq<char>) -> Seq<char>
    decreases path.len(),
{
    if path.len() > 0 && path[0] == '/' {
        skip_slashes(path.drop_first())
    } else {
        path
    }
}

/// The characters up to the next slash.
pub open spec fn segment_prefix(s: Seq<char>) -> Seq<char>
    decreases s.len(),
{
    if s.len() == 0 || s[0] == '/' {
        Seq::empty()
    } else {
        seq![s[0]] + segment_prefix(s.drop_first())
    }
}

/// The routing name of a request: its first path segment.
pub open spec fn app_name_of(path: Seq<char>) -> Seq<char> {
    segment_prefix(skip_slashes(path))
}

/// Extract the first path segment, the name the route table is keyed by.
pub fn extract_app_name(path: &str) -> (r: String)
    ensures
        r@ == app_name_of(path@),
{
    let n = path.unicode_len();
    let mut i: usize = 0;
    proof {
        assert(path@.skip(0) =~= path@);
    }
    while i < n && path.get_char(i) == '/'
        invariant
            n == path@.len(),
            i <= n,
            skip_slashes(path@) == skip_slashes(path@.skip(i as int)),
        decreases n - i,
    {
        proof {
            assert(path@.skip(i as int)[0] == path@[i as int]);
            assert(path@.skip(i as int).drop_first() =~= path@.skip(i as int + 1));
        }
        i += 1;
    }
    proof {
        if i < n {
            assert(path@.skip(i as int)[0] == path@[i as int]);
        }
        assert(skip_slashes(path@) == path@.skip(i as int));
    }
    let mut out = String::new();
    let mut j: usize = i;
    while j < n && path.get_char(j) != '/'
        invariant
            n == path@.len(),
            i <= j <= n,
            skip_slashes(path@) == path@.skip(i as int),
            segment_prefix(path@.skip(i as int)) == out@ + segment_prefix(path@.skip(j as int)),
        decreases n - j,
    {
        let ghost pre = out@;
        crate::codec::push_char(&mut out, path.get_char(j));
        proof {
            assert(path@.skip(j as int)[0] == path@[j as int]);
            assert(path@.skip(j as int).drop_first() =~= path@.skip(j as int + 1));
            assert(pre + (seq![path@[j as int]] + segment_prefix(path@.skip(j as int + 1))) =~= out@
                + segment_prefix(path@.skip(j as int + 1)));
        }
        j += 1;
    }
    proof {
        if j < n {
            assert(path@.skip(j as int)[0] == path@[j as int]);
        }
        assert(segment_prefix(path@.skip(j as int)) =~= Seq::<char>::empty());
        assert(out@ + Seq::<char>::empty() =~= out@);
    }
    out
}

/// The path as the backend sees it: the `/<name>` prefix removed, an empty
/// remainder replaced by `/`, anything else untouched.
pub open spec fn rewrite_path(path: Seq<char>, app: Seq<char>) -> Seq<char> {
    let prefix = seq!['/'] + app;
    let stripped = if prefix.is_prefix_of(path) {
        path.skip(prefix.len() as int)
    } else {
        path
    };
    if stripped.len() == 0 {
        seq!['/']
    } else {
        stripped
    }
}

/// The rewritten path with the query string, if any, appended after `?`.
pub open spec fn path_and_query(path: Seq<char>, app: Seq<char>, query: Option<Seq<char>>) -> Seq<
    char,
> {
    match query {
        Some(q) => rewrite_path(path, app) + seq!['?'] + q,
        None => rewrite_path(path, app),
    }
}

fn strip_app_prefix(path: &str, app: &String) -> (r: String)
    ensures
        r@ == rewrite_path(path@, app@),
{
    let n = path.unicode_len();
    let m = app.as_str().unicode_len();
    let mut matched = n > m && path.get_char(0) == '/';
    proof {
        let prefix = seq!['/'] + app@;
        if n <= m {
            assert(prefix.len() > path@.len());
        } else if path@[0] != '/' {
            assert(!prefix.is_prefix_of(path@)) by {
                if prefix.is_prefix_of(path@) {
                    assert(path@.subrange(0, prefix.len() as int)[0] == path@[0]);
                    assert(prefix[0] == '/');
                }
            }
        }
    }
    let mut k: usize = 0;
    while matched && k < m
        invariant
            n == path@.len(),
            m == app@.len(),
            k <= m,
            matched ==> n > m && path@[0] == '/' && (forall|t: int|
                0 <= t < k ==> path@[1 + t] == app@[t]),
            !matched ==> !(seq!['/'] + app@).is_prefix_of(path@),
        decreases m - k,
    {
        if path.get_char(1 + k) != app.as_str().get_char(k) {
            proof {
                let prefix = seq!['/'] + app@;
                assert(!prefix.is_prefix_of(path@)) by {
                    if prefix.is_prefix_of(path@) {
                        assert(path@.subrange(0, prefix.len() as int)[k + 1] == path@[k + 1]);
                        assert(prefix[k + 1] == app@[k as int]);
                    }
                }
            }
            return String::from_str(path);
        } else {
            k += 1;
        }
    }
    if matched {
        proof {
            let prefix = seq!['/'] + app@;
            assert(k == m);
            assert forall|t: int| 0 <= t < prefix.len() implies prefix[t] == path@.subrange(
                0,
                prefix.len() as int,
            )[t] by {
                assert(path@.subrange(0, prefix.len() as int)[t] == path@[t]);
                if t == 0 {
                    assert(prefix[0] == '/');
                } else {
                    assert(prefix[t] == app@[t - 1]);
                    assert(path@[1 + (t - 1)] == app@[t - 1]);
                }
            }
            assert(prefix =~= path@.subrange(0, prefix.len() as int));
            assert(prefix.is_prefix_of(path@));
        }
        if n == m + 1 {
            proof {
                reveal_strlit("/");
                assert(path@.skip(m as int + 1).len() == 0);
                assert("/"@ =~= seq!['/']);
            }
            return String::from_str("/");
        }
        let stripped = path.substring_char(m + 1, n);
        proof {
            assert(stripped@ =~= path@.skip(m as int + 1));
        }
        return String::from_str(stripped);
    }
    if n == 0 {
        proof {
            reveal_strlit("/");
            assert("/"@ =~= seq!['/']);
        }
        return String::from_str("/");
    }
    String::from_str(path)
}

/// Build the path-and-query the request is forwarded with.
pub fn build_path_and_query(path: &str, app: &String, query: Option<&String>) -> (r: String)
    ensures
        r@ == path_and_query(
            path@,
            app@,
            match query {
                Some(q) => Some(q@),
                None => None,
            },
        ),
{
    let mut out = strip_app_prefix(path, app);
    match query {
        Some(q) => {
            crate::codec::push_char(&mut out, '?');
            out.append(q.as_str());
            proof {
                assert(out@ =~= rewrite_path(path@, app@) + seq!['?'] + q@);
            }
        },
        None => {},
    }
    out
}

/// The full backend URL for a forwarded request.
pub fn build_target_url(base: &String, path: &str, app: &String, query: Option<&String>) -> (r:
    String)
    ensures
        r@ == base@ + path_and_query(
            path@,
            app@,
            match query {
                Some(q) => Some(q@),
                None => None,
            },
        ),
{
    let mut out = base.clone();
    let pq = build_path_and_query(path, app, query);
    out.append(pq.as_str());
    out
}

} // verus!
