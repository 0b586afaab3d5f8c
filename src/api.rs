//! Values that the HTTP layer computes: webhook addresses, paging and file URLs.
use vstd::prelude::*;

verus! {

/// The base URL of the service's webhooks in the named deployment.
pub open spec fn webhook_base(project_env: Seq<char>) -> Seq<char> {
    if project_env == "prod"@ {
        "https://echo-server.fly.dev/webhook"@
    } else if project_env == "development"@ {
        "https://8a40d8967902.ngrok-free.app/webhook"@
    } else {
        "/webhook"@
    }
}

/// The base URL of the service's webhooks in the deployment named `project_env`.
pub fn get_default_webhook_base(project_env: &str) -> (r: String)
    ensures
        r@ == webhook_base(project_env@),
{
    let env = project_env.to_owned();
    if env == String::from_str("prod") {
        String::from_str("https://echo-server.fly.dev/webhook")
    } else if env == String::from_str("development") {
        String::from_str("https://8a40d8967902.ngrok-free.app/webhook")
    } else {
        String::from_str("/webhook")
    }
}

/// The status webhook of a tool: `<base>/<tool_type>/status`.
pub fn make_default_webhook_url(project_env: &str, tool_type: &str) -> (r: String)
    ensures
        r@ == webhook_base(project_env@) + "/"@ + tool_type@ + "/status"@,
{
    let mut url = get_default_webhook_base(project_env);
    url.append("/");
    url.append(tool_type);
    url.append("/status");
    url
}

/// The page size when a request names none.
pub const DEFAULT_LIMIT: usize = 50;

/// The page size when a request names none.
pub fn default_limit() -> (r: usize)
    ensures
        r == DEFAULT_LIMIT,
{
    DEFAULT_LIMIT
}

/// A page of a listing, with optional filters.
#[derive(Debug)]
pub struct PaginationParameters<T> {
    pub offset: usize,
    pub limit: usize,
    pub filters: Option<T>,
}

impl<T> Default for PaginationParameters<T> {
    fn default() -> (r: Self)
        ensures
            r.offset == 0,
            r.limit == DEFAULT_LIMIT,
            r.filters is None,
    {
        PaginationParameters { offset: 0, limit: DEFAULT_LIMIT, filters: None }
    }
}

/// Whether `pattern` occurs in `s` at position `i`.
pub open spec fn occurs_at(s: Seq<char>, pattern: Seq<char>, i: int) -> bool {
    0 <= i && i + pattern.len() <= s.len() && s.subrange(i, i + pattern.len()) == pattern
}

/// Whether `pattern` occurs in `s`.
pub open spec fn contains_text(s: Seq<char>, pattern: Seq<char>) -> bool {
    exists|i: int| #[trigger] occurs_at(s, pattern, i)
}

fn occurs_here(s: &str, n: usize, pattern: &str, m: usize, i: usize) -> (b: bool)
    requires
        n == s@.len(),
        m == pattern@.len(),
        i + m <= n,
    ensures
        b == occurs_at(s@, pattern@, i as int),
{
    let mut k: usize = 0;
    while k < m
        invariant
            n == s@.len(),
            m == pattern@.len(),
            i + m <= n,
            0 <= k <= m,
            forall|j: int| 0 <= j < k ==> s@[i + j] == pattern@[j],
        decreases m - k,
    {
        if s.get_char(i + k) != pattern.get_char(k) {
            assert(s@.subrange(i as int, i + m)[k as int] != pattern@[k as int]);
            return false;
        }
        k = k + 1;
    }
    assert(s@.subrange(i as int, i + m) =~= pattern@);
    true
}

/// Whether `pattern` occurs in `s`.
pub fn contains(s: &str, pattern: &str) -> (b: bool)
    ensures
        b == contains_text(s@, pattern@),
{
    let n = s.unicode_len();
    let m = pattern.unicode_len();
    if m > n {
        assert forall|i: int| !#[trigger] occurs_at(s@, pattern@, i) by {}
        return false;
    }
    if m == 0 {
        assert(s@.subrange(0, 0) =~= pattern@);
        assert(occurs_at(s@, pattern@, 0));
        return true;
    }
    let mut i: usize = 0;
    while i < n
        invariant
            n == s@.len(),
            m == pattern@.len(),
            0 < m <= n,
            0 <= i <= n,
            forall|j: int| 0 <= j < i ==> !#[trigger] occurs_at(s@, pattern@, j),
        decreases n - i,
    {
        if m <= n - i && occurs_here(s, n, pattern, m, i) {
            return true;
        }
        i = i + 1;
    }
    false
}

/// A file URL with a read authorization: unchanged when it already carries
/// `Authorization=`, else with `Authorization=<token>` appended as a query
/// parameter.
pub open spec fn authorized_url(url: Seq<char>, token: Seq<char>) -> Seq<char> {
    if contains_text(url, "Authorization="@) {
        url
    } else {
        url + (if contains_text(url, "?"@) {
            "&"@
        } else {
            "?"@
        }) + "Authorization="@ + token
    }
}

/// A file URL with a read authorization.
pub fn authorize_url(file_url: &str, read_token: &str) -> (r: String)
    ensures
        r@ == authorized_url(file_url@, read_token@),
{
    let mut url = file_url.to_owned();
    if contains(file_url, "Authorization=") {
        return url;
    }
    if contains(file_url, "?") {
        url.append("&");
    } else {
        url.append("?");
    }
    url.append("Authorization=");
    url.append(read_token);
    url
}

/// Whether `s` has no question mark.
pub open spec fn query_free(s: Seq<char>) -> bool {
    forall|i: int| 0 <= i < s.len() ==> s[i] != '?'
}

/// A URL without its query: the text before the first question mark.
pub open spec fn without_query(url: Seq<char>) -> Seq<char> {
    if query_free(url) {
        url
    } else {
        url.subrange(0, choose|i: int| 0 <= i < url.len() && url[i] == '?' && query_free(url.subrange(0, i)))
    }
}

/// A URL without its query, as stored with a transcription.
pub fn sanitized_url(file_url: &str) -> (r: String)
    ensures
        r@ == without_query(file_url@),
{
    let n = file_url.unicode_len();
    let mut i: usize = 0;
    while i < n
        invariant
            n == file_url@.len(),
            0 <= i <= n,
            query_free(file_url@.subrange(0, i as int)),
        decreases n - i,
    {
        if file_url.get_char(i) == '?' {
            let head = file_url.substring_char(0, i);
            proof {
                let c = choose|c: int|
                    0 <= c < file_url@.len() && file_url@[c] == '?' && query_free(file_url@.subrange(0, c));
                if c < i {
                    assert(file_url@.subrange(0, i as int)[c] == '?');
                } else if i < c {
                    assert(file_url@.subrange(0, c)[i as int] == '?');
                }
            }
            return head.to_owned();
        }
        assert(file_url@.subrange(0, i as int + 1) =~= file_url@.subrange(0, i as int).push(file_url@[i as int]));
        i = i + 1;
    }
    assert(file_url@.subrange(0, n as int) =~= file_url@);
    file_url.to_owned()
}

} // verus!
