//! Network scope checks: domain rules of the Airlock, URL admission for
//! outbound HTTP requests and the IPv4 ranges that are never reachable.
use vstd::prelude::*;
use crate::text::{
    chars_of, chars_of_all, concat2, concat3, ends_with, eq_ignore_case, lower_seq, lower_vec, owned,
    push_all, str_views, string_of, trim, trim_vec, vec_eq, views,
};

verus! {

// ───────────────────────────── domain rules ─────────────────────────────

/// `trim_end_matches(c)`.
pub open spec fn trim_end_char(s: Seq<char>, c: char) -> Seq<char>
    decreases s.len(),
{
    if s.len() > 0 && s.last() == c {
        trim_end_char(s.drop_last(), c)
    } else {
        s
    }
}

/// Host or rule text as compared: trimmed, without trailing dots, ASCII lower case.
pub open spec fn norm_domain(s: Seq<char>) -> Seq<char> {
    lower_seq(trim_end_char(trim(s), '.'))
}

/// `host` equals `root` or is a subdomain of it.
pub open spec fn at_or_below(host: Seq<char>, root: Seq<char>) -> bool {
    host == root || (seq!['.'] + root).is_suffix_of(host)
}

/// Does the domain rule `rule` admit `host`?  `*` admits every host,
/// `*.example.com` and `example.com` admit `example.com` and its subdomains;
/// an empty rule admits nothing.
pub open spec fn domain_rule_matches(host: Seq<char>, rule: Seq<char>) -> bool {
    let h = norm_domain(host);
    let r = norm_domain(rule);
    if r.len() == 0 {
        false
    } else if r == seq!['*'] {
        true
    } else if seq!['*', '.'].is_prefix_of(r) {
        at_or_below(h, r.skip(2))
    } else {
        at_or_below(h, r)
    }
}

pub open spec fn any_rule_matches(host: Seq<char>, rules: Seq<Seq<char>>) -> bool {
    exists|k: int| 0 <= k < rules.len() && domain_rule_matches(host, #[trigger] rules[k])
}

fn trim_end_char_vec(v: &Vec<char>, c: char) -> (r: Vec<char>)
    ensures
        r@ == trim_end_char(v@, c),
{
    let mut n = v.len();
    assert(v@.take(n as int) =~= v@);
    while n > 0 && v[n - 1] == c
        invariant
            n <= v.len(),
            trim_end_char(v@, c) == trim_end_char(v@.take(n as int), c),
        decreases n,
    {
        proof {
            assert(v@.take(n as int).drop_last() =~= v@.take(n - 1));
        }
        n = n - 1;
    }
    let mut r: Vec<char> = Vec::new();
    let mut i: usize = 0;
    while i < n
        invariant
            n <= v.len(),
            i <= n,
            r@ == v@.take(i as int),
        decreases n - i,
    {
        r.push(v[i]);
        proof {
            assert(v@.take(i + 1) =~= v@.take(i as int).push(v@[i as int]));
        }
        i = i + 1;
    }
    r
}

fn norm_domain_vec(s: &Vec<char>) -> (r: Vec<char>)
    ensures
        r@ == norm_domain(s@),
{
    let t = trim_vec(s);
    let u = trim_end_char_vec(&t, '.');
    lower_vec(&u)
}

fn at_or_below_vec(h: &Vec<char>, root: &Vec<char>) -> (r: bool)
    ensures
        r == at_or_below(h@, root@),
{
    if vec_eq(h, root) {
        return true;
    }
    let mut dotted = vec!['.'];
    push_all(&mut dotted, root);
    assert(dotted@ =~= seq!['.'] + root@);
    ends_with(h, &dotted)
}

fn rule_matches_vec(host: &Vec<char>, rule: &Vec<char>) -> (r: bool)
    ensures
        r == domain_rule_matches(host@, rule@),
{
    let h = norm_domain_vec(host);
    let r = norm_domain_vec(rule);
    if r.len() == 0 {
        return false;
    }
    if r.len() == 1 && r[0] == '*' {
        assert(r@ =~= seq!['*']);
        return true;
    }
    proof {
        if r@ == seq!['*'] {
            assert(r@.len() == 1 && r@[0] == '*');
        }
    }
    if r.len() >= 2 && r[0] == '*' && r[1] == '.' {
        let mut root: Vec<char> = Vec::new();
        let mut i: usize = 2;
        while i < r.len()
            invariant
                2 <= i <= r.len(),
                root@ == r@.subrange(2, i as int),
            decreases r.len() - i,
        {
            root.push(r[i]);
            proof {
                assert(r@.subrange(2, i + 1) =~= r@.subrange(2, i as int).push(r@[i as int]));
            }
            i = i + 1;
        }
        assert(root@ =~= r@.skip(2));
        assert(seq!['*', '.'].is_prefix_of(r@));
        return at_or_below_vec(&h, &root);
    }
    proof {
        if seq!['*', '.'].is_prefix_of(r@) {
            assert(r@[0] == '*' && r@[1] == '.');
        }
    }
    at_or_below_vec(&h, &r)
}

/// Does the domain rule `rule` admit `host`?
pub fn domain_rule_matches_str(host: &str, rule: &str) -> (r: bool)
    ensures
        r == domain_rule_matches(host@, rule@),
{
    rule_matches_vec(&chars_of(host), &chars_of(rule))
}

fn any_rule_matches_vec(host: &Vec<char>, rules: &Vec<Vec<char>>) -> (r: bool)
    ensures
        r == any_rule_matches(host@, views(rules@)),
{
    let mut i: usize = 0;
    while i < rules.len()
        invariant
            i <= rules.len(),
            forall|k: int| 0 <= k < i ==> !domain_rule_matches(host@, #[trigger] views(rules@)[k]),
        decreases rules.len() - i,
    {
        if rule_matches_vec(host, &rules[i]) {
            assert(domain_rule_matches(host@, views(rules@)[i as int]));
            return true;
        }
        i = i + 1;
    }
    false
}

/// Does any of `rules` admit `host`?
pub fn any_domain_rule_matches(host: &str, rules: &Vec<String>) -> (r: bool)
    ensures
        r == any_rule_matches(host@, str_views(rules@)),
{
    let rs = chars_of_all(rules);
    any_rule_matches_vec(&chars_of(host), &rs)
}

// ───────────────────────────── URL parsing ─────────────────────────────

/// Scheme and host that `url::Url::parse` finds in `input`, or the text of its error.
pub uninterp spec fn url_parse(input: Seq<char>) -> Result<(Seq<char>, Option<Seq<char>>), Seq<char>>;

/// Calls `url::Url::parse` and reads `Url::scheme` and `Url::host_str`.
/// Trusted: the result is `url_parse` of the input; on failure the error is
/// the text of the `url::ParseError`.
#[verifier::external_body]
pub(crate) fn parse_url(input: &str) -> (r: Result<(String, Option<String>), String>)
    ensures
        url_parse(input@) == match r {
            Ok((s, h)) => Ok((
                s@,
                match h {
                    Some(x) => Some(x@),
                    None => None,
                },
            )),
            Err(e) => Err(e@),
        },
{
    match url::Url::parse(input) {
        Ok(u) => Ok((u.scheme().to_string(), u.host_str().map(|h| h.to_string()))),
        Err(e) => Err(e.to_string()),
    }
}

/// Host of a URL, in ASCII lower case, or the message of why there is none.
pub open spec fn url_host(url: Seq<char>) -> Result<Seq<char>, Seq<char>> {
    match url_parse(url) {
        Err(e) => Err("Invalid URL: "@ + e),
        Ok((_, None)) => Err("URL must include a valid host"@),
        Ok((_, Some(h))) => Ok(lower_seq(h)),
    }
}

fn host_of(url: &str) -> (r: Result<Vec<char>, String>)
    ensures
        match url_host(url@) {
            Ok(h) => r matches Ok(v) && v@ == h,
            Err(e) => r matches Err(m) && m@ == e,
        },
{
    match parse_url(url) {
        Err(e) => Err(concat2("Invalid URL: ", e.as_str())),
        Ok((_, None)) => Err(owned("URL must include a valid host")),
        Ok((_, Some(h))) => Ok(lower_vec(&chars_of(h.as_str()))),
    }
}

// ───────────────────────────── IPv4 literals ─────────────────────────────

pub open spec fn is_digit(c: char) -> bool {
    '0' <= c <= '9'
}

/// Value of a decimal numeral.
pub open spec fn dec_value(s: Seq<char>) -> int
    decreases s.len(),
{
    if s.len() == 0 {
        0
    } else {
        dec_value(s.drop_last()) * 10 + (s.last() as int - '0' as int)
    }
}

/// An IPv4 octet as written in a dotted quad: one to three digits, no
/// leading zero, value at most 255.
pub open spec fn octet_text(s: Seq<char>) -> bool {
    &&& 1 <= s.len() <= 3
    &&& forall|i: int| 0 <= i < s.len() ==> is_digit(#[trigger] s[i])
    &&& (s.len() > 1 ==> s[0] != '0')
    &&& dec_value(s) <= 255
}

/// The four octets of a dotted-quad IPv4 literal.
pub open spec fn ipv4_literal(host: Seq<char>) -> Option<Seq<int>> {
    let parts = crate::text::split_char(host, '.');
    if parts.len() == 4 && octet_text(parts[0]) && octet_text(parts[1]) && octet_text(parts[2])
        && octet_text(parts[3]) {
        Some(seq![dec_value(parts[0]), dec_value(parts[1]), dec_value(parts[2]), dec_value(parts[3])])
    } else {
        None
    }
}

/// Loopback (127/8), private (10/8, 172.16/12, 192.168/16) or link-local (169.254/16).
pub open spec fn ipv4_internal(o: Seq<int>) -> bool {
    o[0] == 127 || o[0] == 10 || (o[0] == 172 && 16 <= o[1] <= 31) || (o[0] == 192 && o[1] == 168)
        || (o[0] == 169 && o[1] == 254)
}

fn octet_value(s: &Vec<char>) -> (r: Option<u32>)
    ensures
        match r {
            Some(v) => octet_text(s@) && v == dec_value(s@),
            None => !octet_text(s@),
        },
{
    if s.len() < 1 || s.len() > 3 {
        return None;
    }
    if s.len() > 1 && s[0] == '0' {
        return None;
    }
    let mut v: u32 = 0;
    let mut i: usize = 0;
    while i < s.len()
        invariant
            1 <= s.len() <= 3,
            i <= s.len(),
            forall|j: int| 0 <= j < i ==> is_digit(#[trigger] s@[j]),
            v == dec_value(s@.take(i as int)),
            v < 1000,
            v <= (if i == 0 { 0int } else if i == 1 { 9int } else if i == 2 { 99int } else { 999int }),
        decreases s.len() - i,
    {
        let c = s[i];
        if c < '0' || c > '9' {
            return None;
        }
        proof {
            assert(s@.take(i + 1).drop_last() =~= s@.take(i as int));
        }
        v = v * 10 + ((c as u32) - ('0' as u32));
        i = i + 1;
    }
    assert(s@.take(s@.len() as int) =~= s@);
    if v > 255 {
        return None;
    }
    Some(v)
}

/// Is `host` a dotted-quad IPv4 literal in a loopback, private or link-local range?
pub fn is_internal_ipv4(host: &Vec<char>) -> (r: bool)
    ensures
        r == (ipv4_literal(host@) matches Some(o) && ipv4_internal(o)),
{
    let parts = crate::text::split_vec(host, '.');
    proof {
        crate::text::lemma_map_view_words(parts@, views(parts@));
    }
    if parts.len() != 4 {
        return false;
    }
    assert(views(parts@)[0] == parts@[0]@);
    assert(views(parts@)[1] == parts@[1]@);
    assert(views(parts@)[2] == parts@[2]@);
    assert(views(parts@)[3] == parts@[3]@);
    let a = match octet_value(&parts[0]) {
        Some(v) => v,
        None => return false,
    };
    let b = match octet_value(&parts[1]) {
        Some(v) => v,
        None => return false,
    };
    let c = match octet_value(&parts[2]) {
        Some(v) => v,
        None => return false,
    };
    let d = match octet_value(&parts[3]) {
        Some(v) => v,
        None => return false,
    };
    a == 127 || a == 10 || (a == 172 && 16 <= b && b <= 31) || (a == 192 && b == 168) || (a == 169
        && b == 254)
}

// ───────────────────────────── URL admission ─────────────────────────────

/// Admission of an outbound HTTP URL: the host it reaches, or why it is refused.
///
/// Only `http` and `https` are admitted; the host must be present and must not
/// be `localhost`, a subdomain of it, or an IPv4 literal in a loopback,
/// private or link-local range.
pub open spec fn http_url_admission(url: Seq<char>) -> Result<Seq<char>, Seq<char>> {
    match url_parse(url) {
        Err(e) => Err("Invalid URL: "@ + e),
        Ok((scheme, host)) => if scheme != "http"@ && scheme != "https"@ {
            Err("Only http:// and https:// URLs are allowed"@)
        } else {
            match host {
                None => Err("URL must include a valid host"@),
                Some(h) => {
                    let h = lower_seq(h);
                    if h == "localhost"@ || ".localhost"@.is_suffix_of(h) {
                        Err("localhost URLs are blocked"@)
                    } else if ipv4_literal(h) matches Some(o) && ipv4_internal(o) {
                        Err("Private or loopback IPs are blocked"@)
                    } else {
                        Ok(h)
                    }
                },
            }
        },
    }
}

/// Checks that `url` may be fetched; returns its host in ASCII lower case.
pub fn validate_http_url(url: &str) -> (r: Result<String, String>)
    ensures
        match http_url_admission(url@) {
            Ok(h) => r matches Ok(s) && s@ == h,
            Err(e) => r matches Err(m) && m@ == e,
        },
{
    let (scheme, host) = match parse_url(url) {
        Err(e) => return Err(concat2("Invalid URL: ", e.as_str())),
        Ok(p) => p,
    };
    let http = owned("http");
    let https = owned("https");
    if !(scheme == http) && !(scheme == https) {
        return Err(owned("Only http:// and https:// URLs are allowed"));
    }
    let h = match host {
        None => return Err(owned("URL must include a valid host")),
        Some(h) => lower_vec(&chars_of(h.as_str())),
    };
    let localhost = chars_of("localhost");
    let dot_localhost = chars_of(".localhost");
    if vec_eq(&h, &localhost) || ends_with(&h, &dot_localhost) {
        return Err(owned("localhost URLs are blocked"));
    }
    if is_internal_ipv4(&h) {
        return Err(owned("Private or loopback IPs are blocked"));
    }
    Ok(string_of(h.as_slice()))
}

/// Airlock domain scope of a URL: blocked rules win over allowed rules; an
/// empty allowed list admits every host that no blocked rule names.
pub open spec fn domain_scope(url: Seq<char>, allowed: Seq<Seq<char>>, blocked: Seq<Seq<char>>) -> Result<(), Seq<char>> {
    match url_host(url) {
        Err(e) => Err(e),
        Ok(h) => if any_rule_matches(h, blocked) {
            Err("Domain '"@ + h + "' is blocked by Airlock scopes"@)
        } else if allowed.len() > 0 && !any_rule_matches(h, allowed) {
            Err("Domain '"@ + h + "' is not in Airlock allowed_domains"@)
        } else {
            Ok(())
        },
    }
}

/// Applies the Airlock domain scope to `url`.
pub fn enforce_domain_scope(url: &str, allowed_domains: &Vec<String>, blocked_domains: &Vec<String>) -> (r: Result<(), String>)
    ensures
        match domain_scope(url@, str_views(allowed_domains@), str_views(blocked_domains@)) {
            Ok(()) => r is Ok,
            Err(e) => r matches Err(m) && m@ == e,
        },
{
    let h = match host_of(url) {
        Err(e) => return Err(e),
        Ok(h) => h,
    };
    let blocked = chars_of_all(blocked_domains);
    let allowed = chars_of_all(allowed_domains);
    let hs = string_of(h.as_slice());
    if any_rule_matches_vec(&h, &blocked) {
        return Err(concat3("Domain '", hs.as_str(), "' is blocked by Airlock scopes"));
    }
    if allowed.len() > 0 && !any_rule_matches_vec(&h, &allowed) {
        return Err(concat3("Domain '", hs.as_str(), "' is not in Airlock allowed_domains"));
    }
    Ok(())
}

/// Network permission of a sandboxed skill: the host of `url` must match one
/// of the skill's domain rules.
pub open spec fn skill_domain_scope(url: Seq<char>, allowed: Seq<Seq<char>>) -> Result<(), Seq<char>> {
    match url_host(url) {
        Err(e) => Err(e),
        Ok(h) => if !any_rule_matches(h, allowed) {
            Err("Domain '"@ + h + "' is not permitted by skill network permissions"@)
        } else {
            Ok(())
        },
    }
}

/// Checks that a sandboxed skill may reach `url`.
pub fn enforce_allowed_domains(url: &str, allowed_domains: &Vec<String>) -> (r: Result<(), String>)
    ensures
        match skill_domain_scope(url@, str_views(allowed_domains@)) {
            Ok(()) => r is Ok,
            Err(e) => r matches Err(m) && m@ == e,
        },
{
    let h = match host_of(url) {
        Err(e) => return Err(e),
        Ok(h) => h,
    };
    let allowed = chars_of_all(allowed_domains);
    if !any_rule_matches_vec(&h, &allowed) {
        let hs = string_of(h.as_slice());
        return Err(concat3("Domain '", hs.as_str(), "' is not permitted by skill network permissions"));
    }
    Ok(())
}

// ───────────────────────────── fetching with retries ─────────────────────────────

/// What an HTTP tool does with the status of its attempt `attempt`
/// (counted from 0, three attempts in all).
#[derive(Debug)]
pub enum HttpStatusStep {
    /// Wait this many milliseconds and try again.
    Retry(u64),
    /// Read the body.
    Accept,
    /// Give up: the request failed with this status.
    Fail,
}

/// A server error or a rate limit is retried before the third attempt,
/// after 250 ms times the attempts made; any other status outside the
/// 2xx range fails.
pub open spec fn status_step(attempt: u32, status: u16) -> (int, int) {
    if ((500 <= status <= 599) || status == 429) && attempt < 2 {
        (0, 250 * (attempt + 1))
    } else if 200 <= status <= 299 {
        (1, 0)
    } else {
        (2, 0)
    }
}

pub fn http_status_step(attempt: u32, status: u16) -> (r: HttpStatusStep)
    ensures
        match r {
            HttpStatusStep::Retry(ms) => status_step(attempt, status) == (0int, ms as int),
            HttpStatusStep::Accept => status_step(attempt, status).0 == 1,
            HttpStatusStep::Fail => status_step(attempt, status).0 == 2,
        },
{
    if ((500 <= status && status <= 599) || status == 429) && attempt < 2 {
        HttpStatusStep::Retry(250 * (attempt as u64 + 1))
    } else if 200 <= status && status <= 299 {
        HttpStatusStep::Accept
    } else {
        HttpStatusStep::Fail
    }
}

/// After a network error on attempt `attempt`: the pause before the next
/// attempt, or `None` after the third.
pub fn network_retry_delay(attempt: u32) -> (r: Option<u64>)
    ensures
        attempt < 2 ==> r == Some((250 * (attempt + 1)) as u64),
        attempt >= 2 ==> r is None,
{
    if attempt < 2 {
        Some(250 * (attempt as u64 + 1))
    } else {
        None
    }
}

/// The refusal of a body larger than the tool's `max_bytes`.
pub fn body_size_error(len: u64, max_bytes: u64) -> (r: Option<String>)
    ensures
        len <= max_bytes ==> r is None,
        len > max_bytes ==> (r matches Some(m) && m@ == "Response size "@ + crate::text::decimal(len as nat)
            + " exceeds max_bytes "@ + crate::text::decimal(max_bytes as nat)),
{
    if len <= max_bytes {
        None
    } else {
        let a = concat2("Response size ", crate::text::decimal_string(len).as_str());
        let b = concat2(a.as_str(), " exceeds max_bytes ");
        Some(concat2(b.as_str(), crate::text::decimal_string(max_bytes).as_str()))
    }
}

/// The error after the last attempt failed on the network: `lead` (`HTTP
/// request failed` or `HTTP text request failed`), then the last error, or
/// `unknown error` where there was none.
pub fn retries_exhausted(lead: &str, last_error: Option<&str>) -> (r: String)
    ensures
        r@ == lead@ + " after retries: "@ + match last_error {
            Some(e) => e@,
            None => "unknown error"@,
        },
{
    let a = concat2(lead, " after retries: ");
    match last_error {
        Some(e) => concat2(a.as_str(), e),
        None => concat2(a.as_str(), "unknown error"),
    }
}

} // verus!
