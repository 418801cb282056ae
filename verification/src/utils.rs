//! The mock-response registry and small environment helpers.
//!
//! The registry is an ordered table of `(method, path)` routes, each
//! with a canned JSON payload and an optional artificial delay. It is
//! built once from a JSON configuration text and never changes; lookup
//! returns the first entry whose method and path both match, so the
//! insertion order is the tie-break for duplicates.

use vstd::prelude::*;
use crate::json;

verus! {

/// The payload stored for one mock route: a success flag and the
/// route's data value, kept as the JSON text it was configured with.
pub struct APIResponse {
    pub success: bool,
    pub data: String,
}

/// One registry entry: a method and path to match, the payload to
/// answer with, and an optional delay in milliseconds to simulate a
/// slow backend.
pub struct API {
    pub method: String,
    pub path: String,
    pub response: APIResponse,
    pub wait: Option<u64>,
}

/// The registry: the configured entries in their original order.
pub struct APIs(pub(crate) Vec<API>);

impl View for APIs {
    type V = Seq<API>;

    closed spec fn view(&self) -> Seq<API> {
        self.0@
    }
}

/// Index of the first entry at or after `i` whose method and path
/// equal `m` and `p`.
pub open spec fn sp_find(entries: Seq<API>, m: Seq<char>, p: Seq<char>, i: int) -> Option<int>
    decreases entries.len() - i,
{
    if i < 0 || i >= entries.len() {
        None
    } else if entries[i].method@ == m && entries[i].path@ == p {
        Some(i)
    } else {
        sp_find(entries, m, p, i + 1)
    }
}

/// What one configured entry denotes: decoded method and path, the
/// payload's success flag, the raw JSON text of its data value, and
/// the optional delay.
pub ghost struct EntryS {
    pub method: Seq<char>,
    pub path: Seq<char>,
    pub success: bool,
    pub data: Seq<char>,
    pub wait: Option<u64>,
}

/// Whether the executable entry `a` holds the denoted entry `e`.
pub open spec fn sp_api_models(a: API, e: EntryS) -> bool {
    &&& a.method@ == e.method
    &&& a.path@ == e.path
    &&& a.response.success == e.success
    &&& a.response.data@ == e.data
    &&& a.wait == e.wait
}

pub open spec fn sp_models(entries: Seq<API>, es: Seq<EntryS>) -> bool {
    &&& entries.len() == es.len()
    &&& forall|k: int| 0 <= k < es.len() ==> sp_api_models(#[trigger] entries[k], es[k])
}

/// The value span of the first member named `key` in the object body
/// starting at `i` (just after the opening brace when `first` holds,
/// at the separator before the next member otherwise).
pub open spec fn sp_member_span(s: Seq<char>, i: int, key: Seq<char>, first: bool) -> Option<
    (int, nat),
>
    decreases s.len() - i,
{
    if i < 0 {
        None
    } else {
        let j = i + json::sp_ws_len(s, i);
        if j >= s.len() {
            None
        } else if s[j] == '}' {
            None
        } else if !first && s[j] != ',' {
            None
        } else {
            let p = if first {
                j
            } else {
                j + 1 + json::sp_ws_len(s, j + 1)
            };
            if p >= s.len() || s[p] != '"' {
                None
            } else {
                match json::sp_string_body(s, p + 1) {
                    None => None,
                    Some((kd, ku)) => {
                        let q = p + 1 + ku + json::sp_ws_len(s, p + 1 + ku);
                        if q >= s.len() || s[q] != ':' {
                            None
                        } else {
                            let r = q + 1 + json::sp_ws_len(s, q + 1);
                            if r > s.len() {
                                None
                            } else {
                                match json::sp_value_len(s, r, json::MAX_DEPTH as int) {
                                    None => None,
                                    Some(vu) => if kd == key {
                                        Some((r, vu))
                                    } else if r + vu > s.len() {
                                        None
                                    } else {
                                        sp_member_span(s, r + vu, key, false)
                                    },
                                }
                            }
                        }
                    },
                }
            }
        }
    }
}

/// What the entry object starting at `j` denotes, if it carries the
/// required fields: a string `method`, a string `path`, a `response`
/// object with a boolean `success` and a `data` value, and at most an
/// integral `wait`.
pub open spec fn sp_entry(s: Seq<char>, j: int) -> Option<EntryS> {
    if !(0 <= j < s.len() && s[j] == '{') {
        None
    } else {
        match sp_member_span(s, j + 1, "method"@, true) {
            None => None,
            Some((ms, _mu)) => if !(s[ms] == '"') {
                None
            } else {
                match json::sp_string_body(s, ms + 1) {
                    None => None,
                    Some((m, _)) => match sp_member_span(s, j + 1, "path"@, true) {
                        None => None,
                        Some((ps, _pu)) => if !(s[ps] == '"') {
                            None
                        } else {
                            match json::sp_string_body(s, ps + 1) {
                                None => None,
                                Some((p, _)) => match sp_member_span(s, j + 1, "response"@, true) {
                                    None => None,
                                    Some((rs, _ru)) => if !(s[rs] == '{') {
                                        None
                                    } else {
                                        match sp_member_span(s, rs + 1, "success"@, true) {
                                            None => None,
                                            Some((ss, _su)) => if !(s[ss] == 't' || s[ss] == 'f') {
                                                None
                                            } else {
                                                let succ = s[ss] == 't';
                                                match sp_member_span(s, rs + 1, "data"@, true) {
                                                    None => None,
                                                    Some((ds, du)) => {
                                                        let data = s.subrange(ds, ds + du);
                                                        match sp_member_span(
                                                            s,
                                                            j + 1,
                                                            "wait"@,
                                                            true,
                                                        ) {
                                                            None => Some(
                                                                EntryS {
                                                                    method: m,
                                                                    path: p,
                                                                    success: succ,
                                                                    data: data,
                                                                    wait: None,
                                                                },
                                                            ),
                                                            Some((qs, qu)) => if s[qs] == 'n' {
                                                                Some(
                                                                    EntryS {
                                                                        method: m,
                                                                        path: p,
                                                                        success: succ,
                                                                        data: data,
                                                                        wait: None,
                                                                    },
                                                                )
                                                            } else {
                                                                match json::sp_u64_of(
                                                                    s,
                                                                    qs,
                                                                    qs + qu,
                                                                ) {
                                                                    None => None,
                                                                    Some(w) => Some(
                                                                        EntryS {
                                                                            method: m,
                                                                            path: p,
                                                                            success: succ,
                                                                            data: data,
                                                                            wait: Some(w),
                                                                        },
                                                                    ),
                                                                }
                                                            },
                                                        }
                                                    },
                                                }
                                            },
                                        }
                                    },
                                },
                            }
                        },
                    },
                }
            },
        }
    }
}

/// The entries denoted by the array body starting at `i` (just after
/// the opening bracket when `first` holds).
pub open spec fn sp_entries(s: Seq<char>, i: int, first: bool) -> Option<Seq<EntryS>>
    decreases s.len() - i,
{
    if i < 0 {
        None
    } else {
        let j = i + json::sp_ws_len(s, i);
        if j >= s.len() {
            None
        } else if s[j] == ']' {
            Some(Seq::empty())
        } else if !first && s[j] != ',' {
            None
        } else {
            let p = if first {
                j
            } else {
                j + 1 + json::sp_ws_len(s, j + 1)
            };
            if p >= s.len() || s[p] != '{' {
                None
            } else {
                match json::sp_value_len(s, p, json::MAX_DEPTH as int) {
                    None => None,
                    Some(vu) => if vu == 0 || p + vu > s.len() {
                        None
                    } else {
                        match sp_entry(s, p) {
                            None => None,
                            Some(e) => match sp_entries(s, p + vu, false) {
                                None => None,
                                Some(rest) => Some(seq![e] + rest),
                            },
                        }
                    },
                }
            }
        }
    }
}

/// What a whole configuration text denotes: an array of entries,
/// with nothing but whitespace around it.
pub open spec fn sp_apis(s: Seq<char>) -> Option<Seq<EntryS>> {
    match json::sp_text_span(s) {
        None => None,
        Some((a, _u)) => if s[a] == '[' {
            sp_entries(s, a + 1, true)
        } else {
            None
        },
    }
}

/// The registry configuration could not be read; the service must not
/// start with a partial registry.
pub struct ConfigError;

/// Whether two character vectors hold the same characters.
fn chars_eq(a: &Vec<char>, b: &Vec<char>) -> (r: bool)
    ensures
        r == (a@ == b@),
{
    if a.len() != b.len() {
        assert(a@ != b@) by {
            assert(a@.len() != b@.len());
        }
        return false;
    }
    let mut i: usize = 0;
    while i < a.len()
        invariant
            i <= a@.len(),
            a@.len() == b@.len(),
            forall|k: int| 0 <= k < i ==> a@[k] == b@[k],
        decreases a@.len() - i,
    {
        if a[i] != b[i] {
            return false;
        }
        i = i + 1;
    }
    proof {
        assert(a@ =~= b@);
    }
    true
}

fn member_span(s: &Vec<char>, i: usize, key: &Vec<char>, first: bool) -> (r: Option<
    (usize, usize),
>)
    requires
        i <= s@.len(),
    ensures
        match r {
            Some((a, u)) => sp_member_span(s@, i as int, key@, first) == Some((a as int, u as nat))
                && a + u <= s@.len() && a < s@.len(),
            None => sp_member_span(s@, i as int, key@, first) is None,
        },
    decreases s@.len() - i,
{
    let n: usize = s.len();
    let j: usize = i + json::ws_len(s, i);
    if j >= n {
        return None;
    }
    if s[j] == '}' {
        return None;
    }
    if !first && !(s[j] == ',') {
        return None;
    }
    let p: usize = if first {
        j
    } else {
        j + 1 + json::ws_len(s, j + 1)
    };
    if p >= n || !(s[p] == '"') {
        return None;
    }
    match json::string_body(s, p + 1) {
        None => None,
        Some((kd, ku)) => {
            let q: usize = p + 1 + ku + json::ws_len(s, p + 1 + ku);
            if q >= n || !(s[q] == ':') {
                return None;
            }
            let r0: usize = q + 1 + json::ws_len(s, q + 1);
            match json::value_len(s, r0, json::MAX_DEPTH) {
                None => None,
                Some(vu) => {
                    if chars_eq(&kd, key) {
                        Some((r0, vu))
                    } else {
                        member_span(s, r0 + vu, key, false)
                    }
                },
            }
        },
    }
}

/// Reads the entry object starting at `j` into an `API` record.
fn parse_entry(s: &Vec<char>, j: usize) -> (r: Option<API>)
    requires
        j <= s@.len(),
    ensures
        match r {
            Some(a) => sp_entry(s@, j as int) matches Some(e) && sp_api_models(a, e),
            None => sp_entry(s@, j as int) is None,
        },
{
    if j >= s.len() || !(s[j] == '{') {
        return None;
    }
    let key_method: Vec<char> = json::str_chars("method");
    let key_path: Vec<char> = json::str_chars("path");
    let key_response: Vec<char> = json::str_chars("response");
    let key_success: Vec<char> = json::str_chars("success");
    let key_data: Vec<char> = json::str_chars("data");
    let key_wait: Vec<char> = json::str_chars("wait");
    let (ms, _mu) = match member_span(s, j + 1, &key_method, true) {
        None => {
            return None;
        },
        Some(x) => x,
    };
    if !(s[ms] == '"') {
        return None;
    }
    let (m, _) = match json::string_body(s, ms + 1) {
        None => {
            return None;
        },
        Some(x) => x,
    };
    let (ps, _pu) = match member_span(s, j + 1, &key_path, true) {
        None => {
            return None;
        },
        Some(x) => x,
    };
    if !(s[ps] == '"') {
        return None;
    }
    let (p, _) = match json::string_body(s, ps + 1) {
        None => {
            return None;
        },
        Some(x) => x,
    };
    let (rs, _ru) = match member_span(s, j + 1, &key_response, true) {
        None => {
            return None;
        },
        Some(x) => x,
    };
    if !(s[rs] == '{') {
        return None;
    }
    let (ss, _su) = match member_span(s, rs + 1, &key_success, true) {
        None => {
            return None;
        },
        Some(x) => x,
    };
    if !(s[ss] == 't' || s[ss] == 'f') {
        return None;
    }
    let succ: bool = s[ss] == 't';
    let (ds, du) = match member_span(s, rs + 1, &key_data, true) {
        None => {
            return None;
        },
        Some(x) => x,
    };
    let data: Vec<char> = json::copy_range(s, ds, ds + du);
    let wait: Option<u64> = match member_span(s, j + 1, &key_wait, true) {
        None => None,
        Some((qs, qu)) => {
            if s[qs] == 'n' {
                None
            } else {
                match json::parse_u64(s, qs, qs + qu) {
                    None => {
                        return None;
                    },
                    Some(w) => Some(w),
                }
            }
        },
    };
    Some(
        API {
            method: json::chars_to_string(&m),
            path: json::chars_to_string(&p),
            response: APIResponse { success: succ, data: json::chars_to_string(&data) },
            wait: wait,
        },
    )
}

/// Reads the array body of entries starting at `i`.
fn parse_entries(s: &Vec<char>, i: usize, first: bool) -> (r: Option<Vec<API>>)
    requires
        i <= s@.len(),
    ensures
        match r {
            Some(v) => sp_entries(s@, i as int, first) matches Some(es) && sp_models(v@, es),
            None => sp_entries(s@, i as int, first) is None,
        },
    decreases s@.len() - i,
{
    let n: usize = s.len();
    let j: usize = i + json::ws_len(s, i);
    if j >= n {
        return None;
    }
    if s[j] == ']' {
        return Some(Vec::new());
    }
    if !first && !(s[j] == ',') {
        return None;
    }
    let p: usize = if first {
        j
    } else {
        j + 1 + json::ws_len(s, j + 1)
    };
    if p >= n || !(s[p] == '{') {
        return None;
    }
    match json::value_len(s, p, json::MAX_DEPTH) {
        None => None,
        Some(vu) => {
            if vu == 0 {
                return None;
            }
            match parse_entry(s, p) {
                None => None,
                Some(e) => match parse_entries(s, p + vu, false) {
                    None => None,
                    Some(mut rest) => {
                        rest.insert(0, e);
                        Some(rest)
                    },
                },
            }
        },
    }
}

/// Builds the registry from its JSON configuration text. A text that
/// does not denote an entry array is rejected whole: there is no
/// partial registry.
pub fn apis(config: &str) -> (r: Result<APIs, ConfigError>)
    ensures
        match r {
            Ok(a) => sp_apis(config@) matches Some(es) && sp_models(a@, es),
            Err(_) => sp_apis(config@) is None,
        },
{
    let chars: Vec<char> = json::str_chars(config);
    let (a, _u) = match json::text_span(&chars) {
        None => {
            return Err(ConfigError);
        },
        Some(x) => x,
    };
    if !(chars[a] == '[') {
        return Err(ConfigError);
    }
    match parse_entries(&chars, a + 1, true) {
        None => Err(ConfigError),
        Some(v) => Ok(APIs(v)),
    }
}

impl APIs {
    /// A registry with the given entries, in the given order.
    pub fn new(entries: Vec<API>) -> (r: APIs)
        ensures
            r@ == entries@,
    {
        APIs(entries)
    }

    /// Index of the first entry matching `method` and `path`.
    pub fn find(&self, method: &str, path: &str) -> (r: Option<usize>)
        ensures
            match r {
                Some(i) => sp_find(self@, method@, path@, 0) == Some(i as int) && i < self@.len(),
                None => sp_find(self@, method@, path@, 0) is None,
            },
    {
        let mut i: usize = 0;
        while i < self.0.len()
            invariant
                i <= self@.len(),
                sp_find(self@, method@, path@, 0) == sp_find(self@, method@, path@, i as int),
            decreases self@.len() - i,
        {
            if str_eq(self.0[i].method.as_str(), method) && str_eq(
                self.0[i].path.as_str(),
                path,
            ) {
                return Some(i);
            }
            i = i + 1;
        }
        None
    }

    /// The entry at `i`.
    pub fn entry(&self, i: usize) -> (r: &API)
        requires
            i < self@.len(),
        ensures
            *r == self@[i as int],
    {
        &self.0[i]
    }

    /// The payload of the first entry matching `method` and `path`,
    /// as a copy: the registry itself is never handed out. The
    /// caller applies the entry's delay before using the payload.
    pub fn response(&self, method: &str, path: &str) -> (r: Option<APIResponse>)
        ensures
            match sp_find(self@, method@, path@, 0) {
                Some(i) => r matches Some(resp) && resp.success == self@[i].response.success
                    && resp.data@ == self@[i].response.data@,
                None => r is None,
            },
    {
        match self.find(method, path) {
            None => None,
            Some(i) => {
                let e = &self.0[i];
                Some(APIResponse { success: e.response.success, data: e.response.data.clone() })
            },
        }
    }
}

/// Whether two string slices hold the same characters.
pub(crate) fn str_eq(a: &str, b: &str) -> (r: bool)
    ensures
        r == (a@ == b@),
{
    let av: Vec<char> = json::str_chars(a);
    let bv: Vec<char> = json::str_chars(b);
    chars_eq(&av, &bv)
}

// ---------------------------------------------------------------------------
// Environment helpers
// ---------------------------------------------------------------------------

/// What `str::to_lowercase` returns: a function of the characters
/// alone.
pub uninterp spec fn lower_of(s: Seq<char>) -> Seq<char>;

/// Relies on str::to_lowercase: the result depends on the characters
/// alone, and an empty string stays empty.
#[verifier::external_body]
fn lowercase(s: &str) -> (r: String)
    ensures
        r@ == lower_of(s@),
        s@.len() == 0 ==> r@.len() == 0,
{
    s.to_lowercase()
}

/// The deployment profile: the `ENV` variable's value lowered, or
/// `local` when the variable is unset.
pub fn read_env(env: Option<String>) -> (r: String)
    ensures
        match env {
            Some(s) => r@ == lower_of(s@),
            None => r@ == "local"@,
        },
{
    match env {
        Some(s) => lowercase(s.as_str()),
        None => String::from_str("local"),
    }
}

/// The value of `s` read as a decimal port number, allowing the
/// leading plus sign that the standard numeral syntax allows.
pub open spec fn sp_port_of(s: Seq<char>) -> Option<u16> {
    let a: int = if s.len() > 0 && s[0] == '+' {
        1
    } else {
        0
    };
    match json::sp_u64_of(s, a, s.len() as int) {
        None => None,
        Some(v) => if v <= 0xFFFF {
            Some(v as u16)
        } else {
            None
        },
    }
}

/// The listen port: the `PORT` variable's value, or 8000 when the
/// variable is unset. A value that is not a port numeral yields
/// `None`, on which the caller aborts startup.
pub fn read_port_env(port_env: Option<&str>) -> (r: Option<u16>)
    ensures
        match port_env {
            Some(s) => r == sp_port_of(s@),
            None => r == Some(8000u16),
        },
{
    match port_env {
        Some(s) => {
            let chars: Vec<char> = json::str_chars(s);
            let a: usize = if chars.len() > 0 && chars[0] == '+' {
                1
            } else {
                0
            };
            match json::parse_u64(&chars, a, chars.len()) {
                None => None,
                Some(v) => if v <= 0xFFFF {
                    Some(v as u16)
                } else {
                    None
                },
            }
        },
        None => Some(8000),
    }
}

/// Whether tracing output is requested: either the tracing variable
/// is set or the trace flag was passed on the command line.
pub fn is_traced(tracing_env_set: bool, trace_flag: bool) -> (r: bool)
    ensures
        r == (tracing_env_set || trace_flag),
{
    tracing_env_set || trace_flag
}

/// Law: lookup is the first match in insertion order. Whatever index
/// `sp_find` returns matches, and no earlier entry does; when it
/// returns nothing, no entry matches at all. With duplicate
/// `(method, path)` pairs this is the stable tie-break: the
/// first-inserted entry always wins.
pub proof fn lemma_find_is_first(entries: Seq<API>, m: Seq<char>, p: Seq<char>, i: int)
    requires
        0 <= i <= entries.len(),
    ensures
        match sp_find(entries, m, p, i) {
            Some(x) => i <= x < entries.len() && entries[x].method@ == m && entries[x].path@ == p
                && forall|t: int|
                i <= t < x ==> !(#[trigger] entries[t].method@ == m && entries[t].path@ == p),
            None => forall|t: int|
                i <= t < entries.len() ==> !(#[trigger] entries[t].method@ == m
                    && entries[t].path@ == p),
        },
    decreases entries.len() - i,
{
    if i < entries.len() && !(entries[i].method@ == m && entries[i].path@ == p) {
        lemma_find_is_first(entries, m, p, i + 1);
    }
}

} // verus!
