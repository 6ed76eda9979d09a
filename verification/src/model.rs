use vstd::prelude::*;
use crate::text::{
    chars_of, decimal, find_char, first_index, join, join_strings, split, split_chars, str_eq,
    string_of, sub_chars, to_ascii_uppercase, trim, trim_chars, trim_str, u64_to_decimal, upper,
    views, replace_all, replace_chars,
};

verus! {

/// The three panes of the screen that can hold the keyboard focus.
#[derive(Debug, Clone, Copy, PartialEq, Eq, Structural)]
pub enum UiArea {
    RequestList,
    Details,
    Response,
}

/// The title of each pane.
pub open spec fn area_label(a: UiArea) -> Seq<char> {
    match a {
        UiArea::RequestList => "Requests"@,
        UiArea::Details => "Details"@,
        UiArea::Response => "Response"@,
    }
}

/// Right of the requests pane is the details pane.
pub open spec fn area_right(a: UiArea) -> UiArea {
    match a {
        UiArea::RequestList => UiArea::Details,
        other => other,
    }
}

/// Left of the details pane is the requests pane.
pub open spec fn area_left(a: UiArea) -> UiArea {
    match a {
        UiArea::Details => UiArea::RequestList,
        other => other,
    }
}

/// Below both panes of the top row is the response pane.
pub open spec fn area_down(a: UiArea) -> UiArea {
    match a {
        UiArea::RequestList | UiArea::Details => UiArea::Response,
        other => other,
    }
}

/// Above the response pane is the requests pane.
pub open spec fn area_up(a: UiArea) -> UiArea {
    match a {
        UiArea::Response => UiArea::RequestList,
        other => other,
    }
}

impl UiArea {
    /// Move right in the layout (Requests -> Details).
    pub fn right(self) -> (r: Self)
        ensures
            r == area_right(self),
    {
        match self {
            UiArea::RequestList => UiArea::Details,
            other => other,
        }
    }

    /// Move left in the layout (Details -> Requests).
    pub fn left(self) -> (r: Self)
        ensures
            r == area_left(self),
    {
        match self {
            UiArea::Details => UiArea::RequestList,
            other => other,
        }
    }

    /// Move down in the layout (top row -> Response).
    pub fn down(self) -> (r: Self)
        ensures
            r == area_down(self),
    {
        match self {
            UiArea::RequestList | UiArea::Details => UiArea::Response,
            other => other,
        }
    }

    /// Move up in the layout (Response -> RequestList).
    pub fn up(self) -> (r: Self)
        ensures
            r == area_up(self),
    {
        match self {
            UiArea::Response => UiArea::RequestList,
            other => other,
        }
    }

    /// The pane's title.
    pub fn label(self) -> (r: &'static str)
        ensures
            r@ == area_label(self),
    {
        match self {
            UiArea::RequestList => "Requests",
            UiArea::Details => "Details",
            UiArea::Response => "Response",
        }
    }
}

/// A header of a request or a response.
#[derive(Debug)]
pub struct HeaderEntry {
    pub name: String,
    pub value: String,
}

impl Clone for HeaderEntry {
    fn clone(&self) -> (r: Self)
        ensures
            r == *self,
    {
        HeaderEntry { name: self.name.clone(), value: self.value.clone() }
    }
}

/// A variable of an environment, for placeholders in requests.
#[derive(Debug)]
pub struct EnvVariable {
    pub key: String,
    pub value: String,
}

impl Clone for EnvVariable {
    fn clone(&self) -> (r: Self)
        ensures
            r == *self,
    {
        EnvVariable { key: self.key.clone(), value: self.value.clone() }
    }
}

/// A named set of variables.
#[derive(Debug)]
pub struct Environment {
    pub name: String,
    pub variables: Vec<EnvVariable>,
}

impl Clone for Environment {
    fn clone(&self) -> (r: Self)
        ensures
            r.name == self.name,
            r.variables@ == self.variables@,
    {
        let variables = self.variables.clone();
        assert(variables@ =~= self.variables@);
        Environment { name: self.name.clone(), variables }
    }
}

impl Environment {
    /// An environment with the given name and no variables.
    pub fn new(name: &str) -> (r: Self)
        ensures
            r.name@ == name@,
            r.variables@.len() == 0,
    {
        Environment { name: String::from_str(name), variables: Vec::new() }
    }
}

/// The HTTP methods a request can use.
#[derive(Debug, Clone, Copy, PartialEq, Eq, Structural)]
pub enum HttpMethod {
    Get,
    Post,
    Put,
    Patch,
    Delete,
    Head,
    Options,
}

/// The methods in the order the picker lists them.
pub open spec fn all_methods() -> Seq<HttpMethod> {
    seq![
        HttpMethod::Get,
        HttpMethod::Post,
        HttpMethod::Put,
        HttpMethod::Patch,
        HttpMethod::Delete,
        HttpMethod::Head,
        HttpMethod::Options,
    ]
}

/// The position of each method in the picker's list.
pub open spec fn method_index(m: HttpMethod) -> nat {
    match m {
        HttpMethod::Get => 0,
        HttpMethod::Post => 1,
        HttpMethod::Put => 2,
        HttpMethod::Patch => 3,
        HttpMethod::Delete => 4,
        HttpMethod::Head => 5,
        HttpMethod::Options => 6,
    }
}

/// The name of each method on the wire.
pub open spec fn method_name(m: HttpMethod) -> Seq<char> {
    match m {
        HttpMethod::Get => "GET"@,
        HttpMethod::Post => "POST"@,
        HttpMethod::Put => "PUT"@,
        HttpMethod::Patch => "PATCH"@,
        HttpMethod::Delete => "DELETE"@,
        HttpMethod::Head => "HEAD"@,
        HttpMethod::Options => "OPTIONS"@,
    }
}

/// The method whose name is exactly `s`, if there is one.
pub open spec fn method_named(s: Seq<char>) -> Option<HttpMethod> {
    if s == "GET"@ {
        Some(HttpMethod::Get)
    } else if s == "POST"@ {
        Some(HttpMethod::Post)
    } else if s == "PUT"@ {
        Some(HttpMethod::Put)
    } else if s == "PATCH"@ {
        Some(HttpMethod::Patch)
    } else if s == "DELETE"@ {
        Some(HttpMethod::Delete)
    } else if s == "HEAD"@ {
        Some(HttpMethod::Head)
    } else if s == "OPTIONS"@ {
        Some(HttpMethod::Options)
    } else {
        None
    }
}

impl HttpMethod {
    /// Every method, in the order the picker lists them.
    pub const ALL: [HttpMethod; 7] = [
        HttpMethod::Get,
        HttpMethod::Post,
        HttpMethod::Put,
        HttpMethod::Patch,
        HttpMethod::Delete,
        HttpMethod::Head,
        HttpMethod::Options,
    ];

    /// The position of the method in `ALL`.
    pub fn index(self) -> (r: usize)
        ensures
            r == method_index(self),
            r < 7,
            all_methods()[r as int] == self,
    {
        match self {
            HttpMethod::Get => 0,
            HttpMethod::Post => 1,
            HttpMethod::Put => 2,
            HttpMethod::Patch => 3,
            HttpMethod::Delete => 4,
            HttpMethod::Head => 5,
            HttpMethod::Options => 6,
        }
    }

    /// The method's name on the wire.
    pub fn as_str(self) -> (r: &'static str)
        ensures
            r@ == method_name(self),
    {
        match self {
            HttpMethod::Get => "GET",
            HttpMethod::Post => "POST",
            HttpMethod::Put => "PUT",
            HttpMethod::Patch => "PATCH",
            HttpMethod::Delete => "DELETE",
            HttpMethod::Head => "HEAD",
            HttpMethod::Options => "OPTIONS",
        }
    }

    /// The method named by `input`, with white space around it ignored and
    /// letters of either case.
    pub fn parse(input: &str) -> (r: Option<Self>)
        ensures
            r == method_named(upper(trim(input@))),
    {
        let t = trim_str(input);
        let u = to_ascii_uppercase(t.as_str());
        let u = u.as_str();
        if str_eq(u, "GET") {
            Some(HttpMethod::Get)
        } else if str_eq(u, "POST") {
            Some(HttpMethod::Post)
        } else if str_eq(u, "PUT") {
            Some(HttpMethod::Put)
        } else if str_eq(u, "PATCH") {
            Some(HttpMethod::Patch)
        } else if str_eq(u, "DELETE") {
            Some(HttpMethod::Delete)
        } else if str_eq(u, "HEAD") {
            Some(HttpMethod::Head)
        } else if str_eq(u, "OPTIONS") {
            Some(HttpMethod::Options)
        } else {
            None
        }
    }
}

/// A saved HTTP request.
#[derive(Debug)]
pub struct Request {
    pub id: u64,
    pub name: String,
    pub method: HttpMethod,
    pub url: String,
    pub headers: Vec<HeaderEntry>,
    pub body: String,
}

/// Two requests hold the same data.
pub open spec fn same_request(a: Request, b: Request) -> bool {
    &&& a.id == b.id
    &&& a.name == b.name
    &&& a.method == b.method
    &&& a.url == b.url
    &&& a.headers@ == b.headers@
    &&& a.body == b.body
}

impl Clone for Request {
    fn clone(&self) -> (r: Self)
        ensures
            same_request(r, *self),
    {
        let headers = self.headers.clone();
        assert(headers@ =~= self.headers@);
        Request {
            id: self.id,
            name: self.name.clone(),
            method: self.method,
            url: self.url.clone(),
            headers,
            body: self.body.clone(),
        }
    }
}

impl Request {
    /// The request that a new store starts with.
    pub fn sample() -> (r: Self)
        ensures
            r.id == 1,
            r.name@ == "Example GET"@,
            r.method == HttpMethod::Get,
            r.url@ == "https://httpbin.org/get"@,
            r.headers@.len() == 0,
            r.body@.len() == 0,
    {
        Request {
            id: 1,
            name: String::from_str("Example GET"),
            method: HttpMethod::Get,
            url: String::from_str("https://httpbin.org/get"),
            headers: Vec::new(),
            body: String::new(),
        }
    }

    /// An empty GET request named after its id.
    pub fn new(id: u64) -> (r: Self)
        ensures
            r.id == id,
            r.name@ == "Request "@ + decimal(id as nat),
            r.method == HttpMethod::Get,
            r.url@.len() == 0,
            r.headers@.len() == 0,
            r.body@.len() == 0,
    {
        let mut name = String::from_str("Request ");
        let digits = u64_to_decimal(id);
        name.append(digits.as_str());
        Request {
            id,
            name,
            method: HttpMethod::Get,
            url: String::new(),
            headers: Vec::new(),
            body: String::new(),
        }
    }
}

/// Everything that is saved: the requests and the environments.
#[derive(Debug)]
pub struct RequestStore {
    pub requests: Vec<Request>,
    pub environments: Vec<Environment>,
    pub active_environment: Option<usize>,
}

impl Clone for RequestStore {
    fn clone(&self) -> (r: Self)
        ensures
            r.requests@.len() == self.requests@.len(),
            forall|i: int|
                0 <= i < r.requests@.len() ==> same_request(
                    #[trigger] r.requests@[i],
                    self.requests@[i],
                ),
            r.environments@.len() == self.environments@.len(),
            forall|i: int|
                0 <= i < r.environments@.len() ==> (#[trigger] r.environments@[i]).name
                    == self.environments@[i].name && r.environments@[i].variables@
                    == self.environments@[i].variables@,
            r.active_environment == self.active_environment,
    {
        let mut requests: Vec<Request> = Vec::new();
        let mut i: usize = 0;
        while i < self.requests.len()
            invariant
                i <= self.requests@.len(),
                requests@.len() == i,
                forall|k: int|
                    0 <= k < i ==> same_request(#[trigger] requests@[k], self.requests@[k]),
            decreases self.requests@.len() - i,
        {
            requests.push(self.requests[i].clone());
            i += 1;
        }
        let mut environments: Vec<Environment> = Vec::new();
        let mut j: usize = 0;
        while j < self.environments.len()
            invariant
                j <= self.environments@.len(),
                environments@.len() == j,
                forall|k: int|
                    0 <= k < j ==> (#[trigger] environments@[k]).name == self.environments@[k].name
                        && environments@[k].variables@ == self.environments@[k].variables@,
            decreases self.environments@.len() - j,
        {
            environments.push(self.environments[j].clone());
            j += 1;
        }
        RequestStore { requests, environments, active_environment: self.active_environment }
    }
}

impl Default for RequestStore {
    fn default() -> (r: Self)
        ensures
            r.requests@.len() == 1,
            r.requests@[0].id == 1,
            r.requests@[0].name@ == "Example GET"@,
            r.requests@[0].method == HttpMethod::Get,
            r.requests@[0].url@ == "https://httpbin.org/get"@,
            r.requests@[0].headers@.len() == 0,
            r.requests@[0].body@.len() == 0,
            r.environments@.len() == 0,
            r.active_environment is None,
    {
        let mut requests = Vec::new();
        requests.push(Request::sample());
        RequestStore { requests, environments: Vec::new(), active_environment: None }
    }
}

/// What came back for an executed request.
#[derive(Debug)]
pub struct ResponseSummary {
    pub status: String,
    pub headers: Vec<HeaderEntry>,
    pub body: String,
}

impl Clone for ResponseSummary {
    fn clone(&self) -> (r: Self)
        ensures
            r.status == self.status,
            r.headers@ == self.headers@,
            r.body == self.body,
    {
        let headers = self.headers.clone();
        assert(headers@ =~= self.headers@);
        ResponseSummary { status: self.status.clone(), headers, body: self.body.clone() }
    }
}

/// A header as the details pane shows it: `name: value`.
pub open spec fn header_text(h: HeaderEntry) -> Seq<char> {
    h.name@ + ": "@ + h.value@
}

/// The headers as the details pane shows them: `(none)` for no headers, else
/// each as `name: value`, separated by `; `.
pub open spec fn headers_text(hs: Seq<HeaderEntry>) -> Seq<char> {
    if hs.len() == 0 {
        "(none)"@
    } else {
        join(hs.map_values(|h: HeaderEntry| header_text(h)), "; "@)
    }
}

/// The headers written on one line.
pub fn format_headers(headers: &[HeaderEntry]) -> (r: String)
    ensures
        r@ == headers_text(headers@),
{
    if headers.len() == 0 {
        return String::from_str("(none)");
    }
    let mut parts: Vec<String> = Vec::new();
    let mut i: usize = 0;
    while i < headers.len()
        invariant
            i <= headers@.len(),
            views(parts@) == headers@.take(i as int).map_values(|h: HeaderEntry| header_text(h)),
        decreases headers@.len() - i,
    {
        let mut line = headers[i].name.clone();
        line.append(": ");
        line.append(headers[i].value.as_str());
        let ghost before = views(parts@);
        parts.push(line);
        assert(views(parts@) =~= before.push(header_text(headers@[i as int])));
        assert(headers@.take(i + 1).map_values(|h: HeaderEntry| header_text(h)) =~= before.push(
            header_text(headers@[i as int]),
        ));
        i += 1;
    }
    assert(headers@.take(headers@.len() as int) =~= headers@);
    join_strings(&parts, "; ")
}

/// The header that one `name: value` piece stands for: the text before the
/// first colon, trimmed, is the name (none where it is empty); the text after
/// it, trimmed, is the value.
pub open spec fn header_from_pair(pair: Seq<char>) -> Option<(Seq<char>, Seq<char>)> {
    let t = trim(pair);
    let i = first_index(t, ':');
    let name = trim(t.take(i));
    let value = if i < t.len() { trim(t.skip(i + 1)) } else { Seq::empty() };
    if name.len() == 0 {
        None
    } else {
        Some((name, value))
    }
}

/// The headers that the pieces stand for, in order, without the pieces that
/// stand for none.
pub open spec fn headers_from_pairs(pairs: Seq<Seq<char>>) -> Seq<(Seq<char>, Seq<char>)>
    decreases pairs.len(),
{
    if pairs.len() == 0 {
        Seq::empty()
    } else {
        let rest = headers_from_pairs(pairs.drop_last());
        match header_from_pair(pairs.last()) {
            Some(h) => rest.push(h),
            None => rest,
        }
    }
}

/// The headers written in `input`, as pieces separated by `;`.
pub open spec fn parsed_headers(input: Seq<char>) -> Seq<(Seq<char>, Seq<char>)> {
    headers_from_pairs(split(input, ';'))
}

/// The names and values of the headers.
pub open spec fn header_pairs(hs: Seq<HeaderEntry>) -> Seq<(Seq<char>, Seq<char>)> {
    hs.map_values(|h: HeaderEntry| (h.name@, h.value@))
}

fn header_from_piece(piece: &String) -> (r: Option<HeaderEntry>)
    ensures
        match header_from_pair(piece@) {
            Some(h) => r matches Some(e) && e.name@ == h.0 && e.value@ == h.1,
            None => r is None,
        },
{
    let v = chars_of(piece.as_str());
    let t = trim_chars(&v);
    let i = find_char(&t, ':');
    let head = sub_chars(&t, 0, i);
    let name = trim_chars(&head);
    assert(head@ =~= t@.take(i as int));
    if name.len() == 0 {
        return None;
    }
    let value = if i < t.len() {
        let tail = sub_chars(&t, i + 1, t.len());
        assert(tail@ =~= t@.skip(i + 1));
        trim_chars(&tail)
    } else {
        Vec::new()
    };
    Some(HeaderEntry { name: string_of(name.as_slice()), value: string_of(value.as_slice()) })
}

/// The headers written in `input` as `name: value` pieces separated by `;`.
pub fn parse_headers(input: &str) -> (r: Vec<HeaderEntry>)
    ensures
        header_pairs(r@) == parsed_headers(input@),
{
    let v = chars_of(input);
    let pieces = split_chars(&v, ';');
    let ghost ps = views(pieces@);
    let mut out: Vec<HeaderEntry> = Vec::new();
    let mut i: usize = 0;
    while i < pieces.len()
        invariant
            i <= pieces@.len(),
            ps == views(pieces@),
            ps == split(input@, ';'),
            header_pairs(out@) == headers_from_pairs(ps.take(i as int)),
        decreases pieces@.len() - i,
    {
        assert(ps.take(i + 1).drop_last() =~= ps.take(i as int));
        let h = header_from_piece(&pieces[i]);
        match h {
            Some(e) => {
                let ghost before = header_pairs(out@);
                out.push(e);
                assert(header_pairs(out@) =~= before.push((e.name@, e.value@)));
            },
            None => {},
        }
        i += 1;
    }
    assert(ps.take(pieces@.len() as int) =~= ps);
    out
}


/// How a variable is written in a request: its key between `{{` and `}}`.
pub open spec fn placeholder(key: Seq<char>) -> Seq<char> {
    "{{"@ + key + "}}"@
}

/// `input` with the placeholder of each variable replaced by its value, the
/// variables taken in order.
pub open spec fn resolved(input: Seq<char>, vars: Seq<EnvVariable>) -> Seq<char>
    decreases vars.len(),
{
    if vars.len() == 0 {
        input
    } else {
        replace_all(
            resolved(input, vars.drop_last()),
            placeholder(vars.last().key@),
            vars.last().value@,
        )
    }
}

/// `input` with the placeholder `{{key}}` of each variable replaced by the
/// variable's value, the variables taken in order.
pub fn resolve_placeholders(input: &str, env_vars: &[EnvVariable]) -> (r: String)
    ensures
        r@ == resolved(input@, env_vars@),
        env_vars@.len() == 1 ==> r@ == replace_all(
            input@,
            "{{"@ + env_vars@[0].key@ + "}}"@,
            env_vars@[0].value@,
        ),
{
    proof {
        if env_vars@.len() == 1 {
            assert(env_vars@ =~= seq![env_vars@[0]]);
            crate::laws::law_one_variable_replaces_its_placeholder(input@, env_vars@[0]);
        }
    }
    let mut cur = chars_of(input);
    let mut i: usize = 0;
    while i < env_vars.len()
        invariant
            i <= env_vars@.len(),
            cur@ == resolved(input@, env_vars@.take(i as int)),
        decreases env_vars@.len() - i,
    {
        let mut pat = String::from_str("{{");
        pat.append(env_vars[i].key.as_str());
        pat.append("}}");
        let pat_chars = chars_of(pat.as_str());
        let rep = chars_of(env_vars[i].value.as_str());
        proof {
            reveal_strlit("{{");
            assert(pat_chars@.len() > 0);
            assert(env_vars@.take(i + 1).drop_last() =~= env_vars@.take(i as int));
        }
        cur = replace_chars(&cur, &pat_chars, &rep);
        i += 1;
    }
    assert(env_vars@.take(env_vars@.len() as int) =~= env_vars@);
    string_of(cur.as_slice())
}

} // verus!
