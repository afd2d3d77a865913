use vstd::prelude::*;
use crate::http_types::{HttpMethod, HttpVersion, method_text, version_text};
use crate::text::{decimal, append_decimal};

verus! {

/// What a request builder describes: the request line, the target and the extra headers
/// in the order in which they were first added.
pub struct RequestModel {
    pub method: HttpMethod,
    pub path: Seq<char>,
    pub host: Seq<char>,
    pub port: u16,
    pub version: HttpVersion,
    pub headers: Seq<(Seq<char>, Seq<char>)>,
}

/// The names and values of a header list.
pub open spec fn headers_view(hs: Seq<(String, String)>) -> Seq<(Seq<char>, Seq<char>)> {
    hs.map_values(|e: (String, String)| (e.0@, e.1@))
}

/// No two headers share a name.
pub open spec fn names_unique(hs: Seq<(Seq<char>, Seq<char>)>) -> bool {
    forall|i: int, j: int| 0 <= i < hs.len() && 0 <= j < hs.len() && i != j ==> hs[i].0 != hs[j].0
}

/// Setting a header: a header of the same name keeps its place and takes the new value
/// (the last value written wins); a new name goes to the end.
pub open spec fn with_header(hs: Seq<(Seq<char>, Seq<char>)>, k: Seq<char>, v: Seq<char>) -> Seq<(Seq<char>, Seq<char>)> {
    if exists|i: int| 0 <= i < hs.len() && hs[i].0 == k {
        let i = choose|i: int| 0 <= i < hs.len() && hs[i].0 == k;
        hs.update(i, (k, v))
    } else {
        hs.push((k, v))
    }
}

/// The header lines, each `Name: Value` ended by CR LF.
pub open spec fn header_lines(hs: Seq<(Seq<char>, Seq<char>)>) -> Seq<char>
    decreases hs.len(),
{
    if hs.len() == 0 {
        Seq::empty()
    } else {
        header_lines(hs.drop_last()) + hs.last().0 + ": "@ + hs.last().1 + "\r\n"@
    }
}

/// `host:port`, the address that a request is sent to.
pub open spec fn authority(host: Seq<char>, port: u16) -> Seq<char> {
    host + ":"@ + decimal(port as nat)
}

/// The wire text of a request: request line, `Host` header, extra headers, blank line.
pub open spec fn request_text(r: RequestModel) -> Seq<char> {
    method_text(r.method) + " "@ + r.path + " "@ + version_text(r.version) + "\r\n"@
        + "Host: "@ + authority(r.host, r.port) + "\r\n"@
        + header_lines(r.headers) + "\r\n"@
}

/// A path is accepted when it starts with `/`; a host when it is not empty.
pub open spec fn target_ok(path: Seq<char>, host: Seq<char>) -> bool {
    path.len() > 0 && path[0] == '/' && host.len() > 0
}

/// Sets header `key` to `value` in a list whose names are unique.
pub fn set_header(hs: &mut Vec<(String, String)>, key: &str, value: &str)
    requires
        names_unique(headers_view(old(hs)@)),
    ensures
        headers_view(final(hs)@)
            == with_header(headers_view(old(hs)@), key@, value@),
        names_unique(headers_view(final(hs)@)),
{
    let ghost m = headers_view(hs@);
    let k = key.to_string();
    let v = value.to_string();
    proof {
        vstd::string::to_string_from_display_ensures_for_str(key, k);
        vstd::string::to_string_from_display_ensures_for_str(value, v);
    }
    let mut i: usize = 0;
    while i < hs.len()
        invariant
            i <= hs@.len(),
            headers_view(hs@) == m,
            m == headers_view(old(hs)@),
            k@ == key@,
            v@ == value@,
            forall|j: int| 0 <= j < i ==> m[j].0 != key@,
            names_unique(m),
        decreases hs@.len() - i,
    {
        if hs[i].0 == k {
            assert(m[i as int] == (hs@[i as int].0@, hs@[i as int].1@));
            assert(m[i as int].0 == key@);
            let ghost c = choose|c: int| 0 <= c < m.len() && m[c].0 == key@;
            assert(c == i);
            assert(with_header(m, key@, value@) == m.update(i as int, (key@, value@)));
            hs.set(i, (k, v));
            assert(headers_view(hs@) =~= m.update(i as int, (key@, value@)));
            return;
        }
        i = i + 1;
    }
    hs.push((k, v));
    assert(headers_view(hs@) =~= m.push((key@, value@)));
}

/// A copy of a header list.
pub fn copy_headers(hs: &Vec<(String, String)>) -> (r: Vec<(String, String)>)
    ensures
        headers_view(r@) == headers_view(hs@),
{
    let mut r: Vec<(String, String)> = Vec::new();
    let mut i: usize = 0;
    while i < hs.len()
        invariant
            i <= hs@.len(),
            headers_view(r@) =~= headers_view(hs@).take(i as int),
        decreases hs@.len() - i,
    {
        let k = hs[i].0.clone();
        let v = hs[i].1.clone();
        r.push((k, v));
        assert(headers_view(hs@).take(i as int + 1)
            =~= headers_view(hs@).take(i as int).push((k@, v@)));
        i = i + 1;
    }
    assert(headers_view(hs@).take(i as int) =~= headers_view(hs@));
    r
}

/// Renders the wire text of a request.
pub fn render_request(
    method: HttpMethod,
    path: &str,
    host: &str,
    port: u16,
    version: HttpVersion,
    hs: &Vec<(String, String)>,
) -> (r: String)
    ensures
        r@ == request_text(RequestModel {
            method,
            path: path@,
            host: host@,
            port,
            version,
            headers: headers_view(hs@),
        }),
{
    let ghost m = headers_view(hs@);
    let mut out = String::new();
    out.append(method.as_str());
    out.append(" ");
    out.append(path);
    out.append(" ");
    out.append(version.as_str());
    out.append("\r\n");
    out.append("Host: ");
    out.append(host);
    out.append(":");
    append_decimal(&mut out, port as usize);
    out.append("\r\n");
    let ghost head = out@;
    let mut i: usize = 0;
    while i < hs.len()
        invariant
            i <= hs@.len(),
            m == headers_view(hs@),
            out@ == head + header_lines(m.take(i as int)),
        decreases hs@.len() - i,
    {
        assert(m.take(i as int + 1).drop_last() =~= m.take(i as int));
        assert(m.take(i as int + 1).last() == (hs@[i as int].0@, hs@[i as int].1@));
        out.append(hs[i].0.as_str());
        out.append(": ");
        out.append(hs[i].1.as_str());
        out.append("\r\n");
        i = i + 1;
    }
    assert(m.take(i as int) =~= m);
    out.append("\r\n");
    out
}

/// Builds the request that the downloader sends; its default version is HTTP/1.0.
#[derive(Clone)]
pub struct HttpRequestBuilder {
    method: HttpMethod,
    path: String,
    host: String,
    port: u16,
    version: HttpVersion,
    headers: Vec<(String, String)>,
}

impl View for HttpRequestBuilder {
    type V = RequestModel;

    closed spec fn view(&self) -> RequestModel {
        RequestModel {
            method: self.method,
            path: self.path@,
            host: self.host@,
            port: self.port,
            version: self.version,
            headers: headers_view(self.headers@),
        }
    }
}

impl HttpRequestBuilder {
    /// The builder's header names are unique.
    pub closed spec fn wf(&self) -> bool {
        names_unique(self@.headers)
    }

    pub fn new(method: HttpMethod, path: &str, host: &str, port: u16) -> (r: Self)
        requires
            target_ok(path@, host@),
        ensures
            r.wf(),
            r@ == (RequestModel {
                method,
                path: path@,
                host: host@,
                port,
                version: HttpVersion::Http1_0,
                headers: Seq::empty(),
            }),
    {
        let p = path.to_string();
        let h = host.to_string();
        proof {
            vstd::string::to_string_from_display_ensures_for_str(path, p);
            vstd::string::to_string_from_display_ensures_for_str(host, h);
        }
        let r = HttpRequestBuilder {
            method,
            path: p,
            host: h,
            port,
            version: HttpVersion::Http1_0,
            headers: Vec::new(),
        };
        assert(r@.headers =~= Seq::empty());
        r
    }

    /// Like `new`, but reports a path without a leading `/` or an empty host as an error.
    pub fn try_new(method: HttpMethod, path: &str, host: &str, port: u16) -> (r: Option<Self>)
        ensures
            r is Some <==> target_ok(path@, host@),
            r matches Some(b) ==> b.wf() && b@ == (RequestModel {
                method,
                path: path@,
                host: host@,
                port,
                version: HttpVersion::Http1_0,
                headers: Seq::empty(),
            }),
    {
        if path.unicode_len() == 0 || path.get_char(0) != '/' || host.unicode_len() == 0 {
            None
        } else {
            Some(Self::new(method, path, host, port))
        }
    }

    pub fn version(self, version: HttpVersion) -> (r: Self)
        requires
            self.wf(),
        ensures
            r.wf(),
            r@ == (RequestModel { version, ..self@ }),
    {
        let mut s = self;
        s.version = version;
        s
    }

    pub fn add_header(self, key: &str, value: &str) -> (r: Self)
        requires
            self.wf(),
        ensures
            r.wf(),
            r@ == (RequestModel { headers: with_header(self@.headers, key@, value@), ..self@ }),
    {
        let mut s = self;
        set_header(&mut s.headers, key, value);
        s
    }

    pub fn build(self) -> (r: String)
        ensures
            r@ == request_text(self@),
    {
        self.render()
    }

    /// The wire text of the request, leaving the builder in place.
    pub fn render(&self) -> (r: String)
        ensures
            r@ == request_text(self@),
    {
        render_request(self.method, self.path.as_str(), self.host.as_str(), self.port, self.version, &self.headers)
    }

    /// The wire text of the request with one more header set, leaving the builder in place.
    pub fn render_with_header(&self, key: &str, value: &str) -> (r: String)
        requires
            self.wf(),
        ensures
            r@ == request_text(RequestModel { headers: with_header(self@.headers, key@, value@), ..self@ }),
    {
        let mut hs = copy_headers(&self.headers);
        set_header(&mut hs, key, value);
        render_request(self.method, self.path.as_str(), self.host.as_str(), self.port, self.version, &hs)
    }

    pub fn get_host(&self) -> (r: String)
        ensures
            r@ == authority(self@.host, self@.port),
    {
        let mut out = String::new();
        out.append(self.host.as_str());
        out.append(":");
        append_decimal(&mut out, self.port as usize);
        out
    }

    pub fn get_http_version(&self) -> (r: String)
        ensures
            r@ == version_text(self@.version),
    {
        String::from_str(self.version.as_str())
    }
}

} // verus!
