use vstd::prelude::*;
use crate::http_types::{HttpMethod, HttpVersion};
use crate::http_request_builder::{
    RequestModel, names_unique, with_header, request_text, target_ok, headers_view, set_header,
    render_request,
};

verus! {

/// A general request builder; its default version is HTTP/1.1.
#[derive(Clone)]
pub struct HttpRequestBuilder {
    method: HttpMethod,
    path: String,
    host: String,
    port: u16,
    version: HttpVersion,
    headers: Vec<(String, String)>,
}

impl View for HttpRequestBuilder {
    type V = RequestModel;

    closed spec fn view(&self) -> RequestModel {
        RequestModel {
            method: self.method,
            path: self.path@,
            host: self.host@,
            port: self.port,
            version: self.version,
            headers: headers_view(self.headers@),
        }
    }
}

impl HttpRequestBuilder {
    /// The builder's header names are unique.
    pub closed spec fn wf(&self) -> bool {
        names_unique(self@.headers)
    }

    pub fn new(method: HttpMethod, path: &str, host: &str, port: u16) -> (r: Self)
        requires
            target_ok(path@, host@),
        ensures
            r.wf(),
            r@ == (RequestModel {
                method,
                path: path@,
                host: host@,
                port,
                version: HttpVersion::Http1_1,
                headers: Seq::empty(),
            }),
    {
        let p = path.to_string();
        let h = host.to_string();
        proof {
            vstd::string::to_string_from_display_ensures_for_str(path, p);
            vstd::string::to_string_from_display_ensures_for_str(host, h);
        }
        let r = HttpRequestBuilder {
            method,
            path: p,
            host: h,
            port,
            version: HttpVersion::Http1_1,
            headers: Vec::new(),
        };
        assert(r@.headers =~= Seq::empty());
        r
    }

    pub fn version(self, version: HttpVersion) -> (r: Self)
        requires
            self.wf(),
        ensures
            r.wf(),
            r@ == (RequestModel { version, ..self@ }),
    {
        let mut s = self;
        s.version = version;
        s
    }

    pub fn add_header(self, key: &str, value: &str) -> (r: Self)
        requires
            self.wf(),
        ensures
            r.wf(),
            r@ == (RequestModel { headers: with_header(self@.headers, key@, value@), ..self@ }),
    {
        let mut s = self;
        set_header(&mut s.headers, key, value);
        s
    }

    pub fn build(self) -> (r: String)
        ensures
            r@ == request_text(self@),
    {
        render_request(self.method, self.path.as_str(), self.host.as_str(), self.port, self.version, &self.headers)
    }
}

} // verus!
