use vstd::prelude::*;
use crate::http_types::version_text;
use crate::http_request_builder::{HttpRequestBuilder, RequestModel, request_text, with_header};
use crate::response::{
    ParseError, parsed, status_is, content_length, parse_content_length, status_matches,
};
use crate::session::{DownloadError, Phase, Session, Step};
use crate::text::{decimal, append_decimal};

verus! {

/// Span of a range request unless configured otherwise.
pub const DEFAULT_CHUNK_SIZE: usize = 50000;

/// The span below which a range request never shrinks, unless configured otherwise.
pub const MIN_CHUNK_SIZE: usize = 1024;

/// Attempts for one request unless configured otherwise.
pub const DEFAULT_RETRIES: usize = 3;

/// The value of the `Range` header for the bytes `start..end` (the header's end is inclusive).
pub open spec fn range_value(start: nat, end: nat) -> Seq<char> {
    "bytes="@ + decimal(start) + "-"@ + decimal((end - 1) as nat)
}

/// What follows a response to the size-discovery request.
pub open spec fn discovery_reply(s: Session, version: Seq<char>, raw: Seq<u8>) -> (Session, Step) {
    match parsed(raw) {
        Err(e) => (s.failed_spec(DownloadError::Parse(e)), Step::Fail(DownloadError::Parse(e))),
        Ok((h, _)) => if !status_is(h, version, "200"@) {
            (s.failed_spec(DownloadError::ProtocolStatus), Step::Fail(DownloadError::ProtocolStatus))
        } else {
            match content_length(h) {
                None => (
                    s.failed_spec(DownloadError::Parse(ParseError::MissingContentLength)),
                    Step::Fail(DownloadError::Parse(ParseError::MissingContentLength)),
                ),
                Some(n) => (s.discovery_spec(n as usize), Step::Ready),
            }
        },
    }
}

/// What follows a response to a range request.
pub open spec fn chunk_reply(s: Session, version: Seq<char>, raw: Seq<u8>) -> (Session, Step) {
    match parsed(raw) {
        Err(e) => (s.failed_spec(DownloadError::Parse(e)), Step::Fail(DownloadError::Parse(e))),
        Ok((h, b)) => if !status_is(h, version, "206"@) {
            (s.failed_spec(DownloadError::ProtocolStatus), Step::Fail(DownloadError::ProtocolStatus))
        } else {
            s.chunk_spec((raw.len() - b.len()) as usize, b.len() as usize)
        },
    }
}

/// A response whose status line is not the success code of the current phase (200 for
/// discovery, 206 for a range) ends the download at once: the step is a protocol failure,
/// no attempt is counted, nothing is written, and no request is due after it.
pub proof fn lemma_wrong_status_stops(s: Session, version: Seq<char>, raw: Seq<u8>)
    requires
        s.wf(),
        s.active(),
        parsed(raw) is Ok,
        s.phase is Uninitialized ==> !status_is(parsed(raw)->Ok_0.0, version, "200"@),
        s.phase is Downloading ==> !status_is(parsed(raw)->Ok_0.0, version, "206"@),
    ensures
        ({
            let (n, step) = if s.phase is Uninitialized {
                discovery_reply(s, version, raw)
            } else {
                chunk_reply(s, version, raw)
            };
            &&& step == Step::Fail(DownloadError::ProtocolStatus)
            &&& n.attempts == s.attempts
            &&& n.written == s.written
            &&& !n.active()
        }),
{
}

/// Fetches one resource: first its size, then its bytes range by range.
/// The caller sends each request, reports what came back, and writes what it is told to.
pub struct FileDownloader {
    base_request: HttpRequestBuilder,
    session: Session,
}

impl FileDownloader {
    /// The request that every request of the download is built from.
    pub closed spec fn request(&self) -> RequestModel {
        self.base_request@
    }

    /// The download's state.
    pub closed spec fn state(&self) -> Session {
        self.session
    }

    pub closed spec fn wf(&self) -> bool {
        self.base_request.wf() && self.session.wf()
    }

    /// A downloader with the default chunk size, floor and attempts.
    pub fn new(base_request: HttpRequestBuilder) -> (r: Self)
        requires
            base_request.wf(),
        ensures
            r.wf(),
            r.request() == base_request@,
            r.state() == (Session {
                phase: Phase::Uninitialized,
                total_size: None,
                written: 0,
                chunk_size: DEFAULT_CHUNK_SIZE,
                min_chunk: MIN_CHUNK_SIZE,
                retries: DEFAULT_RETRIES,
                attempts: 0,
            }),
    {
        Self::with_policy(base_request, DEFAULT_CHUNK_SIZE, MIN_CHUNK_SIZE, DEFAULT_RETRIES)
    }

    /// A downloader with the given chunk size (raised to the floor), floor and attempts.
    pub fn with_policy(base_request: HttpRequestBuilder, chunk_size: usize, min_chunk: usize, retries: usize) -> (r: Self)
        requires
            base_request.wf(),
            min_chunk >= 1,
            retries >= 1,
        ensures
            r.wf(),
            r.request() == base_request@,
            r.state() == (Session {
                phase: Phase::Uninitialized,
                total_size: None,
                written: 0,
                chunk_size: if chunk_size < min_chunk { min_chunk } else { chunk_size },
                min_chunk,
                retries,
                attempts: 0,
            }),
    {
        FileDownloader { base_request, session: Session::new(chunk_size, min_chunk, retries) }
    }

    /// The download's state.
    pub fn session(&self) -> (r: Session)
        ensures
            r == self.state(),
    {
        self.session
    }

    /// The request to send next: the whole resource while its size is unknown, then the
    /// next range; none once the download has completed or failed.
    pub fn next_request(&self) -> (r: Option<String>)
        requires
            self.wf(),
        ensures
            self.state().phase is Uninitialized ==> (r matches Some(q) && q@ == request_text(self.request())),
            self.state().phase is Downloading ==> (r matches Some(q) && q@ == request_text(RequestModel {
                headers: with_header(
                    self.request().headers,
                    "Range"@,
                    range_value(self.state().written as nat, self.state().next_end()),
                ),
                ..self.request()
            })),
            !self.state().active() ==> r is None,
    {
        match self.session.phase {
            Phase::Uninitialized => Some(self.base_request.render()),
            Phase::Downloading => {
                let end = self.session.range_end();
                let mut v = String::from_str("bytes=");
                append_decimal(&mut v, self.session.written);
                v.append("-");
                append_decimal(&mut v, end - 1);
                Some(self.base_request.render_with_header("Range", v.as_str()))
            },
            _ => None,
        }
    }

    /// Splits a raw response into header text and body.
    pub fn parse_response(response: &[u8]) -> (r: Result<(&str, &[u8]), ParseError>)
        ensures
            match r {
                Ok((h, b)) => parsed(response@) == Ok::<(Seq<char>, Seq<u8>), ParseError>((h@, b@)),
                Err(e) => parsed(response@) == Err::<(Seq<char>, Seq<u8>), ParseError>(e),
            },
    {
        crate::response::parse_response(response)
    }

    /// Handles the response to the size-discovery request.
    pub fn initial_fetch(&mut self, raw: &[u8]) -> (r: Step)
        requires
            old(self).wf(),
            old(self).state().phase is Uninitialized,
        ensures
            final(self).wf(),
            final(self).request() == old(self).request(),
            (final(self).state(), r) == discovery_reply(old(self).state(), version_text(old(self).request().version), raw@),
    {
        let version = self.base_request.get_http_version();
        match Self::parse_response(raw) {
            Err(e) => {
                self.session = self.session.record_fatal(DownloadError::Parse(e));
                Step::Fail(DownloadError::Parse(e))
            },
            Ok((h, _)) => {
                if !status_matches(h, version.as_str(), "200") {
                    self.session = self.session.record_fatal(DownloadError::ProtocolStatus);
                    return Step::Fail(DownloadError::ProtocolStatus);
                }
                match parse_content_length(h) {
                    None => {
                        self.session = self.session.record_fatal(DownloadError::Parse(ParseError::MissingContentLength));
                        Step::Fail(DownloadError::Parse(ParseError::MissingContentLength))
                    },
                    Some(n) => {
                        self.session = self.session.record_discovery(n);
                        Step::Ready
                    },
                }
            },
        }
    }

    /// Handles the response to a range request.
    pub fn fetch_chunk(&mut self, raw: &[u8]) -> (r: Step)
        requires
            old(self).wf(),
            old(self).state().phase is Downloading,
        ensures
            final(self).wf(),
            final(self).request() == old(self).request(),
            (final(self).state(), r) == chunk_reply(old(self).state(), version_text(old(self).request().version), raw@),
            r matches Step::Append { from, to } ==> (from <= to <= raw@.len() && (parsed(raw@) matches Ok((_, b))
                && raw@.subrange(from as int, to as int) == b.take(to - from))),
    {
        let version = self.base_request.get_http_version();
        match Self::parse_response(raw) {
            Err(e) => {
                self.session = self.session.record_fatal(DownloadError::Parse(e));
                Step::Fail(DownloadError::Parse(e))
            },
            Ok((h, b)) => {
                if !status_matches(h, version.as_str(), "206") {
                    self.session = self.session.record_fatal(DownloadError::ProtocolStatus);
                    return Step::Fail(DownloadError::ProtocolStatus);
                }
                let (s, step) = self.session.record_chunk(raw.len() - b.len(), b.len());
                proof {
                    if let Step::Append { from, to } = step {
                        assert(raw@.subrange(from as int, to as int) =~= b@.take(to - from));
                    }
                }
                self.session = s;
                step
            },
        }
    }

    /// Handles a response to the request that `next_request` gave.
    pub fn on_response(&mut self, raw: &[u8]) -> (r: Step)
        requires
            old(self).wf(),
            old(self).state().active(),
        ensures
            final(self).wf(),
            final(self).request() == old(self).request(),
            old(self).state().phase is Uninitialized ==> (final(self).state(), r)
                == discovery_reply(old(self).state(), version_text(old(self).request().version), raw@),
            old(self).state().phase is Downloading ==> (final(self).state(), r)
                == chunk_reply(old(self).state(), version_text(old(self).request().version), raw@),
            r matches Step::Append { from, to } ==> (from <= to <= raw@.len() && (parsed(raw@) matches Ok((_, b))
                && raw@.subrange(from as int, to as int) == b.take(to - from))),
    {
        if let Phase::Uninitialized = self.session.phase {
            self.initial_fetch(raw)
        } else {
            self.fetch_chunk(raw)
        }
    }

    /// Handles a failed connect, send or receive for the request that `next_request` gave.
    pub fn on_transport_failure(&mut self) -> (r: Step)
        requires
            old(self).wf(),
            old(self).state().active(),
        ensures
            final(self).wf(),
            final(self).request() == old(self).request(),
            (final(self).state(), r) == old(self).state().failure_spec(),
    {
        let (s, step) = self.session.record_failure();
        self.session = s;
        step
    }
}

} // verus!
