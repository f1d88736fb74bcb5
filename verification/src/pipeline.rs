//! The request pipeline: CORS, content negotiation, validator selection,
//! conditional evaluation, range resolution, and header assembly, as one
//! pure decision from configuration, resource snapshot, and request
//! headers to a response plan that the transport executes.

use vstd::prelude::*;
use crate::cond::{
    is_not_modified, is_precondition_failed, spec_is_not_modified, spec_is_precondition_failed,
    spec_opt_etag_list_view,
};
use crate::cors::{
    evaluate_cors, spec_cors_decision, spec_opt_policy_view, CorsDecision, CorsDecisionView,
    CorsPolicy, CorsPolicyView,
};
use crate::etag::{parse_etag_list, spec_parse_etag_list, ETagListView, EntityTag};
use crate::etag::EntityTagView;
use crate::httpdate::{format_http_date, http_date_num, http_date_str, parse_http_date};
use crate::negotiation::{
    should_gzip, spec_gzip_opts_wf, spec_opt_bytes, spec_opt_gzip_view, spec_should_gzip,
    GzipOptions, GzipOptionsView,
};
use crate::path::{path_extension, spec_path_extension};
use crate::range::{range_outcome, spec_range_outcome, RequestedRange};
use crate::resource::{spec_etag, spec_meta_wf, ResourceMeta, ResourceMetaView};

verus! {

/// Cache configuration: the `max-age` sent in `Cache-Control`.
pub struct CacheOptions {
    pub max_age: u32,
}

/// The resolved server options the pipeline consumes, built once at
/// startup and shared read-only by every request.
pub struct Options {
    /// Serve a listing for directories instead of 404 (the listing
    /// itself is a collaborator outside this crate).
    pub browse: bool,
    pub gzip: Option<GzipOptions>,
    pub cache: Option<CacheOptions>,
    pub cors: Option<CorsPolicy>,
}

/// Mathematical model of `Options`.
pub struct OptionsView {
    pub browse: bool,
    pub gzip: Option<GzipOptionsView>,
    pub cache: Option<u32>,
    pub cors: Option<CorsPolicyView>,
}

impl View for Options {
    type V = OptionsView;

    open spec fn view(&self) -> OptionsView {
        OptionsView {
            browse: self.browse,
            gzip: if self.gzip is Some {
                Option::Some(self.gzip->0@)
            } else {
                Option::None
            },
            cache: if self.cache is Some {
                Option::Some(self.cache->0.max_age)
            } else {
                Option::None
            },
            cors: if self.cors is Some {
                Option::Some(self.cors->0@)
            } else {
                Option::None
            },
        }
    }
}

/// The request methods this server distinguishes.
#[derive(Clone, Copy, Debug, PartialEq, Eq, Structural)]
pub enum Method {
    Get,
    Head,
    Options,
    Other,
}

/// Whether the method is served at all; anything else is answered 405.
pub fn method_allowed(method: Method) -> (r: bool)
    ensures
        r == (method is Get || method is Head || method is Options),
{
    match method {
        Method::Get | Method::Head | Method::Options => true,
        Method::Other => false,
    }
}

/// The raw request header values the pipeline consumes, exactly as they
/// came off the wire, plus whether the request offers credentials
/// (cookies or authorization).
pub struct RequestHeaders {
    pub range: Option<Vec<u8>>,
    pub if_none_match: Option<Vec<u8>>,
    pub if_modified_since: Option<Vec<u8>>,
    pub if_match: Option<Vec<u8>>,
    pub if_unmodified_since: Option<Vec<u8>>,
    pub accept_encoding: Option<Vec<u8>>,
    pub origin: Option<Vec<u8>>,
    pub credentials: bool,
}

/// Mathematical model of `RequestHeaders`.
pub struct RequestHeadersView {
    pub range: Option<Seq<u8>>,
    pub if_none_match: Option<Seq<u8>>,
    pub if_modified_since: Option<Seq<u8>>,
    pub if_match: Option<Seq<u8>>,
    pub if_unmodified_since: Option<Seq<u8>>,
    pub accept_encoding: Option<Seq<u8>>,
    pub origin: Option<Seq<u8>>,
    pub credentials: bool,
}

impl View for RequestHeaders {
    type V = RequestHeadersView;

    open spec fn view(&self) -> RequestHeadersView {
        RequestHeadersView {
            range: if self.range is Some {
                Option::Some(self.range->0@)
            } else {
                Option::None
            },
            if_none_match: if self.if_none_match is Some {
                Option::Some(self.if_none_match->0@)
            } else {
                Option::None
            },
            if_modified_since: if self.if_modified_since is Some {
                Option::Some(self.if_modified_since->0@)
            } else {
                Option::None
            },
            if_match: if self.if_match is Some {
                Option::Some(self.if_match->0@)
            } else {
                Option::None
            },
            if_unmodified_since: if self.if_unmodified_since is Some {
                Option::Some(self.if_unmodified_since->0@)
            } else {
                Option::None
            },
            accept_encoding: if self.accept_encoding is Some {
                Option::Some(self.accept_encoding->0@)
            } else {
                Option::None
            },
            origin: if self.origin is Some {
                Option::Some(self.origin->0@)
            } else {
                Option::None
            },
            credentials: self.credentials,
        }
    }
}

/// A `Content-Range` response header.
#[derive(Clone, Copy, Debug, PartialEq, Eq, Structural)]
pub enum ContentRangeHeader {
    /// `bytes start-end/total`, bounds inclusive.
    Bytes { start: u64, end: u64, total: u64 },
    /// `bytes */total`, for a 416.
    Unsatisfied { total: u64 },
}

/// What the body of the response is.
pub enum BodyPlan {
    /// No body at all (304, 412, and every HEAD response).
    Empty,
    /// A short fixed text (error responses).
    Text(Vec<u8>),
    /// The bytes `[start, end)` of the opened file, streamed in chunks;
    /// compressed on the way out when the plan selects gzip.
    FileRange { start: u64, end: u64 },
}

/// Everything the transport needs to emit one response. Pure data: no
/// handle, no stream; the transport owns the I/O.
pub struct ResponsePlan {
    pub status: u16,
    pub etag: Option<EntityTag>,
    /// Rendered `Last-Modified` value.
    pub last_modified: Option<String>,
    pub content_type: Option<Vec<u8>>,
    pub content_length: Option<u64>,
    /// Send `Transfer-Encoding: chunked` instead of a length.
    pub chunked: bool,
    /// Send `Accept-Ranges: bytes`.
    pub accept_ranges: bool,
    pub content_range: Option<ContentRangeHeader>,
    /// Send `Vary: Accept-Encoding`.
    pub vary_accept_encoding: bool,
    /// Send `Cache-Control: public, max-age=<n>`.
    pub cache_max_age: Option<u32>,
    /// Send `Allow: GET, HEAD, OPTIONS` (405 only).
    pub allow_methods: bool,
    pub cors: CorsDecision,
    /// Compress the body at this level and send `Content-Encoding: gzip`.
    pub gzip_level: Option<u8>,
    pub body: BodyPlan,
}

/// A plan with the given status and nothing else: no headers, no body.
fn empty_plan(status: u16) -> (r: ResponsePlan)
    ensures
        r.status == status,
        r.etag is None,
        r.last_modified is None,
        r.content_type is None,
        r.content_length is None,
        !r.chunked,
        !r.accept_ranges,
        r.content_range is None,
        !r.vary_accept_encoding,
        r.cache_max_age is None,
        !r.allow_methods,
        r.cors is NoHeaders,
        r.gzip_level is None,
        r.body is Empty,
{
    ResponsePlan {
        status,
        etag: None,
        last_modified: None,
        content_type: None,
        content_length: None,
        chunked: false,
        accept_ranges: false,
        content_range: None,
        vary_accept_encoding: false,
        cache_max_age: None,
        allow_methods: false,
        cors: CorsDecision::NoHeaders,
        gzip_level: None,
        body: BodyPlan::Empty,
    }
}

/// The bytes of `Not Found`.
pub open spec fn spec_not_found_text() -> Seq<u8> {
    seq![78u8, 111u8, 116u8, 32u8, 70u8, 111u8, 117u8, 110u8, 100u8]
}

fn not_found_text() -> (r: Vec<u8>)
    ensures
        r@ == spec_not_found_text(),
{
    let mut v: Vec<u8> = Vec::new();
    v.push(78);
    v.push(111);
    v.push(116);
    v.push(32);
    v.push(70);
    v.push(111);
    v.push(117);
    v.push(110);
    v.push(100);
    proof {
        assert(v@ =~= spec_not_found_text());
    }
    v
}

/// The bytes of `This resource only supports...`.
pub open spec fn spec_method_not_allowed_text() -> Seq<u8> {
    seq![84u8, 104u8, 105u8, 115u8, 32u8, 114u8, 101u8, 115u8, 111u8, 117u8, 114u8, 99u8, 101u8, 32u8, 111u8, 110u8, 108u8, 121u8, 32u8, 115u8, 117u8, 112u8, 112u8, 111u8, 114u8, 116u8, 115u8, 32u8, 71u8, 69u8, 84u8, 44u8, 32u8, 72u8, 69u8, 65u8, 68u8, 44u8, 32u8, 97u8, 110u8, 100u8, 32u8, 79u8, 80u8, 84u8, 73u8, 79u8, 78u8, 83u8, 46u8]
}

fn method_not_allowed_text() -> (r: Vec<u8>)
    ensures
        r@ == spec_method_not_allowed_text(),
{
    let mut v: Vec<u8> = Vec::new();
    v.push(84);
    v.push(104);
    v.push(105);
    v.push(115);
    v.push(32);
    v.push(114);
    v.push(101);
    v.push(115);
    v.push(111);
    v.push(117);
    v.push(114);
    v.push(99);
    v.push(101);
    v.push(32);
    v.push(111);
    v.push(110);
    v.push(108);
    v.push(121);
    v.push(32);
    v.push(115);
    v.push(117);
    v.push(112);
    v.push(112);
    v.push(111);
    v.push(114);
    v.push(116);
    v.push(115);
    v.push(32);
    v.push(71);
    v.push(69);
    v.push(84);
    v.push(44);
    v.push(32);
    v.push(72);
    v.push(69);
    v.push(65);
    v.push(68);
    v.push(44);
    v.push(32);
    v.push(97);
    v.push(110);
    v.push(100);
    v.push(32);
    v.push(79);
    v.push(80);
    v.push(84);
    v.push(73);
    v.push(79);
    v.push(78);
    v.push(83);
    v.push(46);
    proof {
        assert(v@ =~= spec_method_not_allowed_text());
    }
    v
}

/// The bytes of `Invalid range`.
pub open spec fn spec_invalid_range_text() -> Seq<u8> {
    seq![73u8, 110u8, 118u8, 97u8, 108u8, 105u8, 100u8, 32u8, 114u8, 97u8, 110u8, 103u8, 101u8]
}

fn invalid_range_text() -> (r: Vec<u8>)
    ensures
        r@ == spec_invalid_range_text(),
{
    let mut v: Vec<u8> = Vec::new();
    v.push(73);
    v.push(110);
    v.push(118);
    v.push(97);
    v.push(108);
    v.push(105);
    v.push(100);
    v.push(32);
    v.push(114);
    v.push(97);
    v.push(110);
    v.push(103);
    v.push(101);
    proof {
        assert(v@ =~= spec_invalid_range_text());
    }
    v
}

/// The bytes of `text/plain`.
pub open spec fn spec_plaintext_text() -> Seq<u8> {
    seq![116u8, 101u8, 120u8, 116u8, 47u8, 112u8, 108u8, 97u8, 105u8, 110u8]
}

fn plaintext_text() -> (r: Vec<u8>)
    ensures
        r@ == spec_plaintext_text(),
{
    let mut v: Vec<u8> = Vec::new();
    v.push(116);
    v.push(101);
    v.push(120);
    v.push(116);
    v.push(47);
    v.push(112);
    v.push(108);
    v.push(97);
    v.push(105);
    v.push(110);
    proof {
        assert(v@ =~= spec_plaintext_text());
    }
    v
}


/// 404: the path was unsafe, missing, or unreadable; no distinction is
/// surfaced to the client.
pub fn not_found() -> (r: ResponsePlan)
    ensures
        r.status == 404,
        r.content_length == Some(9u64),
        (r.body matches BodyPlan::Text(t) && t@ == spec_not_found_text()),
        r.etag is None,
        r.content_type is None,
        r.content_range is None,
{
    let mut r = empty_plan(404);
    r.content_length = Some(9);
    r.body = BodyPlan::Text(not_found_text());
    r
}

/// 412: a precondition (`If-Match` / `If-Unmodified-Since`) failed.
pub fn precondition_failed() -> (r: ResponsePlan)
    ensures
        r.status == 412,
        r.content_length == Some(0u64),
        r.body is Empty,
        r.etag is None,
        r.content_type is None,
        r.cors is NoHeaders,
{
    let mut r = empty_plan(412);
    r.content_length = Some(0);
    r
}

/// 304: the client's cached representation is current. The tag rides
/// along; body, type and length stay absent.
pub fn not_modified(etag: EntityTag) -> (r: ResponsePlan)
    ensures
        r.status == 304,
        (r.etag matches Some(t) && t@ == etag@),
        r.content_length is None,
        r.content_type is None,
        r.body is Empty,
        r.cors is NoHeaders,
{
    let mut r = empty_plan(304);
    r.etag = Some(etag);
    r
}

/// 405 with `Allow: GET, HEAD, OPTIONS` and a short text body.
pub fn method_not_allowed() -> (r: ResponsePlan)
    ensures
        r.status == 405,
        r.allow_methods,
        r.content_length == Some(51u64),
        (r.content_type matches Some(ct) && ct@ == spec_plaintext_text()),
        (r.body matches BodyPlan::Text(t) && t@ == spec_method_not_allowed_text()),
{
    let mut r = empty_plan(405);
    r.allow_methods = true;
    r.content_length = Some(51);
    r.content_type = Some(plaintext_text());
    r.body = BodyPlan::Text(method_not_allowed_text());
    r
}

/// 416 with `Content-Range: bytes */<len>` and a short text body.
pub fn invalid_range(resource_len: u64) -> (r: ResponsePlan)
    ensures
        r.status == 416,
        r.content_range == Some(ContentRangeHeader::Unsatisfied { total: resource_len }),
        r.content_length == Some(13u64),
        r.cors is NoHeaders,
        (r.content_type matches Some(ct) && ct@ == spec_plaintext_text()),
        (r.body matches BodyPlan::Text(t) && t@ == spec_invalid_range_text()),
{
    let mut r = empty_plan(416);
    r.content_range = Some(ContentRangeHeader::Unsatisfied { total: resource_len });
    r.content_length = Some(13);
    r.content_type = Some(plaintext_text());
    r.body = BodyPlan::Text(invalid_range_text());
    r
}

/// 403: a credentialed request from an origin the policy rejects.
pub fn cors_forbidden() -> (r: ResponsePlan)
    ensures
        r.status == 403,
        r.body is Empty,
        r.etag is None,
        r.content_length == Some(0u64),
        r.cors is NoHeaders,
{
    let mut r = empty_plan(403);
    r.content_length = Some(0);
    r
}

/// The entity-tag list named by an optional raw header value; a present
/// but malformed value counts as absent.
pub open spec fn spec_list_of(h: Option<Seq<u8>>) -> Option<ETagListView> {
    match h {
        Option::Some(s) => spec_parse_etag_list(s),
        Option::None => Option::None,
    }
}

/// The second count named by an optional raw date header; a present but
/// malformed value counts as absent.
pub open spec fn spec_date_of(h: Option<Seq<u8>>) -> Option<i64> {
    match h {
        Option::Some(s) => http_date_num(s),
        Option::None => Option::None,
    }
}

/// Whether this response will be gzip-compressed.
pub open spec fn spec_pipeline_gzip(
    opts: OptionsView,
    meta: ResourceMetaView,
    path: Seq<u8>,
    req: RequestHeadersView,
) -> bool {
    spec_should_gzip(
        opts.gzip,
        meta.len,
        meta.content_type.compressible,
        spec_path_extension(path),
        req.accept_encoding,
    )
}

/// The validator of the representation that will be sent: the identity
/// tag, or the encoded variant under compression.
pub open spec fn spec_pipeline_etag(
    opts: OptionsView,
    meta: ResourceMetaView,
    path: Seq<u8>,
    req: RequestHeadersView,
) -> EntityTagView {
    spec_etag(meta, !spec_pipeline_gzip(opts, meta, path, req))
}

/// The not-modified test against the selected validator.
pub open spec fn spec_pipeline_not_modified(
    opts: OptionsView,
    meta: ResourceMetaView,
    path: Seq<u8>,
    req: RequestHeadersView,
) -> bool {
    spec_is_not_modified(
        spec_list_of(req.if_none_match),
        spec_date_of(req.if_modified_since),
        spec_pipeline_etag(opts, meta, path, req),
        meta.last_modified,
    )
}

/// The precondition-failed test against the selected validator.
pub open spec fn spec_pipeline_precondition_failed(
    opts: OptionsView,
    meta: ResourceMetaView,
    path: Seq<u8>,
    req: RequestHeadersView,
) -> bool {
    spec_is_precondition_failed(
        spec_list_of(req.if_match),
        spec_date_of(req.if_unmodified_since),
        spec_pipeline_etag(opts, meta, path, req),
        meta.last_modified,
    )
}

/// The range outcome, forced to `Absent` when compression was selected:
/// a 206 and gzip are never combined.
pub open spec fn spec_pipeline_range(
    opts: OptionsView,
    meta: ResourceMetaView,
    path: Seq<u8>,
    req: RequestHeadersView,
) -> RequestedRange {
    if spec_pipeline_gzip(opts, meta, path, req) {
        RequestedRange::Absent
    } else {
        spec_range_outcome(req.range, meta.len)
    }
}

/// The CORS decision for this request.
pub open spec fn spec_pipeline_cors(opts: OptionsView, req: RequestHeadersView) -> CorsDecisionView {
    spec_cors_decision(opts.cors, req.origin, req.credentials)
}

/// Selecting compression forces the range outcome to `Absent`, whatever
/// `Range` header the client sent: a 206 and `Content-Encoding: gzip`
/// are never combined.
pub proof fn lemma_compression_bypasses_range(
    opts: OptionsView,
    meta: ResourceMetaView,
    path: Seq<u8>,
    req: RequestHeadersView,
)
    ensures
        spec_pipeline_gzip(opts, meta, path, req) ==> spec_pipeline_range(
            opts,
            meta,
            path,
            req,
        ) is Absent,
{
}

/// The announced length of the served representation: the identity
/// length, or none under chunked compression.
pub open spec fn spec_pipeline_content_length(
    opts: OptionsView,
    meta: ResourceMetaView,
    path: Seq<u8>,
    req: RequestHeadersView,
) -> Option<u64> {
    if spec_pipeline_gzip(opts, meta, path, req) {
        Option::None
    } else {
        Option::Some(meta.len)
    }
}

/// Repeating an identical request against an unmodified snapshot selects
/// identical validators: the tag, the modification time behind the
/// rendered `Last-Modified`, and the announced content length are
/// functions of the configuration, the snapshot, and the request alone.
pub proof fn lemma_identical_requests_identical_validators(
    opts: OptionsView,
    meta: ResourceMetaView,
    path: Seq<u8>,
    req1: RequestHeadersView,
    req2: RequestHeadersView,
)
    requires
        req1 == req2,
    ensures
        spec_pipeline_etag(opts, meta, path, req1) == spec_pipeline_etag(opts, meta, path, req2),
        spec_pipeline_content_length(opts, meta, path, req1) == spec_pipeline_content_length(
            opts,
            meta,
            path,
            req2,
        ),
        spec_pipeline_gzip(opts, meta, path, req1) == spec_pipeline_gzip(opts, meta, path, req2),
{
}

/// Echoing a response's own entity tag back as `If-None-Match` against
/// the unmodified resource revalidates: the not-modified test holds, so
/// the answer is a 304 with no body, content type, or content length.
pub proof fn lemma_revalidation_round_trip(
    opts: OptionsView,
    meta: ResourceMetaView,
    path: Seq<u8>,
    req: RequestHeadersView,
)
    requires
        spec_meta_wf(meta),
        req.if_none_match == Option::Some(
            crate::etag::spec_etag_wire(spec_pipeline_etag(opts, meta, path, req)),
        ),
    ensures
        spec_pipeline_not_modified(opts, meta, path, req),
{
    let et = spec_pipeline_etag(opts, meta, path, req);
    crate::resource::lemma_etag_wf(meta, !spec_pipeline_gzip(opts, meta, path, req));
    crate::etag::lemma_etag_wire_round_trip(et);
    assert(spec_list_of(req.if_none_match) == Option::Some(ETagListView::Tags(seq![et])));
    assert(crate::etag::spec_weak_match(seq![et][0], et));
    assert(crate::etag::spec_tags_match_weak(seq![et], et));
}

fn opt_bytes_ref<'a>(o: &'a Option<Vec<u8>>) -> (r: Option<&'a Vec<u8>>)
    ensures
        r is Some <==> o is Some,
        r is Some ==> r->0@ == o->0@,
{
    match o {
        Option::Some(v) => Option::Some(v),
        Option::None => Option::None,
    }
}

/// Decide one request, given the opened resource's snapshot. CORS runs
/// first; a not-modified revalidation wins over a failed precondition;
/// conditionals run before the range is even parsed; compression
/// bypasses ranges entirely. A HEAD request gets every header and no
/// body.
pub fn handler(
    opts: &Options,
    meta: &ResourceMeta,
    path: &[u8],
    method: Method,
    req: &RequestHeaders,
) -> (r: ResponsePlan)
    requires
        spec_meta_wf(meta@),
        (opts@.gzip matches Some(g) ==> spec_gzip_opts_wf(g)),
        !(method is Other),
    ensures
        ({
            let gz = spec_pipeline_gzip(opts@, meta@, path@, req@);
            let et = spec_pipeline_etag(opts@, meta@, path@, req@);
            let cors = spec_pipeline_cors(opts@, req@);
            let nm = spec_pipeline_not_modified(opts@, meta@, path@, req@);
            let pf = spec_pipeline_precondition_failed(opts@, meta@, path@, req@);
            let rng = spec_pipeline_range(opts@, meta@, path@, req@);
            &&& (cors is Forbid ==> r.status == 403 && r.body is Empty && r.content_length
                == Some(0u64) && r.cors is NoHeaders)
            &&& (!(cors is Forbid) && nm ==> r.status == 304 && (r.etag matches Some(t) && t@
                == et) && r.content_length is None && r.content_type is None && r.body is Empty
                && r.cors is NoHeaders)
            &&& (!(cors is Forbid) && !nm && pf ==> r.status == 412 && r.content_length == Some(
                0u64,
            ) && r.body is Empty && r.cors is NoHeaders)
            &&& (!(cors is Forbid) && !nm && !pf && rng is NotSatisfiable ==> r.status == 416
                && r.content_range == Some(ContentRangeHeader::Unsatisfied { total: meta@.len })
                && r.content_length == Some(13u64) && (r.content_type matches Some(ct) && ct@
                == spec_plaintext_text()) && (!(method is Head)
                ==> (r.body matches BodyPlan::Text(t) && t@ == spec_invalid_range_text())))
            &&& (!(cors is Forbid) && !nm && !pf && !(rng is NotSatisfiable) ==> {
                &&& (r.etag matches Some(t) && t@ == et)
                &&& (r.last_modified matches Some(lm) && lm@ == http_date_str(
                    meta@.last_modified,
                ))
                &&& (r.content_type matches Some(ct) && ct@ == meta@.content_type.mime)
                &&& r.accept_ranges
                &&& r.chunked == gz
                &&& r.content_length == (if gz {
                    Option::<u64>::None
                } else {
                    Option::Some(meta@.len)
                })
                &&& r.vary_accept_encoding == (opts@.gzip is Some)
                &&& r.cache_max_age == opts@.cache
                &&& r.cors@ == cors
                &&& r.gzip_level == (if gz {
                    Option::Some(opts@.gzip->0.level)
                } else {
                    Option::<u8>::None
                })
                &&& (rng matches RequestedRange::Satisfiable(br) ==> r.status == 206
                    && r.content_range == Some(
                    ContentRangeHeader::Bytes { start: br.start, end: br.end, total: meta@.len },
                ) && (method is Head ==> r.body is Empty) && (!(method is Head)
                    ==> (r.body matches BodyPlan::FileRange { start, end } && start == br.start
                    && end == br.end + 1)))
                &&& (rng is Absent ==> r.status == 200 && r.content_range is None && (method
                    is Head ==> r.body is Empty) && (!(method is Head)
                    ==> (r.body matches BodyPlan::FileRange { start, end } && start == 0 && end
                    == meta@.len)))
            })
        }),
        !(r.status == 206 && r.gzip_level is Some),
        method is Head ==> r.body is Empty,
        r.status == 200 || r.status == 206 || r.status == 304 || r.status == 403 || r.status
            == 412 || r.status == 416,
{
    let ghost g_gz = spec_pipeline_gzip(opts@, meta@, path@, req@);
    let ghost g_rng = spec_pipeline_range(opts@, meta@, path@, req@);

    // CORS runs immediately, before any caching-header computation.
    let cors_ref = match &opts.cors {
        Option::Some(p) => Option::Some(p),
        Option::None => Option::None,
    };
    let origin_ref = opt_bytes_ref(&req.origin);
    let cors = evaluate_cors(cors_ref, origin_ref, req.credentials);
    proof {
        assert(spec_opt_policy_view(cors_ref) == opts@.cors);
        assert(cors@ == spec_pipeline_cors(opts@, req@));
    }
    if matches!(cors, CorsDecision::Forbid) {
        return cors_forbidden();
    }
    // Compression eligibility selects which validator pair applies.
    let ext = path_extension(path);
    let ext_ref = match &ext {
        Option::Some(e) => Option::Some(e),
        Option::None => Option::None,
    };
    let gzip_ref = match &opts.gzip {
        Option::Some(g) => Option::Some(g),
        Option::None => Option::None,
    };
    let gz = should_gzip(
        gzip_ref,
        meta.len(),
        meta.content_type.compressible,
        ext_ref,
        opt_bytes_ref(&req.accept_encoding),
    );
    proof {
        assert(spec_opt_gzip_view(gzip_ref) == opts@.gzip);
        assert(spec_opt_bytes(ext_ref) == spec_path_extension(path@));
        assert(gz == g_gz);
    }
    let etag = meta.etag(!gz);

    // Conditionals run before the range is parsed.
    let inm = match &req.if_none_match {
        Option::Some(v) => parse_etag_list(v.as_slice()),
        Option::None => Option::None,
    };
    let ims = match &req.if_modified_since {
        Option::Some(v) => parse_http_date(v.as_slice()),
        Option::None => Option::None,
    };
    let inm_ref = match &inm {
        Option::Some(l) => Option::Some(l),
        Option::None => Option::None,
    };
    proof {
        assert(spec_opt_etag_list_view(inm_ref) == spec_list_of(req@.if_none_match));
        assert(ims == spec_date_of(req@.if_modified_since));
    }
    if is_not_modified(inm_ref, ims, &etag, meta.last_modified()) {
        return not_modified(etag);
    }
    let im = match &req.if_match {
        Option::Some(v) => parse_etag_list(v.as_slice()),
        Option::None => Option::None,
    };
    let ius = match &req.if_unmodified_since {
        Option::Some(v) => parse_http_date(v.as_slice()),
        Option::None => Option::None,
    };
    let im_ref = match &im {
        Option::Some(l) => Option::Some(l),
        Option::None => Option::None,
    };
    proof {
        assert(spec_opt_etag_list_view(im_ref) == spec_list_of(req@.if_match));
        assert(ius == spec_date_of(req@.if_unmodified_since));
    }
    if is_precondition_failed(im_ref, ius, &etag, meta.last_modified()) {
        return precondition_failed();
    }

    // Range, bypassed entirely under compression.
    let range = if gz {
        RequestedRange::Absent
    } else {
        range_outcome(opt_bytes_ref(&req.range), meta.len())
    };
    proof {
        assert(range == g_rng);
    }
    if matches!(range, RequestedRange::NotSatisfiable) {
        let mut p = invalid_range(meta.len());
        if matches!(method, Method::Head) {
            p.body = BodyPlan::Empty;
        }
        return p;
    }

    // Common headers of every served representation.
    let gzip_level: Option<u8> = if gz {
        match &opts.gzip {
            Option::Some(g) => Option::Some(g.level),
            Option::None => Option::None,
        }
    } else {
        Option::None
    };
    let mut plan = ResponsePlan {
        status: 200,
        etag: Some(etag),
        last_modified: Some(format_http_date(meta.last_modified())),
        content_type: Some(meta.content_type.mime.clone()),
        content_length: if gz {
            Option::None
        } else {
            Option::Some(meta.len())
        },
        chunked: gz,
        accept_ranges: true,
        content_range: None,
        vary_accept_encoding: match &opts.gzip {
            Option::Some(_) => true,
            Option::None => false,
        },
        cache_max_age: match &opts.cache {
            Option::Some(c) => Option::Some(c.max_age),
            Option::None => Option::None,
        },
        allow_methods: false,
        cors,
        gzip_level,
        body: BodyPlan::Empty,
    };
    match range {
        RequestedRange::Satisfiable(br) => {
            plan.status = 206;
            plan.content_range = Some(
                ContentRangeHeader::Bytes { start: br.start, end: br.end, total: meta.len() },
            );
            proof {
                crate::range::lemma_range_bounds(req@.range, meta@.len);
            }
            if !matches!(method, Method::Head) {
                plan.body = BodyPlan::FileRange { start: br.start, end: br.end + 1 };
            }
        },
        _ => {
            if !matches!(method, Method::Head) {
                plan.body = BodyPlan::FileRange { start: 0, end: meta.len() };
            }
        },
    }
    plan
}

} // verus!
