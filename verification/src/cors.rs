//! Cross-origin response policy: from an allow-list and the request's
//! `Origin` header, decide which allow-origin header to send, or to
//! short-circuit the request.

use vstd::prelude::*;
use crate::util::bytes_eq;

verus! {

/// The configured policy. `allowed_origins: None` means any origin is
/// allowed without credentials.
pub struct CorsPolicy {
    pub allowed_origins: Option<Vec<Vec<u8>>>,
}

/// Mathematical model of a `CorsPolicy`.
pub struct CorsPolicyView {
    pub allowed_origins: Option<Seq<Seq<u8>>>,
}

impl View for CorsPolicy {
    type V = CorsPolicyView;

    open spec fn view(&self) -> CorsPolicyView {
        CorsPolicyView {
            allowed_origins: if self.allowed_origins is Some {
                Option::Some(self.allowed_origins->0.deep_view())
            } else {
                Option::None
            },
        }
    }
}

/// What the response does about CORS.
pub enum CorsDecision {
    /// No CORS headers: CORS is off, the request has no `Origin`, or the
    /// origin is not allowed but no credentials were offered (the browser
    /// enforces the block).
    NoHeaders,
    /// Send `Access-Control-Allow-Origin: *`.
    AllowAny,
    /// Send the specific matched origin (required whenever credentials
    /// are in play: a credentialed response must never carry `*`).
    AllowOrigin(Vec<u8>),
    /// Disallowed origin on a credentialed request: short-circuit before
    /// any caching-header work.
    Forbid,
}

/// Mathematical model of a `CorsDecision`.
pub enum CorsDecisionView {
    NoHeaders,
    AllowAny,
    AllowOrigin(Seq<u8>),
    Forbid,
}

impl View for CorsDecision {
    type V = CorsDecisionView;

    open spec fn view(&self) -> CorsDecisionView {
        match self {
            CorsDecision::NoHeaders => CorsDecisionView::NoHeaders,
            CorsDecision::AllowAny => CorsDecisionView::AllowAny,
            CorsDecision::AllowOrigin(o) => CorsDecisionView::AllowOrigin(o@),
            CorsDecision::Forbid => CorsDecisionView::Forbid,
        }
    }
}

/// Whether the allow-list holds this exact origin.
pub open spec fn spec_origin_allowed(list: Seq<Seq<u8>>, origin: Seq<u8>) -> bool {
    exists|i: int| 0 <= i < list.len() && list[i] == origin
}

/// The decision, as a function of policy, request origin, and whether
/// the request offers credentials.
pub open spec fn spec_cors_decision(
    policy: Option<CorsPolicyView>,
    origin: Option<Seq<u8>>,
    credentials: bool,
) -> CorsDecisionView {
    match policy {
        Option::None => CorsDecisionView::NoHeaders,
        Option::Some(p) => match origin {
            Option::None => CorsDecisionView::NoHeaders,
            Option::Some(o) => match p.allowed_origins {
                Option::None => if credentials {
                    CorsDecisionView::AllowOrigin(o)
                } else {
                    CorsDecisionView::AllowAny
                },
                Option::Some(list) => if spec_origin_allowed(list, o) {
                    CorsDecisionView::AllowOrigin(o)
                } else if credentials {
                    CorsDecisionView::Forbid
                } else {
                    CorsDecisionView::NoHeaders
                },
            },
        },
    }
}

fn origin_allowed(list: &Vec<Vec<u8>>, origin: &Vec<u8>) -> (r: bool)
    ensures
        r == spec_origin_allowed(list.deep_view(), origin@),
{
    for i in 0..list.len()
        invariant
            forall|j: int| 0 <= j < i ==> list.deep_view()[j] != origin@,
    {
        if bytes_eq(list[i].as_slice(), origin.as_slice()) {
            proof {
                assert(list.deep_view()[i as int] =~= origin@);
            }
            return true;
        }
        proof {
            assert(list.deep_view()[i as int] =~= list@[i as int]@);
        }
    }
    false
}

/// The model of an optional borrowed policy.
pub open spec fn spec_opt_policy_view(p: Option<&CorsPolicy>) -> Option<CorsPolicyView> {
    match p {
        Option::Some(p) => Option::Some(p@),
        Option::None => Option::None,
    }
}

/// The model of an optional borrowed byte string.
pub open spec fn spec_opt_bytes_view(b: Option<&Vec<u8>>) -> Option<Seq<u8>> {
    match b {
        Option::Some(b) => Option::Some(b@),
        Option::None => Option::None,
    }
}

/// Decide the CORS outcome for one request.
pub fn evaluate_cors(policy: Option<&CorsPolicy>, origin: Option<&Vec<u8>>, credentials: bool) -> (r:
    CorsDecision)
    ensures
        r@ == spec_cors_decision(spec_opt_policy_view(policy), spec_opt_bytes_view(origin), credentials),
{
    let p = match policy {
        Option::None => {
            return CorsDecision::NoHeaders;
        },
        Option::Some(p) => p,
    };
    let o = match origin {
        Option::None => {
            return CorsDecision::NoHeaders;
        },
        Option::Some(o) => o,
    };
    match &p.allowed_origins {
        Option::None => {
            if credentials {
                CorsDecision::AllowOrigin(o.clone())
            } else {
                CorsDecision::AllowAny
            }
        },
        Option::Some(list) => {
            if origin_allowed(list, o) {
                CorsDecision::AllowOrigin(o.clone())
            } else if credentials {
                CorsDecision::Forbid
            } else {
                CorsDecision::NoHeaders
            }
        },
    }
}

} // verus!
