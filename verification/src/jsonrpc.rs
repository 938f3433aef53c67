use vstd::prelude::*;

use crate::json::{field_of, find_key, JsonValue};
use crate::text::owned;
use crate::AppError;

verus! {

/// A point in time, UTC: whole seconds since the Unix epoch and the nanoseconds past them.
#[derive(Debug, Clone, Copy, PartialEq, Eq)]
pub struct UtcTimestamp {
    pub secs: i64,
    pub nanos: u32,
}

/// A request as it reaches the gateway over HTTP: when it was made, and the method with its
/// parameters.
#[derive(Debug, PartialEq)]
pub struct JsonRpcGateHttpRequest {
    pub ts: UtcTimestamp,
    pub method: JsonValue,
}

/// The errors a service answers a request with.
#[derive(Debug, Clone, Copy, PartialEq, Eq)]
pub enum ServiceHttpError {
    NotFound,
    Forbidden,
    BadRequest,
    UnprocessableEntity,
}

/// The name of an error, which is also how it reads and how it is written in headers.
pub open spec fn service_error_name(e: ServiceHttpError) -> Seq<char> {
    match e {
        ServiceHttpError::NotFound => seq!['N', 'o', 't', 'F', 'o', 'u', 'n', 'd'],
        ServiceHttpError::Forbidden => seq!['F', 'o', 'r', 'b', 'i', 'd', 'd', 'e', 'n'],
        ServiceHttpError::BadRequest => seq!['B', 'a', 'd', 'R', 'e', 'q', 'u', 'e', 's', 't'],
        ServiceHttpError::UnprocessableEntity => seq![
            'U',
            'n',
            'p',
            'r',
            'o',
            'c',
            'e',
            's',
            's',
            'a',
            'b',
            'l',
            'e',
            'E',
            'n',
            't',
            'i',
            't',
            'y',
        ],
    }
}

/// The HTTP status of an error.
pub open spec fn service_error_status(e: ServiceHttpError) -> u16 {
    match e {
        ServiceHttpError::NotFound => 404,
        ServiceHttpError::Forbidden => 403,
        ServiceHttpError::BadRequest => 400,
        ServiceHttpError::UnprocessableEntity => 422,
    }
}

/// The error that an HTTP status of a service's answer stands for, if any.
pub open spec fn service_error_of_status(status: u16) -> Option<ServiceHttpError> {
    if status == 403 {
        Some(ServiceHttpError::Forbidden)
    } else if status == 404 {
        Some(ServiceHttpError::NotFound)
    } else if status == 400 {
        Some(ServiceHttpError::BadRequest)
    } else if status == 422 {
        Some(ServiceHttpError::UnprocessableEntity)
    } else {
        None
    }
}

impl ServiceHttpError {
    /// The name of the error, as it is displayed.
    pub fn name(&self) -> (r: &'static str)
        ensures
            r@ == service_error_name(*self),
    {
        proof {
            reveal_strlit("NotFound");
            reveal_strlit("Forbidden");
            reveal_strlit("BadRequest");
            reveal_strlit("UnprocessableEntity");
        }
        match self {
            ServiceHttpError::NotFound => "NotFound",
            ServiceHttpError::Forbidden => "Forbidden",
            ServiceHttpError::BadRequest => "BadRequest",
            ServiceHttpError::UnprocessableEntity => "UnprocessableEntity",
        }
    }

    /// The error that a name reads as, if it is the name of one.
    pub fn from_name(s: &str) -> (r: Option<ServiceHttpError>)
        ensures
            match r {
                Some(e) => service_error_name(e) == s@,
                None => forall|e: ServiceHttpError| service_error_name(e) != s@,
            },
    {
        let all = [
            ServiceHttpError::NotFound,
            ServiceHttpError::Forbidden,
            ServiceHttpError::BadRequest,
            ServiceHttpError::UnprocessableEntity,
        ];
        let cs = crate::text::chars_of(s);
        let mut i: usize = 0;
        while i < 4
            invariant
                i <= 4,
                cs@ == s@,
                all@ == seq![
                    ServiceHttpError::NotFound,
                    ServiceHttpError::Forbidden,
                    ServiceHttpError::BadRequest,
                    ServiceHttpError::UnprocessableEntity,
                ],
                forall|k: int| 0 <= k < i ==> service_error_name(#[trigger] all@[k]) != s@,
            decreases 4 - i,
        {
            let e = match i {
                0 => ServiceHttpError::NotFound,
                1 => ServiceHttpError::Forbidden,
                2 => ServiceHttpError::BadRequest,
                _ => ServiceHttpError::UnprocessableEntity,
            };
            assert(e == all@[i as int]);
            let n = crate::text::chars_of(e.name());
            if crate::text::chars_equal(&n, &cs) {
                return Some(e);
            }
            i = i + 1;
        }
        assert forall|e: ServiceHttpError| service_error_name(e) != s@ by {
            match e {
                ServiceHttpError::NotFound => assert(all@[0] == e),
                ServiceHttpError::Forbidden => assert(all@[1] == e),
                ServiceHttpError::BadRequest => assert(all@[2] == e),
                ServiceHttpError::UnprocessableEntity => assert(all@[3] == e),
            }
        }
        None
    }

    /// The HTTP status the error is answered with.
    pub fn status(&self) -> (r: u16)
        ensures
            r == service_error_status(*self),
    {
        match self {
            ServiceHttpError::NotFound => 404,
            ServiceHttpError::Forbidden => 403,
            ServiceHttpError::BadRequest => 400,
            ServiceHttpError::UnprocessableEntity => 422,
        }
    }

    /// The error that an internal service's HTTP status stands for: 403, 404, 400 and 422
    /// are errors, every other status is not.
    pub fn from_status(status: u16) -> (r: Option<ServiceHttpError>)
        ensures
            r == service_error_of_status(status),
    {
        if status == 403 {
            Some(ServiceHttpError::Forbidden)
        } else if status == 404 {
            Some(ServiceHttpError::NotFound)
        } else if status == 400 {
            Some(ServiceHttpError::BadRequest)
        } else if status == 422 {
            Some(ServiceHttpError::UnprocessableEntity)
        } else {
            None
        }
    }
}

/// Every error reads back from its name.
pub proof fn lemma_service_error_name_round_trip(e: ServiceHttpError, f: ServiceHttpError)
    ensures
        service_error_name(e) == service_error_name(f) ==> e == f,
{
    let a = service_error_name(e);
    let b = service_error_name(f);
    if a == b && e != f {
        assert(a.len() == b.len());
        match (e, f) {
            (ServiceHttpError::NotFound, _) => assert(a[0] != b[0] || a.len() != b.len()),
            (ServiceHttpError::Forbidden, _) => assert(a[0] != b[0] || a.len() != b.len()),
            (ServiceHttpError::BadRequest, _) => assert(a[0] != b[0] || a.len() != b.len()),
            (ServiceHttpError::UnprocessableEntity, _) => assert(a[0] != b[0] || a.len() != b.len()),
        }
    }
}

/// Every error reads back from its HTTP status.
pub proof fn lemma_service_error_status_round_trip(e: ServiceHttpError)
    ensures
        service_error_of_status(service_error_status(e)) == Some(e),
{
}

/// Each error is answered with the HTTP status that means it: a missing thing with 404 (Not
/// Found), a refused one with 403 (Forbidden), a malformed request with 400 (Bad Request),
/// a request that cannot be carried out with 422 (Unprocessable Entity). An internal
/// service's answer with one of these four statuses reads as the error that status means,
/// and any other status as no error; a failed request that is not a service's error is
/// answered with 500.
pub proof fn lemma_service_error_http_statuses(e: ServiceHttpError, status: u16, other: AppError)
    ensures
        service_error_status(e) == 404 <==> e is NotFound,
        service_error_status(e) == 403 <==> e is Forbidden,
        service_error_status(e) == 400 <==> e is BadRequest,
        service_error_status(e) == 422 <==> e is UnprocessableEntity,
        service_error_of_status(status) is Some <==> (status == 400 || status == 403 || status == 404
            || status == 422),
        service_error_of_status(status) matches Some(f) ==> service_error_status(f) == status,
        app_error_status(AppError::Service(e)) == service_error_status(e),
        !(other is Service) ==> app_error_status(other) == 500,
{
}

/// A successful answer to a request.
#[derive(Debug)]
pub struct JsonRpcResponse<REQ, RESP> {
    request: REQ,
    response: RESP,
}

impl<REQ, RESP> JsonRpcResponse<REQ, RESP> {
    pub closed spec fn request_of(&self) -> REQ {
        self.request
    }

    pub closed spec fn response_of(&self) -> RESP {
        self.response
    }

    /// The answer `response` to `request`.
    pub fn new(request: REQ, response: RESP) -> (r: Self)
        ensures
            r.request_of() == request,
            r.response_of() == response,
    {
        Self { request, response }
    }

    /// The HTTP answer: status 200 with the response as its JSON body.
    pub fn into_response(self) -> (r: (u16, RESP))
        ensures
            r.0 == 200,
            r.1 == self.response_of(),
    {
        (200, self.response)
    }
}

/// A failed answer to a request.
#[derive(Debug)]
pub struct JsonRpcErrorResponse<REQ> {
    request: REQ,
    err: AppError,
}

/// The HTTP status that an error is answered with: a service error's own status, 500 for
/// every other error.
pub open spec fn app_error_status(err: AppError) -> u16 {
    match err {
        AppError::Service(e) => service_error_status(e),
        _ => 500,
    }
}

impl<REQ> JsonRpcErrorResponse<REQ> {
    pub closed spec fn request_of(&self) -> REQ {
        self.request
    }

    pub closed spec fn error_of(&self) -> AppError {
        self.err
    }

    /// The answer to `request` that failed with `err`.
    pub fn new(request: REQ, err: AppError) -> (r: Self)
        ensures
            r.request_of() == request,
            r.error_of() == err,
    {
        Self { request, err }
    }

    /// The HTTP answer: the error's status, and the text `{}` as body (sent as a JSON
    /// string).
    pub fn into_response(self) -> (r: (u16, String))
        ensures
            r.0 == app_error_status(self.error_of()),
            r.1@ == seq!['{', '}'],
    {
        let status = match &self.err {
            AppError::Service(e) => e.status(),
            _ => 500,
        };
        proof {
            reveal_strlit("{}");
        }
        (status, owned("{}"))
    }
}

/// The body of an internal request: an object with the method's name under `Method` and
/// the request's `Params` (null where it has none) under `Params`.
pub open spec fn internal_request_body_spec(method: Seq<char>, req_value: JsonValue, r: JsonValue) -> bool {
    match r {
        JsonValue::Object(es) => {
            &&& es@.len() == 2
            &&& es@[0].0@ == seq!['M', 'e', 't', 'h', 'o', 'd']
            &&& es@[0].1 matches JsonValue::String(m) && m@ == method
            &&& es@[1].0@ == seq!['P', 'a', 'r', 'a', 'm', 's']
            &&& match field_of(req_value, seq!['P', 'a', 'r', 'a', 'm', 's']) {
                Some(p) => es@[1].1 == p,
                None => es@[1].1 is Null,
            }
        },
        _ => false,
    }
}

/// The JSON body sent to an internal service for a request named `method` whose JSON form
/// is `req_value`.
pub fn internal_request_body(method: &str, req_value: JsonValue) -> (r: JsonValue)
    ensures
        internal_request_body_spec(method@, req_value, r),
{
    let params_key = vec!['P', 'a', 'r', 'a', 'm', 's'];
    assert(params_key@ =~= seq!['P', 'a', 'r', 'a', 'm', 's']);
    let params = match req_value {
        JsonValue::Object(mut es) => match find_key(&es, &params_key) {
            Some(j) => {
                let (_k, v) = es.remove(j);
                v
            },
            None => JsonValue::Null,
        },
        _ => JsonValue::Null,
    };
    proof {
        reveal_strlit("Method");
        reveal_strlit("Params");
        assert("Method"@ =~= seq!['M', 'e', 't', 'h', 'o', 'd']);
        assert("Params"@ =~= seq!['P', 'a', 'r', 'a', 'm', 's']);
    }
    let mut es: Vec<(String, JsonValue)> = Vec::new();
    es.push((owned("Method"), JsonValue::String(owned(method))));
    es.push((owned("Params"), params));
    JsonValue::Object(es)
}

/// The parameters sent to an internal service are the request's own: where the request is
/// an object, its first entry keyed `Params`, wherever that entry stands, gives the body's
/// `Params`; where it has no such entry, or is no object, the body's `Params` is null. The
/// body's `Method` is the method's name.
pub proof fn lemma_internal_request_params(method: Seq<char>, req_value: JsonValue, r: JsonValue)
    requires
        internal_request_body_spec(method, req_value, r),
    ensures
        r matches JsonValue::Object(es) && es@.len() == 2 && (es@[0].1 matches JsonValue::String(m) && m@ == method),
        req_value matches JsonValue::Object(rs) ==> forall|k: int|
            0 <= k < rs@.len() && (#[trigger] rs@[k]).0@ == seq!['P', 'a', 'r', 'a', 'm', 's'] && (forall|j: int|
                0 <= j < k ==> rs@[j].0@ != seq!['P', 'a', 'r', 'a', 'm', 's']) ==> r->Object_0@[1].1 == rs@[k].1,
        (req_value matches JsonValue::Object(rs) ==> forall|k: int|
            0 <= k < rs@.len() ==> (#[trigger] rs@[k]).0@ != seq!['P', 'a', 'r', 'a', 'm', 's'])
            ==> r->Object_0@[1].1 is Null,
{
    let key = seq!['P', 'a', 'r', 'a', 'm', 's'];
    match req_value {
        JsonValue::Object(rs) => {
            crate::json::lemma_key_index_range(rs@, key);
            assert forall|k: int|
                0 <= k < rs@.len() && (#[trigger] rs@[k]).0@ == key && (forall|j: int| 0 <= j < k ==> rs@[j].0@ != key)
                implies r->Object_0@[1].1 == rs@[k].1 by {
                crate::json::lemma_key_index_first(rs@, key, k);
            }
        },
        _ => {},
    }
}

} // verus!
