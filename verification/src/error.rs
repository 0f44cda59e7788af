//! The errors that the server's operations report.

use vstd::prelude::*;

use crate::json;
use crate::json::Json;
use crate::json::JsonView;
use crate::text;

verus! {

/// Why a request or an operation failed.
#[derive(Debug)]
pub enum ApiError {
    /// The request itself is at fault.
    BadRequest(String),
    /// No valid API key was presented.
    Unauthorized(String),
    /// The key is valid, but its role does not permit the request.
    Forbidden(String),
    /// Something on the server's side failed.
    Internal(String),
    /// The page could not be rendered.
    Render(String),
    /// The render did not finish in time.
    Timeout,
}

/// An [`ApiError`] with its messages as character sequences.
pub enum ApiErrorView {
    BadRequest(Seq<char>),
    Unauthorized(Seq<char>),
    Forbidden(Seq<char>),
    Internal(Seq<char>),
    Render(Seq<char>),
    Timeout,
}

impl View for ApiError {
    type V = ApiErrorView;

    open spec fn view(&self) -> ApiErrorView {
        match self {
            ApiError::BadRequest(m) => ApiErrorView::BadRequest(m@),
            ApiError::Unauthorized(m) => ApiErrorView::Unauthorized(m@),
            ApiError::Forbidden(m) => ApiErrorView::Forbidden(m@),
            ApiError::Internal(m) => ApiErrorView::Internal(m@),
            ApiError::Render(m) => ApiErrorView::Render(m@),
            ApiError::Timeout => ApiErrorView::Timeout,
        }
    }
}

/// The view of a result whose value is a byte string.
pub open spec fn bytes_view(r: Result<Vec<u8>, ApiError>) -> Result<Seq<u8>, ApiErrorView> {
    match r {
        Ok(b) => Ok(b@),
        Err(e) => Err(e@),
    }
}

/// The status of the answer to a request that failed.
pub open spec fn status_of(e: ApiErrorView) -> u16 {
    match e {
        ApiErrorView::BadRequest(_) => 400,
        ApiErrorView::Unauthorized(_) => 401,
        ApiErrorView::Forbidden(_) => 403,
        ApiErrorView::Internal(_) => 500,
        ApiErrorView::Render(_) => 502,
        ApiErrorView::Timeout => 504,
    }
}

/// What is said of a failure.
pub open spec fn message_of(e: ApiErrorView) -> Seq<char> {
    match e {
        ApiErrorView::BadRequest(m) => m,
        ApiErrorView::Unauthorized(m) => m,
        ApiErrorView::Forbidden(m) => m,
        ApiErrorView::Internal(m) => m,
        ApiErrorView::Render(m) => m,
        ApiErrorView::Timeout => "render timed out"@,
    }
}

/// The answer to a request that failed.
pub open spec fn body_of(e: ApiErrorView) -> JsonView {
    JsonView::Object(seq![("error"@, JsonView::Text(message_of(e)))])
}

impl ApiError {
    /// The status of the answer to a request that failed.
    pub fn status(&self) -> (r: u16)
        ensures
            r == status_of(self@),
    {
        match self {
            ApiError::BadRequest(_) => 400,
            ApiError::Unauthorized(_) => 401,
            ApiError::Forbidden(_) => 403,
            ApiError::Internal(_) => 500,
            ApiError::Render(_) => 502,
            ApiError::Timeout => 504,
        }
    }

    /// What is said of the failure.
    pub fn message(&self) -> (r: String)
        ensures
            r@ == message_of(self@),
    {
        match self {
            ApiError::BadRequest(m) => m.clone(),
            ApiError::Unauthorized(m) => m.clone(),
            ApiError::Forbidden(m) => m.clone(),
            ApiError::Internal(m) => m.clone(),
            ApiError::Render(m) => m.clone(),
            ApiError::Timeout => text::owned("render timed out"),
        }
    }

    /// The answer to a request that failed: a JSON object that tells the error.
    pub fn body(&self) -> (r: Json)
        ensures
            r@ == body_of(self@),
            json::canonical(r@, json::MAX_DEPTH as nat),
    {
        let mut fields: Vec<(String, Json)> = Vec::new();
        fields.push((text::owned("error"), Json::Text(self.message())));
        proof {
            json::lemma_object_view(fields);
            assert(json::members_view(fields@) =~= body_of(self@)->Object_0);
            reveal_with_fuel(json::canonical, 2);
        }
        Json::Object(fields)
    }
}

} // verus!
