//! The broker's HTTP error statuses.
use vstd::prelude::*;
use vstd::string::*;


verus! {

broadcast use to_string_from_display_ensures_for_str;

/// An error status of the broker's API.
pub enum ApiError {
    InvalidRequest,
    AuthorizationError,
    Forbidden,
    NotFound,
    TooManyRequests,
    /// A server error, with the support identifier the broker returned.
    ServerError(String),
}

/// The mathematical content of an API error.
pub enum ApiErrorView {
    InvalidRequest,
    AuthorizationError,
    Forbidden,
    NotFound,
    TooManyRequests,
    ServerError(Seq<char>),
}

impl View for ApiError {
    type V = ApiErrorView;

    open spec fn view(&self) -> ApiErrorView {
        match self {
            ApiError::InvalidRequest => ApiErrorView::InvalidRequest,
            ApiError::AuthorizationError => ApiErrorView::AuthorizationError,
            ApiError::Forbidden => ApiErrorView::Forbidden,
            ApiError::NotFound => ApiErrorView::NotFound,
            ApiError::TooManyRequests => ApiErrorView::TooManyRequests,
            ApiError::ServerError(s) => ApiErrorView::ServerError(s@),
        }
    }
}

/// The HTTP status of an error.
pub open spec fn status_of(e: ApiErrorView) -> u16 {
    match e {
        ApiErrorView::InvalidRequest => 400,
        ApiErrorView::AuthorizationError => 401,
        ApiErrorView::Forbidden => 403,
        ApiErrorView::NotFound => 404,
        ApiErrorView::TooManyRequests => 429,
        ApiErrorView::ServerError(_) => 500,
    }
}

/// The identifier a server error carries when the response gave none.
pub open spec fn unknown_identifier() -> Seq<char> {
    "Unknown Error"@
}

/// The error an HTTP status stands for, with the response's message as the
/// identifier of a server error; `None` for any other status.
pub open spec fn error_of_status(code: u16, message: Option<Seq<char>>) -> Option<ApiErrorView> {
    if code == 400 {
        Some(ApiErrorView::InvalidRequest)
    } else if code == 401 {
        Some(ApiErrorView::AuthorizationError)
    } else if code == 403 {
        Some(ApiErrorView::Forbidden)
    } else if code == 404 {
        Some(ApiErrorView::NotFound)
    } else if code == 429 {
        Some(ApiErrorView::TooManyRequests)
    } else if code == 500 {
        Some(
            ApiErrorView::ServerError(
                match message {
                    Some(m) => m,
                    None => unknown_identifier(),
                },
            ),
        )
    } else {
        None
    }
}

/// The first part of a server error's description, before the identifier.
pub open spec fn server_error_prefix() -> Seq<char> {
    "Indicates an issue with tastytrade's servers. Returns a support identifier ("@
}

/// The part of a server error's description after the identifier.
pub open spec fn server_error_suffix() -> Seq<char> {
    ") that our team can use to track down the issue."@
}

/// The broker's description of an error.
pub open spec fn description_of(e: ApiErrorView) -> Seq<char> {
    match e {
        ApiErrorView::InvalidRequest => "Invalid request. Often indicates that your request body has missing or invalid parameters."@,
        ApiErrorView::AuthorizationError => "Authorization token has expired or is invalid. Also indicates an invalid username/password when logging in."@,
        ApiErrorView::Forbidden => "User is not authorized to access this resource. This may occur when a customer tries to access data for an account belonging to a different customer, for example."@,
        ApiErrorView::NotFound => "Endpoint or resource not found. This may occur when attempting to fetch data that does not exist (a specific order, for example)."@,
        ApiErrorView::TooManyRequests => "Too Many Requests. This occurs when you send a high amount of requests in a short period of time to the point where it exceeds reasonable thresholds."@,
        ApiErrorView::ServerError(id) => server_error_prefix() + id + server_error_suffix(),
    }
}

impl ApiError {
    /// The HTTP status of the error.
    pub fn to_code(&self) -> (c: u16)
        ensures
            c == status_of(self@),
    {
        match self {
            ApiError::InvalidRequest => 400,
            ApiError::AuthorizationError => 401,
            ApiError::Forbidden => 403,
            ApiError::NotFound => 404,
            ApiError::TooManyRequests => 429,
            ApiError::ServerError(_) => 500,
        }
    }

    /// The error an HTTP status stands for; a server error carries the
    /// response's message, or "Unknown Error" where there is none.
    pub fn from_code(code: u16, message: Option<String>) -> (r: Option<ApiError>)
        ensures
            r matches Some(e) ==> error_of_status(
                code,
                match message {
                    Some(m) => Some(m@),
                    None => None,
                },
            ) == Some(e@),
            r is None <==> error_of_status(code, None) is None,
    {
        match code {
            400 => Some(ApiError::InvalidRequest),
            401 => Some(ApiError::AuthorizationError),
            403 => Some(ApiError::Forbidden),
            404 => Some(ApiError::NotFound),
            429 => Some(ApiError::TooManyRequests),
            500 => Some(
                ApiError::ServerError(
                    match message {
                        Some(m) => m,
                        None => "Unknown Error".to_string(),
                    },
                ),
            ),
            _ => None,
        }
    }

    /// The broker's description of the error.
    pub fn description(&self) -> (d: String)
        ensures
            d@ == description_of(self@),
    {
        match self {
            ApiError::InvalidRequest => "Invalid request. Often indicates that your request body has missing or invalid parameters.".to_string(),
            ApiError::AuthorizationError => "Authorization token has expired or is invalid. Also indicates an invalid username/password when logging in.".to_string(),
            ApiError::Forbidden => "User is not authorized to access this resource. This may occur when a customer tries to access data for an account belonging to a different customer, for example.".to_string(),
            ApiError::NotFound => "Endpoint or resource not found. This may occur when attempting to fetch data that does not exist (a specific order, for example).".to_string(),
            ApiError::TooManyRequests => "Too Many Requests. This occurs when you send a high amount of requests in a short period of time to the point where it exceeds reasonable thresholds.".to_string(),
            ApiError::ServerError(identifier) => {
                let mut d = "Indicates an issue with tastytrade's servers. Returns a support identifier (".to_string();
                d.append(identifier.as_str());
                d.append(") that our team can use to track down the issue.");
                d
            },
        }
    }
}

/// Reading an error back from its status gives the error again (a server
/// error with its identifier as the message).
pub proof fn lemma_status_round_trip(e: ApiErrorView)
    ensures
        error_of_status(
            status_of(e),
            match e {
                ApiErrorView::ServerError(id) => Some(id),
                _ => None,
            },
        ) == Some(e),
{
}

/// Every status that stands for an error is that error's status.
pub proof fn lemma_status_of_error(code: u16, message: Option<Seq<char>>)
    requires
        error_of_status(code, message) is Some,
    ensures
        status_of(error_of_status(code, message)->0) == code,
{
}


/// Errors with different HTTP statuses have different descriptions.
pub proof fn lemma_distinct_status_distinct_description(a: ApiErrorView, b: ApiErrorView)
    requires
        status_of(a) != status_of(b),
    ensures
        description_of(a) != description_of(b),
{
    reveal_strlit("Invalid request. Often indicates that your request body has missing or invalid parameters.");
    reveal_strlit("Authorization token has expired or is invalid. Also indicates an invalid username/password when logging in.");
    reveal_strlit("User is not authorized to access this resource. This may occur when a customer tries to access data for an account belonging to a different customer, for example.");
    reveal_strlit("Endpoint or resource not found. This may occur when attempting to fetch data that does not exist (a specific order, for example).");
    reveal_strlit("Too Many Requests. This occurs when you send a high amount of requests in a short period of time to the point where it exceeds reasonable thresholds.");
    reveal_strlit("Indicates an issue with tastytrade's servers. Returns a support identifier (");
    let da = description_of(a);
    let db = description_of(b);
    assert(da[0] != db[0] || da[2] != db[2]);
}

/// Every description is a non-empty text.
pub proof fn lemma_description_nonempty(e: ApiErrorView)
    ensures
        description_of(e).len() > 0,
{
    reveal_strlit("Invalid request. Often indicates that your request body has missing or invalid parameters.");
    reveal_strlit("Authorization token has expired or is invalid. Also indicates an invalid username/password when logging in.");
    reveal_strlit("User is not authorized to access this resource. This may occur when a customer tries to access data for an account belonging to a different customer, for example.");
    reveal_strlit("Endpoint or resource not found. This may occur when attempting to fetch data that does not exist (a specific order, for example).");
    reveal_strlit("Too Many Requests. This occurs when you send a high amount of requests in a short period of time to the point where it exceeds reasonable thresholds.");
    reveal_strlit("Indicates an issue with tastytrade's servers. Returns a support identifier (");
}

/// A server error's description holds its support identifier in
/// parentheses, right where the fixed opening text ends.
pub proof fn lemma_server_error_names_identifier(id: Seq<char>)
    ensures
        description_of(ApiErrorView::ServerError(id)).subrange(
            server_error_prefix().len() - 1,
            (server_error_prefix().len() + id.len() + 1) as int,
        ) == seq!['('] + id + seq![')'],
{
    reveal_strlit("Indicates an issue with tastytrade's servers. Returns a support identifier (");
    reveal_strlit(") that our team can use to track down the issue.");
    let d = description_of(ApiErrorView::ServerError(id));
    let k = server_error_prefix().len() - 1;
    assert(d.subrange(k, k + id.len() + 2) =~= seq!['('] + id + seq![')']);
}

} // verus!
