//! The provider's interface as data: the requests that the engine asks its
//! driver to make, and the failures that the driver reports back.

use crate::hetzner_dns::{UpdateRecordData, UpdateRecordDataView};
use vstd::prelude::*;
use vstd::utf8::encode_utf8;

verus! {

/// A request to the provider that did not succeed.
#[derive(Debug, PartialEq, Eq)]
pub enum ApiError {
    /// The provider answered with a status outside the 2xx range.
    Status { code: u16 },
    /// No usable answer arrived: the request could not be sent, or the answer
    /// could not be read.
    Transport { message: String },
}

/// View of an [`ApiError`].
pub ghost enum ApiErrorView {
    Status { code: u16 },
    Transport { message: Seq<char> },
}

impl View for ApiError {
    type V = ApiErrorView;

    open spec fn view(&self) -> ApiErrorView {
        match self {
            ApiError::Status { code } => ApiErrorView::Status { code: *code },
            ApiError::Transport { message } => ApiErrorView::Transport { message: message@ },
        }
    }
}

impl DeepView for ApiError {
    type V = ApiErrorView;

    open spec fn deep_view(&self) -> ApiErrorView {
        self@
    }
}

impl Clone for ApiError {
    fn clone(&self) -> (copy: ApiError)
        ensures
            copy == *self,
    {
        match self {
            ApiError::Status { code } => ApiError::Status { code: *code },
            ApiError::Transport { message } => ApiError::Transport { message: message.clone() },
        }
    }
}

/// View of the provider's answer to a request: what it sent, or why none of
/// it arrived.
pub open spec fn reply_view<T: View>(reply: Result<T, ApiError>) -> Result<T::V, ApiErrorView> {
    match reply {
        Ok(content) => Ok(content@),
        Err(e) => Err(e@),
    }
}

/// The provider reports success with a status in the 2xx range.
pub open spec fn status_accepted(code: u16) -> bool {
    200 <= code <= 299
}

/// Judges the status of an answer: any status outside the 2xx range is a
/// failure that carries the status.
pub fn check_status(code: u16) -> (r: Result<(), ApiError>)
    ensures
        r is Ok <==> status_accepted(code),
        r matches Err(e) ==> e@ == (ApiErrorView::Status { code }),
{
    if 200 <= code && code <= 299 {
        Ok(())
    } else {
        Err(ApiError::Status { code })
    }
}

/// A request to the provider.
#[derive(Debug, PartialEq, Eq)]
pub enum ApiRequest {
    /// List the zones of the account, one page of them: only those named
    /// `name` where a name is given, and the first page where no page is.
    ListZones { name: Option<String>, page: Option<usize> },
    /// List the records of the zone `zone_id`.
    ListRecords { zone_id: String },
    /// Replace the mutable fields of the record `record_id` by `data`.
    UpdateRecord { record_id: String, data: UpdateRecordData },
}

/// View of an [`ApiRequest`].
pub ghost enum ApiRequestView {
    ListZones { name: Option<Seq<char>>, page: Option<usize> },
    ListRecords { zone_id: Seq<char> },
    UpdateRecord { record_id: Seq<char>, data: UpdateRecordDataView },
}

impl View for ApiRequest {
    type V = ApiRequestView;

    open spec fn view(&self) -> ApiRequestView {
        match self {
            ApiRequest::ListZones { name, page } => ApiRequestView::ListZones {
                name: name.deep_view(),
                page: *page,
            },
            ApiRequest::ListRecords { zone_id } => ApiRequestView::ListRecords {
                zone_id: zone_id@,
            },
            ApiRequest::UpdateRecord { record_id, data } => ApiRequestView::UpdateRecord {
                record_id: record_id@,
                data: data@,
            },
        }
    }
}

impl Clone for ApiRequest {
    fn clone(&self) -> (copy: ApiRequest)
        ensures
            copy@ == self@,
    {
        match self {
            ApiRequest::ListZones { name, page } => {
                let name = match name {
                    Some(text) => Some(text.clone()),
                    None => None,
                };
                ApiRequest::ListZones { name, page: *page }
            },
            ApiRequest::ListRecords { zone_id } => ApiRequest::ListRecords {
                zone_id: zone_id.clone(),
            },
            ApiRequest::UpdateRecord { record_id, data } => ApiRequest::UpdateRecord {
                record_id: record_id.clone(),
                data: data.clone(),
            },
        }
    }
}

impl DeepView for ApiRequest {
    type V = ApiRequestView;

    open spec fn deep_view(&self) -> ApiRequestView {
        self@
    }
}

/// Every byte is one that the value of an HTTP header may hold: a tab, or
/// a byte from 32 on other than 127.
pub open spec fn header_value_bytes(bytes: Seq<u8>) -> bool {
    forall|i: int| 0 <= i < bytes.len() ==> header_value_byte(#[trigger] bytes[i])
}

/// The text, as the bytes that encode it, is fit to be the value of an HTTP
/// header.
pub open spec fn header_value_text(text: Seq<char>) -> bool {
    header_value_bytes(encode_utf8(text))
}

/// The byte is a tab, or a byte from 32 on other than 127.
pub open spec fn header_value_byte(byte: u8) -> bool {
    byte == 9 || (byte >= 32 && byte != 127)
}

/// Asks `reqwest::header::HeaderValue::from_str`, which is that of the
/// `http` crate, whether it takes `text` as the value of a header. It goes
/// through the bytes of the text, and refuses the text if one of them is
/// neither a tab nor from 32 on and other than 127; every other text it
/// takes. This is believed, not proved.
#[verifier::external_body]
fn header_value_takes(text: &str) -> (taken: bool)
    ensures
        taken == header_value_text(text@),
{
    reqwest::header::HeaderValue::from_str(text).is_ok()
}

/// The token that authenticates the requests to the provider. It travels as
/// the value of a header, and is fit to be one.
#[derive(Debug, PartialEq, Eq)]
pub struct ApiToken {
    text: String,
}

impl View for ApiToken {
    type V = Seq<char>;

    closed spec fn view(&self) -> Seq<char> {
        self.text@
    }
}

impl ApiToken {
    #[verifier::type_invariant]
    spec fn well_formed(self) -> bool {
        header_value_text(self.text@)
    }

    /// Takes `text` as a token if it is fit to be the value of a header.
    pub fn new(text: String) -> (token: Option<ApiToken>)
        ensures
            token is Some <==> header_value_text(text@),
            token matches Some(t) ==> t@ == text@,
    {
        if header_value_takes(text.as_str()) {
            Some(ApiToken { text })
        } else {
            None
        }
    }

    /// The token as text.
    pub fn as_str(&self) -> (text: &str)
        ensures
            text@ == self@,
            header_value_text(text@),
    {
        proof {
            use_type_invariant(self);
        }
        self.text.as_str()
    }
}

} // verus!
