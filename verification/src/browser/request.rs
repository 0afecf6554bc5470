//! Requests to the resource loader.
use crate::browser::url::{Url, UrlModel};
use crate::text;
use vstd::prelude::*;

verus! {

/// A prepared request.
#[derive(Debug)]
pub struct ResourceRequest {
    pub url: Url,
    /// Content type and bytes of a POST.
    pub body: Option<(String, Vec<u8>)>,
    /// The `Cookie` header, if any cookie rides.
    pub cookie: Option<String>,
}

pub type BodyModel = Option<(Seq<char>, Seq<u8>)>;

#[verifier::ext_equal]
pub struct RequestModel {
    pub url: UrlModel,
    pub body: BodyModel,
    pub cookie: Option<Seq<char>>,
}

pub open spec fn body_model(body: Option<(String, Vec<u8>)>) -> BodyModel {
    match body {
        Some((content_type, bytes)) => Some((content_type@, bytes@)),
        None => None,
    }
}

impl View for ResourceRequest {
    type V = RequestModel;

    open spec fn view(&self) -> RequestModel {
        RequestModel {
            url: self.url@,
            body: body_model(self.body),
            cookie: text::opt_text(self.cookie),
        }
    }
}

/// What a load brought back.
#[derive(Debug)]
pub struct ResourceResponse {
    /// The URL after redirects.
    pub final_url: Url,
    /// The body as text.
    pub text: String,
    /// The `Set-Cookie` headers, in order.
    pub set_cookies: Vec<String>,
    pub access_control_allow_origin: Option<String>,
}

pub struct ResponseModel {
    pub final_url: UrlModel,
    pub text: Seq<char>,
    pub set_cookies: Seq<Seq<char>>,
    pub access_control_allow_origin: Option<Seq<char>>,
}

impl View for ResourceResponse {
    type V = ResponseModel;

    open spec fn view(&self) -> ResponseModel {
        ResponseModel {
            final_url: self.final_url@,
            text: self.text@,
            set_cookies: text::texts(self.set_cookies@),
            access_control_allow_origin: text::opt_text(self.access_control_allow_origin),
        }
    }
}

} // verus!
