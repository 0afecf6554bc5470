//! The parts of a URL that the session reads.
use crate::text;
use vstd::prelude::*;

verus! {

/// A parsed URL, as the parts that decisions are made on.
#[derive(Debug, PartialEq, Eq)]
pub struct Url {
    /// The whole URL.
    pub text: String,
    pub scheme: String,
    pub host: Option<String>,
    /// The port, or the scheme's own where none is written.
    pub port: Option<u16>,
    pub path: String,
    /// The serialized origin, its host in ASCII; `null` where it is opaque.
    pub origin: String,
    /// The serialized origin, its host in Unicode.
    pub unicode_origin: String,
}

pub struct UrlModel {
    pub text: Seq<char>,
    pub scheme: Seq<char>,
    pub host: Option<Seq<char>>,
    pub port: Option<u16>,
    pub path: Seq<char>,
    pub origin: Seq<char>,
    pub unicode_origin: Seq<char>,
}

impl View for Url {
    type V = UrlModel;

    open spec fn view(&self) -> UrlModel {
        UrlModel {
            text: self.text@,
            scheme: self.scheme@,
            host: text::opt_text(self.host),
            port: self.port,
            path: self.path@,
            origin: self.origin@,
            unicode_origin: self.unicode_origin@,
        }
    }
}

impl Clone for Url {
    fn clone(&self) -> (r: Url)
        ensures
            r@ == self@,
    {
        Url {
            text: self.text.clone(),
            scheme: self.scheme.clone(),
            host: match &self.host {
                Some(host) => Some(host.clone()),
                None => None,
            },
            port: self.port,
            path: self.path.clone(),
            origin: self.origin.clone(),
            unicode_origin: self.unicode_origin.clone(),
        }
    }
}

} // verus!
