//! The HTTP GET requests the library asks to have sent.

use vstd::prelude::*;

verus! {

/// A GET request: the URL, the query parameters in order, and whether the
/// request carries the JSON `Content-Type` and `Accept` headers.
pub struct HttpRequest {
    pub url: String,
    pub query: Vec<(String, String)>,
    pub json_headers: bool,
}

pub struct HttpRequestView {
    pub url: Seq<char>,
    pub query: Seq<(Seq<char>, Seq<char>)>,
    pub json_headers: bool,
}

pub open spec fn query_view(query: Seq<(String, String)>) -> Seq<(Seq<char>, Seq<char>)> {
    query.map_values(|q: (String, String)| (q.0@, q.1@))
}

impl View for HttpRequest {
    type V = HttpRequestView;

    open spec fn view(&self) -> HttpRequestView {
        HttpRequestView {
            url: self.url@,
            query: query_view(self.query@),
            json_headers: self.json_headers,
        }
    }
}

} // verus!
