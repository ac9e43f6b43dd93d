//! A controller that counts how often it was asked.

use crate::message::{body_headers, HttpRequest, HttpResponse, HttpResponseView};
use crate::pipeline::HttpController;
use crate::text::{decimal, decimal_text};
use vstd::prelude::*;
use vstd::string::StrSliceExecFns;
use vstd::string::StringExecFns;

verus! {

/// The text of the page that reports `count` calls.
pub open spec fn count_page(count: nat) -> Seq<char> {
    "Site called "@ + decimal(count) + " times"@
}

/// Counts the GET requests it has answered. The count belongs to this
/// controller alone: two controllers count apart.
pub struct CountController {
    counter: u64,
}

impl CountController {
    /// The number of GET requests answered so far.
    pub closed spec fn count(&self) -> nat {
        self.counter as nat
    }

    /// A controller that has answered nothing yet.
    pub fn new() -> (c: CountController)
        ensures
            c.count() == 0,
    {
        CountController { counter: 0 }
    }

    /// What a GET request is answered with after `count` earlier ones: the
    /// page for `count + 1`, or status 500 without a body where the count
    /// cannot go up any more.
    pub open spec fn page_after(count: nat) -> HttpResponseView {
        if count < u64::MAX {
            HttpResponseView {
                status: 200,
                headers: body_headers("text/html"@),
                body: vstd::utf8::encode_utf8(count_page(count + 1)),
            }
        } else {
            HttpResponseView {
                status: 500,
                headers: body_headers("text/html"@),
                body: Seq::<u8>::empty(),
            }
        }
    }
}

impl HttpController for CountController {
    open spec fn binds(&self, path: Seq<char>) -> bool {
        path == "/api/counter"@
    }

    fn url(&self) -> (path: &'static str) {
        "/api/counter"
    }

    fn on_get(&mut self, _req: &HttpRequest) -> (resp: HttpResponse)
        ensures
            resp@ == CountController::page_after(old(self).count()),
            final(self).count() == if old(self).count() < u64::MAX {
                old(self).count() + 1
            } else {
                old(self).count()
            },
    {
        if self.counter == u64::MAX {
            return HttpResponse::new(Vec::new(), "text/html", 500);
        }
        self.counter = self.counter + 1;
        let text = "Site called ".to_owned().concat(decimal_text(self.counter).as_str()).concat(
            " times",
        );
        HttpResponse::new(text.as_str().as_bytes_vec(), "text/html", 200)
    }
}

} // verus!
