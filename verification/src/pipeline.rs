//! The dispatch pipeline: an ordered chain of middleware in front of a
//! registry of controllers.

use crate::message::{ApplicationError, HttpMethod, HttpRequest, HttpResponse};
use vstd::prelude::*;

verus! {

/// What a middleware decides about a request.
pub enum ProcessResult {
    /// Hand the request on to the next middleware, or to the controller.
    Done,
    /// Answer the request with this response; nothing else runs.
    Response(HttpResponse),
}

/// A handler that sees every request before routing. It may change the
/// request, let it pass or answer it.
pub trait Middleware: Send + Sync {
    /// What one call may do: `req` is the request as it comes in,
    /// `req_after` as it is left behind, and `out` the decision.
    open spec fn outcome(&self, req: HttpRequest, req_after: HttpRequest, out: ProcessResult) -> bool {
        true
    }

    fn process(&mut self, req: &mut HttpRequest) -> (out: ProcessResult)
        ensures
            old(self).outcome(*old(req), *final(req), out),
    ;
}

/// An endpoint handler bound to one path, with one handler per method. A
/// handler that the controller does not provide answers "not found" and
/// leaves the controller as it was. A handler that the controller provides
/// says in its own contract what it answers.
pub trait HttpController: Sync + Send {
    /// The paths that `url` may report. A controller that is bound to one
    /// path states that path alone; one that states nothing leaves every
    /// path open.
    open spec fn binds(&self, path: Seq<char>) -> bool {
        true
    }

    fn url(&self) -> (path: &'static str)
        ensures
            self.binds(path@),
    ;

    fn on_post(&mut self, req: &HttpRequest) -> (resp: HttpResponse)
        default_ensures
            resp@ == HttpResponse::not_found_view(),
            &*final(self) == &*old(self),
    {
        HttpResponse::not_found()
    }

    fn on_get(&mut self, req: &HttpRequest) -> (resp: HttpResponse)
        default_ensures
            resp@ == HttpResponse::not_found_view(),
            &*final(self) == &*old(self),
    {
        HttpResponse::not_found()
    }

    fn on_put(&mut self, req: &HttpRequest) -> (resp: HttpResponse)
        default_ensures
            resp@ == HttpResponse::not_found_view(),
            &*final(self) == &*old(self),
    {
        HttpResponse::not_found()
    }

    fn on_delete(&mut self, req: &HttpRequest) -> (resp: HttpResponse)
        default_ensures
            resp@ == HttpResponse::not_found_view(),
            &*final(self) == &*old(self),
    {
        HttpResponse::not_found()
    }
}

/// Something that turns one request into one response.
pub trait RequestProcessor: Sync + Send {
    /// What the processor may answer to `req`.
    open spec fn answers(&self, req: HttpRequest, resp: HttpResponse) -> bool {
        true
    }

    fn process(&mut self, req: HttpRequest) -> (resp: HttpResponse)
        ensures
            old(self).answers(req, resp),
    ;
}

/// A server that feeds the requests of its connections to a processor.
pub trait WebServer {
    fn start(self, processor: Box<dyn RequestProcessor>) -> Result<(), ApplicationError>;
}

/// The first `count` middlewares each let the request pass: `reqs[i]` is the
/// request as middleware `i` receives it, `reqs[i + 1]` as it leaves it.
pub open spec fn passed<M: Middleware + ?Sized>(
    ms: Seq<Box<M>>,
    reqs: Seq<HttpRequest>,
    count: int,
) -> bool {
    &&& 0 <= count <= ms.len()
    &&& count < reqs.len()
    &&& forall|i: int|
        0 <= i < count ==> (#[trigger] ms[i]).outcome(reqs[i], reqs[i + 1], ProcessResult::Done)
}

/// Controller `i` reported a path other than `path`, so routing went past
/// it.
pub open spec fn skipped<C: HttpController + ?Sized>(
    cs: Seq<Box<C>>,
    path: Seq<char>,
    i: int,
) -> bool {
    exists|other: Seq<char>| other != path && #[trigger] cs[i].binds(other)
}

/// What the handler for the request's method may answer to `req` when it
/// is called on `m`: what that handler's own contract admits. The method
/// outside the four has no handler.
pub open spec fn handler_answers<C: HttpController + ?Sized>(
    m: &mut C,
    req: HttpRequest,
    resp: HttpResponse,
) -> bool {
    match req.method {
        HttpMethod::Get => call_ensures(C::on_get, (m, &req), resp),
        HttpMethod::Post => call_ensures(C::on_post, (m, &req), resp),
        HttpMethod::Put => call_ensures(C::on_put, (m, &req), resp),
        HttpMethod::Delete => call_ensures(C::on_delete, (m, &req), resp),
        HttpMethod::Unsupported => false,
    }
}

/// Routing of `req` looked at the controllers before position `j`, which
/// all reported another path, and stopped at `j`: either the controller
/// there reported the request's path, or `j` is the end of the registry.
/// No controller but the one at `j` is touched. At the end of the
/// registry, and for a method that has no handler, the answer is "not
/// found" and no controller is touched at all.
pub open spec fn routed_at<C: HttpController + ?Sized>(
    cs: Seq<Box<C>>,
    req: HttpRequest,
    cs_after: Seq<Box<C>>,
    resp: HttpResponse,
    j: int,
) -> bool {
    &&& 0 <= j <= cs.len()
    &&& cs_after.len() == cs.len()
    &&& forall|i: int| 0 <= i < j ==> #[trigger] skipped(cs, req.path@, i)
    &&& forall|i: int| 0 <= i < cs.len() && i != j ==> #[trigger] cs_after[i] == cs[i]
    &&& j < cs.len() ==> cs[j].binds(req.path@)
    &&& j == cs.len() || req.method == HttpMethod::Unsupported ==> {
        &&& resp@ == HttpResponse::not_found_view()
        &&& cs_after == cs
    }
}

/// Whether routing that stopped at `j` called a handler: it did where a
/// controller stands at `j` and the request's method has one.
pub open spec fn calls_handler<C: HttpController + ?Sized>(
    cs: Seq<Box<C>>,
    req: HttpRequest,
    j: int,
) -> bool {
    0 <= j < cs.len() && req.method != HttpMethod::Unsupported
}

/// The pipeline: middleware in the order in which it runs, and controllers
/// in the order in which routing looks at them. Without type arguments it
/// holds middleware and controllers of any kinds, side by side.
pub struct StandardRequestProcessor<
    M: Middleware + ?Sized = dyn Middleware,
    C: HttpController + ?Sized = dyn HttpController,
> {
    middlewares: Vec<Box<M>>,
    controller: Vec<Box<C>>,
}

impl<M: Middleware + ?Sized, C: HttpController + ?Sized> StandardRequestProcessor<M, C> {
    /// The middleware chain, first to run first.
    pub closed spec fn chain(&self) -> Seq<Box<M>> {
        self.middlewares@
    }

    /// The controllers, first registered first.
    pub closed spec fn registry(&self) -> Seq<Box<C>> {
        self.controller@
    }

    /// One run in which every middleware let the request pass and routing
    /// stopped at position `j`. `reqs` holds the request before and after
    /// each middleware; its last entry is the request that was routed.
    pub open spec fn delivered(
        &self,
        req: HttpRequest,
        after: StandardRequestProcessor<M, C>,
        resp: HttpResponse,
        reqs: Seq<HttpRequest>,
        j: int,
    ) -> bool {
        &&& reqs.len() == self.chain().len() + 1
        &&& reqs[0] == req
        &&& passed(self.chain(), reqs, self.chain().len() as int)
        &&& after.chain().len() == self.chain().len()
        &&& routed_at(self.registry(), reqs.last(), after.registry(), resp, j)
    }

    /// One run in which the middleware at position `reqs.len() - 2` answered
    /// after those before it let the request pass. Nothing behind that
    /// position ran: the later middleware and all controllers are as before.
    pub open spec fn stopped(
        &self,
        req: HttpRequest,
        after: StandardRequestProcessor<M, C>,
        resp: HttpResponse,
        reqs: Seq<HttpRequest>,
    ) -> bool {
        let k = reqs.len() - 2;
        &&& 0 <= k < self.chain().len()
        &&& reqs[0] == req
        &&& passed(self.chain(), reqs, k)
        &&& self.chain()[k].outcome(reqs[k], reqs[k + 1], ProcessResult::Response(resp))
        &&& after.chain().len() == self.chain().len()
        &&& forall|i: int| k < i < self.chain().len() ==> after.chain()[i] == self.chain()[i]
        &&& after.registry() == self.registry()
    }

    /// One run of the pipeline on `req`, which answers `resp` and leaves the
    /// pipeline as `after`.
    pub open spec fn run(
        &self,
        req: HttpRequest,
        after: StandardRequestProcessor<M, C>,
        resp: HttpResponse,
    ) -> bool {
        ||| exists|reqs: Seq<HttpRequest>| #[trigger] self.stopped(req, after, resp, reqs)
        ||| exists|reqs: Seq<HttpRequest>, j: int| #[trigger]
            self.delivered(req, after, resp, reqs, j)
    }

    /// A pipeline of the given middleware and controllers, in the given
    /// order.
    pub fn new(middlewares: Vec<Box<M>>, controller: Vec<Box<C>>) -> (p: StandardRequestProcessor<
        M,
        C,
    >)
        ensures
            p.chain() == middlewares@,
            p.registry() == controller@,
    {
        StandardRequestProcessor { middlewares, controller }
    }

    /// The position of the first controller that reports `path`.
    fn find(&self, path: &str) -> (found: Option<usize>)
        ensures
            match found {
                Some(j) => {
                    &&& j < self.registry().len()
                    &&& self.registry()[j as int].binds(path@)
                    &&& forall|i: int| 0 <= i < j ==> #[trigger] skipped(self.registry(), path@, i)
                },
                None => forall|i: int|
                    0 <= i < self.registry().len() ==> #[trigger] skipped(self.registry(), path@, i),
            },
    {
        let mut j: usize = 0;
        while j < self.controller.len()
            invariant
                j <= self.controller@.len(),
                forall|i: int| 0 <= i < j ==> #[trigger] skipped(self.controller@, path@, i),
            decreases self.controller@.len() - j,
        {
            let bound = self.controller[j].url();
            if bound.eq(path) {
                return Some(j);
            }
            assert(self.controller@[j as int].binds(bound@));
            j = j + 1;
        }
        None
    }

    /// Routes `req` to the first controller that reports its path and calls
    /// the handler of the request's method on it. The answer is what that
    /// handler's contract admits, and the controller is left as the handler
    /// left it.
    fn route(&mut self, req: &HttpRequest) -> (at: (usize, HttpResponse))
        ensures
            final(self).chain() == old(self).chain(),
            routed_at(old(self).registry(), *req, final(self).registry(), at.1, at.0 as int),
            calls_handler(old(self).registry(), *req, at.0 as int) ==> exists|m: &mut C|
                {
                    &&& &*m == &*old(self).registry()[at.0 as int]
                    &&& &*final(m) == &*final(self).registry()[at.0 as int]
                    &&& #[trigger] handler_answers(m, *req, at.1)
                },
    {
        let ghost before = self.controller@;
        match self.find(req.path.as_str()) {
            None => {
                assert(self.registry() == before);
                (self.controller.len(), HttpResponse::not_found())
            },
            Some(j) => {
                let resp = match req.method {
                    HttpMethod::Get => {
                        let m: &mut C = &mut *self.controller[j];
                        let resp = m.on_get(req);
                        proof {
                            let called = choose|w: &mut C|
                                {
                                    &&& &*w == &*before[j as int]
                                    &&& &*final(w) == &*self.controller@[j as int]
                                    &&& #[trigger] call_ensures(C::on_get, (w, req), resp)
                                };
                            assert(handler_answers(called, *req, resp));
                        }
                        resp
                    },
                    HttpMethod::Post => {
                        let m: &mut C = &mut *self.controller[j];
                        let resp = m.on_post(req);
                        proof {
                            let called = choose|w: &mut C|
                                {
                                    &&& &*w == &*before[j as int]
                                    &&& &*final(w) == &*self.controller@[j as int]
                                    &&& #[trigger] call_ensures(C::on_post, (w, req), resp)
                                };
                            assert(handler_answers(called, *req, resp));
                        }
                        resp
                    },
                    HttpMethod::Delete => {
                        let m: &mut C = &mut *self.controller[j];
                        let resp = m.on_delete(req);
                        proof {
                            let called = choose|w: &mut C|
                                {
                                    &&& &*w == &*before[j as int]
                                    &&& &*final(w) == &*self.controller@[j as int]
                                    &&& #[trigger] call_ensures(C::on_delete, (w, req), resp)
                                };
                            assert(handler_answers(called, *req, resp));
                        }
                        resp
                    },
                    HttpMethod::Put => {
                        let m: &mut C = &mut *self.controller[j];
                        let resp = m.on_put(req);
                        proof {
                            let called = choose|w: &mut C|
                                {
                                    &&& &*w == &*before[j as int]
                                    &&& &*final(w) == &*self.controller@[j as int]
                                    &&& #[trigger] call_ensures(C::on_put, (w, req), resp)
                                };
                            assert(handler_answers(called, *req, resp));
                        }
                        resp
                    },
                    HttpMethod::Unsupported => HttpResponse::not_found(),
                };
                assert(req.method != HttpMethod::Unsupported ==> exists|m: &mut C|
                    {
                        &&& &*m == &*before[j as int]
                        &&& &*final(m) == &*self.controller@[j as int]
                        &&& #[trigger] handler_answers(m, *req, resp)
                    });
                (j, resp)
            },
        }
    }
}

impl<M: Middleware + ?Sized, C: HttpController + ?Sized> RequestProcessor for StandardRequestProcessor<
    M,
    C,
> {
    open spec fn answers(&self, req: HttpRequest, resp: HttpResponse) -> bool {
        exists|after: StandardRequestProcessor<M, C>| #[trigger] self.run(req, after, resp)
    }

    /// Runs the middleware in order; the first that answers ends the run.
    /// Where all let the request pass, the request as they left it is
    /// routed: the first controller that reports its path answers through
    /// the handler of its method. The answer is what that handler's
    /// contract admits, and the controller is left as the handler left it.
    fn process(&mut self, req: HttpRequest) -> (resp: HttpResponse)
        ensures
            old(self).run(req, *final(self), resp),
            (exists|reqs: Seq<HttpRequest>| #[trigger]
                old(self).stopped(req, *final(self), resp, reqs)) || (exists|
                reqs: Seq<HttpRequest>,
                j: int,
            |
                {
                    &&& #[trigger] old(self).delivered(req, *final(self), resp, reqs, j)
                    &&& calls_handler(old(self).registry(), reqs.last(), j) ==> exists|m: &mut C|
                        {
                            &&& &*m == &*old(self).registry()[j]
                            &&& &*final(m) == &*final(self).registry()[j]
                            &&& #[trigger] handler_answers(m, reqs.last(), resp)
                        }
                }),
    {
        let ghost before = *self;
        let ghost mut reqs: Seq<HttpRequest> = seq![req];
        let mut current = req;
        let mut i: usize = 0;
        while i < self.middlewares.len()
            invariant
                before == *old(self),
                i <= self.middlewares@.len(),
                self.middlewares@.len() == before.middlewares@.len(),
                self.controller@ == before.controller@,
                reqs.len() == i + 1,
                reqs[0] == req,
                reqs[i as int] == current,
                passed(before.middlewares@, reqs, i as int),
                forall|j: int|
                    i <= j < self.middlewares@.len() ==> self.middlewares@[j]
                        == before.middlewares@[j],
            decreases self.middlewares@.len() - i,
        {
            let ghost seen = reqs;
            let out = self.middlewares[i].process(&mut current);
            proof {
                reqs = seen.push(current);
                assert forall|j: int| 0 <= j < i implies (#[trigger] before.middlewares@[j]).outcome(
                    reqs[j],
                    reqs[j + 1],
                    ProcessResult::Done,
                ) by {
                    assert(reqs[j] == seen[j]);
                    assert(reqs[j + 1] == seen[j + 1]);
                }
            }
            match out {
                ProcessResult::Done => {},
                ProcessResult::Response(resp) => {
                    proof {
                        assert(before.stopped(req, *self, resp, reqs));
                        assert(before.run(req, *self, resp));
                    }
                    return resp;
                },
            }
            i = i + 1;
        }
        let (j, resp) = self.route(&current);
        proof {
            assert(reqs.last() == current);
            assert(before.delivered(req, *self, resp, reqs, j as int));
            assert(before.run(req, *self, resp));
        }
        resp
    }
}

} // verus!
