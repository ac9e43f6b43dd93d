//! What holds of every run of the pipeline.

use crate::message::{HttpRequest, HttpResponse, HttpResponseView};
use crate::pipeline::{
    passed, skipped, HttpController, Middleware, ProcessResult, RequestProcessor,
    StandardRequestProcessor,
};
use vstd::prelude::*;

verus! {

/// Every controller reports one path only.
pub open spec fn single_path<C: HttpController + ?Sized>(cs: Seq<Box<C>>) -> bool {
    forall|i: int, a: Seq<char>, b: Seq<char>|
        0 <= i < cs.len() && #[trigger] cs[i].binds(a) && #[trigger] cs[i].binds(b) ==> a == b
}

/// No controller reports `path`.
pub open spec fn unbound<C: HttpController + ?Sized>(cs: Seq<Box<C>>, path: Seq<char>) -> bool {
    forall|i: int| 0 <= i < cs.len() ==> !(#[trigger] cs[i]).binds(path)
}

/// Controller `j` is the first that reports `path`.
pub open spec fn bound_first<C: HttpController + ?Sized>(
    cs: Seq<Box<C>>,
    path: Seq<char>,
    j: int,
) -> bool {
    &&& 0 <= j < cs.len()
    &&& cs[j].binds(path)
    &&& forall|i: int| 0 <= i < j ==> !(#[trigger] cs[i]).binds(path)
}

/// Middleware `i` lets every request pass and leaves its path and method as
/// they are.
pub open spec fn lets_pass<M: Middleware + ?Sized>(ms: Seq<Box<M>>, i: int) -> bool {
    forall|req: HttpRequest, req_after: HttpRequest, out: ProcessResult| #[trigger]
        ms[i].outcome(req, req_after, out) ==> {
            &&& out is Done
            &&& req_after.path@ == req.path@
            &&& req_after.method == req.method
        }
}

/// Middleware `i` answers every request, always with a response of the
/// content `reply`.
pub open spec fn always_replies<M: Middleware + ?Sized>(
    ms: Seq<Box<M>>,
    i: int,
    reply: HttpResponseView,
) -> bool {
    forall|req: HttpRequest, req_after: HttpRequest, out: ProcessResult| #[trigger]
        ms[i].outcome(req, req_after, out) ==> (out matches ProcessResult::Response(r) && r@
            == reply)
}

/// Along a run in which the middleware before `count` lets pass, path and
/// method stay as they came in.
proof fn lemma_path_kept<M: Middleware + ?Sized>(
    ms: Seq<Box<M>>,
    reqs: Seq<HttpRequest>,
    count: int,
)
    requires
        passed(ms, reqs, count),
        forall|i: int| 0 <= i < count ==> lets_pass(ms, i),
    ensures
        reqs[count].path@ == reqs[0].path@,
        reqs[count].method == reqs[0].method,
    decreases count,
{
    if count > 0 {
        assert(ms[count - 1].outcome(reqs[count - 1], reqs[count - 1 + 1], ProcessResult::Done));
        assert(lets_pass(ms, count - 1));
        lemma_path_kept(ms, reqs, count - 1);
    }
}

/// First match wins. Where every middleware let the request pass and every
/// controller reports one path only, routing stops at the first controller
/// that reports the path of the request as the middleware left it. That
/// controller's handler answers, and no other controller is touched.
pub proof fn law_first_match_wins<M: Middleware + ?Sized, C: HttpController + ?Sized>(
    p: StandardRequestProcessor<M, C>,
    req: HttpRequest,
    after: StandardRequestProcessor<M, C>,
    resp: HttpResponse,
    reqs: Seq<HttpRequest>,
    at: int,
    j: int,
)
    requires
        p.delivered(req, after, resp, reqs, at),
        single_path(p.registry()),
        bound_first(p.registry(), reqs.last().path@, j),
    ensures
        at == j,
        forall|i: int|
            0 <= i < p.registry().len() && i != j ==> after.registry()[i] == p.registry()[i],
{
    let cs = p.registry();
    let routed_req = reqs.last();
    if at < j {
        assert(cs[at].binds(routed_req.path@));
    } else if at > j {
        assert(skipped(cs, routed_req.path@, j));
    }
}

/// A path that no controller reports is answered "not found", whatever the
/// method: status 404, no body. This holds of every run in which each
/// middleware lets the request pass with its path.
pub proof fn law_unbound_path_is_not_found<M: Middleware + ?Sized, C: HttpController + ?Sized>(
    p: StandardRequestProcessor<M, C>,
    req: HttpRequest,
    after: StandardRequestProcessor<M, C>,
    resp: HttpResponse,
)
    requires
        p.run(req, after, resp),
        forall|i: int| 0 <= i < p.chain().len() ==> lets_pass(p.chain(), i),
        unbound(p.registry(), req.path@),
    ensures
        resp@ == HttpResponse::not_found_view(),
        resp.status == 404,
        resp.body@.len() == 0,
        after.registry() == p.registry(),
{
    if exists|reqs: Seq<HttpRequest>| p.stopped(req, after, resp, reqs) {
        let reqs = choose|reqs: Seq<HttpRequest>| p.stopped(req, after, resp, reqs);
        let k = reqs.len() - 2;
        assert(lets_pass(p.chain(), k));
    } else {
        let (reqs, at) = choose|reqs: Seq<HttpRequest>, at: int|
            p.delivered(req, after, resp, reqs, at);
        let n = p.chain().len() as int;
        lemma_path_kept(p.chain(), reqs, n);
        let cs = p.registry();
        if at < cs.len() {
            assert(cs[at].binds(req.path@));
        }
    }
}

/// A reply ends the run. Where the middleware at position `k` answers every
/// request with `reply` and all before it let every request pass, the
/// pipeline answers `reply`; the middleware behind `k` and all controllers
/// are as they were.
pub proof fn law_reply_ends_run<M: Middleware + ?Sized, C: HttpController + ?Sized>(
    p: StandardRequestProcessor<M, C>,
    req: HttpRequest,
    after: StandardRequestProcessor<M, C>,
    resp: HttpResponse,
    k: int,
    reply: HttpResponseView,
)
    requires
        p.run(req, after, resp),
        0 <= k < p.chain().len(),
        forall|i: int| 0 <= i < k ==> lets_pass(p.chain(), i),
        always_replies(p.chain(), k, reply),
    ensures
        resp@ == reply,
        after.registry() == p.registry(),
        forall|i: int| k < i < p.chain().len() ==> after.chain()[i] == p.chain()[i],
{
    let ms = p.chain();
    if exists|reqs: Seq<HttpRequest>| p.stopped(req, after, resp, reqs) {
        let reqs = choose|reqs: Seq<HttpRequest>| p.stopped(req, after, resp, reqs);
        let stop = reqs.len() - 2;
        if stop < k {
            assert(lets_pass(ms, stop));
        } else if stop > k {
            assert(ms[k].outcome(reqs[k], reqs[k + 1], ProcessResult::Done));
        }
    } else {
        let (reqs, at) = choose|reqs: Seq<HttpRequest>, at: int|
            p.delivered(req, after, resp, reqs, at);
        assert(ms[k].outcome(reqs[k], reqs[k + 1], ProcessResult::Done));
    }
}

/// A run that a middleware ended is a run of the pipeline, and it touched
/// nothing behind that middleware.
pub proof fn law_stopped_run_touches_nothing_behind<M: Middleware + ?Sized, C: HttpController + ?Sized>(
    p: StandardRequestProcessor<M, C>,
    req: HttpRequest,
    after: StandardRequestProcessor<M, C>,
    resp: HttpResponse,
    reqs: Seq<HttpRequest>,
)
    requires
        p.stopped(req, after, resp, reqs),
    ensures
        p.run(req, after, resp),
        p.answers(req, resp),
        after.registry() == p.registry(),
        forall|i: int|
            reqs.len() - 2 < i < p.chain().len() ==> after.chain()[i] == p.chain()[i],
{
}

} // verus!
