//! Workers: each serves one connection with a pipeline of its own, one
//! request at a time.

use crate::channel::{BidirectionalChannel, ChannelClosed};
use crate::factory::create_request_proc;
use crate::message::{HttpRequest, HttpResponse};
use crate::pipeline::{HttpController, Middleware, RequestProcessor, StandardRequestProcessor};
use crate::text::{decimal, decimal_text};
use vstd::prelude::*;
use vstd::string::StringExecFns;

verus! {

/// What a worker does after a receive.
pub enum WorkerAction {
    /// Send this response back, then receive again.
    Reply(HttpResponse),
    /// The connection is gone: stop.
    Stop,
}

/// One step of a worker, given what its receive came to. A request that
/// arrived is run through the pipeline, and its response is to be sent
/// back: the pipeline is then as that run left it, and the response is what
/// `process` states of it. A closed channel ends the worker and leaves the
/// pipeline as it was.
pub fn worker_step<M: Middleware + ?Sized, C: HttpController + ?Sized>(
    processor: &mut StandardRequestProcessor<M, C>,
    event: Result<HttpRequest, ChannelClosed>,
) -> (action: WorkerAction)
    ensures
        match event {
            Ok(req) => {
                &&& action matches WorkerAction::Reply(resp)
                &&& old(processor).run(req, *final(processor), resp)
                &&& exists|p: &mut StandardRequestProcessor<M, C>|
                    {
                        &&& *p == *old(processor)
                        &&& *final(p) == *final(processor)
                        &&& #[trigger] call_ensures(
                            StandardRequestProcessor::<M, C>::process,
                            (p, req),
                            resp,
                        )
                    }
            },
            Err(_) => action is Stop && *final(processor) == *old(processor),
        },
{
    match event {
        Ok(req) => {
            let p: &mut StandardRequestProcessor<M, C> = &mut *processor;
            WorkerAction::Reply(p.process(req))
        },
        Err(_) => WorkerAction::Stop,
    }
}

/// The name of the worker that is registered as number `number`.
pub open spec fn worker_name(number: nat) -> Seq<char> {
    "Http-Worker-"@ + decimal(number)
}

/// A worker as it is before its thread starts: its name, its end of the
/// channel and its own pipeline.
pub struct Worker {
    pub name: String,
    pub channel: BidirectionalChannel<HttpResponse, HttpRequest>,
    pub processor: StandardRequestProcessor,
}

impl Worker {
    /// Serves one request: blocks for it, runs the pipeline on it and sends
    /// the response back. Returns whether the worker goes on, which it does
    /// until the channel is closed.
    ///
    /// What the channel brings is not in this worker's hand. Whatever it
    /// brings, name and channel stay as they are, and one of two things has
    /// happened: nothing arrived, so the worker stops and its pipeline is
    /// as it was; or one request arrived and the pipeline has run on it. A
    /// worker that goes on has run its pipeline on one request.
    pub fn serve_one(&mut self) -> (alive: bool)
        ensures
            final(self).name == old(self).name,
            final(self).channel == old(self).channel,
            (!alive && final(self).processor == old(self).processor) || exists|
                req: HttpRequest,
                resp: HttpResponse,
            | #[trigger] old(self).processor.run(req, final(self).processor, resp),
    {
        let event = self.channel.recv();
        let ghost arrived = event;
        match worker_step(&mut self.processor, event) {
            WorkerAction::Reply(resp) => {
                assert(old(self).processor.run(arrived->Ok_0, self.processor, resp));
                self.channel.send(resp).is_ok()
            },
            WorkerAction::Stop => false,
        }
    }
}

/// Hands out one worker per connection, and counts them.
pub struct RequestDispatcher {
    workers: usize,
}

impl RequestDispatcher {
    /// The number of workers registered so far.
    pub closed spec fn registered(&self) -> nat {
        self.workers as nat
    }

    /// A dispatcher without workers.
    pub fn new() -> (d: RequestDispatcher)
        ensures
            d.registered() == 0,
    {
        RequestDispatcher { workers: 0 }
    }

    /// The number of workers registered so far.
    pub fn worker_count(&self) -> (n: usize)
        ensures
            n == self.registered(),
    {
        self.workers
    }

    /// Registers one more worker. It gets a fresh pipeline, without
    /// middleware or controllers, and one end of a fresh channel; the other
    /// end is returned for the connection. The worker's name carries its
    /// number, counted from 1.
    pub fn register(&mut self) -> (seat: (Worker, BidirectionalChannel<HttpRequest, HttpResponse>))
        requires
            old(self).registered() < usize::MAX,
        ensures
            final(self).registered() == old(self).registered() + 1,
            seat.0.name@ == worker_name(final(self).registered()),
            seat.0.processor.chain().len() == 0,
            seat.0.processor.registry().len() == 0,
    {
        let processor = create_request_proc();
        let (channel1, channel2) = BidirectionalChannel::<HttpResponse, HttpRequest>::new();
        self.workers = self.workers + 1;
        let name = "Http-Worker-".to_owned().concat(decimal_text(self.workers as u64).as_str());
        (Worker { name, channel: channel1, processor }, channel2)
    }
}

} // verus!
