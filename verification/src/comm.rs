use vstd::prelude::*;
use vstd::string::StringExecFns;

verus! {

/// The outgoing wire record of a submit-record request: the player's name,
/// the score in tenths of a point, and optionally a base64-encoded brush
/// thumbnail and further blobs the service accepts.
#[derive(Debug)]
pub struct DrawingsInput {
    pub name: String,
    pub score: Option<i64>,
    pub brush: Option<String>,
    pub shape: Option<String>,
    pub drawing: Option<String>,
}

/// A record as the remote service stores and returns it.
#[derive(Debug)]
pub struct StoredRecord {
    pub name: String,
    pub score: Option<i64>,
    pub brush: Option<String>,
}

/// The caller-side state of one operation kind: nothing sent yet, a request
/// in flight, the last request done, or failed with a message.
pub enum CommStatus {
    Waiting,
    Sending,
    Done,
    Error(String),
}

/// The caller-side model of one operation kind of the communication bridge:
/// a single-slot request mailbox, the worker servicing it, and a single-slot
/// response mailbox. The frame-stepped caller only ever performs the
/// non-blocking operations `try_send` and `try_recv`; the loop around the
/// blocking remote call drives `take_request` and `deliver`.
pub struct CommLink<Req, Resp> {
    /// The capacity-one request mailbox.
    pub req_slot: Option<Req>,
    /// The worker has taken a request and has not yet replied.
    pub in_service: bool,
    /// The capacity-one response mailbox.
    pub resp_slot: Option<Result<Resp, String>>,
    /// How many requests have been accepted.
    pub requests: Ghost<nat>,
    /// How many responses have been handed back to the caller.
    pub responses: Ghost<nat>,
}

impl<Req, Resp> CommLink<Req, Resp> {
    /// A request is somewhere between acceptance and response delivery.
    pub open spec fn in_flight(self) -> bool {
        self.req_slot is Some || self.in_service || self.resp_slot is Some
    }

    /// At most one request of this operation kind is ever in flight, and
    /// every accepted request is answered by exactly one response.
    pub open spec fn wf(self) -> bool {
        &&& !(self.req_slot is Some && self.in_service)
        &&& !(self.req_slot is Some && self.resp_slot is Some)
        &&& !(self.in_service && self.resp_slot is Some)
        &&& self.requests@ == self.responses@ + (if self.in_flight() {
            1int
        } else {
            0int
        })
    }

    /// A submit is accepted only with nothing in flight.
    pub open spec fn submit_accepted(self) -> bool {
        !self.in_flight()
    }

    /// The state after a non-blocking send: unchanged on rejection, else the
    /// request sits in the mailbox.
    pub open spec fn submit_next(self, r: Req) -> Self {
        if self.in_flight() {
            self
        } else {
            CommLink { req_slot: Some(r), requests: Ghost((self.requests@ + 1) as nat), ..self }
        }
    }

    /// The state and outcome after the worker looks for work.
    pub open spec fn take_next(self) -> (Self, Option<Req>) {
        if self.req_slot is Some {
            (CommLink { req_slot: None, in_service: true, ..self }, self.req_slot)
        } else {
            (self, None)
        }
    }

    /// The state and outcome after the worker offers a response.
    pub open spec fn deliver_next(self, res: Result<Resp, String>) -> (Self, bool) {
        if self.in_service {
            (CommLink { in_service: false, resp_slot: Some(res), ..self }, true)
        } else {
            (self, false)
        }
    }

    /// The state and outcome after the caller polls for a response.
    pub open spec fn poll_next(self) -> (Self, Option<Result<Resp, String>>) {
        if self.resp_slot is Some {
            (
                CommLink {
                    resp_slot: None,
                    responses: Ghost((self.responses@ + 1) as nat),
                    ..self
                },
                self.resp_slot,
            )
        } else {
            (self, None)
        }
    }

    /// A fresh link with nothing in flight.
    pub fn new() -> (link: Self)
        ensures
            link.wf(),
            !link.in_flight(),
            link.requests@ == 0,
            link.responses@ == 0,
    {
        CommLink {
            req_slot: None,
            in_service: false,
            resp_slot: None,
            requests: Ghost(0nat),
            responses: Ghost(0nat),
        }
    }

    /// Non-blocking send from the frame-stepped side: fails fast, leaving
    /// everything unchanged, when a request of this kind is already in
    /// flight.
    pub fn try_send(&mut self, r: Req) -> (accepted: bool)
        requires
            old(self).wf(),
        ensures
            final(self).wf(),
            accepted == old(self).submit_accepted(),
            *final(self) == old(self).submit_next(r),
    {
        if self.req_slot.is_some() || self.in_service || self.resp_slot.is_some() {
            false
        } else {
            self.req_slot = Some(r);
            proof {
                self.requests@ = (self.requests@ + 1) as nat;
            }
            true
        }
    }

    /// The worker's side of the request mailbox: claim the pending request,
    /// if any.
    pub fn take_request(&mut self) -> (r: Option<Req>)
        requires
            old(self).wf(),
        ensures
            final(self).wf(),
            (*final(self), r) == old(self).take_next(),
    {
        if self.req_slot.is_some() {
            let r = self.req_slot.take();
            self.in_service = true;
            r
        } else {
            None
        }
    }

    /// The worker's side of the response mailbox: offer the outcome of the
    /// remote call. An offer without a claimed request is dropped rather
    /// than aborting, and the offer says so.
    pub fn deliver(&mut self, res: Result<Resp, String>) -> (delivered: bool)
        requires
            old(self).wf(),
        ensures
            final(self).wf(),
            (*final(self), delivered) == old(self).deliver_next(res),
    {
        if self.in_service {
            self.resp_slot = Some(res);
            self.in_service = false;
            true
        } else {
            false
        }
    }

    /// Non-blocking receive from the frame-stepped side: the response, if
    /// one has arrived since the last poll.
    pub fn try_recv(&mut self) -> (r: Option<Result<Resp, String>>)
        requires
            old(self).wf(),
        ensures
            final(self).wf(),
            (*final(self), r) == old(self).poll_next(),
    {
        if self.resp_slot.is_some() {
            let r = self.resp_slot.take();
            proof {
                self.responses@ = (self.responses@ + 1) as nat;
            }
            r
        } else {
            None
        }
    }
}

/// Single flight: while a request is in flight, a second submit of the same
/// operation kind is rejected and changes nothing — in particular it never
/// overwrites the in-flight request.
pub proof fn law_second_submit_rejected<Req, Resp>(link: CommLink<Req, Resp>, r: Req)
    requires
        link.wf(),
        link.in_flight(),
    ensures
        !link.submit_accepted(),
        link.submit_next(r) == link,
{
}

/// One response per accepted request: a poll that yields a response empties
/// the whole link, so a second poll yields nothing until a new request is
/// accepted; and the response count never exceeds the request count.
pub proof fn law_one_response_per_request<Req, Resp>(link: CommLink<Req, Resp>)
    requires
        link.wf(),
    ensures
        link.poll_next().1 is Some ==> !link.poll_next().0.in_flight(),
        link.poll_next().1 is Some ==> link.poll_next().0.poll_next().1 is None,
        link.responses@ <= link.requests@ <= link.responses@ + 1,
{
}

/// The two per-operation links the frame-stepped side owns: submitting one
/// drawing record, and fetching the full record list. The operation kinds
/// are independent of each other.
pub struct CommChannels {
    pub result: CommLink<DrawingsInput, StoredRecord>,
    pub all_drawings: CommLink<(), Vec<StoredRecord>>,
}

impl CommChannels {
    /// Fresh links for both operation kinds, nothing in flight.
    pub fn new() -> (c: CommChannels)
        ensures
            c.result.wf(),
            !c.result.in_flight(),
            c.all_drawings.wf(),
            !c.all_drawings.in_flight(),
    {
        CommChannels { result: CommLink::new(), all_drawings: CommLink::new() }
    }
}

/// A reply of the remote service reports errors that matter.
pub open spec fn reply_has_errors(errors: Option<Vec<String>>) -> bool {
    errors matches Some(es) && es@.len() > 0
}

/// The submit-record operation against the remote service.
#[allow(non_camel_case_types)]
pub struct createDrawings;

impl createDrawings {
    /// The worker's reading of a service reply to a submit-record request:
    /// a reported error list collapses to its first message, a reply with
    /// neither errors nor data is an error of its own, and otherwise the
    /// stored record comes back.
    pub fn interpret(data: Option<StoredRecord>, errors: Option<Vec<String>>) -> (r: Result<
        StoredRecord,
        String,
    >)
        ensures
            reply_has_errors(errors) ==> (r matches Err(e) && errors matches Some(es) && e
                == es@[0]),
            !reply_has_errors(errors) && data is Some ==> (r matches Ok(v) && data == Some(v)),
            !reply_has_errors(errors) && data is None ==> (r matches Err(e) && e@
                == "service reply held no data"@),
    {
        if let Some(mut es) = errors {
            if es.len() > 0 {
                return Err(es.remove(0));
            }
        }
        match data {
            Some(d) => Ok(d),
            None => Err(String::from_str("service reply held no data")),
        }
    }
}

/// The fetch-all-records operation against the remote service.
#[allow(non_camel_case_types)]
pub struct allDrawings;

impl allDrawings {
    /// The worker's reading of a service reply to a fetch-all-records
    /// request, under the same rules as for a submit.
    pub fn interpret(data: Option<Vec<StoredRecord>>, errors: Option<Vec<String>>) -> (r: Result<
        Vec<StoredRecord>,
        String,
    >)
        ensures
            reply_has_errors(errors) ==> (r matches Err(e) && errors matches Some(es) && e
                == es@[0]),
            !reply_has_errors(errors) && data is Some ==> (r matches Ok(v) && data == Some(v)),
            !reply_has_errors(errors) && data is None ==> (r matches Err(e) && e@
                == "service reply held no data"@),
    {
        if let Some(mut es) = errors {
            if es.len() > 0 {
                return Err(es.remove(0));
            }
        }
        match data {
            Some(d) => Ok(d),
            None => Err(String::from_str("service reply held no data")),
        }
    }
}

} // verus!
