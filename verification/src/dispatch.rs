//! Routing requests and events to the handlers registered for them.
//!
//! Handlers are registered under a method or event name; registering a name
//! again replaces its handler.
use vstd::prelude::*;

use crate::json::{json_model, json_null, JsonModel};
use crate::message::{
    ErrorBody, ErrorBodyModel, ErrorCode, Event, EventModel, Request, RequestModel,
    StandardErrorCode,
};
use crate::session::{reply_model, unimplemented_body, HandlerError};
use crate::message::{MessageModel, RequestErrorModel, ResponseModel};
use crate::table::{name_texts, NamedTable};
use crate::wire::opt_json;

verus! {

/// The handlers of a session: request handlers by method, event handlers by
/// event name. Registering a name again replaces its handler.
#[verifier::reject_recursive_types(R)]
#[verifier::reject_recursive_types(E)]
pub struct HandlerRoutes<R, E> {
    requests: NamedTable<R>,
    events: NamedTable<E>,
}

/// Where a request goes: the handler of its method with the params handed to
/// it (`null` when the request has none), or, with no handler for its
/// method, the error it is answered with.
pub open spec fn request_route<R>(handlers: Map<Seq<char>, R>, r: RequestModel) -> Result<
    (R, JsonModel),
    ErrorBodyModel,
> {
    if handlers.contains_key(r.method) {
        Ok((handlers[r.method], opt_json(r.params)))
    } else {
        Err(unimplemented_body(r.method))
    }
}

/// Where an event goes: the handler of its name with its payload (`null` when
/// it has none); an event no handler is registered for is dropped.
pub open spec fn event_route<E>(handlers: Map<Seq<char>, E>, e: EventModel) -> Option<
    (E, JsonModel),
> {
    if handlers.contains_key(e.event) {
        Some((handlers[e.event], opt_json(e.data)))
    } else {
        None
    }
}

impl<R, E> HandlerRoutes<R, E> {
    /// The request handlers, by method.
    pub closed spec fn request_handlers(&self) -> Map<Seq<char>, R> {
        self.requests.entries()
    }

    /// The methods that have a handler, in the order they were first
    /// registered.
    pub closed spec fn methods(&self) -> Seq<Seq<char>> {
        self.requests.names()
    }

    /// The event handlers, by event name.
    pub closed spec fn event_handlers(&self) -> Map<Seq<char>, E> {
        self.events.entries()
    }

    /// No handler registered.
    pub fn new() -> (r: HandlerRoutes<R, E>)
        ensures
            r.request_handlers() == Map::<Seq<char>, R>::empty(),
            r.methods() == Seq::<Seq<char>>::empty(),
            r.event_handlers() == Map::<Seq<char>, E>::empty(),
    {
        HandlerRoutes { requests: NamedTable::new(), events: NamedTable::new() }
    }

    /// Registers `handler` for requests of `method`, replacing the handler
    /// `method` had; a new method goes after the others.
    pub fn register_request(&mut self, method: &str, handler: R)
        ensures
            final(self).request_handlers() == old(self).request_handlers().insert(method@, handler),
            final(self).methods() == (if old(self).request_handlers().contains_key(method@) {
                old(self).methods()
            } else {
                old(self).methods().push(method@)
            }),
            final(self).event_handlers() == old(self).event_handlers(),
    {
        self.requests.insert(method, handler);
    }

    /// Registers `handler` for events named `event`, replacing the handler
    /// `event` had.
    pub fn register_event(&mut self, event: &str, handler: E)
        ensures
            final(self).event_handlers() == old(self).event_handlers().insert(event@, handler),
            final(self).request_handlers() == old(self).request_handlers(),
            final(self).methods() == old(self).methods(),
    {
        self.events.insert(event, handler);
    }

    /// The methods that have a handler, in the order they were first
    /// registered: each once, and exactly those with a handler.
    pub fn methods_in_order(&self) -> (r: &Vec<String>)
        ensures
            name_texts(r@) == self.methods(),
            self.methods().no_duplicates(),
            forall|k: Seq<char>|
                #![trigger self.request_handlers().contains_key(k)]
                self.request_handlers().contains_key(k) <==> self.methods().contains(k),
    {
        self.requests.names_in_order()
    }

    /// The handler registered for requests of `method`, if any.
    pub fn request_handler(&self, method: &str) -> (r: Option<&R>)
        ensures
            match r {
                Some(h) => self.request_handlers().contains_key(method@) && *h
                    == self.request_handlers()[method@],
                None => !self.request_handlers().contains_key(method@),
            },
    {
        self.requests.get(method)
    }

    /// Routes a request: the handler of its method with its params, or the
    /// error that a request for an unhandled method is answered with.
    pub fn route_request(&self, req: Request) -> (r: Result<(&R, serde_json::Value), ErrorBody>)
        ensures
            match (r, request_route(self.request_handlers(), req@)) {
                (Ok((h, params)), Ok((g, p))) => *h == g && json_model(params) == p,
                (Err(e), Err(b)) => e@ == b,
                _ => false,
            },
            self.request_handlers().contains_key(req@.method) ==> (r matches Ok((h, params)) && *h
                == self.request_handlers()[req@.method] && json_model(params) == (match req@.params {
                Some(p) => p,
                None => JsonModel::Null,
            })),
            !self.request_handlers().contains_key(req@.method) ==> (r matches Err(e) && e@.code
                == ErrorCode::Standard(StandardErrorCode::NotImplemented) && e@.message == "Method ["@
                + req@.method + "] is not implemented"@ && e@.data is None),
    {
        match self.requests.get(req.method.as_str()) {
            Some(h) => {
                let params = match req.params {
                    Some(p) => p,
                    None => json_null(),
                };
                Ok((h, params))
            },
            None => Err(HandlerError::Unimplemented { method: req.method }.into_error_body()),
        }
    }

    /// Routes an event: the handler of its name with its payload, or `None`
    /// when no handler is registered for it.
    pub fn route_event(&self, evt: Event) -> (r: Option<(&E, serde_json::Value)>)
        ensures
            match (r, event_route(self.event_handlers(), evt@)) {
                (Some((h, data)), Some((g, d))) => *h == g && json_model(data) == d,
                (None, None) => true,
                _ => false,
            },
            self.event_handlers().contains_key(evt@.event) ==> (r matches Some((h, data)) && *h
                == self.event_handlers()[evt@.event] && json_model(data) == (match evt@.data {
                Some(d) => d,
                None => JsonModel::Null,
            })),
            !self.event_handlers().contains_key(evt@.event) ==> r is None,
    {
        match self.events.get(evt.event.as_str()) {
            Some(h) => {
                let data = match evt.data {
                    Some(d) => d,
                    None => json_null(),
                };
                Some((h, data))
            },
            None => None,
        }
    }
}

/// After `handler` is registered for `method`, a request for `method` goes to
/// that handler (not to one registered before), with its params (`null`
/// when it has none).
pub proof fn lemma_registered_method_routes<R>(
    handlers: Map<Seq<char>, R>,
    method: Seq<char>,
    handler: R,
    r: RequestModel,
)
    requires
        r.method == method,
    ensures
        request_route(handlers.insert(method, handler), r) == Ok::<(R, JsonModel), ErrorBodyModel>(
            (handler, opt_json(r.params)),
        ),
{
}

/// Registering a handler for one method leaves where every other method's
/// requests go unchanged.
pub proof fn lemma_registration_is_local<R>(
    handlers: Map<Seq<char>, R>,
    method: Seq<char>,
    handler: R,
    r: RequestModel,
)
    requires
        r.method != method,
    ensures
        request_route(handlers.insert(method, handler), r) == request_route(handlers, r),
{
}

/// After `handler` is registered for event `name`, events of that name go to
/// that handler; events of other names go where they went before.
pub proof fn lemma_registered_event_routes<E>(
    handlers: Map<Seq<char>, E>,
    name: Seq<char>,
    handler: E,
    e: EventModel,
)
    ensures
        e.event == name ==> event_route(handlers.insert(name, handler), e) == Some::<(E, JsonModel)>(
            (handler, opt_json(e.data)),
        ),
        e.event != name ==> event_route(handlers.insert(name, handler), e) == event_route(handlers, e),
{
}

/// A request for a method no handler is registered for is answered, under
/// the request's own id, with a `NotImplemented` error naming the method.
pub proof fn lemma_refused_request_answer<R>(handlers: Map<Seq<char>, R>, r: RequestModel)
    requires
        !handlers.contains_key(r.method),
    ensures
        request_route(handlers, r) matches Err(b) && reply_model(r.id, Err(b))
            == MessageModel::Response(
            ResponseModel::Error(RequestErrorModel { id: r.id, error: unimplemented_body(r.method) }),
        ),
{
}

} // verus!
