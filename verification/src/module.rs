//! The module's state and the operations the host reaches through handles.
//!
//! One `ModuleStorage` holds everything: the request queue, a handle table
//! for each kind of resource, and the response that the running callback may
//! look at. Every operation takes plain values and answers with a plain
//! value or an error; none of them ends the program.

use crate::cell_map::{lemma_replace_same, Cell, CellMap, TableModel};
use crate::config::Config;
use crate::errors::FfiError;
use crate::json::JsonValue;
use crate::queue::{Delivery, Queue, QueueModel};
use crate::request::{OptionsModel, Outcome, Request, RequestModel, RequestOptions, RequestType};
use crate::validate::{
    header_name_is_valid, header_name_parses, header_value_is_valid, header_value_parses,
    uri_is_valid, url_parses, utf8_text,
};
use vstd::prelude::*;
use vstd::utf8::{decode_utf8, valid_utf8};

verus! {

/// The handle that stands for "none": a request without a body, or with the
/// settings a request has when none were made.
pub const NO_HANDLE: Cell = -1;

/// With more outstanding requests than this, a tick delivers more than its
/// share of callbacks.
pub const BACKLOG_THRESHOLD: usize = 500;

/// The HTTP method that a code stands for.
pub open spec fn request_type_of(code: Cell) -> Option<RequestType> {
    if code == 0 {
        Some(RequestType::Get)
    } else if code == 1 {
        Some(RequestType::Post)
    } else if code == 2 {
        Some(RequestType::Put)
    } else if code == 3 {
        Some(RequestType::Delete)
    } else {
        None
    }
}

/// Decodes the host's code for an HTTP method.
pub fn decode_request_type(code: Cell) -> (decoded: Result<RequestType, FfiError>)
    ensures
        decoded == (match request_type_of(code) {
            Some(method) => Ok::<RequestType, FfiError>(method),
            None => Err::<RequestType, FfiError>(FfiError::InvalidRequestType(code)),
        }),
{
    if code == 0 {
        Ok(RequestType::Get)
    } else if code == 1 {
        Ok(RequestType::Post)
    } else if code == 2 {
        Ok(RequestType::Put)
    } else if code == 3 {
        Ok(RequestType::Delete)
    } else {
        Err(FfiError::InvalidRequestType(code))
    }
}

/// By how much a tick multiplies its share of callbacks. Up to the threshold
/// of outstanding requests it is once; above it, once for each threshold that
/// the backlog has begun: twice from one request over the threshold on,
/// three times from one request over twice the threshold on, and so forth.
pub open spec fn backlog_multiplier(pending: nat) -> nat {
    if pending <= BACKLOG_THRESHOLD {
        1
    } else {
        ((pending - 1) / (BACKLOG_THRESHOLD as int) + 1) as nat
    }
}

/// The number of finished requests a tick looks at: its share times the
/// backlog multiplier, or the largest number there is where that does not
/// fit.
pub open spec fn tick_limit(callbacks_per_frame: usize, pending: nat) -> usize {
    if callbacks_per_frame * backlog_multiplier(pending) <= usize::MAX {
        (callbacks_per_frame * backlog_multiplier(pending)) as usize
    } else {
        usize::MAX
    }
}

/// Computes the limit of one tick.
pub fn compute_tick_limit(callbacks_per_frame: usize, pending: usize) -> (limit: usize)
    ensures
        limit == tick_limit(callbacks_per_frame, pending as nat),
        limit >= callbacks_per_frame,
{
    let multiplier: usize = if pending <= BACKLOG_THRESHOLD {
        1
    } else {
        (pending - 1) / BACKLOG_THRESHOLD + 1
    };
    assert(callbacks_per_frame * multiplier >= callbacks_per_frame) by (nonlinear_arith)
        requires
            multiplier >= 1,
    ;
    match callbacks_per_frame.checked_mul(multiplier) {
        Some(limit) => limit,
        None => usize::MAX,
    }
}

/// Everything the module holds between two calls of the host.
pub struct ModuleStorage<C> {
    /// The requests on their way.
    pub global_queue: Queue<C>,
    /// How the request ended whose callback is running; nothing between
    /// callbacks.
    pub current_response: Option<Outcome>,
    /// The request bodies the host has registered.
    pub bodies_handles: CellMap<Vec<u8>>,
    /// The JSON documents the host has registered.
    pub json_handles: CellMap<JsonValue>,
    /// The option sets the host has registered.
    pub options_handles: CellMap<RequestOptions>,
    /// The start-up settings.
    pub config: Config,
}

/// Whether `after` came from `before` by storing the request `request` for
/// the callback `on_complete`, under the handle `handle`.
pub open spec fn submitted<C>(
    before: QueueModel<C>,
    after: QueueModel<C>,
    request: RequestModel,
    on_complete: C,
    handle: Cell,
) -> bool {
    &&& after.waiting.len() > 0
    &&& after.waiting.last().request@ == request
    &&& (after, handle) == before.submit(after.waiting.last().request, on_complete)
}

impl<C> ModuleStorage<C> {
    /// Nothing but the queue differs between the two states.
    pub open spec fn same_but_queue(self, other: Self) -> bool {
        &&& self.current_response == other.current_response
        &&& self.bodies_handles == other.bodies_handles
        &&& self.json_handles == other.json_handles
        &&& self.options_handles == other.options_handles
        &&& self.config == other.config
    }

    /// Nothing but the response at hand differs between the two states.
    pub open spec fn same_but_response(self, other: Self) -> bool {
        &&& self.global_queue == other.global_queue
        &&& self.bodies_handles == other.bodies_handles
        &&& self.json_handles == other.json_handles
        &&& self.options_handles == other.options_handles
        &&& self.config == other.config
    }

    /// Nothing but the table of bodies differs between the two states.
    pub open spec fn same_but_bodies(self, other: Self) -> bool {
        &&& self.global_queue == other.global_queue
        &&& self.current_response == other.current_response
        &&& self.json_handles == other.json_handles
        &&& self.options_handles == other.options_handles
        &&& self.config == other.config
    }

    /// Nothing but the table of option sets differs between the two states.
    pub open spec fn same_but_options(self, other: Self) -> bool {
        &&& self.global_queue == other.global_queue
        &&& self.current_response == other.current_response
        &&& self.bodies_handles == other.bodies_handles
        &&& self.json_handles == other.json_handles
        &&& self.config == other.config
    }

    /// Nothing but the table of JSON documents differs between the two
    /// states.
    pub open spec fn same_but_json(self, other: Self) -> bool {
        &&& self.global_queue == other.global_queue
        &&& self.current_response == other.current_response
        &&& self.bodies_handles == other.bodies_handles
        &&& self.options_handles == other.options_handles
        &&& self.config == other.config
    }

    /// The module as it starts: empty tables, an empty queue, no response at
    /// hand.
    pub fn new(config: Config) -> (module: Self)
        ensures
            module.global_queue@ == QueueModel::<C>::empty(),
            module.current_response is None,
            module.bodies_handles@ == TableModel::<Vec<u8>>::empty(),
            module.json_handles@ == TableModel::<JsonValue>::empty(),
            module.options_handles@ == TableModel::<RequestOptions>::empty(),
            module.config == config,
    {
        ModuleStorage {
            global_queue: Queue::new(),
            current_response: None,
            bodies_handles: CellMap::new(),
            json_handles: CellMap::new(),
            options_handles: CellMap::new(),
            config,
        }
    }

    /// Shuts the module down: every outstanding request is cancelled, so that
    /// no callback is asked for from now on, whatever the workers still hand
    /// back.
    pub fn deinit(&mut self)
        ensures
            final(self).global_queue@ == old(self).global_queue@.cancel_all(),
            final(self).same_but_queue(*old(self)),
    {
        self.global_queue.cancel_all();
    }

    /// Registers a request body and returns its handle.
    pub fn body_from_string(&mut self, bytes: Vec<u8>) -> (handle: Cell)
        ensures
            (final(self).bodies_handles@, handle) == old(self).bodies_handles@.insert(bytes),
            final(self).same_but_bodies(*old(self)),
    {
        self.bodies_handles.insert_with_unique_id(bytes)
    }

    /// Destroys a request body. Requests that were submitted with it keep
    /// their own copy.
    pub fn destroy_body(&mut self, body: Cell) -> (done: Result<(), FfiError>)
        ensures
            final(self).bodies_handles@ == old(self).bodies_handles@.remove(body).0,
            final(self).same_but_bodies(*old(self)),
            done == (if old(self).bodies_handles@.is_live(body) {
                Ok::<(), FfiError>(())
            } else {
                Err::<(), FfiError>(FfiError::InvalidBodyHandle(body))
            }),
    {
        match self.bodies_handles.remove_with_id(body) {
            Some(_) => Ok(()),
            None => Err(FfiError::InvalidBodyHandle(body)),
        }
    }

    /// Registers an option set with the given time limit, in milliseconds,
    /// and no header, and returns its handle.
    pub fn create_default_options(&mut self, timeout: Option<u64>) -> (handle: Cell)
        ensures
            handle == old(self).options_handles@.peek(),
            final(self).options_handles@ == old(self).options_handles@.insert(
                final(self).options_handles@.entries[handle],
            ).0,
            final(self).options_handles@.entries[handle]@ == (OptionsModel {
                headers: Seq::empty(),
                timeout,
            }),
            final(self).same_but_options(*old(self)),
    {
        self.options_handles.insert_with_unique_id(RequestOptions::new(timeout))
    }

    /// Destroys an option set. Requests that were submitted with it keep
    /// their own copy.
    pub fn destroy_options(&mut self, options_handle: Cell) -> (done: Result<(), FfiError>)
        ensures
            final(self).options_handles@ == old(self).options_handles@.remove(options_handle).0,
            final(self).same_but_options(*old(self)),
            done == (if old(self).options_handles@.is_live(options_handle) {
                Ok::<(), FfiError>(())
            } else {
                Err::<(), FfiError>(FfiError::InvalidOptionsHandle(options_handle))
            }),
    {
        match self.options_handles.remove_with_id(options_handle) {
            Some(_) => Ok(()),
            None => Err(FfiError::InvalidOptionsHandle(options_handle)),
        }
    }

    /// Why a header cannot be added, if it cannot: the first of an unknown
    /// handle, a value that no header can have, a name that no header can
    /// have.
    pub open spec fn header_error(
        self,
        options_handle: Cell,
        name_valid: bool,
        value_valid: bool,
    ) -> Option<FfiError> {
        if !self.options_handles@.is_live(options_handle) {
            Some(FfiError::InvalidOptionsHandle(options_handle))
        } else if !value_valid {
            Some(FfiError::InvalidHeaderValue)
        } else if !name_valid {
            Some(FfiError::InvalidHeaderName)
        } else {
            None
        }
    }

    /// Adds a header to an option set, given what the HTTP client library
    /// said of the name and of the value. A name that is there already stays,
    /// and the new header comes after it.
    pub fn options_add_checked_header(
        &mut self,
        options_handle: Cell,
        name: String,
        value: String,
        name_valid: bool,
        value_valid: bool,
    ) -> (done: Result<(), FfiError>)
        ensures
            final(self).same_but_options(*old(self)),
            match done {
                Ok(_) => {
                    &&& old(self).header_error(options_handle, name_valid, value_valid) is None
                    &&& final(self).options_handles@ == old(self).options_handles@.replace(
                        options_handle,
                        final(self).options_handles@.entries[options_handle],
                    )
                    &&& final(self).options_handles@.entries[options_handle]@ == (OptionsModel {
                        headers: old(self).options_handles@.entries[options_handle]@.headers.push(
                            (name@, value@),
                        ),
                        timeout: old(self).options_handles@.entries[options_handle]@.timeout,
                    })
                },
                Err(error) => {
                    &&& old(self).header_error(options_handle, name_valid, value_valid) == Some(
                        error,
                    )
                    &&& final(self).options_handles@ == old(self).options_handles@
                },
            },
    {
        proof {
            if self.options_handles@.is_live(options_handle) {
                lemma_replace_same(self.options_handles@, options_handle);
            }
        }
        match self.options_handles.get_mut_with_id(options_handle) {
            None => Err(FfiError::InvalidOptionsHandle(options_handle)),
            Some(options) => {
                if !value_valid {
                    Err(FfiError::InvalidHeaderValue)
                } else if !name_valid {
                    Err(FfiError::InvalidHeaderName)
                } else {
                    let ghost before = options@;
                    options.headers.push((name, value));
                    proof {
                        assert(options@.headers =~= before.headers.push((name@, value@)));
                    }
                    Ok(())
                }
            },
        }
    }

    /// Adds a header to an option set. The HTTP client library decides
    /// whether the name and the value can be sent.
    pub fn options_add_header(&mut self, options_handle: Cell, name: &str, value: &str) -> (done:
        Result<(), FfiError>)
        ensures
            final(self).same_but_options(*old(self)),
            match done {
                Ok(_) => {
                    &&& old(self).header_error(
                        options_handle,
                        header_name_parses(name@),
                        header_value_parses(value@),
                    ) is None
                    &&& final(self).options_handles@ == old(self).options_handles@.replace(
                        options_handle,
                        final(self).options_handles@.entries[options_handle],
                    )
                    &&& final(self).options_handles@.entries[options_handle]@ == (OptionsModel {
                        headers: old(self).options_handles@.entries[options_handle]@.headers.push(
                            (name@, value@),
                        ),
                        timeout: old(self).options_handles@.entries[options_handle]@.timeout,
                    })
                },
                Err(error) => {
                    &&& old(self).header_error(
                        options_handle,
                        header_name_parses(name@),
                        header_value_parses(value@),
                    ) == Some(error)
                    &&& final(self).options_handles@ == old(self).options_handles@
                },
            },
    {
        let name_valid = header_name_is_valid(name);
        let value_valid = header_value_is_valid(value);
        self.options_add_checked_header(
            options_handle,
            name.to_owned(),
            value.to_owned(),
            name_valid,
            value_valid,
        )
    }
}

/// The code that the host knows an outcome by.
pub open spec fn response_state_of(outcome: Outcome) -> Cell {
    match outcome {
        Outcome::Cancelled => 1,
        Outcome::TransportError(_) => 2,
        Outcome::Success(_) => 3,
        Outcome::Timeout => 4,
    }
}

impl<C> ModuleStorage<C> {
    /// Why a submission is refused, if it is: the first of a code that stands
    /// for no method, a body handle that is neither registered nor "none",
    /// an options handle that is neither registered nor "none", a text that
    /// is no URL.
    pub open spec fn submission_error(
        self,
        uri_valid: bool,
        body_handle: Cell,
        request_type: Cell,
        options_handle: Cell,
    ) -> Option<FfiError> {
        if request_type_of(request_type) is None {
            Some(FfiError::InvalidRequestType(request_type))
        } else if !self.bodies_handles@.is_live(body_handle) && body_handle != NO_HANDLE {
            Some(FfiError::InvalidBodyHandle(body_handle))
        } else if !self.options_handles@.is_live(options_handle) && options_handle != NO_HANDLE {
            Some(FfiError::InvalidOptionsHandle(options_handle))
        } else if !uri_valid {
            Some(FfiError::InvalidUri)
        } else {
            None
        }
    }

    /// The request that a submission stands for: the body and the option set
    /// as they are registered at that moment, or empty ones for "none".
    pub open spec fn request_model(
        self,
        uri: Seq<char>,
        body_handle: Cell,
        request_type: Cell,
        options_handle: Cell,
    ) -> RequestModel {
        RequestModel {
            http_type: request_type_of(request_type)->Some_0,
            uri,
            body: if self.bodies_handles@.is_live(body_handle) {
                self.bodies_handles@.entries[body_handle]@
            } else {
                Seq::empty()
            },
            options: if self.options_handles@.is_live(options_handle) {
                self.options_handles@.entries[options_handle]@
            } else {
                OptionsModel { headers: Seq::empty(), timeout: None }
            },
        }
    }

    /// Submits a request, given what the HTTP client library said of the
    /// URL. On success the request is queued with its own copies of the body
    /// and of the option set, and the handle returned is the one by which it
    /// can be cancelled. On failure nothing is queued and nothing changes.
    pub fn request_checked(
        &mut self,
        uri: &str,
        uri_valid: bool,
        body_handle: Cell,
        request_type: Cell,
        options_handle: Cell,
        on_complete: C,
    ) -> (handle: Result<Cell, FfiError>)
        ensures
            final(self).same_but_queue(*old(self)),
            match handle {
                Ok(handle) => {
                    &&& old(self).submission_error(
                        uri_valid,
                        body_handle,
                        request_type,
                        options_handle,
                    ) is None
                    &&& submitted(
                        old(self).global_queue@,
                        final(self).global_queue@,
                        old(self).request_model(uri@, body_handle, request_type, options_handle),
                        on_complete,
                        handle,
                    )
                },
                Err(error) => {
                    &&& old(self).submission_error(
                        uri_valid,
                        body_handle,
                        request_type,
                        options_handle,
                    ) == Some(error)
                    &&& final(self).global_queue@ == old(self).global_queue@
                },
            },
    {
        let http_type = decode_request_type(request_type)?;
        let body: Vec<u8> = match self.bodies_handles.get_with_id(body_handle) {
            Some(body) => body.clone(),
            None => {
                if body_handle == NO_HANDLE {
                    Vec::new()
                } else {
                    return Err(FfiError::InvalidBodyHandle(body_handle));
                }
            },
        };
        let options = match self.options_handles.get_with_id(options_handle) {
            Some(options) => options.duplicate(),
            None => {
                if options_handle == NO_HANDLE {
                    RequestOptions::empty()
                } else {
                    return Err(FfiError::InvalidOptionsHandle(options_handle));
                }
            },
        };
        if !uri_valid {
            return Err(FfiError::InvalidUri);
        }
        let request = Request { http_type, uri: uri.to_owned(), body, options };
        let ghost model = old(self).request_model(uri@, body_handle, request_type, options_handle);
        proof {
            assert(request@.body =~= model.body);
            assert(request@ == model);
        }
        let handle = self.global_queue.send_request(request, on_complete);
        proof {
            let after = self.global_queue@;
            assert(after.waiting.last() == (crate::queue::Job { handle, request, on_complete }));
        }
        Ok(handle)
    }

    /// Submits a request. The HTTP client library decides whether the text
    /// is a URL.
    pub fn request(
        &mut self,
        uri: &str,
        body_handle: Cell,
        request_type: Cell,
        options_handle: Cell,
        on_complete: C,
    ) -> (handle: Result<Cell, FfiError>)
        ensures
            final(self).same_but_queue(*old(self)),
            match handle {
                Ok(handle) => {
                    &&& old(self).submission_error(
                        url_parses(uri@),
                        body_handle,
                        request_type,
                        options_handle,
                    ) is None
                    &&& submitted(
                        old(self).global_queue@,
                        final(self).global_queue@,
                        old(self).request_model(uri@, body_handle, request_type, options_handle),
                        on_complete,
                        handle,
                    )
                },
                Err(error) => {
                    &&& old(self).submission_error(
                        url_parses(uri@),
                        body_handle,
                        request_type,
                        options_handle,
                    ) == Some(error)
                    &&& final(self).global_queue@ == old(self).global_queue@
                },
            },
    {
        let uri_valid = uri_is_valid(uri);
        self.request_checked(uri, uri_valid, body_handle, request_type, options_handle, on_complete)
    }

    /// Cancels an outstanding request: its callback will not be asked for.
    pub fn cancel_request(&mut self, cancellation: Cell) -> (done: Result<(), FfiError>)
        ensures
            final(self).global_queue@ == old(self).global_queue@.cancel(cancellation).0,
            final(self).same_but_queue(*old(self)),
            done == (if old(self).global_queue@.is_pending(cancellation) {
                Ok::<(), FfiError>(())
            } else {
                Err::<(), FfiError>(FfiError::InvalidCancellation(cancellation))
            }),
    {
        if self.global_queue.cancel(cancellation) {
            Ok(())
        } else {
            Err(FfiError::InvalidCancellation(cancellation))
        }
    }

    /// Whether a request is still outstanding: 1 if it is, 0 if not.
    pub fn is_request_active(&self, request_id: Cell) -> (active: Cell)
        ensures
            active == (if self.global_queue@.is_pending(request_id) {
                1isize
            } else {
                0isize
            }),
    {
        if self.global_queue.is_pending(request_id) {
            1
        } else {
            0
        }
    }

    /// One tick of the host's loop: drains the queue, with a limit that
    /// grows with the backlog, and returns the callbacks to make now.
    pub fn process_request(&mut self) -> (deliveries: Vec<Delivery<C>>)
        ensures
            (final(self).global_queue@, deliveries@) == old(self).global_queue@.drain(
                tick_limit(
                    old(self).config.callbacks_per_frame,
                    old(self).global_queue@.pending_count(),
                ) as nat,
                old(self).config.microseconds_delay_between_attempts,
            ),
            final(self).same_but_queue(*old(self)),
    {
        let pending = self.global_queue.number_of_pending_requests();
        let limit = compute_tick_limit(self.config.callbacks_per_frame, pending);
        self.global_queue.execute_queue_with_limit(
            limit,
            self.config.microseconds_delay_between_attempts,
        )
    }

    /// Puts an outcome at hand for the callback that is about to run.
    pub fn begin_callback(&mut self, outcome: Outcome)
        ensures
            final(self).current_response == Some(outcome),
            final(self).same_but_response(*old(self)),
    {
        self.current_response = Some(outcome);
    }

    /// Takes the outcome away again once the callback has returned.
    pub fn end_callback(&mut self)
        ensures
            final(self).current_response is None,
            final(self).same_but_response(*old(self)),
    {
        self.current_response = None;
    }

    /// The code of the outcome at hand.
    pub fn get_response_state(&self) -> (state: Result<Cell, FfiError>)
        ensures
            state == (match self.current_response {
                Some(outcome) => Ok::<Cell, FfiError>(response_state_of(outcome)),
                None => Err::<Cell, FfiError>(FfiError::NoActiveResponse),
            }),
    {
        match &self.current_response {
            None => Err(FfiError::NoActiveResponse),
            Some(Outcome::Cancelled) => Ok(1),
            Some(Outcome::TransportError(_)) => Ok(2),
            Some(Outcome::Success(_)) => Ok(3),
            Some(Outcome::Timeout) => Ok(4),
        }
    }

    /// The text that says how the request at hand failed.
    pub fn get_error_description(&self) -> (text: Result<String, FfiError>)
        ensures
            match text {
                Ok(text) => match self.current_response {
                    Some(Outcome::Timeout) => text@ == "Request timeout"@,
                    Some(Outcome::TransportError(detail)) => text@ == detail@,
                    _ => false,
                },
                Err(error) => error == (match self.current_response {
                    None => FfiError::NoActiveResponse,
                    Some(Outcome::Cancelled) => FfiError::RequestCancelled,
                    _ => FfiError::NoErrorForResponse,
                }) && !(self.current_response matches Some(Outcome::Timeout))
                    && !(self.current_response matches Some(Outcome::TransportError(_))),
            },
    {
        match &self.current_response {
            None => Err(FfiError::NoActiveResponse),
            Some(Outcome::Cancelled) => Err(FfiError::RequestCancelled),
            Some(Outcome::Success(_)) => Err(FfiError::NoErrorForResponse),
            Some(Outcome::Timeout) => Ok("Request timeout".to_owned()),
            Some(Outcome::TransportError(detail)) => Ok(detail.clone()),
        }
    }

    /// The body of the response at hand, as text.
    pub fn get_response_body_string<'a>(&'a self) -> (text: Result<&'a str, FfiError>)
        ensures
            match text {
                Ok(text) => match self.current_response {
                    Some(Outcome::Success(response)) => valid_utf8(response.body@) && text@
                        == decode_utf8(response.body@),
                    _ => false,
                },
                Err(error) => error == (match self.current_response {
                    None => FfiError::NoActiveResponse,
                    Some(Outcome::Success(response)) => FfiError::BodyNotUtf8,
                    _ => FfiError::ResponseFailed,
                }) && (self.current_response matches Some(Outcome::Success(response))
                    ==> !valid_utf8(response.body@)),
            },
    {
        match &self.current_response {
            None => Err(FfiError::NoActiveResponse),
            Some(Outcome::Success(response)) => match utf8_text(response.body.as_slice()) {
                Some(text) => Ok(text),
                None => Err(FfiError::BodyNotUtf8),
            },
            Some(_) => Err(FfiError::ResponseFailed),
        }
    }

    /// The bytes of the body of the response at hand.
    pub fn get_response_body<'a>(&'a self) -> (body: Result<&'a Vec<u8>, FfiError>)
        ensures
            match body {
                Ok(body) => self.current_response matches Some(Outcome::Success(response))
                    && *body == response.body,
                Err(error) => error == (match self.current_response {
                    None => FfiError::NoActiveResponse,
                    _ => FfiError::ResponseFailed,
                }) && !(self.current_response matches Some(Outcome::Success(_))),
            },
    {
        match &self.current_response {
            None => Err(FfiError::NoActiveResponse),
            Some(Outcome::Success(response)) => Ok(&response.body),
            Some(_) => Err(FfiError::ResponseFailed),
        }
    }

    /// The status code of the response at hand.
    pub fn get_response_status_code(&self) -> (code: Result<Cell, FfiError>)
        ensures
            code == (match self.current_response {
                None => Err::<Cell, FfiError>(FfiError::NoActiveResponse),
                Some(Outcome::Success(response)) => Ok::<Cell, FfiError>(
                    response.status_code as Cell,
                ),
                _ => Err::<Cell, FfiError>(FfiError::ResponseFailed),
            }),
    {
        match &self.current_response {
            None => Err(FfiError::NoActiveResponse),
            Some(Outcome::Success(response)) => Ok(response.status_code as Cell),
            Some(_) => Err(FfiError::ResponseFailed),
        }
    }
}

} // verus!
