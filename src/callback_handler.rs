//! The bridge between the discovery daemon's browse and resolve callbacks and
//! the listener that the application supplies.

use vstd::prelude::*;
use crate::handles::{resolver_dropped, Handles};
use crate::text::{c_text_of, decode_c_text, decode_text, decoded};

verus! {

/// Protocol family value that leaves the address family open.
pub const PROTO_UNSPEC: i32 = -1;

/// Lookup flag that skips the TXT record of a service: only its address is
/// looked up.
pub const LOOKUP_NO_TXT: u32 = 4;

/// A service instance found while browsing.
pub struct BrowsedServiceDescription {
    pub domain: String,
    pub name: String,
    pub service_type: String,
}

/// A resolved service instance.
pub struct ServiceDescription {
    pub address: String,
    pub domain: String,
    pub host_name: String,
    pub name: String,
    pub port: u16,
    pub service_type: String,
}

/// The listener that receives the services found and resolved.
pub trait SafeHandler {
    fn on_service_browsed(&self, service_description: BrowsedServiceDescription);

    fn on_service_resolved(&self, service_description: ServiceDescription);
}

/// What a client reference carries into every callback: the client that
/// issues further requests and the listener.
pub struct ClientReference<'a, T: SafeHandler> {
    pub client: u64,
    pub handler: &'a T,
}

/// The kinds of event that a service browser reports.
#[derive(PartialEq, Eq, Structural, Clone, Copy, Debug)]
pub enum BrowserEvent {
    New,
    Remove,
    CacheExhausted,
    AllForNow,
    Failure,
}

/// The kinds of event that a service resolver reports.
#[derive(PartialEq, Eq, Structural, Clone, Copy, Debug)]
pub enum ResolverEvent {
    Found,
    Failure,
}

/// A browse event, with the daemon's borrowed strings taken as bytes.
pub struct BrowseEvent {
    pub interface: i32,
    pub protocol: i32,
    pub event: BrowserEvent,
    pub name: Vec<u8>,
    pub service_type: Vec<u8>,
    pub domain: Vec<u8>,
}

/// A resolve event. `address` is the buffer that the address was formatted
/// into, up to its first NUL.
pub struct ResolveEvent {
    pub resolver: u64,
    pub interface: i32,
    pub protocol: i32,
    pub event: ResolverEvent,
    pub name: Vec<u8>,
    pub service_type: Vec<u8>,
    pub domain: Vec<u8>,
    pub host_name: Vec<u8>,
    pub address: Vec<u8>,
    pub port: u16,
}

/// A request to resolve one service instance.
pub struct ResolveRequest {
    pub interface: i32,
    pub protocol: i32,
    pub name: String,
    pub service_type: String,
    pub domain: String,
    pub address_protocol: i32,
    pub flags: u32,
}

/// What the bridge makes of a browse event.
pub enum BrowseOutcome {
    /// A new service: the listener is told, then the service is resolved.
    Discovered(BrowsedServiceDescription, ResolveRequest),
    /// A new service whose text does not decode: the event is dropped.
    Undecodable,
    /// Any other event: observed only.
    Observed(BrowserEvent),
}

/// What the bridge makes of a resolve event.
pub enum ResolveOutcome {
    Resolved(ServiceDescription),
    Undecodable,
    Failed,
}

/// The outcome of a browse event, over the decoded text of its fields.
pub open spec fn browse_outcome_matches(e: BrowseEvent, r: BrowseOutcome) -> bool {
    if e.event != BrowserEvent::New {
        r == BrowseOutcome::Observed(e.event)
    } else if decoded(e.name@) is Some && decoded(e.service_type@) is Some
        && decoded(e.domain@) is Some {
        match r {
            BrowseOutcome::Discovered(d, q) => {
                &&& decoded(e.name@) == Some(d.name@)
                &&& decoded(e.service_type@) == Some(d.service_type@)
                &&& decoded(e.domain@) == Some(d.domain@)
                &&& q.interface == e.interface
                &&& q.protocol == e.protocol
                &&& q.name@ == d.name@
                &&& q.service_type@ == d.service_type@
                &&& q.domain@ == d.domain@
                &&& q.address_protocol == PROTO_UNSPEC
                &&& q.flags == LOOKUP_NO_TXT
            },
            _ => false,
        }
    } else {
        r is Undecodable
    }
}

/// The outcome of a resolve event, over the decoded text of its fields.
pub open spec fn resolve_outcome_matches(e: ResolveEvent, r: ResolveOutcome) -> bool {
    if e.event == ResolverEvent::Failure {
        r is Failed
    } else {
        let a = c_text_of(e.address@);
        if decoded(a) is Some && decoded(e.host_name@) is Some && decoded(e.name@) is Some
            && decoded(e.service_type@) is Some && decoded(e.domain@) is Some {
            match r {
                ResolveOutcome::Resolved(s) => {
                    &&& decoded(a) == Some(s.address@)
                    &&& decoded(e.host_name@) == Some(s.host_name@)
                    &&& decoded(e.name@) == Some(s.name@)
                    &&& decoded(e.service_type@) == Some(s.service_type@)
                    &&& decoded(e.domain@) == Some(s.domain@)
                    &&& s.port == e.port
                },
                _ => false,
            }
        } else {
            r is Undecodable
        }
    }
}

pub struct CallbackHandler;

impl CallbackHandler {
    /// Client state changes need no decision here.
    #[allow(unused_variables)]
    pub fn client_callback(client: u64, state: i32) {
    }

    /// Decides what a browse event leads to: a new service whose text
    /// decodes is described and resolved on the interface and protocol it
    /// was found on, without its TXT record.
    pub fn browse_callback(event: &BrowseEvent) -> (r: BrowseOutcome)
        ensures
            browse_outcome_matches(*event, r),
    {
        if event.event != BrowserEvent::New {
            return BrowseOutcome::Observed(event.event);
        }
        let name = decode_text(event.name.as_slice());
        let service_type = decode_text(event.service_type.as_slice());
        let domain = decode_text(event.domain.as_slice());
        match (name, service_type, domain) {
            (Some(name), Some(service_type), Some(domain)) => {
                let request = ResolveRequest {
                    interface: event.interface,
                    protocol: event.protocol,
                    name: name.clone(),
                    service_type: service_type.clone(),
                    domain: domain.clone(),
                    address_protocol: PROTO_UNSPEC,
                    flags: LOOKUP_NO_TXT,
                };
                BrowseOutcome::Discovered(
                    BrowsedServiceDescription { domain, name, service_type },
                    request,
                )
            },
            _ => BrowseOutcome::Undecodable,
        }
    }

    /// Decides what a resolve event leads to: a found service whose text
    /// decodes is described with the port it was found on.
    pub fn resolve_callback(event: &ResolveEvent) -> (r: ResolveOutcome)
        ensures
            resolve_outcome_matches(*event, r),
    {
        if event.event == ResolverEvent::Failure {
            return ResolveOutcome::Failed;
        }
        let address = decode_c_text(event.address.as_slice());
        let host_name = decode_text(event.host_name.as_slice());
        let name = decode_text(event.name.as_slice());
        let service_type = decode_text(event.service_type.as_slice());
        let domain = decode_text(event.domain.as_slice());
        match (address, host_name, name, service_type, domain) {
            (Some(address), Some(host_name), Some(name), Some(service_type), Some(domain)) => {
                ResolveOutcome::Resolved(
                    ServiceDescription {
                        address,
                        domain,
                        host_name,
                        name,
                        port: event.port,
                        service_type,
                    },
                )
            },
            _ => ResolveOutcome::Undecodable,
        }
    }

    /// Delivers a browse event: a new service whose text decodes is handed
    /// to the listener, and the request that resolves it is returned, for the
    /// caller to issue with the client of `reference`.
    pub fn handle_browse<T: SafeHandler>(reference: &ClientReference<T>, event: &BrowseEvent) -> (r:
        Option<ResolveRequest>)
        ensures
            exists|o: BrowseOutcome|
                #![trigger browse_outcome_matches(*event, o)]
                browse_outcome_matches(*event, o) && match o {
                    BrowseOutcome::Discovered(_, q) => r == Some(q),
                    _ => r is None,
                },
    {
        let o = CallbackHandler::browse_callback(event);
        let ghost og = o;
        match o {
            BrowseOutcome::Discovered(service, request) => {
                reference.handler.on_service_browsed(service);
                assert(browse_outcome_matches(*event, og));
                Some(request)
            },
            _ => None,
        }
    }

    /// Delivers a resolve event: a found service whose text decodes is
    /// handed to the listener. Whatever the outcome, the resolver is done
    /// with: it is dropped from `handles`, and the result tells whether the
    /// caller is to free it now.
    pub fn handle_resolve<T: SafeHandler>(
        handles: &mut Handles,
        reference: &ClientReference<T>,
        event: &ResolveEvent,
    ) -> (release: bool)
        requires
            old(handles).wf(),
        ensures
            final(handles).wf(),
            resolver_dropped(old(handles)@, final(handles)@, event.resolver, release),
    {
        match CallbackHandler::resolve_callback(event) {
            ResolveOutcome::Resolved(service) => reference.handler.on_service_resolved(service),
            _ => {},
        }
        handles.resolver_finished(event.resolver)
    }
}

} // verus!
