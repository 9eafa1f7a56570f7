//! The event dispatcher and announcement builder.
//!
//! The dispatcher is the single consumer of inbound transport events and the
//! sole mutator of the site directory: a verified registration updates the
//! directory, a verified notification leaves it untouched, and a rejected
//! blob — or an event of an unexpected transport category — is reported as
//! an error and changes nothing. The announcement builder produces the
//! bytes that the scheduler hands to the outbound channel.

use vstd::prelude::*;

use crate::crypto::Identity;
use crate::messages::{spec_signed_message, CodecError, Message, Payload, PayloadView};
use crate::site_messages::SiteRegistration;
use crate::sites::{spec_registered, Sites};
use crate::wire::{spec_decode_envelope, spec_encode_envelope};

verus! {

/// An inbound transport event as the dispatcher sees it: the bytes of an
/// application (gossip) broadcast, or an event of another transport
/// category that this protocol does not subscribe to.
pub enum NetworkEvent {
    GossipMessage { bytes: Vec<u8> },
    SyncMessage,
}

/// Why the dispatcher dropped an inbound event. The first two mirror the
/// codec's verdicts; the third marks an event outside the application
/// message category, which is survivable and must not abort the process.
#[derive(Clone, Copy, Debug, PartialEq, Eq, Structural)]
pub enum DispatchError {
    DecodeError,
    SignatureError,
    TransportCategoryError,
}

/// Routes a verified message: a registration upserts its site name into the
/// directory — with `register`'s full bookkeeping: map insert, record count
/// growing exactly on a new name, clock advance — while a notification is
/// inert and leaves the directory exactly as it was.
pub fn handle_message(message: &Message, sites: &mut Sites)
    requires
        old(sites).wf(),
    ensures
        final(sites).wf(),
        message@.payload matches PayloadView::SiteRegistration { site_name } ==> spec_registered(
            *old(sites),
            *final(sites),
            site_name,
        ),
        message@.payload matches PayloadView::SiteNotification { .. } ==> *final(sites) == *old(sites),
{
    match message.payload() {
        Payload::SiteRegistration(registration) => {
            sites.register(registration.site_name.clone());
        },
        Payload::SiteNotification(_) => {},
    }
}

/// Consumes one inbound transport event. Gossip bytes go through the codec,
/// and succeed exactly when they are the canonical encoding of an authentic
/// envelope: that envelope is then routed to the directory and returned for
/// display. A rejected blob yields the codec's error and leaves the
/// directory unchanged. An event of any other transport category yields
/// `TransportCategoryError` — also recoverable, also leaving the directory
/// unchanged — rather than aborting; that error never occurs for a gossip
/// event.
pub fn handle_network_event(event: NetworkEvent, sites: &mut Sites) -> (r: Result<
    Message,
    DispatchError,
>)
    requires
        old(sites).wf(),
    ensures
        final(sites).wf(),
        event matches NetworkEvent::SyncMessage ==> r == Err::<Message, DispatchError>(
            DispatchError::TransportCategoryError,
        ) && *final(sites) == *old(sites),
        event matches NetworkEvent::GossipMessage { bytes } ==> {
            &&& (r is Ok <==> (spec_decode_envelope(bytes@) matches Some(mv) && mv.authentic()))
            &&& (r matches Ok(m) ==> {
                &&& spec_decode_envelope(bytes@) == Some(m@)
                &&& bytes@ == spec_encode_envelope(m@)
                &&& m@.wf()
                &&& m@.authentic()
                &&& (m@.payload matches PayloadView::SiteRegistration { site_name }
                    ==> spec_registered(*old(sites), *final(sites), site_name))
                &&& (m@.payload matches PayloadView::SiteNotification { .. } ==> *final(sites)
                    == *old(sites))
            })
            &&& (r is Err ==> *final(sites) == *old(sites))
            &&& (r == Err::<Message, DispatchError>(DispatchError::DecodeError)
                <==> spec_decode_envelope(bytes@) is None)
            &&& (r == Err::<Message, DispatchError>(DispatchError::SignatureError) <==> (
            spec_decode_envelope(bytes@) matches Some(mv) && !mv.authentic()))
        },
{
    match event {
        NetworkEvent::SyncMessage => Err(DispatchError::TransportCategoryError),
        NetworkEvent::GossipMessage { bytes } => {
            match Message::decode_and_verify(bytes.as_slice()) {
                Ok(message) => {
                    handle_message(&message, sites);
                    Ok(message)
                },
                Err(CodecError::DecodeError) => Err(DispatchError::DecodeError),
                Err(CodecError::SignatureError) => Err(DispatchError::SignatureError),
            }
        },
    }
}

/// Builds the bytes of one announcement: a signed `SiteRegistration` for
/// the locally configured site name, ready for the outbound channel.
pub fn announce_site(identity: &Identity, name: &str) -> (r: Vec<u8>)
    requires
        identity.wf(),
    ensures
        exists|id: u32|
            r@ == spec_encode_envelope(
                #[trigger] spec_signed_message(
                    identity@,
                    PayloadView::SiteRegistration { site_name: name@ },
                    id,
                ),
            ),
        forall|id: u32|
            (#[trigger] spec_signed_message(
                identity@,
                PayloadView::SiteRegistration { site_name: name@ },
                id,
            )).wf(),
        spec_signed_message(
            identity@,
            PayloadView::SiteRegistration { site_name: name@ },
            0,
        ).authentic(),
{
    Message::sign_and_encode(
        identity,
        Payload::SiteRegistration(SiteRegistration { site_name: name.to_owned() }),
    )
}

/// The locally configured site name: the explicit override where one was
/// given, else the machine's host name. Reading the command line and the
/// host name is the caller's concern; the choice between them is made here.
pub fn get_site_name(arg: Option<String>, hostname: String) -> (r: String)
    ensures
        arg matches Some(name) ==> r == name,
        arg is None ==> r == hostname,
{
    match arg {
        Some(name) => name,
        None => hostname,
    }
}

} // verus!
