use crate::codec::{be32_seq, encode_spec, make_frame, wf_message, MAX_FRAME_LEN};
use crate::message::MessageType;
use crate::registry::{strings_set, Registry};
use vstd::prelude::*;

verus! {

/// One thing that can happen on a hub connection: it was accepted, one whole
/// frame payload arrived, or the connection ended (an error or end of stream
/// while reading).
pub enum HubEvent {
    Accepted(String),
    Frame(String, Vec<u8>),
    Closed(String),
}

/// What the hub must do next. A `Deliver` hands one shared frame and the
/// recipients to write it to; a failed write is logged and skipped, and
/// delivery to the remaining recipients goes on. A `Disconnect` drops the
/// named peer's connection.
pub enum HubAction {
    Idle,
    Deliver(Vec<String>, Vec<u8>),
    Disconnect(String),
}

/// Advances the per-connection state machine of the hub by one event.
///
/// An accepted peer is registered; a closed peer is unregistered. A frame
/// that decodes is fanned out, re-encoded once, to every other registered
/// peer — never to its sender — and leaves the registry unchanged, whatever
/// becomes of the individual writes. A frame that does not decode is stream
/// corruption: that one connection is dropped and unregistered, and no other
/// peer is touched.
pub fn hub_step(reg: &mut Registry, event: HubEvent) -> (act: HubAction)
    requires
        old(reg).inv(),
        event matches HubEvent::Frame(_, p) ==> p@.len() <= MAX_FRAME_LEN,
    ensures
        final (reg).inv(),
        event matches HubEvent::Accepted(id) ==> final (reg)@ == old(reg)@.insert(id@) && act
            is Idle,
        event matches HubEvent::Closed(id) ==> final (reg)@ == old(reg)@.remove(id@) && act
            is Idle,
        event matches HubEvent::Frame(id, p) ==> {
            if exists|m: crate::message::MessageView| wf_message(m) && encode_spec(m) == p@ {
                &&& final (reg)@ == old(reg)@
                &&& act matches HubAction::Deliver(targets, frame)
                &&& frame@ == be32_seq(p@.len() as u32) + p@
                &&& strings_set(targets@) == old(reg)@.remove(id@)
                &&& forall|i: int| 0 <= i < targets@.len() ==> targets@[i]@ != id@
                &&& forall|i: int, j: int|
                    0 <= i < j < targets@.len() ==> targets@[i]@ != targets@[j]@
            } else {
                &&& final (reg)@ == old(reg)@.remove(id@)
                &&& act matches HubAction::Disconnect(dropped) && dropped@ == id@
            }
        },
{
    match event {
        HubEvent::Accepted(id) => {
            reg.register(id);
            HubAction::Idle
        },
        HubEvent::Closed(id) => {
            reg.unregister(id.as_str());
            HubAction::Idle
        },
        HubEvent::Frame(id, p) => {
            match MessageType::deserialize_message(p.as_slice()) {
                Ok(m) => {
                    let targets = reg.broadcast_targets(id.as_str());
                    let frame = make_frame(&m);
                    HubAction::Deliver(targets, frame)
                },
                Err(_) => {
                    reg.unregister(id.as_str());
                    HubAction::Disconnect(id)
                },
            }
        },
    }
}

} // verus!
