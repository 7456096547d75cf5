use vstd::prelude::*;

use crate::keys::Key;
use crate::packet::{decode_packet, osc_decoded, Arg, DecodeError, Packet};
use crate::table::EventKeyMap;

verus! {

/// Whether arguments `args` pass guard `guard`: no guard passes all; a
/// guard asks for exactly one argument, a string equal to it.
pub open spec fn guard_allows(guard: Option<Seq<char>>, args: Seq<Arg>) -> bool {
    match guard {
        None => true,
        Some(g) => args.len() == 1 && (args[0] matches Arg::Str(s) && s@ == g),
    }
}

/// The key that packet `p` taps under table `t`, if any.
pub open spec fn dispatch_result(t: Map<Seq<char>, (Key, Option<Seq<char>>)>, p: Packet) -> Option<
    Key,
> {
    match p {
        Packet::Bundle => None,
        Packet::Message(m) => if t.contains_key(m.addr@) && guard_allows(t[m.addr@].1, m.args@) {
            Some(t[m.addr@].0)
        } else {
            None
        },
    }
}

/// Decides which key, if any, a packet taps: the key mapped to the
/// message's address, where the mapping's guard lets the arguments pass.
/// Bundles tap nothing.
pub fn handle_packet(packet: &Packet, mappings: &EventKeyMap) -> (r: Option<Key>)
    ensures
        r == dispatch_result(mappings@, *packet),
{
    match packet {
        Packet::Bundle => None,
        Packet::Message(msg) => {
            let reaction = match mappings.get(&msg.addr) {
                Some(k) => k,
                None => {
                    return None;
                },
            };
            match &reaction.value {
                Some(v) => {
                    if msg.args.len() != 1 {
                        return None;
                    }
                    match &msg.args[0] {
                        Arg::Str(s) => {
                            if *s != *v {
                                return None;
                            }
                        },
                        Arg::Other => {
                            return None;
                        },
                    }
                },
                None => {},
            }
            Some(reaction.key)
        },
    }
}

/// An address that the table does not map taps nothing.
pub proof fn lemma_unknown_address_ignored(
    t: Map<Seq<char>, (Key, Option<Seq<char>>)>,
    p: Packet,
)
    requires
        p matches Packet::Message(m) && !t.contains_key(m.addr@),
    ensures
        dispatch_result(t, p) is None,
{
}

/// A bundle taps nothing, whatever the table.
pub proof fn lemma_bundle_ignored(t: Map<Seq<char>, (Key, Option<Seq<char>>)>)
    ensures
        dispatch_result(t, Packet::Bundle) is None,
{
}

/// The keys that the packets `ps` tap under table `t`, dispatched in order.
pub open spec fn taps(t: Map<Seq<char>, (Key, Option<Seq<char>>)>, ps: Seq<Packet>) -> Seq<Key>
    decreases ps.len(),
{
    if ps.len() == 0 {
        Seq::empty()
    } else {
        match dispatch_result(t, ps.last()) {
            Some(k) => taps(t, ps.drop_last()).push(k),
            None => taps(t, ps.drop_last()),
        }
    }
}

/// Dispatch keeps no state: a packet that taps a key taps it each time it
/// comes, whatever came before, and the same packet twice taps twice.
pub proof fn lemma_no_debounce(
    t: Map<Seq<char>, (Key, Option<Seq<char>>)>,
    ps: Seq<Packet>,
    p: Packet,
    k: Key,
)
    requires
        dispatch_result(t, p) == Some(k),
    ensures
        taps(t, ps.push(p)) == taps(t, ps).push(k),
        taps(t, seq![p, p]) == seq![k, k],
{
    assert(ps.push(p).drop_last() =~= ps);
    assert(seq![p, p].drop_last() =~= seq![p]);
    assert(seq![p].drop_last() =~= Seq::<Packet>::empty());
    assert(seq![p].last() == p);
    assert(taps(t, Seq::<Packet>::empty()) == Seq::<Key>::empty());
    assert(taps(t, seq![p]) =~= seq![k]);
}

/// What the server does with one received datagram.
#[derive(Debug)]
pub enum Step {
    /// Press and release the key.
    Tap(Key),
    /// Nothing: no mapping matched.
    Ignore,
    /// Stop serving: the datagram was malformed.
    Stop(DecodeError),
}

/// Decodes a received datagram and decides on it: tap the key it
/// triggers, ignore it, or stop serving when it is malformed.
pub fn on_datagram(mappings: &EventKeyMap, datagram: &[u8]) -> (r: Step)
    ensures
        match osc_decoded(datagram@) {
            None => r is Stop,
            Some(p) => match dispatch_result(mappings@, p) {
                Some(k) => r == Step::Tap(k),
                None => r is Ignore,
            },
        },
{
    match decode_packet(datagram) {
        Ok(p) => match handle_packet(&p, mappings) {
            Some(k) => Step::Tap(k),
            None => Step::Ignore,
        },
        Err(e) => Step::Stop(e),
    }
}

} // verus!
