use vstd::prelude::*;

verus! {

/// An OSC argument, as far as dispatch reads it: a string, or anything else.
#[derive(Debug)]
pub enum Arg {
    Str(String),
    Other,
}

/// An OSC message: its address and its arguments in order.
#[derive(Debug)]
pub struct Message {
    pub addr: String,
    pub args: Vec<Arg>,
}

/// A decoded OSC packet. A bundle's contents are never read.
#[derive(Debug)]
pub enum Packet {
    Message(Message),
    Bundle,
}

/// A datagram that is no well-formed OSC packet.
#[derive(Debug)]
pub struct DecodeError {
    pub message: String,
}

#[verifier::external_type_specification]
#[verifier::external_body]
pub struct ExOscError(rosc::OscError);

/// The packet that an OSC 1.0 datagram holds, if it holds one.
pub uninterp spec fn osc_decoded(b: Seq<u8>) -> Option<Packet>;

/// Relies on rosc::decoder::decode_udp: it decodes the datagram's bytes
/// alone, and fails exactly when they hold no packet. Its string arguments
/// are kept, the others only marked.
#[verifier::external_body]
fn decode_udp(buf: &[u8]) -> (r: Result<Packet, rosc::OscError>)
    ensures
        r is Ok <==> osc_decoded(buf@) is Some,
        r matches Ok(p) ==> osc_decoded(buf@) == Some(p),
{
    rosc::decoder::decode_udp(buf).map(|(_, p)| match p {
        rosc::OscPacket::Message(m) => Packet::Message(Message {
            addr: m.addr,
            args: m.args.into_iter().map(|a| match a {
                rosc::OscType::String(s) => Arg::Str(s),
                _ => Arg::Other,
            }).collect(),
        }),
        rosc::OscPacket::Bundle(_) => Packet::Bundle,
    })
}

/// Relies on rosc's Display for OscError: a readable account of the error.
#[verifier::external_body]
fn osc_error_text(e: &rosc::OscError) -> String {
    e.to_string()
}

/// Decodes one datagram into a packet.
pub fn decode_packet(buf: &[u8]) -> (r: Result<Packet, DecodeError>)
    ensures
        r is Ok <==> osc_decoded(buf@) is Some,
        r matches Ok(p) ==> osc_decoded(buf@) == Some(p),
{
    match decode_udp(buf) {
        Ok(p) => Ok(p),
        Err(e) => Err(DecodeError { message: osc_error_text(&e) }),
    }
}

} // verus!
