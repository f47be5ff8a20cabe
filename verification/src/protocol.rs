//! Wire formats shared by the two device protocols.
//!
//! The outlet answers a command with a single state byte (1 meaning "on");
//! a `getValue` query and every sensor datagram carry a 32-bit value as four
//! big-endian bytes. Encoding and decoding of both formats is verified here.

use vstd::arithmetic::div_mod::lemma_div_denominator;
use vstd::arithmetic::div_mod::lemma_fundamental_div_mod;
use vstd::arithmetic::div_mod::lemma_mod_bound;
use vstd::prelude::*;

verus! {

/// The 32-bit value held in four big-endian bytes.
pub open spec fn be_u32_of(b: Seq<u8>) -> nat
    recommends
        b.len() == 4,
{
    (b[0] as nat) * 0x1000000 + (b[1] as nat) * 0x10000 + (b[2] as nat) * 0x100 + (b[3] as nat)
}

/// The four big-endian bytes of a 32-bit value.
pub open spec fn be_bytes_of(v: u32) -> Seq<u8> {
    seq![
        (v / 0x1000000) as u8,
        ((v / 0x10000) % 0x100) as u8,
        ((v / 0x100) % 0x100) as u8,
        (v % 0x100) as u8,
    ]
}

/// Reads the 32-bit value carried by a four-byte big-endian payload.
pub fn decode_be_u32(buf: &[u8]) -> (r: u32)
    requires
        buf@.len() == 4,
    ensures
        r == be_u32_of(buf@),
{
    let b0 = buf[0] as u32;
    let b1 = buf[1] as u32;
    let b2 = buf[2] as u32;
    let b3 = buf[3] as u32;
    b0 * 0x1000000 + b1 * 0x10000 + b2 * 0x100 + b3
}

/// Writes a 32-bit value as its four big-endian bytes.
pub fn encode_be_u32(v: u32) -> (r: Vec<u8>)
    ensures
        r@ == be_bytes_of(v),
        r@.len() == 4,
{
    let mut r: Vec<u8> = Vec::new();
    r.push((v / 0x1000000) as u8);
    r.push(((v / 0x10000) % 0x100) as u8);
    r.push(((v / 0x100) % 0x100) as u8);
    r.push((v % 0x100) as u8);
    proof {
        assert(r@ =~= be_bytes_of(v));
    }
    r
}

/// Law: the four-byte big-endian codec round-trips: the bytes written for a
/// value decode to that value again.
pub proof fn lemma_be_u32_round_trip(v: u32)
    ensures
        be_u32_of(be_bytes_of(v)) == v,
{
    let x = v as int;
    lemma_fundamental_div_mod(x, 0x100);
    lemma_fundamental_div_mod(x / 0x100, 0x100);
    lemma_fundamental_div_mod(x / 0x10000, 0x100);
    lemma_div_denominator(x, 0x100, 0x100);
    lemma_div_denominator(x, 0x10000, 0x100);
    lemma_mod_bound(x, 0x100);
    lemma_mod_bound(x / 0x100, 0x100);
    lemma_mod_bound(x / 0x10000, 0x100);
    assert(x / 0x1000000 < 0x100) by (nonlinear_arith)
        requires
            0 <= x < 0x100000000,
    ;
}

/// The state an outlet reports through a one-byte answer: 1 means "on",
/// every other byte means "off".
pub open spec fn state_of_byte(b: u8) -> bool {
    b == 1
}

/// The byte an outlet endpoint answers for a given state.
pub open spec fn byte_of_state(on: bool) -> u8 {
    if on {
        1
    } else {
        0
    }
}

/// Reads the outlet state out of a one-byte answer.
pub fn decode_state(buf: &[u8]) -> (r: bool)
    requires
        buf@.len() >= 1,
    ensures
        r == state_of_byte(buf@[0]),
{
    buf[0] == 1
}

/// Writes the one-byte answer for an outlet state.
pub fn encode_state(on: bool) -> (r: u8)
    ensures
        r == byte_of_state(on),
{
    if on {
        1
    } else {
        0
    }
}

/// Law: the state-byte codec round-trips, and the byte for the toggled state
/// decodes to the negation of the state a prior byte decoded to.
pub proof fn lemma_state_byte_round_trip(on: bool)
    ensures
        state_of_byte(byte_of_state(on)) == on,
        state_of_byte(byte_of_state(!on)) == !state_of_byte(byte_of_state(on)),
{
}

/// The state machine of a conforming outlet endpoint: off or on, toggled
/// only by a switch exchange. The endpoint itself lives on the far side of
/// the wire, outside this crate; this model states what the protocol owes
/// whenever the endpoint conforms to it.
pub struct OutletEndpointModel {
    pub on: bool,
}

impl OutletEndpointModel {
    /// The answer byte a state query is owed.
    pub open spec fn state_answer(self) -> u8 {
        byte_of_state(self.on)
    }

    /// The endpoint after a switch exchange, together with the answer byte
    /// the exchange is owed: the new, toggled state.
    pub open spec fn switch_step(self) -> (OutletEndpointModel, u8) {
        (OutletEndpointModel { on: !self.on }, byte_of_state(!self.on))
    }
}

/// Law: against a conforming endpoint, a switch exchange toggles what a
/// subsequent state query decodes to, relative to a query made before; and
/// the switch answer itself already decodes to that new state.
pub proof fn lemma_switch_toggles_reported_state(m: OutletEndpointModel)
    ensures
        state_of_byte(m.switch_step().0.state_answer()) == !state_of_byte(m.state_answer()),
        state_of_byte(m.switch_step().1) == state_of_byte(m.switch_step().0.state_answer()),
{
}

/// The commands an outlet understands, one request per connection.
pub enum OutletRequest {
    Switch,
    GetState,
    GetValue,
}

impl OutletRequest {
    /// The line sent over the wire for this command.
    pub open spec fn line_spec(self) -> Seq<char> {
        match self {
            OutletRequest::Switch => "switch\n"@,
            OutletRequest::GetState => "getState\n"@,
            OutletRequest::GetValue => "getValue\n"@,
        }
    }

    /// How many answer bytes this command is owed: one state byte for
    /// `Switch` and `GetState`, a four-byte big-endian value for `GetValue`.
    pub open spec fn answer_len_spec(self) -> nat {
        match self {
            OutletRequest::Switch => 1,
            OutletRequest::GetState => 1,
            OutletRequest::GetValue => 4,
        }
    }

    /// Frames this command as the newline-terminated request line.
    pub fn line(&self) -> (r: &'static str)
        ensures
            r@ == self.line_spec(),
    {
        match self {
            OutletRequest::Switch => "switch\n",
            OutletRequest::GetState => "getState\n",
            OutletRequest::GetValue => "getValue\n",
        }
    }

    /// How many answer bytes to read back for this command.
    pub fn answer_len(&self) -> (r: usize)
        ensures
            r == self.answer_len_spec(),
    {
        match self {
            OutletRequest::Switch => 1,
            OutletRequest::GetState => 1,
            OutletRequest::GetValue => 4,
        }
    }
}

} // verus!
