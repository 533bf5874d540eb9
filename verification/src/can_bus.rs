use vstd::prelude::*;

use crate::io_traits::{
    be_bytes, be_value, byte_pow, lemma_be_bytes_of_be_value, lemma_be_value_of_be_bytes,
};

verus! {

/// The node id of this device on the CAN bus.
pub const VL_NODE_ID: u8 = 0x69;

/// The 29-bit extended id of a CAN frame, packed from its lowest bit up:
/// 3 bits of priority, 6 of message type, 8 of node id, 12 of message id.
#[derive(Debug, Clone, Copy, PartialEq, Eq, Structural)]
pub struct CanBusExtendedId {
    priority: u8,
    message_type: u8,
    node_id: u8,
    message_id: u16,
}

/// The packed value of the four fields.
pub open spec fn spec_id_value(priority: u8, message_type: u8, node_id: u8, message_id: u16) -> u32 {
    ((priority as u32) | ((message_type as u32) << 3u32) | ((node_id as u32) << 9u32) | ((
    message_id as u32) << 17u32)) as u32
}

/// The layout of the extended id: priority in bits 0 to 2, message type in
/// bits 3 to 8, node id in bits 9 to 16, message id in bits 17 to 28, and
/// nothing above bit 28.
pub proof fn lemma_id_pack(p: u8, t: u8, n: u8, m: u16)
    requires
        p < 8,
        t < 64,
        m < 4096,
    ensures
        spec_id_value(p, t, n, m) < 0x2000_0000,
        spec_id_value(p, t, n, m) & 7 == p as u32,
        (spec_id_value(p, t, n, m) >> 3u32) & 63 == t as u32,
        (spec_id_value(p, t, n, m) >> 9u32) & 255 == n as u32,
        (spec_id_value(p, t, n, m) >> 17u32) & 4095 == m as u32,
{
    let pv = p as u32;
    let tv = t as u32;
    let nv = n as u32;
    let mv = m as u32;
    assert(pv < 8 && tv < 64 && nv < 256 && mv < 4096 ==> {
        let v = pv | (tv << 3u32) | (nv << 9u32) | (mv << 17u32);
        &&& v < 0x2000_0000
        &&& v & 7 == pv
        &&& (v >> 3u32) & 63 == tv
        &&& (v >> 9u32) & 255 == nv
        &&& (v >> 17u32) & 4095 == mv
    }) by (bit_vector);
}

proof fn lemma_id_unpack(v: u32)
    requires
        v < 0x2000_0000,
    ensures
        (v & 7) | (((v >> 3u32) & 63) << 3u32) | (((v >> 9u32) & 255) << 9u32) | (((v >> 17u32)
            & 4095) << 17u32) == v,
        v & 7 < 8,
        (v >> 3u32) & 63 < 64,
        (v >> 9u32) & 255 < 256,
        (v >> 17u32) & 4095 < 4096,
{
    assert(v < 0x2000_0000 ==> (v & 7) | (((v >> 3u32) & 63) << 3u32) | (((v >> 9u32) & 255)
        << 9u32) | (((v >> 17u32) & 4095) << 17u32) == v) by (bit_vector);
    assert(v & 7 < 8) by (bit_vector);
    assert((v >> 3u32) & 63 < 64) by (bit_vector);
    assert((v >> 9u32) & 255 < 256) by (bit_vector);
    assert((v >> 17u32) & 4095 < 4096) by (bit_vector);
}

impl CanBusExtendedId {
    pub closed spec fn spec_priority(&self) -> u8 {
        self.priority
    }

    pub closed spec fn spec_message_type(&self) -> u8 {
        self.message_type
    }

    pub closed spec fn spec_node_id(&self) -> u8 {
        self.node_id
    }

    pub closed spec fn spec_message_id(&self) -> u16 {
        self.message_id
    }

    /// Each field fits its width.
    pub closed spec fn wf(&self) -> bool {
        self.priority < 8 && self.message_type < 64 && self.message_id < 4096
    }

    /// The packed 29-bit value.
    pub open spec fn spec_value(&self) -> u32 {
        spec_id_value(
            self.spec_priority(),
            self.spec_message_type(),
            self.spec_node_id(),
            self.spec_message_id(),
        )
    }

    pub fn new(priority: u8, message_type: u8, node_id: u8, message_id: u16) -> (r: Self)
        requires
            priority < 8,
            message_type < 64,
            message_id < 4096,
        ensures
            r.wf(),
            r.spec_priority() == priority,
            r.spec_message_type() == message_type,
            r.spec_node_id() == node_id,
            r.spec_message_id() == message_id,
    {
        Self { priority, message_type, node_id, message_id }
    }

    pub fn priority(&self) -> (r: u8)
        ensures
            r == self.spec_priority(),
    {
        self.priority
    }

    pub fn message_type(&self) -> (r: u8)
        ensures
            r == self.spec_message_type(),
    {
        self.message_type
    }

    pub fn node_id(&self) -> (r: u8)
        ensures
            r == self.spec_node_id(),
    {
        self.node_id
    }

    pub fn message_id(&self) -> (r: u16)
        ensures
            r == self.spec_message_id(),
    {
        self.message_id
    }

    /// The raw id that goes on the bus.
    pub fn value(&self) -> (r: u32)
        requires
            self.wf(),
        ensures
            r == self.spec_value(),
            r < 0x2000_0000,
    {
        proof {
            lemma_id_pack(self.priority, self.message_type, self.node_id, self.message_id);
        }
        (self.priority as u32) | ((self.message_type as u32) << 3u32) | ((self.node_id as u32)
            << 9u32) | ((self.message_id as u32) << 17u32)
    }

    /// The id that a raw 29-bit id packs.
    pub fn from_value(v: u32) -> (r: Self)
        requires
            v < 0x2000_0000,
        ensures
            r.wf(),
            r.spec_value() == v,
    {
        proof {
            lemma_id_unpack(v);
        }
        let r = Self {
            priority: (v & 7) as u8,
            message_type: ((v >> 3u32) & 63) as u8,
            node_id: ((v >> 9u32) & 255) as u8,
            message_id: ((v >> 17u32) & 4095) as u16,
        };
        assert(r.spec_value() == v);
        r
    }
}

/// An id unpacks to the fields it was packed from.
pub proof fn lemma_id_round_trip(id: CanBusExtendedId)
    requires
        id.wf(),
    ensures
        id.spec_value() < 0x2000_0000,
        id.spec_value() & 7 == id.spec_priority() as u32,
        (id.spec_value() >> 3u32) & 63 == id.spec_message_type() as u32,
        (id.spec_value() >> 9u32) & 255 == id.spec_node_id() as u32,
        (id.spec_value() >> 17u32) & 4095 == id.spec_message_id() as u32,
{
    lemma_id_pack(
        id.spec_priority(),
        id.spec_message_type(),
        id.spec_node_id(),
        id.spec_message_id(),
    );
}

/// Appends the `n` lowest bytes of `v`, most significant first.
fn push_be_bytes(v: u64, n: usize, out: &mut Vec<u8>)
    ensures
        final(out)@ == old(out)@ + be_bytes(v as nat, n as nat),
    decreases n,
{
    if n > 0 {
        push_be_bytes(v / 256, n - 1, out);
        out.push((v % 256) as u8);
        assert(final(out)@ =~= old(out)@ + be_bytes(v as nat, n as nat));
    } else {
        assert(out@ =~= old(out)@ + be_bytes(v as nat, n as nat));
    }
}

/// The number that the big-endian bytes `b` hold.
fn be_value_of(b: &[u8]) -> (r: u64)
    requires
        b@.len() <= 8,
    ensures
        r == be_value(b@),
{
    let mut r: u64 = 0;
    let mut i: usize = 0;
    while i < b.len()
        invariant
            i <= b@.len(),
            b@.len() <= 8,
            r == be_value(b@.take(i as int)),
            r < byte_pow(i as nat),
        decreases b@.len() - i,
    {
        proof {
            assert(b@.take(i + 1).drop_last() =~= b@.take(i as int));
            reveal_with_fuel(byte_pow, 9);
            assert(r * 256 + b@[i as int] < byte_pow((i + 1) as nat)) by (nonlinear_arith)
                requires
                    r < byte_pow(i as nat),
                    b@[i as int] < 256,
                    byte_pow((i + 1) as nat) == 256 * byte_pow(i as nat),
            ;
            lemma_byte_pow_le((i + 1) as nat, 8);
        }
        r = r * 256 + b[i] as u64;
        i = i + 1;
    }
    assert(b@.take(b@.len() as int) =~= b@);
    r
}

proof fn lemma_byte_pow_le(a: nat, b: nat)
    requires
        a <= b,
        b <= 8,
    ensures
        byte_pow(a) <= byte_pow(b),
        byte_pow(8) == 0x1_0000_0000_0000_0000,
        byte_pow(6) == 0x1_0000_0000_0000,
    decreases b - a,
{
    reveal_with_fuel(byte_pow, 9);
    if a < b {
        lemma_byte_pow_le(a, (b - 1) as nat);
    }
}

/// A message that travels in the data of a CAN frame, packed into bytes
/// most significant bit first.
pub trait CanBusMessage: Sized {
    spec fn spec_message_type() -> u8;

    /// Bytes the message takes.
    spec fn spec_len() -> nat;

    /// Whether each field fits its width.
    spec fn wf(&self) -> bool;

    /// The bytes of the message.
    spec fn spec_data(&self) -> Seq<u8>;

    /// Whether `data` unpacks: every enum field holds a known value.
    spec fn spec_valid_data(data: Seq<u8>) -> bool;

    /// The message that `data` unpacks to.
    spec fn spec_from_data(data: Seq<u8>) -> Self;

    /// The message's number, which goes into the frame's id.
    fn message_type() -> (r: u8)
        ensures
            r == Self::spec_message_type(),
            r < 64,
    ;

    fn len() -> (r: usize)
        ensures
            r == Self::spec_len(),
    ;

    fn to_data(&self) -> (r: Vec<u8>)
        requires
            self.wf(),
        ensures
            r@ == self.spec_data(),
            r@.len() == Self::spec_len(),
    ;

    fn from_data(data: &[u8]) -> (r: Self)
        requires
            data@.len() == Self::spec_len(),
            Self::spec_valid_data(data@),
        ensures
            r == Self::spec_from_data(data@),
            r.wf(),
    ;

    /// A message unpacks from its bytes as itself.
    proof fn lemma_data_round_trip(m: Self)
        requires
            m.wf(),
        ensures
            m.spec_data().len() == Self::spec_len(),
            Self::spec_valid_data(m.spec_data()),
            Self::spec_from_data(m.spec_data()) == m,
    ;

    /// The id of a frame that carries this message: `node_type` goes into
    /// the node id field, `node_id` into the message id field.
    fn create_id(priority: u8, node_type: u8, node_id: u16) -> (r: CanBusExtendedId)
        requires
            priority < 8,
            node_id < 4096,
        ensures
            r.wf(),
            r.spec_priority() == priority,
            r.spec_message_type() == Self::spec_message_type(),
            r.spec_node_id() == node_type,
            r.spec_message_id() == node_id,
    {
        CanBusExtendedId::new(priority, Self::message_type(), node_type, node_id)
    }
}

/// The time, in milliseconds since the Unix epoch, in 48 bits.
#[derive(Debug, Clone, Copy, PartialEq, Eq, Structural)]
pub struct UnixTimeMessage {
    pub timestamp: u64,
}

impl CanBusMessage for UnixTimeMessage {
    open spec fn spec_message_type() -> u8 {
        0
    }

    open spec fn spec_len() -> nat {
        6
    }

    open spec fn wf(&self) -> bool {
        self.timestamp < 0x1_0000_0000_0000
    }

    open spec fn spec_data(&self) -> Seq<u8> {
        be_bytes(self.timestamp as nat, 6)
    }

    open spec fn spec_valid_data(data: Seq<u8>) -> bool {
        true
    }

    open spec fn spec_from_data(data: Seq<u8>) -> Self {
        UnixTimeMessage { timestamp: be_value(data) as u64 }
    }

    fn message_type() -> (r: u8) {
        0
    }

    fn len() -> (r: usize) {
        6
    }

    fn to_data(&self) -> (r: Vec<u8>) {
        let mut r = Vec::new();
        push_be_bytes(self.timestamp, 6, &mut r);
        proof {
            lemma_byte_pow_le(6, 8);
            lemma_be_value_of_be_bytes(self.timestamp as nat, 6);
        }
        r
    }

    fn from_data(data: &[u8]) -> (r: Self) {
        proof {
            lemma_be_bytes_of_be_value(data@);
            lemma_byte_pow_le(6, 8);
        }
        UnixTimeMessage { timestamp: be_value_of(data) }
    }

    proof fn lemma_data_round_trip(m: Self) {
        lemma_byte_pow_le(6, 8);
        lemma_be_value_of_be_bytes(m.timestamp as nat, 6);
    }
}

/// Whether the avionics runs on low power, and whether it is armed.
#[derive(Debug, Clone, Copy, PartialEq, Eq, Structural)]
pub struct AvionicsStatusMessage {
    pub low_power: bool,
    pub armed: bool,
}

impl CanBusMessage for AvionicsStatusMessage {
    open spec fn spec_message_type() -> u8 {
        1
    }

    open spec fn spec_len() -> nat {
        1
    }

    open spec fn wf(&self) -> bool {
        true
    }

    open spec fn spec_data(&self) -> Seq<u8> {
        seq![((if self.low_power { 0x80u8 } else { 0u8 }) | (if self.armed { 0x40u8 } else { 0u8 })) as u8]
    }

    open spec fn spec_valid_data(data: Seq<u8>) -> bool {
        true
    }

    open spec fn spec_from_data(data: Seq<u8>) -> Self {
        AvionicsStatusMessage { low_power: data[0] & 0x80 != 0, armed: data[0] & 0x40 != 0 }
    }

    fn message_type() -> (r: u8) {
        1
    }

    fn len() -> (r: usize) {
        1
    }

    fn to_data(&self) -> (r: Vec<u8>) {
        let a: u8 = if self.low_power {
            0x80
        } else {
            0
        };
        let b: u8 = if self.armed {
            0x40
        } else {
            0
        };
        let r = vec![a | b];
        assert(r@ =~= self.spec_data());
        r
    }

    fn from_data(data: &[u8]) -> (r: Self) {
        AvionicsStatusMessage { low_power: data[0] & 0x80 != 0, armed: data[0] & 0x40 != 0 }
    }

    proof fn lemma_data_round_trip(m: Self) {
        let b = m.spec_data()[0];
        assert((0x80u8 | 0x40u8) & 0x80u8 != 0 && (0x80u8 | 0x40u8) & 0x40u8 != 0) by (bit_vector);
        assert((0x80u8 | 0u8) & 0x80u8 != 0 && (0x80u8 | 0u8) & 0x40u8 == 0) by (bit_vector);
        assert((0u8 | 0x40u8) & 0x80u8 == 0 && (0u8 | 0x40u8) & 0x40u8 != 0) by (bit_vector);
        assert((0u8 | 0u8) & 0x80u8 == 0 && (0u8 | 0u8) & 0x40u8 == 0) by (bit_vector);
    }
}

/// The stages of a flight.
#[derive(Debug, Clone, Copy, PartialEq, Eq, Structural)]
pub enum FlightEvent {
    Ignition,
    Coast,
    Apogee,
    Landed,
}

pub open spec fn flight_event_number(e: FlightEvent) -> u8 {
    match e {
        FlightEvent::Ignition => 0,
        FlightEvent::Coast => 1,
        FlightEvent::Apogee => 2,
        FlightEvent::Landed => 3,
    }
}

pub open spec fn flight_event_of(n: u8) -> FlightEvent {
    if n == 0 {
        FlightEvent::Ignition
    } else if n == 1 {
        FlightEvent::Coast
    } else if n == 2 {
        FlightEvent::Apogee
    } else {
        FlightEvent::Landed
    }
}

/// A flight event and when it happened, in milliseconds since the Unix
/// epoch, in 48 bits; the event takes the top 3 bits of the last byte.
#[derive(Debug, Clone, Copy, PartialEq, Eq, Structural)]
pub struct FlightEventMessage {
    pub timestamp: u64,
    pub event: FlightEvent,
}

impl CanBusMessage for FlightEventMessage {
    open spec fn spec_message_type() -> u8 {
        2
    }

    open spec fn spec_len() -> nat {
        7
    }

    open spec fn wf(&self) -> bool {
        self.timestamp < 0x1_0000_0000_0000
    }

    open spec fn spec_data(&self) -> Seq<u8> {
        be_bytes(self.timestamp as nat, 6).push((flight_event_number(self.event) << 5u8) as u8)
    }

    open spec fn spec_valid_data(data: Seq<u8>) -> bool {
        data[6] >> 5u8 < 4
    }

    open spec fn spec_from_data(data: Seq<u8>) -> Self {
        FlightEventMessage {
            timestamp: be_value(data.take(6)) as u64,
            event: flight_event_of(data[6] >> 5u8),
        }
    }

    fn message_type() -> (r: u8) {
        2
    }

    fn len() -> (r: usize) {
        7
    }

    fn to_data(&self) -> (r: Vec<u8>) {
        let mut r = Vec::new();
        push_be_bytes(self.timestamp, 6, &mut r);
        let n: u8 = match self.event {
            FlightEvent::Ignition => 0,
            FlightEvent::Coast => 1,
            FlightEvent::Apogee => 2,
            FlightEvent::Landed => 3,
        };
        r.push(n << 5u8);
        proof {
            lemma_byte_pow_le(6, 8);
            lemma_be_value_of_be_bytes(self.timestamp as nat, 6);
        }
        r
    }

    fn from_data(data: &[u8]) -> (r: Self) {
        let head = vstd::slice::slice_subrange(data, 0, 6);
        assert(head@ =~= data@.take(6));
        let timestamp = be_value_of(head);
        proof {
            lemma_be_bytes_of_be_value(data@.take(6));
            lemma_byte_pow_le(6, 8);
        }
        let n = data[6] >> 5u8;
        let event = if n == 0 {
            FlightEvent::Ignition
        } else if n == 1 {
            FlightEvent::Coast
        } else if n == 2 {
            FlightEvent::Apogee
        } else {
            FlightEvent::Landed
        };
        FlightEventMessage { timestamp, event }
    }

    proof fn lemma_data_round_trip(m: Self) {
        lemma_byte_pow_le(6, 8);
        lemma_be_value_of_be_bytes(m.timestamp as nat, 6);
        let d = m.spec_data();
        assert(d.take(6) =~= be_bytes(m.timestamp as nat, 6));
        let n = flight_event_number(m.event);
        assert(n < 4 ==> ((n << 5u8) as u8) >> 5u8 == n) by (bit_vector);
    }
}

/// How healthy a node is.
#[derive(Debug, Clone, Copy, PartialEq, Eq, Structural)]
pub enum HealthState {
    Healthy,
    Degraded,
    UnHealthy,
}

pub open spec fn health_state_number(h: HealthState) -> u8 {
    match h {
        HealthState::Healthy => 0,
        HealthState::Degraded => 1,
        HealthState::UnHealthy => 2,
    }
}

pub open spec fn health_state_of(n: u8) -> HealthState {
    if n == 0 {
        HealthState::Healthy
    } else if n == 1 {
        HealthState::Degraded
    } else {
        HealthState::UnHealthy
    }
}

/// A node's health, in the top 2 bits of its byte.
#[derive(Debug, Clone, Copy, PartialEq, Eq, Structural)]
pub struct HealthMessage {
    pub state: HealthState,
}

impl CanBusMessage for HealthMessage {
    open spec fn spec_message_type() -> u8 {
        3
    }

    open spec fn spec_len() -> nat {
        1
    }

    open spec fn wf(&self) -> bool {
        true
    }

    open spec fn spec_data(&self) -> Seq<u8> {
        seq![(health_state_number(self.state) << 6u8) as u8]
    }

    open spec fn spec_valid_data(data: Seq<u8>) -> bool {
        data[0] >> 6u8 < 3
    }

    open spec fn spec_from_data(data: Seq<u8>) -> Self {
        HealthMessage { state: health_state_of(data[0] >> 6u8) }
    }

    fn message_type() -> (r: u8) {
        3
    }

    fn len() -> (r: usize) {
        1
    }

    fn to_data(&self) -> (r: Vec<u8>) {
        let n: u8 = match self.state {
            HealthState::Healthy => 0,
            HealthState::Degraded => 1,
            HealthState::UnHealthy => 2,
        };
        let r = vec![n << 6u8];
        assert(r@ =~= self.spec_data());
        r
    }

    fn from_data(data: &[u8]) -> (r: Self) {
        let n = data[0] >> 6u8;
        let state = if n == 0 {
            HealthState::Healthy
        } else if n == 1 {
            HealthState::Degraded
        } else {
            HealthState::UnHealthy
        };
        HealthMessage { state }
    }

    proof fn lemma_data_round_trip(m: Self) {
        let n = health_state_number(m.state);
        assert(n < 3 ==> ((n << 6u8) as u8) >> 6u8 == n) by (bit_vector);
    }
}

/// Asks the nodes to reset; it carries no data but a zero byte.
#[derive(Debug, Clone, Copy, PartialEq, Eq, Structural)]
pub struct ResetMessage {}

impl CanBusMessage for ResetMessage {
    open spec fn spec_message_type() -> u8 {
        4
    }

    open spec fn spec_len() -> nat {
        1
    }

    open spec fn wf(&self) -> bool {
        true
    }

    open spec fn spec_data(&self) -> Seq<u8> {
        seq![0u8]
    }

    open spec fn spec_valid_data(data: Seq<u8>) -> bool {
        true
    }

    open spec fn spec_from_data(data: Seq<u8>) -> Self {
        ResetMessage {}
    }

    fn message_type() -> (r: u8) {
        4
    }

    fn len() -> (r: usize) {
        1
    }

    fn to_data(&self) -> (r: Vec<u8>) {
        let r = vec![0u8];
        assert(r@ =~= self.spec_data());
        r
    }

    fn from_data(data: &[u8]) -> (r: Self) {
        ResetMessage {}
    }

    proof fn lemma_data_round_trip(m: Self) {
    }
}

/// The numbers that every node on the bus shares: the message type of each
/// message, the wire number of each flight event (Ignition 0, Coast 1,
/// Apogee 2, Landed 3) and of each health state (Healthy 0, Degraded 1,
/// UnHealthy 2), both ways.
pub proof fn lemma_bus_numbers()
    ensures
        UnixTimeMessage::spec_message_type() == 0,
        AvionicsStatusMessage::spec_message_type() == 1,
        FlightEventMessage::spec_message_type() == 2,
        HealthMessage::spec_message_type() == 3,
        ResetMessage::spec_message_type() == 4,
        flight_event_number(FlightEvent::Ignition) == 0,
        flight_event_number(FlightEvent::Coast) == 1,
        flight_event_number(FlightEvent::Apogee) == 2,
        flight_event_number(FlightEvent::Landed) == 3,
        flight_event_of(0) == FlightEvent::Ignition,
        flight_event_of(1) == FlightEvent::Coast,
        flight_event_of(2) == FlightEvent::Apogee,
        flight_event_of(3) == FlightEvent::Landed,
        health_state_number(HealthState::Healthy) == 0,
        health_state_number(HealthState::Degraded) == 1,
        health_state_number(HealthState::UnHealthy) == 2,
        health_state_of(0) == HealthState::Healthy,
        health_state_of(1) == HealthState::Degraded,
        health_state_of(2) == HealthState::UnHealthy,
{
}

/// The last byte of a flight event message carries the event's number in
/// its top 3 bits: 0x00 for ignition, 0x20 for coast, 0x40 for apogee, 0x60
/// for landing; and a message whose last byte's top 3 bits are 0, 1, 2 or 3
/// reads back as ignition, coast, apogee or landing.
pub proof fn lemma_flight_event_wire(m: FlightEventMessage, data: Seq<u8>)
    requires
        data.len() == 7,
    ensures
        m.spec_data().last() == match m.event {
            FlightEvent::Ignition => 0x00u8,
            FlightEvent::Coast => 0x20u8,
            FlightEvent::Apogee => 0x40u8,
            FlightEvent::Landed => 0x60u8,
        },
        data[6] >> 5u8 == 0 ==> FlightEventMessage::spec_from_data(data).event == FlightEvent::Ignition,
        data[6] >> 5u8 == 1 ==> FlightEventMessage::spec_from_data(data).event == FlightEvent::Coast,
        data[6] >> 5u8 == 2 ==> FlightEventMessage::spec_from_data(data).event == FlightEvent::Apogee,
        data[6] >> 5u8 == 3 ==> FlightEventMessage::spec_from_data(data).event == FlightEvent::Landed,
{
    assert((0u8 << 5u8) as u8 == 0x00u8) by (bit_vector);
    assert((1u8 << 5u8) as u8 == 0x20u8) by (bit_vector);
    assert((2u8 << 5u8) as u8 == 0x40u8) by (bit_vector);
    assert((3u8 << 5u8) as u8 == 0x60u8) by (bit_vector);
}

/// A health message's byte carries the state's number in its top 2 bits:
/// 0x00 healthy, 0x40 degraded, 0x80 unhealthy.
pub proof fn lemma_health_wire(m: HealthMessage)
    ensures
        m.spec_data() == seq![
            match m.state {
                HealthState::Healthy => 0x00u8,
                HealthState::Degraded => 0x40u8,
                HealthState::UnHealthy => 0x80u8,
            },
        ],
{
    assert((0u8 << 6u8) as u8 == 0x00u8) by (bit_vector);
    assert((1u8 << 6u8) as u8 == 0x40u8) by (bit_vector);
    assert((2u8 << 6u8) as u8 == 0x80u8) by (bit_vector);
}

} // verus!
