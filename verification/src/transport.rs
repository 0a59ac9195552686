//! The shared read buffer with its single-slot notification channel and the
//! command-completion signal, and the two deliveries from the engine to the
//! host.
use crate::chan::command_signal_new;
use crate::chan::command_signal_raise;
use crate::chan::command_signal_raised;
use crate::chan::command_signal_try_take;
use crate::chan::CommandSignal;
use crate::chan::read_channel_items;
use crate::chan::read_channel_new;
use crate::chan::read_channel_try_receive;
use crate::chan::read_channel_try_send;
use crate::chan::ReadChannel;
use crate::error::OsError;
use crate::hci::acl_header;
use crate::hci::ACL_HEADER_SIZE;
use crate::hci::acl_packet_is_complete;
use crate::hci::decode_acl_header;
use crate::hci::decode_event;
use crate::hci::decode_event_header;
use crate::hci::decode_packet;
use crate::hci::decoded_event;
use crate::hci::decoded_packet;
use crate::hci::EVENT_HEADER_SIZE;
use crate::hci::event_view;
use crate::hci::HciEvent;
use crate::hci::HostPacket;
use crate::hci::PacketKind;
use crate::mbuf::front;
use crate::mbuf::OsMbuf;
use crate::mbuf::overlay;
use vstd::prelude::*;
use vstd::slice::slice_subrange;

verus! {

/// The smallest read buffer that holds every event: a header of two bytes and
/// up to 255 parameter bytes.
pub const MIN_READ_BUFFER_SIZE: usize = 257;

/// An event as the engine hands it over: its code, the length of its
/// parameters, and the parameters.
pub struct ble_hci_ev {
    pub opcode: u8,
    pub length: u8,
    pub data: Vec<u8>,
}

/// The state that the producers of controller-to-host packets share with their
/// consumer.
pub struct Transport {
    read_buffer: Vec<u8>,
    read_channel: ReadChannel,
    cmd_signal: CommandSignal,
    controller_in_use: bool,
}

/// What a transport holds.
pub struct TransportView {
    /// The bytes of the read buffer.
    pub buffer: Seq<u8>,
    /// The notifications that have not been consumed, oldest first.
    pub pending: Seq<PacketKind>,
    /// Whether the command-completion signal is raised.
    pub signaled: bool,
    /// Whether a controller has been created on this transport.
    pub in_use: bool,
}

/// `n` zero bytes.
pub open spec fn zeros(n: nat) -> Seq<u8> {
    Seq::new(n, |i: int| 0u8)
}

/// The wire form of an event in a buffer of `capacity` bytes: code, length,
/// parameters, then zeros.
pub open spec fn event_frame(ev: ble_hci_ev, capacity: nat) -> Seq<u8> {
    overlay(zeros(capacity), 0, seq![ev.opcode, ev.length] + ev.data@)
}

/// What delivering an event does, given the frame and what it decodes to: the
/// status for the engine and the transport afterwards. A command-complete
/// event for opcode zero is dropped; otherwise the frame fills the buffer if
/// no notification is pending, and is refused with `NoMem` if one is.
pub open spec fn event_delivery(t: TransportView, frame: Seq<u8>, packet: Option<HostPacket>) -> (
    i32,
    TransportView,
) {
    if packet == Some(HostPacket::CommandComplete(0)) {
        (0i32, t)
    } else if t.pending.len() > 0 {
        (OsError::NoMem.spec_code() as i32, t)
    } else {
        (0i32, TransportView { buffer: frame, pending: t.pending.push(PacketKind::Event), ..t })
    }
}

/// What delivering an ACL chain does: the status for the engine, the transport
/// afterwards, and what is left of the chain. Every failure is reported as
/// `NoMem`. A delivery that finds a notification pending changes nothing. Any
/// other delivery posts its notification and clears the buffer first; the
/// header and then the data are copied as far as the chain and the buffer
/// allow, and the chain is given back only on success.
pub open spec fn acl_delivery(t: TransportView, chain: Seq<u8>) -> (i32, TransportView, Seq<u8>) {
    let failed = OsError::NoMem.spec_code() as i32;
    let pending = t.pending.push(PacketKind::AclData);
    let with_header = overlay(zeros(t.buffer.len()), 0, front(chain, 4));
    if t.pending.len() > 0 {
        (failed, t, chain)
    } else if chain.len() < 4 {
        (failed, TransportView { buffer: with_header, pending, ..t }, chain)
    } else {
        let data_len = acl_header(chain).unwrap().1 as int;
        let rest = chain.skip(4);
        let with_data = overlay(with_header, 4, front(rest, data_len));
        if 4 + data_len > t.buffer.len() {
            (failed, TransportView { buffer: with_header, pending, ..t }, rest)
        } else if rest.len() < data_len {
            (failed, TransportView { buffer: with_data, pending, ..t }, rest)
        } else {
            (0i32, TransportView { buffer: with_data, pending, ..t }, Seq::<u8>::empty())
        }
    }
}

impl ble_hci_ev {
    /// The parameters are as many as the length field says.
    pub open spec fn wf(&self) -> bool {
        self.data@.len() == self.length
    }
}

impl View for Transport {
    type V = TransportView;

    closed spec fn view(&self) -> TransportView {
        TransportView {
            buffer: self.read_buffer@,
            pending: read_channel_items(self.read_channel),
            signaled: command_signal_raised(self.cmd_signal),
            in_use: self.controller_in_use,
        }
    }
}

impl Transport {
    /// The buffer holds every event, and the channel at most one notification.
    pub open spec fn wf(&self) -> bool {
        &&& self@.buffer.len() >= MIN_READ_BUFFER_SIZE
        &&& self@.pending.len() <= 1
    }

    /// A transport with a zeroed read buffer of `capacity` bytes, nothing
    /// pending, the signal lowered and no controller.
    pub fn new(capacity: usize) -> (t: Transport)
        requires
            capacity >= MIN_READ_BUFFER_SIZE,
        ensures
            t.wf(),
            t@ == (TransportView {
                buffer: zeros(capacity as nat),
                pending: Seq::<PacketKind>::empty(),
                signaled: false,
                in_use: false,
            }),
    {
        let t = Transport {
            read_buffer: zeroed(capacity),
            read_channel: read_channel_new(),
            cmd_signal: command_signal_new(),
            controller_in_use: false,
        };
        t
    }

    /// The size of the read buffer.
    pub fn capacity(&self) -> (n: usize)
        ensures
            n == self@.buffer.len(),
    {
        self.read_buffer.len()
    }

    /// Whether a notification waits for the reader.
    pub fn is_pending(&self) -> (full: bool)
        requires
            self.wf(),
        ensures
            full == (self@.pending.len() == 1),
    {
        crate::chan::read_channel_is_full(&self.read_channel)
    }

    /// Marks the transport as having its controller.
    pub(crate) fn claim_controller(&mut self)
        ensures
            final(self)@ == (TransportView { in_use: true, ..old(self)@ }),
    {
        self.controller_in_use = true;
    }

    /// Raises the completion signal.
    pub(crate) fn raise_signal(&mut self)
        ensures
            final(self)@ == (TransportView { signaled: true, ..old(self)@ }),
    {
        command_signal_raise(&mut self.cmd_signal);
    }

    /// Takes the completion signal if it is raised.
    pub(crate) fn take_signal(&mut self) -> (taken: bool)
        ensures
            taken == old(self)@.signaled,
            final(self)@ == (TransportView { signaled: false, ..old(self)@ }),
    {
        command_signal_try_take(&mut self.cmd_signal)
    }

    /// Consumes the pending notification, if there is one.
    pub(crate) fn take_notification(&mut self) -> (kind: Option<PacketKind>)
        requires
            old(self).wf(),
        ensures
            final(self).wf(),
            old(self)@.pending.len() == 0 ==> kind.is_none() && final(self)@ == old(self)@,
            old(self)@.pending.len() > 0 ==> kind == Some(old(self)@.pending[0]) && final(self)@ == (
            TransportView { pending: Seq::<PacketKind>::empty(), ..old(self)@ }),
    {
        let kind = read_channel_try_receive(&mut self.read_channel);
        assert(old(self)@.pending.len() > 0 ==> old(self)@.pending.drop_first()
            =~= Seq::<PacketKind>::empty());
        kind
    }

    /// Fills `buf` with the front of the read buffer.
    pub(crate) fn copy_front(&self, buf: &mut Vec<u8>)
        requires
            old(buf)@.len() <= self@.buffer.len(),
        ensures
            final(buf)@ == self@.buffer.take(old(buf)@.len() as int),
    {
        let len: usize = buf.len();
        let mut i: usize = 0;
        while i < len
            invariant
                i <= len,
                len == buf@.len(),
                len <= self.read_buffer@.len(),
                buf@.subrange(0, i as int) == self.read_buffer@.subrange(0, i as int),
            decreases len - i,
        {
            buf.set(i, self.read_buffer[i]);
            i = i + 1;
        }
        assert(buf@.subrange(0, len as int) == buf@);
    }

    /// Decodes the event at the front of the read buffer: its header and as
    /// many parameters as the header announces.
    pub(crate) fn decode_response(&self) -> (event: Option<HciEvent>)
        requires
            self.wf(),
        ensures
            event_view(event) == decoded_event(self@.buffer.take(2 + self@.buffer[1] as int)),
    {
        match decode_event_header(self.read_buffer.as_slice()) {
            Some((_, params_len)) => {
                let end: usize = EVENT_HEADER_SIZE + params_len as usize;
                decode_event(slice_subrange(self.read_buffer.as_slice(), 0, end))
            },
            None => None,
        }
    }

    /// Whether the completion signal is raised.
    pub fn is_signaled(&mut self) -> (raised: bool)
        ensures
            raised == old(self)@.signaled,
            final(self)@ == old(self)@,
    {
        let raised: bool = self.take_signal();
        if raised {
            self.raise_signal();
        }
        raised
    }

    /// Whether a controller has been created on this transport.
    pub fn in_use(&self) -> (used: bool)
        ensures
            used == self@.in_use,
    {
        self.controller_in_use
    }

    /// A copy of the read buffer.
    pub fn buffer(&self) -> (bytes: Vec<u8>)
        ensures
            bytes@ == self@.buffer,
    {
        self.read_buffer.clone()
    }
}

/// A vector of `n` zero bytes.
pub fn zeroed(n: usize) -> (v: Vec<u8>)
    ensures
        v@ == zeros(n as nat),
{
    let mut v: Vec<u8> = Vec::new();
    let mut i: usize = 0;
    while i < n
        invariant
            i <= n,
            v@ == zeros(i as nat),
        decreases n - i,
    {
        v.push(0u8);
        i = i + 1;
    }
    v
}

/// The frame of `ev` in a buffer of `capacity` bytes.
pub fn build_event_frame(ev: &ble_hci_ev, capacity: usize) -> (frame: Vec<u8>)
    requires
        ev.wf(),
        capacity >= MIN_READ_BUFFER_SIZE,
    ensures
        frame@ == event_frame(*ev, capacity as nat),
{
    let mut frame: Vec<u8> = zeroed(capacity);
    frame.set(0, ev.opcode);
    frame.set(1, ev.length);
    let len: usize = ev.data.len();
    let mut i: usize = 0;
    while i < len
        invariant
            i <= len,
            len == ev.data@.len(),
            len <= 255,
            frame@.len() == capacity,
            capacity >= MIN_READ_BUFFER_SIZE,
            frame@ == overlay(
                zeros(capacity as nat),
                0,
                seq![ev.opcode, ev.length] + ev.data@.subrange(0, i as int),
            ),
        decreases len - i,
    {
        frame.set(i + 2, ev.data[i]);
        i = i + 1;
    }
    assert(ev.data@.subrange(0, len as int) == ev.data@);
    frame
}

/// Delivers the frame of an event whose decoding is `packet`. A
/// command-complete event for opcode zero is dropped without a trace; any
/// other frame is stored and announced if the buffer is free, and refused
/// with the code of `NoMem` if it is not.
pub fn deliver_event(t: &mut Transport, frame: Vec<u8>, packet: Option<HostPacket>) -> (status: i32)
    requires
        old(t).wf(),
        frame@.len() == old(t)@.buffer.len(),
    ensures
        final(t).wf(),
        (status, final(t)@) == event_delivery(old(t)@, frame@, packet),
{
    match packet {
        Some(HostPacket::CommandComplete(opcode)) => {
            if opcode == 0 {
                return 0;
            }
        },
        _ => {},
    }
    if read_channel_try_send(&mut t.read_channel, PacketKind::Event) {
        t.read_buffer = frame;
        0
    } else {
        OsError::NoMem.status()
    }
}

/// The engine's hand-over of an event to the host. The event is framed and
/// decoded, then delivered as `deliver_event` says.
pub fn ble_transport_to_hs_evt_impl(t: &mut Transport, ev: &ble_hci_ev) -> (status: i32)
    requires
        old(t).wf(),
        ev.wf(),
    ensures
        final(t).wf(),
        (status, final(t)@) == event_delivery(
            old(t)@,
            event_frame(*ev, old(t)@.buffer.len()),
            decoded_packet(PacketKind::Event, event_frame(*ev, old(t)@.buffer.len())),
        ),
{
    let frame: Vec<u8> = build_event_frame(ev, t.read_buffer.len());
    let packet: Option<HostPacket> = decode_packet(PacketKind::Event, frame.as_slice());
    deliver_event(t, frame, packet)
}

/// The engine's hand-over of an ACL chain to the host, as `acl_delivery` says.
pub fn ble_transport_to_hs_acl_impl(t: &mut Transport, om: &mut OsMbuf) -> (status: i32)
    requires
        old(t).wf(),
    ensures
        final(t).wf(),
        (status, final(t)@, final(om)@) == acl_delivery(old(t)@, old(om)@),
{
    if !read_channel_try_send(&mut t.read_channel, PacketKind::AclData) {
        return OsError::NoMem.status();
    }
    let capacity: usize = t.read_buffer.len();
    t.read_buffer = zeroed(capacity);
    if om.read(&mut t.read_buffer, 0, ACL_HEADER_SIZE).is_err() {
        return OsError::NoMem.status();
    }
    let (handle, data_len) = match decode_acl_header(t.read_buffer.as_slice()) {
        Some(header) => header,
        None => {
            return OsError::NoMem.status();
        },
    };
    let len: usize = data_len as usize;
    if len > capacity - ACL_HEADER_SIZE {
        return OsError::NoMem.status();
    }
    if om.read(&mut t.read_buffer, ACL_HEADER_SIZE, len).is_err() {
        return OsError::NoMem.status();
    }
    let data: &[u8] = slice_subrange(t.read_buffer.as_slice(), ACL_HEADER_SIZE, ACL_HEADER_SIZE + len);
    if !acl_packet_is_complete(handle, data_len, data) {
        return OsError::NoMem.status();
    }
    om.free_chain();
    0
}

/// While a notification is pending the buffer belongs to the reader: no
/// delivery changes the buffer, the notification or the signal, every
/// delivery is refused with the code of `NoMem` unless it is the suppressed
/// command-complete event, and a refused chain is left whole.
pub proof fn lemma_pending_packet_is_kept(
    t: TransportView,
    frame: Seq<u8>,
    packet: Option<HostPacket>,
    chain: Seq<u8>,
)
    requires
        t.pending.len() > 0,
    ensures
        event_delivery(t, frame, packet).1 == t,
        event_delivery(t, frame, packet).0 == (if packet == Some(HostPacket::CommandComplete(0)) {
            0i32
        } else {
            1i32
        }),
        acl_delivery(t, chain) == (1i32, t, chain),
{
}

/// A delivery that is accepted leaves exactly one notification, of its own
/// kind, and never touches the completion signal.
pub proof fn lemma_delivery_announces_once(
    t: TransportView,
    frame: Seq<u8>,
    packet: Option<HostPacket>,
    chain: Seq<u8>,
)
    requires
        t.pending.len() == 0,
    ensures
        packet != Some(HostPacket::CommandComplete(0)) ==> event_delivery(t, frame, packet).1.pending
            == seq![PacketKind::Event] && event_delivery(t, frame, packet).1.buffer == frame,
        packet == Some(HostPacket::CommandComplete(0)) ==> event_delivery(t, frame, packet).1 == t,
        acl_delivery(t, chain).1.pending == seq![PacketKind::AclData],
        acl_delivery(t, chain).1.buffer.len() == t.buffer.len(),
        event_delivery(t, frame, packet).1.signaled == t.signaled,
        acl_delivery(t, chain).1.signaled == t.signaled,
{
    assert(t.pending.push(PacketKind::Event) =~= seq![PacketKind::Event]);
    assert(t.pending.push(PacketKind::AclData) =~= seq![PacketKind::AclData]);
}

} // verus!
