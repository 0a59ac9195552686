//! The HCI vocabulary of the transport bridge, and the decoding that the
//! `bt_hci` crate does for it.
use bt_hci::cmd::Cmd;
use bt_hci::cmd::controller_baseband::HostBufferSize;
use bt_hci::ControllerToHostPacket;
use bt_hci::data::AclPacket;
use bt_hci::data::AclPacketHeader;
use bt_hci::event::Event;
use bt_hci::event::EventPacketHeader;
use bt_hci::FromHciBytes;
use vstd::prelude::*;

verus! {

/// The tag that accompanies a filled read buffer.
#[derive(Debug, Clone, Copy, PartialEq, Eq, Structural)]
pub enum PacketKind {
    /// An ACL data packet: a four-byte header, then the payload.
    AclData,
    /// An event: a two-byte header, then the parameters.
    Event,
}

/// What the transport needs to know of a decoded controller-to-host packet.
#[derive(Debug, Clone, Copy, PartialEq, Eq, Structural)]
pub enum HostPacket {
    /// An ACL data packet.
    Acl,
    /// A command-complete event for the command with this opcode.
    CommandComplete(u16),
    /// A command-status event for the command with this opcode.
    CommandStatus(u16),
    /// Any other event.
    Event,
    /// A packet of another kind.
    Other,
}

/// A decoded event, as far as command execution reads it.
#[derive(Debug)]
pub enum HciEvent {
    /// The command `cmd_opcode` finished with `status`; `return_params` are
    /// the bytes that follow the status.
    CommandComplete { cmd_opcode: u16, status: u8, return_params: Vec<u8> },
    /// The command `cmd_opcode` was accepted or refused with `status`.
    CommandStatus { cmd_opcode: u16, status: u8 },
    /// Any other event.
    Other,
}

/// What a decoded event holds.
pub enum HciEventView {
    /// The command `cmd_opcode` finished with `status`; `return_params` are
    /// the bytes that follow the status.
    CommandComplete { cmd_opcode: u16, status: u8, return_params: Seq<u8> },
    /// The command `cmd_opcode` was accepted or refused with `status`.
    CommandStatus { cmd_opcode: u16, status: u8 },
    /// Any other event.
    Other,
}

impl View for HciEvent {
    type V = HciEventView;

    open spec fn view(&self) -> HciEventView {
        match *self {
            HciEvent::CommandComplete { cmd_opcode, status, return_params } => {
                HciEventView::CommandComplete { cmd_opcode, status, return_params: return_params@ }
            },
            HciEvent::CommandStatus { cmd_opcode, status } => HciEventView::CommandStatus {
                cmd_opcode,
                status,
            },
            HciEvent::Other => HciEventView::Other,
        }
    }
}

/// What an event holds, if there is one.
pub open spec fn event_view(event: Option<HciEvent>) -> Option<HciEventView> {
    match event {
        Some(e) => Some(e@),
        None => None,
    }
}

/// The length of an event header: the event code and the parameter length.
pub const EVENT_HEADER_SIZE: usize = 2;

/// The length of an ACL data header: handle with flags, and the data length.
pub const ACL_HEADER_SIZE: usize = 4;

/// The opcode of the Host Buffer Size command.
pub const HOST_BUFFER_SIZE_OPCODE: u16 = 0x0c33;

/// The packet that `bt_hci` decodes from `data` when told its kind, or `None`
/// where it rejects the bytes.
pub uninterp spec fn decoded_packet(kind: PacketKind, data: Seq<u8>) -> Option<HostPacket>;

/// The event that `bt_hci` decodes from the front of `data`, or `None` where it
/// rejects the bytes.
pub uninterp spec fn decoded_event(data: Seq<u8>) -> Option<HciEventView>;

/// The two fields of an event header at the front of `data`: the event code and
/// the length of the parameters.
pub open spec fn event_header(data: Seq<u8>) -> Option<(u8, u8)> {
    if data.len() >= 2 {
        Some((data[0], data[1]))
    } else {
        None
    }
}

/// The little-endian number that the bytes `low` and `high` spell.
pub open spec fn le16(low: u8, high: u8) -> u16 {
    (low as int + 256 * (high as int)) as u16
}

/// The two fields of an ACL header at the front of `data`: the handle with its
/// flags, and the length of the data that follows. Both are little-endian.
pub open spec fn acl_header(data: Seq<u8>) -> Option<(u16, u16)> {
    if data.len() >= 4 {
        Some((le16(data[0], data[1]), le16(data[2], data[3])))
    } else {
        None
    }
}

/// Calls `bt_hci::ControllerToHostPacket::from_hci_bytes_with_kind` and keeps of
/// its answer the kind of packet and, for the two command events, the opcode.
/// The answer depends on the bytes and the kind alone; it is named, not
/// spelled out.
#[verifier::external_body]
pub(crate) fn decode_packet(kind: PacketKind, data: &[u8]) -> (packet: Option<HostPacket>)
    ensures
        packet == decoded_packet(kind, data@),
{
    let kind = match kind {
        PacketKind::AclData => bt_hci::PacketKind::AclData,
        PacketKind::Event => bt_hci::PacketKind::Event,
    };
    match ControllerToHostPacket::from_hci_bytes_with_kind(kind, data) {
        Ok((ControllerToHostPacket::Acl(_), _)) => Some(HostPacket::Acl),
        Ok((ControllerToHostPacket::Event(Event::CommandComplete(e)), _)) => Some(HostPacket::CommandComplete(e.cmd_opcode.to_raw())),
        Ok((ControllerToHostPacket::Event(Event::CommandStatus(e)), _)) => Some(HostPacket::CommandStatus(e.cmd_opcode.to_raw())),
        Ok((ControllerToHostPacket::Event(_), _)) => Some(HostPacket::Event),
        Ok(_) => Some(HostPacket::Other),
        Err(_) => None,
    }
}

/// Calls `bt_hci::event::Event::from_hci_bytes` and keeps of a command event its
/// opcode, status and return parameters. The answer depends on the bytes
/// alone; it is named, not spelled out.
#[verifier::external_body]
pub(crate) fn decode_event(data: &[u8]) -> (event: Option<HciEvent>)
    ensures
        event_view(event) == decoded_event(data@),
{
    match Event::from_hci_bytes(data) {
        Ok((Event::CommandComplete(e), _)) => Some(HciEvent::CommandComplete {
            cmd_opcode: e.cmd_opcode.to_raw(),
            status: e.status.into_inner(),
            return_params: e.return_param_bytes.to_vec(),
        }),
        Ok((Event::CommandStatus(e), _)) => Some(HciEvent::CommandStatus {
            cmd_opcode: e.cmd_opcode.to_raw(),
            status: e.status.into_inner(),
        }),
        Ok(_) => Some(HciEvent::Other),
        Err(_) => None,
    }
}

/// Calls `bt_hci::event::EventPacketHeader::from_hci_bytes`, which takes the
/// first two bytes as event code and parameter length and fails only where
/// fewer than two bytes are given.
#[verifier::external_body]
pub(crate) fn decode_event_header(data: &[u8]) -> (header: Option<(u8, u8)>)
    ensures
        header == event_header(data@),
{
    match EventPacketHeader::from_hci_bytes(data) {
        Ok((header, _)) => Some((header.code, header.params_len)),
        Err(_) => None,
    }
}

/// Calls `bt_hci::data::AclPacketHeader::from_hci_bytes`: the header is the first
/// four bytes, two little-endian numbers; it fails only where fewer than four
/// bytes are given.
#[verifier::external_body]
pub(crate) fn decode_acl_header(data: &[u8]) -> (header: Option<(u16, u16)>)
    ensures
        header == acl_header(data@),
{
    match AclPacketHeader::from_hci_bytes(data) {
        Ok((header, _)) => Some((header.handle, header.data_len)),
        Err(_) => None,
    }
}

/// Calls `bt_hci::data::AclPacket::from_header_hci_bytes`, which accepts a header
/// and the bytes after it exactly where the bytes are at least as many as the
/// header's data length.
#[verifier::external_body]
pub(crate) fn acl_packet_is_complete(handle: u16, data_len: u16, data: &[u8]) -> (ok: bool)
    ensures
        ok == (data@.len() >= data_len),
{
    AclPacket::from_header_hci_bytes(AclPacketHeader { handle, data_len }, data).is_ok()
}

/// Reads `bt_hci`'s opcode of the Host Buffer Size command: group 3, command
/// 0x33.
#[verifier::external_body]
pub(crate) fn host_buffer_size_opcode() -> (opcode: u16)
    ensures
        opcode == HOST_BUFFER_SIZE_OPCODE,
{
    HostBufferSize::OPCODE.to_raw()
}

} // verus!
