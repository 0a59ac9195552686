//! The controller side of the HCI transport: one command in flight at a time,
//! the read path that feeds command completions back to the waiting command,
//! the write paths, and the drive loop of the link layer.
use crate::error::CmdError;
use crate::error::INVALID_HCI_PARAMETERS;
use crate::error::OsError;
use crate::hci::decode_packet;
use crate::hci::decoded_event;
use crate::hci::decoded_packet;
use crate::hci::event_view;
use crate::hci::HciEvent;
use crate::hci::HciEventView;
use crate::hci::HOST_BUFFER_SIZE_OPCODE;
use crate::hci::host_buffer_size_opcode;
use crate::hci::HostPacket;
use crate::hci::PacketKind;
use crate::transport::Transport;
use crate::transport::TransportView;
use vstd::prelude::*;

verus! {

/// Where the command in flight stands.
#[derive(Debug, Clone, Copy, PartialEq, Eq, Structural)]
pub enum CommandPhase {
    /// No command is in flight; the command lock is free.
    Idle,
    /// The engine has been asked for a command buffer.
    Allocating,
    /// The command is being written into the buffer.
    Serializing,
    /// The buffer is being handed to the engine.
    Submitting,
    /// The command is with the engine; its completion is awaited.
    Waiting,
}

/// What happened since the last step of a command.
#[derive(Debug, Clone, Copy, PartialEq, Eq, Structural)]
pub enum CommandEvent {
    /// A caller wants to run a command.
    Start,
    /// The engine answered the request for a buffer: `true` if it gave one.
    Allocated(bool),
    /// The command was written into the buffer: `true` if that succeeded.
    Serialized(bool),
    /// The engine took the buffer and answered with this code.
    Submitted(i32),
    /// The waiting command was woken.
    Poll,
}

/// What the caller of a command step does next.
#[derive(Debug)]
pub enum CommandAction {
    /// Another command holds the lock: wait, then start again.
    AwaitLock,
    /// Ask the engine for a command buffer.
    Allocate,
    /// Write the command into the buffer.
    Serialize,
    /// Hand the buffer, patched as the step left it, to the engine.
    Submit,
    /// Suspend until the completion signal may have been raised.
    AwaitSignal,
    /// Give up with `error`, after freeing the buffer if `free_buffer` says so.
    Fail { free_buffer: bool, error: CmdError },
    /// Free the buffer and return the response.
    Finish(Result<HciEvent, CmdError>),
}

/// The kinds of `CommandAction`, without the response that `Finish` carries.
#[derive(Debug, Clone, Copy, PartialEq, Eq, Structural)]
pub enum CommandNext {
    AwaitLock,
    Allocate,
    Serialize,
    Submit,
    AwaitSignal,
    Fail { free_buffer: bool, error: CmdError },
    Finish,
}

/// One read attempt.
#[derive(Debug, Clone, Copy, PartialEq, Eq, Structural)]
pub enum ReadStep {
    /// No notification is pending: suspend and try again.
    Pending,
    /// A command event was consumed and the completion signal raised: read on.
    Intercepted,
    /// This packet is in the caller's buffer.
    Packet(HostPacket),
    /// The buffer did not hold a valid packet.
    Failed(OsError),
}

/// What happened since the last step of writing a data packet.
#[derive(Debug, Clone, Copy, PartialEq, Eq)]
pub enum WriteEvent {
    /// The engine answered the request for a buffer chain: `true` if it gave
    /// one.
    Allocated(bool),
    /// The packet was written into the chain, or writing failed.
    Serialized(Result<(), OsError>),
    /// The engine's data intake answered with this code.
    Submitted(i32),
}

/// What the caller of a write step does next.
#[derive(Debug, Clone, Copy, PartialEq, Eq)]
pub enum WriteAction {
    /// Write the packet into the chain.
    Serialize,
    /// Hand the chain to the engine's data intake.
    Submit,
    /// Free the chain if `free_chain` says so, and return `result`.
    Done { free_chain: bool, result: Result<(), OsError> },
}

/// What the drive loop does next.
#[derive(Debug, Clone, Copy, PartialEq, Eq, Structural)]
pub enum TaskAction {
    /// Wait without limit for the next event of the link layer's queue.
    AwaitEvent,
    /// The completion signal is raised and was raised again for its awaiter:
    /// yield, then step again.
    Yield,
    /// The completion signal is lowered but a notification is unread: wait for
    /// the reader, then step again.
    AwaitReader,
    /// Run the handler of this event.
    Run(usize),
}

/// One call into the engine during start-up.
#[derive(Debug, Clone, Copy, PartialEq, Eq, Structural)]
pub enum InitStep {
    LlInit,
    DefaultEventqInit,
    MempoolModuleInit,
    MsysInit,
    TransportInit,
    TransportHsInit,
    HalTimerInit { timer: u32 },
    CputimeInit { frequency: u32 },
    TransportLlInit,
}

/// The hardware timer that the controller's clock runs on.
pub const CPUTIME_TIMER: u32 = 5;

/// The frequency of the controller's clock.
pub const CPUTIME_FREQUENCY: u32 = 32768;

/// The handle on the controller; it serialises commands.
pub struct NimbleController {
    phase: CommandPhase,
}

/// The link layer's drive loop. Between two events it holds the event that it
/// took from the queue until the host has caught up.
pub struct NimbleControllerTask {
    _init: (),
    held: Option<usize>,
}

/// What a drive loop holds.
pub struct TaskView {
    /// The event that waits for the host to catch up.
    pub held: Option<usize>,
}

/// The positions of a serialised command that are cleared before the engine
/// gets it. Only the Host Buffer Size command has any: the length of
/// synchronous packets, and the low byte of their count.
pub open spec fn patch_offsets(opcode: u16) -> Seq<int> {
    if opcode == HOST_BUFFER_SIZE_OPCODE {
        seq![5, 8]
    } else {
        Seq::<int>::empty()
    }
}

/// `data` with a zero at each of the positions `offsets`.
pub open spec fn cleared(data: Seq<u8>, offsets: Seq<int>) -> Seq<u8>
    decreases offsets.len(),
{
    if offsets.len() == 0 {
        data
    } else {
        cleared(data, offsets.drop_last()).update(offsets.last(), 0u8)
    }
}

/// The bytes of a serialised command as the engine gets them.
pub open spec fn patched(opcode: u16, data: Seq<u8>) -> Seq<u8> {
    cleared(data, patch_offsets(opcode))
}

/// What the patch comes to: the Host Buffer Size command has its sixth and
/// ninth byte cleared, every other command is passed on as it is.
pub proof fn lemma_patched(opcode: u16, data: Seq<u8>)
    ensures
        opcode == HOST_BUFFER_SIZE_OPCODE ==> patched(opcode, data) == data.update(5, 0u8).update(
            8,
            0u8,
        ),
        opcode != HOST_BUFFER_SIZE_OPCODE ==> patched(opcode, data) == data,
{
    reveal_with_fuel(cleared, 3);
    assert(seq![5int, 8int].drop_last() =~= seq![5int]);
    assert(seq![5int].drop_last() =~= Seq::<int>::empty());
}

/// The response to a command as read from the buffer, given what the event in
/// it decodes to: a buffer that does not decode is an HCI parameter error.
pub open spec fn response_of(event: Option<HciEventView>) -> Result<HciEventView, CmdError> {
    match event {
        Some(e) => Ok(e),
        None => Err(CmdError::Hci(INVALID_HCI_PARAMETERS)),
    }
}

/// What a response holds: the event by its view, or the error.
pub open spec fn response_view(r: Result<HciEvent, CmdError>) -> Result<HciEventView, CmdError> {
    match r {
        Ok(e) => Ok(e@),
        Err(e) => Err(e),
    }
}

/// The bytes of the event at the front of `buffer`: its header and as many
/// parameters as the header announces.
pub open spec fn response_bytes(buffer: Seq<u8>) -> Seq<u8>
    recommends
        buffer.len() >= 2,
{
    buffer.take(2 + buffer[1] as int)
}

/// The phase after a step and the kind of action that the step returns.
pub open spec fn command_step(phase: CommandPhase, event: CommandEvent, signaled: bool) -> (
    CommandPhase,
    CommandNext,
) {
    match event {
        CommandEvent::Start => if phase == CommandPhase::Idle {
            (CommandPhase::Allocating, CommandNext::Allocate)
        } else {
            (phase, CommandNext::AwaitLock)
        },
        CommandEvent::Allocated(given) => if given {
            (CommandPhase::Serializing, CommandNext::Serialize)
        } else {
            (
                CommandPhase::Idle,
                CommandNext::Fail { free_buffer: false, error: CmdError::Io(OsError::NoMem) },
            )
        },
        CommandEvent::Serialized(written) => if written {
            (CommandPhase::Submitting, CommandNext::Submit)
        } else {
            (
                CommandPhase::Idle,
                CommandNext::Fail { free_buffer: true, error: CmdError::Io(OsError::NoMem) },
            )
        },
        CommandEvent::Submitted(code) => if code == 0 {
            (CommandPhase::Waiting, CommandNext::AwaitSignal)
        } else {
            (
                CommandPhase::Idle,
                CommandNext::Fail { free_buffer: true, error: CmdError::Io(OsError::Invalid) },
            )
        },
        CommandEvent::Poll => if signaled {
            (CommandPhase::Idle, CommandNext::Finish)
        } else {
            (CommandPhase::Waiting, CommandNext::AwaitSignal)
        },
    }
}

/// The result of a command that answers with a command-complete event: the
/// bytes after the status where the event is for this command and its status
/// is zero, the status as an HCI error where it is not zero, and
/// `InvalidParameter` for any other response.
pub open spec fn sync_result(response: HciEventView, opcode: u16) -> Result<Seq<u8>, CmdError> {
    match response {
        HciEventView::CommandComplete { cmd_opcode, status, return_params } => if cmd_opcode
            != opcode {
            Err(CmdError::Io(OsError::InvalidParameter))
        } else if status != 0 {
            Err(CmdError::Hci(status))
        } else {
            Ok(return_params)
        },
        _ => Err(CmdError::Io(OsError::InvalidParameter)),
    }
}

/// The result of a command that answers with a command-status event: success
/// where the event is for this command, `InvalidParameter` for any other
/// response.
pub open spec fn async_result(response: HciEventView, opcode: u16) -> Result<(), CmdError> {
    match response {
        HciEventView::CommandStatus { cmd_opcode, status } => if cmd_opcode == opcode {
            Ok(())
        } else {
            Err(CmdError::Io(OsError::InvalidParameter))
        },
        _ => Err(CmdError::Io(OsError::InvalidParameter)),
    }
}

/// Whether a decoded packet is one of the two events that answer a command.
pub open spec fn is_command_event(packet: Option<HostPacket>) -> bool {
    match packet {
        Some(HostPacket::CommandComplete(_)) => true,
        Some(HostPacket::CommandStatus(_)) => true,
        _ => false,
    }
}

/// What the reader is told of a consumed notification, given what the bytes
/// decode to.
pub open spec fn read_step(packet: Option<HostPacket>) -> ReadStep {
    match packet {
        Some(HostPacket::CommandComplete(_)) => ReadStep::Intercepted,
        Some(HostPacket::CommandStatus(_)) => ReadStep::Intercepted,
        Some(p) => ReadStep::Packet(p),
        None => ReadStep::Failed(OsError::Invalid),
    }
}

/// The next action of writing an ACL packet. Without a chain the write fails
/// with `NoMem`; a failed serialisation frees the chain and returns its error;
/// after the hand-over the write has succeeded, and the chain is freed only
/// where the engine refused it.
pub open spec fn acl_write_step(event: WriteEvent) -> WriteAction {
    match event {
        WriteEvent::Allocated(given) => if given {
            WriteAction::Serialize
        } else {
            WriteAction::Done { free_chain: false, result: Err(OsError::NoMem) }
        },
        WriteEvent::Serialized(written) => match written {
            Ok(_) => WriteAction::Submit,
            Err(e) => WriteAction::Done { free_chain: true, result: Err(e) },
        },
        WriteEvent::Submitted(code) => WriteAction::Done { free_chain: code != 0, result: Ok(()) },
    }
}

/// The next action of writing an isochronous packet: the same steps as for an
/// ACL packet, so a write without a chain fails with `NoMem` before anything
/// is written or handed over.
pub open spec fn iso_write_step(event: WriteEvent) -> WriteAction {
    acl_write_step(event)
}

/// The calls into the engine that start-up makes, in order.
pub open spec fn init_plan(controller: bool, host: bool) -> Seq<InitStep> {
    (if controller {
        seq![InitStep::LlInit]
    } else {
        Seq::<InitStep>::empty()
    }) + (if host {
        seq![InitStep::DefaultEventqInit]
    } else {
        Seq::<InitStep>::empty()
    }) + seq![InitStep::MempoolModuleInit, InitStep::MsysInit, InitStep::TransportInit] + (if host {
        seq![InitStep::TransportHsInit]
    } else {
        Seq::<InitStep>::empty()
    }) + (if controller {
        seq![
            InitStep::HalTimerInit { timer: CPUTIME_TIMER },
            InitStep::CputimeInit { frequency: CPUTIME_FREQUENCY },
            InitStep::TransportLlInit,
        ]
    } else {
        Seq::<InitStep>::empty()
    })
}

/// One poll of the drive loop while it holds an event: the loop afterwards and
/// its action. The event runs exactly where, at this poll, no notification is
/// unread and the completion signal is lowered. While the signal is raised the
/// loop raises it again for its awaiter and yields; while only a notification
/// is unread it waits for the reader.
pub open spec fn task_poll(task: TaskView, t: TransportView) -> (TaskView, TaskAction)
    recommends
        task.held.is_some(),
{
    if t.signaled {
        (task, TaskAction::Yield)
    } else if t.pending.len() > 0 {
        (task, TaskAction::AwaitReader)
    } else {
        (TaskView { held: None }, TaskAction::Run(task.held.unwrap()))
    }
}

/// One step of the drive loop: without an event in hand it takes `dequeued`, or
/// asks for one; with an event in hand it polls.
pub open spec fn task_step(task: TaskView, t: TransportView, dequeued: Option<usize>) -> (
    TaskView,
    TaskAction,
) {
    if task.held.is_some() {
        task_poll(task, t)
    } else if dequeued.is_some() {
        task_poll(TaskView { held: dequeued }, t)
    } else {
        (task, TaskAction::AwaitEvent)
    }
}

/// No handler runs while the host has not caught up: a step runs an event
/// exactly where the loop has one in hand or is given one, no notification is
/// unread and the completion signal is lowered. The event that runs is the one
/// in hand, or else the one given, and the loop holds none afterwards; an
/// event that does not run stays in hand.
pub proof fn lemma_run_waits_for_host(task: TaskView, t: TransportView, dequeued: Option<usize>)
    ensures
        task_step(task, t, dequeued).1 is Run <==> (task.held.is_some() || dequeued.is_some())
            && t.pending.len() == 0 && !t.signaled,
        task_step(task, t, dequeued).1 is Run ==> task_step(task, t, dequeued).0.held.is_none()
            && task_step(task, t, dequeued).1 == TaskAction::Run(
            if task.held.is_some() {
                task.held.unwrap()
            } else {
                dequeued.unwrap()
            },
        ),
        task_step(task, t, dequeued).1 is Yield <==> (task.held.is_some() || dequeued.is_some())
            && t.signaled,
        task_step(task, t, dequeued).1 is AwaitReader <==> (task.held.is_some()
            || dequeued.is_some()) && !t.signaled && t.pending.len() > 0,
        !(task_step(task, t, dequeued).1 is Run) && (task.held.is_some() || dequeued.is_some())
            ==> task_step(task, t, dequeued).0.held == (if task.held.is_some() {
            task.held
        } else {
            dequeued
        }),
{
}

impl CommandAction {
    /// The kind of this action.
    pub open spec fn next(self) -> CommandNext {
        match self {
            CommandAction::AwaitLock => CommandNext::AwaitLock,
            CommandAction::Allocate => CommandNext::Allocate,
            CommandAction::Serialize => CommandNext::Serialize,
            CommandAction::Submit => CommandNext::Submit,
            CommandAction::AwaitSignal => CommandNext::AwaitSignal,
            CommandAction::Fail { free_buffer, error } => CommandNext::Fail { free_buffer, error },
            CommandAction::Finish(_) => CommandNext::Finish,
        }
    }
}

impl NimbleController {
    /// Where the command in flight stands.
    pub closed spec fn phase(&self) -> CommandPhase {
        self.phase
    }

    /// Whether `event` is the one that the phase waits for. A start may come at
    /// any time.
    pub open spec fn expects(&self, event: CommandEvent) -> bool {
        match event {
            CommandEvent::Start => true,
            CommandEvent::Allocated(_) => self.phase() == CommandPhase::Allocating,
            CommandEvent::Serialized(_) => self.phase() == CommandPhase::Serializing,
            CommandEvent::Submitted(_) => self.phase() == CommandPhase::Submitting,
            CommandEvent::Poll => self.phase() == CommandPhase::Waiting,
        }
    }

    /// Where the command in flight stands.
    pub fn current_phase(&self) -> (p: CommandPhase)
        ensures
            p == self.phase(),
    {
        self.phase
    }

    /// Whether `event` is the one that the phase waits for.
    pub fn accepts(&self, event: CommandEvent) -> (ok: bool)
        ensures
            ok == self.expects(event),
    {
        match event {
            CommandEvent::Start => true,
            CommandEvent::Allocated(_) => self.phase == CommandPhase::Allocating,
            CommandEvent::Serialized(_) => self.phase == CommandPhase::Serializing,
            CommandEvent::Submitted(_) => self.phase == CommandPhase::Submitting,
            CommandEvent::Poll => self.phase == CommandPhase::Waiting,
        }
    }

    /// Creates the one controller of a transport.
    pub fn new(t: &mut Transport) -> (c: NimbleController)
        requires
            !old(t)@.in_use,
        ensures
            final(t)@ == (TransportView { in_use: true, ..old(t)@ }),
            c.phase() == CommandPhase::Idle,
    {
        t.claim_controller();
        NimbleController { phase: CommandPhase::Idle }
    }

    /// The drive loop of this controller, with no event in hand.
    pub fn create_task(&self) -> (task: NimbleControllerTask)
        ensures
            task@ == (TaskView { held: None }),
    {
        NimbleControllerTask { _init: (), held: None }
    }

    /// Neutralises the parameters of a serialised command that the engine does
    /// not support.
    pub fn transform(&self, opcode: u16, cmd_data: &mut Vec<u8>)
        requires
            opcode == HOST_BUFFER_SIZE_OPCODE ==> old(cmd_data)@.len() > 8,
        ensures
            final(cmd_data)@ == patched(opcode, old(cmd_data)@),
    {
        proof {
            lemma_patched(opcode, cmd_data@);
        }
        if opcode == host_buffer_size_opcode() {
            cmd_data.set(5, 0);
            cmd_data.set(8, 0);
        }
    }

    /// Turns the decoding of the response bytes into the response.
    pub fn command_response(event: Option<HciEvent>) -> (r: Result<HciEvent, CmdError>)
        ensures
            response_view(r) == response_of(event_view(event)),
    {
        match event {
            Some(e) => Ok(e),
            None => Err(CmdError::Hci(INVALID_HCI_PARAMETERS)),
        }
    }

    /// One step of running a command with opcode `opcode`, whose serialised
    /// form is `cmd_data` once it has been written.
    ///
    /// The steps take the command lock, ask for a buffer, have the command
    /// written and patched, hand it to the engine and wait for the completion
    /// signal. A woken command that finds the signal raised takes it, releases
    /// the lock and returns what the event at the front of the read buffer
    /// decodes to. Every failure on the way releases the lock.
    pub fn execute_command(
        &mut self,
        t: &mut Transport,
        event: CommandEvent,
        opcode: u16,
        cmd_data: &mut Vec<u8>,
    ) -> (action: CommandAction)
        requires
            old(t).wf(),
            old(self).expects(event),
            event == CommandEvent::Serialized(true) && opcode == HOST_BUFFER_SIZE_OPCODE ==> old(
                cmd_data,
            )@.len() > 8,
        ensures
            final(t).wf(),
            (final(self).phase(), action.next()) == command_step(
                old(self).phase(),
                event,
                old(t)@.signaled,
            ),
            final(cmd_data)@ == (if event == CommandEvent::Serialized(true) {
                patched(opcode, old(cmd_data)@)
            } else {
                old(cmd_data)@
            }),
            final(t)@ == (if event == CommandEvent::Poll {
                TransportView { signaled: false, ..old(t)@ }
            } else {
                old(t)@
            }),
            action matches CommandAction::Finish(r) ==> response_view(r) == response_of(
                decoded_event(response_bytes(old(t)@.buffer)),
            ),
    {
        match event {
            CommandEvent::Start => {
                if self.phase == CommandPhase::Idle {
                    self.phase = CommandPhase::Allocating;
                    CommandAction::Allocate
                } else {
                    CommandAction::AwaitLock
                }
            },
            CommandEvent::Allocated(given) => {
                if given {
                    self.phase = CommandPhase::Serializing;
                    CommandAction::Serialize
                } else {
                    self.phase = CommandPhase::Idle;
                    CommandAction::Fail { free_buffer: false, error: CmdError::Io(OsError::NoMem) }
                }
            },
            CommandEvent::Serialized(written) => {
                if written {
                    self.transform(opcode, cmd_data);
                    self.phase = CommandPhase::Submitting;
                    CommandAction::Submit
                } else {
                    self.phase = CommandPhase::Idle;
                    CommandAction::Fail { free_buffer: true, error: CmdError::Io(OsError::NoMem) }
                }
            },
            CommandEvent::Submitted(code) => {
                if code == 0 {
                    self.phase = CommandPhase::Waiting;
                    CommandAction::AwaitSignal
                } else {
                    self.phase = CommandPhase::Idle;
                    CommandAction::Fail { free_buffer: true, error: CmdError::Io(OsError::Invalid) }
                }
            },
            CommandEvent::Poll => {
                if t.take_signal() {
                    self.phase = CommandPhase::Idle;
                    CommandAction::Finish(Self::command_response(t.decode_response()))
                } else {
                    CommandAction::AwaitSignal
                }
            },
        }
    }

    /// The result of a command that completes at once, from the response to it.
    /// On success the caller gets the return parameters that follow the
    /// status.
    pub fn exec_sync(&self, response: HciEvent, opcode: u16) -> (r: Result<Vec<u8>, CmdError>)
        ensures
            r.is_ok() == sync_result(response@, opcode).is_ok(),
            r matches Ok(bytes) ==> sync_result(response@, opcode) == Ok::<Seq<u8>, CmdError>(
                bytes@,
            ),
            r matches Err(e) ==> sync_result(response@, opcode) == Err::<Seq<u8>, CmdError>(e),
    {
        match response {
            HciEvent::CommandComplete { cmd_opcode, status, return_params } => {
                if cmd_opcode != opcode {
                    Err(CmdError::Io(OsError::InvalidParameter))
                } else if status != 0 {
                    Err(CmdError::Hci(status))
                } else {
                    Ok(return_params)
                }
            },
            _ => Err(CmdError::Io(OsError::InvalidParameter)),
        }
    }

    /// The result of a command that the controller only acknowledges, from the
    /// response to it.
    pub fn exec_async(&self, response: HciEvent, opcode: u16) -> (r: Result<(), CmdError>)
        ensures
            r == async_result(response@, opcode),
    {
        match response {
            HciEvent::CommandStatus { cmd_opcode, status } => {
                if cmd_opcode == opcode {
                    Ok(())
                } else {
                    Err(CmdError::Io(OsError::InvalidParameter))
                }
            },
            _ => Err(CmdError::Io(OsError::InvalidParameter)),
        }
    }

    /// Tells the reader of a notification that it has consumed what to do with
    /// the packet that the bytes decode to. A command event raises the
    /// completion signal and is kept from the reader.
    pub fn read_packet(&self, t: &mut Transport, packet: Option<HostPacket>) -> (step: ReadStep)
        requires
            old(t).wf(),
        ensures
            final(t).wf(),
            step == read_step(packet),
            final(t)@ == (TransportView {
                signaled: old(t)@.signaled || is_command_event(packet),
                ..old(t)@
            }),
    {
        match packet {
            Some(HostPacket::CommandComplete(_)) => {
                t.raise_signal();
                ReadStep::Intercepted
            },
            Some(HostPacket::CommandStatus(_)) => {
                t.raise_signal();
                ReadStep::Intercepted
            },
            Some(p) => ReadStep::Packet(p),
            None => ReadStep::Failed(OsError::Invalid),
        }
    }

    /// One read attempt into a buffer of the caller. Without a notification
    /// nothing changes. Otherwise the notification is consumed, the front of
    /// the read buffer fills `buf`, and the bytes are decoded as the kind
    /// that the notification carried.
    pub fn read(&self, t: &mut Transport, buf: &mut Vec<u8>) -> (step: ReadStep)
        requires
            old(t).wf(),
            old(buf)@.len() <= old(t)@.buffer.len(),
        ensures
            final(t).wf(),
            old(t)@.pending.len() == 0 ==> step == ReadStep::Pending && final(t)@ == old(t)@
                && final(buf)@ == old(buf)@,
            old(t)@.pending.len() > 0 ==> {
                let bytes = old(t)@.buffer.take(old(buf)@.len() as int);
                let packet = decoded_packet(old(t)@.pending[0], bytes);
                &&& final(buf)@ == bytes
                &&& step == read_step(packet)
                &&& final(t)@ == (TransportView {
                    pending: Seq::<PacketKind>::empty(),
                    signaled: old(t)@.signaled || is_command_event(packet),
                    ..old(t)@
                })
            },
    {
        match t.take_notification() {
            None => ReadStep::Pending,
            Some(kind) => {
                t.copy_front(buf);
                let packet: Option<HostPacket> = decode_packet(kind, buf.as_slice());
                self.read_packet(t, packet)
            },
        }
    }

    /// The next action of writing an ACL packet to the controller.
    pub fn write_acl_data(&self, event: WriteEvent) -> (action: WriteAction)
        ensures
            action == acl_write_step(event),
    {
        match event {
            WriteEvent::Allocated(given) => {
                if given {
                    WriteAction::Serialize
                } else {
                    WriteAction::Done { free_chain: false, result: Err(OsError::NoMem) }
                }
            },
            WriteEvent::Serialized(written) => match written {
                Ok(_) => WriteAction::Submit,
                Err(e) => WriteAction::Done { free_chain: true, result: Err(e) },
            },
            WriteEvent::Submitted(code) => WriteAction::Done {
                free_chain: code != 0,
                result: Ok(()),
            },
        }
    }

    /// The next action of writing an isochronous packet to the controller.
    pub fn write_iso_data(&self, event: WriteEvent) -> (action: WriteAction)
        ensures
            action == iso_write_step(event),
    {
        self.write_acl_data(event)
    }

    /// Refuses a synchronous packet. The engine has no intake for synchronous
    /// data, so every such write fails with the generic error and nothing is
    /// allocated, written or handed over.
    pub fn write_sync_data(&self) -> (r: Result<(), OsError>)
        ensures
            r == Err::<(), OsError>(OsError::Error),
    {
        Err(OsError::Error)
    }
}

impl View for NimbleControllerTask {
    type V = TaskView;

    closed spec fn view(&self) -> TaskView {
        TaskView { held: self.held }
    }
}

/// The transmit power to ask of the link layer: the configured power, capped
/// at the configured maximum.
pub open spec fn capped_power(requested_dbm: u32, max_dbm: u32) -> u32 {
    if requested_dbm <= max_dbm {
        requested_dbm
    } else {
        max_dbm
    }
}

impl NimbleControllerTask {
    /// What the drive loop asks of the link layer before its first step, once
    /// the radio has started with status zero: the transmit power to round and
    /// set. A radio that does not start is fatal.
    pub fn start(&self, phy_status: i32, requested_dbm: u32, max_dbm: u32) -> (power: u32)
        requires
            phy_status == 0,
        ensures
            power == capped_power(requested_dbm, max_dbm),
    {
        if requested_dbm <= max_dbm {
            requested_dbm
        } else {
            max_dbm
        }
    }

    /// One step of the drive loop. `dequeued` is the event that the link
    /// layer's queue gave since the last step, if the loop asked for one; it
    /// is taken only where the loop has no event in hand.
    ///
    /// The event in hand runs at the first step at which no notification is
    /// unread and the completion signal is lowered, and leaves the loop's hand
    /// with that step. A raised completion signal is taken and raised again
    /// for its awaiter, so the transport is left as it was.
    pub fn run(&mut self, t: &mut Transport, dequeued: Option<usize>) -> (action: TaskAction)
        requires
            old(t).wf(),
        ensures
            final(t).wf(),
            final(t)@ == old(t)@,
            (final(self)@, action) == task_step(old(self)@, old(t)@, dequeued),
    {
        if self.held.is_none() {
            if dequeued.is_none() {
                return TaskAction::AwaitEvent;
            }
            self.held = dequeued;
        }
        if t.take_signal() {
            t.raise_signal();
            TaskAction::Yield
        } else if t.is_pending() {
            TaskAction::AwaitReader
        } else {
            let ev: usize = self.held.unwrap();
            self.held = None;
            TaskAction::Run(ev)
        }
    }
}

/// Starts the engine once: marks it initialised and gives the calls to make,
/// in order, for the parts that are built in.
pub fn initialize_nimble(initialized: &mut bool, controller: bool, host: bool) -> (steps: Vec<
    InitStep,
>)
    requires
        !*old(initialized),
    ensures
        *final(initialized),
        steps@ == init_plan(controller, host),
{
    *initialized = true;
    let mut steps: Vec<InitStep> = Vec::new();
    if controller {
        steps.push(InitStep::LlInit);
    }
    if host {
        steps.push(InitStep::DefaultEventqInit);
    }
    steps.push(InitStep::MempoolModuleInit);
    steps.push(InitStep::MsysInit);
    steps.push(InitStep::TransportInit);
    if host {
        steps.push(InitStep::TransportHsInit);
    }
    if controller {
        steps.push(InitStep::HalTimerInit { timer: CPUTIME_TIMER });
        steps.push(InitStep::CputimeInit { frequency: CPUTIME_FREQUENCY });
        steps.push(InitStep::TransportLlInit);
    }
    steps
}

} // verus!
