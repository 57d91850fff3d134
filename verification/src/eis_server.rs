//! EIS (emulated input server) side of the portal.
//!
//! `ConnectToEIS` hands the client one end of a socketpair; the other end stays
//! here. The client connects as a *receiver* context, so this side creates the
//! devices and pushes events at it. What to create, what to emit and when to
//! stop is decided in this module; the socket itself is driven from outside.

use crate::counting::counted;
use vstd::prelude::*;
use vstd::slice::slice_to_vec;

verus! {

/// Everything the capture side can ask the EIS connection to emit. Fractional
/// distances are carried as the bit patterns of their floating-point values.
#[derive(Debug, Clone, Copy, PartialEq, Eq, Structural)]
pub enum EisCommand {
    /// Begin a capture run. `sequence` must match the `activation_id` sent in
    /// the portal's `Activated` signal — that pairing is the whole point of the
    /// id, it lets the client attribute an event stream to one activation.
    StartEmulating { sequence: u32 },
    StopEmulating,
    Motion { dx: u32, dy: u32 },
    Button { button: u32, press: bool },
    Scroll { dx: u32, dy: u32 },
    ScrollDiscrete { dx: i32, dy: i32 },
    ScrollStop,
    Key { keycode: u32, press: bool },
    /// Close the frame; every batch of events needs one to be delivered.
    Frame,
}

/// Names one EIS connection.
#[derive(Debug, Clone, Copy, PartialEq, Eq, Structural)]
pub struct EisHandle {
    pub id: u64,
}

/// One of the two devices a client is given.
#[derive(Debug, Clone, Copy, PartialEq, Eq, Structural)]
pub enum DeviceKind {
    Pointer,
    Keyboard,
}

/// Which interfaces the client negotiated for its pointer.
#[derive(Debug, Clone, Copy, PartialEq, Eq, Structural)]
pub struct PointerDevice {
    pub motion: bool,
    pub button: bool,
    pub scroll: bool,
}

/// Which interfaces the client negotiated for its keyboard.
#[derive(Debug, Clone, Copy, PartialEq, Eq, Structural)]
pub struct KeyboardDevice {
    pub keys: bool,
}

/// One request to make of a device.
#[derive(Debug, Clone, Copy, PartialEq, Eq, Structural)]
pub enum DeviceCall {
    StartEmulating { device: DeviceKind, sequence: u32 },
    StopEmulating { device: DeviceKind },
    MotionRelative { dx: u32, dy: u32 },
    Button { button: u32, press: bool },
    Scroll { dx: u32, dy: u32 },
    ScrollDiscrete { dx: i32, dy: i32 },
    /// Both axes stop, and neither is cancelled.
    ScrollStop,
    Key { keycode: u32, press: bool },
    /// The time is in microseconds since the connection was taken over.
    Frame { device: DeviceKind, time: u64 },
}

/// Devices we hand the client once it binds a seat.
#[derive(Debug, Clone, Copy, PartialEq, Eq, Structural)]
pub struct Devices {
    pub keyboard: Option<KeyboardDevice>,
    pub pointer: Option<PointerDevice>,
    pub emulating: bool,
}

/// A time as it is sent, at most what 64 bits hold.
pub open spec fn frame_time(micros: int) -> u64 {
    if micros <= u64::MAX {
        micros as u64
    } else {
        u64::MAX
    }
}

/// One call if a condition holds, else none.
pub open spec fn call_if(cond: bool, call: DeviceCall) -> Seq<DeviceCall> {
    if cond {
        seq![call]
    } else {
        Seq::empty()
    }
}

impl Devices {
    /// The devices that exist, the pointer first.
    pub open spec fn present(self) -> Seq<DeviceKind> {
        (if self.pointer is Some {
            seq![DeviceKind::Pointer]
        } else {
            Seq::empty()
        }) + (if self.keyboard is Some {
            seq![DeviceKind::Keyboard]
        } else {
            Seq::empty()
        })
    }

    /// The calls that a command comes to. Starting while events already flow,
    /// and stopping while none do, are no calls; an event needs a device with
    /// the matching interface.
    pub open spec fn calls(self, cmd: EisCommand, micros: int) -> Seq<DeviceCall> {
        match cmd {
            EisCommand::StartEmulating { sequence } => if self.emulating {
                Seq::empty()
            } else {
                self.present().map_values(
                    |d: DeviceKind| DeviceCall::StartEmulating { device: d, sequence },
                )
            },
            EisCommand::StopEmulating => if self.emulating {
                self.present().map_values(|d: DeviceKind| DeviceCall::StopEmulating { device: d })
            } else {
                Seq::empty()
            },
            EisCommand::Motion { dx, dy } => call_if(
                self.pointer matches Some(p) && p.motion,
                DeviceCall::MotionRelative { dx, dy },
            ),
            EisCommand::Button { button, press } => call_if(
                self.pointer matches Some(p) && p.button,
                DeviceCall::Button { button, press },
            ),
            EisCommand::Scroll { dx, dy } => call_if(
                self.pointer matches Some(p) && p.scroll,
                DeviceCall::Scroll { dx, dy },
            ),
            EisCommand::ScrollDiscrete { dx, dy } => call_if(
                self.pointer matches Some(p) && p.scroll,
                DeviceCall::ScrollDiscrete { dx, dy },
            ),
            EisCommand::ScrollStop => call_if(
                self.pointer matches Some(p) && p.scroll,
                DeviceCall::ScrollStop,
            ),
            EisCommand::Key { keycode, press } => call_if(
                self.keyboard matches Some(k) && k.keys,
                DeviceCall::Key { keycode, press },
            ),
            EisCommand::Frame => self.present().map_values(
                |d: DeviceKind| DeviceCall::Frame { device: d, time: frame_time(micros) },
            ),
        }
    }

    /// The devices after a command: only whether events flow can change.
    pub open spec fn next(self, cmd: EisCommand) -> Devices {
        Devices {
            emulating: match cmd {
                EisCommand::StartEmulating { .. } => true,
                EisCommand::StopEmulating => false,
                _ => self.emulating,
            },
            ..self
        }
    }

    /// No devices, and no events.
    pub fn new() -> (r: Devices)
        ensures
            r.keyboard is None,
            r.pointer is None,
            !r.emulating,
    {
        Devices { keyboard: None, pointer: None, emulating: false }
    }

    /// Work out what one command asks of the devices. `micros` is the time since
    /// the connection was taken over.
    pub fn apply(&mut self, cmd: &EisCommand, micros: u128) -> (calls: Vec<DeviceCall>)
        ensures
            calls@ == old(self).calls(*cmd, micros as int),
            *final(self) == old(self).next(*cmd),
    {
        let mut calls: Vec<DeviceCall> = Vec::new();
        match *cmd {
            EisCommand::StartEmulating { sequence } => {
                if !self.emulating {
                    if self.pointer.is_some() {
                        calls.push(
                            DeviceCall::StartEmulating { device: DeviceKind::Pointer, sequence },
                        );
                    }
                    if self.keyboard.is_some() {
                        calls.push(
                            DeviceCall::StartEmulating { device: DeviceKind::Keyboard, sequence },
                        );
                    }
                    self.emulating = true;
                }
            },
            EisCommand::StopEmulating => {
                if self.emulating {
                    if self.pointer.is_some() {
                        calls.push(DeviceCall::StopEmulating { device: DeviceKind::Pointer });
                    }
                    if self.keyboard.is_some() {
                        calls.push(DeviceCall::StopEmulating { device: DeviceKind::Keyboard });
                    }
                    self.emulating = false;
                }
            },
            EisCommand::Motion { dx, dy } => {
                if let Some(p) = self.pointer {
                    if p.motion {
                        calls.push(DeviceCall::MotionRelative { dx, dy });
                    }
                }
            },
            EisCommand::Button { button, press } => {
                if let Some(p) = self.pointer {
                    if p.button {
                        calls.push(DeviceCall::Button { button, press });
                    }
                }
            },
            EisCommand::Scroll { dx, dy } => {
                if let Some(p) = self.pointer {
                    if p.scroll {
                        calls.push(DeviceCall::Scroll { dx, dy });
                    }
                }
            },
            EisCommand::ScrollDiscrete { dx, dy } => {
                if let Some(p) = self.pointer {
                    if p.scroll {
                        calls.push(DeviceCall::ScrollDiscrete { dx, dy });
                    }
                }
            },
            EisCommand::ScrollStop => {
                if let Some(p) = self.pointer {
                    if p.scroll {
                        calls.push(DeviceCall::ScrollStop);
                    }
                }
            },
            EisCommand::Key { keycode, press } => {
                if let Some(k) = self.keyboard {
                    if k.keys {
                        calls.push(DeviceCall::Key { keycode, press });
                    }
                }
            },
            EisCommand::Frame => {
                let time: u64 = if micros <= u64::MAX as u128 {
                    micros as u64
                } else {
                    u64::MAX
                };
                if self.pointer.is_some() {
                    calls.push(DeviceCall::Frame { device: DeviceKind::Pointer, time });
                }
                if self.keyboard.is_some() {
                    calls.push(DeviceCall::Frame { device: DeviceKind::Keyboard, time });
                }
            },
        }
        calls
    }
}

/// What a seat or a device can do.
#[derive(Debug, Clone, Copy, PartialEq, Eq, Structural)]
pub struct Capabilities {
    pub pointer: bool,
    pub keyboard: bool,
    pub button: bool,
    pub scroll: bool,
}

/// What became of one pending request while the client is still introducing
/// itself.
#[derive(Debug, Clone, Copy, PartialEq, Eq, Structural)]
pub enum HandshakeInput {
    /// No request is left.
    Drained,
    /// The request could not be parsed.
    ParseError,
    /// The request named an object that does not exist.
    InvalidObject { id: u64 },
    /// The request does not belong in a handshake.
    Refused,
    /// The request was taken in, and the handshake goes on.
    Handled,
    /// The request was the last one; these interfaces were negotiated.
    Complete { seat: bool, device: bool },
}

/// What to do next with a client that is still introducing itself.
#[derive(Debug, Clone, Copy, PartialEq, Eq, Structural)]
pub enum HandshakeStep {
    /// Flush, and wait for more input.
    Wait,
    /// Take the next request.
    Continue,
    /// Give the connection up.
    Fail(HandshakeFailure),
    /// Tell the client that it broke the protocol, flush, and give up.
    Disconnect,
    /// Offer a seat with these capabilities and flush; the connection stands.
    AddSeat { capabilities: Capabilities },
}

/// Why a handshake failed.
#[derive(Debug, Clone, Copy, PartialEq, Eq, Structural)]
pub enum HandshakeFailure {
    ParseError,
    InvalidObject { id: u64 },
    Refused,
}

/// Decide how a handshake goes on.
///
/// During the handshake there is no object to blame for an invalid one, so it
/// is a protocol error like any other.
pub fn drive_handshake(input: HandshakeInput) -> (step: HandshakeStep)
    ensures
        step == match input {
            HandshakeInput::Drained => HandshakeStep::Wait,
            HandshakeInput::Handled => HandshakeStep::Continue,
            HandshakeInput::ParseError => HandshakeStep::Fail(HandshakeFailure::ParseError),
            HandshakeInput::InvalidObject { id } => HandshakeStep::Fail(
                HandshakeFailure::InvalidObject { id },
            ),
            HandshakeInput::Refused => HandshakeStep::Fail(HandshakeFailure::Refused),
            HandshakeInput::Complete { seat, device } => if seat && device {
                HandshakeStep::AddSeat {
                    capabilities: (Capabilities {
                        pointer: true,
                        keyboard: true,
                        button: true,
                        scroll: true,
                    }),
                }
            } else {
                HandshakeStep::Disconnect
            },
        },
        step is AddSeat <==> input == (HandshakeInput::Complete { seat: true, device: true }),
        step matches HandshakeStep::AddSeat { capabilities } ==> capabilities.pointer
            && capabilities.keyboard && capabilities.button && capabilities.scroll,
        step is Disconnect <==> (input matches HandshakeInput::Complete { seat, device } && !(seat
            && device)),
        step is Wait <==> input is Drained,
        step is Continue <==> input is Handled,
        input matches HandshakeInput::InvalidObject { id } ==> step == HandshakeStep::Fail(
            HandshakeFailure::InvalidObject { id },
        ),
{
    match input {
        HandshakeInput::Drained => HandshakeStep::Wait,
        HandshakeInput::Handled => HandshakeStep::Continue,
        HandshakeInput::ParseError => HandshakeStep::Fail(HandshakeFailure::ParseError),
        HandshakeInput::InvalidObject { id } => HandshakeStep::Fail(
            HandshakeFailure::InvalidObject { id },
        ),
        HandshakeInput::Refused => HandshakeStep::Fail(HandshakeFailure::Refused),
        HandshakeInput::Complete { seat, device } => {
            if !seat || !device {
                HandshakeStep::Disconnect
            } else {
                // The client drives capability negotiation from here by binding
                // the seat.
                HandshakeStep::AddSeat {
                    capabilities: Capabilities {
                        pointer: true,
                        keyboard: true,
                        button: true,
                        scroll: true,
                    },
                }
            }
        },
    }
}

/// What became of one pending request of a connected client.
#[derive(Debug, Clone, Copy, PartialEq, Eq, Structural)]
pub enum RequestInput {
    /// No request is left.
    Drained,
    /// The request could not be parsed.
    ParseError,
    /// The request named an object that does not exist.
    InvalidObject { id: u64 },
    /// The request breaks the protocol.
    Refused,
    /// The client leaves.
    Disconnect,
    /// The client binds the seat with these capabilities.
    Bind { capabilities: Capabilities },
    /// A request that asks for nothing here.
    Other,
}

/// What to do next with a connected client.
#[derive(Debug, Clone, Copy, PartialEq, Eq, Structural)]
pub enum RequestStep {
    /// Nothing more to read for now; the connection stands.
    Wait,
    /// The client has disconnected.
    Close,
    /// Give the connection up.
    FailParse,
    /// Give the connection up.
    FailRequest,
    /// Tell the client that the object does not exist, and take the next request.
    ReportInvalid { id: u64 },
    /// Add the devices that are marked, then take the next request.
    AddDevices { pointer: bool, keyboard: bool },
    /// Take the next request.
    Continue,
}

impl Devices {
    /// What one request of a connected client comes to. A bind adds the devices
    /// that it wants and that are not there yet.
    pub open spec fn step(self, input: RequestInput) -> RequestStep {
        match input {
            RequestInput::Drained => RequestStep::Wait,
            RequestInput::Disconnect => RequestStep::Close,
            RequestInput::ParseError => RequestStep::FailParse,
            RequestInput::Refused => RequestStep::FailRequest,
            RequestInput::InvalidObject { id } => RequestStep::ReportInvalid { id },
            RequestInput::Bind { capabilities } => RequestStep::AddDevices {
                pointer: self.pointer is None && capabilities.pointer,
                keyboard: self.keyboard is None && capabilities.keyboard,
            },
            RequestInput::Other => RequestStep::Continue,
        }
    }

    /// The devices once the ones that a step marks are added.
    pub open spec fn grown(
        self,
        step: RequestStep,
        pointer_device: PointerDevice,
        keyboard_device: KeyboardDevice,
    ) -> Devices {
        match step {
            RequestStep::AddDevices { pointer, keyboard } => Devices {
                pointer: if pointer {
                    Some(pointer_device)
                } else {
                    self.pointer
                },
                keyboard: if keyboard {
                    Some(keyboard_device)
                } else {
                    self.keyboard
                },
                ..self
            },
            _ => self,
        }
    }

    /// Decide what one request of a connected client asks for.
    pub fn drive_requests(&self, input: RequestInput) -> (step: RequestStep)
        ensures
            step == self.step(input),
    {
        match input {
            RequestInput::Drained => RequestStep::Wait,
            RequestInput::Disconnect => RequestStep::Close,
            RequestInput::ParseError => RequestStep::FailParse,
            RequestInput::Refused => RequestStep::FailRequest,
            RequestInput::InvalidObject { id } => RequestStep::ReportInvalid { id },
            RequestInput::Bind { capabilities } => RequestStep::AddDevices {
                pointer: self.pointer.is_none() && capabilities.pointer,
                keyboard: self.keyboard.is_none() && capabilities.keyboard,
            },
            RequestInput::Other => RequestStep::Continue,
        }
    }

    /// Record the pointer that was added.
    pub fn add_pointer(&mut self, device: PointerDevice)
        ensures
            *final(self) == (Devices { pointer: Some(device), ..*old(self) }),
    {
        self.pointer = Some(device);
    }

    /// Record the keyboard that was added.
    pub fn add_keyboard(&mut self, device: KeyboardDevice)
        ensures
            *final(self) == (Devices { keyboard: Some(device), ..*old(self) }),
    {
        self.keyboard = Some(device);
    }
}

/// What a device of a kind can do.
pub open spec fn device_capabilities(kind: DeviceKind) -> Capabilities {
    match kind {
        DeviceKind::Pointer => Capabilities {
            pointer: true,
            keyboard: false,
            button: true,
            scroll: true,
        },
        DeviceKind::Keyboard => Capabilities {
            pointer: false,
            keyboard: true,
            button: false,
            scroll: false,
        },
    }
}

/// How to add a device: its name and its capabilities.
pub fn add_device(kind: DeviceKind) -> (r: (&'static str, Capabilities))
    ensures
        r.0@ == match kind {
            DeviceKind::Pointer => "niri-capture-pointer"@,
            DeviceKind::Keyboard => "niri-capture-keyboard"@,
        },
        r.1 == device_capabilities(kind),
{
    match kind {
        DeviceKind::Pointer => (
            "niri-capture-pointer",
            Capabilities { pointer: true, keyboard: false, button: true, scroll: true },
        ),
        DeviceKind::Keyboard => (
            "niri-capture-keyboard",
            Capabilities { pointer: false, keyboard: true, button: false, scroll: false },
        ),
    }
}

/// Which keymap goes out with a new device.
///
/// Only keyboard devices carry a keymap; pointers legitimately have none.
/// Without one a client guesses a layout.
pub fn keymap_for(has_keyboard: bool, keymap: Option<String>) -> (r: Option<(Vec<u8>, u32)>)
    ensures
        match r {
            Some((bytes, size)) => {
                &&& has_keyboard
                &&& keymap matches Some(text) && bytes@ == terminated(text) && size
                    == terminated(text).len()
            },
            None => has_keyboard ==> match keymap {
                Some(text) => terminated(text).len() > u32::MAX,
                None => true,
            },
        },
{
    if !has_keyboard {
        return None;
    }
    match keymap {
        Some(text) => keymap_bytes(text.as_str()),
        None => None,
    }
}

/// The bytes of a text and a NUL behind them.
pub open spec fn terminated(text: String) -> Seq<u8> {
    vstd::utf8::encode_utf8(text@).push(0u8)
}

/// The content of the file that a keymap is handed over in, and its size.
///
/// xkb keymaps passed over a file descriptor are NUL-terminated. One whose size
/// does not fit the protocol's 32 bits is not sent.
pub fn keymap_bytes(keymap: &str) -> (r: Option<(Vec<u8>, u32)>)
    ensures
        match r {
            Some((bytes, size)) => bytes@ == vstd::utf8::encode_utf8(keymap@).push(0u8) && size
                == bytes@.len(),
            None => vstd::utf8::encode_utf8(keymap@).len() + 1 > u32::MAX,
        },
{
    let mut bytes: Vec<u8> = slice_to_vec(keymap.as_bytes());
    if bytes.len() < u32::MAX as usize {
        bytes.push(0);
        let size: u32 = bytes.len() as u32;
        Some((bytes, size))
    } else {
        None
    }
}

/// What came of reading the socket.
#[derive(Debug, Clone, Copy, PartialEq, Eq, Structural)]
pub enum ReadOutcome {
    Data,
    EndOfFile,
    Error,
}

/// What to do after reading the socket.
#[derive(Debug, Clone, Copy, PartialEq, Eq, Structural)]
pub enum ReadStep {
    /// Feed the pending requests to the handshake.
    Handshake,
    /// Serve the pending requests.
    Requests,
    /// The client is gone.
    Finish,
    /// Give the connection up.
    Fail,
}

/// One EIS connection.
#[derive(Debug, Clone, Copy, PartialEq, Eq, Structural)]
pub struct Server {
    /// Set once the handshake is complete.
    pub connected: bool,
    pub devices: Devices,
    /// How many devices a receiving client was given, wrapping.
    pub sequence: u32,
}

impl Server {
    /// A connection whose handshake has not begun.
    pub fn new() -> (r: Server)
        ensures
            !r.connected,
            r.devices.keyboard is None,
            r.devices.pointer is None,
            !r.devices.emulating,
            r.sequence == 0,
    {
        Server { connected: false, devices: Devices::new(), sequence: 0 }
    }

    /// Work out what a command asks of the devices.
    ///
    /// Commands are only meaningful once devices exist; before that the client
    /// has not bound a seat yet and there is nothing to emit on.
    pub fn command(&mut self, cmd: &EisCommand, micros: u128) -> (calls: Vec<DeviceCall>)
        ensures
            old(self).connected ==> {
                &&& calls@ == old(self).devices.calls(*cmd, micros as int)
                &&& *final(self) == (Server {
                    devices: old(self).devices.next(*cmd),
                    ..*old(self)
                })
            },
            !old(self).connected ==> calls@.len() == 0 && *final(self) == *old(self),
    {
        if self.connected {
            self.devices.apply(cmd, micros)
        } else {
            Vec::new()
        }
    }

    /// Decide what to do after a read of the socket.
    pub fn readable(&self, outcome: ReadOutcome) -> (step: ReadStep)
        ensures
            step == match outcome {
                ReadOutcome::Data => if self.connected {
                    ReadStep::Requests
                } else {
                    ReadStep::Handshake
                },
                ReadOutcome::EndOfFile => ReadStep::Finish,
                ReadOutcome::Error => ReadStep::Fail,
            },
            step is Handshake <==> outcome is Data && !self.connected,
            step is Requests <==> outcome is Data && self.connected,
            step is Finish <==> outcome is EndOfFile,
            step is Fail <==> outcome is Error,
    {
        match outcome {
            ReadOutcome::Data => if self.connected {
                ReadStep::Requests
            } else {
                ReadStep::Handshake
            },
            ReadOutcome::EndOfFile => ReadStep::Finish,
            ReadOutcome::Error => ReadStep::Fail,
        }
    }

    /// The handshake is complete.
    pub fn handshake_complete(&mut self)
        ensures
            *final(self) == (Server { connected: true, ..*old(self) }),
    {
        self.connected = true;
    }

    /// A device was added. A receiver context expects it to be emulating before
    /// events flow; that starts only when a capture is activated.
    pub fn device_added(&mut self, receiver: bool)
        ensures
            *final(self) == (Server {
                sequence: if receiver {
                    counted(old(self).sequence)
                } else {
                    old(self).sequence
                },
                ..*old(self)
            }),
    {
        if receiver {
            self.sequence = self.sequence.wrapping_add(1);
        }
    }
}

impl Devices {
    /// The devices after some commands, in order.
    pub open spec fn after(self, cmds: Seq<EisCommand>) -> Devices
        decreases cmds.len(),
    {
        if cmds.len() == 0 {
            self
        } else {
            self.after(cmds.drop_last()).next(cmds.last())
        }
    }
}

/// Whether some commands end up starting the event stream: the last of them that
/// starts or stops it starts it.
pub open spec fn started_last(cmds: Seq<EisCommand>, otherwise: bool) -> bool
    decreases cmds.len(),
{
    if cmds.len() == 0 {
        otherwise
    } else {
        match cmds.last() {
            EisCommand::StartEmulating { .. } => true,
            EisCommand::StopEmulating => false,
            _ => started_last(cmds.drop_last(), otherwise),
        }
    }
}

/// Events flow exactly if the last command to start or stop them started them,
/// and no command adds or takes away a device.
pub proof fn events_flow_from_start_to_stop(d: Devices, cmds: Seq<EisCommand>)
    ensures
        d.after(cmds).emulating == started_last(cmds, d.emulating),
        d.after(cmds).pointer == d.pointer,
        d.after(cmds).keyboard == d.keyboard,
    decreases cmds.len(),
{
    if cmds.len() > 0 {
        events_flow_from_start_to_stop(d, cmds.drop_last());
    }
}

/// A device once added is never replaced: no request asks for another of its kind,
/// and no command takes it away.
pub proof fn a_device_stays(
    d: Devices,
    input: RequestInput,
    pointer: PointerDevice,
    keyboard: KeyboardDevice,
    cmds: Seq<EisCommand>,
)
    ensures
        d.pointer is Some ==> d.grown(d.step(input), pointer, keyboard).pointer == d.pointer,
        d.keyboard is Some ==> d.grown(d.step(input), pointer, keyboard).keyboard == d.keyboard,
        d.after(cmds).pointer == d.pointer,
        d.after(cmds).keyboard == d.keyboard,
{
    events_flow_from_start_to_stop(d, cmds);
}

/// Starting a stream that flows, and stopping one that does not, asks nothing of
/// any device.
pub proof fn starting_or_stopping_twice_does_it_once(
    d: Devices,
    first: u32,
    second: u32,
    micros: int,
)
    ensures
        d.next(EisCommand::StartEmulating { sequence: first }).calls(
            EisCommand::StartEmulating { sequence: second },
            micros,
        ) == Seq::<DeviceCall>::empty(),
        d.next(EisCommand::StopEmulating).calls(EisCommand::StopEmulating, micros) == Seq::<
            DeviceCall,
        >::empty(),
{
}

/// A start and the stop behind it reach the same devices, and leave things as they
/// were.
pub proof fn a_stop_undoes_a_start(d: Devices, sequence: u32, micros: int)
    requires
        !d.emulating,
    ensures
        ({
            let start = EisCommand::StartEmulating { sequence };
            let on = d.next(start);
            &&& on.next(EisCommand::StopEmulating) == d
            &&& d.calls(start, micros) == d.present().map_values(
                |k: DeviceKind| DeviceCall::StartEmulating { device: k, sequence },
            )
            &&& on.calls(EisCommand::StopEmulating, micros) == d.present().map_values(
                |k: DeviceKind| DeviceCall::StopEmulating { device: k },
            )
        }),
{
    assert(d.present() =~= d.next(EisCommand::StartEmulating { sequence }).present());
}

/// An event reaches the device that it is for, as it is, if the client negotiated the
/// interface that carries it; and no device otherwise.
pub proof fn an_event_reaches_the_device_it_is_for(
    d: Devices,
    code: u32,
    press: bool,
    dx: u32,
    dy: u32,
    sx: i32,
    sy: i32,
    micros: int,
)
    ensures
        ({
            let moves = d.pointer matches Some(p) && p.motion;
            let clicks = d.pointer matches Some(p) && p.button;
            let scrolls = d.pointer matches Some(p) && p.scroll;
            let types = d.keyboard matches Some(k) && k.keys;
            let motion = d.calls(EisCommand::Motion { dx, dy }, micros);
            let button = d.calls(EisCommand::Button { button: code, press }, micros);
            let scroll = d.calls(EisCommand::Scroll { dx, dy }, micros);
            let wheel = d.calls(EisCommand::ScrollDiscrete { dx: sx, dy: sy }, micros);
            let stop = d.calls(EisCommand::ScrollStop, micros);
            let key = d.calls(EisCommand::Key { keycode: code, press }, micros);
            &&& moves ==> motion == seq![DeviceCall::MotionRelative { dx, dy }]
            &&& !moves ==> motion.len() == 0
            &&& clicks ==> button == seq![DeviceCall::Button { button: code, press }]
            &&& !clicks ==> button.len() == 0
            &&& scrolls ==> scroll == seq![DeviceCall::Scroll { dx, dy }]
            &&& scrolls ==> wheel == seq![DeviceCall::ScrollDiscrete { dx: sx, dy: sy }]
            &&& scrolls ==> stop == seq![DeviceCall::ScrollStop]
            &&& !scrolls ==> scroll.len() == 0 && wheel.len() == 0 && stop.len() == 0
            &&& types ==> key == seq![DeviceCall::Key { keycode: code, press }]
            &&& !types ==> key.len() == 0
        }),
{
}

/// Starts, stops and frames reach every device that there is, once each, the pointer
/// first. A start carries the sequence, and a frame the time as far as it fits. A
/// start is for a stream that does not flow yet, and a stop for one that does.
pub proof fn starts_stops_and_frames_reach_every_device(d: Devices, sequence: u32, micros: int)
    requires
        0 <= micros,
    ensures
        ({
            let start = d.calls(EisCommand::StartEmulating { sequence }, micros);
            let stop = d.calls(EisCommand::StopEmulating, micros);
            let frame = d.calls(EisCommand::Frame, micros);
            let count: int = (if d.pointer is Some {
                1int
            } else {
                0int
            }) + (if d.keyboard is Some {
                1int
            } else {
                0int
            });
            let (p, k) = (DeviceKind::Pointer, DeviceKind::Keyboard);
            &&& d.emulating ==> start.len() == 0 && stop.len() == count
            &&& !d.emulating ==> start.len() == count && stop.len() == 0
            &&& !d.emulating && d.pointer is Some ==> start[0] == (DeviceCall::StartEmulating {
                device: p,
                sequence,
            })
            &&& !d.emulating && d.keyboard is Some ==> start.last() == (
            DeviceCall::StartEmulating { device: k, sequence })
            &&& d.emulating && d.pointer is Some ==> stop[0] == (DeviceCall::StopEmulating {
                device: p,
            })
            &&& d.emulating && d.keyboard is Some ==> stop.last() == (DeviceCall::StopEmulating {
                device: k,
            })
            &&& frame.len() == count
            &&& d.pointer is Some ==> (frame[0] matches DeviceCall::Frame { device, time }
                && device == p && (micros <= u64::MAX ==> time == micros) && (micros > u64::MAX
                ==> time == u64::MAX))
            &&& d.keyboard is Some ==> (frame.last() matches DeviceCall::Frame { device, time }
                && device == k && (micros <= u64::MAX ==> time == micros) && (micros > u64::MAX
                ==> time == u64::MAX))
        }),
{
}

/// A start makes events flow and a stop ends that; no other command does either, and
/// none changes which devices there are.
pub proof fn only_a_start_or_a_stop_turns_the_stream(d: Devices, cmd: EisCommand)
    ensures
        cmd is StartEmulating ==> d.next(cmd).emulating,
        cmd is StopEmulating ==> !d.next(cmd).emulating,
        !(cmd is StartEmulating) && !(cmd is StopEmulating) ==> d.next(cmd).emulating
            == d.emulating,
        d.next(cmd).pointer == d.pointer,
        d.next(cmd).keyboard == d.keyboard,
{
}

/// A bind adds each device that it wants and that is not there yet; a request for an
/// object that does not exist is reported with that object; a client that leaves is
/// let go; and a request that breaks the protocol or cannot be parsed ends the
/// connection.
pub proof fn a_request_is_answered_by_what_it_asks(d: Devices, caps: Capabilities, id: u64)
    ensures
        d.step(RequestInput::Bind { capabilities: caps }) matches RequestStep::AddDevices {
            pointer,
            keyboard,
        } && {
            &&& pointer == (caps.pointer && !(d.pointer is Some))
            &&& keyboard == (caps.keyboard && !(d.keyboard is Some))
        },
        d.step(RequestInput::InvalidObject { id }) == (RequestStep::ReportInvalid { id }),
        d.step(RequestInput::Disconnect) is Close,
        d.step(RequestInput::Drained) is Wait,
        d.step(RequestInput::Other) is Continue,
        d.step(RequestInput::ParseError) is FailParse,
        d.step(RequestInput::Refused) is FailRequest,
{
}

/// A pointer device moves, clicks and scrolls, and does not type; a keyboard types,
/// and does nothing else.
pub proof fn devices_can_do_what_their_kind_does()
    ensures
        ({
            let p = device_capabilities(DeviceKind::Pointer);
            let k = device_capabilities(DeviceKind::Keyboard);
            &&& p.pointer && p.button && p.scroll && !p.keyboard
            &&& k.keyboard && !k.pointer && !k.button && !k.scroll
        }),
{
}

/// A keymap goes out as its bytes with a zero byte behind them.
pub proof fn a_keymap_ends_in_a_zero(text: String)
    ensures
        terminated(text).len() == vstd::utf8::encode_utf8(text@).len() + 1,
        terminated(text).last() == 0,
        terminated(text).drop_last() == vstd::utf8::encode_utf8(text@),
{
    assert(terminated(text).drop_last() =~= vstd::utf8::encode_utf8(text@));
}

} // verus!
