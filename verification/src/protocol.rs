//! Wire-level data types of the broker. JSON payloads (command parameters,
//! response data) travel through the core as their serialized text; the
//! unverified shell translates between text and structured JSON at the
//! boundary.

use vstd::prelude::*;
use vstd::string::*;

verus! {

/// Error details a device attaches to a failed command response.
#[derive(Debug)]
pub struct ErrorInfo {
    pub code: String,
    pub message: String,
}

/// Ghost mirror of `ErrorInfo`.
pub struct ErrorInfoModel {
    pub code: Seq<char>,
    pub message: Seq<char>,
}

impl View for ErrorInfo {
    type V = ErrorInfoModel;

    open spec fn view(&self) -> ErrorInfoModel {
        ErrorInfoModel { code: self.code@, message: self.message@ }
    }
}

/// A message a device sends to the server over its socket.
#[derive(Debug)]
pub enum DeviceMessage {
    Hello { device_id: String, name: String },
    Auth { device_id: String, token: String },
    Response { id: String, status: String, data: Option<String>, error: Option<ErrorInfo> },
    Event { event: String, data: Option<String> },
    PushToken { token: String },
    VoipToken { token: String },
}

/// A message the server sends to a device over its socket.
#[derive(Debug)]
pub enum ServerMessage {
    PairingCode { code: String },
    AuthRequired,
    AuthResult { success: bool, token: Option<String>, error: Option<String> },
    Command { id: String, command: String, params: String },
}

/// The body of a command request: the command name, its parameters as JSON
/// text, and an optional explicit target device.
#[derive(Debug)]
pub struct CommandRequest {
    pub command: String,
    pub params: String,
    pub device_id: Option<String>,
}

/// A command's outcome as returned to the HTTP caller.
#[derive(Debug)]
pub struct CommandResponse {
    pub id: String,
    pub status: String,
    pub data: Option<String>,
    pub error: Option<String>,
    pub error_code: Option<String>,
}

/// Ghost mirror of `CommandResponse`.
pub struct CommandResponseModel {
    pub id: Seq<char>,
    pub status: Seq<char>,
    pub data: Option<Seq<char>>,
    pub error: Option<Seq<char>>,
    pub error_code: Option<Seq<char>>,
}

impl View for CommandResponse {
    type V = CommandResponseModel;

    open spec fn view(&self) -> CommandResponseModel {
        CommandResponseModel {
            id: self.id@,
            status: self.status@,
            data: match self.data {
                Some(ref d) => Some(d@),
                None => None,
            },
            error: match self.error {
                Some(ref e) => Some(e@),
                None => None,
            },
            error_code: match self.error_code {
                Some(ref c) => Some(c@),
                None => None,
            },
        }
    }
}

/// A device known to the server: the persistent registry record.
#[derive(Debug)]
pub struct Device {
    pub id: String,
    pub name: String,
    pub token: String,
    pub paired_at: u64,
    pub push_token: Option<String>,
    pub voip_token: Option<String>,
}

/// Ghost mirror of `Device`.
pub struct DeviceModel {
    pub id: Seq<char>,
    pub name: Seq<char>,
    pub token: Seq<char>,
    pub paired_at: u64,
    pub push_token: Option<Seq<char>>,
    pub voip_token: Option<Seq<char>>,
}

impl View for Device {
    type V = DeviceModel;

    open spec fn view(&self) -> DeviceModel {
        DeviceModel {
            id: self.id@,
            name: self.name@,
            token: self.token@,
            paired_at: self.paired_at,
            push_token: match self.push_token {
                Some(ref t) => Some(t@),
                None => None,
            },
            voip_token: match self.voip_token {
                Some(ref t) => Some(t@),
                None => None,
            },
        }
    }
}

impl Device {
    /// A field-for-field copy.
    pub fn duplicate(&self) -> (r: Device)
        ensures
            r@ == self@,
    {
        Device {
            id: self.id.clone(),
            name: self.name.clone(),
            token: self.token.clone(),
            paired_at: self.paired_at,
            push_token: match self.push_token {
                Some(ref t) => Some(t.clone()),
                None => None,
            },
            voip_token: match self.voip_token {
                Some(ref t) => Some(t.clone()),
                None => None,
            },
        }
    }
}

/// One row of the device listing: registry data plus liveness.
#[derive(Debug)]
pub struct DeviceInfo {
    pub id: String,
    pub name: String,
    pub online: bool,
    pub paired_at: u64,
}

/// The status report of the server.
#[derive(Debug)]
pub struct ServerStatus {
    pub version: String,
    pub uptime_secs: u64,
    pub devices_online: usize,
    pub devices_total: usize,
}

/// The body of a pair request: the six-digit code shown on the device.
#[derive(Debug)]
pub struct PairRequest {
    pub code: String,
}

/// The body of a successful pair response.
#[derive(Debug)]
pub struct PairResponse {
    pub device_id: String,
    pub name: String,
}

/// A lifecycle event broadcast to subscribed clients.
#[derive(Debug)]
pub struct ClientEvent {
    pub event: String,
    pub device_id: String,
    pub data: Option<String>,
}

/// Ghost mirror of `ClientEvent`.
pub struct ClientEventModel {
    pub event: Seq<char>,
    pub device_id: Seq<char>,
    pub data: Option<Seq<char>>,
}

impl View for ClientEvent {
    type V = ClientEventModel;

    open spec fn view(&self) -> ClientEventModel {
        ClientEventModel {
            event: self.event@,
            device_id: self.device_id@,
            data: match self.data {
                Some(ref d) => Some(d@),
                None => None,
            },
        }
    }
}

/// The command frame enqueued for a device: id, name and parameters travel
/// verbatim.
pub fn command_message(id: String, command: String, params: String) -> (r: ServerMessage)
    ensures
        r matches ServerMessage::Command { id: i, command: c, params: p } && i@ == id@ && c@
            == command@ && p@ == params@,
{
    ServerMessage::Command { id: id, command: command, params: params }
}

/// The broadcast announcing a device's socket came up.
pub fn connected_event(device_id: String) -> (r: ClientEvent)
    ensures
        r.event@ == "device.connected"@,
        r.device_id@ == device_id@,
        r@.data is None,
{
    ClientEvent { event: String::from_str("device.connected"), device_id: device_id, data: None }
}

/// The broadcast announcing a device's socket went away.
pub fn disconnected_event(device_id: String) -> (r: ClientEvent)
    ensures
        r.event@ == "device.disconnected"@,
        r.device_id@ == device_id@,
        r@.data is None,
{
    ClientEvent {
        event: String::from_str("device.disconnected"),
        device_id: device_id,
        data: None,
    }
}

/// The broadcast announcing a successful pairing.
pub fn paired_event(device_id: String) -> (r: ClientEvent)
    ensures
        r.event@ == "device.paired"@,
        r.device_id@ == device_id@,
        r@.data is None,
{
    ClientEvent { event: String::from_str("device.paired"), device_id: device_id, data: None }
}

/// An application event a device reported, forwarded under its own name.
pub fn device_event(event: String, device_id: String, data: Option<String>) -> (r: ClientEvent)
    ensures
        r.event@ == event@,
        r.device_id@ == device_id@,
        r@.data == (match data {
            Some(d) => Some(d@),
            None => None::<Seq<char>>,
        }),
{
    ClientEvent { event: event, device_id: device_id, data: data }
}


} // verus!
