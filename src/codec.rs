//! The command catalog and its wire encoding.
//!
//! A packet (after framing is removed) is a group byte, a command byte, then
//! the command's fields, each multi-byte field big-endian.
use vstd::prelude::*;

verus! {

/// Group byte of the sensor commands.
pub const SENSOR_GROUP: u8 = 0x01;

/// Group byte of the utility commands.
pub const UTILITY_GROUP: u8 = 0xAA;

/// Group byte of the link-check commands.
pub const PING_GROUP: u8 = 0xDE;

#[derive(Clone, Copy, Debug, PartialEq, Eq, Structural)]
pub struct SetMeasurementInterval {
    pub measurement_interval: u16,
}

#[derive(Clone, Copy, Debug, PartialEq, Eq, Structural)]
pub struct SetAltitude {
    pub altitude: u16,
}

#[derive(Clone, Copy, Debug, PartialEq, Eq, Structural)]
pub struct SetTemperatureOffset {
    pub temperature_offset: u16,
}

#[derive(Clone, Copy, Debug, PartialEq, Eq, Structural)]
pub struct StartContinuousMeasurement {}

#[derive(Clone, Copy, Debug, PartialEq, Eq, Structural)]
pub struct ReportNewData {}

#[derive(Clone, Copy, Debug, PartialEq, Eq, Structural)]
pub struct RequestLastCO2Data {}

#[derive(Clone, Copy, Debug, PartialEq, Eq, Structural)]
pub struct LastCO2DataResponse {
    pub co_2_data: u16,
}

#[derive(Clone, Copy, Debug, PartialEq, Eq, Structural)]
pub struct RequestLastTemperature {}

#[derive(Clone, Copy, Debug, PartialEq, Eq, Structural)]
pub struct LastTemperatureResponse {
    pub temperature: i16,
}

#[derive(Clone, Copy, Debug, PartialEq, Eq, Structural)]
pub struct RequestLastHumidity {}

#[derive(Clone, Copy, Debug, PartialEq, Eq, Structural)]
pub struct LastHumidityResponse {
    pub relative_humidity: u16,
}

#[derive(Clone, Copy, Debug, PartialEq, Eq, Structural)]
pub struct Ping {}

#[derive(Clone, Copy, Debug, PartialEq, Eq, Structural)]
pub struct PingResponse {}

#[derive(Clone, Copy, Debug, PartialEq, Eq, Structural)]
pub struct EnableTestLed {}

#[derive(Clone, Copy, Debug, PartialEq, Eq, Structural)]
pub struct DisableTestLed {}

#[derive(Clone, Copy, Debug, PartialEq, Eq, Structural)]
pub struct GenericResponse {
    pub successful: bool,
}

/// Commands of the sensor group.
#[derive(Clone, Copy, Debug, PartialEq, Eq, Structural)]
pub enum SensorCommand {
    SetMeasurementInterval(SetMeasurementInterval),
    SetAltitude(SetAltitude),
    SetTemperatureOffset(SetTemperatureOffset),
    StartContinuousMeasurement(StartContinuousMeasurement),
    ReportNewData(ReportNewData),
    RequestLastCO2Data(RequestLastCO2Data),
    LastCO2DataResponse(LastCO2DataResponse),
    RequestLastTemperature(RequestLastTemperature),
    LastTemperatureResponse(LastTemperatureResponse),
    RequestLastHumidity(RequestLastHumidity),
    LastHumidityResponse(LastHumidityResponse),
}

/// Commands of the utility group.
#[derive(Clone, Copy, Debug, PartialEq, Eq, Structural)]
pub enum UtilityCommand {
    EnableTestLed(EnableTestLed),
    DisableTestLed(DisableTestLed),
    GenericResponse(GenericResponse),
}

/// A typed command. `Nop` fills unused queue slots and has no wire form.
#[derive(Clone, Copy, Debug, PartialEq, Eq, Structural)]
pub enum Command {
    Nop,
    Sensor(SensorCommand),
    Utility(UtilityCommand),
    Ping(Ping),
    PingResponse(PingResponse),
}

/// Why a command could not be written to a buffer.
#[derive(Clone, Copy, Debug, PartialEq, Eq, Structural)]
pub enum EncodeError {
    /// The command travels only from host to device (or is `Nop`).
    NotHostBound,
    /// The output buffer is shorter than the encoded command.
    BufferTooSmall,
}

// ---------------------------------------------------------------------------
// Field layout

/// Big-endian bytes of a 16-bit value.
pub open spec fn be_u16(v: u16) -> Seq<u8> {
    seq![(v / 256) as u8, (v % 256) as u8]
}

/// The 16-bit value of two big-endian bytes.
pub open spec fn u16_of(hi: u8, lo: u8) -> u16 {
    (hi as int * 256 + lo as int) as u16
}

/// The 16-bit value stored big-endian at `b[i]`, `b[i + 1]`.
pub open spec fn u16_at(b: Seq<u8>, i: int) -> u16 {
    u16_of(b[i], b[i + 1])
}

/// Two's-complement bit pattern of a signed 16-bit value.
pub open spec fn i16_bits(t: i16) -> u16 {
    if t >= 0 {
        t as u16
    } else {
        (t + 65536) as u16
    }
}

/// The signed value of a two's-complement 16-bit pattern.
pub open spec fn i16_of_bits(u: u16) -> i16 {
    if u < 32768 {
        u as i16
    } else {
        (u - 65536) as i16
    }
}

// ---------------------------------------------------------------------------
// The catalog

/// Command byte and fields of a sensor command.
pub open spec fn sensor_wire(s: SensorCommand) -> Seq<u8> {
    match s {
        SensorCommand::SetMeasurementInterval(c) => seq![0x00u8] + be_u16(c.measurement_interval),
        SensorCommand::SetAltitude(c) => seq![0x01u8] + be_u16(c.altitude),
        SensorCommand::SetTemperatureOffset(c) => seq![0x02u8] + be_u16(c.temperature_offset),
        SensorCommand::StartContinuousMeasurement(_) => seq![0x03u8],
        SensorCommand::ReportNewData(_) => seq![0x04u8],
        SensorCommand::RequestLastCO2Data(_) => seq![0x05u8],
        SensorCommand::LastCO2DataResponse(c) => seq![0x06u8] + be_u16(c.co_2_data),
        SensorCommand::RequestLastTemperature(_) => seq![0x07u8],
        SensorCommand::LastTemperatureResponse(c) => seq![0x08u8] + be_u16(i16_bits(c.temperature)),
        SensorCommand::RequestLastHumidity(_) => seq![0x09u8],
        SensorCommand::LastHumidityResponse(c) => seq![0x0Au8] + be_u16(c.relative_humidity),
    }
}

/// Command byte and fields of a utility command.
pub open spec fn utility_wire(u: UtilityCommand) -> Seq<u8> {
    match u {
        UtilityCommand::EnableTestLed(_) => seq![0x00u8],
        UtilityCommand::DisableTestLed(_) => seq![0x01u8],
        UtilityCommand::GenericResponse(c) => seq![0x02u8, if c.successful { 1u8 } else { 0u8 }],
    }
}

/// The packet of a command: group byte, command byte, fields.
/// `Nop` is not in the catalog and has the empty packet.
pub open spec fn wire(c: Command) -> Seq<u8> {
    match c {
        Command::Nop => Seq::empty(),
        Command::Sensor(s) => seq![SENSOR_GROUP] + sensor_wire(s),
        Command::Utility(u) => seq![UTILITY_GROUP] + utility_wire(u),
        Command::Ping(_) => seq![PING_GROUP, 0x00u8],
        Command::PingResponse(_) => seq![PING_GROUP, 0x01u8],
    }
}

/// Commands that are in the catalog (all but `Nop`).
pub open spec fn in_catalog(c: Command) -> bool {
    !(c is Nop)
}

/// Commands that the device sends to the host: events and responses.
pub open spec fn host_bound(c: Command) -> bool {
    match c {
        Command::Sensor(SensorCommand::ReportNewData(_)) => true,
        Command::Sensor(SensorCommand::LastCO2DataResponse(_)) => true,
        Command::Sensor(SensorCommand::LastTemperatureResponse(_)) => true,
        Command::Sensor(SensorCommand::LastHumidityResponse(_)) => true,
        Command::Utility(UtilityCommand::GenericResponse(_)) => true,
        Command::PingResponse(_) => true,
        _ => false,
    }
}

/// A sensor command read from its command byte and fields; `None` for an
/// unknown command byte or missing field bytes.
pub open spec fn parse_sensor(b: Seq<u8>) -> Option<SensorCommand> {
    if b.len() < 1 {
        None
    } else if b[0] == 0x00 {
        if b.len() >= 3 {
            Some(SensorCommand::SetMeasurementInterval(SetMeasurementInterval { measurement_interval: u16_at(b, 1) }))
        } else {
            None
        }
    } else if b[0] == 0x01 {
        if b.len() >= 3 {
            Some(SensorCommand::SetAltitude(SetAltitude { altitude: u16_at(b, 1) }))
        } else {
            None
        }
    } else if b[0] == 0x02 {
        if b.len() >= 3 {
            Some(SensorCommand::SetTemperatureOffset(SetTemperatureOffset { temperature_offset: u16_at(b, 1) }))
        } else {
            None
        }
    } else if b[0] == 0x03 {
        Some(SensorCommand::StartContinuousMeasurement(StartContinuousMeasurement {}))
    } else if b[0] == 0x04 {
        Some(SensorCommand::ReportNewData(ReportNewData {}))
    } else if b[0] == 0x05 {
        Some(SensorCommand::RequestLastCO2Data(RequestLastCO2Data {}))
    } else if b[0] == 0x06 {
        if b.len() >= 3 {
            Some(SensorCommand::LastCO2DataResponse(LastCO2DataResponse { co_2_data: u16_at(b, 1) }))
        } else {
            None
        }
    } else if b[0] == 0x07 {
        Some(SensorCommand::RequestLastTemperature(RequestLastTemperature {}))
    } else if b[0] == 0x08 {
        if b.len() >= 3 {
            Some(SensorCommand::LastTemperatureResponse(LastTemperatureResponse { temperature: i16_of_bits(u16_at(b, 1)) }))
        } else {
            None
        }
    } else if b[0] == 0x09 {
        Some(SensorCommand::RequestLastHumidity(RequestLastHumidity {}))
    } else if b[0] == 0x0A {
        if b.len() >= 3 {
            Some(SensorCommand::LastHumidityResponse(LastHumidityResponse { relative_humidity: u16_at(b, 1) }))
        } else {
            None
        }
    } else {
        None
    }
}

/// A utility command read from its command byte and fields.
pub open spec fn parse_utility(b: Seq<u8>) -> Option<UtilityCommand> {
    if b.len() < 1 {
        None
    } else if b[0] == 0x00 {
        Some(UtilityCommand::EnableTestLed(EnableTestLed {}))
    } else if b[0] == 0x01 {
        Some(UtilityCommand::DisableTestLed(DisableTestLed {}))
    } else if b[0] == 0x02 {
        if b.len() >= 2 {
            Some(UtilityCommand::GenericResponse(GenericResponse { successful: b[1] != 0 }))
        } else {
            None
        }
    } else {
        None
    }
}

/// The command that a packet holds; `None` for an unknown (group, command)
/// pair or a packet too short for its fields. Bytes after the fields are
/// not read.
pub open spec fn parse(b: Seq<u8>) -> Option<Command> {
    if b.len() < 1 {
        None
    } else if b[0] == SENSOR_GROUP {
        match parse_sensor(b.drop_first()) {
            Some(s) => Some(Command::Sensor(s)),
            None => None,
        }
    } else if b[0] == UTILITY_GROUP {
        match parse_utility(b.drop_first()) {
            Some(u) => Some(Command::Utility(u)),
            None => None,
        }
    } else if b[0] == PING_GROUP && b.len() >= 2 && b[1] == 0x00 {
        Some(Command::Ping(Ping {}))
    } else if b[0] == PING_GROUP && b.len() >= 2 && b[1] == 0x01 {
        Some(Command::PingResponse(PingResponse {}))
    } else {
        None
    }
}

// ---------------------------------------------------------------------------
// Field helpers

fn read_u16(buf: &[u8], i: usize) -> (r: u16)
    requires
        i + 1 < buf@.len(),
    ensures
        r == u16_at(buf@, i as int),
{
    (buf[i] as u16) * 256 + (buf[i + 1] as u16)
}

fn push_u16(out: &mut Vec<u8>, v: u16)
    ensures
        final(out)@ == old(out)@ + be_u16(v),
{
    out.push((v / 256) as u8);
    out.push((v % 256) as u8);
    assert(final(out)@ =~= old(out)@ + be_u16(v));
}

fn temperature_bits(t: i16) -> (r: u16)
    ensures
        r == i16_bits(t),
{
    if t >= 0 {
        t as u16
    } else {
        (t as i32 + 65536) as u16
    }
}

fn temperature_of_bits(u: u16) -> (r: i16)
    ensures
        r == i16_of_bits(u),
{
    if u < 32768 {
        u as i16
    } else {
        (u as i32 - 65536) as i16
    }
}

// ---------------------------------------------------------------------------
// Per-command field codecs

impl SetMeasurementInterval {
    /// The command from its field bytes (those after the command byte);
    /// `None` when fewer than two are given.
    pub fn from_bytes(buf: &[u8]) -> (r: Option<Self>)
        ensures
            buf@.len() >= 2 ==> r == Some(Self { measurement_interval: u16_at(buf@, 0) }),
            buf@.len() < 2 ==> r is None,
    {
        if buf.len() >= 2 {
            Some(Self { measurement_interval: read_u16(buf, 0) })
        } else {
            None
        }
    }

    /// The whole packet of this command: group byte, command byte, fields.
    pub fn to_bytes(self) -> (r: Vec<u8>)
        ensures
            r@ == wire(Command::Sensor(SensorCommand::SetMeasurementInterval(self))),
    {
        let mut out: Vec<u8> = Vec::new();
        out.push(SENSOR_GROUP);
        out.push(0x00);
        push_u16(&mut out, self.measurement_interval);
        assert(out@ =~= wire(Command::Sensor(SensorCommand::SetMeasurementInterval(self))));
        out
    }
}

impl SetAltitude {
    /// The command from its field bytes (those after the command byte);
    /// `None` when fewer than two are given.
    pub fn from_bytes(buf: &[u8]) -> (r: Option<Self>)
        ensures
            buf@.len() >= 2 ==> r == Some(Self { altitude: u16_at(buf@, 0) }),
            buf@.len() < 2 ==> r is None,
    {
        if buf.len() >= 2 {
            Some(Self { altitude: read_u16(buf, 0) })
        } else {
            None
        }
    }

    /// The whole packet of this command: group byte, command byte, fields.
    pub fn to_bytes(self) -> (r: Vec<u8>)
        ensures
            r@ == wire(Command::Sensor(SensorCommand::SetAltitude(self))),
    {
        let mut out: Vec<u8> = Vec::new();
        out.push(SENSOR_GROUP);
        out.push(0x01);
        push_u16(&mut out, self.altitude);
        assert(out@ =~= wire(Command::Sensor(SensorCommand::SetAltitude(self))));
        out
    }
}

impl SetTemperatureOffset {
    /// The command from its field bytes (those after the command byte);
    /// `None` when fewer than two are given.
    pub fn from_bytes(buf: &[u8]) -> (r: Option<Self>)
        ensures
            buf@.len() >= 2 ==> r == Some(Self { temperature_offset: u16_at(buf@, 0) }),
            buf@.len() < 2 ==> r is None,
    {
        if buf.len() >= 2 {
            Some(Self { temperature_offset: read_u16(buf, 0) })
        } else {
            None
        }
    }

    /// The whole packet of this command: group byte, command byte, fields.
    pub fn to_bytes(self) -> (r: Vec<u8>)
        ensures
            r@ == wire(Command::Sensor(SensorCommand::SetTemperatureOffset(self))),
    {
        let mut out: Vec<u8> = Vec::new();
        out.push(SENSOR_GROUP);
        out.push(0x02);
        push_u16(&mut out, self.temperature_offset);
        assert(out@ =~= wire(Command::Sensor(SensorCommand::SetTemperatureOffset(self))));
        out
    }
}

impl StartContinuousMeasurement {
    /// The command from its field bytes; it has none, so nothing is read.
    pub fn from_bytes(buf: &[u8]) -> (r: Self)
        ensures
            r == (Self {}),
    {
        Self {}
    }

    /// The whole packet of this command: group byte, command byte, fields.
    pub fn to_bytes(self) -> (r: Vec<u8>)
        ensures
            r@ == wire(Command::Sensor(SensorCommand::StartContinuousMeasurement(self))),
    {
        let mut out: Vec<u8> = Vec::new();
        out.push(SENSOR_GROUP);
        out.push(0x03);
        assert(out@ =~= wire(Command::Sensor(SensorCommand::StartContinuousMeasurement(self))));
        out
    }
}

impl ReportNewData {
    /// The command from its field bytes; it has none, so nothing is read.
    pub fn from_bytes(buf: &[u8]) -> (r: Self)
        ensures
            r == (Self {}),
    {
        Self {}
    }

    /// The whole packet of this command: group byte, command byte, fields.
    pub fn to_bytes(self) -> (r: Vec<u8>)
        ensures
            r@ == wire(Command::Sensor(SensorCommand::ReportNewData(self))),
    {
        let mut out: Vec<u8> = Vec::new();
        out.push(SENSOR_GROUP);
        out.push(0x04);
        assert(out@ =~= wire(Command::Sensor(SensorCommand::ReportNewData(self))));
        out
    }
}

impl RequestLastCO2Data {
    /// The command from its field bytes; it has none, so nothing is read.
    pub fn from_bytes(buf: &[u8]) -> (r: Self)
        ensures
            r == (Self {}),
    {
        Self {}
    }

    /// The whole packet of this command: group byte, command byte, fields.
    pub fn to_bytes(self) -> (r: Vec<u8>)
        ensures
            r@ == wire(Command::Sensor(SensorCommand::RequestLastCO2Data(self))),
    {
        let mut out: Vec<u8> = Vec::new();
        out.push(SENSOR_GROUP);
        out.push(0x05);
        assert(out@ =~= wire(Command::Sensor(SensorCommand::RequestLastCO2Data(self))));
        out
    }
}

impl LastCO2DataResponse {
    /// The command from its field bytes (those after the command byte);
    /// `None` when fewer than two are given.
    pub fn from_bytes(buf: &[u8]) -> (r: Option<Self>)
        ensures
            buf@.len() >= 2 ==> r == Some(Self { co_2_data: u16_at(buf@, 0) }),
            buf@.len() < 2 ==> r is None,
    {
        if buf.len() >= 2 {
            Some(Self { co_2_data: read_u16(buf, 0) })
        } else {
            None
        }
    }

    /// The whole packet of this command: group byte, command byte, fields.
    pub fn to_bytes(self) -> (r: Vec<u8>)
        ensures
            r@ == wire(Command::Sensor(SensorCommand::LastCO2DataResponse(self))),
    {
        let mut out: Vec<u8> = Vec::new();
        out.push(SENSOR_GROUP);
        out.push(0x06);
        push_u16(&mut out, self.co_2_data);
        assert(out@ =~= wire(Command::Sensor(SensorCommand::LastCO2DataResponse(self))));
        out
    }
}

impl RequestLastTemperature {
    /// The command from its field bytes; it has none, so nothing is read.
    pub fn from_bytes(buf: &[u8]) -> (r: Self)
        ensures
            r == (Self {}),
    {
        Self {}
    }

    /// The whole packet of this command: group byte, command byte, fields.
    pub fn to_bytes(self) -> (r: Vec<u8>)
        ensures
            r@ == wire(Command::Sensor(SensorCommand::RequestLastTemperature(self))),
    {
        let mut out: Vec<u8> = Vec::new();
        out.push(SENSOR_GROUP);
        out.push(0x07);
        assert(out@ =~= wire(Command::Sensor(SensorCommand::RequestLastTemperature(self))));
        out
    }
}

impl LastTemperatureResponse {
    /// The command from its field bytes (those after the command byte);
    /// `None` when fewer than two are given.
    pub fn from_bytes(buf: &[u8]) -> (r: Option<Self>)
        ensures
            buf@.len() >= 2 ==> r == Some(Self { temperature: i16_of_bits(u16_at(buf@, 0)) }),
            buf@.len() < 2 ==> r is None,
    {
        if buf.len() >= 2 {
            Some(Self { temperature: temperature_of_bits(read_u16(buf, 0)) })
        } else {
            None
        }
    }

    /// The whole packet of this command: group byte, command byte, fields.
    pub fn to_bytes(self) -> (r: Vec<u8>)
        ensures
            r@ == wire(Command::Sensor(SensorCommand::LastTemperatureResponse(self))),
    {
        let mut out: Vec<u8> = Vec::new();
        out.push(SENSOR_GROUP);
        out.push(0x08);
        push_u16(&mut out, temperature_bits(self.temperature));
        assert(out@ =~= wire(Command::Sensor(SensorCommand::LastTemperatureResponse(self))));
        out
    }
}

impl RequestLastHumidity {
    /// The command from its field bytes; it has none, so nothing is read.
    pub fn from_bytes(buf: &[u8]) -> (r: Self)
        ensures
            r == (Self {}),
    {
        Self {}
    }

    /// The whole packet of this command: group byte, command byte, fields.
    pub fn to_bytes(self) -> (r: Vec<u8>)
        ensures
            r@ == wire(Command::Sensor(SensorCommand::RequestLastHumidity(self))),
    {
        let mut out: Vec<u8> = Vec::new();
        out.push(SENSOR_GROUP);
        out.push(0x09);
        assert(out@ =~= wire(Command::Sensor(SensorCommand::RequestLastHumidity(self))));
        out
    }
}

impl LastHumidityResponse {
    /// The command from its field bytes (those after the command byte);
    /// `None` when fewer than two are given.
    pub fn from_bytes(buf: &[u8]) -> (r: Option<Self>)
        ensures
            buf@.len() >= 2 ==> r == Some(Self { relative_humidity: u16_at(buf@, 0) }),
            buf@.len() < 2 ==> r is None,
    {
        if buf.len() >= 2 {
            Some(Self { relative_humidity: read_u16(buf, 0) })
        } else {
            None
        }
    }

    /// The whole packet of this command: group byte, command byte, fields.
    pub fn to_bytes(self) -> (r: Vec<u8>)
        ensures
            r@ == wire(Command::Sensor(SensorCommand::LastHumidityResponse(self))),
    {
        let mut out: Vec<u8> = Vec::new();
        out.push(SENSOR_GROUP);
        out.push(0x0A);
        push_u16(&mut out, self.relative_humidity);
        assert(out@ =~= wire(Command::Sensor(SensorCommand::LastHumidityResponse(self))));
        out
    }
}

impl Ping {
    /// The command from its field bytes; it has none, so nothing is read.
    pub fn from_bytes(buf: &[u8]) -> (r: Self)
        ensures
            r == (Self {}),
    {
        Self {}
    }

    /// The whole packet of this command: group byte, command byte, fields.
    pub fn to_bytes(self) -> (r: Vec<u8>)
        ensures
            r@ == wire(Command::Ping(self)),
    {
        let mut out: Vec<u8> = Vec::new();
        out.push(PING_GROUP);
        out.push(0x00);
        assert(out@ =~= wire(Command::Ping(self)));
        out
    }
}

impl PingResponse {
    /// The command from its field bytes; it has none, so nothing is read.
    pub fn from_bytes(buf: &[u8]) -> (r: Self)
        ensures
            r == (Self {}),
    {
        Self {}
    }

    /// The whole packet of this command: group byte, command byte, fields.
    pub fn to_bytes(self) -> (r: Vec<u8>)
        ensures
            r@ == wire(Command::PingResponse(self)),
    {
        let mut out: Vec<u8> = Vec::new();
        out.push(PING_GROUP);
        out.push(0x01);
        assert(out@ =~= wire(Command::PingResponse(self)));
        out
    }
}

impl EnableTestLed {
    /// The command from its field bytes; it has none, so nothing is read.
    pub fn from_bytes(buf: &[u8]) -> (r: Self)
        ensures
            r == (Self {}),
    {
        Self {}
    }

    /// The whole packet of this command: group byte, command byte, fields.
    pub fn to_bytes(self) -> (r: Vec<u8>)
        ensures
            r@ == wire(Command::Utility(UtilityCommand::EnableTestLed(self))),
    {
        let mut out: Vec<u8> = Vec::new();
        out.push(UTILITY_GROUP);
        out.push(0x00);
        assert(out@ =~= wire(Command::Utility(UtilityCommand::EnableTestLed(self))));
        out
    }
}

impl DisableTestLed {
    /// The command from its field bytes; it has none, so nothing is read.
    pub fn from_bytes(buf: &[u8]) -> (r: Self)
        ensures
            r == (Self {}),
    {
        Self {}
    }

    /// The whole packet of this command: group byte, command byte, fields.
    pub fn to_bytes(self) -> (r: Vec<u8>)
        ensures
            r@ == wire(Command::Utility(UtilityCommand::DisableTestLed(self))),
    {
        let mut out: Vec<u8> = Vec::new();
        out.push(UTILITY_GROUP);
        out.push(0x01);
        assert(out@ =~= wire(Command::Utility(UtilityCommand::DisableTestLed(self))));
        out
    }
}

impl GenericResponse {
    /// The command from its field bytes (those after the command byte);
    /// any non-zero byte reads as success. `None` when no byte is given.
    pub fn from_bytes(buf: &[u8]) -> (r: Option<Self>)
        ensures
            buf@.len() >= 1 ==> r == Some(Self { successful: buf@[0] != 0 }),
            buf@.len() < 1 ==> r is None,
    {
        if buf.len() >= 1 {
            Some(Self { successful: buf[0] != 0 })
        } else {
            None
        }
    }

    /// The whole packet of this command: group byte, command byte, fields.
    pub fn to_bytes(self) -> (r: Vec<u8>)
        ensures
            r@ == wire(Command::Utility(UtilityCommand::GenericResponse(self))),
    {
        let mut out: Vec<u8> = Vec::new();
        out.push(UTILITY_GROUP);
        out.push(0x02);
        out.push(if self.successful { 1 } else { 0 });
        assert(out@ =~= wire(Command::Utility(UtilityCommand::GenericResponse(self))));
        out
    }
}

// ---------------------------------------------------------------------------
// Group and packet codecs

/// `new` is `old` with its first bytes replaced by `bytes`.
pub open spec fn written_over(old: Seq<u8>, new: Seq<u8>, bytes: Seq<u8>) -> bool {
    &&& bytes.len() <= old.len()
    &&& new == bytes + old.subrange(bytes.len() as int, old.len() as int)
}

/// Copies `src[skip..]` to the front of `buf`.
fn copy_into(buf: &mut [u8], src: &Vec<u8>, skip: usize)
    requires
        skip <= src@.len(),
        src@.len() - skip <= old(buf)@.len(),
    ensures
        written_over(old(buf)@, final(buf)@, src@.subrange(skip as int, src@.len() as int)),
{
    let len = src.len();
    let n = len - skip;
    let mut i: usize = 0;
    while i < n
        invariant
            len == src@.len(),
            skip <= len,
            n == len - skip,
            n <= buf@.len(),
            buf@.len() == old(buf)@.len(),
            i <= n,
            forall|j: int| 0 <= j < i ==> buf@[j] == src@[skip + j],
            forall|j: int| i <= j < buf@.len() ==> buf@[j] == old(buf)@[j],
        decreases n - i,
    {
        buf[i] = src[skip + i];
        i = i + 1;
    }
    assert(buf@ =~= src@.subrange(skip as int, src@.len() as int) + old(buf)@.subrange(
        n as int,
        old(buf)@.len() as int,
    ));
}

impl SensorCommand {
    /// A sensor command from its command byte and fields (the packet after
    /// the group byte); `None` for an unknown command byte or missing fields.
    pub fn from_bytes(buf: &[u8]) -> (r: Option<Self>)
        ensures
            r == parse_sensor(buf@),
    {
        if buf.len() < 1 {
            return None;
        }
        let fields = &buf[1..buf.len()];
        assert(fields@ =~= buf@.subrange(1, buf@.len() as int));
        match buf[0] {
            0x00 => match SetMeasurementInterval::from_bytes(fields) {
                Some(c) => Some(SensorCommand::SetMeasurementInterval(c)),
                None => None,
            },
            0x01 => match SetAltitude::from_bytes(fields) {
                Some(c) => Some(SensorCommand::SetAltitude(c)),
                None => None,
            },
            0x02 => match SetTemperatureOffset::from_bytes(fields) {
                Some(c) => Some(SensorCommand::SetTemperatureOffset(c)),
                None => None,
            },
            0x03 => Some(SensorCommand::StartContinuousMeasurement(StartContinuousMeasurement::from_bytes(fields))),
            0x04 => Some(SensorCommand::ReportNewData(ReportNewData::from_bytes(fields))),
            0x05 => Some(SensorCommand::RequestLastCO2Data(RequestLastCO2Data::from_bytes(fields))),
            0x06 => match LastCO2DataResponse::from_bytes(fields) {
                Some(c) => Some(SensorCommand::LastCO2DataResponse(c)),
                None => None,
            },
            0x07 => Some(SensorCommand::RequestLastTemperature(RequestLastTemperature::from_bytes(fields))),
            0x08 => match LastTemperatureResponse::from_bytes(fields) {
                Some(c) => Some(SensorCommand::LastTemperatureResponse(c)),
                None => None,
            },
            0x09 => Some(SensorCommand::RequestLastHumidity(RequestLastHumidity::from_bytes(fields))),
            0x0A => match LastHumidityResponse::from_bytes(fields) {
                Some(c) => Some(SensorCommand::LastHumidityResponse(c)),
                None => None,
            },
            _ => None,
        }
    }

    /// The whole packet of this command, group byte included.
    pub fn encode(&self) -> (r: Vec<u8>)
        ensures
            r@ == wire(Command::Sensor(*self)),
    {
        match *self {
            SensorCommand::SetMeasurementInterval(c) => c.to_bytes(),
            SensorCommand::SetAltitude(c) => c.to_bytes(),
            SensorCommand::SetTemperatureOffset(c) => c.to_bytes(),
            SensorCommand::StartContinuousMeasurement(c) => c.to_bytes(),
            SensorCommand::ReportNewData(c) => c.to_bytes(),
            SensorCommand::RequestLastCO2Data(c) => c.to_bytes(),
            SensorCommand::LastCO2DataResponse(c) => c.to_bytes(),
            SensorCommand::RequestLastTemperature(c) => c.to_bytes(),
            SensorCommand::LastTemperatureResponse(c) => c.to_bytes(),
            SensorCommand::RequestLastHumidity(c) => c.to_bytes(),
            SensorCommand::LastHumidityResponse(c) => c.to_bytes(),
        }
    }

    /// Writes the command byte and fields of a host-bound sensor command to
    /// the front of `buf` and returns how many bytes were written. A request
    /// is refused, and so is a buffer too short; then `buf` is unchanged.
    pub fn to_bytes(&self, buf: &mut [u8]) -> (r: Result<usize, EncodeError>)
        ensures
            match r {
                Ok(n) => {
                    &&& host_bound(Command::Sensor(*self))
                    &&& n == sensor_wire(*self).len()
                    &&& written_over(old(buf)@, final(buf)@, sensor_wire(*self))
                },
                Err(EncodeError::NotHostBound) => {
                    &&& !host_bound(Command::Sensor(*self))
                    &&& final(buf)@ == old(buf)@
                },
                Err(EncodeError::BufferTooSmall) => {
                    &&& host_bound(Command::Sensor(*self))
                    &&& old(buf)@.len() < sensor_wire(*self).len()
                    &&& final(buf)@ == old(buf)@
                },
            },
    {
        let host = match *self {
            SensorCommand::ReportNewData(_) => true,
            SensorCommand::LastCO2DataResponse(_) => true,
            SensorCommand::LastTemperatureResponse(_) => true,
            SensorCommand::LastHumidityResponse(_) => true,
            _ => false,
        };
        if !host {
            return Err(EncodeError::NotHostBound);
        }
        let packet = self.encode();
        if packet.len() - 1 > buf.len() {
            return Err(EncodeError::BufferTooSmall);
        }
        copy_into(buf, &packet, 1);
        assert(packet@.subrange(1, packet@.len() as int) =~= sensor_wire(*self));
        Ok(packet.len() - 1)
    }
}

impl UtilityCommand {
    /// A utility command from its command byte and fields (the packet after
    /// the group byte); `None` for an unknown command byte or missing fields.
    pub fn from_bytes(buf: &[u8]) -> (r: Option<Self>)
        ensures
            r == parse_utility(buf@),
    {
        if buf.len() < 1 {
            return None;
        }
        let fields = &buf[1..buf.len()];
        assert(fields@ =~= buf@.subrange(1, buf@.len() as int));
        match buf[0] {
            0x00 => Some(UtilityCommand::EnableTestLed(EnableTestLed::from_bytes(fields))),
            0x01 => Some(UtilityCommand::DisableTestLed(DisableTestLed::from_bytes(fields))),
            0x02 => match GenericResponse::from_bytes(fields) {
                Some(c) => Some(UtilityCommand::GenericResponse(c)),
                None => None,
            },
            _ => None,
        }
    }

    /// The whole packet of this command, group byte included.
    pub fn encode(&self) -> (r: Vec<u8>)
        ensures
            r@ == wire(Command::Utility(*self)),
    {
        match *self {
            UtilityCommand::EnableTestLed(c) => c.to_bytes(),
            UtilityCommand::DisableTestLed(c) => c.to_bytes(),
            UtilityCommand::GenericResponse(c) => c.to_bytes(),
        }
    }

    /// Writes the command byte and fields of a host-bound utility command to
    /// the front of `buf` and returns how many bytes were written. A request
    /// is refused, and so is a buffer too short; then `buf` is unchanged.
    pub fn to_bytes(&self, buf: &mut [u8]) -> (r: Result<usize, EncodeError>)
        ensures
            match r {
                Ok(n) => {
                    &&& host_bound(Command::Utility(*self))
                    &&& n == utility_wire(*self).len()
                    &&& written_over(old(buf)@, final(buf)@, utility_wire(*self))
                },
                Err(EncodeError::NotHostBound) => {
                    &&& !host_bound(Command::Utility(*self))
                    &&& final(buf)@ == old(buf)@
                },
                Err(EncodeError::BufferTooSmall) => {
                    &&& host_bound(Command::Utility(*self))
                    &&& old(buf)@.len() < utility_wire(*self).len()
                    &&& final(buf)@ == old(buf)@
                },
            },
    {
        let host = match *self {
            UtilityCommand::GenericResponse(_) => true,
            _ => false,
        };
        if !host {
            return Err(EncodeError::NotHostBound);
        }
        let packet = self.encode();
        if packet.len() - 1 > buf.len() {
            return Err(EncodeError::BufferTooSmall);
        }
        copy_into(buf, &packet, 1);
        assert(packet@.subrange(1, packet@.len() as int) =~= utility_wire(*self));
        Ok(packet.len() - 1)
    }
}

impl Command {
    /// The command that a packet holds; `None` for an unknown (group,
    /// command) pair or a packet too short for its fields.
    pub fn from_bytes(buf: &[u8]) -> (r: Option<Self>)
        ensures
            r == parse(buf@),
    {
        if buf.len() < 1 {
            return None;
        }
        let rest = &buf[1..buf.len()];
        assert(rest@ =~= buf@.drop_first());
        if buf[0] == SENSOR_GROUP {
            match SensorCommand::from_bytes(rest) {
                Some(s) => Some(Command::Sensor(s)),
                None => None,
            }
        } else if buf[0] == UTILITY_GROUP {
            match UtilityCommand::from_bytes(rest) {
                Some(u) => Some(Command::Utility(u)),
                None => None,
            }
        } else if buf[0] == PING_GROUP && buf.len() >= 2 && buf[1] == 0x00 {
            Some(Command::Ping(Ping::from_bytes(rest)))
        } else if buf[0] == PING_GROUP && buf.len() >= 2 && buf[1] == 0x01 {
            Some(Command::PingResponse(PingResponse::from_bytes(rest)))
        } else {
            None
        }
    }

    /// The packet of any catalog command, as the host writes it; empty for
    /// `Nop`.
    pub fn encode(&self) -> (r: Vec<u8>)
        ensures
            r@ == wire(*self),
    {
        match *self {
            Command::Nop => Vec::new(),
            Command::Sensor(s) => s.encode(),
            Command::Utility(u) => u.encode(),
            Command::Ping(c) => c.to_bytes(),
            Command::PingResponse(c) => c.to_bytes(),
        }
    }

    /// Writes the packet of a host-bound command (an event or a response)
    /// to the front of `buf` and returns its length. A request or `Nop` is
    /// refused, and so is a buffer too short; then `buf` is unchanged.
    pub fn to_bytes(&self, buf: &mut [u8]) -> (r: Result<usize, EncodeError>)
        ensures
            match r {
                Ok(n) => {
                    &&& host_bound(*self)
                    &&& n == wire(*self).len()
                    &&& written_over(old(buf)@, final(buf)@, wire(*self))
                },
                Err(EncodeError::NotHostBound) => {
                    &&& !host_bound(*self)
                    &&& final(buf)@ == old(buf)@
                },
                Err(EncodeError::BufferTooSmall) => {
                    &&& host_bound(*self)
                    &&& old(buf)@.len() < wire(*self).len()
                    &&& final(buf)@ == old(buf)@
                },
            },
    {
        let host = match *self {
            Command::Sensor(SensorCommand::ReportNewData(_)) => true,
            Command::Sensor(SensorCommand::LastCO2DataResponse(_)) => true,
            Command::Sensor(SensorCommand::LastTemperatureResponse(_)) => true,
            Command::Sensor(SensorCommand::LastHumidityResponse(_)) => true,
            Command::Utility(UtilityCommand::GenericResponse(_)) => true,
            Command::PingResponse(_) => true,
            _ => false,
        };
        if !host {
            return Err(EncodeError::NotHostBound);
        }
        let packet = self.encode();
        if packet.len() > buf.len() {
            return Err(EncodeError::BufferTooSmall);
        }
        copy_into(buf, &packet, 0);
        assert(packet@.subrange(0, packet@.len() as int) =~= wire(*self));
        Ok(packet.len())
    }
}

// ---------------------------------------------------------------------------
// Laws

proof fn lemma_be_u16_round_trip(v: u16)
    ensures
        u16_of(be_u16(v)[0], be_u16(v)[1]) == v,
{
}

proof fn lemma_i16_bits_round_trip(t: i16)
    ensures
        i16_of_bits(i16_bits(t)) == t,
{
}

/// Decoding the packet of any catalog command gives back that command, for
/// every field value (a temperature included, whatever its sign).
pub proof fn lemma_round_trip(c: Command)
    requires
        in_catalog(c),
    ensures
        parse(wire(c)) == Some(c),
{
    let w = wire(c);
    match c {
        Command::Sensor(s) => {
            let b = sensor_wire(s);
            assert(w.drop_first() =~= b);
            match s {
                SensorCommand::SetMeasurementInterval(x) => lemma_be_u16_round_trip(x.measurement_interval),
                SensorCommand::SetAltitude(x) => lemma_be_u16_round_trip(x.altitude),
                SensorCommand::SetTemperatureOffset(x) => lemma_be_u16_round_trip(x.temperature_offset),
                SensorCommand::LastCO2DataResponse(x) => lemma_be_u16_round_trip(x.co_2_data),
                SensorCommand::LastTemperatureResponse(x) => {
                    lemma_be_u16_round_trip(i16_bits(x.temperature));
                    lemma_i16_bits_round_trip(x.temperature);
                },
                SensorCommand::LastHumidityResponse(x) => lemma_be_u16_round_trip(x.relative_humidity),
                _ => {},
            }
        },
        Command::Utility(u) => {
            assert(w.drop_first() =~= utility_wire(u));
        },
        _ => {},
    }
}

/// What a host-bound command's bytes decode to: the command itself.
pub proof fn lemma_host_bound_round_trip(c: Command, out: Seq<u8>)
    requires
        host_bound(c),
        out.len() >= wire(c).len(),
        out.subrange(0, wire(c).len() as int) == wire(c),
    ensures
        parse(out) == Some(c),
{
    lemma_round_trip(c);
    lemma_parse_ignores_tail(c, out);
}

/// Bytes after a packet's fields are not read.
pub proof fn lemma_parse_ignores_tail(c: Command, b: Seq<u8>)
    requires
        in_catalog(c),
        b.len() >= wire(c).len(),
        b.subrange(0, wire(c).len() as int) == wire(c),
    ensures
        parse(b) == Some(c),
{
    lemma_round_trip(c);
    let w = wire(c);
    assert(b[0] == w[0]);
    assert forall|i: int| 0 <= i < w.len() implies b[i] == w[i] by {
        assert(b.subrange(0, w.len() as int)[i] == b[i]);
    }
    match c {
        Command::Sensor(s) => {
            assert(w.drop_first() =~= sensor_wire(s));
            let bd = b.drop_first();
            let wd = w.drop_first();
            assert forall|i: int| 0 <= i < wd.len() implies bd[i] == wd[i] by {
                assert(b[i + 1] == w[i + 1]);
            }
        },
        Command::Utility(u) => {
            assert(w.drop_first() =~= utility_wire(u));
            let bd = b.drop_first();
            let wd = w.drop_first();
            assert forall|i: int| 0 <= i < wd.len() implies bd[i] == wd[i] by {
                assert(b[i + 1] == w[i + 1]);
            }
        },
        _ => {},
    }
}

} // verus!
