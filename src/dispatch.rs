//! The dispatcher: takes commands off the inbound queue, says what the
//! hardware around it must do for each, and turns the outcome into the
//! response that goes onto the outbound queue.
//!
//! One cycle: `run` pops at most one command and names its `Action`; the
//! caller performs the action (a pin write or one sensor bus transaction)
//! and hands its `Outcome` to `finish`.
use vstd::prelude::*;
use crate::codec::{
    Command, GenericResponse, LastCO2DataResponse, LastHumidityResponse, LastTemperatureResponse,
    ReportNewData, SensorCommand, UtilityCommand,
};
use crate::queue::{CommandQueue, QueueFull};

verus! {

/// A reading of the sensor, in fixed point: CO2 in ppm, temperature in
/// degrees Celsius, relative humidity in percent.
#[derive(Clone, Copy, Debug, PartialEq, Eq, Structural)]
pub struct Measurement {
    pub co2_ppm: u16,
    pub temperature: i16,
    pub humidity: u16,
}

/// The last reading of each quantity; each is `None` until a first
/// successful read.
#[derive(Clone, Copy, Debug, PartialEq, Eq, Structural)]
pub struct Readings {
    pub co2_ppm: Option<u16>,
    pub temperature: Option<i16>,
    pub humidity: Option<u16>,
}

/// What the hardware must do for a command.
#[derive(Clone, Copy, Debug, PartialEq, Eq, Structural)]
pub enum Action {
    /// Nothing.
    Idle,
    /// Drive the test LED high (`true`) or low.
    SetTestLed(bool),
    SetMeasurementInterval(u16),
    SetAltitude(u16),
    SetTemperatureOffset(u16),
    StartContinuousMeasurement,
    /// Read a fresh measurement from the sensor.
    ReadMeasurement,
}

/// What came of an action.
#[derive(Clone, Copy, Debug, PartialEq, Eq, Structural)]
pub enum Outcome {
    /// The action has no result (it was `Idle` or a pin write).
    Done,
    /// A sensor register operation succeeded (`true`) or failed.
    Applied(bool),
    /// A measurement was read, or none was (not ready, or a bus error).
    Measured(Option<Measurement>),
}

/// The action that a command asks for.
pub open spec fn action_of(cmd: Command) -> Action {
    match cmd {
        Command::Utility(UtilityCommand::EnableTestLed(_)) => Action::SetTestLed(true),
        Command::Utility(UtilityCommand::DisableTestLed(_)) => Action::SetTestLed(false),
        Command::Sensor(SensorCommand::SetMeasurementInterval(c)) => Action::SetMeasurementInterval(c.measurement_interval),
        Command::Sensor(SensorCommand::SetAltitude(c)) => Action::SetAltitude(c.altitude),
        Command::Sensor(SensorCommand::SetTemperatureOffset(c)) => Action::SetTemperatureOffset(c.temperature_offset),
        Command::Sensor(SensorCommand::StartContinuousMeasurement(_)) => Action::StartContinuousMeasurement,
        Command::Sensor(SensorCommand::ReportNewData(_)) => Action::ReadMeasurement,
        _ => Action::Idle,
    }
}

/// The readings after a command and the outcome of its action: a data-ready
/// event with a fresh measurement replaces all three.
pub open spec fn readings_after(last: Readings, cmd: Command, outcome: Outcome) -> Readings {
    match (cmd, outcome) {
        (Command::Sensor(SensorCommand::ReportNewData(_)), Outcome::Measured(Some(m))) => Readings {
            co2_ppm: Some(m.co2_ppm),
            temperature: Some(m.temperature),
            humidity: Some(m.humidity),
        },
        _ => last,
    }
}

/// A generic response.
pub open spec fn generic(successful: bool) -> Command {
    Command::Utility(UtilityCommand::GenericResponse(GenericResponse { successful }))
}

/// The response that a command gets, given the readings before it and the
/// outcome of its action; `None` when it gets none.
pub open spec fn response_to(last: Readings, cmd: Command, outcome: Outcome) -> Option<Command> {
    match cmd {
        Command::Sensor(SensorCommand::SetMeasurementInterval(_))
        | Command::Sensor(SensorCommand::SetAltitude(_))
        | Command::Sensor(SensorCommand::SetTemperatureOffset(_))
        | Command::Sensor(SensorCommand::StartContinuousMeasurement(_)) => Some(
            generic(outcome == Outcome::Applied(true)),
        ),
        Command::Sensor(SensorCommand::ReportNewData(_)) => Some(
            Command::Sensor(SensorCommand::ReportNewData(ReportNewData {})),
        ),
        Command::Sensor(SensorCommand::RequestLastCO2Data(_)) => Some(
            match last.co2_ppm {
                Some(v) => Command::Sensor(SensorCommand::LastCO2DataResponse(LastCO2DataResponse { co_2_data: v })),
                None => generic(false),
            },
        ),
        Command::Sensor(SensorCommand::RequestLastTemperature(_)) => Some(
            match last.temperature {
                Some(v) => Command::Sensor(SensorCommand::LastTemperatureResponse(LastTemperatureResponse { temperature: v })),
                None => generic(false),
            },
        ),
        Command::Sensor(SensorCommand::RequestLastHumidity(_)) => Some(
            match last.humidity {
                Some(v) => Command::Sensor(SensorCommand::LastHumidityResponse(LastHumidityResponse { relative_humidity: v })),
                None => generic(false),
            },
        ),
        _ => None,
    }
}

/// Dispatches commands and keeps the last sensor readings.
pub struct CommandHandler {
    last: Readings,
}

impl CommandHandler {
    /// The readings that the handler holds.
    pub closed spec fn readings(&self) -> Readings {
        self.last
    }

    /// A handler that has no reading yet.
    pub fn new() -> (r: Self)
        ensures
            r.readings() == (Readings { co2_ppm: None, temperature: None, humidity: None }),
    {
        CommandHandler { last: Readings { co2_ppm: None, temperature: None, humidity: None } }
    }

    /// The last readings.
    pub fn last_readings(&self) -> (r: Readings)
        ensures
            r == self.readings(),
    {
        self.last
    }

    /// The action that a command asks for.
    pub fn action_for(cmd: &Command) -> (r: Action)
        ensures
            r == action_of(*cmd),
    {
        match *cmd {
            Command::Utility(UtilityCommand::EnableTestLed(_)) => Action::SetTestLed(true),
            Command::Utility(UtilityCommand::DisableTestLed(_)) => Action::SetTestLed(false),
            Command::Sensor(SensorCommand::SetMeasurementInterval(c)) => Action::SetMeasurementInterval(c.measurement_interval),
            Command::Sensor(SensorCommand::SetAltitude(c)) => Action::SetAltitude(c.altitude),
            Command::Sensor(SensorCommand::SetTemperatureOffset(c)) => Action::SetTemperatureOffset(c.temperature_offset),
            Command::Sensor(SensorCommand::StartContinuousMeasurement(_)) => Action::StartContinuousMeasurement,
            Command::Sensor(SensorCommand::ReportNewData(_)) => Action::ReadMeasurement,
            _ => Action::Idle,
        }
    }

    /// Takes at most one command off the inbound queue and returns it with
    /// the action it asks for; `None` when the queue is empty.
    pub fn run<const N: usize>(&self, inbound: &mut CommandQueue<N>) -> (r: Option<(Command, Action)>)
        requires
            old(inbound).wf(),
        ensures
            final(inbound).wf(),
            old(inbound)@.len() == 0 ==> r is None && final(inbound)@ == old(inbound)@,
            old(inbound)@.len() > 0 ==> {
                &&& r == Some((old(inbound)@[0], action_of(old(inbound)@[0])))
                &&& final(inbound)@ == old(inbound)@.drop_first()
            },
    {
        match inbound.pop() {
            Some(cmd) => Some((cmd, Self::action_for(&cmd))),
            None => None,
        }
    }

    /// The response to a command, given the outcome of its action; the
    /// readings are updated first where the outcome brings a measurement.
    pub fn respond(&mut self, cmd: &Command, outcome: Outcome) -> (r: Option<Command>)
        ensures
            final(self).readings() == readings_after(old(self).readings(), *cmd, outcome),
            r == response_to(old(self).readings(), *cmd, outcome),
    {
        let before = self.last;
        if let (Command::Sensor(SensorCommand::ReportNewData(_)), Outcome::Measured(Some(m))) = (*cmd, outcome) {
            self.last = Readings {
                co2_ppm: Some(m.co2_ppm),
                temperature: Some(m.temperature),
                humidity: Some(m.humidity),
            };
        }
        let applied = match outcome {
            Outcome::Applied(ok) => ok,
            _ => false,
        };
        match *cmd {
            Command::Sensor(SensorCommand::SetMeasurementInterval(_))
            | Command::Sensor(SensorCommand::SetAltitude(_))
            | Command::Sensor(SensorCommand::SetTemperatureOffset(_))
            | Command::Sensor(SensorCommand::StartContinuousMeasurement(_)) => Some(
                Command::Utility(UtilityCommand::GenericResponse(GenericResponse { successful: applied })),
            ),
            Command::Sensor(SensorCommand::ReportNewData(_)) => Some(
                Command::Sensor(SensorCommand::ReportNewData(ReportNewData {})),
            ),
            Command::Sensor(SensorCommand::RequestLastCO2Data(_)) => Some(
                match before.co2_ppm {
                    Some(v) => Command::Sensor(SensorCommand::LastCO2DataResponse(LastCO2DataResponse { co_2_data: v })),
                    None => Command::Utility(UtilityCommand::GenericResponse(GenericResponse { successful: false })),
                },
            ),
            Command::Sensor(SensorCommand::RequestLastTemperature(_)) => Some(
                match before.temperature {
                    Some(v) => Command::Sensor(SensorCommand::LastTemperatureResponse(LastTemperatureResponse { temperature: v })),
                    None => Command::Utility(UtilityCommand::GenericResponse(GenericResponse { successful: false })),
                },
            ),
            Command::Sensor(SensorCommand::RequestLastHumidity(_)) => Some(
                match before.humidity {
                    Some(v) => Command::Sensor(SensorCommand::LastHumidityResponse(LastHumidityResponse { relative_humidity: v })),
                    None => Command::Utility(UtilityCommand::GenericResponse(GenericResponse { successful: false })),
                },
            ),
            _ => None,
        }
    }

    /// Ends a cycle: updates the readings from the outcome and queues the
    /// response, if the command gets one, on the outbound queue. A full
    /// queue drops the response and reports it.
    pub fn finish<const M: usize>(
        &mut self,
        cmd: &Command,
        outcome: Outcome,
        outbound: &mut CommandQueue<M>,
    ) -> (r: Result<(), QueueFull>)
        requires
            old(outbound).wf(),
        ensures
            final(outbound).wf(),
            final(self).readings() == readings_after(old(self).readings(), *cmd, outcome),
            match response_to(old(self).readings(), *cmd, outcome) {
                None => r is Ok && final(outbound)@ == old(outbound)@,
                Some(resp) => if old(outbound)@.len() < CommandQueue::<M>::capacity() {
                    r is Ok && final(outbound)@ == old(outbound)@.push(resp)
                } else {
                    r is Err && final(outbound)@ == old(outbound)@
                },
            },
    {
        match self.respond(cmd, outcome) {
            Some(resp) => outbound.push(resp),
            None => Ok(()),
        }
    }
}

} // verus!
