use atmosensor::codec::{
    Command, DisableTestLed, EnableTestLed, GenericResponse, LastCO2DataResponse,
    LastHumidityResponse, LastTemperatureResponse, Ping, PingResponse, ReportNewData,
    RequestLastCO2Data, RequestLastHumidity, RequestLastTemperature, SensorCommand, SetAltitude,
    SetMeasurementInterval, SetTemperatureOffset, StartContinuousMeasurement, UtilityCommand,
};
use atmosensor::dispatch::{Action, CommandHandler, Measurement, Outcome, Readings};
use atmosensor::framing::{encode_frame, FramingBuffer};
use atmosensor::host::LinkReceiver;
use atmosensor::link::{next_outbound_frame, receive_packet, RxStatus};
use atmosensor::queue::{CommandQueue, QueueFull};

fn generic(ok: bool) -> Command {
    Command::Utility(UtilityCommand::GenericResponse(GenericResponse { successful: ok }))
}

fn report() -> Command {
    Command::Sensor(SensorCommand::ReportNewData(ReportNewData {}))
}

/// Runs one dispatcher cycle, answering the action with `outcome`.
fn cycle<const N: usize, const M: usize>(
    h: &mut CommandHandler,
    inbound: &mut CommandQueue<N>,
    outbound: &mut CommandQueue<M>,
    outcome: Outcome,
) -> Option<Action> {
    let (cmd, action) = h.run(inbound)?;
    h.finish(&cmd, outcome, outbound).unwrap();
    Some(action)
}

#[test]
fn configuration_round_trip() {
    // Host side: frame a SetAltitude request.
    let request = Command::Sensor(SensorCommand::SetAltitude(SetAltitude { altitude: 500 }));
    let wire = encode_frame(&request.encode());

    // Device side: frame, decode and queue it, then dispatch it.
    let mut rx: FramingBuffer<64> = FramingBuffer::new();
    let mut inbound: CommandQueue<48> = CommandQueue::new();
    let mut outbound: CommandQueue<12> = CommandQueue::new();
    assert_eq!(rx.write_bytes(&wire), wire.len());
    assert_eq!(receive_packet(&mut rx, &mut inbound, &mut outbound), RxStatus::Queued(request));
    let mut h = CommandHandler::new();
    let action = cycle(&mut h, &mut inbound, &mut outbound, Outcome::Applied(true));
    assert_eq!(action, Some(Action::SetAltitude(500)));

    // The response goes back to the host.
    let frame = next_outbound_frame(&mut outbound).unwrap();
    let mut host: LinkReceiver<64> = LinkReceiver::new();
    host.accept(&frame);
    assert_eq!(host.next_command(), Some(generic(true)));
    assert_eq!(host.next_command(), None);
}

#[test]
fn failed_configuration_is_reported() {
    let mut h = CommandHandler::new();
    let mut inbound: CommandQueue<4> = CommandQueue::new();
    let mut outbound: CommandQueue<4> = CommandQueue::new();
    for c in [
        Command::Sensor(SensorCommand::SetMeasurementInterval(SetMeasurementInterval { measurement_interval: 2 })),
        Command::Sensor(SensorCommand::SetTemperatureOffset(SetTemperatureOffset { temperature_offset: 3 })),
        Command::Sensor(SensorCommand::StartContinuousMeasurement(StartContinuousMeasurement {})),
    ] {
        inbound.push(c).unwrap();
    }
    assert_eq!(cycle(&mut h, &mut inbound, &mut outbound, Outcome::Applied(false)), Some(Action::SetMeasurementInterval(2)));
    assert_eq!(cycle(&mut h, &mut inbound, &mut outbound, Outcome::Applied(true)), Some(Action::SetTemperatureOffset(3)));
    assert_eq!(cycle(&mut h, &mut inbound, &mut outbound, Outcome::Done), Some(Action::StartContinuousMeasurement));
    assert_eq!(outbound.pop(), Some(generic(false)));
    assert_eq!(outbound.pop(), Some(generic(true)));
    assert_eq!(outbound.pop(), Some(generic(false)));
}

#[test]
fn data_ready_burst_is_delivered_in_order() {
    let mut inbound: CommandQueue<48> = CommandQueue::new();
    let mut outbound: CommandQueue<12> = CommandQueue::new();
    for _ in 0..5 {
        assert_eq!(inbound.push(report()), Ok(()));
    }
    let mut h = CommandHandler::new();
    let mut host: LinkReceiver<64> = LinkReceiver::new();
    let mut seen = Vec::new();
    for i in 0..5u16 {
        let m = Measurement { co2_ppm: 400 + i, temperature: 20, humidity: 40 };
        let action = cycle(&mut h, &mut inbound, &mut outbound, Outcome::Measured(Some(m)));
        assert_eq!(action, Some(Action::ReadMeasurement));
        host.accept(&next_outbound_frame(&mut outbound).unwrap());
    }
    while let Some(c) = host.next_command() {
        seen.push(c);
    }
    assert_eq!(seen, vec![report(); 5]);
    assert_eq!(h.last_readings().co2_ppm, Some(404));
    assert_eq!(cycle(&mut h, &mut inbound, &mut outbound, Outcome::Done), None);
}

#[test]
fn requests_answer_from_the_last_reading() {
    let mut h = CommandHandler::new();
    let none = Readings { co2_ppm: None, temperature: None, humidity: None };
    assert_eq!(h.last_readings(), none);
    let co2 = Command::Sensor(SensorCommand::RequestLastCO2Data(RequestLastCO2Data {}));
    let temp = Command::Sensor(SensorCommand::RequestLastTemperature(RequestLastTemperature {}));
    let hum = Command::Sensor(SensorCommand::RequestLastHumidity(RequestLastHumidity {}));
    assert_eq!(h.respond(&co2, Outcome::Done), Some(generic(false)));
    assert_eq!(h.respond(&temp, Outcome::Done), Some(generic(false)));
    assert_eq!(h.respond(&hum, Outcome::Done), Some(generic(false)));

    // A failed read keeps the cache empty but still reports new data.
    assert_eq!(h.respond(&report(), Outcome::Measured(None)), Some(report()));
    assert_eq!(h.last_readings(), none);

    let m = Measurement { co2_ppm: 812, temperature: -5, humidity: 55 };
    assert_eq!(h.respond(&report(), Outcome::Measured(Some(m))), Some(report()));
    assert_eq!(
        h.respond(&co2, Outcome::Done),
        Some(Command::Sensor(SensorCommand::LastCO2DataResponse(LastCO2DataResponse { co_2_data: 812 })))
    );
    assert_eq!(
        h.respond(&temp, Outcome::Done),
        Some(Command::Sensor(SensorCommand::LastTemperatureResponse(LastTemperatureResponse { temperature: -5 })))
    );
    assert_eq!(
        h.respond(&hum, Outcome::Done),
        Some(Command::Sensor(SensorCommand::LastHumidityResponse(LastHumidityResponse { relative_humidity: 55 })))
    );
}

#[test]
fn utility_commands_drive_the_led_without_response() {
    let mut h = CommandHandler::new();
    let on = Command::Utility(UtilityCommand::EnableTestLed(EnableTestLed {}));
    let off = Command::Utility(UtilityCommand::DisableTestLed(DisableTestLed {}));
    assert_eq!(CommandHandler::action_for(&on), Action::SetTestLed(true));
    assert_eq!(CommandHandler::action_for(&off), Action::SetTestLed(false));
    assert_eq!(h.respond(&on, Outcome::Done), None);
    assert_eq!(h.respond(&off, Outcome::Done), None);
    assert_eq!(CommandHandler::action_for(&Command::Nop), Action::Idle);
    assert_eq!(h.respond(&Command::Nop, Outcome::Done), None);
    assert_eq!(h.respond(&Command::PingResponse(PingResponse {}), Outcome::Done), None);
}

#[test]
fn full_outbound_queue_drops_the_response() {
    let mut h = CommandHandler::new();
    let mut outbound: CommandQueue<2> = CommandQueue::new();
    outbound.push(generic(true)).unwrap();
    assert_eq!(h.finish(&report(), Outcome::Measured(None), &mut outbound), Err(QueueFull));
    assert_eq!(outbound.len(), 1);
}

#[test]
fn link_answers_ping_and_reports_bad_packets() {
    let mut rx: FramingBuffer<64> = FramingBuffer::new();
    let mut inbound: CommandQueue<4> = CommandQueue::new();
    let mut outbound: CommandQueue<4> = CommandQueue::new();
    assert_eq!(receive_packet(&mut rx, &mut inbound, &mut outbound), RxStatus::NoPacket);

    rx.write_bytes(&encode_frame(&Command::Ping(Ping {}).encode()));
    assert_eq!(receive_packet(&mut rx, &mut inbound, &mut outbound), RxStatus::PingAnswered);
    assert_eq!(next_outbound_frame(&mut outbound), Some(vec![0x03, 0xDE, 0x01, 0x00]));

    rx.write_bytes(&encode_frame(&[0x99, 0x00]));
    assert_eq!(receive_packet(&mut rx, &mut inbound, &mut outbound), RxStatus::DecodeError);

    rx.write_bytes(&[0x05, 0x11, 0x00]);
    assert_eq!(receive_packet(&mut rx, &mut inbound, &mut outbound), RxStatus::FramingError);
    assert!(inbound.is_empty());
    assert!(outbound.is_empty());
}

#[test]
fn link_drops_commands_when_inbound_is_full() {
    let mut rx: FramingBuffer<64> = FramingBuffer::new();
    let mut inbound: CommandQueue<2> = CommandQueue::new();
    let mut outbound: CommandQueue<2> = CommandQueue::new();
    let on = Command::Utility(UtilityCommand::EnableTestLed(EnableTestLed {}));
    rx.write_bytes(&encode_frame(&on.encode()));
    assert_eq!(receive_packet(&mut rx, &mut inbound, &mut outbound), RxStatus::Queued(on));
    rx.write_bytes(&encode_frame(&on.encode()));
    assert_eq!(receive_packet(&mut rx, &mut inbound, &mut outbound), RxStatus::Dropped(on));
}

#[test]
fn requests_are_not_sent_to_the_host() {
    let mut outbound: CommandQueue<4> = CommandQueue::new();
    outbound.push(Command::Sensor(SensorCommand::SetAltitude(SetAltitude { altitude: 1 }))).unwrap();
    outbound.push(generic(false)).unwrap();
    assert_eq!(next_outbound_frame(&mut outbound), None);
    assert_eq!(next_outbound_frame(&mut outbound), Some(vec![0x03, 0xAA, 0x02, 0x01, 0x00]));
    assert_eq!(next_outbound_frame(&mut outbound), None);
}
