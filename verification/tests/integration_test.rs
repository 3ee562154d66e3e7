use fronius_meter_emulation::home_assistant_reader::{
    HomeAssistantReader, Offset, RetryStep, RunPlan, SensorError,
};
use fronius_meter_emulation::power_combiner::PowerCombiner;
use fronius_meter_emulation::shelly_reader::{
    ConnectStep, ReadError, RunStep, ShellyReader, TransportError,
};
use fronius_meter_emulation::smart_meter_emulator::{
    Exception, Request, Response, SmartMeterEmulator,
};

/// The meter device of the primary source: what it reports, or that it fails.
struct MockShelly {
    power: f32,
    should_fail: bool,
    read_count: u32,
}

impl MockShelly {
    fn read(&mut self) -> Result<Vec<u16>, TransportError> {
        self.read_count += 1;
        if self.should_fail {
            return Err(TransportError::Exception);
        }
        let bits = self.power.to_bits();
        Ok(vec![(bits & 0xFFFF) as u16, (bits >> 16) as u16])
    }
}

/// The sensor service of the secondary source: the states of its two sensors.
struct MockHomeAssistant {
    import_value: f32,
    export_value: f32,
    request_count: u32,
}

impl MockHomeAssistant {
    fn state(&mut self, sensor: &str) -> Result<String, SensorError> {
        self.request_count += 1;
        match sensor {
            "sensor.test_import" => Ok(self.import_value.to_string()),
            "sensor.test_export" => Ok(self.export_value.to_string()),
            _ => Err(SensorError::ReadFailed),
        }
    }
}

/// The whole bridge, driven by hand: one call of `shelly_cycle` is one read
/// cycle of the primary reader, one call of `ha_cycle` one of the secondary.
struct Bridge {
    shelly: MockShelly,
    ha: MockHomeAssistant,
    shelly_reader: ShellyReader,
    ha_reader: HomeAssistantReader,
    sum: f32,
    combiner: PowerCombiner,
    meter: SmartMeterEmulator,
    ha_samples: Vec<f32>,
}

impl Bridge {
    fn new(import: Option<&str>, export: Option<&str>, smooth: Option<&str>) -> Self {
        Bridge {
            shelly: MockShelly { power: 0.0, should_fail: false, read_count: 0 },
            ha: MockHomeAssistant { import_value: 0.0, export_value: 0.0, request_count: 0 },
            shelly_reader: ShellyReader::new(),
            ha_reader: HomeAssistantReader::new(
                import.map(str::to_string),
                export.map(str::to_string),
                smooth.map(str::to_string),
            ),
            sum: 0.0,
            combiner: PowerCombiner::new(),
            meter: SmartMeterEmulator::new(),
            ha_samples: Vec::new(),
        }
    }

    fn emit(&mut self, emit: Option<(u32, u32)>) {
        if let Some((power, offset)) = emit {
            let combined = f32::from_bits(power) + f32::from_bits(offset);
            let readings = PowerCombiner::send_readings(combined.to_bits());
            self.meter.handle_incoming_register_events(&readings);
        }
    }

    /// One read cycle of the primary reader. Returns false once it stopped.
    fn shelly_cycle(&mut self) -> bool {
        let reply = if self.shelly_reader.needs_connection() {
            // The device is always there to connect to.
            match ShellyReader::connect_with_retry(1, true) {
                ConnectStep::Connected => Some(self.shelly.read()),
                _ => None,
            }
        } else {
            Some(self.shelly.read())
        };
        let outcome = self.shelly_reader.read_power_with_retry(reply);
        match self.shelly_reader.run(outcome) {
            RunStep::Send(power) => {
                let emit = self.combiner.update_shelly_power(power);
                self.emit(emit);
                self.shelly_reader.sent(true) == RunStep::Continue
            }
            RunStep::Continue => true,
            RunStep::Stop => false,
        }
    }

    fn sensor(&mut self, name: &str) -> Result<f32, SensorError> {
        match HomeAssistantReader::read_sensor_value(name) {
            Some(zero) => Ok(f32::from_bits(zero)),
            None => {
                let state = self.ha.state(name)?;
                state.parse::<f32>().map_err(|_| SensorError::NotNumeric)
            }
        }
    }

    fn read_offset(&mut self) -> Result<u32, SensorError> {
        let import_name = self.ha_reader.import_sensor().clone();
        let export_name = self.ha_reader.export_sensor().clone();
        let import = self.sensor(&import_name)?;
        let export = self.sensor(&export_name)?;
        let raw = import - export;
        Ok(match self.ha_reader.read_offset(raw.to_bits()) {
            Offset::Raw(bits) => bits,
            Offset::Smoothed(step) => {
                if let Some(evicted) = step.evicted {
                    self.sum -= f32::from_bits(evicted);
                }
                self.sum += f32::from_bits(step.added);
                let mean = self.sum / self.ha_reader.window_len() as f32;
                self.ha_reader.smoothed_offset(mean.to_bits())
            }
        })
    }

    /// One read cycle of the secondary reader. Returns false once it finished.
    fn ha_cycle(&mut self) -> bool {
        match self.ha_reader.run() {
            RunPlan::Finished => false,
            RunPlan::SendOnce(zero) => {
                self.ha_samples.push(f32::from_bits(zero));
                let emit = self.combiner.update_ha_offset(zero);
                self.emit(emit);
                false
            }
            RunPlan::Poll => {
                let mut attempt = 1;
                let outcome = loop {
                    let outcome = self.read_offset();
                    match HomeAssistantReader::read_offset_with_retry(attempt, outcome) {
                        RetryStep::Done(offset) => break Ok(offset),
                        RetryStep::RetryAfterMs(_) => attempt += 1,
                        RetryStep::GiveUp(e) => break Err(e),
                    }
                };
                let sample = HomeAssistantReader::sample(outcome);
                self.ha_samples.push(f32::from_bits(sample));
                let emit = self.combiner.update_ha_offset(sample);
                self.emit(emit);
                true
            }
        }
    }

    fn test_modbus_client(&self) -> Result<Vec<u16>, Exception> {
        match self.meter.call(Request::ReadHoldingRegisters(40097, 2)) {
            Ok(Response::ReadHoldingRegisters(values)) => Ok(values),
            Ok(Response::ReadInputRegisters(_)) => panic!("answered from the wrong table"),
            Err(e) => Err(e),
        }
    }
}

/// Convert two u16 values back to f32: the meter stores [high_bits, low_bits].
fn u16_pair_to_f32(high: u16, low: u16) -> f32 {
    let combined: u32 = ((high as u32) << 16) | (low as u32);
    f32::from_bits(combined)
}

#[test]
fn test_full_integration() {
    let mut bridge = Bridge::new(Some("sensor.test_import"), Some("sensor.test_export"), Some("false"));

    // Set initial values
    bridge.shelly.power = 1000.0; // 1000W from Shelly
    bridge.ha.import_value = 500.0; // 500W import
    bridge.ha.export_value = 200.0; // 200W export
                                    // Expected combined power: 1000 + (500 - 200) = 1300W

    // Two seconds: four cycles of the primary reader, two of the secondary.
    for _ in 0..2 {
        assert!(bridge.shelly_cycle());
        assert!(bridge.shelly_cycle());
        assert!(bridge.ha_cycle());
    }

    // Test 1: Basic functionality - read combined power value
    let result = bridge.test_modbus_client().expect("Failed to read from meter");

    assert_eq!(result.len(), 2, "Expected 2 registers for f32 value");
    let combined_power = u16_pair_to_f32(result[0], result[1]);
    assert!(
        (combined_power - 1300.0).abs() < 0.1,
        "Expected combined power ~1300W, got {}W",
        combined_power
    );

    // Test 2: Update values and verify changes propagate
    bridge.shelly.power = 2000.0; // Change Shelly to 2000W
    bridge.ha.import_value = 300.0; // Change import to 300W
    bridge.ha.export_value = 100.0; // Change export to 100W
                                    // Expected new combined power: 2000 + (300 - 100) = 2200W

    for _ in 0..2 {
        assert!(bridge.shelly_cycle());
        assert!(bridge.shelly_cycle());
        assert!(bridge.ha_cycle());
    }

    let result = bridge.test_modbus_client().expect("Failed to read updated values from meter");

    let updated_power = u16_pair_to_f32(result[0], result[1]);
    assert!(
        (updated_power - 2200.0).abs() < 0.1,
        "Expected updated power ~2200W, got {}W",
        updated_power
    );

    // Test 3: Negative power values (export > import scenario)
    bridge.shelly.power = -500.0; // Negative power from Shelly (exporting)
    bridge.ha.import_value = 100.0;
    bridge.ha.export_value = 800.0; // Export more than import
                                    // Expected: -500 + (100 - 800) = -1200W

    for _ in 0..2 {
        assert!(bridge.shelly_cycle());
        assert!(bridge.shelly_cycle());
        assert!(bridge.ha_cycle());
    }

    let result = bridge.test_modbus_client().expect("Failed to read negative values from meter");

    let negative_power = u16_pair_to_f32(result[0], result[1]);
    assert!(
        (negative_power - (-1200.0)).abs() < 0.1,
        "Expected negative power ~-1200W, got {}W",
        negative_power
    );

    // Test 4: Verify both servers are being accessed
    let shelly_reads = bridge.shelly.read_count;
    let ha_requests = bridge.ha.request_count;

    assert!(shelly_reads > 5, "Expected multiple Shelly reads, got {}", shelly_reads);
    assert!(ha_requests > 2, "Expected multiple HA requests, got {}", ha_requests);

    // Test 5: Test resilience to temporary failures
    bridge.shelly.should_fail = true;
    // One second: let it fail a few times
    assert!(bridge.shelly_cycle());
    assert!(bridge.shelly_cycle());
    assert!(bridge.ha_cycle());
    assert_eq!(bridge.shelly_reader.consecutive_errors(), 2);

    bridge.shelly.should_fail = false;
    bridge.shelly.power = 3000.0;
    bridge.ha.import_value = 400.0;
    bridge.ha.export_value = 50.0;
    // Expected: 3000 + (400 - 50) = 3350W

    for _ in 0..3 {
        assert!(bridge.shelly_cycle());
        assert!(bridge.shelly_cycle());
        assert!(bridge.ha_cycle());
    }

    let result = bridge.test_modbus_client().expect("Failed to read from meter after recovery");

    let recovery_power = u16_pair_to_f32(result[0], result[1]);
    assert!(
        (recovery_power - 3350.0).abs() < 0.1,
        "Expected recovery power ~3350W, got {}W",
        recovery_power
    );
    assert!(!bridge.shelly_reader.is_stopped());
    assert_eq!(bridge.shelly_reader.consecutive_errors(), 0);
}

#[test]
fn test_missing_home_assistant_config() {
    // Only the primary source is configured
    let mut bridge = Bridge::new(None, None, None);
    bridge.shelly.power = 1500.0;

    for _ in 0..2 {
        assert!(bridge.shelly_cycle());
        assert!(bridge.shelly_cycle());
        bridge.ha_cycle();
    }

    let result = bridge.test_modbus_client().expect("Failed to read from meter");

    let power_only = u16_pair_to_f32(result[0], result[1]);
    // Should be just the Shelly power (1500W) + 0W offset = 1500W
    assert!(
        (power_only - 1500.0).abs() < 0.1,
        "Expected power-only reading ~1500W, got {}W (should have no HA offset)",
        power_only
    );
    assert_eq!(bridge.ha_samples, vec![0.0]);
    assert_eq!(bridge.ha.request_count, 0);
}

#[test]
fn the_combined_figures_are_exact() {
    let mut bridge = Bridge::new(Some("sensor.test_import"), Some("sensor.test_export"), None);
    for (power, import, export, combined) in [
        (1000.0f32, 500.0f32, 200.0f32, 1300.0f32),
        (2000.0, 300.0, 100.0, 2200.0),
        (-500.0, 100.0, 800.0, -1200.0),
        (3000.0, 400.0, 50.0, 3350.0),
    ] {
        bridge.shelly.power = power;
        bridge.ha.import_value = import;
        bridge.ha.export_value = export;
        assert!(bridge.shelly_cycle());
        assert!(bridge.ha_cycle());
        let result = bridge.test_modbus_client().unwrap();
        assert_eq!(u16_pair_to_f32(result[0], result[1]), combined);
        let bits = combined.to_bits();
        assert_eq!(result, vec![(bits >> 16) as u16, (bits & 0xFFFF) as u16]);
        // Net current and reactive power carry the same figure.
        assert_eq!(
            bridge.meter.call(Request::ReadHoldingRegisters(40071, 2)),
            Ok(Response::ReadHoldingRegisters(result.clone()))
        );
        assert_eq!(
            bridge.meter.call(Request::ReadHoldingRegisters(40113, 2)),
            Ok(Response::ReadHoldingRegisters(result))
        );
    }
}

#[test]
fn the_meter_stays_at_zero_until_both_sources_are_heard() {
    let mut bridge = Bridge::new(Some("sensor.test_import"), None, None);
    bridge.shelly.power = 750.0;
    bridge.ha.import_value = 10.0;
    for _ in 0..4 {
        assert!(bridge.shelly_cycle());
        assert_eq!(bridge.test_modbus_client(), Ok(vec![0, 0]));
        assert_eq!(
            bridge.meter.call(Request::ReadHoldingRegisters(40071, 58)),
            Ok(Response::ReadHoldingRegisters(vec![0; 58]))
        );
    }
    assert!(bridge.ha_cycle());
    let result = bridge.test_modbus_client().unwrap();
    assert_eq!(u16_pair_to_f32(result[0], result[1]), 760.0);
}

#[test]
fn a_sensor_that_cannot_be_read_gives_a_zero_offset() {
    let mut bridge = Bridge::new(Some("sensor.unknown"), Some("sensor.test_export"), None);
    bridge.shelly.power = 900.0;
    bridge.ha.export_value = 100.0;
    assert!(bridge.shelly_cycle());
    assert!(bridge.ha_cycle());
    // Three attempts, each of which fails at the first sensor.
    assert_eq!(bridge.ha.request_count, 3);
    assert_eq!(bridge.ha_samples, vec![0.0]);
    let result = bridge.test_modbus_client().unwrap();
    assert_eq!(u16_pair_to_f32(result[0], result[1]), 900.0);
}

#[test]
fn the_primary_reader_stops_after_ten_failed_cycles() {
    let mut bridge = Bridge::new(None, None, None);
    bridge.shelly.power = 100.0;
    assert!(bridge.shelly_cycle());
    bridge.ha_cycle();
    bridge.shelly.should_fail = true;
    for _ in 0..9 {
        assert!(bridge.shelly_cycle());
    }
    assert!(!bridge.shelly_reader.is_stopped());
    assert!(!bridge.shelly_cycle());
    assert!(bridge.shelly_reader.is_stopped());
    // The meter keeps the last figure.
    let result = bridge.test_modbus_client().unwrap();
    assert_eq!(u16_pair_to_f32(result[0], result[1]), 100.0);
    // A read error is told apart from a missing connection.
    let mut reader = ShellyReader::new();
    assert_eq!(reader.read_power_with_retry(None), Err(ReadError::NoConnection));
}

#[test]
fn smoothing_holds_the_offset_at_zero_for_nine_cycles() {
    let mut bridge = Bridge::new(Some("sensor.test_import"), Some("sensor.test_export"), Some("True"));
    bridge.shelly.power = 1000.0;
    bridge.ha.import_value = 500.0;
    bridge.ha.export_value = 200.0;
    assert!(bridge.shelly_cycle());
    for _ in 0..9 {
        assert!(bridge.ha_cycle());
        let result = bridge.test_modbus_client().unwrap();
        assert_eq!(u16_pair_to_f32(result[0], result[1]), 1000.0);
    }
    assert!(bridge.ha_cycle());
    let result = bridge.test_modbus_client().unwrap();
    assert_eq!(u16_pair_to_f32(result[0], result[1]), 1300.0);
    assert_eq!(bridge.ha_samples[..9], [0.0; 9]);
    assert_eq!(bridge.ha_samples[9], 300.0);
}
