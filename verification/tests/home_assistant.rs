use fronius_meter_emulation::home_assistant::{ApiError, HASensor, HomeAssistantAPI};
use fronius_meter_emulation::home_assistant_reader::{
    HomeAssistantReader, Offset, RetryStep, RunPlan, SensorError, MAX_RETRIES, READ_INTERVAL_MS,
    RETRY_DELAY_MS, ZERO_OFFSET,
};
use fronius_meter_emulation::rolling_average::SumStep;

fn text(s: &str) -> Option<String> {
    Some(s.to_string())
}

#[test]
fn test_home_assistant_api() {
    let api = HomeAssistantAPI::new(text("http://127.0.0.1:8123"), text("test_token"));
    let url = api.sensor_url("sensor.temperature").unwrap();
    assert_eq!(url, "http://127.0.0.1:8123/api/states/sensor.temperature");
    assert_eq!(api.auth_token(), "test_token");

    let result = HASensor {
        entity_id: "sensor.temperature".to_string(),
        state: "22.5".to_string(),
        last_changed: "2023-01-01T12:00:00Z".to_string(),
        last_reported: "2023-01-01T12:00:00Z".to_string(),
        last_updated: "2023-01-01T12:00:00Z".to_string(),
    };

    // A copy carries every field, and a change of any field tells two
    // states apart.
    let copy = result.clone();
    assert_eq!(copy, result);
    assert_ne!(copy, HASensor::default());
    assert_ne!(HASensor { entity_id: "sensor.other".to_string(), ..result.clone() }, result);
    assert_ne!(HASensor { state: "22.6".to_string(), ..result.clone() }, result);
    assert_ne!(HASensor { last_changed: String::new(), ..result.clone() }, result);
    assert_ne!(HASensor { last_reported: String::new(), ..result.clone() }, result);
    assert_ne!(HASensor { last_updated: String::new(), ..result.clone() }, result);
    assert_eq!(copy.state.parse::<f32>(), Ok(22.5));
}

#[test]
fn test_home_assistant_api_no_connection() {
    let api = HomeAssistantAPI::new(None, None);
    let result = api.sensor_url("sensor.temperature");

    assert!(result.is_err());
    assert_eq!(result.unwrap_err().message(), "No HA connection");
}

#[test]
fn an_empty_address_is_no_connection() {
    let api = HomeAssistantAPI::new(text(""), text("token"));
    assert_eq!(api.sensor_url("sensor.a"), Err(ApiError::NoConnection));
    assert_eq!(api.sensor_url(""), Err(ApiError::NoConnection));
    assert_eq!(api.auth_token(), "token");
}

#[test]
fn the_address_of_a_sensor_is_put_together_as_it_stands() {
    let api = HomeAssistantAPI::new(text("http://ha.local/"), None);
    assert_eq!(api.sensor_url("sensor.x").unwrap(), "http://ha.local//api/states/sensor.x");
    assert_eq!(api.sensor_url("").unwrap(), "http://ha.local//api/states/");
    assert_eq!(api.auth_token(), "");
    let api = HomeAssistantAPI::new(text("h"), None);
    assert_eq!(api.sensor_url("é").unwrap(), "h/api/states/é");
}

#[test]
fn a_default_sensor_is_empty() {
    let sensor = HASensor::default();
    assert_eq!(sensor.entity_id, "");
    assert_eq!(sensor.state, "");
    assert_eq!(sensor.clone(), sensor);
}

#[test]
fn secondary_reader_constants() {
    assert_eq!(READ_INTERVAL_MS, 1000);
    assert_eq!(MAX_RETRIES, 3);
    assert_eq!(RETRY_DELAY_MS, 200);
    assert_eq!(ZERO_OFFSET, 0.0f32.to_bits());
}

#[test]
fn a_reader_without_sensors_sends_one_zero_and_nothing_more() {
    let mut reader = HomeAssistantReader::new(None, None, None);
    assert_eq!(reader.run(), RunPlan::SendOnce(0));
    for _ in 0..50 {
        assert_eq!(reader.run(), RunPlan::Finished);
    }
    let mut reader = HomeAssistantReader::new(text(""), text(""), text("true"));
    assert_eq!(reader.run(), RunPlan::SendOnce(0.0f32.to_bits()));
    assert_eq!(reader.run(), RunPlan::Finished);
}

#[test]
fn a_reader_with_a_sensor_polls() {
    for (import, export) in [
        (text("sensor.in"), text("sensor.out")),
        (text("sensor.in"), None),
        (None, text("sensor.out")),
        (text("sensor.in"), text("")),
    ] {
        let mut reader = HomeAssistantReader::new(import, export, None);
        for _ in 0..5 {
            assert_eq!(reader.run(), RunPlan::Poll);
        }
    }
}

#[test]
fn only_a_polling_reader_must_not_lose_a_sample() {
    assert!(RunPlan::Poll.send_failure_is_fatal());
    assert!(!RunPlan::SendOnce(0).send_failure_is_fatal());
    assert!(!RunPlan::Finished.send_failure_is_fatal());
}

#[test]
fn settings_are_kept() {
    let reader = HomeAssistantReader::new(text("sensor.in"), None, text("TRUE"));
    assert_eq!(reader.import_sensor(), "sensor.in");
    assert_eq!(reader.export_sensor(), "");
    assert!(reader.should_smooth());
    assert_eq!(reader.window_len(), 0);
    let reader = HomeAssistantReader::new(None, text("sensor.out"), text("yes"));
    assert_eq!(reader.import_sensor(), "");
    assert_eq!(reader.export_sensor(), "sensor.out");
    assert!(!reader.should_smooth());
    let reader = HomeAssistantReader::new(None, None, None);
    assert!(!reader.should_smooth());
}

#[test]
fn a_sensor_without_a_name_is_zero_without_a_request() {
    assert_eq!(HomeAssistantReader::read_sensor_value(""), Some(0));
    assert_eq!(HomeAssistantReader::read_sensor_value("sensor.in"), None);
    assert_eq!(HomeAssistantReader::read_sensor_value(" "), None);
}

#[test]
fn retries_wait_two_hundred_milliseconds_times_the_attempt() {
    let failed = Err(SensorError::ReadFailed);
    assert_eq!(HomeAssistantReader::read_offset_with_retry(1, failed), RetryStep::RetryAfterMs(200));
    assert_eq!(HomeAssistantReader::read_offset_with_retry(2, failed), RetryStep::RetryAfterMs(400));
    assert_eq!(
        HomeAssistantReader::read_offset_with_retry(3, failed),
        RetryStep::GiveUp(SensorError::ReadFailed)
    );
    assert_eq!(
        HomeAssistantReader::read_offset_with_retry(3, Err(SensorError::NotNumeric)),
        RetryStep::GiveUp(SensorError::NotNumeric)
    );
    assert_eq!(
        HomeAssistantReader::read_offset_with_retry(u32::MAX, failed),
        RetryStep::GiveUp(SensorError::ReadFailed)
    );
    assert_eq!(HomeAssistantReader::read_offset_with_retry(0, failed), RetryStep::RetryAfterMs(0));
    for attempt in 0..5 {
        assert_eq!(
            HomeAssistantReader::read_offset_with_retry(attempt, Ok(300.0f32.to_bits())),
            RetryStep::Done(300.0f32.to_bits())
        );
    }
}

#[test]
fn a_failed_cycle_sends_zero() {
    assert_eq!(HomeAssistantReader::sample(Ok(300.0f32.to_bits())), 300.0f32.to_bits());
    assert_eq!(HomeAssistantReader::sample(Ok(0x8000_0000)), 0x8000_0000);
    assert_eq!(HomeAssistantReader::sample(Err(SensorError::ReadFailed)), 0);
    assert_eq!(f32::from_bits(HomeAssistantReader::sample(Err(SensorError::NotNumeric))), 0.0);
}

#[test]
fn without_smoothing_the_raw_offset_is_sent() {
    let mut reader = HomeAssistantReader::new(text("sensor.in"), text("sensor.out"), text("false"));
    let raw = (500.0f32 - 200.0f32).to_bits();
    assert_eq!(reader.read_offset(raw), Offset::Raw(raw));
    assert_eq!(reader.window_len(), 0);
}

#[test]
fn with_smoothing_the_offset_enters_the_filter() {
    let mut reader = HomeAssistantReader::new(text("sensor.in"), None, text("true"));
    let mut sum = 0.0f32;
    for k in 0..25u32 {
        let raw = 100.0 + k as f32;
        let step = match reader.read_offset(raw.to_bits()) {
            Offset::Smoothed(step) => step,
            Offset::Raw(_) => panic!("the offset went past the filter"),
        };
        let evicted = if k < 10 { None } else { Some((100.0 + (k - 10) as f32).to_bits()) };
        assert_eq!(step, SumStep { evicted, added: raw.to_bits() });
        if let Some(old) = step.evicted {
            sum -= f32::from_bits(old);
        }
        sum += raw;
        let mean = sum / 10.0;
        let sent = f32::from_bits(reader.smoothed_offset(mean.to_bits()));
        if k < 9 {
            assert_eq!(sent, 0.0);
        } else {
            // The mean of ten consecutive numbers that end at 100 + k.
            assert_eq!(sent, 100.0 + k as f32 - 4.5);
        }
    }
    assert_eq!(reader.window_len(), 10);
}
