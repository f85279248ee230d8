use rapid_scan::device::{parse_error, DeviceError, DeviceStatus};
use rapid_scan::lifecycle::ScanState;
use rapid_scan::sim;
use rapid_scan::worker::{
    acquisition_step, batch_len, needs_status, publish_step, scan_plan, AcquisitionAction,
    ControllerAction, PublishAction, MAX_BATCH,
};

#[test]
fn test_get_range() {
    let range = sim::get_ranges(2);
    assert_eq!(range.0, 0);
    assert_eq!(range.1, 0);
}

#[test]
fn helper_test_get_range() {
    let range = sim::get_ranges(2);
    assert_eq!(range, (0, 0));
}

#[test]
fn lifecycle_goes_forward_once() {
    let s = ScanState::NotStarted;
    let r = s.advance().unwrap();
    assert_eq!(r, ScanState::Running);
    let f = r.advance().unwrap();
    assert_eq!(f, ScanState::Finished);
    assert_eq!(f.advance(), None);
    assert!(!s.has_started() && r.has_started() && f.has_started());
    assert!(f.is_finished() && !r.is_finished());
}

#[test]
fn lifecycle_codes() {
    assert_eq!(ScanState::NotStarted.code(), -1);
    assert_eq!(ScanState::Running.code(), 0);
    assert_eq!(ScanState::Finished.code(), 1);
    assert_eq!(ScanState::from_code(0), Some(ScanState::Running));
    assert_eq!(ScanState::from_code(2), None);
}

#[test]
fn controller_plan_in_order() {
    let plan = scan_plan(0, 500, 1);
    assert_eq!(
        plan,
        vec![
            ControllerAction::InputSet { id: 0, range1: 0, range2: 0 },
            ControllerAction::SetClock { id: 0, period: 500, source: 0 },
            ControllerAction::Start {
                id: 0,
                channels: 2,
                pretrigger: 0,
                trigger_type: 0,
                trigger_channel: 0
            },
            ControllerAction::Trigger { id: 0 },
            ControllerAction::Announce { state: ScanState::Running },
            ControllerAction::Sleep { seconds: 1 },
            ControllerAction::Stop { id: 0 },
            ControllerAction::Announce { state: ScanState::Finished },
        ]
    );
}

#[test]
fn acquisition_waits_reads_and_stops() {
    let ready = DeviceStatus::new(3, 12000, 9000);
    assert_eq!(acquisition_step(ScanState::NotStarted, None), AcquisitionAction::Wait);
    assert_eq!(acquisition_step(ScanState::NotStarted, Some(ready)), AcquisitionAction::Wait);
    assert_eq!(
        acquisition_step(ScanState::Running, Some(ready)),
        AcquisitionAction::Read { length: 9000 }
    );
    assert_eq!(acquisition_step(ScanState::Finished, None), AcquisitionAction::Stop);
    assert_eq!(acquisition_step(ScanState::Running, None), AcquisitionAction::Skip);
    let waiting = DeviceStatus::new(1, 12000, 9000);
    assert_eq!(acquisition_step(ScanState::Running, Some(waiting)), AcquisitionAction::Skip);
    let large = DeviceStatus::new(3, 262144, 200000);
    assert_eq!(
        acquisition_step(ScanState::Running, Some(large)),
        AcquisitionAction::Read { length: MAX_BATCH }
    );
}

#[test]
fn status_polled_only_while_running() {
    assert!(!needs_status(ScanState::NotStarted));
    assert!(needs_status(ScanState::Running));
    assert!(!needs_status(ScanState::Finished));
}

#[test]
fn failed_read_gives_empty_batch() {
    assert_eq!(batch_len(0, 0, 500, 800, 700), 500);
    assert_eq!(batch_len(0, 0, 900, 800, 700), 700);
    assert_eq!(batch_len(0, 0, 900, 600, 700), 600);
    assert_eq!(batch_len(5, 0, 500, 800, 700), 0);
    assert_eq!(batch_len(0, 8, 500, 800, 700), 0);
}

#[test]
fn publisher_waits_then_sends_last_payload() {
    assert_eq!(publish_step(ScanState::NotStarted), PublishAction::Wait);
    assert_eq!(publish_step(ScanState::Running), PublishAction::Publish { finished: false });
    assert_eq!(publish_step(ScanState::Finished), PublishAction::Publish { finished: true });
}

#[test]
fn error_codes() {
    assert_eq!(parse_error(0), None);
    assert_eq!(parse_error(1), Some(DeviceError::InvalidId));
    assert_eq!(parse_error(2), Some(DeviceError::InvalidDriver));
    assert_eq!(parse_error(3), Some(DeviceError::AlreadyOpen));
    assert_eq!(parse_error(4), Some(DeviceError::TooManyDevices));
    assert_eq!(parse_error(5), Some(DeviceError::OpenFailed));
    assert_eq!(parse_error(6), Some(DeviceError::NotFound));
    assert_eq!(parse_error(7), Some(DeviceError::Other));
    assert_eq!(parse_error(8), Some(DeviceError::InvalidParameters));
    assert_eq!(parse_error(9), Some(DeviceError::UsbError));
    assert_eq!(parse_error(11), Some(DeviceError::SequentialRead));
    assert_eq!(parse_error(99), Some(DeviceError::Other));
    assert_eq!(DeviceError::InvalidParameters.message(), "Parameters are invalid");
    assert_eq!(DeviceError::Other.message(), "Other error");
}

#[test]
fn simulated_device_checks_parameters() {
    assert_eq!(sim::open(0), 0);
    assert_eq!(sim::open(1), 5);
    assert_eq!(sim::start(0, 2, 0, 0, 0), 0);
    assert_eq!(sim::start(0, 3, 0, 0, 0), 8);
    assert_eq!(sim::start(0, 2, -1, 0, 0), 8);
    assert_eq!(sim::start(0, 2, 0, 4, 0), 8);
    assert_eq!(sim::start(0, 2, 0, 0, 2), 8);
    assert_eq!(sim::start(1, 2, 0, 0, 0), 5);
    assert_eq!(sim::stop(0), 0);
    assert_eq!(sim::stop(2), 5);
    assert_eq!(sim::set_clock(0, 500, 0), 0);
    assert_eq!(sim::set_clock(0, 499, 0), 8);
    assert_eq!(sim::set_clock(1, 500, 1), 5);
    assert_eq!(sim::set_clock(1, 500, 2), 8);
    assert_eq!(sim::input_set(0, 6, 0), 0);
    assert_eq!(sim::input_set(0, 7, 0), 8);
    assert_eq!(sim::input_set(0, 0, 9), 8);
    assert_eq!(sim::input_set(1, 0, 0), 5);
    assert_eq!(sim::input_check(0), (0, 0, 0));
    assert_eq!(sim::input_check(3), (5, 0, 0));
    assert_eq!(sim::trigger(0), 0);
    assert_eq!(sim::trigger(1), 5);
    assert_eq!(sim::status(), DeviceStatus::new(3, 10000, 10000));
}

fn simulated_signal(n: usize) -> Vec<i32> {
    let height = 2f32.powf(15.0);
    (0..n)
        .map(|i| {
            let phase = 2e-4 * 2.0 * std::f32::consts::PI * i as f32;
            (height * (phase.sin() + 1.0)) as i32
        })
        .collect()
}

#[test]
fn test_ad_data_mock() {
    const MAX_LENGTH: usize = 100000;
    let mut length = MAX_LENGTH as u32;
    let signal = simulated_signal(MAX_LENGTH);
    let mut data1 = vec![0; MAX_LENGTH];
    let mut data2 = vec![0; MAX_LENGTH];
    sim::takeout_data(0, 0, &signal, &mut data1, &mut length);
    sim::takeout_data(0, 1, &signal, &mut data2, &mut length);

    assert_eq!(length, 100000);
}

#[test]
fn simulated_read_refuses_unknown_channel() {
    let signal = vec![1, 2, 3];
    let mut data = vec![9];
    let mut length = 7u32;
    assert_eq!(sim::takeout_data(0, 2, &signal, &mut data, &mut length), 8);
    assert_eq!((data.clone(), length), (vec![9], 7));
    assert_eq!(sim::takeout_data(1, 0, &signal, &mut data, &mut length), 5);
    assert_eq!(sim::takeout_data(0, 1, &signal, &mut data, &mut length), 0);
    assert_eq!((data, length), (vec![1, 2, 3], 3));
}

#[test]
fn simulated_read_respects_cap() {
    let signal = vec![1, 2];
    let mut data = vec![];
    let mut length = 1u32;
    assert_eq!(sim::takeout_data(0, 0, &signal, &mut data, &mut length), 0);
    assert_eq!((data, length), (vec![1], 1));
}
