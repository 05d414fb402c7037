use vl53l5cx_uld::ranging::{State_Ranging, TargetOrder, UldCall};
use vl53l5cx_uld::ranging_flock::{FlockResults, PendingResults, Poll, SoloResults};
use vl53l5cx_uld::results_data::{Meas, RawResults, ResultsData};
use vl53l5cx_uld::status::{power_mode_from, ready_from, Error, PowerMode, ST_ERROR, ST_OK};
use vl53l5cx_uld::units::TempC;
use vl53l5cx_uld::vl53l5cx::device::{status_result, VL53L5CX};
use vl53l5cx_uld::vl53l5cx::ranging::{Mode as Mode5, RangingConfig as RangingConfig5};
use vl53l5cx_uld::vl53l5cx::results_data::{ResultsData as ResultsData5, TargetStatus};
use vl53l5cx_uld::vl53l5cx::uld::{
    vl53l5cx_init, vl53l5cx_is_alive, vl53lcx_get_power_mode, vl53lcx_set_i2c_address,
};
use vl53l5cx_uld::vl53l5cx::units::{Hz, Ms};

fn raw(zones: usize, targets: usize) -> RawResults {
    RawResults {
        silicon_temp_degc: 0,
        ambient_per_spad: vec![0; zones],
        nb_target_detected: vec![0; zones],
        nb_spads_enabled: vec![0; zones],
        signal_per_spad: vec![0; zones * targets],
        range_sigma_mm: vec![0; zones * targets],
        distance_mm: vec![0; zones * targets],
        reflectance: vec![0; zones * targets],
        target_status: vec![0; zones * targets],
    }
}

#[test]
fn error_messages() {
    assert_eq!(Error(255).to_string(), "ULD driver or hardware error (255)");
    assert_eq!(Error(66).to_string(), "ULD driver or hardware error (66)");
    assert_eq!(Error(0).to_string(), "ULD driver or hardware error (0)");
    assert_eq!(Error(7).code(), 7);
}

#[test]
fn power_modes() {
    assert_eq!(PowerMode::from_repr(0), Some(PowerMode::SLEEP));
    assert_eq!(PowerMode::from_repr(1), Some(PowerMode::WAKEUP));
    assert_eq!(PowerMode::from_repr(2), None);
    assert_eq!(PowerMode::from(1), PowerMode::WAKEUP);
    assert_eq!(PowerMode::WAKEUP.value(), 1);
    assert_eq!(power_mode_from(ST_OK, 0), Ok(PowerMode::SLEEP));
    assert_eq!(power_mode_from(3, 9), Err(Error(3)));
    assert_eq!(vl53lcx_get_power_mode(0, 1), Ok(PowerMode::WAKEUP));
    assert_eq!(vl53lcx_get_power_mode(2, 1), Err(2));
}

#[test]
fn status_conversions() {
    assert_eq!(ready_from(ST_OK, 1), Ok(true));
    assert_eq!(ready_from(ST_OK, 0), Ok(false));
    assert_eq!(ready_from(ST_ERROR, 1), Err(Error(ST_ERROR)));
    assert_eq!(vl53l5cx_is_alive(0, 1), Ok(true));
    assert_eq!(vl53l5cx_is_alive(0, 0), Ok(false));
    assert_eq!(vl53l5cx_is_alive(66, 1), Err(66));
    assert_eq!(vl53l5cx_init(0), Ok(()));
    assert_eq!(vl53l5cx_init(1), Err(1));
    assert_eq!(vl53lcx_set_i2c_address(255), Err(255));
    assert_eq!(status_result(0), Ok(()));
    assert_eq!(TargetOrder::STRONGEST.value(), 2);
}

#[test]
fn ranging_state_lifecycle() {
    let st: Result<State_Ranging<u32, 4, 1>, Error> = State_Ranging::transition_from(7u32, Ok(()));
    let mut st = st.ok().unwrap();
    assert_eq!(*st.borrow_uld_mut(), 7);
    *st.borrow_uld_mut() = 8;
    assert_eq!(st.is_ready(ST_OK, 1), Ok(true));
    let mut rr = raw(16, 1);
    rr.silicon_temp_degc = 31;
    rr.nb_target_detected[0] = 1;
    rr.target_status[0] = 5;
    rr.distance_mm[0] = 250;
    {
        let (d, temp) = st.get_data(ST_OK, &rr).ok().unwrap();
        assert_eq!(temp.0, 31);
        assert!(matches!(d.meas[0][0][0], Meas::Valid(250)));
    }
    assert!(st.get_data(4, &rr).err() == Some(Error(4)));
    let polled = st.poll_fetched(ST_OK, &rr, 1234).ok().unwrap().unwrap();
    assert_eq!(polled.1 .0, 31);
    assert_eq!(polled.2, 1234);
    assert!(matches!(polled.0.meas[0][0][0], Meas::Valid(250)));
    assert!(st.poll_fetched(3, &rr, 1).err() == Some(Error(3)));
    assert_eq!(st.stop(ST_OK), Ok(8));
    let failed: Result<State_Ranging<u32, 4, 1>, Error> =
        State_Ranging::transition_from(7u32, Err(Error(9)));
    assert!(failed.err() == Some(Error(9)));
    let st: State_Ranging<u32, 4, 1> = State_Ranging::transition_from(1u32, Ok(())).ok().unwrap();
    assert_eq!(st.stop(2), Err(Error(2)));
}

fn data(tag: u32) -> (ResultsData<4, 1>, TempC, u64) {
    let mut d = ResultsData::<4, 1>::empty();
    d.ambient_per_spad[0][0] = tag;
    (d, TempC(20), tag as u64 * 100)
}

#[test]
fn pending_results_by_board() {
    let mut p: PendingResults<4, 1> = PendingResults::new(3);
    assert!(p.is_empty());
    let round: Vec<Poll<4, 1>> = vec![Ok(Some(data(1))), Ok(None), Ok(Some(data(3)))];
    assert_eq!(p.take_round(round), Ok(()));
    let last: FlockResults<4, 1> = p.pop().unwrap();
    assert_eq!(last.board_index, 2);
    assert_eq!(last.time_stamp, 300);
    let first = p.pop().unwrap();
    assert_eq!(first.board_index, 0);
    assert_eq!(first.res.ambient_per_spad[0][0], 1);
    assert!(p.pop().is_none());
    // a failing poll ends the round; earlier boards stay pending
    let round: Vec<Poll<4, 1>> = vec![Ok(Some(data(5))), Err(Error(1)), Ok(Some(data(6)))];
    assert_eq!(p.take_round(round), Err(Error(1)));
    let only = p.pop().unwrap();
    assert_eq!(only.board_index, 0);
    assert!(p.is_empty());
    let round: Vec<Poll<4, 1>> = vec![Ok(None), Ok(Some(data(8)))];
    let got = p.after_round(round).ok().unwrap().unwrap();
    assert_eq!(got.board_index, 1);
    let round: Vec<Poll<4, 1>> = vec![Ok(None), Ok(None)];
    assert!(p.after_round(round).ok().unwrap().is_none());
    // a round that finds two results: the newer first, the older stays pending and is
    // handed out by the next step without polling
    let round: Vec<Poll<4, 1>> = vec![Ok(Some(data(4))), Ok(Some(data(7)))];
    assert_eq!(p.after_round(round).ok().unwrap().unwrap().board_index, 1);
    assert!(!p.is_empty());
    assert_eq!(p.pop().unwrap().board_index, 0);
    assert!(p.is_empty());
    let solo = SoloResults { res: data(2).0, temp_degc: TempC(1), time_stamp: 5 };
    assert_eq!(solo.time_stamp, 5);
}

#[test]
fn target_status_codes() {
    assert_eq!(TargetStatus::from_uld(5), TargetStatus::Valid(5));
    assert_eq!(TargetStatus::from_uld(6), TargetStatus::HalfValid(6));
    assert_eq!(TargetStatus::from_uld(9), TargetStatus::HalfValid(9));
    assert_eq!(TargetStatus::from_uld(255), TargetStatus::Invalid);
    assert_eq!(TargetStatus::from_uld(0), TargetStatus::Other(0));
    assert_eq!(TargetStatus::from_uld(42), TargetStatus::Other(42));
}

#[test]
fn single_chip_results() {
    let mut rr = raw(16, 2);
    rr.silicon_temp_degc = -5;
    rr.nb_target_detected[3] = 2;
    rr.distance_mm[6] = 400;
    rr.target_status[6] = 5;
    rr.distance_mm[7] = 900;
    rr.target_status[7] = 10;
    rr.reflectance[7] = 33;
    rr.nb_spads_enabled[3] = 12;
    let mut d: ResultsData5<4, 2> = ResultsData5::empty();
    assert_eq!(d.target_status[0][0][0], TargetStatus::Other(0));
    d.feed(&rr);
    assert_eq!(d.silicon_temp_degc, -5);
    assert_eq!(d.targets_detected[0][3], 2);
    assert_eq!(d.spads_enabled[0][3], 12);
    assert_eq!(d.distance_mm[0][0][3], 400);
    assert_eq!(d.distance_mm[1][0][3], 900);
    assert_eq!(d.target_status[0][0][3], TargetStatus::Valid(5));
    assert_eq!(d.target_status[1][0][3], TargetStatus::Other(10));
    assert_eq!(d.reflectance[1][0][3], 33);
}

#[test]
fn single_chip_config() {
    let c: RangingConfig5<4> = RangingConfig5::default();
    assert!(c.validate());
    let c = c.with_mode(Mode5::AUTONOMOUS(Ms(20), Hz(50)));
    assert!(!c.validate());
    let c = c.with_mode(Mode5::AUTONOMOUS(Ms(10), Hz(50)));
    assert!(c.validate());
    assert_eq!(
        c.apply(),
        vec![
            UldCall::SetResolution(16),
            UldCall::SetIntegrationTimeMs(10),
            UldCall::SetRangingFrequencyHz(50),
            UldCall::SetRangingMode(3),
            UldCall::SetSharpenerPercent(0),
            UldCall::SetTargetOrder(2),
        ]
    );
    let c8: RangingConfig5<8> = RangingConfig5::default().with_mode(Mode5::CONTINUOUS).with_sharpener_prc(Some(5));
    assert!(c8.validate());
    assert_eq!(c8.apply()[0], UldCall::SetResolution(64));
}

struct Quiet;

impl vl53l5cx_uld::platform::Platform for Quiet {
    fn rd_bytes(&mut self, _index: u16, buf: &mut [u8]) -> Result<(), ()> {
        for b in buf.iter_mut() {
            *b = 0x03;
        }
        Ok(())
    }
    fn wr_bytes(&mut self, _index: u16, _vs: &[u8]) -> Result<(), ()> {
        Ok(())
    }
    fn delay_ms(&mut self, _ms: u32) {}
}

struct Broken;

impl vl53l5cx_uld::platform::Platform for Broken {
    fn rd_bytes(&mut self, _index: u16, _buf: &mut [u8]) -> Result<(), ()> {
        Err(())
    }
    fn wr_bytes(&mut self, _index: u16, _vs: &[u8]) -> Result<(), ()> {
        Err(())
    }
    fn delay_ms(&mut self, _ms: u32) {}
}

#[test]
fn single_chip_open_tolerates_unexpected_ids() {
    let dev = VL53L5CX::new_and_init(Quiet, "VL53L5CX_2.0.0", |_p: Quiet| Ok(11u32));
    let mut dev = dev.ok().unwrap();
    assert_eq!(dev.API_REVISION, "VL53L5CX_2.0.0");
    assert_eq!(*dev.borrow_uld_mut(), 11);
    let failed = VL53L5CX::new_and_init(Broken, "x", |_p: Broken| Ok(11u32));
    assert_eq!(failed.err(), Some(ST_ERROR));
    let refused = VL53L5CX::new_and_init(Quiet, "x", |_p: Quiet| Err::<u32, u8>(6));
    assert_eq!(refused.err(), Some(6));
}
