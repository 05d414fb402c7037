use vl53l5cx_uld::call_plan::CallPlan;
use vl53l5cx_uld::ranging::{
    get_reso_details, start_calls, Mode, RangingConfig, RangingMode, Resolution, TargetOrder,
    UldCall,
};
use vl53l5cx_uld::status::{check, Error, ST_OK};
use vl53l5cx_uld::units::{ExtU32, HzU8, MsU16};

#[test]
fn default_config_is_valid_in_both_resolutions() {
    let c4: RangingConfig<4> = RangingConfig::default();
    let c8: RangingConfig<8> = RangingConfig::default();
    assert!(c4.validate());
    assert!(c8.validate());
}

#[test]
fn reso_details() {
    let (r, n, hz) = get_reso_details::<4>();
    assert_eq!(r, Resolution::_4X4);
    assert_eq!(n, 1);
    assert_eq!(hz.0, 60);
    let (r, n, hz) = get_reso_details::<8>();
    assert_eq!(r, Resolution::_8X8);
    assert_eq!(n, 4);
    assert_eq!(hz.0, 15);
    assert_eq!(Resolution::_8X8.value(), 64);
}

#[test]
fn integration_time_bounds() {
    let base: RangingConfig<4> = RangingConfig::default();
    assert!(!base.with_mode(Mode::AUTONOMOUS(MsU16(1), HzU8(1))).validate());
    assert!(base.with_mode(Mode::AUTONOMOUS(MsU16(2), HzU8(1))).validate());
    assert!(base.with_mode(Mode::AUTONOMOUS(MsU16(998), HzU8(1))).validate());
    // (998 + 1) * 1 * 1 < 1000, but (999 + 1) is not
    assert!(!base.with_mode(Mode::AUTONOMOUS(MsU16(999), HzU8(1))).validate());
    assert!(!base.with_mode(Mode::AUTONOMOUS(MsU16(1001), HzU8(1))).validate());
}

#[test]
fn frequency_window() {
    let base4: RangingConfig<4> = RangingConfig::default();
    // 4x4: (15 + 1) * 60 = 960 < 1000
    assert!(base4.with_mode(Mode::AUTONOMOUS(MsU16(15), HzU8(60))).validate());
    // (16 + 1) * 60 = 1020
    assert!(!base4.with_mode(Mode::AUTONOMOUS(MsU16(16), HzU8(60))).validate());
    assert!(!base4.with_mode(Mode::AUTONOMOUS(MsU16(2), HzU8(61))).validate());
    assert!(!base4.with_mode(Mode::AUTONOMOUS(MsU16(2), HzU8(0))).validate());
    let base8: RangingConfig<8> = RangingConfig::default();
    // 8x8: (15 + 1) * 4 * 15 = 960 < 1000
    assert!(base8.with_mode(Mode::AUTONOMOUS(MsU16(15), HzU8(15))).validate());
    assert!(!base8.with_mode(Mode::AUTONOMOUS(MsU16(2), HzU8(16))).validate());
    // large values do not overflow the check
    assert!(!base8.with_mode(Mode::AUTONOMOUS(MsU16(1000), HzU8(255))).validate());
    assert!(base8.with_mode(Mode::CONTINUOUS).validate());
}

#[test]
fn sharpener_range() {
    let base: RangingConfig<4> = RangingConfig::default();
    assert!(base.with_sharpener_prc(None).validate());
    assert!(!base.with_sharpener_prc(Some(0)).validate());
    assert!(base.with_sharpener_prc(Some(1)).validate());
    assert!(base.with_sharpener_prc(Some(99)).validate());
    assert!(!base.with_sharpener_prc(Some(100)).validate());
}

#[test]
fn apply_calls_autonomous() {
    let cfg: RangingConfig<8> = RangingConfig::default()
        .with_mode(Mode::AUTONOMOUS(10u32.ms(), HzU8(5)))
        .with_sharpener_prc(Some(20))
        .with_target_order(TargetOrder::CLOSEST);
    assert_eq!(
        cfg.apply(),
        vec![
            UldCall::SetResolution(64),
            UldCall::SetIntegrationTimeMs(10),
            UldCall::SetRangingFrequencyHz(5),
            UldCall::SetRangingMode(3),
            UldCall::SetSharpenerPercent(20),
            UldCall::SetTargetOrder(1),
        ]
    );
}

#[test]
fn apply_calls_continuous() {
    let cfg: RangingConfig<4> = RangingConfig::default().with_mode(Mode::CONTINUOUS);
    assert_eq!(
        start_calls(&cfg),
        vec![
            UldCall::SetResolution(16),
            UldCall::SetRangingMode(1),
            UldCall::SetSharpenerPercent(0),
            UldCall::SetTargetOrder(2),
            UldCall::StartRanging,
        ]
    );
    assert_eq!(Mode::CONTINUOUS.as_uld(), RangingMode::CONTINUOUS);
}

#[test]
fn plan_runs_until_first_failure() {
    let cfg: RangingConfig<4> = RangingConfig::default();
    let mut plan = CallPlan::new(start_calls(&cfg));
    assert_eq!(plan.next_call(), Some(UldCall::SetResolution(16)));
    plan.report(ST_OK);
    assert_eq!(plan.next_call(), Some(UldCall::SetIntegrationTimeMs(5)));
    plan.report(66);
    assert_eq!(plan.next_call(), None);
    assert_eq!(plan.outcome(), Some(Err(Error(66))));
}

#[test]
fn plan_succeeds_when_all_calls_do() {
    let cfg: RangingConfig<4> = RangingConfig::default();
    let mut plan = CallPlan::new(start_calls(&cfg));
    let mut n = 0;
    while let Some(_call) = plan.next_call() {
        assert_eq!(plan.outcome(), None);
        plan.report(ST_OK);
        n += 1;
    }
    assert_eq!(n, 7);
    assert_eq!(plan.outcome(), Some(Ok(())));
    assert_eq!(check(0), Ok(()));
    assert_eq!(check(1), Err(Error(1)));
}

#[test]
fn units() {
    assert_eq!(5u32.ms().0, 5);
    assert_eq!(150u32.prc().0, 150);
    assert_eq!(300u32.prc().0, 44);
}
