use vl53l5cx_uld::results_data::{Comment, Meas, RawResults, ResultsData};
use vl53l5cx_uld::units::TempC;

fn raw(zones: usize, targets: usize) -> RawResults {
    RawResults {
        silicon_temp_degc: 0,
        ambient_per_spad: vec![0; zones],
        nb_target_detected: vec![0; zones],
        nb_spads_enabled: vec![0; zones],
        signal_per_spad: vec![0; zones * targets],
        range_sigma_mm: vec![0; zones * targets],
        distance_mm: vec![0; zones * targets],
        reflectance: vec![0; zones * targets],
        target_status: vec![0; zones * targets],
    }
}

#[test]
fn single_target_classification() {
    let mut rr = raw(16, 1);
    rr.silicon_temp_degc = -3;
    // zone 0: detected, status 5, 120 mm -> valid
    rr.nb_target_detected[0] = 1;
    rr.target_status[0] = 5;
    rr.distance_mm[0] = 120;
    // zone 1: detected, status 9, 80 mm -> semi-valid
    rr.nb_target_detected[1] = 1;
    rr.target_status[1] = 9;
    rr.distance_mm[1] = 80;
    // zone 2: detected, status 5 but distance 0 -> invalid
    rr.nb_target_detected[2] = 1;
    rr.target_status[2] = 5;
    rr.distance_mm[2] = 0;
    // zone 3: not detected, status 6 -> error
    rr.nb_target_detected[3] = 0;
    rr.target_status[3] = 6;
    rr.distance_mm[3] = 44;
    // zone 4: not detected, status 255 -> invalid
    rr.target_status[4] = 255;
    rr.distance_mm[4] = -7;
    rr.ambient_per_spad[5] = 77;
    rr.range_sigma_mm[6] = 12;

    let (d, temp): (ResultsData<4, 1>, TempC) = ResultsData::from(&rr);
    assert_eq!(temp.0, -3);
    assert!(matches!(d.meas[0][0][0], Meas::Valid(120)));
    assert!(matches!(d.meas[0][0][1], Meas::SemiValid(80, 9)));
    assert!(matches!(d.meas[0][0][2], Meas::Invalid(0, 5)));
    assert!(matches!(d.meas[0][0][3], Meas::Error(44, 6, Comment::TargetStatusButNoTarget)));
    assert!(matches!(d.meas[0][1][0], Meas::Invalid(-7, 255)));
    assert_eq!(d.ambient_per_spad[1][1], 77);
    assert_eq!(d.range_sigma_mm[0][1][2], 12);
}

#[test]
fn status_of_each_kind() {
    assert_eq!(Meas::Valid(3).status(), 5);
    assert_eq!(Meas::SemiValid(3, 6).status(), 6);
    assert_eq!(Meas::Invalid(-1, 13).status(), 13);
    assert_eq!(Meas::Error(1, 9, Comment::TargetsTooClose).status(), 9);
}

#[test]
fn targets_too_close_become_errors() {
    // 2 targets per zone, zone-major layout
    let mut rr = raw(16, 2);
    // zone 0: 1000 mm and 1300 mm: too close
    rr.nb_target_detected[0] = 2;
    rr.target_status[0] = 5;
    rr.distance_mm[0] = 1000;
    rr.target_status[1] = 6;
    rr.distance_mm[1] = 1300;
    // zone 1: 1000 mm and 1600 mm: far enough
    rr.nb_target_detected[1] = 2;
    rr.target_status[2] = 5;
    rr.distance_mm[2] = 1000;
    rr.target_status[3] = 5;
    rr.distance_mm[3] = 1600;
    // zone 2: second target closer than the first, still too close
    rr.nb_target_detected[2] = 2;
    rr.target_status[4] = 5;
    rr.distance_mm[4] = 900;
    rr.target_status[5] = 9;
    rr.distance_mm[5] = 500;
    // zone 3: only one detected target
    rr.nb_target_detected[3] = 1;
    rr.target_status[6] = 5;
    rr.distance_mm[6] = 700;
    rr.target_status[7] = 4;
    rr.distance_mm[7] = 710;

    let mut d: ResultsData<4, 2> = ResultsData::empty();
    let temp = d.feed(&rr);
    assert_eq!(temp.0, 0);
    assert!(matches!(d.meas[0][0][0], Meas::Valid(1000)));
    assert!(matches!(d.meas[1][0][0], Meas::Error(1300, 6, Comment::TargetsTooClose)));
    assert!(matches!(d.meas[0][0][1], Meas::Valid(1000)));
    assert!(matches!(d.meas[1][0][1], Meas::Valid(1600)));
    assert!(matches!(d.meas[0][0][2], Meas::Valid(900)));
    assert!(matches!(d.meas[1][0][2], Meas::Error(500, 9, Comment::TargetsTooClose)));
    assert!(matches!(d.meas[0][0][3], Meas::Valid(700)));
    assert!(matches!(d.meas[1][0][3], Meas::Invalid(710, 4)));
}

#[test]
fn third_target_compared_with_final_second() {
    // 3 targets: the second is too close to the first and becomes an error, so the
    // third (close to the second) is not compared with a (semi-)valid one.
    let mut rr = raw(16, 3);
    rr.nb_target_detected[0] = 3;
    rr.target_status[0] = 5;
    rr.distance_mm[0] = 1000;
    rr.target_status[1] = 5;
    rr.distance_mm[1] = 1200;
    rr.target_status[2] = 5;
    rr.distance_mm[2] = 1400;
    let (d, _) = ResultsData::<4, 3>::from(&rr);
    assert!(matches!(d.meas[0][0][0], Meas::Valid(1000)));
    assert!(matches!(d.meas[1][0][0], Meas::Error(1200, 5, Comment::TargetsTooClose)));
    assert!(matches!(d.meas[2][0][0], Meas::Valid(1400)));
}

#[test]
fn eight_by_eight_layout() {
    let mut rr = raw(64, 1);
    for z in 0..64 {
        rr.nb_target_detected[z] = 1;
        rr.target_status[z] = 5;
        rr.distance_mm[z] = (z as i16) + 1;
    }
    let (d, _) = ResultsData::<8, 1>::from(&rr);
    for r in 0..8 {
        for c in 0..8 {
            let expected = (r * 8 + c + 1) as u16;
            assert!(matches!(d.meas[0][r][c], Meas::Valid(x) if x == expected));
        }
    }
}

#[test]
fn empty_store_is_not_updated() {
    let d: ResultsData<4, 1> = ResultsData::empty();
    for r in 0..4 {
        for c in 0..4 {
            assert!(matches!(d.meas[0][r][c], Meas::Invalid(0, 0)));
            assert_eq!(d.ambient_per_spad[r][c], 0);
        }
    }
}
