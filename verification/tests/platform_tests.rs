use vl53l5cx_uld::flock::{array_try_map, common_mode, join_results, turn_to_something, Error as FlockError, Gate, GateKeeper};
use vl53l5cx_uld::i2c_addr::{default_i2c_addr, I2cAddr, I2C_Addr};
use vl53l5cx_uld::platform::{
    vl53l5cx_ping, vl_ping, Platform, CORRECT_REV_ID, VL53, VL53L8CX_REV_ID, VL53L5CX_RdByte, VL53L5CX_RdMulti, VL53L5CX_SwapBuffer,
    VL53L5CX_WaitMs, VL53L5CX_WrByte, VL53L5CX_WrMulti,
};
use vl53l5cx_uld::status::{Error, PowerMode, ST_ERROR};
use std::cell::RefCell;
use std::rc::Rc;
use vl53l5cx_uld::uld_platform::{index_be_bytes, slice_head, write_frames, WRITE_CHUNK};
use vl53l5cx_uld::vl::{address_change, VL};
use vl53l5cx_uld::vl53l5cx::device::VL53L5CX;

/// A sensor model on a bus: registers by index, with a log of what happened.
struct MockBus {
    regs: Vec<u8>,
    log: Vec<String>,
    fail: bool,
}

impl MockBus {
    fn new(dev: u8, rev: u8) -> Self {
        let mut regs = vec![0u8; 0x10000];
        regs[0] = dev;
        regs[1] = rev;
        MockBus { regs, log: Vec::new(), fail: false }
    }
}

impl Platform for MockBus {
    fn rd_bytes(&mut self, index: u16, buf: &mut [u8]) -> Result<(), ()> {
        if self.fail {
            return Err(());
        }
        for (i, b) in buf.iter_mut().enumerate() {
            *b = self.regs[index as usize + i];
        }
        self.log.push(format!("rd {:#06x} {:?}", index, buf));
        Ok(())
    }

    fn wr_bytes(&mut self, index: u16, vs: &[u8]) -> Result<(), ()> {
        if self.fail {
            return Err(());
        }
        for (i, b) in vs.iter().enumerate() {
            self.regs[index as usize + i] = *b;
        }
        self.log.push(format!("wr {:#06x} {:?}", index, vs));
        Ok(())
    }

    fn delay_ms(&mut self, ms: u32) {
        self.log.push(format!("delay {}", ms));
    }
}

#[test]
fn ping_reads_ids_between_page_selects() {
    let mut bus = MockBus::new(0xf0, 0x02);
    assert_eq!(vl_ping(&mut bus), Ok((0xf0, 0x02)));
    assert_eq!(bus.log, vec!["wr 0x7fff [0]", "rd 0x0000 [240, 2]", "wr 0x7fff [2]"]);
    let mut bus = MockBus::new(0x03, 0x00);
    assert_eq!(vl53l5cx_ping(&mut bus), Ok((0x03, 0x00)));
}

#[test]
fn new_with_ping_checks_ids() {
    assert!(VL53::new_with_ping(MockBus::new(0xf0, 0x02)).is_ok());
    assert_eq!(VL53::new_with_ping(MockBus::new(0xf0, 0x0c)).err(), Some(Error(ST_ERROR)));
    assert_eq!(VL53::new_with_ping(MockBus::new(0x03, 0x00)).err(), Some(Error(ST_ERROR)));
    let mut failing = MockBus::new(0xf0, 0x02);
    failing.fail = true;
    assert_eq!(VL53::new_with_ping(failing).err(), Some(Error(ST_ERROR)));
}

#[test]
fn pings_judge_the_ids_read() {
    let mut bus = MockBus::new(0xf0, 0x02);
    assert_eq!(VL53::ping(&mut bus), Ok(()));
    let mut bus = MockBus::new(0x03, 0x00);
    assert_eq!(VL53::ping(&mut bus), Err(()));
    assert_eq!(VL53L5CX::<u32>::ping(&mut bus), Ok(()));
    let mut bus = MockBus::new(0xf0, 0x02);
    bus.fail = true;
    assert_eq!(vl_ping(&mut bus), Err(()));
    assert_eq!(VL53::ping(&mut bus), Err(()));
    assert_eq!(VL53L5CX::<u32>::ping(&mut bus), Err(()));
    assert!(bus.log.is_empty());
}

#[test]
fn ping_for_either_sensor() {
    let mut bus = MockBus::new(0xf0, 0x0c);
    assert_eq!(VL53::ping_as(&mut bus, VL53L8CX_REV_ID), Ok(()));
    assert_eq!(VL53::ping_as(&mut bus, CORRECT_REV_ID), Err(()));
    assert!(VL53::new_with_ping_as(MockBus::new(0xf0, 0x0c), VL53L8CX_REV_ID).is_ok());
    assert_eq!(
        VL53::new_with_ping_as(MockBus::new(0xf0, 0x02), VL53L8CX_REV_ID).err(),
        Some(Error(ST_ERROR))
    );
    assert_eq!(VL53::<MockBus>::ping_verdict_as(Ok((0xf0, 0x0c)), VL53L8CX_REV_ID), Ok(()));
}

#[test]
fn ping_verdicts() {
    assert_eq!(VL53::<MockBus>::ping_verdict(Ok((0xf0, 0x02))), Ok(()));
    assert_eq!(VL53::<MockBus>::ping_verdict(Ok((0xf0, 0x0c))), Err(()));
    assert_eq!(VL53::<MockBus>::ping_verdict(Err(())), Err(()));
}

#[test]
fn init_hands_over_the_platform() {
    let vl53 = VL53::new_with_ping(MockBus::new(0xf0, 0x02)).ok().unwrap();
    let r: Result<usize, Error> = vl53.init(|p: MockBus| Ok(p.log.len()));
    assert_eq!(r, Ok(3));
}

#[test]
fn platform_entry_points() {
    let mut bus = MockBus::new(0xf0, 0x02);
    assert_eq!(VL53L5CX_WrByte(&mut bus, 0x100, 7), 0);
    let mut v = 0u8;
    assert_eq!(VL53L5CX_RdByte(&mut bus, 0x100, &mut v), 0);
    assert_eq!(v, 7);
    assert_eq!(VL53L5CX_WrMulti(&mut bus, 0x200, &[1, 2, 3]), 0);
    let mut buf = [0u8; 3];
    assert_eq!(VL53L5CX_RdMulti(&mut bus, 0x200, &mut buf), 0);
    assert_eq!(buf, [1, 2, 3]);
    assert_eq!(VL53L5CX_WaitMs(&mut bus, 10), 0);
    assert_eq!(bus.log.last().unwrap(), "delay 10");
    bus.fail = true;
    assert_eq!(VL53L5CX_WrByte(&mut bus, 0x100, 7), ST_ERROR);
    assert_eq!(VL53L5CX_RdMulti(&mut bus, 0x200, &mut buf), ST_ERROR);
}

#[test]
fn swap_buffer_reverses_groups() {
    let mut buf = [1u8, 2, 3, 4, 5, 6, 7, 8, 9, 10];
    VL53L5CX_SwapBuffer(&mut buf, 8);
    assert_eq!(buf, [4, 3, 2, 1, 8, 7, 6, 5, 9, 10]);
    VL53L5CX_SwapBuffer(&mut buf, 8);
    assert_eq!(buf, [1, 2, 3, 4, 5, 6, 7, 8, 9, 10]);
    // a partial group stays
    let mut buf = [1u8, 2, 3, 4, 5, 6];
    VL53L5CX_SwapBuffer(&mut buf, 6);
    assert_eq!(buf, [4, 3, 2, 1, 5, 6]);
}

#[test]
fn write_frames_chunk_long_writes() {
    assert_eq!(index_be_bytes(0x2c04), [0x2c, 0x04]);
    let data: Vec<u8> = (0..25000u32).map(|i| (i % 251) as u8).collect();
    let frames = write_frames(0x100, &data);
    assert_eq!(frames.len(), 3);
    assert_eq!(&frames[0][..2], &index_be_bytes(0x100));
    assert_eq!(frames[0].len(), WRITE_CHUNK + 2);
    let second = 0x100 + WRITE_CHUNK as u16;
    assert_eq!(&frames[1][..2], &index_be_bytes(second));
    assert_eq!(frames[2].len(), 25000 - 2 * WRITE_CHUNK + 2);
    let mut joined = Vec::new();
    for f in &frames {
        joined.extend_from_slice(&f[2..]);
    }
    assert_eq!(joined, data);
    assert!(write_frames(0x10, &[]).is_empty());
    assert_eq!(write_frames(0x10, &[9]), vec![vec![0x00, 0x10, 9]]);
}

#[test]
fn slice_head_takes_prefix() {
    let v = [1u8, 2, 3, 4];
    assert_eq!(slice_head(&v, 2), &[1, 2]);
    assert_eq!(slice_head(&v, 20), &[1, 2, 3, 4]);
}

#[test]
fn i2c_addresses() {
    assert_eq!(default_i2c_addr().as_7bit(), 0x29);
    assert_eq!(I2cAddr::from_8bit(0x52).as_7bit(), 0x29);
    assert_eq!(I2cAddr::from_8bit(0x53).as_7bit(), 0x29);
    assert_eq!(I2cAddr::from_7bit(0x30).as_8bit(), 0x60);
    assert!(I2cAddr::from_8bit(0x52) == default_i2c_addr());
    assert!(I2cAddr::from_7bit(0x29) == I2cAddr::from_8bit(0x52));
    assert!(I2cAddr::from_7bit(0x30) == I2cAddr::from_8bit(0x30 << 1));
    let _a = I2C_Addr::from(0xff);
    assert_eq!(address_change(default_i2c_addr()), None);
    assert_eq!(address_change(I2cAddr::from_7bit(0x30)), Some(0x60));
}

#[test]
fn vl_setup_moves_address() {
    let vl = VL::new_and_setup(
        MockBus::new(0xf0, 0x02),
        I2cAddr::from_7bit(0x30),
        |p: MockBus| Ok(p.log.len()),
        |h: usize, a: u8| Ok(h * 1000 + a as usize),
    );
    let vl = vl.ok().unwrap();
    assert_eq!(vl.into_uld(), 3096);
    let vl = VL::new_and_setup(
        MockBus::new(0xf0, 0x02),
        default_i2c_addr(),
        |p: MockBus| Ok(p.log.len()),
        |_h: usize, _a: u8| Err(Error(1)),
    );
    assert_eq!(vl.ok().unwrap().into_uld(), 3);
    assert_eq!(VL::recreate(5usize).into_uld(), 5);
}

#[test]
fn vl_setup_reports_the_failing_step() {
    let mut broken = MockBus::new(0xf0, 0x02);
    broken.fail = true;
    let vl = VL::new_and_setup(broken, I2cAddr::from_7bit(0x30), |p: MockBus| Ok(p.log.len()), |h: usize, _a: u8| Ok(h));
    assert_eq!(vl.err(), Some(Error(ST_ERROR)));
    let vl = VL::<usize>::new_and_setup(MockBus::new(0xf0, 0x02), I2cAddr::from_7bit(0x30), |_p: MockBus| Err(Error(4)), |h: usize, _a: u8| Ok(h));
    assert_eq!(vl.err(), Some(Error(4)));
    let vl = VL::new_and_setup(MockBus::new(0xf0, 0x02), I2cAddr::from_7bit(0x30), |p: MockBus| Ok(p.log.len()), |_h: usize, _a: u8| Err(Error(6)));
    assert_eq!(vl.err(), Some(Error(6)));
}

/// A select line that writes what happens to it into a shared record.
struct LoggedPin {
    id: usize,
    record: Rc<RefCell<Vec<String>>>,
}

impl Gate for LoggedPin {
    fn set_high(&mut self) {
        self.record.borrow_mut().push(format!("high {}", self.id));
    }

    fn set_low(&mut self) {
        self.record.borrow_mut().push(format!("low {}", self.id));
    }
}

#[test]
fn each_board_runs_alone_with_its_line_raised() {
    let record = Rc::new(RefCell::new(Vec::new()));
    let lines: Vec<LoggedPin> = (0..3).map(|id| LoggedPin { id, record: record.clone() }).collect();
    let g = GateKeeper::new(vec![10u32, 11, 12], lines);
    let seen = record.clone();
    let g = g.map(|v: u32| {
        seen.borrow_mut().push(format!("run {}", v));
        Ok(v)
    });
    assert!(g.is_ok());
    let expected: Vec<String> = vec![
        "high 0", "run 10", "low 0", "high 1", "run 11", "low 1", "high 2", "run 12", "low 2",
    ]
    .into_iter()
    .map(String::from)
    .collect();
    assert_eq!(*record.borrow(), expected);
    let mut g = g.ok().unwrap();
    record.borrow_mut().clear();
    let seen = record.clone();
    let r = g.with_each(|v: &u32| {
        seen.borrow_mut().push(format!("run {}", v));
        if *v == 11 { Err(2) } else { Ok(*v) }
    });
    assert_eq!(r, Err(FlockError { sensor_id: 1, e: 2 }));
    assert_eq!(record.borrow().len(), 9);
    assert_eq!(record.borrow()[3], "high 1");
    assert_eq!(record.borrow()[5], "low 1");
}

struct Pin {
    high: bool,
    toggles: usize,
}

impl Gate for Pin {
    fn set_high(&mut self) {
        self.high = true;
        self.toggles += 1;
    }

    fn set_low(&mut self) {
        self.high = false;
        self.toggles += 1;
    }
}

fn pins(n: usize) -> Vec<Pin> {
    (0..n).map(|_| Pin { high: false, toggles: 0 }).collect()
}

#[test]
fn join_reports_first_failure() {
    assert_eq!(join_results::<u8>(vec![Ok(1), Ok(2)]), Ok(vec![1, 2]));
    assert_eq!(
        join_results::<u8>(vec![Ok(1), Err(7), Err(9)]),
        Err(FlockError { sensor_id: 1, e: 7 })
    );
    assert_eq!(join_results::<u8>(vec![]), Ok(vec![]));
}

#[test]
fn gatekeeper_maps_each_board() {
    let g = GateKeeper::new(vec![1u32, 2, 3], pins(3));
    let g2 = g.map(|v: u32| Ok(v * 10)).ok().unwrap();
    assert_eq!(g2.len(), 3);
    let mut g2 = g2;
    let r = g2.with_each(|v: &u32| Ok(*v + 1));
    assert_eq!(r, Ok(vec![11, 21, 31]));
    let r = g2.with_each_zip(&vec![1u32, 2, 3], |y: &u32, v: &u32| if *y == 2 { Err(5) } else { Ok(*v) });
    assert_eq!(r, Err(FlockError { sensor_id: 1, e: 5 }));
    let g = GateKeeper::new(vec![1u32, 2], pins(2));
    assert_eq!(g.map(|v: u32| if v == 2 { Err::<u32, u8>(3) } else { Ok(v) }).err(), Some(FlockError { sensor_id: 1, e: 3 }));
}

#[test]
fn flock_power_modes() {
    let mut g = GateKeeper::new(vec![0u8, 0], pins(2));
    assert_eq!(g.get_power_mode(|_v: &u8| Ok(PowerMode::WAKEUP)), Ok(Some(PowerMode::WAKEUP)));
    assert_eq!(
        g.get_power_mode(|v: &u8| Ok(if *v == 0 { PowerMode::WAKEUP } else { PowerMode::SLEEP })),
        Ok(Some(PowerMode::WAKEUP))
    );
    assert_eq!(g.set_power_mode(PowerMode::SLEEP, |m: &PowerMode, _v: &u8| if *m == PowerMode::SLEEP { Ok(()) } else { Err(1) }), Ok(()));
    let g = GateKeeper::new(vec![0u8, 1], pins(2));
    let mut g = g.init(|v: u8| Ok(v)).ok().unwrap();
    assert_eq!(
        g.get_power_mode(|v: &u8| Ok(if *v == 0 { PowerMode::WAKEUP } else { PowerMode::SLEEP })),
        Ok(None)
    );
    assert_eq!(common_mode(&vec![PowerMode::SLEEP]), Some(PowerMode::SLEEP));
}

#[test]
fn try_map_stops_at_first_failure() {
    assert_eq!(array_try_map(vec![1, 2, 3], |x: i32| Ok::<i32, u8>(x * 2)), Ok(vec![2, 4, 6]));
    let calls = Rc::new(RefCell::new(0u32));
    let counted = calls.clone();
    assert_eq!(
        array_try_map(vec![1, 2, 3, 4], |x: i32| {
            *counted.borrow_mut() += 1;
            if x >= 2 { Err(x as u8) } else { Ok(x) }
        }),
        Err(2)
    );
    assert_eq!(*calls.borrow(), 2);
    assert_eq!(
        turn_to_something(vec![1, 2, 3], |x: i32| if x >= 2 { Err(x as u8) } else { Ok(x) }),
        Err(2)
    );
}
