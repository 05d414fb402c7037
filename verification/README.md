# vl53l5cx_uld

Driver logic for the ST VL53L5CX / VL53L8CX multizone time-of-flight sensors, written
in Verus: the library in `src/` is verified, `app/` holds the hardware glue for ESP32
boards (`esp-hal`: I2C, GPIO, delays, clock, interrupt line) and the vendor's C driver
interface.

Modules of the library:

- `results_data`: one scan's flat vendor vectors turned into per-target matrices; each
  zone and target becomes a `Meas` (valid / semi-valid / invalid / error), with targets
  of a zone closer than 600 mm marked as errors.
- `ranging`: `RangingConfig` (validation against the vendor's limits, and the vendor
  calls that apply it), and `State_Ranging`, the sensor while it ranges.
- `call_plan`: runs a sequence of vendor calls, stopping at the first failing status.
- `platform`: the application's `Platform` (I2C access, delays), the ping, and the entry
  points through which the vendor driver reaches the platform (including the 4-byte
  swap).
- `uld_platform`: the frames that a long write is sent in.
- `flock`, `ranging_flock`: several boards on one bus, selected by their `LPn` lines,
  sharing one interrupt line.
- `vl`, `i2c_addr`, `units`, `status`: one sensor at its own address, addresses, unit
  carriers, vendor status codes.
- `vl53l5cx`: the single-chip interface (separate target-status matrix, `u8` matrix
  size).

Design notes:

- The `ping` functions take the expected revision id: `CORRECT_REV_ID` for the
  VL53L5CX, `VL53L8CX_REV_ID` for the VL53L8CX (`VL53::ping_as`,
  `VL53::new_with_ping_as`).
- The application's platform and select lines are traits (`Platform`, `Gate`) with no
  model of their own; the contracts say which calls are made on them, with which
  arguments and in which order, through `call_ensures` of their methods, and what the
  library does with each outcome. The flock keeps a ghost record of the selections
  (`GateKeeper::spec_log`): each board is raised, used and lowered in turn.
- Pending flock results are held in a `Vec` bounded by a capacity of one result per
  board (`PendingResults::new`, `wf`): their items are generic in the resolution and the
  number of targets, which a specification of an outside fixed-capacity vector's
  contents cannot be here. Anything pending is handed out before the boards are polled
  again (`pop`, then `after_round`).
- Dropping the application's ranging handles stops ranging on their sensors.
