//! Status codes of the vendor driver, and the driver's error type.
use vstd::prelude::*;
use vstd::string::StringExecFns;

verus! {

/// The vendor driver's "OK" status.
pub const ST_OK: u8 = 0;

/// The vendor driver's generic error status.
pub const ST_ERROR: u8 = 255;

/// A vendor driver or hardware error, carrying the driver's status code.
#[derive(Copy, Clone, Debug, PartialEq, Eq, Structural)]
pub struct Error(pub u8);

/// Results of the driver layer.
pub type Result<T> = core::result::Result<T, Error>;

/// What a status code means: `Ok` for `ST_OK`, the code as an error otherwise.
pub open spec fn spec_check(status: u8) -> Result<()> {
    if status == ST_OK {
        Ok(())
    } else {
        Err(Error(status))
    }
}

/// Turns a driver status into a `Result`.
pub fn check(status: u8) -> (r: Result<()>)
    ensures
        r == spec_check(status),
{
    if status == ST_OK {
        Ok(())
    } else {
        Err(Error(status))
    }
}

/// The answer of the "data ready" query: `flag` counts only when the status is OK.
pub fn ready_from(status: u8, flag: u8) -> (r: Result<bool>)
    ensures
        r == (if status == ST_OK {
            Ok::<bool, Error>(flag != 0)
        } else {
            Err(Error(status))
        }),
{
    if status == ST_OK {
        Ok(flag != 0)
    } else {
        Err(Error(status))
    }
}

/// The decimal digit `d` (0..=9) as a character.
pub open spec fn digit_char(d: nat) -> char {
    (48 + d) as char
}

/// The decimal representation of `n`, without leading zeros.
pub open spec fn decimal(n: nat) -> Seq<char>
    decreases n,
{
    if n < 10 {
        seq![digit_char(n)]
    } else {
        decimal(n / 10) + seq![digit_char(n % 10)]
    }
}

/// The decimal digit `d` as a one-character string.
fn digit_str(d: u8) -> (r: &'static str)
    requires
        d < 10,
    ensures
        r@ == seq![digit_char(d as nat)],
{
    proof {
        reveal_strlit("0");
        reveal_strlit("1");
        reveal_strlit("2");
        reveal_strlit("3");
        reveal_strlit("4");
        reveal_strlit("5");
        reveal_strlit("6");
        reveal_strlit("7");
        reveal_strlit("8");
        reveal_strlit("9");
    }
    let r = if d == 0 {
        "0"
    } else if d == 1 {
        "1"
    } else if d == 2 {
        "2"
    } else if d == 3 {
        "3"
    } else if d == 4 {
        "4"
    } else if d == 5 {
        "5"
    } else if d == 6 {
        "6"
    } else if d == 7 {
        "7"
    } else if d == 8 {
        "8"
    } else {
        "9"
    };
    assert(r@ =~= seq![digit_char(d as nat)]);
    r
}

/// Appends the decimal representation of `n` to `s`.
fn append_decimal(s: &mut String, n: u8)
    ensures
        final(s)@ == old(s)@ + decimal(n as nat),
{
    if n >= 100 {
        s.append(digit_str(n / 100));
        s.append(digit_str((n / 10) % 10));
        s.append(digit_str(n % 10));
        assert(decimal(n as nat) =~= seq![
            digit_char((n / 100) as nat),
            digit_char(((n / 10) % 10) as nat),
            digit_char((n % 10) as nat),
        ]) by {
            assert(decimal((n / 10) as nat) == decimal((n / 100) as nat) + seq![
                digit_char(((n / 10) % 10) as nat),
            ]);
        }
    } else if n >= 10 {
        s.append(digit_str(n / 10));
        s.append(digit_str(n % 10));
        assert(decimal(n as nat) =~= seq![
            digit_char((n / 10) as nat),
            digit_char((n % 10) as nat),
        ]) by {
            assert(decimal((n / 10) as nat) == seq![digit_char((n / 10) as nat)]);
        }
    } else {
        s.append(digit_str(n));
    }
}

impl Error {
    /// The message that describes the error.
    pub open spec fn spec_message(&self) -> Seq<char> {
        "ULD driver or hardware error ("@ + decimal(self.0 as nat) + ")"@
    }

    /// The message that describes the error, e.g. "ULD driver or hardware error (255)".
    pub fn to_string(&self) -> (s: String)
        ensures
            s@ == self.spec_message(),
    {
        let mut s = String::from_str("ULD driver or hardware error (");
        append_decimal(&mut s, self.0);
        s.append(")");
        s
    }

    /// The status code carried.
    pub fn code(&self) -> (r: u8)
        ensures
            r == self.0,
    {
        self.0
    }
}

/// Power modes of the sensor.
#[derive(Copy, Clone, Debug, PartialEq, Eq, Structural)]
#[allow(non_camel_case_types)]
pub enum PowerMode {
    SLEEP,
    WAKEUP,
}

impl PowerMode {
    /// The vendor's code of the mode.
    pub open spec fn spec_value(self) -> u8 {
        match self {
            PowerMode::SLEEP => 0,
            PowerMode::WAKEUP => 1,
        }
    }

    /// The vendor's code of the mode.
    pub fn value(&self) -> (r: u8)
        ensures
            r == self.spec_value(),
    {
        match self {
            PowerMode::SLEEP => 0,
            PowerMode::WAKEUP => 1,
        }
    }

    /// The mode with vendor code `v`, if there is one.
    pub fn from_repr(v: u8) -> (r: Option<PowerMode>)
        ensures
            r matches Some(m) ==> m.spec_value() == v,
            r is None <==> v > 1,
    {
        if v == 0 {
            Some(PowerMode::SLEEP)
        } else if v == 1 {
            Some(PowerMode::WAKEUP)
        } else {
            None
        }
    }

    /// The mode with vendor code `v`, which must be a known code.
    pub fn from(v: u8) -> (r: PowerMode)
        requires
            v <= 1,
        ensures
            r.spec_value() == v,
    {
        if v == 0 {
            PowerMode::SLEEP
        } else {
            PowerMode::WAKEUP
        }
    }
}

/// The mode reported by the "get power mode" query: known only when the status is
/// OK, in which case the code must be a known one.
pub fn power_mode_from(status: u8, code: u8) -> (r: Result<PowerMode>)
    requires
        status == ST_OK ==> code <= 1,
    ensures
        status != ST_OK ==> r == Err::<PowerMode, Error>(Error(status)),
        status == ST_OK ==> (r matches Ok(m) && m.spec_value() == code),
{
    if status != ST_OK {
        Err(Error(status))
    } else {
        Ok(PowerMode::from(code))
    }
}

/// Every mode converts back to itself through its code.
pub proof fn lemma_power_mode_roundtrip(m: PowerMode)
    ensures
        m.spec_value() <= 1,
        forall|m2: PowerMode| m2.spec_value() == m.spec_value() ==> m2 == m,
{
}

} // verus!
