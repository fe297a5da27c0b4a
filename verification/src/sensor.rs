//! The sensor side of the console: which chips must answer at start-up, and
//! the response line for each query.

use vstd::prelude::*;
use crate::command::Command;
use crate::text::{ascii_bytes, decimal_text, push_decimal, push_text};

verus! {

/// Bus address of the accelerometer.
pub const ACCELEROMETER_ADDR: u8 = 0b0011001;

/// Bus address of the magnetometer.
pub const MAGNETOMETER_ADDR: u8 = 0b0011110;

/// Register of the accelerometer that holds its chip ID.
pub const ACCELEROMETER_ID_REG: u8 = 0x0f;

/// Register of the magnetometer that holds its chip ID.
pub const MAGNETOMETER_ID_REG: u8 = 0x4f;

/// The chip ID that the accelerometer must report.
pub const ACCELEROMETER_ID: u8 = 0b110011;

/// The chip ID that the magnetometer must report.
pub const MAGNETOMETER_ID: u8 = 0b1000000;

impl Command {
    /// Bus address of the sensor that answers this command.
    pub open spec fn spec_bus_address(self) -> u8 {
        match self {
            Command::Accelerometer => ACCELEROMETER_ADDR,
            Command::Magnetometer => MAGNETOMETER_ADDR,
        }
    }

    /// Register of that sensor which holds its chip ID.
    pub open spec fn spec_id_register(self) -> u8 {
        match self {
            Command::Accelerometer => ACCELEROMETER_ID_REG,
            Command::Magnetometer => MAGNETOMETER_ID_REG,
        }
    }

    /// The chip ID that sensor must report.
    pub open spec fn spec_expected_id(self) -> u8 {
        match self {
            Command::Accelerometer => ACCELEROMETER_ID,
            Command::Magnetometer => MAGNETOMETER_ID,
        }
    }

    /// What the response line calls the measured quantity.
    pub open spec fn label_text(self) -> Seq<char> {
        match self {
            Command::Accelerometer => "Acceleration"@,
            Command::Magnetometer => "Magnetic Field"@,
        }
    }

    /// Bus address of the sensor that answers this command.
    #[verifier::when_used_as_spec(spec_bus_address)]
    pub fn bus_address(self) -> (address: u8)
        ensures
            address == self.spec_bus_address(),
    {
        match self {
            Command::Accelerometer => ACCELEROMETER_ADDR,
            Command::Magnetometer => MAGNETOMETER_ADDR,
        }
    }

    /// Register of that sensor which holds its chip ID.
    #[verifier::when_used_as_spec(spec_id_register)]
    pub fn id_register(self) -> (register: u8)
        ensures
            register == self.spec_id_register(),
    {
        match self {
            Command::Accelerometer => ACCELEROMETER_ID_REG,
            Command::Magnetometer => MAGNETOMETER_ID_REG,
        }
    }

    /// The chip ID that sensor must report.
    #[verifier::when_used_as_spec(spec_expected_id)]
    pub fn expected_id(self) -> (id: u8)
        ensures
            id == self.spec_expected_id(),
    {
        match self {
            Command::Accelerometer => ACCELEROMETER_ID,
            Command::Magnetometer => MAGNETOMETER_ID,
        }
    }

    /// What the response line calls the measured quantity.
    pub fn label(self) -> (label: &'static str)
        ensures
            label@ == self.label_text(),
            label.is_ascii(),
    {
        proof {
            reveal_strlit("Acceleration");
            reveal_strlit("Magnetic Field");
        }
        match self {
            Command::Accelerometer => "Acceleration",
            Command::Magnetometer => "Magnetic Field",
        }
    }
}

/// A sensor that answered the identity request with the wrong chip ID.
#[derive(Clone, Copy, Debug, PartialEq, Eq, Structural)]
pub struct IdentityMismatch {
    /// The sensor that was asked.
    pub device: Command,
    /// The chip ID it reported.
    pub found: u8,
}

/// The verdict on the two chip IDs read at start-up: both must be the
/// expected ones. The accelerometer is judged first.
pub open spec fn identity_verdict(accelerometer_id: u8, magnetometer_id: u8) -> Result<
    (),
    IdentityMismatch,
> {
    if accelerometer_id != ACCELEROMETER_ID {
        Err(IdentityMismatch { device: Command::Accelerometer, found: accelerometer_id })
    } else if magnetometer_id != MAGNETOMETER_ID {
        Err(IdentityMismatch { device: Command::Magnetometer, found: magnetometer_id })
    } else {
        Ok(())
    }
}

/// Judges the two chip IDs read at start-up. On `Err` the program must stop
/// before it reads any command.
pub fn check_identity(accelerometer_id: u8, magnetometer_id: u8) -> (verdict: Result<
    (),
    IdentityMismatch,
>)
    ensures
        verdict == identity_verdict(accelerometer_id, magnetometer_id),
        verdict is Ok <==> accelerometer_id == ACCELEROMETER_ID && magnetometer_id
            == MAGNETOMETER_ID,
{
    if accelerometer_id != ACCELEROMETER_ID {
        Err(IdentityMismatch { device: Command::Accelerometer, found: accelerometer_id })
    } else if magnetometer_id != MAGNETOMETER_ID {
        Err(IdentityMismatch { device: Command::Magnetometer, found: magnetometer_id })
    } else {
        Ok(())
    }
}

/// One sample of a sensor: a value per axis.
#[derive(Clone, Copy, Debug, PartialEq, Eq, Structural)]
pub struct Reading {
    pub x: i32,
    pub y: i32,
    pub z: i32,
}

/// The response line when the sensor has no new sample.
pub open spec fn stale_line(kind: Command) -> Seq<u8> {
    ascii_bytes(kind.label_text()) + ascii_bytes(": no new data\r\n"@)
}

/// The response line that reports a sample.
pub open spec fn reading_line(kind: Command, reading: Reading) -> Seq<u8> {
    ascii_bytes(kind.label_text()) + ascii_bytes(": x "@) + decimal_text(reading.x as int)
        + ascii_bytes(" y "@) + decimal_text(reading.y as int) + ascii_bytes(" z "@)
        + decimal_text(reading.z as int) + ascii_bytes("\r\n"@)
}

/// What to do for a command once the status of its sensor is known.
#[derive(Debug, PartialEq, Eq)]
pub enum Plan {
    /// New data is there: read the sample, then write the line of `on_reading`.
    Fetch,
    /// Write this line; the sample is not read.
    Reply(Vec<u8>),
}

/// Decides on the status flag of the sensor: with new data the sample is to
/// be read, without it the response is the "no new data" line.
pub fn on_status(kind: Command, new_data: bool) -> (plan: Plan)
    ensures
        new_data ==> plan is Fetch,
        !new_data ==> (plan matches Plan::Reply(line) && line@ == stale_line(kind)),
{
    if new_data {
        Plan::Fetch
    } else {
        let mut line: Vec<u8> = Vec::new();
        push_text(&mut line, kind.label());
        proof {
            reveal_strlit(": no new data\r\n");
        }
        push_text(&mut line, ": no new data\r\n");
        assert(line@ =~= stale_line(kind));
        Plan::Reply(line)
    }
}

/// The response line for a sample that was read.
pub fn on_reading(kind: Command, reading: Reading) -> (line: Vec<u8>)
    ensures
        line@ == reading_line(kind, reading),
{
    proof {
        reveal_strlit(": x ");
        reveal_strlit(" y ");
        reveal_strlit(" z ");
        reveal_strlit("\r\n");
    }
    let mut line: Vec<u8> = Vec::new();
    push_text(&mut line, kind.label());
    push_text(&mut line, ": x ");
    push_decimal(&mut line, reading.x);
    push_text(&mut line, " y ");
    push_decimal(&mut line, reading.y);
    push_text(&mut line, " z ");
    push_decimal(&mut line, reading.z);
    push_text(&mut line, "\r\n");
    assert(line@ =~= reading_line(kind, reading));
    line
}

/// The "no new data" line holds no digit: it never shows a value.
pub proof fn lemma_stale_line_shows_no_value(kind: Command)
    ensures
        forall|i: int|
            0 <= i < stale_line(kind).len() ==> !(48 <= #[trigger] stale_line(kind)[i] <= 57),
{
    reveal_strlit("Acceleration");
    reveal_strlit("Magnetic Field");
    reveal_strlit(": no new data\r\n");
}

} // verus!
