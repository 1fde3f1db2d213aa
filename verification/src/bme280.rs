//! The temperature sensor, a BME280 on the I2C bus: how it is found and set up,
//! and what its readings mean.

use vstd::prelude::*;

verus! {

/// The lowest address that is probed.
pub const FIRST_ADDRESS: u8 = 0x08;

/// The highest address that is probed.
pub const LAST_ADDRESS: u8 = 0x77;

/// For how many milliseconds a probe waits for an answer.
pub const PROBE_MS: u64 = 10;

/// The register that holds the chip's identity.
pub const ID_REGISTER: u8 = 0xD0;

/// The first register of the calibration of the temperature.
pub const CALIBRATION_REGISTER: u8 = 0x88;

/// The register that sets the operating mode.
pub const CONTROL_REGISTER: u8 = 0xF4;

/// The mode in which temperatures are measured.
pub const CONTROL_VALUE: u8 = 0x27;

/// The first register of the measured temperature.
pub const TEMPERATURE_REGISTER: u8 = 0xFA;

/// The calibration of the temperature.
#[derive(Debug, Clone, Copy, PartialEq, Eq, Structural)]
pub struct Calibration {
    pub t1: u16,
    pub t2: i16,
    pub t3: i16,
}

/// How far the sensor's task has come.
#[derive(Debug, Clone, Copy, PartialEq, Eq, Structural)]
pub enum Sensor {
    /// Waits for the bus to settle.
    Starting,
    /// Probes an address. The first that answered is remembered.
    Probing { addr: u8, found: Option<u8> },
    /// Reads the chip's identity.
    Identifying { addr: u8 },
    /// Reads the calibration.
    Calibrating { addr: u8 },
    /// Sets the operating mode.
    Configuring { addr: u8, calibration: Calibration },
    /// Waits for the first measurement.
    Settling { addr: u8, calibration: Calibration },
    /// Reads a measurement.
    Measuring { addr: u8, calibration: Calibration },
    /// Waits for the next measurement.
    Resting { addr: u8, calibration: Calibration },
    /// No sensor, or one that could not be set up.
    Stopped,
}

/// What the sensor's task has to do next.
#[derive(Debug, Clone, Copy, PartialEq, Eq, Structural)]
pub enum SensorAction {
    /// Let so many milliseconds pass.
    Wait { ms: u64 },
    /// Read a byte from an address, to see whether it answers in time.
    Probe { addr: u8 },
    /// Read so many registers from one on.
    Read { addr: u8, register: u8, count: usize },
    /// Write a register.
    Write { addr: u8, register: u8, value: u8 },
    /// Nothing more.
    Stop,
}

/// A quotient, rounded toward zero.
pub open spec fn quotient(a: int, b: int) -> int {
    if a >= 0 {
        a / b
    } else {
        -((-a) / b)
    }
}

/// The signed number with the 16 low bits of `v`.
pub open spec fn low_i16(v: int) -> int {
    (v + 32768) % 65536 - 32768
}

/// The number in two bytes, the low one first.
pub open spec fn word(low: u8, high: u8) -> int {
    low + 256 * high
}

/// The calibration in the six bytes of its registers.
pub open spec fn calibration_in(bytes: Seq<u8>) -> Calibration {
    Calibration {
        t1: word(bytes[0], bytes[1]) as u16,
        t2: low_i16(word(bytes[2], bytes[3])) as i16,
        t3: low_i16(word(bytes[4], bytes[5])) as i16,
    }
}

/// The measured number: the 20 high bits of three bytes, the high one first.
pub open spec fn measured(bytes: Seq<u8>) -> int {
    bytes[0] * 4096 + bytes[1] * 16 + bytes[2] / 16
}

/// The fine temperature that a measured number stands for.
pub open spec fn fine_temperature(c: Calibration, adc: int) -> int {
    let var1 = quotient((adc / 8 - c.t1 * 2) * c.t2, 2048);
    let tmp = adc / 16 - c.t1;
    let var2 = quotient((tmp * tmp / 4096) * c.t3, 16384);
    var1 + var2
}

/// The temperature in tenths of a degree: hundredths in the 16 bits that they
/// are kept in, rounded toward zero.
pub open spec fn temperature(c: Calibration, adc: int) -> int {
    quotient(low_i16(quotient(fine_temperature(c, adc) * 5 + 128, 256)), 10)
}

impl Sensor {
    /// What has to be done next.
    pub open spec fn to_do(self) -> SensorAction {
        match self {
            Sensor::Starting => SensorAction::Wait { ms: 2000 },
            Sensor::Probing { addr, .. } => SensorAction::Probe { addr },
            Sensor::Identifying { addr } => SensorAction::Read {
                addr,
                register: ID_REGISTER,
                count: 1,
            },
            Sensor::Calibrating { addr } => SensorAction::Read {
                addr,
                register: CALIBRATION_REGISTER,
                count: 6,
            },
            Sensor::Configuring { addr, .. } => SensorAction::Write {
                addr,
                register: CONTROL_REGISTER,
                value: CONTROL_VALUE,
            },
            Sensor::Settling { .. } => SensorAction::Wait { ms: 100 },
            Sensor::Measuring { addr, .. } => SensorAction::Read {
                addr,
                register: TEMPERATURE_REGISTER,
                count: 3,
            },
            Sensor::Resting { .. } => SensorAction::Wait { ms: 30000 },
            Sensor::Stopped => SensorAction::Stop,
        }
    }

    /// What follows once it was done: `ok` says whether it went well, and `data`
    /// starts with the registers that were read.
    pub open spec fn next(self, ok: bool, data: Seq<u8>) -> Sensor {
        match self {
            Sensor::Starting => Sensor::Probing { addr: FIRST_ADDRESS, found: None },
            Sensor::Probing { addr, found } => {
                let now = if found is None && ok {
                    Some(addr)
                } else {
                    found
                };
                if addr < LAST_ADDRESS {
                    Sensor::Probing { addr: (addr + 1) as u8, found: now }
                } else {
                    match now {
                        Some(first) => Sensor::Identifying { addr: first },
                        None => Sensor::Stopped,
                    }
                }
            },
            Sensor::Identifying { addr } => if ok {
                Sensor::Calibrating { addr }
            } else {
                Sensor::Stopped
            },
            Sensor::Calibrating { addr } => if ok {
                Sensor::Configuring { addr, calibration: calibration_in(data) }
            } else {
                Sensor::Stopped
            },
            Sensor::Configuring { addr, calibration } => if ok {
                Sensor::Settling { addr, calibration }
            } else {
                Sensor::Stopped
            },
            Sensor::Settling { addr, calibration } => Sensor::Measuring { addr, calibration },
            Sensor::Measuring { addr, calibration } => Sensor::Resting { addr, calibration },
            Sensor::Resting { addr, calibration } => Sensor::Measuring { addr, calibration },
            Sensor::Stopped => Sensor::Stopped,
        }
    }

    /// The temperature that a measurement gave, in tenths of a degree.
    pub open spec fn reading(self, ok: bool, data: Seq<u8>) -> Option<i16> {
        match self {
            Sensor::Measuring { calibration, .. } => if ok {
                Some(temperature(calibration, measured(data)) as i16)
            } else {
                None
            },
            _ => None,
        }
    }

    /// The task as it starts.
    pub fn new() -> (sensor: Sensor)
        ensures
            sensor == Sensor::Starting,
    {
        Sensor::Starting
    }

    /// What has to be done next.
    pub fn action(&self) -> (action: SensorAction)
        ensures
            action == self.to_do(),
    {
        match *self {
            Sensor::Starting => SensorAction::Wait { ms: 2000 },
            Sensor::Probing { addr, .. } => SensorAction::Probe { addr },
            Sensor::Identifying { addr } => SensorAction::Read {
                addr,
                register: ID_REGISTER,
                count: 1,
            },
            Sensor::Calibrating { addr } => SensorAction::Read {
                addr,
                register: CALIBRATION_REGISTER,
                count: 6,
            },
            Sensor::Configuring { addr, .. } => SensorAction::Write {
                addr,
                register: CONTROL_REGISTER,
                value: CONTROL_VALUE,
            },
            Sensor::Settling { .. } => SensorAction::Wait { ms: 100 },
            Sensor::Measuring { addr, .. } => SensorAction::Read {
                addr,
                register: TEMPERATURE_REGISTER,
                count: 3,
            },
            Sensor::Resting { .. } => SensorAction::Wait { ms: 30000 },
            Sensor::Stopped => SensorAction::Stop,
        }
    }

    /// Goes on once it was done: `ok` says whether it went well, and `data`
    /// starts with the registers that were read. Gives the temperature that a
    /// measurement gave, in tenths of a degree.
    pub fn advance(&mut self, ok: bool, data: &[u8; 6]) -> (reading: Option<i16>)
        ensures
            *final(self) == old(self).next(ok, data@),
            reading == old(self).reading(ok, data@),
            reading is Some <==> ok && *old(self) is Measuring,
            reading matches Some(tenths) ==> (*old(self) matches Sensor::Measuring {
                calibration,
                ..
            } && tenths == temperature(calibration, measured(data@))),
    {
        let mut reading: Option<i16> = None;
        *self = match *self {
            Sensor::Starting => Sensor::Probing { addr: FIRST_ADDRESS, found: None },
            Sensor::Probing { addr, found } => {
                let now: Option<u8> = if found.is_none() && ok {
                    Some(addr)
                } else {
                    found
                };
                if addr < LAST_ADDRESS {
                    Sensor::Probing { addr: addr + 1, found: now }
                } else {
                    match now {
                        Some(first) => Sensor::Identifying { addr: first },
                        None => Sensor::Stopped,
                    }
                }
            },
            Sensor::Settling { addr, calibration } => Sensor::Measuring { addr, calibration },
            Sensor::Measuring { addr, calibration } => {
                if ok {
                    let raw: [u8; 3] = [data[0], data[1], data[2]];
                    proof {
                        law_temperature_range(calibration, measured(raw@));
                    }
                    reading = Some(temperature_tenths(&calibration, &raw));
                }
                Sensor::Resting { addr, calibration }
            },
            Sensor::Resting { addr, calibration } => Sensor::Measuring { addr, calibration },
            Sensor::Identifying { addr } if ok => Sensor::Calibrating { addr },
            Sensor::Calibrating { addr } if ok => Sensor::Configuring {
                addr,
                calibration: parse_calibration(data),
            },
            Sensor::Configuring { addr, calibration } if ok => Sensor::Settling {
                addr,
                calibration,
            },
            _ => Sensor::Stopped,
        };
        reading
    }
}

/// The task after `n` probes of a bus on which `answers` says which addresses
/// answer.
pub open spec fn probed(sensor: Sensor, n: nat, answers: spec_fn(u8) -> bool) -> Sensor
    decreases n,
{
    if n == 0 {
        sensor
    } else {
        let before = probed(sensor, (n - 1) as nat, answers);
        match before {
            Sensor::Probing { addr, .. } => before.next(answers(addr), Seq::empty()),
            _ => before,
        }
    }
}

/// While a bus is probed, the address that is remembered is the lowest that has
/// answered so far.
proof fn lemma_probed(n: nat, answers: spec_fn(u8) -> bool)
    requires
        n <= LAST_ADDRESS - FIRST_ADDRESS,
    ensures
        probed(
            Sensor::Probing { addr: FIRST_ADDRESS, found: None },
            n,
            answers,
        ) matches Sensor::Probing { addr, found } && addr == FIRST_ADDRESS + n && (match found {
            Some(a) => FIRST_ADDRESS <= a < addr && answers(a) && forall|b: u8|
                FIRST_ADDRESS <= b < a ==> !#[trigger] answers(b),
            None => forall|b: u8| FIRST_ADDRESS <= b < addr ==> !#[trigger] answers(b),
        }),
    decreases n,
{
    if n > 0 {
        lemma_probed((n - 1) as nat, answers);
    }
}

/// The address that is used is the lowest that answers. Where none does the task
/// ends.
pub proof fn law_lowest_address(answers: spec_fn(u8) -> bool)
    ensures
        match probed(
            Sensor::Probing { addr: FIRST_ADDRESS, found: None },
            (LAST_ADDRESS - FIRST_ADDRESS + 1) as nat,
            answers,
        ) {
            Sensor::Identifying { addr } => FIRST_ADDRESS <= addr <= LAST_ADDRESS && answers(addr)
                && forall|b: u8| FIRST_ADDRESS <= b < addr ==> !#[trigger] answers(b),
            Sensor::Stopped => forall|b: u8|
                FIRST_ADDRESS <= b <= LAST_ADDRESS ==> !#[trigger] answers(b),
            _ => false,
        },
{
    lemma_probed((LAST_ADDRESS - FIRST_ADDRESS) as nat, answers);
}

/// Once measurements are under way they go on with the same sensor and
/// calibration, whatever comes of any of them.
pub proof fn law_measuring_goes_on(addr: u8, calibration: Calibration, ok: bool, data: Seq<u8>)
    ensures
        (Sensor::Measuring { addr, calibration }).next(ok, data).next(true, data) == (
        Sensor::Measuring { addr, calibration }),
        (Sensor::Measuring { addr, calibration }).reading(false, data) is None,
        (Sensor::Resting { addr, calibration }).reading(ok, data) is None,
{
}

/// A task that has ended stays so and never gives a temperature.
pub proof fn law_stopped_stays(ok: bool, data: Seq<u8>)
    ensures
        Sensor::Stopped.next(ok, data) == Sensor::Stopped,
        Sensor::Stopped.reading(ok, data) is None,
{
}

/// A temperature is within the tenths of what 16 bits hold.
pub proof fn law_temperature_range(c: Calibration, adc: int)
    ensures
        -3276 <= temperature(c, adc) <= 3276,
{
}

/// Two bytes as a number, the low one first.
fn word_of(low: u8, high: u8) -> (v: u16)
    ensures
        v == word(low, high),
{
    low as u16 + 256 * (high as u16)
}

/// The signed number with the low bits of `v`.
fn to_i16(v: i64) -> (r: i16)
    requires
        -1000000 <= v <= 1000000,
    ensures
        r == low_i16(v as int),
{
    let shifted: i64 = (v + 32768 + 65536 * 100) % 65536;
    (shifted - 32768) as i16
}

/// The calibration in the six bytes of its registers.
pub fn parse_calibration(bytes: &[u8; 6]) -> (c: Calibration)
    ensures
        c == calibration_in(bytes@),
{
    Calibration {
        t1: word_of(bytes[0], bytes[1]),
        t2: to_i16(word_of(bytes[2], bytes[3]) as i64),
        t3: to_i16(word_of(bytes[4], bytes[5]) as i64),
    }
}

/// The temperature, in tenths of a degree, in the three bytes of its registers.
pub fn temperature_tenths(c: &Calibration, raw: &[u8; 3]) -> (tenths: i16)
    ensures
        tenths == temperature(*c, measured(raw@)),
{
    let dig_t1: i64 = c.t1 as i64;
    let dig_t2: i64 = c.t2 as i64;
    let dig_t3: i64 = c.t3 as i64;
    let adc_t: i64 = (raw[0] as i64) * 4096 + (raw[1] as i64) * 16 + (raw[2] as i64) / 16;
    let diff: i64 = adc_t / 8 - dig_t1 * 2;
    proof {
        lemma_product_bound(diff as int, 131072, dig_t2 as int, 32768);
    }
    let var1: i64 = diff * dig_t2 / 2048;
    let tmp: i64 = adc_t / 16 - dig_t1;
    proof {
        lemma_product_bound(tmp as int, 65536, tmp as int, 65536);
        lemma_square(tmp as int);
    }
    let square: i64 = tmp * tmp / 4096;
    proof {
        lemma_product_bound(square as int, 1048576, dig_t3 as int, 32768);
    }
    let var2: i64 = square * dig_t3 / 16384;
    let t_fine: i64 = var1 + var2;
    let temp_hundredths: i16 = to_i16((t_fine * 5 + 128) / 256);
    temp_hundredths / 10
}

/// A product is bounded by the product of the bounds.
proof fn lemma_product_bound(a: int, a_max: int, b: int, b_max: int)
    by (nonlinear_arith)
    requires
        -a_max <= a <= a_max,
        -b_max <= b <= b_max,
    ensures
        -(a_max * b_max) <= a * b <= a_max * b_max,
{
}

/// A square is not negative.
proof fn lemma_square(a: int)
    by (nonlinear_arith)
    ensures
        0 <= a * a,
{
}

/// `q` is `a` divided by `b`, rounded toward zero.
pub open spec fn divides_to(a: int, b: int, q: int) -> bool {
    ||| 0 <= a && b * q <= a < b * q + b
    ||| a <= 0 && b * q - b < a <= b * q
}

/// A division that is rounded toward zero has one result.
proof fn lemma_quotient(a: int, b: int, q: int)
    requires
        b > 0,
        divides_to(a, b, q),
    ensures
        quotient(a, b) == q,
{
    if 0 <= a && b * q <= a < b * q + b {
        vstd::arithmetic::div_mod::lemma_fundamental_div_mod_converse(a, b, q, a - b * q);
    } else {
        assert(b * (-q) == -(b * q)) by (nonlinear_arith);
        vstd::arithmetic::div_mod::lemma_fundamental_div_mod_converse(-a, b, -q, b * q - a);
    }
}

/// The temperature of a measured number is that of the sensor's compensation: a part
/// that is linear in it, one that is quadratic, their sum in units of 5120 to the
/// degree, hundredths of a degree in the 16 bits that they are kept in, and tenths,
/// each division rounded toward zero. `lost` is what does not fit the 16 bits.
pub proof fn law_compensation(
    c: Calibration,
    adc: int,
    linear: int,
    square: int,
    quadratic: int,
    hundredths: int,
    lost: int,
    tenths: int,
)
    requires
        0 <= adc,
        divides_to((adc / 8 - 2 * c.t1) * c.t2, 2048, linear),
        divides_to((adc / 16 - c.t1) * (adc / 16 - c.t1), 4096, square),
        divides_to(square * c.t3, 16384, quadratic),
        divides_to(5 * (linear + quadratic) + 128, 256, hundredths + 65536 * lost),
        -32768 <= hundredths <= 32767,
        divides_to(hundredths, 10, tenths),
    ensures
        temperature(c, adc) == tenths,
{
    lemma_fine_temperature(c, adc, linear, square, quadratic);
    let fine = fine_temperature(c, adc);
    assert(fine * 5 + 128 == 5 * (linear + quadratic) + 128);
    lemma_quotient(fine * 5 + 128, 256, hundredths + 65536 * lost);
    lemma_quotient(hundredths, 10, tenths);
    assert(low_i16(hundredths + 65536 * lost) == hundredths);
}

/// The fine temperature is the sum of its two parts.
proof fn lemma_fine_temperature(c: Calibration, adc: int, linear: int, square: int, quadratic: int)
    requires
        0 <= adc,
        divides_to((adc / 8 - 2 * c.t1) * c.t2, 2048, linear),
        divides_to((adc / 16 - c.t1) * (adc / 16 - c.t1), 4096, square),
        divides_to(square * c.t3, 16384, quadratic),
    ensures
        fine_temperature(c, adc) == linear + quadratic,
{
    let tmp = adc / 16 - c.t1;
    let product = (adc / 8 - c.t1 * 2) * c.t2;
    assert(product == (adc / 8 - 2 * c.t1) * c.t2);
    lemma_quotient(product, 2048, linear);
    lemma_square(tmp);
    lemma_quotient(tmp * tmp, 4096, square);
    assert(tmp * tmp / 4096 == square);
    lemma_quotient(square * c.t3, 16384, quadratic);
}

/// A measured number is made of the 20 high bits of its three bytes, whatever bytes
/// follow.
pub proof fn law_measured(bytes: Seq<u8>)
    requires
        bytes.len() >= 3,
    ensures
        measured(bytes) == (bytes[0] * 65536 + bytes[1] * 256 + bytes[2]) / 16,
        measured(bytes) == measured(bytes.take(3)),
        0 <= measured(bytes) < 1048576,
{
}

/// The calibration is three numbers of two bytes, the low one first, of which the last
/// two are signed: each differs from its bytes by nothing, or by 65536 where the
/// highest bit is set.
pub proof fn law_calibration(bytes: Seq<u8>)
    requires
        bytes.len() >= 6,
    ensures
        ({
            let c = calibration_in(bytes);
            &&& c.t1 == bytes[0] + 256 * bytes[1]
            &&& bytes[3] < 128 ==> c.t2 == bytes[2] + 256 * bytes[3]
            &&& bytes[3] >= 128 ==> c.t2 == bytes[2] + 256 * bytes[3] - 65536
            &&& bytes[5] < 128 ==> c.t3 == bytes[4] + 256 * bytes[5]
            &&& bytes[5] >= 128 ==> c.t3 == bytes[4] + 256 * bytes[5] - 65536
        }),
{
}

/// A measurement that went well is handed on as it is: its temperature is that of the
/// three bytes under the sensor's calibration. No other step hands on a temperature.
pub proof fn law_reading(addr: u8, calibration: Calibration, data: Seq<u8>, sensor: Sensor)
    requires
        data.len() >= 3,
    ensures
        (Sensor::Measuring { addr, calibration }).reading(true, data) is Some,
        (Sensor::Measuring { addr, calibration }).reading(true, data)->0 == temperature(
            calibration,
            measured(data),
        ),
        (Sensor::Measuring { addr, calibration }).reading(false, data) is None,
        !(sensor is Measuring) ==> sensor.reading(true, data) is None && sensor.reading(
            false,
            data,
        ) is None,
{
    law_temperature_range(calibration, measured(data));
}

/// Of two measurements the one with the lower temperature gives the lower reading, and
/// equal ones give equal readings, whichever sensors they come from.
pub proof fn law_readings_ordered(
    addr: u8,
    c: Calibration,
    data: Seq<u8>,
    other_addr: u8,
    other_c: Calibration,
    other: Seq<u8>,
)
    requires
        data.len() >= 3,
        other.len() >= 3,
    ensures
        ({
            let one = (Sensor::Measuring { addr, calibration: c }).reading(true, data);
            let two = (Sensor::Measuring { addr: other_addr, calibration: other_c }).reading(
                true,
                other,
            );
            &&& one is Some && two is Some
            &&& temperature(c, measured(data)) < temperature(other_c, measured(other)) <==> one->0
                < two->0
        }),
{
    law_temperature_range(c, measured(data));
    law_temperature_range(other_c, measured(other));
}

/// A sensor that was found is asked for its identity and its calibration, is told to
/// measure, and is then read every half minute. All of it goes to the address where it
/// was found, and its readings are those of the calibration that it gave, whatever
/// comes of a measurement in between.
pub proof fn law_session(
    addr: u8,
    id: Seq<u8>,
    calibration: Seq<u8>,
    ok: bool,
    first: Seq<u8>,
    second: Seq<u8>,
    other: Seq<u8>,
)
    requires
        calibration.len() >= 6,
        second.len() >= 3,
    ensures
        ({
            let identifying = Sensor::Identifying { addr };
            let calibrating = identifying.next(true, id);
            let configuring = calibrating.next(true, calibration);
            let settling = configuring.next(true, other);
            let measuring = settling.next(ok, other);
            let resting = measuring.next(ok, first);
            let again = resting.next(ok, other);
            &&& identifying.to_do() == SensorAction::Read { addr, register: 0xD0, count: 1 }
            &&& calibrating.to_do() == SensorAction::Read { addr, register: 0x88, count: 6 }
            &&& configuring.to_do() == SensorAction::Write { addr, register: 0xF4, value: 0x27 }
            &&& settling.to_do() == SensorAction::Wait { ms: 100 }
            &&& measuring.to_do() == SensorAction::Read { addr, register: 0xFA, count: 3 }
            &&& resting.to_do() == SensorAction::Wait { ms: 30000 }
            &&& again == measuring
            &&& again.reading(true, second) is Some
            &&& again.reading(true, second)->0 == temperature(
                calibration_in(calibration),
                measured(second),
            )
        }),
{
    law_temperature_range(calibration_in(calibration), measured(second));
}

/// A sensor that fails before it measures is given up.
pub proof fn law_failures_stop(addr: u8, calibration: Calibration, data: Seq<u8>)
    ensures
        (Sensor::Identifying { addr }).next(false, data).to_do() == SensorAction::Stop,
        (Sensor::Calibrating { addr }).next(false, data).to_do() == SensorAction::Stop,
        (Sensor::Configuring { addr, calibration }).next(false, data).to_do()
            == SensorAction::Stop,
        Sensor::Stopped.to_do() == SensorAction::Stop,
{
}

/// The bus is left alone for two seconds, and then probed from address 0x08 on, one
/// address after the other, up to 0x77. The first address that answers is kept.
pub proof fn law_probing(addr: u8, found: Option<u8>, ok: bool, data: Seq<u8>)
    ensures
        Sensor::Starting.to_do() == (SensorAction::Wait { ms: 2000 }),
        Sensor::Starting.next(ok, data) == (Sensor::Probing { addr: 0x08, found: None }),
        (Sensor::Probing { addr, found }).to_do() == (SensorAction::Probe { addr }),
        PROBE_MS == 10,
        ({
            let after = (Sensor::Probing { addr, found }).next(ok, data);
            let kept = match found {
                Some(first) => Some(first),
                None => if ok {
                    Some(addr)
                } else {
                    None
                },
            };
            &&& addr < 0x77 ==> (after matches Sensor::Probing { addr: next, found: now } && next
                == addr + 1 && now == kept)
            &&& addr >= 0x77 && kept is None ==> after is Stopped
            &&& addr >= 0x77 && kept is Some ==> (after matches Sensor::Identifying { addr: used }
                && used == kept->0)
        }),
{
}

/// Only the step that reads the calibration depends on the bytes that were read, and
/// the steps that wait or measure go on whatever came of them.
pub proof fn law_steps_go_on(sensor: Sensor, ok: bool, data: Seq<u8>, other: Seq<u8>)
    ensures
        !(sensor is Calibrating) ==> sensor.next(ok, data) == sensor.next(ok, other),
        sensor is Starting || sensor is Settling || sensor is Measuring || sensor is Resting
            || sensor is Stopped ==> sensor.next(true, data) == sensor.next(false, data),
{
}

} // verus!
