//! The HT16K33 LED matrix driver: a 16-byte display buffer, one bit per LED,
//! and the bus writes that set up the chip and flush the buffer to it.
//!
//! The driver performs no I/O. Each operation that talks to the chip returns
//! the [`BusWrite`]s to send, in order; the caller sends them and stops at the
//! first failure.
use vstd::prelude::*;

use crate::integer::div_mod_floor;

verus! {

/// Number of rows (bytes) in the display buffer.
pub const ROWS_SIZE: usize = 16;
/// Number of commons (bits) in each row.
pub const COMMONS_SIZE: u8 = 8;
/// Number of addressable LEDs: rows times commons.
pub const LED_COUNT: u8 = 128;
/// Number of bars of the bi-color bargraph.
pub const BAR_COUNT: u8 = 24;

/// Blink command opcode.
pub const BLINK_CMD: u8 = 0x80;
/// Display-on flag of the blink command.
pub const BLINK_DISPLAYON: u8 = 0x01;

/// Blink rate code: no blinking.
pub const BLINK_OFF: u8 = 0x00;
/// Blink rate code: 2 Hz.
pub const BLINK_2HZ: u8 = 0x02;
/// Blink rate code: 1 Hz.
pub const BLINK_1HZ: u8 = 0x04;
/// Blink rate code: 0.5 Hz.
pub const BLINK_HALFHZ: u8 = 0x06;

/// System setup command opcode.
pub const SYSTEM_SETUP: u8 = 0x20;
/// Oscillator-on flag of the system setup command.
pub const OSCILLATOR: u8 = 0x01;

/// Brightness command opcode.
pub const BRIGHTNESS_CMD: u8 = 0xE0;
/// The highest of the 16 brightness levels.
pub const BRIGHTNESS_MAX: u8 = 15;

/// Color mask: both LEDs of a bar off.
pub const COLOR_OFF: u8 = 0;
/// Color mask: the green LED of a bar on.
pub const COLOR_GREEN: u8 = 1;
/// Color mask: the red LED of a bar on.
pub const COLOR_RED: u8 = 2;
/// Color mask: both LEDs of a bar on.
pub const COLOR_YELLOW: u8 = 3;

/// One write on the two-wire bus.
#[derive(Clone, Copy, Debug, PartialEq, Eq, Structural)]
pub enum BusWrite {
    /// A command byte sent on its own (system setup, blink, brightness).
    Command(u8),
    /// A value written to a register of the display memory: `(register, value)`.
    Register(u8, u8),
}

/// Arguments that the driver rejects.
#[derive(Clone, Copy, Debug, PartialEq, Eq, Structural)]
pub enum HT16K33Error {
    /// An LED address beyond 127.
    InvalidLed,
    /// A bar index beyond 23.
    InvalidBar,
    /// A color mask beyond 3.
    InvalidColor,
    /// A blink rate other than the four rate codes.
    InvalidBlinkRate,
    /// A brightness level beyond 15.
    InvalidBrightness,
    /// A display buffer read back with a length other than 16.
    InvalidBufferLength,
}

/// The mask of common (bit) `bit` within a row.
pub open spec fn bit_mask(bit: int) -> u8 {
    1u8 << (bit as u8)
}

/// Whether LED `led` is on in `buf`: bit `led % 8` of row `led / 8`.
pub open spec fn led_on(buf: Seq<u8>, led: int) -> bool {
    buf[led / 8] & bit_mask(led % 8) != 0
}

/// `buf` with LED `led` switched on or off.
pub open spec fn with_led(buf: Seq<u8>, led: int, on: bool) -> Seq<u8> {
    let row = led / 8;
    let m = bit_mask(led % 8);
    buf.update(row, if on { buf[row] | m } else { buf[row] & !m })
}

/// The red LED of bar `bar` (0 to 23). Bars 0 to 11 use commons 0 to 3 and
/// bars 12 to 23 commons 4 to 7; within a half, `bar / 4` picks a pair of
/// rows and `bar % 4` the common.
pub open spec fn red_led(bar: int) -> int {
    let half = if bar < 12 { bar } else { bar - 12 };
    let anode = if bar < 12 { half % 4 } else { half % 4 + 4 };
    (half / 4) * 16 + anode
}

/// The green LED of bar `bar`: one row below its red LED.
pub open spec fn green_led(bar: int) -> int {
    red_led(bar) + 8
}

/// `buf` with bar `bar` set to the color mask `color` (bit 0 green, bit 1 red).
pub open spec fn with_bar(buf: Seq<u8>, bar: int, color: u8) -> Seq<u8> {
    with_led(with_led(buf, green_led(bar), color & 1 != 0), red_led(bar), color & 2 != 0)
}

/// A display buffer with every LED off.
pub open spec fn blank() -> Seq<u8> {
    Seq::new(ROWS_SIZE as nat, |i: int| 0u8)
}

/// Whether `rate` is one of the four blink rate codes.
pub open spec fn valid_blink_rate(rate: u8) -> bool {
    rate == BLINK_OFF || rate == BLINK_2HZ || rate == BLINK_1HZ || rate == BLINK_HALFHZ
}

/// The command byte that turns the display on and blinks it at `rate`.
pub open spec fn blink_command(rate: u8) -> u8 {
    BLINK_CMD | BLINK_DISPLAYON | rate
}

/// The command byte that sets the brightness to `level`.
pub open spec fn brightness_command(level: u8) -> u8 {
    BRIGHTNESS_CMD | level
}

/// The writes that flush `buf` to the chip: row `i` to register `i`, in order.
pub open spec fn flush_writes(buf: Seq<u8>) -> Seq<BusWrite> {
    Seq::new(buf.len(), |i: int| BusWrite::Register(i as u8, buf[i]))
}

/// Setting or clearing one bit of a byte changes that bit alone.
pub proof fn lemma_bit_update(b: u8, k: u8, j: u8)
    requires
        k < 8,
        j < 8,
    ensures
        ((b | (1u8 << k)) & (1u8 << j) != 0) == (j == k || b & (1u8 << j) != 0),
        ((b & !(1u8 << k)) & (1u8 << j) != 0) == (j != k && b & (1u8 << j) != 0),
{
    assert(((b | (1u8 << k)) & (1u8 << j) != 0) == (j == k || b & (1u8 << j) != 0))
        by (bit_vector)
        requires
            k < 8,
            j < 8,
    ;
    assert(((b & !(1u8 << k)) & (1u8 << j) != 0) == (j != k && b & (1u8 << j) != 0))
        by (bit_vector)
        requires
            k < 8,
            j < 8,
    ;
}

/// Switching one LED changes that LED alone.
pub proof fn lemma_with_led(buf: Seq<u8>, led: int, on: bool, other: int)
    requires
        buf.len() == ROWS_SIZE,
        0 <= led < LED_COUNT,
        0 <= other < LED_COUNT,
    ensures
        with_led(buf, led, on).len() == ROWS_SIZE,
        led_on(with_led(buf, led, on), other) == if other == led {
            on
        } else {
            led_on(buf, other)
        },
{
    if other / 8 == led / 8 {
        lemma_bit_update(buf[led / 8], (led % 8) as u8, (other % 8) as u8);
    }
}

/// The driver state: the display buffer, row by row.
pub struct HT16K33 {
    buffer: Vec<u8>,
}

impl View for HT16K33 {
    type V = Seq<u8>;

    closed spec fn view(&self) -> Seq<u8> {
        self.buffer@
    }
}

impl HT16K33 {
    /// The buffer holds one byte per row.
    pub open spec fn wf(&self) -> bool {
        self@.len() == ROWS_SIZE
    }

    /// A driver whose buffer has every LED off.
    pub fn new() -> (r: HT16K33)
        ensures
            r.wf(),
            r@ == blank(),
    {
        let r = HT16K33 { buffer: vec![0u8; ROWS_SIZE] };
        assert(r@ =~= blank());
        r
    }

    /// Sets LED `led` (0 to 127) on or off in the buffer. No bus I/O.
    pub fn set_led(&mut self, led: u8, enabled: bool) -> (r: Result<(), HT16K33Error>)
        requires
            old(self).wf(),
        ensures
            final(self).wf(),
            r is Err <==> led >= LED_COUNT,
            r is Err ==> r == Err::<(), HT16K33Error>(HT16K33Error::InvalidLed) && final(self)@
                == old(self)@,
            r is Ok ==> final(self)@ == with_led(old(self)@, led as int, enabled),
    {
        if led >= LED_COUNT {
            return Err(HT16K33Error::InvalidLed);
        }
        let (pos, offset) = div_mod_floor(led, COMMONS_SIZE);
        let row = pos as usize;
        let mask: u8 = 1u8 << offset;
        let byte = self.buffer[row];
        if enabled {
            self.buffer.set(row, byte | mask);
        } else {
            self.buffer.set(row, byte & !mask);
        }
        Ok(())
    }

    /// Turns every LED off in the buffer. No bus I/O.
    pub fn clear(&mut self)
        ensures
            final(self).wf(),
            final(self)@ == blank(),
    {
        self.buffer = vec![0u8; ROWS_SIZE];
        assert(self@ =~= blank());
    }

    /// Sets bar `bar` (0 to 23) to the color mask `color` (0 to 3): the green
    /// LED from bit 0 of the mask, the red LED from bit 1. No bus I/O.
    pub fn set_bar(&mut self, bar: u8, color: u8) -> (r: Result<(), HT16K33Error>)
        requires
            old(self).wf(),
        ensures
            final(self).wf(),
            r is Err <==> bar >= BAR_COUNT || color > COLOR_YELLOW,
            bar >= BAR_COUNT ==> r == Err::<(), HT16K33Error>(HT16K33Error::InvalidBar),
            bar < BAR_COUNT && color > COLOR_YELLOW ==> r == Err::<(), HT16K33Error>(
                HT16K33Error::InvalidColor,
            ),
            r is Err ==> final(self)@ == old(self)@,
            r is Ok ==> final(self)@ == with_bar(old(self)@, bar as int, color),
    {
        if bar >= BAR_COUNT {
            return Err(HT16K33Error::InvalidBar);
        }
        if color > COLOR_YELLOW {
            return Err(HT16K33Error::InvalidColor);
        }
        // Compute cathode and anode values.
        let half: u8 = if bar < 12 {
            bar
        } else {
            bar - 12
        };
        let (c, a0) = div_mod_floor(half, 4);
        let a: u8 = if bar >= 12 {
            a0 + 4
        } else {
            a0
        };
        assert(c * 16 + a == red_led(bar as int));
        let _ = self.set_led(c * 16 + a + 8, color & COLOR_GREEN > 0);
        let _ = self.set_led(c * 16 + a, color & COLOR_RED > 0);
        Ok(())
    }

    /// The writes that initialize the chip, in order: system setup with the
    /// oscillator on, display on without blinking, full brightness.
    pub fn initialize(&self) -> (r: Vec<BusWrite>)
        ensures
            r@ == seq![
                BusWrite::Command(SYSTEM_SETUP | OSCILLATOR),
                BusWrite::Command(blink_command(BLINK_OFF)),
                BusWrite::Command(brightness_command(BRIGHTNESS_MAX)),
            ],
            r@ == seq![BusWrite::Command(0x21), BusWrite::Command(0x81), BusWrite::Command(0xEF)],
    {
        let mut r: Vec<BusWrite> = Vec::new();
        r.push(BusWrite::Command(SYSTEM_SETUP | OSCILLATOR));
        r.push(BusWrite::Command(BLINK_CMD | BLINK_DISPLAYON | BLINK_OFF));
        r.push(BusWrite::Command(BRIGHTNESS_CMD | BRIGHTNESS_MAX));
        assert(SYSTEM_SETUP | OSCILLATOR == 0x21) by (bit_vector);
        assert(BLINK_CMD | BLINK_DISPLAYON | BLINK_OFF == 0x81) by (bit_vector);
        assert(BRIGHTNESS_CMD | BRIGHTNESS_MAX == 0xEF) by (bit_vector);
        assert(r@ =~= seq![
            BusWrite::Command(SYSTEM_SETUP | OSCILLATOR),
            BusWrite::Command(blink_command(BLINK_OFF)),
            BusWrite::Command(brightness_command(BRIGHTNESS_MAX)),
        ]);
        r
    }

    /// The write that turns the display on and blinks it at `rate`, one of
    /// `BLINK_OFF`, `BLINK_2HZ`, `BLINK_1HZ` and `BLINK_HALFHZ`.
    pub fn set_blink(&self, rate: u8) -> (r: Result<BusWrite, HT16K33Error>)
        ensures
            r == if valid_blink_rate(rate) {
                Ok::<BusWrite, HT16K33Error>(BusWrite::Command(blink_command(rate)))
            } else {
                Err::<BusWrite, HT16K33Error>(HT16K33Error::InvalidBlinkRate)
            },
            valid_blink_rate(rate) ==> blink_command(rate) == 0x81 + rate,
    {
        if !(rate == BLINK_OFF || rate == BLINK_2HZ || rate == BLINK_1HZ || rate == BLINK_HALFHZ) {
            return Err(HT16K33Error::InvalidBlinkRate);
        }
        assert(BLINK_CMD | BLINK_DISPLAYON | rate == 0x81 + rate) by (bit_vector)
            requires
                rate == 0 || rate == 2 || rate == 4 || rate == 6,
        ;
        Ok(BusWrite::Command(BLINK_CMD | BLINK_DISPLAYON | rate))
    }

    /// The write that sets the brightness to `level` (0 to 15).
    pub fn set_brightness(&self, level: u8) -> (r: Result<BusWrite, HT16K33Error>)
        ensures
            r == if level <= BRIGHTNESS_MAX {
                Ok::<BusWrite, HT16K33Error>(BusWrite::Command(brightness_command(level)))
            } else {
                Err::<BusWrite, HT16K33Error>(HT16K33Error::InvalidBrightness)
            },
            level <= BRIGHTNESS_MAX ==> brightness_command(level) == 0xE0 + level,
    {
        if level > BRIGHTNESS_MAX {
            return Err(HT16K33Error::InvalidBrightness);
        }
        assert(BRIGHTNESS_CMD | level == 0xE0 + level) by (bit_vector)
            requires
                level < 16,
        ;
        Ok(BusWrite::Command(BRIGHTNESS_CMD | level))
    }

    /// The writes that flush the buffer to the chip: one per row, row `i` to
    /// register `i`, in increasing order.
    pub fn write_display(&self) -> (r: Vec<BusWrite>)
        requires
            self.wf(),
        ensures
            r@ == flush_writes(self@),
            r@.len() == ROWS_SIZE,
    {
        let mut r: Vec<BusWrite> = Vec::new();
        let mut row: usize = 0;
        while row < ROWS_SIZE
            invariant
                self.wf(),
                row <= ROWS_SIZE,
                r@.len() == row,
                forall|i: int| 0 <= i < row ==> r@[i] == BusWrite::Register(i as u8, self@[i]),
            decreases ROWS_SIZE - row,
        {
            r.push(BusWrite::Register(row as u8, self.buffer[row]));
            row = row + 1;
        }
        assert(r@ =~= flush_writes(self@));
        r
    }

    /// Replaces the buffer with `data`, the 16 bytes read back from the chip.
    pub fn read_display(&mut self, data: &[u8]) -> (r: Result<(), HT16K33Error>)
        requires
            old(self).wf(),
        ensures
            final(self).wf(),
            r is Err <==> data@.len() != ROWS_SIZE,
            r is Err ==> r == Err::<(), HT16K33Error>(HT16K33Error::InvalidBufferLength)
                && final(self)@ == old(self)@,
            r is Ok ==> final(self)@ == data@,
    {
        if data.len() != ROWS_SIZE {
            return Err(HT16K33Error::InvalidBufferLength);
        }
        self.buffer = vstd::slice::slice_to_vec(data);
        Ok(())
    }

    /// A copy of the buffer, row by row.
    pub fn display_buffer(&self) -> (r: Vec<u8>)
        ensures
            r@ == self@,
    {
        self.buffer.clone()
    }
}

} // verus!
