//! The wiring of the 24-bar bargraph onto the HT16K33's LEDs, in both
//! directions, and the buffer a set of bar colors lights.
//!
//! Only the first six rows are wired. Row `r` and common `p` light bar
//! `(p / 4) * 12 + (r / 2) * 4 + p % 4`, in red on an even row and in green on
//! an odd one.
use vstd::prelude::*;

use crate::color::{LedColor, color_of, has_green, has_red, lemma_mask_bits, mask_of};
use crate::ht16k33::{
    BAR_COUNT,
    LED_COUNT,
    ROWS_SIZE,
    bit_mask,
    blank,
    green_led,
    lemma_with_led,
    led_on,
    red_led,
    with_bar,
};

verus! {

/// Number of LEDs wired to bars: two per bar.
pub const WIRED_LEDS: u8 = 48;

/// The bar that LED `led` (0 to 47) belongs to.
pub open spec fn led_bar(led: int) -> int {
    let row = led / 8;
    let common = led % 8;
    (common / 4) * 12 + (row / 2) * 4 + common % 4
}

/// Whether LED `led` is the green one of its bar: it sits on an odd row.
pub open spec fn led_is_green(led: int) -> bool {
    (led / 8) % 2 == 1
}

/// Whether LED `led` is lit when the bars show `colors`.
pub open spec fn led_lit(colors: Seq<LedColor>, led: int) -> bool {
    led < WIRED_LEDS && if led_is_green(led) {
        has_green(colors[led_bar(led)])
    } else {
        has_red(colors[led_bar(led)])
    }
}

/// `buf` shows the bar colors `colors`: each bar's red and green LED is lit
/// exactly as its color asks, and every LED not wired to a bar is off.
pub open spec fn shows(buf: Seq<u8>, colors: Seq<LedColor>) -> bool {
    &&& buf.len() == ROWS_SIZE
    &&& colors.len() == BAR_COUNT
    &&& forall|led: int| 0 <= led < LED_COUNT ==> #[trigger] led_on(buf, led) == led_lit(colors, led)
}

/// The color that `buf` gives bar `bar`: red from its red LED, green from its
/// green LED.
pub open spec fn bar_color(buf: Seq<u8>, bar: int) -> LedColor {
    color_of(led_on(buf, red_led(bar)), led_on(buf, green_led(bar)))
}

/// The colors of all 24 bars in `buf`.
pub open spec fn decode(buf: Seq<u8>) -> Seq<LedColor> {
    Seq::new(BAR_COUNT as nat, |bar: int| bar_color(buf, bar))
}

/// Every bar's two LEDs are wired, on adjacent rows of one common, and lead
/// back to the bar.
pub proof fn lemma_bar_leds(bar: int)
    requires
        0 <= bar < BAR_COUNT,
    ensures
        0 <= red_led(bar) < WIRED_LEDS,
        0 <= green_led(bar) < WIRED_LEDS,
        led_bar(red_led(bar)) == bar,
        led_bar(green_led(bar)) == bar,
        !led_is_green(red_led(bar)),
        led_is_green(green_led(bar)),
        green_led(bar) / 8 == red_led(bar) / 8 + 1,
        green_led(bar) % 8 == red_led(bar) % 8,
        red_led(bar) / 8 < 6,
        green_led(bar) / 8 < 6,
{
}

/// Every wired LED is the red or the green LED of its bar.
pub proof fn lemma_led_bar(led: int)
    requires
        0 <= led < WIRED_LEDS,
    ensures
        0 <= led_bar(led) < BAR_COUNT,
        led == if led_is_green(led) {
            green_led(led_bar(led))
        } else {
            red_led(led_bar(led))
        },
{
}

/// Every bar Off.
pub open spec fn all_off() -> Seq<LedColor> {
    Seq::new(BAR_COUNT as nat, |bar: int| LedColor::Off)
}

/// A blank buffer shows every bar Off.
pub proof fn lemma_blank_shows()
    ensures
        shows(blank(), all_off()),
{
    assert forall|led: int| 0 <= led < LED_COUNT implies #[trigger] led_on(blank(), led) == led_lit(
        all_off(),
        led,
    ) by {
        let m = bit_mask(led % 8);
        assert(0u8 & m == 0) by (bit_vector);
    }
}

/// A buffer that shows `colors` decodes to `colors`.
pub proof fn lemma_shows_decode(buf: Seq<u8>, colors: Seq<LedColor>)
    requires
        shows(buf, colors),
    ensures
        decode(buf) == colors,
{
    assert forall|bar: int| 0 <= bar < BAR_COUNT implies #[trigger] decode(buf)[bar] == colors[bar] by {
        lemma_bar_leds(bar);
        assert(led_on(buf, red_led(bar)) == led_lit(colors, red_led(bar)));
        assert(led_on(buf, green_led(bar)) == led_lit(colors, green_led(bar)));
    }
    assert(decode(buf) =~= colors);
}

/// Two bytes that agree on every bit are equal.
proof fn lemma_byte_ext(x: u8, y: u8)
    requires
        forall|p: int| 0 <= p < 8 ==> (x & #[trigger] bit_mask(p) != 0) == (y & bit_mask(p) != 0),
    ensures
        x == y,
{
    let b0 = bit_mask(0);
    let b1 = bit_mask(1);
    let b2 = bit_mask(2);
    let b3 = bit_mask(3);
    let b4 = bit_mask(4);
    let b5 = bit_mask(5);
    let b6 = bit_mask(6);
    let b7 = bit_mask(7);
    assert(x == y) by (bit_vector)
        requires
            b0 == 1u8 << 0u8,
            b1 == 1u8 << 1u8,
            b2 == 1u8 << 2u8,
            b3 == 1u8 << 3u8,
            b4 == 1u8 << 4u8,
            b5 == 1u8 << 5u8,
            b6 == 1u8 << 6u8,
            b7 == 1u8 << 7u8,
            (x & b0 != 0) == (y & b0 != 0),
            (x & b1 != 0) == (y & b1 != 0),
            (x & b2 != 0) == (y & b2 != 0),
            (x & b3 != 0) == (y & b3 != 0),
            (x & b4 != 0) == (y & b4 != 0),
            (x & b5 != 0) == (y & b5 != 0),
            (x & b6 != 0) == (y & b6 != 0),
            (x & b7 != 0) == (y & b7 != 0),
    ;
}

/// One buffer at most shows a given set of bar colors: the bits of a buffer
/// fix its bytes.
pub proof fn lemma_shows_unique(a: Seq<u8>, b: Seq<u8>, colors: Seq<LedColor>)
    requires
        shows(a, colors),
        shows(b, colors),
    ensures
        a == b,
{
    assert forall|row: int| 0 <= row < ROWS_SIZE implies #[trigger] a[row] == b[row] by {
        assert forall|p: int| 0 <= p < 8 implies (a[row] & #[trigger] bit_mask(p) != 0) == (b[row]
            & bit_mask(p) != 0) by {
            let led = row * 8 + p;
            assert(led / 8 == row && led % 8 == p);
            assert(led_on(a, led) == led_lit(colors, led));
            assert(led_on(b, led) == led_lit(colors, led));
        }
        lemma_byte_ext(a[row], b[row]);
    }
    assert(a =~= b);
}

/// Round trip: setting bar `bar` to `color` and decoding the buffer gives
/// `color` back for that bar, whatever the buffer held before, and leaves the
/// decoded color of every other bar as it was.
pub proof fn lemma_bar_round_trip(buf: Seq<u8>, bar: int, color: LedColor)
    requires
        buf.len() == ROWS_SIZE,
        0 <= bar < BAR_COUNT,
    ensures
        decode(with_bar(buf, bar, mask_of(color)))[bar] == color,
        forall|other: int|
            0 <= other < BAR_COUNT && other != bar ==> #[trigger] decode(
                with_bar(buf, bar, mask_of(color)),
            )[other] == decode(buf)[other],
{
    let mask = mask_of(color);
    let mid = crate::ht16k33::with_led(buf, green_led(bar), mask & 1 != 0);
    let new = with_bar(buf, bar, mask);
    lemma_mask_bits(color);
    lemma_bar_leds(bar);
    lemma_with_led(buf, green_led(bar), mask & 1 != 0, red_led(bar));
    lemma_with_led(mid, red_led(bar), mask & 2 != 0, red_led(bar));
    lemma_with_led(buf, green_led(bar), mask & 1 != 0, green_led(bar));
    lemma_with_led(mid, red_led(bar), mask & 2 != 0, green_led(bar));
    assert forall|other: int| 0 <= other < BAR_COUNT && other != bar implies #[trigger] decode(
        new,
    )[other] == decode(buf)[other] by {
        lemma_bar_leds(other);
        lemma_with_led(buf, green_led(bar), mask & 1 != 0, red_led(other));
        lemma_with_led(mid, red_led(bar), mask & 2 != 0, red_led(other));
        lemma_with_led(buf, green_led(bar), mask & 1 != 0, green_led(other));
        lemma_with_led(mid, red_led(bar), mask & 2 != 0, green_led(other));
    }
}

/// Setting bar `bar` leaves every LED but the bar's own two as it was.
pub proof fn lemma_with_bar_keeps_others(buf: Seq<u8>, bar: int, color: u8, led: int)
    requires
        buf.len() == ROWS_SIZE,
        0 <= bar < BAR_COUNT,
        0 <= led < LED_COUNT,
        led != red_led(bar),
        led != green_led(bar),
    ensures
        led_on(with_bar(buf, bar, color), led) == led_on(buf, led),
{
    let mid = crate::ht16k33::with_led(buf, green_led(bar), color & 1 != 0);
    lemma_bar_leds(bar);
    lemma_with_led(buf, green_led(bar), color & 1 != 0, led);
    lemma_with_led(mid, red_led(bar), color & 2 != 0, led);
}

} // verus!
