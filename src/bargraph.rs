//! The bargraph: a reading of `value` out of `range` drawn on the 24 bars,
//! and the bar colors read back from the chip.
use vstd::prelude::*;

use vstd::arithmetic::div_mod::{
    lemma_div_pos_is_pos,
    lemma_fundamental_div_mod,
    lemma_fundamental_div_mod_converse,
};

use crate::color::{LedColor, color_of, has_green, has_red, mask_of};
use crate::ht16k33::{
    BAR_COUNT,
    BLINK_2HZ,
    BLINK_OFF,
    BusWrite,
    COMMONS_SIZE,
    HT16K33,
    HT16K33Error,
    LED_COUNT,
    ROWS_SIZE,
    bit_mask,
    blank,
    blink_command,
    flush_writes,
    green_led,
    led_on,
    red_led,
    with_bar,
};
use crate::integer::div_mod_floor;
use crate::layout::{
    all_off,
    decode,
    lemma_bar_leds,
    lemma_blank_shows,
    lemma_led_bar,
    lemma_shows_decode,
    lemma_shows_unique,
    lemma_bar_round_trip,
    lemma_with_bar_keeps_others,
    bar_color,
    WIRED_LEDS,
    led_bar,
    led_lit,
    shows,
};

verus! {

/// Errors of the bargraph.
#[derive(Clone, Copy, Debug, PartialEq, Eq, Structural)]
pub enum BargraphError {
    /// A range of 0, or one wider than the 24 bars.
    InvalidRange,
    /// An error of the driver.
    HT16K33(HT16K33Error),
}

/// Number of bars that each of `range` values spans: `24 / range`, rounded
/// down. The bars past `range` spans stay off.
pub open spec fn segment_size(range: int) -> int {
    BAR_COUNT as int / range
}

/// The color of a bar in a span: the last bar of the span is its header,
/// red when the span is filled and green when not; the others are yellow
/// when filled and off when not.
pub open spec fn span_color(header: bool, fill: bool) -> LedColor {
    if header {
        if fill {
            LedColor::Red
        } else {
            LedColor::Green
        }
    } else if fill {
        LedColor::Yellow
    } else {
        LedColor::Off
    }
}

/// The color of bar `bar` when `fill` of `range` values are filled.
pub open spec fn target_color(fill: int, range: int, bar: int) -> LedColor {
    let seg = segment_size(range);
    let value = bar / seg;
    if value >= range {
        LedColor::Off
    } else {
        span_color(bar % seg == seg - 1, value < fill)
    }
}

/// The colors of all bars when `fill` of `range` values are filled.
pub open spec fn display_colors(fill: int, range: int) -> Seq<LedColor> {
    Seq::new(BAR_COUNT as nat, |bar: int| target_color(fill, range, bar))
}

/// The fill level drawn for `value` out of `range`: `value`, clamped to `range`.
pub open spec fn clamp(value: int, range: int) -> int {
    if value > range {
        range
    } else {
        value
    }
}

/// Whether `range` can be drawn: at least 1, at most one bar per value.
pub open spec fn valid_range(range: int) -> bool {
    1 <= range <= BAR_COUNT
}

/// `colors` with the span of value `value` drawn filled or empty.
spec fn with_value(colors: Seq<LedColor>, value: int, range: int, fill: bool) -> Seq<LedColor> {
    let seg = segment_size(range);
    Seq::new(
        BAR_COUNT as nat,
        |bar: int|
            if bar / seg == value {
                span_color(bar % seg == seg - 1, fill)
            } else {
                colors[bar]
            },
    )
}

/// The colors once the spans of values `0` to `count - 1` are drawn.
spec fn drawn_up_to(fill: int, range: int, count: int) -> Seq<LedColor> {
    Seq::new(
        BAR_COUNT as nat,
        |bar: int|
            if bar / segment_size(range) < count {
                target_color(fill, range, bar)
            } else {
                LedColor::Off
            },
    )
}

/// Bar `bar` lies in the span of value `value` exactly when it lies between
/// `value * seg` and the next multiple of `seg`.
proof fn lemma_span(bar: int, value: int, seg: int)
    requires
        seg > 0,
        value >= 0,
        bar >= 0,
    ensures
        (bar / seg == value) == (value * seg <= bar < value * seg + seg),
        bar / seg == value ==> bar % seg == bar - value * seg,
{
    lemma_fundamental_div_mod(bar, seg);
    if value * seg <= bar < value * seg + seg {
        lemma_fundamental_div_mod_converse(bar, seg, value, bar - value * seg);
    }
    if bar / seg == value {
        assert(bar == seg * value + bar % seg);
        assert(seg * value == value * seg) by (nonlinear_arith);
    }
}

/// The spans of `range` values fit in the 24 bars.
proof fn lemma_spans_fit(value: int, range: int)
    requires
        valid_range(range),
        0 <= value < range,
    ensures
        segment_size(range) >= 1,
        value * segment_size(range) + segment_size(range) <= BAR_COUNT,
{
    let seg = segment_size(range);
    lemma_fundamental_div_mod(BAR_COUNT as int, range);
    assert(seg >= 1) by (nonlinear_arith)
        requires
            seg == 24int / range,
            1 <= range <= 24,
    ;
    assert(value * seg + seg <= range * seg) by (nonlinear_arith)
        requires
            value < range,
            seg >= 1,
    ;
    assert(range * seg <= 24) by (nonlinear_arith)
        requires
            24int == range * seg + 24int % range,
            0 <= 24int % range,
    ;
}

/// An update with value 0 fills no span: no bar is red or yellow, every
/// body bar is off, and each span shows only its green header.
pub proof fn lemma_update_zero_fills_nothing(range: u8)
    requires
        valid_range(range as int),
    ensures
        clamp(0, range as int) == 0,
        forall|bar: int|
            0 <= bar < BAR_COUNT ==> #[trigger] display_colors(0, range as int)[bar]
                == LedColor::Off || display_colors(0, range as int)[bar] == LedColor::Green,
        forall|bar: int|
            0 <= bar < BAR_COUNT && bar % segment_size(range as int) != segment_size(range as int)
                - 1 ==> #[trigger] display_colors(0, range as int)[bar] == LedColor::Off,
{
    lemma_spans_fit(0, range as int);
    assert forall|bar: int| 0 <= bar < BAR_COUNT implies #[trigger] (bar / segment_size(
        range as int,
    )) >= 0 by {
        lemma_div_pos_is_pos(bar, segment_size(range as int));
    }
}

/// An update with value equal to the range fills every span: each span's
/// header is red and its body yellow; the bars left over past the last span
/// stay off.
pub proof fn lemma_update_full(range: u8)
    requires
        valid_range(range as int),
    ensures
        clamp(range as int, range as int) == range,
        forall|bar: int|
            0 <= bar < BAR_COUNT && bar / segment_size(range as int) < range ==> #[trigger] display_colors(
                range as int,
                range as int,
            )[bar] == if bar % segment_size(range as int) == segment_size(range as int) - 1 {
                LedColor::Red
            } else {
                LedColor::Yellow
            },
        forall|bar: int|
            0 <= bar < BAR_COUNT && bar / segment_size(range as int) >= range ==> #[trigger] display_colors(
                range as int,
                range as int,
            )[bar] == LedColor::Off,
{
}

/// An update with a value beyond the range draws the same buffer as an
/// update with the value equal to the range (its blinking is in `update`'s
/// result).
pub proof fn lemma_update_clamps(value: u8, range: u8)
    requires
        valid_range(range as int),
        value > range,
    ensures
        display_colors(clamp(value as int, range as int), range as int) == display_colors(
            range as int,
            range as int,
        ),
        forall|a: Seq<u8>, b: Seq<u8>|
            shows(a, display_colors(clamp(value as int, range as int), range as int)) && shows(
                b,
                display_colors(range as int, range as int),
            ) ==> a == b,
{
    assert forall|a: Seq<u8>, b: Seq<u8>|
        shows(a, display_colors(clamp(value as int, range as int), range as int)) && shows(
            b,
            display_colors(range as int, range as int),
        ) implies a == b by {
        lemma_shows_unique(a, b, display_colors(range as int, range as int));
    }
}

/// What row `row`, holding the bits `common`, tells of bar `bar`: the state
/// of the bar's red LED (`Red` or `Off`) when the row is the red row of the
/// bar, of its green LED (`Green` or `Off`) when it is its green row, and
/// nothing otherwise.
pub open spec fn row_contribution(row: int, common: u8, bar: int) -> Option<LedColor> {
    if red_led(bar) / 8 == row {
        Some(
            if common & bit_mask(red_led(bar) % 8) != 0 {
                LedColor::Red
            } else {
                LedColor::Off
            },
        )
    } else if green_led(bar) / 8 == row {
        Some(
            if common & bit_mask(green_led(bar) % 8) != 0 {
                LedColor::Green
            } else {
                LedColor::Off
            },
        )
    } else {
        None
    }
}

/// The common of the LED of bar `bar` that lies on row `row`.
spec fn common_in_row(row: int, bar: int) -> int {
    if red_led(bar) / 8 == row {
        red_led(bar) % 8
    } else {
        green_led(bar) % 8
    }
}

/// The color of bar `bar` from the rows of `buf` before row `rows` alone.
spec fn merged_color(buf: Seq<u8>, bar: int, rows: int) -> LedColor {
    color_of(
        red_led(bar) / 8 < rows && led_on(buf, red_led(bar)),
        green_led(bar) / 8 < rows && led_on(buf, green_led(bar)),
    )
}

/// Merges the contribution `color` of one LED into the color `current` of
/// its bar: red and green together make yellow.
fn merge(current: LedColor, color: LedColor) -> (r: LedColor)
    ensures
        color != LedColor::Yellow ==> r == color_of(
            has_red(current) || has_red(color),
            has_green(current) || has_green(color),
        ),
{
    match current {
        LedColor::Green => {
            if color == LedColor::Red {
                LedColor::Yellow
            } else {
                LedColor::Green
            }
        },
        LedColor::Red => {
            if color == LedColor::Green {
                LedColor::Yellow
            } else {
                LedColor::Red
            }
        },
        LedColor::Off => color,
        LedColor::Yellow => LedColor::Yellow,
    }
}

/// What row `row` (0 to 5), holding the bits `common`, tells of each bar:
/// red or off for the bars whose red LED it holds (even rows), green or off
/// for those whose green LED it holds (odd rows), nothing for the others.
pub fn row_common_to_bars(row: u8, common: u8) -> (r: Vec<Option<LedColor>>)
    requires
        row < 6,
    ensures
        r@.len() == BAR_COUNT,
        forall|bar: int| 0 <= bar < BAR_COUNT ==> #[trigger] r@[bar] == row_contribution(row as int, common, bar),
{
    let mut bars: Vec<Option<LedColor>> = Vec::new();
    let mut i: u8 = 0;
    while i < BAR_COUNT
        invariant
            i <= BAR_COUNT,
            bars@.len() == i,
            forall|bar: int| 0 <= bar < i ==> #[trigger] bars@[bar] == None::<LedColor>,
        decreases BAR_COUNT - i,
    {
        bars.push(None);
        i = i + 1;
    }
    let (row_pair, green) = div_mod_floor(row, 2);
    let mut position: u8 = 0;
    while position < COMMONS_SIZE
        invariant
            row < 6,
            row_pair == row / 2,
            green == row % 2,
            position <= COMMONS_SIZE,
            bars@.len() == BAR_COUNT,
            forall|bar: int|
                0 <= bar < BAR_COUNT ==> #[trigger] bars@[bar] == if row_contribution(
                    row as int,
                    common,
                    bar,
                ) is Some && common_in_row(row as int, bar) < position {
                    row_contribution(row as int, common, bar)
                } else {
                    None
                },
        decreases COMMONS_SIZE - position,
    {
        let check: u8 = 1u8 << position;
        let (count, common_index) = div_mod_floor(position, 4);
        let bar: u8 = count * 12 + row_pair * 4 + common_index;
        let enabled = check == common & check;
        let color = if enabled {
            if green == 1 {
                LedColor::Green
            } else {
                LedColor::Red
            }
        } else {
            LedColor::Off
        };
        proof {
            let led = row * 8 + position;
            assert(led / 8 == row && led % 8 == position);
            assert(bar == led_bar(led));
            lemma_led_bar(led);
            lemma_bar_leds(bar as int);
            assert(bit_mask(position as int) == check);
            assert(enabled == (common & check != 0)) by (bit_vector)
                requires
                    enabled == (check == common & check),
                    check == 1u8 << position,
                    position < 8,
            ;
            assert forall|other: int|
                0 <= other < BAR_COUNT && other != bar && row_contribution(
                    row as int,
                    common,
                    other,
                ) is Some implies common_in_row(row as int, other) != position by {
                lemma_bar_leds(other);
            }
        }
        bars.set(bar as usize, Some(color));
        position = position + 1;
    }
    bars
}

/// Whether LED `led` belongs to a bar in the span of value `value` out of
/// `range`.
spec fn led_in_span(led: int, value: int, range: int) -> bool {
    led < WIRED_LEDS && led_bar(led) / segment_size(range) == value
}

/// Setting bar `bar` to `color` gives it that color, keeps the color of
/// every other bar, and keeps every LED but the bar's own two.
proof fn lemma_set_one_bar(prev: Seq<u8>, new: Seq<u8>, bar: int, color: LedColor)
    requires
        prev.len() == ROWS_SIZE,
        0 <= bar < BAR_COUNT,
        new == with_bar(prev, bar, mask_of(color)),
    ensures
        bar_color(new, bar) == color,
        forall|other: int|
            0 <= other < BAR_COUNT && other != bar ==> #[trigger] bar_color(new, other) == bar_color(
                prev,
                other,
            ),
        forall|led: int|
            0 <= led < LED_COUNT && !(led < WIRED_LEDS && led_bar(led) == bar) ==> #[trigger] led_on(
                new,
                led,
            ) == led_on(prev, led),
{
    lemma_bar_round_trip(prev, bar, color);
    assert(decode(new)[bar] == bar_color(new, bar));
    assert forall|other: int| 0 <= other < BAR_COUNT && other != bar implies #[trigger] bar_color(
        new,
        other,
    ) == bar_color(prev, other) by {
        assert(decode(new)[other] == decode(prev)[other]);
    }
    lemma_bar_leds(bar);
    assert forall|led: int|
        0 <= led < LED_COUNT && !(led < WIRED_LEDS && led_bar(led) == bar) implies #[trigger] led_on(
        new,
        led,
    ) == led_on(prev, led) by {
        lemma_with_bar_keeps_others(prev, bar, mask_of(color), led);
    }
}

/// A span drawn over a buffer that shows `colors`, touching no LED outside
/// the span, gives a buffer that shows `colors` with that span drawn.
proof fn lemma_span_shows(
    prev: Seq<u8>,
    new: Seq<u8>,
    colors: Seq<LedColor>,
    value: int,
    range: int,
    fill: bool,
)
    requires
        shows(prev, colors),
        new.len() == ROWS_SIZE,
        valid_range(range),
        0 <= value < range,
        forall|bar: int|
            0 <= bar < BAR_COUNT && bar / segment_size(range) == value ==> #[trigger] bar_color(
                new,
                bar,
            ) == span_color(bar % segment_size(range) == segment_size(range) - 1, fill),
        forall|led: int|
            0 <= led < LED_COUNT && !led_in_span(led, value, range) ==> #[trigger] led_on(new, led)
                == led_on(prev, led),
    ensures
        shows(new, with_value(colors, value, range, fill)),
{
    let target = with_value(colors, value, range, fill);
    assert forall|led: int| 0 <= led < LED_COUNT implies #[trigger] led_on(new, led) == led_lit(
        target,
        led,
    ) by {
        assert(led_on(prev, led) == led_lit(colors, led));
        if led < WIRED_LEDS {
            lemma_led_bar(led);
            let b = led_bar(led);
            lemma_bar_leds(b);
            if b / segment_size(range) == value {
                assert(bar_color(new, b) == span_color(
                    b % segment_size(range) == segment_size(range) - 1,
                    fill,
                ));
            }
        }
    }
}

/// The bargraph: the driver state of the chip behind it.
pub struct Bargraph {
    device: HT16K33,
}

impl View for Bargraph {
    type V = Seq<u8>;

    closed spec fn view(&self) -> Seq<u8> {
        self.device@
    }
}

impl Bargraph {
    /// The display buffer holds one byte per row.
    pub open spec fn wf(&self) -> bool {
        self@.len() == ROWS_SIZE
    }

    /// A bargraph drawn through `device`.
    pub fn new(device: HT16K33) -> (r: Bargraph)
        requires
            device.wf(),
        ensures
            r.wf(),
            r@ == device@,
    {
        Bargraph { device }
    }

    /// Sets bar `bar` to `color` in the buffer.
    fn update_bar(&mut self, bar: u8, color: LedColor)
        requires
            old(self).wf(),
            bar < BAR_COUNT,
        ensures
            final(self).wf(),
            final(self)@ == with_bar(old(self)@, bar as int, mask_of(color)),
    {
        let mask = color.mask();
        let _ = self.device.set_bar(bar, mask);
    }

    /// Draws the span of value `value` out of `range`: its body yellow and its
    /// header red when `fill`, its body off and its header green when not.
    /// Every LED outside the span keeps its bit, whatever the buffer holds.
    fn update_value(&mut self, value: u8, range: u8, fill: bool)
        requires
            old(self).wf(),
            valid_range(range as int),
            value < range,
        ensures
            final(self).wf(),
            forall|bar: int|
                0 <= bar < BAR_COUNT && bar / segment_size(range as int) == value ==> #[trigger] bar_color(
                    final(self)@,
                    bar,
                ) == span_color(
                    bar % segment_size(range as int) == segment_size(range as int) - 1,
                    fill,
                ),
            forall|led: int|
                0 <= led < LED_COUNT && !led_in_span(led, value as int, range as int)
                    ==> #[trigger] led_on(final(self)@, led) == led_on(old(self)@, led),
    {
        proof {
            lemma_spans_fit(value as int, range as int);
        }
        let value_size: u8 = BAR_COUNT / range;
        let start_bar: u8 = value * value_size;
        let end_bar: u8 = start_bar + value_size - 1;
        let fill_color = if fill {
            LedColor::Yellow
        } else {
            LedColor::Off
        };
        let mut current_bar: u8 = start_bar;
        while current_bar < end_bar
            invariant
                self.wf(),
                start_bar <= current_bar <= end_bar,
                end_bar < BAR_COUNT,
                forall|bar: int|
                    start_bar <= bar < current_bar ==> #[trigger] bar_color(self@, bar)
                        == fill_color,
                forall|led: int|
                    0 <= led < LED_COUNT && !(led < WIRED_LEDS && start_bar <= led_bar(led)
                        < current_bar) ==> #[trigger] led_on(self@, led) == led_on(
                        old(self)@,
                        led,
                    ),
            decreases end_bar - current_bar,
        {
            let ghost prev = self@;
            self.update_bar(current_bar, fill_color);
            proof {
                lemma_set_one_bar(prev, self@, current_bar as int, fill_color);
            }
            current_bar = current_bar + 1;
        }
        let ghost before_header = self@;
        let header_color = if fill {
            LedColor::Red
        } else {
            LedColor::Green
        };
        self.update_bar(end_bar, header_color);
        proof {
            lemma_set_one_bar(before_header, self@, end_bar as int, header_color);
            let seg = value_size as int;
            assert forall|bar: int|
                0 <= bar < BAR_COUNT && bar / seg == value implies #[trigger] bar_color(self@, bar)
                == span_color(bar % seg == seg - 1, fill) by {
                lemma_span(bar, value as int, seg);
            }
            assert forall|led: int|
                0 <= led < LED_COUNT && !led_in_span(
                    led,
                    value as int,
                    range as int,
                ) implies #[trigger] led_on(self@, led) == led_on(old(self)@, led) by {
                if led < WIRED_LEDS {
                    lemma_led_bar(led);
                    lemma_span(led_bar(led), value as int, seg);
                }
            }
        }
    }

    /// The writes that initialize the chip: system setup with the oscillator
    /// on, display on without blinking, full brightness.
    pub fn initialize(&self) -> (r: Vec<BusWrite>)
        ensures
            r@ == seq![BusWrite::Command(0x21), BusWrite::Command(0x81), BusWrite::Command(0xEF)],
    {
        self.device.initialize()
    }

    /// Turns every bar off and returns the writes that flush the blank buffer.
    pub fn clear(&mut self) -> (r: Vec<BusWrite>)
        requires
            old(self).wf(),
        ensures
            final(self).wf(),
            final(self)@ == blank(),
            r@ == flush_writes(blank()),
    {
        self.device.clear();
        self.device.write_display()
    }

    /// Draws `value` out of `range` in the buffer, from scratch: the 24 bars
    /// are split into `range` spans of `24 / range` bars, and the first
    /// `value` spans are filled. A value beyond the range fills every span,
    /// and the result then asks for blinking (`Ok(true)`). A range of 0 or
    /// beyond 24 is refused and leaves the buffer as it was.
    pub fn update(&mut self, value: u8, range: u8) -> (r: Result<bool, BargraphError>)
        requires
            old(self).wf(),
        ensures
            final(self).wf(),
            r is Err <==> !valid_range(range as int),
            r is Err ==> r == Err::<bool, BargraphError>(BargraphError::InvalidRange)
                && final(self)@ == old(self)@,
            r is Ok ==> r == Ok::<bool, BargraphError>(value > range),
            r is Ok ==> shows(
                final(self)@,
                display_colors(clamp(value as int, range as int), range as int),
            ),
            r is Ok ==> decode(final(self)@) == display_colors(
                clamp(value as int, range as int),
                range as int,
            ),
    {
        if range == 0 || range > BAR_COUNT {
            return Err(BargraphError::InvalidRange);
        }
        // Reset the display in preparation for the update.
        self.device.clear();

        let mut blink = false;
        let mut clamped_value = value;
        if value > range {
            clamped_value = range;
            blink = true;
        }
        proof {
            lemma_blank_shows();
            lemma_spans_fit(0, range as int);
            assert forall|bar: int| 0 <= bar < BAR_COUNT implies #[trigger] drawn_up_to(
                clamped_value as int,
                range as int,
                0,
            )[bar] == all_off()[bar] by {
                lemma_div_pos_is_pos(bar, segment_size(range as int));
            }
            assert(drawn_up_to(clamped_value as int, range as int, 0) =~= all_off());
        }
        let mut current_value: u8 = 1;
        while current_value <= range
            invariant
                self.wf(),
                valid_range(range as int),
                1 <= current_value <= range + 1,
                clamped_value == clamp(value as int, range as int),
                shows(self@, drawn_up_to(clamped_value as int, range as int, current_value - 1)),
            decreases range + 1 - current_value,
        {
            let fill = current_value <= clamped_value;
            let ghost drawn = drawn_up_to(clamped_value as int, range as int, current_value - 1);
            let ghost prev = self@;
            self.update_value(current_value - 1, range, fill);
            proof {
                lemma_span_shows(prev, self@, drawn, current_value - 1, range as int, fill);
                let k = current_value - 1;
                assert(segment_size(range as int) >= 1) by {
                    lemma_spans_fit(0, range as int);
                }
                assert(with_value(drawn, k, range as int, fill) =~= drawn_up_to(
                    clamped_value as int,
                    range as int,
                    k + 1,
                ));
            }
            current_value = current_value + 1;
        }
        proof {
            assert(drawn_up_to(clamped_value as int, range as int, range as int) =~= display_colors(
                clamped_value as int,
                range as int,
            ));
            lemma_shows_decode(self@, display_colors(clamped_value as int, range as int));
        }
        Ok(blink)
    }

    /// The write that starts blinking at 2 Hz (`enabled`) or stops it.
    pub fn set_blink(&self, enabled: bool) -> (r: BusWrite)
        ensures
            r == BusWrite::Command(blink_command(if enabled { BLINK_2HZ } else { BLINK_OFF })),
            r == BusWrite::Command(if enabled { 0x83 } else { 0x81 }),
    {
        let rate = if enabled {
            BLINK_2HZ
        } else {
            BLINK_OFF
        };
        match self.device.set_blink(rate) {
            Ok(w) => w,
            Err(_) => vstd::pervasive::unreached(),
        }
    }

    /// The writes that flush the buffer to the chip, row by row.
    pub fn write_display(&self) -> (r: Vec<BusWrite>)
        requires
            self.wf(),
        ensures
            r@ == flush_writes(self@),
    {
        self.device.write_display()
    }

    /// A copy of the display buffer, row by row.
    pub fn display_buffer(&self) -> (r: Vec<u8>)
        ensures
            r@ == self@,
    {
        self.device.display_buffer()
    }

    /// The colors of the 24 bars in the buffer: each of the first six rows
    /// in turn contributes the red (even row) or green (odd row) LEDs that
    /// it holds, merged per bar.
    pub fn bars(&self) -> (r: Vec<LedColor>)
        requires
            self.wf(),
        ensures
            r@ == decode(self@),
    {
        let buffer = self.device.display_buffer();
        let mut leds: Vec<LedColor> = Vec::new();
        let mut i: u8 = 0;
        while i < BAR_COUNT
            invariant
                i <= BAR_COUNT,
                leds@.len() == i,
                forall|bar: int| 0 <= bar < i ==> #[trigger] leds@[bar] == LedColor::Off,
            decreases BAR_COUNT - i,
        {
            leds.push(LedColor::Off);
            i = i + 1;
        }
        assert forall|bar: int| 0 <= bar < BAR_COUNT implies #[trigger] leds@[bar] == merged_color(
            buffer@,
            bar,
            0,
        ) by {
            lemma_bar_leds(bar);
        }
        let mut row: u8 = 0;
        while row < 6
            invariant
                buffer@ == self@,
                buffer@.len() == ROWS_SIZE,
                row <= 6,
                leds@.len() == BAR_COUNT,
                forall|bar: int|
                    0 <= bar < BAR_COUNT ==> #[trigger] leds@[bar] == merged_color(
                        buffer@,
                        bar,
                        row as int,
                    ),
            decreases 6 - row,
        {
            let common = buffer[row as usize];
            let bars = row_common_to_bars(row, common);
            let mut index: usize = 0;
            while index < BAR_COUNT as usize
                invariant
                    buffer@.len() == ROWS_SIZE,
                    row < 6,
                    common == buffer@[row as int],
                    index <= BAR_COUNT,
                    leds@.len() == BAR_COUNT,
                    bars@.len() == BAR_COUNT,
                    forall|bar: int|
                        0 <= bar < BAR_COUNT ==> #[trigger] bars@[bar] == row_contribution(
                            row as int,
                            common,
                            bar,
                        ),
                    forall|bar: int|
                        0 <= bar < index ==> #[trigger] leds@[bar] == merged_color(
                            buffer@,
                            bar,
                            row + 1,
                        ),
                    forall|bar: int|
                        index <= bar < BAR_COUNT ==> #[trigger] leds@[bar] == merged_color(
                            buffer@,
                            bar,
                            row as int,
                        ),
                decreases BAR_COUNT - index,
            {
                proof {
                    lemma_bar_leds(index as int);
                }
                match bars[index] {
                    Some(color) => {
                        let merged = merge(leds[index], color);
                        leds.set(index, merged);
                    },
                    None => {},
                }
                index = index + 1;
            }
            row = row + 1;
        }
        assert forall|bar: int| 0 <= bar < BAR_COUNT implies #[trigger] leds@[bar] == decode(
            self@,
        )[bar] by {
            lemma_bar_leds(bar);
        }
        assert(leds@ =~= decode(self@));
        leds
    }

    /// Replaces the buffer with `readback`, the 16 bytes read back from the
    /// chip, and returns the colors of the 24 bars in it.
    pub fn show(&mut self, readback: &[u8]) -> (r: Result<Vec<LedColor>, BargraphError>)
        requires
            old(self).wf(),
        ensures
            final(self).wf(),
            r is Err <==> readback@.len() != ROWS_SIZE,
            r is Err ==> r == Err::<Vec<LedColor>, BargraphError>(
                BargraphError::HT16K33(HT16K33Error::InvalidBufferLength),
            ) && final(self)@ == old(self)@,
            r is Ok ==> final(self)@ == readback@ && r->Ok_0@ == decode(readback@),
    {
        match self.device.read_display(readback) {
            Ok(()) => {},
            Err(e) => {
                return Err(BargraphError::HT16K33(e));
            },
        }
        Ok(self.bars())
    }
}

} // verus!
