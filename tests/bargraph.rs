use led_bargraph::ht16k33::{BusWrite, HT16K33Error, HT16K33};
use led_bargraph::{Bargraph, BargraphError, LedColor};

fn ready_bargraph() -> Bargraph {
    let bargraph = Bargraph::new(HT16K33::new());
    let writes = bargraph.initialize();
    assert_eq!(writes.len(), 3);
    bargraph
}

/// The colors that `update(value, range)` should draw, span by span.
fn expected_colors(value: u8, range: u8) -> Vec<LedColor> {
    let seg = 24 / range;
    let fill = if value > range { range } else { value };
    (0..24u8)
        .map(|bar| {
            let k = bar / seg;
            if k >= range {
                LedColor::Off
            } else if bar % seg == seg - 1 {
                if k < fill {
                    LedColor::Red
                } else {
                    LedColor::Green
                }
            } else if k < fill {
                LedColor::Yellow
            } else {
                LedColor::Off
            }
        })
        .collect()
}

#[test]
fn new() {
    let bargraph = Bargraph::new(HT16K33::new());
    assert_eq!(bargraph.display_buffer(), vec![0u8; 16]);
}

#[test]
fn initialize() {
    let bargraph = Bargraph::new(HT16K33::new());
    assert_eq!(
        bargraph.initialize(),
        vec![
            BusWrite::Command(0x21),
            BusWrite::Command(0x81),
            BusWrite::Command(0xEF)
        ]
    );
}

#[test]
fn clear() {
    let mut bargraph = ready_bargraph();
    bargraph.update(5, 6).unwrap();
    let writes = bargraph.clear();
    assert_eq!(bargraph.display_buffer(), vec![0u8; 16]);
    let expected: Vec<BusWrite> = (0..16u8).map(|row| BusWrite::Register(row, 0)).collect();
    assert_eq!(writes, expected);
}

#[test]
fn update() {
    let mut bargraph = ready_bargraph();
    assert_eq!(bargraph.update(5, 6), Ok(false));
    assert_eq!(bargraph.bars(), expected_colors(5, 6));
}

#[test]
fn set_blink() {
    let bargraph = ready_bargraph();
    assert_eq!(bargraph.set_blink(true), BusWrite::Command(0x83));
    assert_eq!(bargraph.set_blink(false), BusWrite::Command(0x81));
}

#[test]
fn show() {
    let mut bargraph = ready_bargraph();
    let colors = bargraph.show(&[0u8; 16]).unwrap();
    assert_eq!(colors, vec![LedColor::Off; 24]);
}

#[test]
fn update_three_of_six() {
    let mut bargraph = ready_bargraph();
    assert_eq!(bargraph.update(3, 6), Ok(false));
    let colors = bargraph.bars();
    let y = LedColor::Yellow;
    let r = LedColor::Red;
    let o = LedColor::Off;
    let g = LedColor::Green;
    let expected = vec![
        y, y, y, r, y, y, y, r, y, y, y, r, o, o, o, g, o, o, o, g, o, o, o, g,
    ];
    assert_eq!(colors, expected);
}

#[test]
fn update_three_of_six_buffer() {
    let mut bargraph = ready_bargraph();
    bargraph.update(3, 6).unwrap();
    // Even rows: the red LEDs of bars 0 to 11 (commons 0 to 3), all filled.
    // Odd rows: the green LEDs of the filled bodies (commons 0 to 2) and the
    // green headers of bars 15, 19 and 23 (common 7).
    assert_eq!(
        bargraph.display_buffer(),
        vec![0x0F, 0x87, 0x0F, 0x87, 0x0F, 0x87, 0, 0, 0, 0, 0, 0, 0, 0, 0, 0]
    );
}

#[test]
fn update_zero_lights_only_green_headers() {
    for range in 1..=24u8 {
        let mut bargraph = ready_bargraph();
        assert_eq!(bargraph.update(0, range), Ok(false));
        let colors = bargraph.bars();
        assert!(colors
            .iter()
            .all(|c| *c == LedColor::Off || *c == LedColor::Green));
        assert_eq!(colors, expected_colors(0, range));
    }
}

#[test]
fn update_full_range_fills_every_span() {
    for range in 1..=24u8 {
        let mut bargraph = ready_bargraph();
        assert_eq!(bargraph.update(range, range), Ok(false));
        let colors = bargraph.bars();
        let seg = 24 / range;
        for bar in 0..24u8 {
            let color = colors[bar as usize];
            if bar / seg >= range {
                assert_eq!(color, LedColor::Off);
            } else if bar % seg == seg - 1 {
                assert_eq!(color, LedColor::Red);
            } else {
                assert_eq!(color, LedColor::Yellow);
            }
        }
    }
}

#[test]
fn update_over_range_clamps_and_blinks() {
    for range in 1..=24u8 {
        let mut full = ready_bargraph();
        full.update(range, range).unwrap();
        let mut over = ready_bargraph();
        assert_eq!(over.update(range + 1, range), Ok(true));
        assert_eq!(over.display_buffer(), full.display_buffer());
        let mut far = ready_bargraph();
        assert_eq!(far.update(255, range), Ok(true));
        assert_eq!(far.display_buffer(), full.display_buffer());
    }
}

#[test]
fn update_matches_spans_for_every_reading() {
    for range in 1..=24u8 {
        for value in 0..=30u8 {
            let mut bargraph = ready_bargraph();
            assert_eq!(bargraph.update(value, range), Ok(value > range));
            assert_eq!(bargraph.bars(), expected_colors(value, range));
        }
    }
}

#[test]
fn update_uneven_range_leaves_remainder_off() {
    let mut bargraph = ready_bargraph();
    bargraph.update(5, 5).unwrap();
    let colors = bargraph.bars();
    assert_eq!(colors[19], LedColor::Red);
    for bar in 20..24 {
        assert_eq!(colors[bar], LedColor::Off);
    }
}

#[test]
fn update_rejects_zero_range() {
    let mut bargraph = ready_bargraph();
    bargraph.update(2, 4).unwrap();
    let before = bargraph.display_buffer();
    assert_eq!(bargraph.update(1, 0), Err(BargraphError::InvalidRange));
    assert_eq!(bargraph.display_buffer(), before);
}

#[test]
fn update_rejects_range_beyond_bars() {
    let mut bargraph = ready_bargraph();
    assert_eq!(bargraph.update(1, 25), Err(BargraphError::InvalidRange));
    assert_eq!(bargraph.display_buffer(), vec![0u8; 16]);
}

#[test]
fn update_starts_from_scratch() {
    let mut bargraph = ready_bargraph();
    bargraph.update(24, 24).unwrap();
    bargraph.update(1, 2).unwrap();
    assert_eq!(bargraph.bars(), expected_colors(1, 2));
}

#[test]
fn clear_resets_any_buffer() {
    let mut bargraph = ready_bargraph();
    bargraph.show(&[0xFF; 16]).unwrap();
    bargraph.clear();
    assert_eq!(bargraph.display_buffer(), vec![0u8; 16]);
}

#[test]
fn show_decodes_readback() {
    let mut bargraph = ready_bargraph();
    let mut readback = [0u8; 16];
    // Row 0 bit 0: red of bar 0. Row 1 bit 0: green of bar 0.
    readback[0] = 0x01;
    readback[1] = 0x01;
    // Row 2 bit 4: red of bar 16. Row 5 bit 2: green of bar 10.
    readback[2] = 0x10;
    readback[5] = 0x04;
    // Rows past the sixth are not wired.
    readback[9] = 0xFF;
    let colors = bargraph.show(&readback).unwrap();
    assert_eq!(bargraph.display_buffer(), readback.to_vec());
    for (bar, color) in colors.iter().enumerate() {
        let expected = match bar {
            0 => LedColor::Yellow,
            16 => LedColor::Red,
            10 => LedColor::Green,
            _ => LedColor::Off,
        };
        assert_eq!(*color, expected, "bar {}", bar);
    }
}

#[test]
fn show_rejects_short_readback() {
    let mut bargraph = ready_bargraph();
    bargraph.update(2, 4).unwrap();
    let before = bargraph.display_buffer();
    assert_eq!(
        bargraph.show(&[0u8; 15]),
        Err(BargraphError::HT16K33(HT16K33Error::InvalidBufferLength))
    );
    assert_eq!(bargraph.display_buffer(), before);
}

#[test]
fn show_after_update_round_trips() {
    let mut bargraph = ready_bargraph();
    bargraph.update(4, 8).unwrap();
    let buffer = bargraph.display_buffer();
    let mut other = ready_bargraph();
    assert_eq!(other.show(&buffer).unwrap(), expected_colors(4, 8));
}

#[test]
fn write_display_flushes_rows_in_order() {
    let mut bargraph = ready_bargraph();
    bargraph.update(3, 6).unwrap();
    let buffer = bargraph.display_buffer();
    let writes = bargraph.write_display();
    assert_eq!(writes.len(), 16);
    for (row, write) in writes.iter().enumerate() {
        assert_eq!(*write, BusWrite::Register(row as u8, buffer[row]));
    }
}

#[test]
fn row_common_to_bars_reads_one_row() {
    let bars = led_bargraph::bargraph::row_common_to_bars(3, 0b1000_0010);
    for (bar, contribution) in bars.iter().enumerate() {
        let expected = match bar {
            5 => Some(LedColor::Green),
            4 | 6 | 7 | 16 | 17 | 18 => Some(LedColor::Off),
            19 => Some(LedColor::Green),
            _ => None,
        };
        assert_eq!(*contribution, expected, "bar {}", bar);
    }
}
