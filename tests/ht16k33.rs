use led_bargraph::color::LedColor as Color;
use led_bargraph::ht16k33::{
    BusWrite, HT16K33Error, HT16K33, BLINK_1HZ, BLINK_2HZ, BLINK_HALFHZ, BLINK_OFF, COLOR_GREEN,
    COLOR_OFF, COLOR_RED, COLOR_YELLOW,
};
use led_bargraph::layout::WIRED_LEDS;

fn led_is_on(buffer: &[u8], led: u8) -> bool {
    buffer[(led / 8) as usize] & (1 << (led % 8)) != 0
}

#[test]
fn set_led_eleven_sets_row_one_bit_three() {
    let mut device = HT16K33::new();
    device.set_led(11, true).unwrap();
    let buffer = device.display_buffer();
    assert_eq!(buffer[1], 0b0000_1000);
    for (row, byte) in buffer.iter().enumerate() {
        if row != 1 {
            assert_eq!(*byte, 0);
        }
    }
}

#[test]
fn set_led_eleven_off_clears_only_that_bit() {
    let mut device = HT16K33::new();
    let mut readback = [0xFFu8; 16];
    readback[1] = 0b1010_1010;
    device.read_display(&readback).unwrap();
    device.set_led(11, false).unwrap();
    let buffer = device.display_buffer();
    assert_eq!(buffer[1], 0b1010_0010);
    for (row, byte) in buffer.iter().enumerate() {
        if row != 1 {
            assert_eq!(*byte, 0xFF);
        }
    }
}

#[test]
fn set_led_every_address() {
    for led in 0..128u8 {
        let mut device = HT16K33::new();
        device.set_led(led, true).unwrap();
        let buffer = device.display_buffer();
        for other in 0..128u8 {
            assert_eq!(led_is_on(&buffer, other), other == led);
        }
        device.set_led(led, false).unwrap();
        assert_eq!(device.display_buffer(), vec![0u8; 16]);
    }
}

#[test]
fn set_led_rejects_address_past_last() {
    let mut device = HT16K33::new();
    assert_eq!(device.set_led(128, true), Err(HT16K33Error::InvalidLed));
    assert_eq!(device.set_led(255, true), Err(HT16K33Error::InvalidLed));
    assert_eq!(device.display_buffer(), vec![0u8; 16]);
}

#[test]
fn clear_zeroes_buffer() {
    let mut device = HT16K33::new();
    device.read_display(&[0x5A; 16]).unwrap();
    device.clear();
    assert_eq!(device.display_buffer(), vec![0u8; 16]);
}

#[test]
fn set_bar_places_red_and_green() {
    // (bar, red LED, green LED)
    let cases: [(u8, u8, u8); 6] = [
        (0, 0, 8),
        (3, 3, 11),
        (4, 16, 24),
        (11, 35, 43),
        (12, 4, 12),
        (23, 39, 47),
    ];
    for (bar, red, green) in cases.iter() {
        let mut device = HT16K33::new();
        device.set_bar(*bar, COLOR_YELLOW).unwrap();
        let buffer = device.display_buffer();
        for led in 0..128u8 {
            assert_eq!(led_is_on(&buffer, led), led == *red || led == *green, "bar {} led {}", bar, led);
        }
    }
}

#[test]
fn set_bar_color_masks() {
    let mut device = HT16K33::new();
    device.set_bar(5, COLOR_RED).unwrap();
    let buffer = device.display_buffer();
    assert!(led_is_on(&buffer, 17));
    assert!(!led_is_on(&buffer, 25));
    device.set_bar(5, COLOR_GREEN).unwrap();
    let buffer = device.display_buffer();
    assert!(!led_is_on(&buffer, 17));
    assert!(led_is_on(&buffer, 25));
    device.set_bar(5, COLOR_OFF).unwrap();
    assert_eq!(device.display_buffer(), vec![0u8; 16]);
}

#[test]
fn set_bar_round_trips_every_bar_and_color() {
    let colors = [Color::Off, Color::Green, Color::Red, Color::Yellow];
    for bar in 0..24u8 {
        for color in colors.iter() {
            let mut device = HT16K33::new();
            device.set_bar(bar, color.mask()).unwrap();
            let mut bargraph = led_bargraph::Bargraph::new(HT16K33::new());
            let decoded = bargraph.show(&device.display_buffer()).unwrap();
            for (other, decoded_color) in decoded.iter().enumerate() {
                if other == bar as usize {
                    assert_eq!(decoded_color, color);
                } else {
                    assert_eq!(*decoded_color, Color::Off);
                }
            }
        }
    }
}

#[test]
fn set_bar_lights_only_wired_leds() {
    let mut device = HT16K33::new();
    for bar in 0..24u8 {
        device.set_bar(bar, COLOR_YELLOW).unwrap();
    }
    let buffer = device.display_buffer();
    for led in 0..128u8 {
        assert_eq!(led_is_on(&buffer, led), led < WIRED_LEDS);
    }
}

#[test]
fn set_bar_rejects_bar_past_last() {
    let mut device = HT16K33::new();
    assert_eq!(device.set_bar(24, COLOR_RED), Err(HT16K33Error::InvalidBar));
    assert_eq!(device.display_buffer(), vec![0u8; 16]);
}

#[test]
fn set_bar_rejects_color_past_yellow() {
    let mut device = HT16K33::new();
    assert_eq!(device.set_bar(3, 4), Err(HT16K33Error::InvalidColor));
    assert_eq!(device.display_buffer(), vec![0u8; 16]);
}

#[test]
fn initialize_commands() {
    let device = HT16K33::new();
    assert_eq!(
        device.initialize(),
        vec![
            BusWrite::Command(0x21),
            BusWrite::Command(0x81),
            BusWrite::Command(0xEF)
        ]
    );
}

#[test]
fn set_blink_commands() {
    let device = HT16K33::new();
    assert_eq!(device.set_blink(BLINK_OFF), Ok(BusWrite::Command(0x81)));
    assert_eq!(device.set_blink(BLINK_2HZ), Ok(BusWrite::Command(0x83)));
    assert_eq!(device.set_blink(BLINK_1HZ), Ok(BusWrite::Command(0x85)));
    assert_eq!(device.set_blink(BLINK_HALFHZ), Ok(BusWrite::Command(0x87)));
}

#[test]
fn set_blink_rejects_other_rates() {
    let device = HT16K33::new();
    for rate in [1u8, 3, 5, 7, 8, 0x80, 255].iter() {
        assert_eq!(device.set_blink(*rate), Err(HT16K33Error::InvalidBlinkRate));
    }
}

#[test]
fn set_brightness_commands() {
    let device = HT16K33::new();
    for level in 0..=15u8 {
        assert_eq!(device.set_brightness(level), Ok(BusWrite::Command(0xE0 + level)));
    }
    assert_eq!(device.set_brightness(16), Err(HT16K33Error::InvalidBrightness));
    assert_eq!(device.set_brightness(255), Err(HT16K33Error::InvalidBrightness));
}

#[test]
fn write_display_writes_each_row() {
    let mut device = HT16K33::new();
    let readback: Vec<u8> = (0..16u8).map(|i| i * 3 + 1).collect();
    device.read_display(&readback).unwrap();
    let expected: Vec<BusWrite> = (0..16u8)
        .map(|row| BusWrite::Register(row, row * 3 + 1))
        .collect();
    assert_eq!(device.write_display(), expected);
}

#[test]
fn read_display_rejects_wrong_length() {
    let mut device = HT16K33::new();
    device.set_led(0, true).unwrap();
    assert_eq!(device.read_display(&[0u8; 17]), Err(HT16K33Error::InvalidBufferLength));
    assert_eq!(device.read_display(&[]), Err(HT16K33Error::InvalidBufferLength));
    let mut expected = vec![0u8; 16];
    expected[0] = 1;
    assert_eq!(device.display_buffer(), expected);
}

#[test]
fn color_masks() {
    assert_eq!(Color::Off.mask(), 0);
    assert_eq!(Color::Green.mask(), 1);
    assert_eq!(Color::Red.mask(), 2);
    assert_eq!(Color::Yellow.mask(), 3);
    assert!(Color::Yellow.is_red() && Color::Yellow.is_green());
    assert!(Color::Red.is_red() && !Color::Red.is_green());
    assert!(!Color::Green.is_red() && Color::Green.is_green());
    assert!(!Color::Off.is_red() && !Color::Off.is_green());
}
