use lightbox::easyopc::emit_bytes;
use lightbox::lightstrip::{
    encode_frame, hex_digit_byte, parse_color_at, ColorSet, Frame, Message, ParseColorError, Pixel, Strip,
    CHASE_DELAY_MS, N_LIGHTS, UNCHASE_DELAY_MS,
};

fn px(r: u8, g: u8, b: u8) -> Pixel {
    Pixel { r, g, b }
}

#[test]
fn from_str_reads_lower_and_upper_case() {
    assert_eq!(Pixel::from_str("#ff8000"), Ok(px(255, 128, 0)));
    assert_eq!(Pixel::from_str("#FF8000"), Ok(px(255, 128, 0)));
    assert_eq!(Pixel::from_str("#0a0B0c"), Ok(px(10, 11, 12)));
}

#[test]
fn from_str_skips_first_char_and_ignores_the_rest() {
    assert_eq!(Pixel::from_str("xAABBCC"), Ok(px(0xaa, 0xbb, 0xcc)));
    assert_eq!(Pixel::from_str("#123456789"), Ok(px(0x12, 0x34, 0x56)));
}

#[test]
fn from_str_accepts_a_plus_sign_per_component() {
    assert_eq!(Pixel::from_str("#+f+f+f"), Ok(px(15, 15, 15)));
    assert_eq!(Pixel::from_str("#+a00+1"), Ok(px(10, 0, 1)));
}

#[test]
fn from_str_rejects_non_hex_digits() {
    assert_eq!(Pixel::from_str("#gg0000"), Err(ParseColorError::InvalidDigit));
    assert_eq!(Pixel::from_str("#ff00zz"), Err(ParseColorError::InvalidDigit));
    assert_eq!(Pixel::from_str("#-10000"), Err(ParseColorError::InvalidDigit));
    assert_eq!(Pixel::from_str("# f0000"), Err(ParseColorError::InvalidDigit));
    assert_eq!(Pixel::from_str("#f+0000"), Err(ParseColorError::InvalidDigit));
}

#[test]
fn parse_color_at_reads_inside_a_text() {
    let text = b"name #102030 more";
    assert_eq!(parse_color_at(text, 5), Ok(px(0x10, 0x20, 0x30)));
    assert_eq!(parse_color_at(text, 0), Err(ParseColorError::InvalidDigit));
}

#[test]
fn default_pixel_is_off() {
    assert_eq!(Pixel::default(), px(0, 0, 0));
}

#[test]
fn new_strip_is_off() {
    let strip = Strip::new();
    assert_eq!(strip.picture(), &vec![px(0, 0, 0); N_LIGHTS]);
}

#[test]
fn chase_fills_then_switches_off_pixel_by_pixel() {
    let c = px(1, 2, 3);
    let mut strip = Strip::new();
    let frames = strip.frames_for(Message::Chase(c));
    assert_eq!(frames.len(), N_LIGHTS + 1);
    assert_eq!(frames[0], Frame { delay_ms: 0, pixels: vec![c; N_LIGHTS] });
    for (k, frame) in frames.iter().enumerate() {
        if k > 0 {
            assert_eq!(frame.delay_ms, CHASE_DELAY_MS);
        }
        for (j, p) in frame.pixels.iter().enumerate() {
            if j < k {
                assert_eq!(*p, px(0, 0, 0));
            } else {
                assert_eq!(*p, c);
            }
        }
    }
    assert_eq!(frames[N_LIGHTS].pixels, vec![px(0, 0, 0); N_LIGHTS]);
    assert_eq!(strip.picture(), &vec![px(0, 0, 0); N_LIGHTS]);
}

#[test]
fn unchase_paints_over_the_kept_picture() {
    let c = px(9, 8, 7);
    let d = px(1, 1, 1);
    let mut strip = Strip::new();
    strip.frames_for(Message::Unchase(d));
    assert_eq!(strip.picture(), &vec![d; N_LIGHTS]);
    let frames = strip.frames_for(Message::Unchase(c));
    assert_eq!(frames.len(), N_LIGHTS);
    assert_eq!(frames[0].delay_ms, UNCHASE_DELAY_MS);
    assert_eq!(frames[0].pixels[0], c);
    assert_eq!(frames[0].pixels[1], d);
    assert_eq!(frames[10].pixels[10], c);
    assert_eq!(frames[10].pixels[11], d);
    assert_eq!(frames[N_LIGHTS - 1].pixels, vec![c; N_LIGHTS]);
    assert_eq!(strip.picture(), &vec![c; N_LIGHTS]);
}

#[test]
fn color_set_clears_twice_then_repeats_colors() {
    let a = px(255, 0, 0);
    let b = px(0, 0, 255);
    let mut strip = Strip::new();
    strip.frames_for(Message::Unchase(px(5, 5, 5)));
    let frames = strip.frames_for(Message::ColorSet(ColorSet::new(vec![a, b])));
    assert_eq!(frames.len(), 3);
    assert_eq!(frames[0], Frame { delay_ms: 0, pixels: vec![px(0, 0, 0); N_LIGHTS] });
    assert_eq!(frames[1], Frame { delay_ms: 0, pixels: vec![px(0, 0, 0); N_LIGHTS] });
    for (j, p) in frames[2].pixels.iter().enumerate() {
        assert_eq!(*p, if j % 2 == 0 { a } else { b });
    }
    // A colour set leaves the kept picture alone.
    assert_eq!(strip.picture(), &vec![px(5, 5, 5); N_LIGHTS]);
}

#[test]
fn single_color_set_fills_the_strip() {
    let c = px(4, 5, 6);
    let mut strip = Strip::new();
    let frames = strip.frames_for(Message::ColorSet(ColorSet::new(vec![c])));
    assert_eq!(frames[2].pixels, vec![c; N_LIGHTS]);
}

#[test]
fn encode_frame_is_an_opc_set_pixels_message() {
    let bytes = encode_frame(&[px(1, 2, 3), px(4, 5, 6)]);
    assert_eq!(bytes, vec![0, 0, 0, 6, 1, 2, 3, 4, 5, 6]);
}

#[test]
fn encode_full_strip_frame_layout() {
    let pixels = vec![px(7, 8, 9); N_LIGHTS];
    let bytes = encode_frame(&pixels);
    assert_eq!(bytes.len(), 4 + 3 * N_LIGHTS);
    assert_eq!(&bytes[0..4], &[0, 0, 0, 192]);
    assert_eq!(&bytes[4..7], &[7, 8, 9]);
}

#[test]
fn encode_empty_frame() {
    assert_eq!(encode_frame(&[]), vec![0, 0, 0, 0]);
}

#[test]
fn emit_bytes_has_fixed_header() {
    assert_eq!(emit_bytes(&[px(1, 2, 3), px(4, 5, 6)]), vec![0, 0, 6, 0, 1, 2, 3, 4, 5, 6]);
    assert_eq!(emit_bytes(&[]), vec![0, 0, 6, 0]);
}

#[test]
fn hex_digits() {
    assert!(hex_digit_byte(b'0'));
    assert!(hex_digit_byte(b'f'));
    assert!(hex_digit_byte(b'F'));
    assert!(!hex_digit_byte(b'g'));
    assert!(!hex_digit_byte(b'+'));
}

#[test]
fn from_str_with_wide_chars() {
    assert_eq!(Pixel::from_str("#ffffffé"), Ok(px(255, 255, 255)));
    assert_eq!(Pixel::from_str("#éé0000"), Err(ParseColorError::InvalidDigit));
}

#[test]
fn color_set_keeps_its_colors() {
    let set = ColorSet::new(vec![px(1, 2, 3)]);
    assert_eq!(set.colors(), &vec![px(1, 2, 3)]);
}

#[test]
fn from_str_stops_at_the_first_bad_piece() {
    assert_eq!(Pixel::from_str("#gg"), Err(ParseColorError::InvalidDigit));
    assert_eq!(Pixel::from_str("#ffzz"), Err(ParseColorError::InvalidDigit));
    assert_eq!(Pixel::from_str("#ffeezz"), Err(ParseColorError::InvalidDigit));
}
