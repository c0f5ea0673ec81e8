use bytes::BytesMut;
use tokio_io::codec::Encoder;
use vstd::prelude::*;
use vstd::string::StringSliceAdditionalSpecFns;
use vstd::utf8::is_continuation_byte;

verus! {

/// Number of pixels on the strip.
pub const N_LIGHTS: usize = 64;

/// One RGB pixel.
#[derive(Clone, Copy, Debug, PartialEq, Eq, Structural)]
pub struct Pixel {
    pub r: u8,
    pub g: u8,
    pub b: u8,
}

/// The pixel that is switched off.
pub open spec fn off_pixel() -> Pixel {
    Pixel { r: 0, g: 0, b: 0 }
}

impl Default for Pixel {
    fn default() -> (p: Pixel)
        ensures
            p == off_pixel(),
    {
        Pixel { r: 0, g: 0, b: 0 }
    }
}

/// The error of a colour code whose digits are not hexadecimal.
#[derive(Clone, Copy, Debug, PartialEq, Eq, Structural)]
pub enum ParseColorError {
    InvalidDigit,
}

/// `0-9`, `a-f` or `A-F`.
pub open spec fn is_hex_digit(b: u8) -> bool {
    (0x30 <= b <= 0x39) || (0x41 <= b <= 0x46) || (0x61 <= b <= 0x66)
}

pub open spec fn hex_digit_value(b: u8) -> int {
    if 0x30 <= b <= 0x39 {
        b - 0x30
    } else if 0x41 <= b <= 0x46 {
        b - 0x41 + 10
    } else {
        b - 0x61 + 10
    }
}

/// The value of a two-byte text read as a base-16 `u8`: an optional `+`
/// followed by hexadecimal digits, nothing else.
pub open spec fn hex_pair(b0: u8, b1: u8) -> Option<u8> {
    if b0 == 0x2b {
        if is_hex_digit(b1) {
            Some(hex_digit_value(b1) as u8)
        } else {
            None
        }
    } else if is_hex_digit(b0) && is_hex_digit(b1) {
        Some((16 * hex_digit_value(b0) + hex_digit_value(b1)) as u8)
    } else {
        None
    }
}

/// The colour written at `start` as `#rrggbb`: the byte at `start` is not
/// looked at, the three byte pairs after it are the red, green and blue
/// components.
pub open spec fn color_at(s: Seq<u8>, start: int) -> Result<Pixel, ParseColorError> {
    match (
        hex_pair(s[start + 1], s[start + 2]),
        hex_pair(s[start + 3], s[start + 4]),
        hex_pair(s[start + 5], s[start + 6]),
    ) {
        (Some(r), Some(g), Some(b)) => Ok(Pixel { r, g, b }),
        _ => Err(ParseColorError::InvalidDigit),
    }
}

/// The text can be cut at byte offset `i`: it falls on a character
/// boundary (the end of the text counts).
pub open spec fn boundary_at(s: Seq<u8>, i: int) -> bool {
    i == s.len() || (0 <= i < s.len() && !is_continuation_byte(s[i]))
}

/// The bytes `a..b` of the text can be taken as a piece of it.
pub open spec fn cuttable(s: Seq<u8>, a: int, b: int) -> bool {
    b <= s.len() && boundary_at(s, a) && boundary_at(s, b)
}

/// The pieces of a colour code can be cut out as they are read: bytes 1..3,
/// then, if they read as a number, bytes 3..5, then, if those do too, bytes
/// 5..7.
pub open spec fn cuttable_color_code(s: Seq<u8>) -> bool {
    &&& cuttable(s, 1, 3)
    &&& hex_pair(s[1], s[2]) is Some ==> {
        &&& cuttable(s, 3, 5)
        &&& hex_pair(s[3], s[4]) is Some ==> cuttable(s, 5, 7)
    }
}

/// A colour code read piece by piece: the first piece that is not a number
/// ends the reading with an error.
pub open spec fn color_code(s: Seq<u8>) -> Result<Pixel, ParseColorError> {
    match hex_pair(s[1], s[2]) {
        None => Err(ParseColorError::InvalidDigit),
        Some(r) => match hex_pair(s[3], s[4]) {
            None => Err(ParseColorError::InvalidDigit),
            Some(g) => match hex_pair(s[5], s[6]) {
                None => Err(ParseColorError::InvalidDigit),
                Some(b) => Ok(Pixel { r, g, b }),
            },
        },
    }
}

fn hex_digit(b: u8) -> (v: Option<u8>)
    ensures
        v == (if is_hex_digit(b) { Some(hex_digit_value(b) as u8) } else { None::<u8> }),
{
    if 0x30 <= b && b <= 0x39 {
        Some(b - 0x30)
    } else if 0x41 <= b && b <= 0x46 {
        Some(b - 0x41 + 10)
    } else if 0x61 <= b && b <= 0x66 {
        Some(b - 0x61 + 10)
    } else {
        None
    }
}

/// Whether the byte is a hexadecimal digit.
pub fn hex_digit_byte(b: u8) -> (yes: bool)
    ensures
        yes == is_hex_digit(b),
{
    hex_digit(b).is_some()
}

fn parse_hex_pair(b0: u8, b1: u8) -> (v: Result<u8, ParseColorError>)
    ensures
        v == (match hex_pair(b0, b1) {
            Some(x) => Ok::<u8, ParseColorError>(x),
            None => Err(ParseColorError::InvalidDigit),
        }),
{
    if b0 == 0x2b {
        match hex_digit(b1) {
            Some(d) => Ok(d),
            None => Err(ParseColorError::InvalidDigit),
        }
    } else {
        match (hex_digit(b0), hex_digit(b1)) {
            (Some(hi), Some(lo)) => Ok(hi * 16 + lo),
            _ => Err(ParseColorError::InvalidDigit),
        }
    }
}

/// Reads the colour written as `#rrggbb` at byte offset `start`.
pub fn parse_color_at(bytes: &[u8], start: usize) -> (res: Result<Pixel, ParseColorError>)
    requires
        start + 7 <= bytes@.len(),
    ensures
        res == color_at(bytes@, start as int),
{
    // The offsets stay below the slice's length, itself a `usize`.
    let len: usize = bytes.len();
    assert(start + 7 <= len);
    let r = parse_hex_pair(bytes[start + 1], bytes[start + 2])?;
    let g = parse_hex_pair(bytes[start + 3], bytes[start + 4])?;
    let b = parse_hex_pair(bytes[start + 5], bytes[start + 6])?;
    Ok(Pixel { r, g, b })
}

impl Pixel {
    /// Parses a colour code of the form `#rRgGbB`; the first character is
    /// skipped, whatever it is, and anything after the seventh byte is
    /// ignored.
    pub fn from_str(hex_code: &str) -> (res: Result<Pixel, ParseColorError>)
        requires
            cuttable_color_code(hex_code.spec_bytes()),
        ensures
            res == color_code(hex_code.spec_bytes()),
            hex_code.spec_bytes().len() >= 7 ==> res == color_at(hex_code.spec_bytes(), 0),
    {
        let bytes = hex_code.as_bytes();
        let r = parse_hex_pair(bytes[1], bytes[2])?;
        let g = parse_hex_pair(bytes[3], bytes[4])?;
        let b = parse_hex_pair(bytes[5], bytes[6])?;
        Ok(Pixel { r, g, b })
    }
}


/// The colours that a colour-set message spreads over the strip.
#[derive(Debug, PartialEq, Eq)]
pub struct ColorSet {
    colors: Vec<Pixel>,
}

impl View for ColorSet {
    type V = Seq<Pixel>;

    closed spec fn view(&self) -> Seq<Pixel> {
        self.colors@
    }
}

impl ColorSet {
    pub fn new(colors: Vec<Pixel>) -> (set: ColorSet)
        ensures
            set@ == colors@,
    {
        ColorSet { colors }
    }

    pub fn colors(&self) -> (colors: &Vec<Pixel>)
        ensures
            colors@ == self@,
    {
        &self.colors
    }
}

/// What the light strip is asked to show.
#[derive(Debug, PartialEq, Eq)]
pub enum Message {
    /// Clear the strip twice, then repeat the colours along it.
    ColorSet(ColorSet),
    /// Fill the strip with the colour, then switch it off pixel by pixel.
    Chase(Pixel),
    /// Paint the colour onto the strip pixel by pixel.
    Unchase(Pixel),
}

pub enum MessageView {
    ColorSet(Seq<Pixel>),
    Chase(Pixel),
    Unchase(Pixel),
}

impl View for Message {
    type V = MessageView;

    open spec fn view(&self) -> MessageView {
        match self {
            Message::ColorSet(set) => MessageView::ColorSet(set@),
            Message::Chase(c) => MessageView::Chase(*c),
            Message::Unchase(c) => MessageView::Unchase(*c),
        }
    }
}

/// A message that the strip can show: a colour set names at least one colour.
pub open spec fn showable(m: MessageView) -> bool {
    m matches MessageView::ColorSet(colors) ==> colors.len() > 0
}

/// One picture of the whole strip, shown after waiting `delay_ms`.
#[derive(Debug, PartialEq, Eq)]
pub struct Frame {
    pub delay_ms: u64,
    pub pixels: Vec<Pixel>,
}

pub struct FrameView {
    pub delay_ms: u64,
    pub pixels: Seq<Pixel>,
}

impl View for Frame {
    type V = FrameView;

    open spec fn view(&self) -> FrameView {
        FrameView { delay_ms: self.delay_ms, pixels: self.pixels@ }
    }
}

pub open spec fn frames_view(frames: Seq<Frame>) -> Seq<FrameView> {
    frames.map_values(|f: Frame| f@)
}

/// Wait before each step of a chase.
pub const CHASE_DELAY_MS: u64 = 10;

/// Wait before each step of an unchase.
pub const UNCHASE_DELAY_MS: u64 = 16;

/// The whole strip in one colour.
pub open spec fn filled(c: Pixel) -> Seq<Pixel> {
    Seq::new(N_LIGHTS as nat, |j: int| c)
}

/// The colours repeated along the strip, the first one on the first pixel.
pub open spec fn alternating(colors: Seq<Pixel>) -> Seq<Pixel> {
    Seq::new(N_LIGHTS as nat, |j: int| colors[j % (colors.len() as int)])
}

/// Step `k` of a chase: the first `k` pixels are off, the others show the colour.
pub open spec fn chase_frame(c: Pixel, k: int) -> Seq<Pixel> {
    Seq::new(N_LIGHTS as nat, |j: int| if j < k { off_pixel() } else { c })
}

/// Step `k` of an unchase over the picture `prev`: pixels `0..=k` show the colour.
pub open spec fn unchase_frame(prev: Seq<Pixel>, c: Pixel, k: int) -> Seq<Pixel> {
    Seq::new(N_LIGHTS as nat, |j: int| if j <= k { c } else { prev[j] })
}

/// The frames that showing `m` emits, the strip's kept picture being `prev`.
pub open spec fn frames_for_message(prev: Seq<Pixel>, m: MessageView) -> Seq<FrameView> {
    match m {
        MessageView::ColorSet(colors) => seq![
            FrameView { delay_ms: 0, pixels: filled(off_pixel()) },
            FrameView { delay_ms: 0, pixels: filled(off_pixel()) },
            FrameView { delay_ms: 0, pixels: alternating(colors) },
        ],
        MessageView::Chase(c) => Seq::new(
            N_LIGHTS as nat + 1,
            |k: int|
                FrameView {
                    delay_ms: if k == 0 { 0 } else { CHASE_DELAY_MS },
                    pixels: chase_frame(c, k),
                },
        ),
        MessageView::Unchase(c) => Seq::new(
            N_LIGHTS as nat,
            |k: int| FrameView { delay_ms: UNCHASE_DELAY_MS, pixels: unchase_frame(prev, c, k) },
        ),
    }
}

/// The picture the strip keeps after showing `m`: a colour set leaves it
/// as it was.
pub open spec fn picture_after(prev: Seq<Pixel>, m: MessageView) -> Seq<Pixel> {
    match m {
        MessageView::ColorSet(_) => prev,
        MessageView::Chase(_) => filled(off_pixel()),
        MessageView::Unchase(c) => filled(c),
    }
}

fn fill(c: Pixel) -> (v: Vec<Pixel>)
    ensures
        v@ == filled(c),
{
    let mut v: Vec<Pixel> = Vec::new();
    for i in 0..N_LIGHTS
        invariant
            v@ == Seq::new(i as nat, |j: int| c),
    {
        v.push(c);
    }
    v
}

fn copy_pixels(v: &Vec<Pixel>) -> (w: Vec<Pixel>)
    ensures
        w@ == v@,
{
    let mut w: Vec<Pixel> = Vec::new();
    for i in 0..v.len()
        invariant
            w@ == v@.take(i as int),
    {
        w.push(v[i]);
    }
    w
}

/// The colours repeated along the strip.
pub fn alternating_pixels(colors: &Vec<Pixel>) -> (v: Vec<Pixel>)
    requires
        colors@.len() > 0,
    ensures
        v@ == alternating(colors@),
{
    let n_colors = colors.len();
    let mut v: Vec<Pixel> = Vec::new();
    for i in 0..N_LIGHTS
        invariant
            n_colors == colors@.len(),
            n_colors > 0,
            v@ == Seq::new(i as nat, |j: int| colors@[j % (n_colors as int)]),
    {
        v.push(colors[i % n_colors]);
    }
    v
}

/// The light strip's kept picture: the last frame of a chase or unchase.
#[derive(Debug)]
pub struct Strip {
    buffer: Vec<Pixel>,
}

impl View for Strip {
    type V = Seq<Pixel>;

    closed spec fn view(&self) -> Seq<Pixel> {
        self.buffer@
    }
}

impl Strip {
    #[verifier::type_invariant]
    spec fn full_length(self) -> bool {
        self.buffer@.len() == N_LIGHTS
    }

    pub fn new() -> (strip: Strip)
        ensures
            strip@ == filled(off_pixel()),
    {
        Strip { buffer: fill(Pixel::default()) }
    }

    pub fn picture(&self) -> (p: &Vec<Pixel>)
        ensures
            p@ == self@,
            p@.len() == N_LIGHTS,
    {
        proof {
            use_type_invariant(self);
        }
        &self.buffer
    }

    /// The frames to emit, in order, for `message`; the kept picture moves on.
    pub fn frames_for(&mut self, message: Message) -> (frames: Vec<Frame>)
        requires
            showable(message@),
        ensures
            frames_view(frames@) == frames_for_message(old(self)@, message@),
            final(self)@ == picture_after(old(self)@, message@),
    {
        proof {
            use_type_invariant(&*self);
        }
        let mut frames: Vec<Frame> = Vec::new();
        match message {
            Message::ColorSet(set) => {
                frames.push(Frame { delay_ms: 0, pixels: fill(Pixel::default()) });
                frames.push(Frame { delay_ms: 0, pixels: fill(Pixel::default()) });
                frames.push(Frame { delay_ms: 0, pixels: alternating_pixels(set.colors()) });
                assert(frames_view(frames@) =~= frames_for_message(old(self)@, message@));
            },
            Message::Chase(color) => {
                let mut buf = fill(color);
                assert(buf@ =~= chase_frame(color, 0));
                frames.push(Frame { delay_ms: 0, pixels: copy_pixels(&buf) });
                for i in 0..N_LIGHTS
                    invariant
                        buf@ == chase_frame(color, i as int),
                        frames@.len() == i + 1,
                        forall|k: int|
                            0 <= k <= i ==> #[trigger] frames@[k]@ == (FrameView {
                                delay_ms: if k == 0 { 0 } else { CHASE_DELAY_MS },
                                pixels: chase_frame(color, k),
                            }),
                {
                    buf.set(i, Pixel::default());
                    assert(buf@ =~= chase_frame(color, i + 1));
                    frames.push(Frame { delay_ms: CHASE_DELAY_MS, pixels: copy_pixels(&buf) });
                }
                assert(frames_view(frames@) =~= frames_for_message(old(self)@, message@));
                assert(buf@ =~= filled(off_pixel()));
                self.buffer = buf;
            },
            Message::Unchase(color) => {
                let ghost prev = self.buffer@;
                let mut buf = copy_pixels(&self.buffer);
                assert(buf@ =~= unchase_frame(prev, color, -1));
                for i in 0..N_LIGHTS
                    invariant
                        prev.len() == N_LIGHTS,
                        buf@ == unchase_frame(prev, color, i - 1),
                        frames@.len() == i,
                        forall|k: int|
                            0 <= k < i ==> #[trigger] frames@[k]@ == (FrameView {
                                delay_ms: UNCHASE_DELAY_MS,
                                pixels: unchase_frame(prev, color, k),
                            }),
                {
                    buf.set(i, color);
                    assert(buf@ =~= unchase_frame(prev, color, i as int));
                    frames.push(Frame { delay_ms: UNCHASE_DELAY_MS, pixels: copy_pixels(&buf) });
                }
                assert(frames_view(frames@) =~= frames_for_message(old(self)@, message@));
                assert(buf@ =~= filled(color));
                self.buffer = buf;
            },
        }
        frames
    }
}

/// The red, green or blue component of a pixel (`k` = 0, 1, 2).
pub open spec fn component(p: Pixel, k: int) -> u8 {
    if k == 0 {
        p.r
    } else if k == 1 {
        p.g
    } else {
        p.b
    }
}

/// The pixels' components in order: red, green, blue of the first pixel, then
/// of the second, and so on.
pub open spec fn pixel_bytes(pixels: Seq<Pixel>) -> Seq<u8> {
    Seq::new(3 * pixels.len(), |i: int| component(pixels[i / 3], i % 3))
}

/// The triples' bytes in order.
pub open spec fn triple_bytes(triples: Seq<[u8; 3]>) -> Seq<u8> {
    Seq::new(3 * triples.len(), |i: int| triples[i / 3]@[i % 3])
}

/// An Open Pixel Control "set pixel colours" message (command 0) on
/// `channel`: the channel, the command, the data length in two bytes
/// big-endian (taken modulo 2^16), then the data.
pub open spec fn opc_set_pixels_message(channel: u8, data: Seq<u8>) -> Seq<u8> {
    seq![channel, 0u8, ((data.len() / 256) % 256) as u8, (data.len() % 256) as u8] + data
}

/// Encodes `opc::Message::from_pixels(channel, pixels)` with `opc::OpcCodec`.
/// The codec's `encode` (opc 0.3.0) reserves room for the whole message,
/// writes the channel, the command 0, the data length `3 * n` as a
/// big-endian `u16`, then the three bytes of each pixel, and returns `Ok`.
#[verifier::external_body]
fn opc_encode_pixels(channel: u8, pixels: &[[u8; 3]]) -> (bytes: Option<Vec<u8>>)
    requires
        3 * pixels@.len() + 4 <= usize::MAX,
    ensures
        bytes is Some,
        bytes->0@ == opc_set_pixels_message(channel, triple_bytes(pixels@)),
{
    let message = opc::Message::from_pixels(channel, pixels);
    let mut buffer = BytesMut::new();
    let mut codec = opc::OpcCodec;
    codec.encode(message, &mut buffer).ok().map(|()| buffer.to_vec())
}

/// The bytes that the strip's controller is sent for one frame: an Open
/// Pixel Control message on channel 0 that sets the pixels.
pub fn encode_frame(pixels: &[Pixel]) -> (bytes: Vec<u8>)
    requires
        3 * pixels@.len() + 4 <= usize::MAX,
    ensures
        bytes@ == opc_set_pixels_message(0, pixel_bytes(pixels@)),
{
    let mut triples: Vec<[u8; 3]> = Vec::new();
    for i in 0..pixels.len()
        invariant
            triples@.len() == i,
            forall|k: int|
                0 <= k < i ==> #[trigger] triples@[k]@ == seq![pixels@[k].r, pixels@[k].g, pixels@[k].b],
    {
        let p = pixels[i];
        triples.push([p.r, p.g, p.b]);
    }
    assert(triple_bytes(triples@) =~= pixel_bytes(pixels@)) by {
        assert forall|i: int| 0 <= i < 3 * pixels@.len() implies #[trigger] triple_bytes(triples@)[i]
            == pixel_bytes(pixels@)[i] by {
            let k = i / 3;
            assert(0 <= k < pixels@.len());
            assert(triples@[k]@ == seq![pixels@[k].r, pixels@[k].g, pixels@[k].b]);
        }
    }
    match opc_encode_pixels(0, triples.as_slice()) {
        Some(bytes) => bytes,
        None => {
            proof {
                assert(false);
            }
            Vec::new()
        },
    }
}

/// A colour set of one colour fills the whole strip with it.
pub proof fn lemma_single_color_fills(c: Pixel)
    ensures
        alternating(seq![c]) == filled(c),
{
    assert(alternating(seq![c]) =~= filled(c));
}

/// The colours of a colour set repeat along the strip: each pixel shows the
/// same colour as the pixel as many places further on as there are colours.
pub proof fn lemma_alternating_repeats(colors: Seq<Pixel>, j: int)
    requires
        colors.len() > 0,
        0 <= j,
        j + colors.len() < N_LIGHTS,
    ensures
        alternating(colors)[j] == alternating(colors)[j + colors.len()],
        alternating(colors)[j] == colors[j % (colors.len() as int)],
{
    vstd::arithmetic::div_mod::lemma_mod_add_multiples_vanish(j, colors.len() as int);
}

/// A chase sends one frame more than the strip has pixels, an unchase one
/// frame per pixel, a colour set three frames.
pub proof fn lemma_frame_counts(prev: Seq<Pixel>, m: MessageView)
    ensures
        frames_for_message(prev, m).len() == match m {
            MessageView::ColorSet(_) => 3,
            MessageView::Chase(_) => N_LIGHTS + 1,
            MessageView::Unchase(_) => N_LIGHTS as int,
        },
{
}

/// The last frame of a chase or an unchase is the picture the strip keeps,
/// and a chase starts from the whole strip in its colour.
pub proof fn lemma_last_frame_is_kept(prev: Seq<Pixel>, m: MessageView)
    requires
        prev.len() == N_LIGHTS,
        !(m is ColorSet),
    ensures
        frames_for_message(prev, m).last().pixels == picture_after(prev, m),
        m matches MessageView::Chase(c) ==> frames_for_message(prev, m)[0].pixels == filled(c),
{
    match m {
        MessageView::Chase(c) => {
            assert(chase_frame(c, N_LIGHTS as int) =~= filled(off_pixel()));
            assert(chase_frame(c, 0) =~= filled(c));
        },
        MessageView::Unchase(c) => {
            assert(unchase_frame(prev, c, N_LIGHTS - 1) =~= filled(c));
        },
        MessageView::ColorSet(_) => {},
    }
}

/// A frame message is four header bytes and three bytes per pixel; the
/// header names channel 0, command 0, and the data length big-endian.
pub proof fn lemma_frame_layout(pixels: Seq<Pixel>)
    requires
        3 * pixels.len() < 0x10000,
    ensures
        opc_set_pixels_message(0, pixel_bytes(pixels)).len() == 4 + 3 * pixels.len(),
        opc_set_pixels_message(0, pixel_bytes(pixels))[0] == 0,
        opc_set_pixels_message(0, pixel_bytes(pixels))[1] == 0,
        opc_set_pixels_message(0, pixel_bytes(pixels))[2] as int * 256
            + opc_set_pixels_message(0, pixel_bytes(pixels))[3] as int == 3 * pixels.len(),
        forall|i: int|
            0 <= i < pixels.len() ==> opc_set_pixels_message(0, pixel_bytes(pixels))[4 + 3 * i]
                == #[trigger] pixels[i].r && opc_set_pixels_message(0, pixel_bytes(pixels))[5 + 3
                * i] == pixels[i].g && opc_set_pixels_message(0, pixel_bytes(pixels))[6 + 3 * i]
                == pixels[i].b,
{
    let n = 3 * pixels.len();
    assert((n / 256) % 256 == n / 256);
    assert forall|i: int| 0 <= i < pixels.len() implies opc_set_pixels_message(
        0,
        pixel_bytes(pixels),
    )[4 + 3 * i] == #[trigger] pixels[i].r && opc_set_pixels_message(0, pixel_bytes(pixels))[5
        + 3 * i] == pixels[i].g && opc_set_pixels_message(0, pixel_bytes(pixels))[6 + 3 * i]
        == pixels[i].b by {
        assert((3 * i) / 3 == i);
        assert((3 * i + 1) / 3 == i);
        assert((3 * i + 2) / 3 == i);
        assert((3 * i) % 3 == 0);
        assert((3 * i + 1) % 3 == 1);
        assert((3 * i + 2) % 3 == 2);
    }
}

/// Two hexadecimal digits (`0-9` = 48-57, `a-f` = 97-102, `A-F` = 65-70)
/// read as the number `16 * high + low`, upper and lower case alike; `+`
/// and one digit read as that digit; any other byte in either place makes
/// the pair unreadable.
pub proof fn lemma_hex_pair_reads_digits(b0: u8, b1: u8)
    ensures
        ({
            let digit = |b: u8| (48 <= b <= 57) || (65 <= b <= 70) || (97 <= b <= 102);
            let value = |b: u8|
                if b <= 57 {
                    b - 48
                } else if b <= 70 {
                    b - 55
                } else {
                    b - 87
                };
            &&& digit(b0) && digit(b1) ==> hex_pair(b0, b1) == Some((16 * value(b0) + value(b1)) as u8)
            &&& b0 == 43 && digit(b1) ==> hex_pair(b0, b1) == Some(value(b1) as u8)
            &&& !digit(b1) ==> hex_pair(b0, b1) is None
            &&& b0 != 43 && !digit(b0) ==> hex_pair(b0, b1) is None
        }),
{
}

} // verus!
