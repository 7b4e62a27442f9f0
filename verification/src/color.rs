use vstd::prelude::*;
use crate::chars::{decimal, hex_byte, push_decimal, push_hex_byte, push_str};
use crate::palette16::{sixteen_for, sixteen_of_256};

verus! {

/// How many colors a client can display.
#[derive(Debug, Copy, Clone, PartialEq, Eq, Structural, PartialOrd, Ord)]
pub enum ColorSupport {
    NoColor,
    Colors16,
    Colors256,
    TrueColor,
}

/// A 24-bit color.
#[derive(Debug, Copy, Clone, PartialEq, Eq, Structural)]
pub struct ColorTrue {
    pub r: u8,
    pub g: u8,
    pub b: u8,
}

/// An entry of the xterm 256-color palette.
#[derive(Debug, Copy, Clone, PartialEq, Eq, Structural)]
pub struct Color256(pub u8);

/// An entry of the 16 system colors.
#[derive(Debug, Copy, Clone, PartialEq, Eq, Structural)]
pub struct Color16(pub u8);

/// A color in one of the three depths a terminal may support.
#[allow(clippy::enum_variant_names)]
#[derive(Debug, Copy, Clone, PartialEq, Eq, Structural)]
pub enum Color {
    ColorTrue(ColorTrue),
    Color256(Color256),
    Color16(Color16),
}

/// The escape sequence that resets the terminal color.
pub open spec fn clear_color() -> Seq<char> {
    seq!['\x1b', '[', 'm']
}

pub fn push_clear_color(out: &mut Vec<char>)
    ensures
        final(out)@ == old(out)@ + clear_color(),
{
    out.push('\x1b');
    out.push('[');
    out.push('m');
}

// ---------------------------------------------------------------------------
// palette

/// The channel value of each step of the 6x6x6 color cube.
pub open spec fn cube_value(q: int) -> u8 {
    if q == 0 {
        0x00
    } else if q == 1 {
        0x5f
    } else if q == 2 {
        0x87
    } else if q == 3 {
        0xaf
    } else if q == 4 {
        0xd7
    } else {
        0xff
    }
}

/// The 16 system colors as 24-bit values.
pub open spec fn system_rgb(i: int) -> (u8, u8, u8) {
    if i == 0 {
        (0x00, 0x00, 0x00)
    } else if i == 1 {
        (0x80, 0x00, 0x00)
    } else if i == 2 {
        (0x00, 0x80, 0x00)
    } else if i == 3 {
        (0x80, 0x80, 0x00)
    } else if i == 4 {
        (0x00, 0x00, 0x80)
    } else if i == 5 {
        (0x80, 0x00, 0x80)
    } else if i == 6 {
        (0x00, 0x80, 0x80)
    } else if i == 7 {
        (0xc0, 0xc0, 0xc0)
    } else if i == 8 {
        (0x80, 0x80, 0x80)
    } else if i == 9 {
        (0xff, 0x00, 0x00)
    } else if i == 10 {
        (0x00, 0xff, 0x00)
    } else if i == 11 {
        (0xff, 0xff, 0x00)
    } else if i == 12 {
        (0x00, 0x00, 0xff)
    } else if i == 13 {
        (0xff, 0x00, 0xff)
    } else if i == 14 {
        (0x00, 0xff, 0xff)
    } else {
        (0xff, 0xff, 0xff)
    }
}

/// The 24-bit value of each entry of the xterm 256-color palette: 16 system colors,
/// a 6x6x6 cube indexed `16 + 36 * r + 6 * g + b`, and 24 grays `8 + 10 * k`.
pub open spec fn palette_rgb(i: u8) -> ColorTrue {
    if i < 16 {
        let (r, g, b) = system_rgb(i as int);
        ColorTrue { r, g, b }
    } else if i < 232 {
        let k = i - 16;
        ColorTrue { r: cube_value(k / 36), g: cube_value((k / 6) % 6), b: cube_value(k % 6) }
    } else {
        let v = (8 + 10 * (i - 232)) as u8;
        ColorTrue { r: v, g: v, b: v }
    }
}

fn cube_value_of(q: u8) -> (v: u8)
    requires
        q < 6,
    ensures
        v == cube_value(q as int),
{
    if q == 0 {
        0x00
    } else if q == 1 {
        0x5f
    } else if q == 2 {
        0x87
    } else if q == 3 {
        0xaf
    } else if q == 4 {
        0xd7
    } else {
        0xff
    }
}

fn system_color(i: u8) -> (c: ColorTrue)
    requires
        i < 16,
    ensures
        (c.r, c.g, c.b) == system_rgb(i as int),
{
    let (r, g, b) = if i == 0 {
        (0x00, 0x00, 0x00)
    } else if i == 1 {
        (0x80, 0x00, 0x00)
    } else if i == 2 {
        (0x00, 0x80, 0x00)
    } else if i == 3 {
        (0x80, 0x80, 0x00)
    } else if i == 4 {
        (0x00, 0x00, 0x80)
    } else if i == 5 {
        (0x80, 0x00, 0x80)
    } else if i == 6 {
        (0x00, 0x80, 0x80)
    } else if i == 7 {
        (0xc0, 0xc0, 0xc0)
    } else if i == 8 {
        (0x80, 0x80, 0x80)
    } else if i == 9 {
        (0xff, 0x00, 0x00)
    } else if i == 10 {
        (0x00, 0xff, 0x00)
    } else if i == 11 {
        (0xff, 0xff, 0x00)
    } else if i == 12 {
        (0x00, 0x00, 0xff)
    } else if i == 13 {
        (0xff, 0x00, 0xff)
    } else if i == 14 {
        (0x00, 0xff, 0xff)
    } else {
        (0xff, 0xff, 0xff)
    };
    ColorTrue { r, g, b }
}

// ---------------------------------------------------------------------------
// true color to 256 colors

/// The nearest color cube step of one channel value.
pub open spec fn cube_index(v: u8) -> u8 {
    if v < 48 {
        0
    } else if v < 114 {
        1
    } else {
        ((v - 35) / 40) as u8
    }
}

/// The palette index of a color cube entry: the cube starts at 16 and is laid out by
/// red, then green, then blue step.
pub open spec fn cube_code(r: u8, g: u8, b: u8) -> u8 {
    (16 + 36 * r + 6 * g + b) as u8
}

pub open spec fn gray_average(c: ColorTrue) -> int {
    (c.r + c.g + c.b) / 3
}

pub open spec fn distance_squared(a: ColorTrue, b: ColorTrue) -> int {
    (a.r - b.r) * (a.r - b.r) + (a.g - b.g) * (a.g - b.g) + (a.b - b.b) * (a.b - b.b)
}

/// The step of the gray ramp (232 to 255) nearest a gray average.
pub open spec fn gray_step(avg: int) -> int {
    if avg > 238 {
        23
    } else if avg < 3 {
        0
    } else {
        (avg - 3) / 10
    }
}

/// The 256-color approximation of a true color: an exact cube color maps to its cube
/// entry; otherwise the nearer of the nearest cube color and the nearest gray is taken,
/// the cube color where both are as near.
pub open spec fn approx_256(c: ColorTrue) -> u8 {
    let (qr, qg, qb) = (cube_index(c.r), cube_index(c.g), cube_index(c.b));
    let (cr, cg, cb) = (cube_value(qr as int), cube_value(qg as int), cube_value(qb as int));
    if c.r == cr && c.g == cg && c.b == cb {
        cube_code(qr, qg, qb)
    } else {
        let avg = gray_average(c);
        let gray_index = gray_step(avg);
        let gv = (8 + 10 * gray_index) as u8;
        let cube_color = ColorTrue { r: cr, g: cg, b: cb };
        let gray = ColorTrue { r: gv, g: gv, b: gv };
        if distance_squared(c, gray) < distance_squared(c, cube_color) {
            (232 + gray_index) as u8
        } else {
            cube_code(qr, qg, qb)
        }
    }
}

/// The nearest color cube step of one channel value.
pub fn color_to_cube_index(v: u8) -> (q: u8)
    ensures
        q == cube_index(v),
        q < 6,
{
    if v < 48 {
        0
    } else if v < 114 {
        1
    } else {
        (v - 35) / 40
    }
}

impl ColorTrue {
    pub fn new(r: u8, g: u8, b: u8) -> (c: Self)
        ensures
            c == (ColorTrue { r, g, b }),
    {
        ColorTrue { r, g, b }
    }

    /// Creates a gray from a single channel value.
    pub fn new_gray(v: u8) -> (c: Self)
        ensures
            c == (ColorTrue { r: v, g: v, b: v }),
    {
        ColorTrue::new(v, v, v)
    }

    /// The sum of the squared channel differences between two colors.
    pub fn distance_squared(&self, color: ColorTrue) -> (d: u32)
        ensures
            d == distance_squared(*self, color),
    {
        let dr: i32 = self.r as i32 - color.r as i32;
        let dg: i32 = self.g as i32 - color.g as i32;
        let db: i32 = self.b as i32 - color.b as i32;
        assert(0 <= dr * dr <= 65025) by (nonlinear_arith)
            requires
                -255 <= dr <= 255,
        ;
        assert(0 <= dg * dg <= 65025) by (nonlinear_arith)
            requires
                -255 <= dg <= 255,
        ;
        assert(0 <= db * db <= 65025) by (nonlinear_arith)
            requires
                -255 <= db <= 255,
        ;
        (dr * dr + dg * dg + db * db) as u32
    }

    /// The average of the channels, as a gray value.
    pub fn gray_average(&self) -> (v: u8)
        ensures
            v == gray_average(*self),
    {
        ((self.r as u16 + self.g as u16 + self.b as u16) / 3) as u8
    }

    /// The nearest color cube steps of the red, green and blue channels.
    pub fn six_cube_indices(&self) -> (q: (u8, u8, u8))
        ensures
            q == (cube_index(self.r), cube_index(self.g), cube_index(self.b)),
            q.0 < 6 && q.1 < 6 && q.2 < 6,
    {
        (color_to_cube_index(self.r), color_to_cube_index(self.g), color_to_cube_index(self.b))
    }

    /// The color of a 256-color palette entry.
    pub fn from_256(color: Color256) -> (c: Self)
        ensures
            c == palette_rgb(color.0),
    {
        let i = color.0;
        if i < 16 {
            system_color(i)
        } else if i < 232 {
            let k = i - 16;
            ColorTrue::new(cube_value_of(k / 36), cube_value_of((k / 6) % 6), cube_value_of(k % 6))
        } else {
            ColorTrue::new_gray(8 + 10 * (i - 232))
        }
    }

    /// The color of a 24-bit value `0xRRGGBB`; higher bits are ignored.
    pub fn from_u32(c: u32) -> (t: Self)
        ensures
            t.r == (c / 0x10000) % 0x100,
            t.g == (c / 0x100) % 0x100,
            t.b == c % 0x100,
    {
        let r = ((c >> 16) & 0xff) as u8;
        let g = ((c >> 8) & 0xff) as u8;
        let b = (c & 0xff) as u8;
        assert(((c >> 16) & 0xff) == (c / 0x10000) % 0x100) by (bit_vector);
        assert(((c >> 8) & 0xff) == (c / 0x100) % 0x100) by (bit_vector);
        assert((c & 0xff) == c % 0x100) by (bit_vector);
        ColorTrue::new(r, g, b)
    }

    /// The six lowercase hexadecimal digits of the color.
    pub fn as_hex(&self) -> (s: String)
        ensures
            s@ == hex_code(*self),
    {
        let mut out: Vec<char> = Vec::new();
        self.push_hex(&mut out);
        crate::chars::string_from_chars(&out)
    }

    pub fn push_hex(&self, out: &mut Vec<char>)
        ensures
            final(out)@ == old(out)@ + hex_code(*self),
    {
        push_hex_byte(out, self.r);
        push_hex_byte(out, self.g);
        push_hex_byte(out, self.b);
    }

    /// The terminal escape sequence that selects this color.
    pub fn push_escape(&self, out: &mut Vec<char>)
        ensures
            final(out)@ == old(out)@ + true_escape(*self),
    {
        push_str(out, "\x1b[38;2;");
        proof {
            reveal_strlit("\x1b[38;2;");
        }
        push_decimal(out, self.r);
        out.push(';');
        push_decimal(out, self.g);
        out.push(';');
        push_decimal(out, self.b);
        out.push('m');
    }
}

/// The six lowercase hexadecimal digits of a color.
pub open spec fn hex_code(c: ColorTrue) -> Seq<char> {
    hex_byte(c.r) + hex_byte(c.g) + hex_byte(c.b)
}

pub open spec fn true_escape(c: ColorTrue) -> Seq<char> {
    seq!['\x1b', '[', '3', '8', ';', '2', ';'] + decimal(c.r as nat) + seq![';'] + decimal(
        c.g as nat,
    ) + seq![';'] + decimal(c.b as nat) + seq!['m']
}

pub open spec fn escape_256(c: Color256) -> Seq<char> {
    seq!['\x1b', '[', '3', '8', ';', '5', ';'] + decimal(c.0 as nat) + seq!['m']
}

/// The SGR code of a system color: 30..37 for the first eight, 90..97 for the bright ones.
pub open spec fn sgr_16(c: Color16) -> nat {
    if c.0 < 8 {
        (c.0 + 30) as nat
    } else {
        (c.0 - 8 + 90) as nat
    }
}

pub open spec fn escape_16(c: Color16) -> Seq<char> {
    seq!['\x1b', '['] + decimal(sgr_16(c)) + seq!['m']
}

/// The terminal escape sequence that selects a color.
pub open spec fn color_escape(c: Color) -> Seq<char> {
    match c {
        Color::ColorTrue(t) => true_escape(t),
        Color::Color256(c) => escape_256(c),
        Color::Color16(c) => escape_16(c),
    }
}

impl Color256 {
    /// A palette entry by index.
    pub fn new(color: u8) -> (c: Self)
        ensures
            c == Color256(color),
    {
        Color256(color)
    }

    /// The palette entry of a color cube position.
    pub fn new_cube(r: u8, g: u8, b: u8) -> (c: Self)
        requires
            r < 6 && g < 6 && b < 6,
        ensures
            c == Color256(cube_code(r, g, b)),
    {
        Color256(16 + (36 * r) + (6 * g) + b)
    }

    /// The nearest palette entry of a true color.
    pub fn from_true(c: ColorTrue) -> (r: Self)
        ensures
            r == Color256(approx_256(c)),
    {
        let (qr, qg, qb) = c.six_cube_indices();
        let (cr, cg, cb) = (cube_value_of(qr), cube_value_of(qg), cube_value_of(qb));
        if c.r == cr && c.g == cg && c.b == cb {
            return Color256::new_cube(qr, qg, qb);
        }
        let gray_average = c.gray_average();
        let gray_index: u8 = if gray_average > 238 {
            23
        } else if gray_average < 3 {
            0
        } else {
            (gray_average - 3) / 10
        };
        let gray = ColorTrue::new_gray(8 + (10 * gray_index));
        let cube_color = ColorTrue::new(cr, cg, cb);
        let color_distance = c.distance_squared(cube_color);
        let gray_distance = c.distance_squared(gray);
        if gray_distance < color_distance {
            Color256::new(232 + gray_index)
        } else {
            Color256::new_cube(qr, qg, qb)
        }
    }

    pub fn push_escape(&self, out: &mut Vec<char>)
        ensures
            final(out)@ == old(out)@ + escape_256(*self),
    {
        push_str(out, "\x1b[38;5;");
        proof {
            reveal_strlit("\x1b[38;5;");
        }
        push_decimal(out, self.0);
        out.push('m');
    }
}

impl Color16 {
    /// The system color that stands in for a 256-color palette entry.
    pub fn from_256(c: Color256) -> (r: Self)
        ensures
            r == Color16(sixteen_of_256(c.0)),
            r.0 < 16,
    {
        Color16(sixteen_for(c.0))
    }

    pub fn push_escape(&self, out: &mut Vec<char>)
        requires
            self.0 < 16,
        ensures
            final(out)@ == old(out)@ + escape_16(*self),
    {
        out.push('\x1b');
        out.push('[');
        let code: u8 = if self.0 < 8 {
            self.0 + 30
        } else {
            self.0 - 8 + 90
        };
        push_decimal(out, code);
        out.push('m');
    }
}

/// Whether a color value is well formed: system colors lie below 16.
pub open spec fn color_wf(c: Color) -> bool {
    match c {
        Color::Color16(c) => c.0 < 16,
        _ => true,
    }
}

impl Color {
    pub fn push_escape(&self, out: &mut Vec<char>)
        requires
            color_wf(*self),
        ensures
            final(out)@ == old(out)@ + color_escape(*self),
    {
        match self {
            Color::ColorTrue(c) => c.push_escape(out),
            Color::Color256(c) => c.push_escape(out),
            Color::Color16(c) => c.push_escape(out),
        }
    }

    /// The terminal escape sequence that selects this color.
    pub fn to_string(&self) -> (s: String)
        requires
            color_wf(*self),
        ensures
            s@ == color_escape(*self),
    {
        let mut out: Vec<char> = Vec::new();
        self.push_escape(&mut out);
        crate::chars::string_from_chars(&out)
    }
}

/// The color a client with the given support shows for a true color, if any.
pub open spec fn supported_true(support: ColorSupport, c: ColorTrue) -> Option<Color> {
    match support {
        ColorSupport::NoColor => None,
        ColorSupport::Colors16 => Some(
            Color::Color16(Color16(sixteen_of_256(approx_256(c)))),
        ),
        ColorSupport::Colors256 => Some(Color::Color256(Color256(approx_256(c)))),
        ColorSupport::TrueColor => Some(Color::ColorTrue(c)),
    }
}

/// The color a client with the given support shows for a palette entry, if any.
pub open spec fn supported_256(support: ColorSupport, c: Color256) -> Option<Color> {
    match support {
        ColorSupport::NoColor => None,
        ColorSupport::Colors16 => Some(Color::Color16(Color16(sixteen_of_256(c.0)))),
        ColorSupport::Colors256 | ColorSupport::TrueColor => Some(Color::Color256(c)),
    }
}

impl ColorSupport {
    /// Whether any color can be shown.
    pub fn supports_color(&self) -> (b: bool)
        ensures
            b == (*self != ColorSupport::NoColor),
    {
        match self {
            ColorSupport::NoColor => false,
            ColorSupport::Colors16 | ColorSupport::Colors256 | ColorSupport::TrueColor => true,
        }
    }

    /// The color shown for a true color.
    pub fn supported_from_true(&self, color: ColorTrue) -> (r: Option<Color>)
        ensures
            r == supported_true(*self, color),
            r matches Some(c) ==> color_wf(c),
    {
        match self {
            ColorSupport::NoColor => None,
            ColorSupport::Colors16 => Some(Color::Color16(Color16::from_256(Color256::from_true(color)))),
            ColorSupport::Colors256 => Some(Color::Color256(Color256::from_true(color))),
            ColorSupport::TrueColor => Some(Color::ColorTrue(color)),
        }
    }

    /// The color shown for a palette entry.
    pub fn supported_from_256(&self, color: Color256) -> (r: Option<Color>)
        ensures
            r == supported_256(*self, color),
            r matches Some(c) ==> color_wf(c),
    {
        match self {
            ColorSupport::NoColor => None,
            ColorSupport::Colors16 => Some(Color::Color16(Color16::from_256(color))),
            ColorSupport::Colors256 | ColorSupport::TrueColor => Some(Color::Color256(color)),
        }
    }
}

proof fn hex_digit_round_trip(d: int)
    requires
        0 <= d < 16,
    ensures
        crate::chars::is_hex(crate::chars::hex_char(d)),
        crate::chars::hex_value(crate::chars::hex_char(d)) == d,
        crate::chars::hex_char(d) == '0' || ('0' <= crate::chars::hex_char(d) <= '9') || ('a' <= crate::chars::hex_char(d) <= 'f'),
{
}

/// The hex form of a color is six lowercase hex digits, and a `|#...|` tag made of it
/// names the same color.
pub proof fn hex_round_trip(c: ColorTrue)
    ensures
        hex_code(c).len() == 6,
        forall|k: int| 0 <= k < 6 ==> #[trigger] crate::chars::is_hex(hex_code(c)[k])
            && !('A' <= hex_code(c)[k] <= 'F'),
        crate::tags::tag_at(seq!['|', '#'] + hex_code(c) + seq!['|'], 0) == Some((crate::tags::TagKind::TrueColor, 9int)),
        crate::markup::true_value(seq!['|', '#'] + hex_code(c) + seq!['|'], 0) == c,
{
    hex_digit_round_trip(c.r as int / 16);
    hex_digit_round_trip(c.r as int % 16);
    hex_digit_round_trip(c.g as int / 16);
    hex_digit_round_trip(c.g as int % 16);
    hex_digit_round_trip(c.b as int / 16);
    hex_digit_round_trip(c.b as int % 16);
    let t = seq!['|', '#'] + hex_code(c) + seq!['|'];
    assert(t[2] == hex_code(c)[0] && t[3] == hex_code(c)[1] && t[4] == hex_code(c)[2]);
    assert(t[5] == hex_code(c)[3] && t[6] == hex_code(c)[4] && t[7] == hex_code(c)[5]);
    assert(t[1] == '#' && t[8] == '|' && t.len() == 9);
    assert(crate::tags::run_end(t, 1, false) == 1);
    assert forall|k: int| 2 <= k < 8 implies #[trigger] crate::chars::is_hex(t[k]) by {
        assert(t[k] == hex_code(c)[k - 2]);
    }
}

} // verus!

verus! {

/// Whether a channel of a 24-bit color is lit: 0 red, 1 green, 2 blue.
pub open spec fn channel(c: ColorTrue, k: int) -> u8 {
    if k == 0 {
        c.r
    } else if k == 1 {
        c.g
    } else {
        c.b
    }
}

/// The 16-color stand-in of a 256-color entry keeps its hue: it lights no channel that the
/// entry leaves dark, and a channel that outshines both others in the entry stays lit in
/// the stand-in.
pub proof fn sixteen_keeps_the_hue(c: u8, k: int)
    requires
        0 <= k < 3,
    ensures
        channel(palette_rgb(c), k) == 0 ==> channel(palette_rgb(sixteen_of_256(c)), k) == 0,
        channel(palette_rgb(c), k) > channel(palette_rgb(c), (k + 1) % 3)
            && channel(palette_rgb(c), k) > channel(palette_rgb(c), (k + 2) % 3)
            ==> channel(palette_rgb(sixteen_of_256(c)), k) > 0,
{
}

/// The 16-color stand-in of a 256-color entry keeps its brightness, channel by channel: a
/// channel the stand-in lights at half (0x80) is at most 0xaf in the entry, and one it
/// lights in full (0xff) is at least 0xbc there.
pub proof fn sixteen_keeps_the_brightness(c: u8, k: int)
    requires
        0 <= k < 3,
    ensures
        channel(palette_rgb(sixteen_of_256(c)), k) == 0x80 ==> 0x44 <= channel(palette_rgb(c), k) <= 0xaf,
        channel(palette_rgb(sixteen_of_256(c)), k) == 0xff ==> channel(palette_rgb(c), k) >= 0xbc,
{
}

/// Every entry of the 256-color palette past the 16 system colors approximates to itself:
/// a cube color or a gray, turned into its 24-bit value and back, is the same entry.
pub proof fn palette_entries_approximate_to_themselves(i: u8)
    requires
        16 <= i,
    ensures
        approx_256(palette_rgb(i)) == i,
{
    let c = palette_rgb(i);
    if i < 232 {
        let k = i - 16;
        let (r, g, b) = (k / 36, (k / 6) % 6, k % 6);
        assert(0 <= r < 6 && 0 <= g < 6 && 0 <= b < 6);
        assert(c == ColorTrue { r: cube_value(r), g: cube_value(g), b: cube_value(b) });
        assert(cube_index(cube_value(r as int)) == r);
        assert(cube_index(cube_value(g as int)) == g);
        assert(cube_index(cube_value(b as int)) == b);
        assert(16 + 36 * r + 6 * g + b == i);
        assert(cube_code(r as u8, g as u8, b as u8) == i);
    } else {
        let k = i - 232;
        let v = (8 + 10 * k) as u8;
        assert(c == ColorTrue { r: v, g: v, b: v });
        assert(gray_average(c) == v);
        assert(gray_step(v as int) == k);
        let q = cube_index(v);
        assert(cube_value(q as int) != v);
        let cv = cube_value(q as int);
        let t = (v - cv) * (v - cv);
        assert(t > 0) by (nonlinear_arith)
            requires
                cv != v,
                t == (v - cv) * (v - cv),
        ;
        assert(distance_squared(c, ColorTrue { r: cv, g: cv, b: cv }) == t + t + t);
        assert(distance_squared(c, c) == 0);
    }
}

} // verus!
