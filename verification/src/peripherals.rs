//! The machine's peripherals: the 64x32 monochrome framebuffer with
//! XOR drawing and collision detection, and the 16-key hex keypad.

use vstd::prelude::*;

verus! {

/// Bit mask selecting column 0 of a row: the most significant bit.
pub const FIRST_BIT: u64 = 1u64 << 63;

/// True iff the pixel at column `x` of `row` is lit. Column 0 is the
/// most significant bit of the row.
pub open spec fn pixel(row: u64, x: int) -> bool {
    row & (FIRST_BIT >> (x as u64)) != 0
}

/// The 64-bit mask a sprite byte contributes to a row when placed with
/// its leftmost pixel at column `x`, built from the low `j` pixels of
/// the byte. Pixel `k` of the byte (bit `7 - k`) lands on column
/// `(x + k) % 64`, so bytes drawn near the right edge wrap around to
/// the low columns of the same row.
pub open spec fn row_mask_upto(byte: u8, x: u8, j: int) -> u64
    decreases j,
{
    if j <= 0 {
        0u64
    } else if byte & (0x80u8 >> ((j - 1) as u8)) != 0 {
        row_mask_upto(byte, x, j - 1) | (FIRST_BIT >> (((x as u64) + ((j - 1) as u64)) % 64))
    } else {
        row_mask_upto(byte, x, j - 1)
    }
}

/// The full 8-pixel mask of one sprite byte placed at column `x`.
pub open spec fn row_mask(byte: u8, x: u8) -> u64 {
    row_mask_upto(byte, x, 8)
}

proof fn lemma_row_mask_upto_pixel(byte: u8, x: u8, j: int, c: int)
    requires
        0 <= c < 64,
        0 <= j <= 8,
    ensures
        pixel(row_mask_upto(byte, x, j), c) <==> exists|k: int|
            0 <= k < j && c == ((x as int) + k) % 64 && byte & #[trigger] (0x80u8 >> (k as u8))
                != 0,
    decreases j,
{
    let cu = c as u64;
    if j == 0 {
        assert(0u64 & (FIRST_BIT >> cu) == 0) by (bit_vector);
    } else {
        lemma_row_mask_upto_pixel(byte, x, j - 1, c);
        let m = row_mask_upto(byte, x, j - 1);
        let d = ((x as u64) + ((j - 1) as u64)) % 64;
        let du = d as u64;
        if byte & (0x80u8 >> ((j - 1) as u8)) != 0 {
            assert(((m | (FIRST_BIT >> du)) & (FIRST_BIT >> cu) != 0) == ((m & (FIRST_BIT >> cu)
                != 0) || cu == du)) by (bit_vector)
                requires
                    du < 64,
                    cu < 64,
            ;
            assert(FIRST_BIT >> du == FIRST_BIT >> d);
            if pixel(row_mask_upto(byte, x, j), c) {
                if !pixel(m, c) {
                    assert(c == ((x as int) + (j - 1)) % 64 && byte & (0x80u8 >> ((j - 1) as u8))
                        != 0);
                }
            }
            if exists|k: int|
                0 <= k < j && c == ((x as int) + k) % 64 && byte & #[trigger] (0x80u8 >> (
                k as u8)) != 0 {
                let k = choose|k: int|
                    0 <= k < j && c == ((x as int) + k) % 64 && byte & #[trigger] (0x80u8 >> (
                    k as u8)) != 0;
                if k < j - 1 {
                    assert(pixel(m, c));
                }
            }
        }
    }
}

/// Where each sprite pixel lands: pixel `k` of a sprite byte (counting
/// from the most significant bit, the leftmost pixel) maps to column
/// `(x + k) % 64` of the row mask, and no other column is lit.
pub proof fn lemma_row_mask_pixel(byte: u8, x: u8, c: int)
    requires
        0 <= c < 64,
    ensures
        pixel(row_mask(byte, x), c) <==> exists|k: int|
            0 <= k < 8 && c == ((x as int) + k) % 64 && byte & #[trigger] (0x80u8 >> (k as u8))
                != 0,
{
    lemma_row_mask_upto_pixel(byte, x, 8, c);
}

/// Drawing composes rows by XOR: in `a ^ b` a pixel is lit exactly
/// when it differs between `a` and `b`. Together with
/// `lemma_row_mask_pixel` this gives `draw_rows` its pixel-by-pixel
/// reading: each sprite pixel flips the screen pixel it lands on.
pub proof fn lemma_xor_pixel(a: u64, b: u64, c: int)
    requires
        0 <= c < 64,
    ensures
        pixel(a ^ b, c) == (pixel(a, c) != pixel(b, c)),
{
    let cu = c as u64;
    assert((((a ^ b) & (FIRST_BIT >> cu)) != 0) == (((a & (FIRST_BIT >> cu)) != 0) != ((b
        & (FIRST_BIT >> cu)) != 0))) by (bit_vector)
        requires
            cu < 64,
    ;
}

/// The rows of a framebuffer after XOR-drawing the first `k` bytes of
/// `sprite` at position (`x`, `y`). Byte `dy` lands on row
/// `(y + dy) % 32`: sprites wrap around vertically.
pub open spec fn draw_rows(rows: Seq<u64>, x: u8, y: u8, sprite: Seq<u8>, k: int) -> Seq<u64>
    decreases k,
{
    if k <= 0 {
        rows
    } else {
        let prev = draw_rows(rows, x, y, sprite, k - 1);
        let r = ((y as int) + k - 1) % 32;
        prev.update(r, prev[r] ^ row_mask(sprite[k - 1], x))
    }
}

/// Whether XOR-drawing the first `k` bytes of `sprite` at (`x`, `y`)
/// turns any lit pixel off: byte `k - 1` collides when its mask shares
/// a bit with the row it lands on, as left by the earlier bytes.
pub open spec fn draw_collides(rows: Seq<u64>, x: u8, y: u8, sprite: Seq<u8>, k: int) -> bool
    decreases k,
{
    if k <= 0 {
        false
    } else {
        let prev = draw_rows(rows, x, y, sprite, k - 1);
        let r = ((y as int) + k - 1) % 32;
        let m = row_mask(sprite[k - 1], x);
        draw_collides(rows, x, y, sprite, k - 1) || ((prev[r] ^ m) & m != m)
    }
}

/// XOR drawing is self-inverse: drawing one sprite byte twice at the
/// same position restores the rows exactly. The second draw collides
/// unless every pixel of the byte was already lit before the first
/// draw (in which case the first draw turned them all off and the
/// second merely relights them).
pub proof fn lemma_draw_byte_twice_cancels(rows: Seq<u64>, x: u8, y: u8, sprite: Seq<u8>)
    requires
        rows.len() == 32,
        sprite.len() == 1,
    ensures
        draw_rows(draw_rows(rows, x, y, sprite, 1), x, y, sprite, 1) == rows,
        draw_collides(draw_rows(rows, x, y, sprite, 1), x, y, sprite, 1) == (rows[(y as int) % 32]
            & row_mask(sprite[0], x) != row_mask(sprite[0], x)),
{
    reveal_with_fuel(draw_rows, 3);
    reveal_with_fuel(draw_collides, 3);
    let m = row_mask(sprite[0], x);
    let r = (y as int) % 32;
    let a = rows[r];
    assert((a ^ m) ^ m == a) by (bit_vector);
    assert(draw_rows(rows, x, y, sprite, 1) == rows.update(r, a ^ m));
    assert(draw_rows(draw_rows(rows, x, y, sprite, 1), x, y, sprite, 1) =~= rows);
}

/// The 64x32 monochrome display: 32 rows, each a 64-bit mask whose most
/// significant bit is the leftmost column.
#[derive(Copy, Clone, Debug)]
pub struct Framebuffer {
    framebuffer: [u64; 32],
}

impl View for Framebuffer {
    type V = Seq<u64>;

    closed spec fn view(&self) -> Seq<u64> {
        self.framebuffer@
    }
}

/// Computes the 64-bit row mask of one sprite byte placed at column `x`
/// (wrapping past column 63 back to column 0).
fn compute_row_mask(byte: u8, x: u8) -> (m: u64)
    ensures
        m == row_mask(byte, x),
{
    let mut m: u64 = 0;
    let mut j: u8 = 0;
    while j < 8
        invariant
            j <= 8,
            m == row_mask_upto(byte, x, j as int),
        decreases 8 - j,
    {
        if byte & (0x80u8 >> j) != 0 {
            m = m | (FIRST_BIT >> ((x as u64 + j as u64) % 64));
        }
        j = j + 1;
    }
    m
}

impl Framebuffer {
    /// A blank screen: every pixel off.
    pub fn new() -> (fb: Framebuffer)
        ensures
            fb@.len() == 32,
            forall|r: int| 0 <= r < 32 ==> fb@[r] == 0u64,
    {
        Framebuffer { framebuffer: [0u64; 32] }
    }

    /// The pixel at column `x`, row `y`.
    pub fn get(&self, x: u8, y: u8) -> (lit: bool)
        requires
            x < 64,
            y < 32,
        ensures
            lit == pixel(self@[y as int], x as int),
    {
        self.framebuffer[y as usize] & (FIRST_BIT >> (x as u64)) != 0
    }

    /// XOR-draws `sprite` with its top-left pixel at (`x`, `y`), wrapping
    /// horizontally past column 63 and vertically past row 31. Returns
    /// true iff the draw turned some lit pixel off.
    pub fn draw(&mut self, coords: (u8, u8), sprite: &[u8]) -> (collision: bool)
        ensures
            final(self)@ == draw_rows(old(self)@, coords.0, coords.1, sprite@, sprite@.len() as int),
            collision == draw_collides(old(self)@, coords.0, coords.1, sprite@, sprite@.len() as int),
    {
        let (x, y) = coords;
        let mut collision = false;
        let mut dy: usize = 0;
        let mut row: usize = (y % 32) as usize;
        while dy < sprite.len()
            invariant
                dy <= sprite@.len(),
                row == ((y as int) + dy as int) % 32,
                self@ == draw_rows(old(self)@, x, y, sprite@, dy as int),
                collision == draw_collides(old(self)@, x, y, sprite@, dy as int),
            decreases sprite@.len() - dy,
        {
            let byte = sprite[dy];
            let m = compute_row_mask(byte, x);
            let new_row = self.framebuffer[row] ^ m;
            self.framebuffer[row] = new_row;
            if new_row & m != m {
                collision = true;
            }
            proof {
                vstd::arithmetic::div_mod::lemma_mod_adds(y as int + dy as int, 1, 32);
            }
            row = if row == 31 { 0 } else { row + 1 };
            dy = dy + 1;
        }
        collision
    }

    /// Turns every pixel off.
    pub fn clear(&mut self)
        ensures
            final(self)@.len() == 32,
            forall|r: int| 0 <= r < 32 ==> final(self)@[r] == 0u64,
    {
        let mut r: usize = 0;
        while r < 32
            invariant
                r <= 32,
                self@.len() == 32,
                forall|k: int| 0 <= k < r ==> self@[k] == 0u64,
            decreases 32 - r,
        {
            self.framebuffer[r] = 0;
            r = r + 1;
        }
    }

    /// The 32 rows, each wrapped as a bit cursor starting at column 0,
    /// for a renderer to walk pixel by pixel.
    pub fn rows(&self) -> (rows: [Row; 32])
        ensures
            forall|r: int|
                0 <= r < 32 ==> #[trigger] rows@[r].row == self@[r] && rows@[r].index == 0,
    {
        let mut rows: [Row; 32] = [Row { row: 0, index: 0 };32];
        let mut r: usize = 0;
        while r < 32
            invariant
                r <= 32,
                forall|k: int|
                    0 <= k < r ==> #[trigger] rows@[k].row == self@[k] && rows@[k].index == 0,
        decreases 32 - r,
        {
            rows[r] = Row { row: self.framebuffer[r], index: 0 };
            r = r + 1;
        }
        rows
    }
}

/// A cursor over the 64 pixels of one framebuffer row, leftmost first.
/// It yields exactly 64 booleans and then stops.
#[derive(Copy, Clone, Debug)]
pub struct Row {
    /// The row bits being walked.
    pub row: u64,
    /// The column the cursor stands on next.
    pub index: u8,
}

impl Row {
    /// The next pixel, or `None` once all 64 columns have been yielded.
    pub fn next(&mut self) -> (bit: Option<bool>)
        ensures
            final(self).row == old(self).row,
            old(self).index >= 64 ==> bit is None && final(self).index == old(self).index,
            old(self).index < 64 ==> bit == Some(pixel(old(self).row, old(self).index as int))
                && final(self).index == old(self).index + 1,
    {
        if self.index >= 64 {
            return None;
        }
        let bit = self.row & (FIRST_BIT >> (self.index as u64)) != 0;
        self.index = self.index + 1;
        Some(bit)
    }
}

impl From<u64> for Row {
    /// A cursor over `row` starting at column 0.
    fn from(row: u64) -> (r: Row) {
        Row { row, index: 0 }
    }
}

impl vstd::std_specs::convert::FromSpecImpl<u64> for Row {
    open spec fn obeys_from_spec() -> bool {
        true
    }

    open spec fn from_spec(row: u64) -> Row {
        Row { row, index: 0 }
    }
}

/// The 16 key flags, written in bulk by the host before each cycle and
/// read by the interpreter.
#[derive(Copy, Clone, Debug)]
pub struct Keypad {
    pub keys: [bool; 16],
}

/// The lowest pressed key index at or above `k`, if any.
pub open spec fn first_pressed_from(keys: Seq<bool>, k: int) -> Option<u8>
    decreases 16 - k,
{
    if k < 0 || k >= 16 {
        None
    } else if keys[k] {
        Some(k as u8)
    } else {
        first_pressed_from(keys, k + 1)
    }
}

impl View for Keypad {
    type V = Seq<bool>;

    closed spec fn view(&self) -> Seq<bool> {
        self.keys@
    }
}

impl Keypad {
    /// A keypad with every key up.
    pub fn new() -> (kp: Keypad)
        ensures
            kp@.len() == 16,
            forall|k: int| 0 <= k < 16 ==> !kp@[k],
    {
        Keypad { keys: [false;16] }
    }

    /// Presses or releases one key.
    pub fn set_key(&mut self, key: u8, pressed: bool)
        requires
            key < 16,
        ensures
            final(self)@ == old(self)@.update(key as int, pressed),
    {
        self.keys[key as usize] = pressed;
    }

    /// Whether one key is down.
    pub fn key(&self, key: u8) -> (pressed: bool)
        requires
            key < 16,
        ensures
            pressed == self@[key as int],
    {
        self.keys[key as usize]
    }

    /// The lowest-indexed pressed key, or `None` when no key is down.
    pub fn first_pressed_key(&self) -> (key: Option<u8>)
        ensures
            key == first_pressed_from(self@, 0),
            key is None <==> (forall|k: int| 0 <= k < 16 ==> !self@[k]),
            key matches Some(i) ==> i < 16 && self@[i as int] && (forall|k: int|
                0 <= k < i ==> !self@[k]),
    {
        let mut k: usize = 0;
        while k < 16
            invariant
                k <= 16,
                forall|j: int| 0 <= j < k ==> !self@[j],
                first_pressed_from(self@, 0) == first_pressed_from(self@, k as int),
            decreases 16 - k,
        {
            if self.keys[k] {
                return Some(k as u8);
            }
            k = k + 1;
        }
        None
    }
}

} // verus!
