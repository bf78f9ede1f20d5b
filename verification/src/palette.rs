//! Indexed colour palettes: canonical grayscale shades, palette values,
//! validation of indexed images, recolouring and palette expansion.

use vstd::prelude::*;
use crate::text::{push_decimal, push_str, decimal, str_eq, string_from_str};
use crate::image::DecodedImage;

verus! {

/// Supported indexed-palette sizes.
///
/// Each variant maps to a fixed colour count used by canonical shade
/// generation and palette validation.
#[derive(Debug, Clone, Copy, PartialEq, Eq, Hash, PartialOrd, Ord, Structural)]
pub enum PaletteSize {
    Pal4,
    Pal8,
    Pal16,
    Pal32,
    Pal64,
    Pal256,
}

impl PaletteSize {
    /// The number of colours of a palette of this size.
    pub open spec fn count(self) -> nat {
        match self {
            PaletteSize::Pal4 => 4,
            PaletteSize::Pal8 => 8,
            PaletteSize::Pal16 => 16,
            PaletteSize::Pal32 => 32,
            PaletteSize::Pal64 => 64,
            PaletteSize::Pal256 => 256,
        }
    }

    /// The size whose colour count is `n`, if there is one.
    pub open spec fn of_count(n: int) -> Option<PaletteSize> {
        if n == 4 {
            Some(PaletteSize::Pal4)
        } else if n == 8 {
            Some(PaletteSize::Pal8)
        } else if n == 16 {
            Some(PaletteSize::Pal16)
        } else if n == 32 {
            Some(PaletteSize::Pal32)
        } else if n == 64 {
            Some(PaletteSize::Pal64)
        } else if n == 256 {
            Some(PaletteSize::Pal256)
        } else {
            None
        }
    }

    /// The variant's name as `{:?}` writes it.
    pub open spec fn debug_name(self) -> Seq<char> {
        match self {
            PaletteSize::Pal4 => "Pal4"@,
            PaletteSize::Pal8 => "Pal8"@,
            PaletteSize::Pal16 => "Pal16"@,
            PaletteSize::Pal32 => "Pal32"@,
            PaletteSize::Pal64 => "Pal64"@,
            PaletteSize::Pal256 => "Pal256"@,
        }
    }

    /// The colour count in decimal, as the size is displayed.
    pub fn to_string(self) -> (text: String)
        ensures
            text@ == decimal(self.count()),
    {
        let mut text = String::new();
        push_decimal(&mut text, self.color_count() as u64);
        text
    }

    pub fn color_count(self) -> (n: usize)
        ensures
            n == self.count(),
    {
        match self {
            PaletteSize::Pal4 => 4,
            PaletteSize::Pal8 => 8,
            PaletteSize::Pal16 => 16,
            PaletteSize::Pal32 => 32,
            PaletteSize::Pal64 => 64,
            PaletteSize::Pal256 => 256,
        }
    }

    /// Compute the canonical grayscale shades for this palette size.
    ///
    /// Shade `i` = `i * 255 / (N - 1)`, producing evenly spaced gray values
    /// from black to white. For `Pal4` this yields `[0x00, 0x55, 0xAA, 0xFF]`.
    pub fn canonical_shades(self) -> (shades: Vec<[u8; 3]>)
        ensures
            shades@.len() == self.count(),
            forall|i: int| 0 <= i < self.count() ==>
                #[trigger] shades@[i]@ == seq![shade(i, self.count() as int) as u8; 3],
    {
        let n = self.color_count();
        let mut shades: Vec<[u8; 3]> = Vec::new();
        let mut i: usize = 0;
        while i < n
            invariant
                n == self.count(),
                i <= n,
                shades@.len() == i,
                forall|j: int| 0 <= j < i ==>
                    #[trigger] shades@[j]@ == seq![shade(j, n as int) as u8; 3],
            decreases n - i,
        {
            proof {
                lemma_shade_in_range(i as int, n as int);
            }
            let v = (i * 255 / (n - 1)) as u8;
            let rgb = [v, v, v];
            assert(rgb@ =~= seq![shade(i as int, n as int) as u8; 3]);
            shades.push(rgb);
            i = i + 1;
        }
        shades
    }

    /// The size with the given colour count; any other count is refused.
    pub fn try_from_count(value: u16) -> (r: Result<PaletteSize, String>)
        ensures
            r is Ok <==> PaletteSize::of_count(value as int) is Some,
            r matches Ok(size) ==> PaletteSize::of_count(value as int) == Some(size),
            r matches Err(msg) ==> msg@ == invalid_size_message(value as nat),
    {
        match value {
            4 => Ok(PaletteSize::Pal4),
            8 => Ok(PaletteSize::Pal8),
            16 => Ok(PaletteSize::Pal16),
            32 => Ok(PaletteSize::Pal32),
            64 => Ok(PaletteSize::Pal64),
            256 => Ok(PaletteSize::Pal256),
            _ => {
                let mut msg = String::new();
                push_str(&mut msg, "invalid palette size ");
                push_decimal(&mut msg, value as u64);
                push_str(&mut msg, ": expected 4, 8, 16, 32, 64, or 256");
                Err(msg)
            },
        }
    }
}

/// The message given for a colour count that no palette size has.
pub open spec fn invalid_size_message(value: nat) -> Seq<char> {
    "invalid palette size "@ + decimal(value) + ": expected 4, 8, 16, 32, 64, or 256"@
}

/// Canonical gray value `i` of a palette with `n` colours.
pub open spec fn shade(i: int, n: int) -> int {
    i * 255 / (n - 1)
}

pub proof fn lemma_shade_in_range(i: int, n: int)
    requires
        0 <= i < n,
        2 <= n,
    ensures
        0 <= shade(i, n) <= 255,
        i == n - 1 ==> shade(i, n) == 255,
        i == 0 ==> shade(i, n) == 0,
{
    assert(0 <= i * 255 <= (n - 1) * 255) by (nonlinear_arith)
        requires 0 <= i < n;
    vstd::arithmetic::div_mod::lemma_div_is_ordered(i * 255, (n - 1) * 255, n - 1);
    vstd::arithmetic::div_mod::lemma_div_multiples_vanish(255, n - 1);
    assert((n - 1) * 255 == 255 * (n - 1)) by (nonlinear_arith);
    vstd::arithmetic::div_mod::lemma_div_pos_is_pos(i * 255, n - 1);
    if i == 0 {
        assert(i * 255 == 0);
    }
}

/// Canonical shades grow strictly with their index, so each gray value
/// names at most one palette index.
pub proof fn lemma_shade_strictly_increasing(i: int, j: int, n: int)
    requires
        0 <= i < j < n,
        2 <= n <= 256,
    ensures
        shade(i, n) < shade(j, n),
{
    let d = n - 1;
    assert(j * 255 >= i * 255 + 255) by (nonlinear_arith)
        requires i < j;
    vstd::arithmetic::div_mod::lemma_div_is_ordered(i * 255 + d, j * 255, d);
    vstd::arithmetic::div_mod::lemma_div_plus_one(i * 255, d);
    assert(d + i * 255 == i * 255 + d);
}

impl TryFrom<u16> for PaletteSize {
    type Error = String;

    fn try_from(value: u16) -> (r: Result<Self, Self::Error>)
        ensures
            r is Ok <==> PaletteSize::of_count(value as int) is Some,
            r matches Ok(size) ==> PaletteSize::of_count(value as int) == Some(size),
            r matches Err(msg) ==> msg@ == invalid_size_message(value as nat),
    {
        PaletteSize::try_from_count(value)
    }
}

impl From<PaletteSize> for u16 {
    fn from(size: PaletteSize) -> (n: u16) {
        size.color_count() as u16
    }
}

impl vstd::std_specs::convert::FromSpecImpl<PaletteSize> for u16 {
    open spec fn obeys_from_spec() -> bool {
        true
    }

    open spec fn from_spec(size: PaletteSize) -> u16 {
        size.count() as u16
    }
}

impl vstd::std_specs::convert::TryFromSpecImpl<u16> for PaletteSize {
    open spec fn obeys_try_from_spec() -> bool {
        false
    }

    open spec fn try_from_spec(value: u16) -> Result<Self, String> {
        match PaletteSize::of_count(value as int) {
            Some(size) => Ok(size),
            None => Err(arbitrary()),
        }
    }
}

impl Default for PaletteSize {
    fn default() -> (r: Self)
        ensures
            r == PaletteSize::Pal4,
    {
        PaletteSize::Pal4
    }
}

/// An indexed colour palette with a configurable number of colours.
///
/// Supports 4, 8, 16, 32, 64, or 256 colours. The palette carries its
/// [`PaletteSize`] so consumers can query how many indices are valid.
#[derive(Debug, Clone, PartialEq, Eq)]
pub struct Palette {
    size: PaletteSize,
    colors: Vec<[u8; 4]>,
}

/// The mathematical content of a palette: its size and its colours.
pub struct PaletteModel {
    pub size: PaletteSize,
    pub colors: Seq<[u8; 4]>,
}

impl View for Palette {
    type V = PaletteModel;

    closed spec fn view(&self) -> PaletteModel {
        PaletteModel { size: self.size, colors: self.colors@ }
    }
}

impl PaletteModel {
    /// A palette holds exactly as many colours as its size names.
    pub open spec fn wf(self) -> bool {
        self.colors.len() == self.size.count()
    }
}

/// A palette holds its size's count of colours however its colours are
/// changed in place: writing any colour at any of its indices keeps the
/// count.
pub proof fn law_palette_writes_keep_size_count(p: PaletteModel, index: int, color: [u8; 4])
    requires
        p.wf(),
        0 <= index < p.colors.len(),
    ensures
        (PaletteModel { size: p.size, colors: p.colors.update(index, color) }).wf(),
{
}

/// The grayscale palette of a size: shade `i` as an opaque gray.
pub open spec fn grayscale_colors(size: PaletteSize) -> Seq<[u8; 4]> {
    Seq::new(size.count(), |i: int| {
        let v = shade(i, size.count() as int) as u8;
        [v, v, v, 255u8]
    })
}

/// The message given when a colour list does not match the palette size.
pub open spec fn color_count_mismatch_message(size: PaletteSize, got: nat) -> Seq<char> {
    "expected "@ + decimal(size.count()) + " colors for "@ + size.debug_name() + ", got "@
        + decimal(got)
}

fn push_size_debug_name(s: &mut String, size: PaletteSize)
    ensures
        final(s)@ == old(s)@ + size.debug_name(),
{
    match size {
        PaletteSize::Pal4 => push_str(s, "Pal4"),
        PaletteSize::Pal8 => push_str(s, "Pal8"),
        PaletteSize::Pal16 => push_str(s, "Pal16"),
        PaletteSize::Pal32 => push_str(s, "Pal32"),
        PaletteSize::Pal64 => push_str(s, "Pal64"),
        PaletteSize::Pal256 => push_str(s, "Pal256"),
    }
}

impl Palette {
    /// A palette of `size` with the given colours; refused when the number of
    /// colours is not the size's colour count.
    pub fn new(size: PaletteSize, colors: Vec<[u8; 4]>) -> (r: Result<Self, String>)
        ensures
            r is Ok <==> colors@.len() == size.count(),
            r matches Ok(p) ==> p@.size == size && p@.colors == colors@ && p@.wf(),
            r matches Err(msg) ==> msg@ == color_count_mismatch_message(size, colors@.len()),
    {
        if colors.len() != size.color_count() {
            let mut msg = String::new();
            push_str(&mut msg, "expected ");
            push_decimal(&mut msg, size.color_count() as u64);
            push_str(&mut msg, " colors for ");
            push_size_debug_name(&mut msg, size);
            push_str(&mut msg, ", got ");
            push_decimal(&mut msg, colors.len() as u64);
            return Err(msg);
        }
        Ok(Palette { size, colors })
    }

    /// Create a palette with canonical grayscale shades for the given size.
    pub fn grayscale(size: PaletteSize) -> (p: Self)
        ensures
            p@.size == size,
            p@.colors == grayscale_colors(size),
            p@.wf(),
    {
        let shades = size.canonical_shades();
        let mut colors: Vec<[u8; 4]> = Vec::new();
        let mut i: usize = 0;
        while i < shades.len()
            invariant
                i <= shades.len(),
                shades@.len() == size.count(),
                forall|j: int| 0 <= j < size.count() ==>
                    #[trigger] shades@[j]@ == seq![shade(j, size.count() as int) as u8; 3],
                colors@ =~= grayscale_colors(size).subrange(0, i as int),
            decreases shades.len() - i,
        {
            let rgb = shades[i];
            assert(rgb@ == seq![shade(i as int, size.count() as int) as u8; 3]);
            let c = [rgb[0], rgb[1], rgb[2], 0xFFu8];
            colors.push(c);
            assert(c =~= grayscale_colors(size)[i as int]);
            i = i + 1;
        }
        Palette { size, colors }
    }

    pub fn size(&self) -> (r: PaletteSize)
        ensures
            r == self@.size,
    {
        self.size
    }

    pub fn colors(&self) -> (r: &[[u8; 4]])
        ensures
            r@ == self@.colors,
    {
        self.colors.as_slice()
    }

    /// The colours, to change in place. A slice keeps its length, so a
    /// palette that held its size's count of colours still does after any
    /// change made through it.
    pub fn colors_mut(&mut self) -> (r: &mut [[u8; 4]])
        ensures
            r@ == old(self)@.colors,
            final(self)@.colors == final(r)@,
            final(self)@.size == old(self)@.size,
            old(self)@.wf() && final(r)@.len() == r@.len() ==> final(self)@.wf(),
    {
        self.colors.as_mut_slice()
    }

    /// The colour at `index`; the index must name a colour of the palette.
    pub fn color(&self, index: usize) -> (c: [u8; 4])
        requires
            index < self@.colors.len(),
        ensures
            c == self@.colors[index as int],
    {
        self.colors[index]
    }

    /// A palette with the same size and colours.
    pub fn duplicate(&self) -> (p: Self)
        ensures
            p@ == self@,
    {
        let mut colors: Vec<[u8; 4]> = Vec::new();
        let mut i: usize = 0;
        while i < self.colors.len()
            invariant
                i <= self.colors.len(),
                colors@ =~= self.colors@.subrange(0, i as int),
            decreases self.colors.len() - i,
        {
            colors.push(self.colors[i]);
            i = i + 1;
        }
        assert(colors@ =~= self.colors@);
        Palette { size: self.size, colors }
    }
}

/// The palette size stored files mean: a file that keeps the default
/// `Pal4` but lists another valid number of colours takes that number's
/// size (legacy files carry no size).
pub open spec fn inferred_palette_size(declared: PaletteSize, color_count: nat) -> PaletteSize {
    if declared == PaletteSize::Pal4 && color_count != 4
        && PaletteSize::of_count((color_count % 65536) as int) is Some {
        PaletteSize::of_count((color_count % 65536) as int).unwrap()
    } else {
        declared
    }
}

fn infer_palette_size(declared: PaletteSize, color_count: usize) -> (r: PaletteSize)
    ensures
        r == inferred_palette_size(declared, color_count as nat),
{
    if declared == PaletteSize::Pal4 && color_count != 4 {
        let truncated = (color_count % 65536) as u16;
        if let Ok(inferred) = PaletteSize::try_from_count(truncated) {
            return inferred;
        }
    }
    declared
}

impl Palette {
    /// The palette a stored file describes: the declared size (default
    /// `Pal4`) is inferred from the colour count where the file kept the
    /// default, then the colours are checked against it.
    pub fn from_stored(declared: PaletteSize, colors: Vec<[u8; 4]>) -> (r: Result<Palette, String>)
        ensures
            ({
                let size = inferred_palette_size(declared, colors@.len());
                &&& r is Ok <==> colors@.len() == size.count()
                &&& r matches Ok(p) ==> p@.size == size && p@.colors == colors@
                &&& r matches Err(msg) ==> msg@ == color_count_mismatch_message(size, colors@.len())
            }),
    {
        let size = infer_palette_size(declared, colors.len());
        Palette::new(size, colors)
    }
}

// ---------------------------------------------------------------------------
// Validation of indexed images
// ---------------------------------------------------------------------------

/// The number of whole RGBA pixels in `data`; trailing bytes that do not
/// fill a pixel are not part of any pixel.
pub open spec fn pixel_count(data: Seq<u8>) -> int {
    data.len() as int / 4
}

/// A colour as one integer whose order is the byte-wise order of the
/// colour's `[r, g, b, a]`.
pub open spec fn code_of(r: u8, g: u8, b: u8, a: u8) -> int {
    r as int * 16777216 + g as int * 65536 + b as int * 256 + a as int
}

pub open spec fn color_code(c: [u8; 4]) -> int {
    code_of(c@[0], c@[1], c@[2], c@[3])
}

/// The colour of pixel `k` of `data`, as a code.
pub open spec fn pixel_code(data: Seq<u8>, k: int) -> int {
    code_of(data[4 * k], data[4 * k + 1], data[4 * k + 2], data[4 * k + 3])
}

/// Whether the gray `(r, g, b)` is one of the canonical shades of `size`.
pub open spec fn is_canonical_rgb(r: u8, g: u8, b: u8, size: PaletteSize) -> bool {
    r == g && g == b && exists|i: int| 0 <= i < size.count() && #[trigger] shade(i, size.count() as int) == r
}

/// A pixel breaks the indexed format when it is visible and its colour is
/// not a canonical shade of the palette size.
pub open spec fn pixel_invalid(data: Seq<u8>, k: int, size: PaletteSize) -> bool {
    data[4 * k + 3] != 0 && !is_canonical_rgb(data[4 * k], data[4 * k + 1], data[4 * k + 2], size)
}

/// The distinct colours of the first `upto` pixels.
pub open spec fn pixel_codes_upto(data: Seq<u8>, upto: int) -> Set<int> {
    Set::new(|x: int| exists|k: int| 0 <= k < upto && #[trigger] pixel_code(data, k) == x)
}

/// The distinct invalid colours of the first `upto` pixels.
pub open spec fn invalid_codes_upto(data: Seq<u8>, size: PaletteSize, upto: int) -> Set<int> {
    Set::new(
        |x: int|
            exists|k: int| 0 <= k < upto && pixel_invalid(data, k, size) && #[trigger] pixel_code(data, k) == x,
    )
}

pub open spec fn pixel_codes(data: Seq<u8>) -> Set<int> {
    pixel_codes_upto(data, pixel_count(data))
}

pub open spec fn invalid_codes(data: Seq<u8>, size: PaletteSize) -> Set<int> {
    invalid_codes_upto(data, size, pixel_count(data))
}

/// Every visible pixel of `data` uses a canonical shade of `size`.
pub open spec fn is_indexed(data: Seq<u8>, size: PaletteSize) -> bool {
    forall|k: int| 0 <= k < pixel_count(data) ==> !#[trigger] pixel_invalid(data, k, size)
}

pub open spec fn codes_of(colors: Seq<[u8; 4]>) -> Seq<int> {
    colors.map_values(|c: [u8; 4]| color_code(c))
}

pub open spec fn strictly_increasing(s: Seq<int>) -> bool {
    forall|i: int, j: int| 0 <= i < j < s.len() ==> s[i] < s[j]
}

/// The result of validating indexed RGBA8 data.
#[derive(Debug, Clone, PartialEq, Eq)]
pub struct IndexedImageValidation {
    pub unique_color_count: usize,
    pub invalid_colors: Vec<[u8; 4]>,
}

/// `v` reports `data` against `size`: how many distinct colours the pixels
/// use, and the distinct invalid colours in increasing order.
pub open spec fn validation_reports(v: IndexedImageValidation, data: Seq<u8>, size: PaletteSize) -> bool {
    &&& v.unique_color_count == pixel_codes(data).len()
    &&& strictly_increasing(codes_of(v.invalid_colors@))
    &&& codes_of(v.invalid_colors@).to_set() == invalid_codes(data, size)
}

/// How a failed validation is described: the number of invalid colours
/// and of distinct colours.
pub open spec fn validation_message(invalid: nat, unique: nat) -> Seq<char> {
    "indexed image uses "@ + decimal(invalid) + " invalid colors ("@ + decimal(unique)
        + " unique colors total)"@
}

impl IndexedImageValidation {
    pub fn is_valid(&self) -> (r: bool)
        ensures
            r == (self.invalid_colors@.len() == 0),
    {
        self.invalid_colors.len() == 0
    }

    /// The report in words.
    pub fn to_string(&self) -> (msg: String)
        ensures
            msg@ == validation_message(self.invalid_colors@.len(), self.unique_color_count as nat),
    {
        let mut msg = String::new();
        push_str(&mut msg, "indexed image uses ");
        push_decimal(&mut msg, self.invalid_colors.len() as u64);
        push_str(&mut msg, " invalid colors (");
        push_decimal(&mut msg, self.unique_color_count as u64);
        push_str(&mut msg, " unique colors total)");
        msg
    }
}

/// A strictly increasing list of `u32`, as integers.
spec fn ints(s: Seq<u32>) -> Seq<int> {
    s.map_values(|x: u32| x as int)
}

/// Inserts `x` into a strictly increasing list, keeping it so.
fn insert_sorted(v: &mut Vec<u32>, x: u32)
    requires
        strictly_increasing(ints(old(v)@)),
    ensures
        strictly_increasing(ints(final(v)@)),
        ints(final(v)@).to_set() == ints(old(v)@).to_set().insert(x as int),
{
    let mut p: usize = 0;
    while p < v.len() && v[p] < x
        invariant
            p <= v.len(),
            forall|j: int| 0 <= j < p ==> v@[j] < x,
        decreases v.len() - p,
    {
        p = p + 1;
    }
    let ghost before = v@;
    if p < v.len() && v[p] == x {
        assert(ints(before).to_set() =~= ints(before).to_set().insert(x as int)) by {
            assert(ints(before)[p as int] == x as int);
        }
        return;
    }
    assert(forall|m: int| p <= m < before.len() ==> ints(before)[m] > x as int) by {
        assert forall|m: int| p <= m < before.len() implies ints(before)[m] > x as int by {
            assert(ints(before)[p as int] >= x as int);
            assert(ints(before)[p as int] != x as int);
            if m > p {
                assert(ints(before)[p as int] < ints(before)[m]);
            }
        }
    }
    v.insert(p, x);
    assert(v@ == before.insert(p as int, x));
    assert(ints(v@) =~= ints(before).insert(p as int, x as int));
    assert(strictly_increasing(ints(v@))) by {
        assert forall|i: int, j: int| 0 <= i < j < ints(v@).len() implies ints(v@)[i] < ints(v@)[j] by {
            if j < p {
            } else if j == p {
            } else if i < p {
                assert(ints(before)[j - 1] > x);
            } else if i == p {
                assert(ints(before)[j - 1] > x) by {
                    assert(ints(before)[p as int] > x as int);
                    if j - 1 > p {
                        assert(ints(before)[p as int] < ints(before)[j - 1]);
                    }
                }
            } else {
                assert(ints(before)[i - 1] < ints(before)[j - 1]);
            }
        }
    }
    assert(ints(v@).to_set() =~= ints(before).to_set().insert(x as int)) by {
        assert forall|y: int| ints(v@).to_set().contains(y) implies ints(before).to_set().insert(x as int).contains(y) by {
            let i = choose|i: int| 0 <= i < ints(v@).len() && ints(v@)[i] == y;
            if i < p {
                assert(ints(before)[i] == y);
            } else if i > p {
                assert(ints(before)[i - 1] == y);
            }
        }
        assert forall|y: int| ints(before).to_set().insert(x as int).contains(y) implies ints(v@).to_set().contains(y) by {
            if y == x as int {
                assert(ints(v@)[p as int] == y);
            } else {
                let i = choose|i: int| 0 <= i < ints(before).len() && ints(before)[i] == y;
                if i < p {
                    assert(ints(v@)[i] == y);
                } else {
                    assert(ints(v@)[i + 1] == y);
                }
            }
        }
    }
}

proof fn lemma_increasing_set_len(s: Seq<int>)
    requires
        strictly_increasing(s),
    ensures
        s.to_set().len() == s.len(),
        s.to_set().finite(),
{
    assert(s.no_duplicates()) by {
        assert forall|i: int, j: int| 0 <= i < s.len() && 0 <= j < s.len() && i != j implies s[i] != s[j] by {
            if i < j {
            } else {
            }
        }
    }
    s.unique_seq_to_set();
    vstd::seq_lib::seq_to_set_is_finite(s);
}

fn encode_color(r: u8, g: u8, b: u8, a: u8) -> (x: u32)
    ensures
        x as int == code_of(r, g, b, a),
{
    (r as u32) * 16777216 + (g as u32) * 65536 + (b as u32) * 256 + (a as u32)
}

fn decode_color(x: u32) -> (c: [u8; 4])
    ensures
        color_code(c) == x as int,
{
    let r = (x / 16777216) as u8;
    let g = ((x / 65536) % 256) as u8;
    let b = ((x / 256) % 256) as u8;
    let a = (x % 256) as u8;
    let c = [r, g, b, a];
    assert(c@[0] == r && c@[1] == g && c@[2] == b && c@[3] == a);
    assert(code_of(r, g, b, a) == x as int) by (nonlinear_arith)
        requires
            r as int == x as int / 16777216,
            g as int == (x as int / 65536) % 256,
            b as int == (x as int / 256) % 256,
            a as int == x as int % 256,
            0 <= x <= 0xffff_ffff;
    c
}

/// Whether the gray `(r, g, b)` appears in `shades`, the canonical shades
/// of `size`.
fn shades_contain(shades: &Vec<[u8; 3]>, size: PaletteSize, r: u8, g: u8, b: u8) -> (found: bool)
    requires
        shades@.len() == size.count(),
        forall|i: int| 0 <= i < size.count() ==>
            #[trigger] shades@[i]@ == seq![shade(i, size.count() as int) as u8; 3],
    ensures
        found == is_canonical_rgb(r, g, b, size),
{
    let mut i: usize = 0;
    while i < shades.len()
        invariant
            i <= shades.len(),
            shades@.len() == size.count(),
            forall|i: int| 0 <= i < size.count() ==>
                #[trigger] shades@[i]@ == seq![shade(i, size.count() as int) as u8; 3],
            forall|j: int| 0 <= j < i ==> !(r == g && g == b && #[trigger] shade(j, size.count() as int) == r),
        decreases shades.len() - i,
    {
        let s = shades[i];
        proof {
            lemma_shade_in_range(i as int, size.count() as int);
            assert(s@ == seq![shade(i as int, size.count() as int) as u8; 3]);
        }
        if s[0] == r && s[1] == g && s[2] == b {
            return true;
        }
        i = i + 1;
    }
    false
}

/// Validate that all opaque pixels in RGBA8 `data` use only the canonical
/// grayscale shades for the given `palette_size`.
pub fn validate_indexed_rgba8(data: &[u8], palette_size: PaletteSize) -> (v: IndexedImageValidation)
    ensures
        validation_reports(v, data@, palette_size),
        v.invalid_colors@.len() == 0 <==> is_indexed(data@, palette_size),
{
    let valid_shades = palette_size.canonical_shades();
    let mut unique: Vec<u32> = Vec::new();
    let mut invalid: Vec<u32> = Vec::new();
    let npix = data.len() / 4;
    let mut k: usize = 0;
    assert(ints(unique@).to_set() =~= pixel_codes_upto(data@, 0));
    assert(ints(invalid@).to_set() =~= invalid_codes_upto(data@, palette_size, 0));
    while k < npix
        invariant
            npix == pixel_count(data@),
            k <= npix,
            valid_shades@.len() == palette_size.count(),
            forall|i: int| 0 <= i < palette_size.count() ==>
                #[trigger] valid_shades@[i]@ == seq![shade(i, palette_size.count() as int) as u8; 3],
            strictly_increasing(ints(unique@)),
            strictly_increasing(ints(invalid@)),
            ints(unique@).to_set() == pixel_codes_upto(data@, k as int),
            ints(invalid@).to_set() == invalid_codes_upto(data@, palette_size, k as int),
        decreases npix - k,
    {
        assert(4 * k + 3 < data.len()) by (nonlinear_arith)
            requires k < npix, npix == data.len() as int / 4;
        let base = 4 * k;
        let r = data[base];
        let g = data[base + 1];
        let b = data[base + 2];
        let a = data[base + 3];
        let code = encode_color(r, g, b, a);
        assert(code as int == pixel_code(data@, k as int));
        let ghost old_unique = ints(unique@).to_set();
        let ghost old_invalid = ints(invalid@).to_set();
        insert_sorted(&mut unique, code);
        assert(pixel_codes_upto(data@, k + 1) =~= old_unique.insert(code as int)) by {
            assert forall|x: int| pixel_codes_upto(data@, k + 1).contains(x) implies old_unique.insert(code as int).contains(x) by {
                let kk = choose|kk: int| 0 <= kk < k + 1 && #[trigger] pixel_code(data@, kk) == x;
                if kk < k {
                    assert(pixel_codes_upto(data@, k as int).contains(x));
                }
            }
            assert forall|x: int| old_unique.insert(code as int).contains(x) implies pixel_codes_upto(data@, k + 1).contains(x) by {
                if x == code as int {
                    assert(pixel_code(data@, k as int) == x);
                } else {
                    assert(pixel_codes_upto(data@, k as int).contains(x));
                    let kk = choose|kk: int| 0 <= kk < k && #[trigger] pixel_code(data@, kk) == x;
                    assert(pixel_code(data@, kk) == x);
                }
            }
        }
        let canonical = shades_contain(&valid_shades, palette_size, r, g, b);
        assert(pixel_invalid(data@, k as int, palette_size) == (a != 0 && !canonical));
        if a != 0 && !canonical {
            insert_sorted(&mut invalid, code);
            assert(invalid_codes_upto(data@, palette_size, k + 1) =~= old_invalid.insert(code as int)) by {
                assert forall|x: int| invalid_codes_upto(data@, palette_size, k + 1).contains(x) implies old_invalid.insert(code as int).contains(x) by {
                    let kk = choose|kk: int| 0 <= kk < k + 1 && pixel_invalid(data@, kk, palette_size) && #[trigger] pixel_code(data@, kk) == x;
                    if kk < k {
                        assert(invalid_codes_upto(data@, palette_size, k as int).contains(x));
                    }
                }
                assert forall|x: int| old_invalid.insert(code as int).contains(x) implies invalid_codes_upto(data@, palette_size, k + 1).contains(x) by {
                    if x == code as int {
                        assert(pixel_code(data@, k as int) == x);
                    } else {
                        assert(invalid_codes_upto(data@, palette_size, k as int).contains(x));
                        let kk = choose|kk: int| 0 <= kk < k && pixel_invalid(data@, kk, palette_size) && #[trigger] pixel_code(data@, kk) == x;
                        assert(pixel_code(data@, kk) == x);
                    }
                }
            }
        } else {
            assert(invalid_codes_upto(data@, palette_size, k + 1) =~= old_invalid) by {
                assert forall|x: int| invalid_codes_upto(data@, palette_size, k + 1).contains(x) implies old_invalid.contains(x) by {
                    let kk = choose|kk: int| 0 <= kk < k + 1 && pixel_invalid(data@, kk, palette_size) && #[trigger] pixel_code(data@, kk) == x;
                    assert(kk < k);
                    assert(invalid_codes_upto(data@, palette_size, k as int).contains(x));
                }
                assert forall|x: int| old_invalid.contains(x) implies invalid_codes_upto(data@, palette_size, k + 1).contains(x) by {
                    let kk = choose|kk: int| 0 <= kk < k && pixel_invalid(data@, kk, palette_size) && #[trigger] pixel_code(data@, kk) == x;
                    assert(pixel_code(data@, kk) == x);
                }
            }
        }
        k = k + 1;
    }
    let mut invalid_colors: Vec<[u8; 4]> = Vec::new();
    let mut i: usize = 0;
    while i < invalid.len()
        invariant
            i <= invalid.len(),
            invalid_colors@.len() == i,
            forall|j: int| 0 <= j < i ==> color_code(#[trigger] invalid_colors@[j]) == invalid@[j] as int,
        decreases invalid.len() - i,
    {
        invalid_colors.push(decode_color(invalid[i]));
        i = i + 1;
    }
    assert(codes_of(invalid_colors@) =~= ints(invalid@));
    proof {
        lemma_increasing_set_len(ints(unique@));
        lemma_increasing_set_len(ints(invalid@));
        if invalid_colors@.len() == 0 {
            assert forall|kk: int| 0 <= kk < pixel_count(data@) implies !#[trigger] pixel_invalid(data@, kk, palette_size) by {
                if pixel_invalid(data@, kk, palette_size) {
                    assert(invalid_codes(data@, palette_size).contains(pixel_code(data@, kk)));
                    assert(ints(invalid@).len() == 0);
                }
            }
        } else {
            let x = ints(invalid@)[0];
            assert(ints(invalid@).to_set().contains(x));
            assert(invalid_codes(data@, palette_size).contains(x));
            let kk = choose|kk: int| 0 <= kk < pixel_count(data@) && pixel_invalid(data@, kk, palette_size) && #[trigger] pixel_code(data@, kk) == x;
            assert(pixel_invalid(data@, kk, palette_size));
        }
    }
    IndexedImageValidation { unique_color_count: unique.len(), invalid_colors }
}

// ---------------------------------------------------------------------------
// Recolouring
// ---------------------------------------------------------------------------

/// The palette index whose canonical shade is the gray value `v`.
pub open spec fn shade_index(v: int, n: int) -> int {
    choose|i: int| 0 <= i < n && shade(i, n) == v
}

/// Byte `p` of `data` after recolouring with `colors` (a palette of `n`
/// colours): a visible pixel takes the RGB of the palette colour its gray
/// value indexes and the product of both alphas (over 255); transparent
/// pixels and bytes past the last whole pixel are kept.
pub open spec fn recolored_byte(data: Seq<u8>, colors: Seq<[u8; 4]>, n: int, p: int) -> u8 {
    let k = p / 4;
    let j = p % 4;
    if p < 4 * pixel_count(data) && data[4 * k + 3] != 0 {
        let c = colors[shade_index(data[4 * k] as int, n)];
        if j < 3 {
            c@[j]
        } else {
            ((data[4 * k + 3] as int * c@[3] as int) / 255) as u8
        }
    } else {
        data[p]
    }
}

pub open spec fn recolored_data(data: Seq<u8>, colors: Seq<[u8; 4]>, n: int) -> Seq<u8> {
    Seq::new(data.len(), |p: int| recolored_byte(data, colors, n, p))
}

proof fn lemma_shade_unique(i: int, j: int, n: int)
    requires
        0 <= i < n,
        0 <= j < n,
        2 <= n <= 256,
        shade(i, n) == shade(j, n),
    ensures
        i == j,
{
    if i < j {
        lemma_shade_strictly_increasing(i, j, n);
    } else if j < i {
        lemma_shade_strictly_increasing(j, i, n);
    }
}

/// Build a lookup table mapping each canonical gray value to its palette
/// index; entries for non-canonical values are `None`.
fn build_shade_lookup(palette_size: PaletteSize) -> (table: Vec<Option<usize>>)
    ensures
        table@.len() == 256,
        forall|v: int| 0 <= v < 256 ==> match #[trigger] table@[v] {
            Some(i) => i < palette_size.count() && shade(i as int, palette_size.count() as int) == v,
            None => true,
        },
        forall|i: int| 0 <= i < palette_size.count() ==>
            table@[shade(i, palette_size.count() as int)] == Some(i as usize),
{
    let n = palette_size.color_count();
    let mut table: Vec<Option<usize>> = Vec::new();
    let mut v: usize = 0;
    while v < 256
        invariant
            v <= 256,
            table@.len() == v,
            forall|w: int| 0 <= w < v ==> #[trigger] table@[w] == None::<usize>,
        decreases 256 - v,
    {
        table.push(None);
        v = v + 1;
    }
    let mut i: usize = 0;
    while i < n
        invariant
            n == palette_size.count(),
            i <= n,
            table@.len() == 256,
            forall|w: int| 0 <= w < 256 ==> match #[trigger] table@[w] {
                Some(ii) => ii < i && shade(ii as int, n as int) == w,
                None => true,
            },
            forall|ii: int| 0 <= ii < i ==> table@[shade(ii, n as int)] == Some(ii as usize),
        decreases n - i,
    {
        proof {
            lemma_shade_in_range(i as int, n as int);
            assert forall|ii: int| 0 <= ii < i implies shade(ii, n as int) != shade(i as int, n as int) by {
                lemma_shade_strictly_increasing(ii, i as int, n as int);
            }
        }
        let s = i * 255 / (n - 1);
        let ghost prev = table@;
        table.set(s, Some(i));
        proof {
            assert forall|ii: int| 0 <= ii < i + 1 implies table@[shade(ii, n as int)] == Some(ii as usize) by {
                lemma_shade_in_range(ii, n as int);
                if ii < i {
                    assert(prev[shade(ii, n as int)] == Some(ii as usize));
                }
            }
        }
        i = i + 1;
    }
    table
}

fn recolor_pixels(data: &[u8], palette: &Palette, lookup: &Vec<Option<usize>>) -> (out: Vec<u8>)
    requires
        palette@.wf(),
        is_indexed(data@, palette@.size),
        lookup@.len() == 256,
        forall|v: int| 0 <= v < 256 ==> match #[trigger] lookup@[v] {
            Some(i) => i < palette@.size.count() && shade(i as int, palette@.size.count() as int) == v,
            None => true,
        },
        forall|i: int| 0 <= i < palette@.size.count() ==>
            lookup@[shade(i, palette@.size.count() as int)] == Some(i as usize),
    ensures
        out@ == recolored_data(data@, palette@.colors, palette@.size.count() as int),
{
    let n_colors: usize = palette.size().color_count();
    let ghost n = n_colors as int;
    let ghost colors = palette@.colors;
    let mut out: Vec<u8> = Vec::new();
    let mut p: usize = 0;
    while p < data.len()
        invariant
            p <= data.len(),
            out@ =~= data@.subrange(0, p as int),
        decreases data.len() - p,
    {
        out.push(data[p]);
        p = p + 1;
    }
    let npix = data.len() / 4;
    let mut k: usize = 0;
    while k < npix
        invariant
            npix == pixel_count(data@),
            k <= npix,
            n == palette@.size.count(),
            colors == palette@.colors,
            palette@.wf(),
            is_indexed(data@, palette@.size),
            lookup@.len() == 256,
            forall|v: int| 0 <= v < 256 ==> match #[trigger] lookup@[v] {
                Some(i) => i < n && shade(i as int, n) == v,
                None => true,
            },
            forall|i: int| 0 <= i < n ==> lookup@[shade(i, n)] == Some(i as usize),
            out@.len() == data@.len(),
            forall|q: int| 0 <= q < 4 * k ==> #[trigger] out@[q] == recolored_byte(data@, colors, n, q),
            forall|q: int| 4 * k <= q < data@.len() ==> #[trigger] out@[q] == data@[q],
        decreases npix - k,
    {
        assert(4 * k + 3 < data.len()) by (nonlinear_arith)
            requires k < npix, npix == data.len() as int / 4;
        let base = 4 * k;
        let alpha = data[base + 3];
        let ghost before = out@;
        if alpha != 0 {
            let gray = data[base];
            proof {
                assert(!pixel_invalid(data@, k as int, palette@.size));
                let i = choose|i: int| 0 <= i < n && #[trigger] shade(i, n) == gray as int;
                assert(lookup@[gray as int] == Some(i as usize));
                let si = shade_index(gray as int, n);
                lemma_shade_unique(i, si, n);
            }
            let index = match lookup[gray as usize] {
                Some(i) => i,
                None => 0,
            };
            assert(index as int == shade_index(gray as int, n));
            let target = palette.color(index);
            out.set(base, target[0]);
            out.set(base + 1, target[1]);
            out.set(base + 2, target[2]);
            assert(alpha as int * target[3] as int <= 255 * 255) by (nonlinear_arith)
                requires alpha <= 255, target[3] <= 255;
            out.set(base + 3, ((alpha as u16 * target[3] as u16) / 255) as u8);
            proof {
                assert forall|q: int| 0 <= q < 4 * (k + 1) implies #[trigger] out@[q] == recolored_byte(data@, colors, n, q) by {
                    if q >= 4 * k {
                        assert(q / 4 == k as int);
                        assert(q % 4 == q - 4 * k);
                    }
                }
            }
        } else {
            proof {
                assert forall|q: int| 0 <= q < 4 * (k + 1) implies #[trigger] out@[q] == recolored_byte(data@, colors, n, q) by {
                    if q >= 4 * k {
                        assert(q / 4 == k as int);
                    }
                }
            }
        }
        k = k + 1;
    }
    proof {
        assert forall|q: int| 0 <= q < data@.len() implies #[trigger] out@[q] == recolored_byte(data@, colors, n, q) by {
            if q >= 4 * npix {
                assert(!(q < 4 * pixel_count(data@)));
            }
        }
    }
    assert(out@ =~= recolored_data(data@, colors, n));
    out
}

/// Recolour an indexed grayscale image using the given palette.
///
/// Each opaque pixel's gray value is mapped to the corresponding palette
/// colour. Transparent pixels are left unchanged. An image that is not
/// indexed for the palette's size is refused with its validation report.
pub fn recolor_indexed_image(image: &DecodedImage, palette: &Palette) -> (r: Result<DecodedImage, IndexedImageValidation>)
    requires
        palette@.wf(),
    ensures
        r is Ok <==> is_indexed(image.data@, palette@.size),
        r matches Err(v) ==> validation_reports(v, image.data@, palette@.size),
        r matches Ok(out) ==> out.width == image.width && out.height == image.height
            && out.data@ == recolored_data(image.data@, palette@.colors, palette@.size.count() as int),
{
    let validation = validate_indexed_rgba8(image.data.as_slice(), palette.size());
    if !validation.is_valid() {
        return Err(validation);
    }
    let lookup = build_shade_lookup(palette.size());
    let data = recolor_pixels(image.data.as_slice(), palette, &lookup);
    Ok(DecodedImage { width: image.width, height: image.height, data })
}

/// Recolouring an indexed image with the grayscale palette of its size
/// gives back the same bytes.
pub proof fn law_grayscale_recolor_is_identity(data: Seq<u8>, size: PaletteSize)
    requires
        is_indexed(data, size),
    ensures
        recolored_data(data, grayscale_colors(size), size.count() as int) == data,
{
    let n = size.count() as int;
    assert forall|p: int| 0 <= p < data.len() implies #[trigger] recolored_byte(data, grayscale_colors(size), n, p) == data[p] by {
        let k = p / 4;
        if p < 4 * pixel_count(data) && data[4 * k + 3] != 0 {
            assert(0 <= k < pixel_count(data));
            assert(!pixel_invalid(data, k, size));
            let gray = data[4 * k];
            let i = choose|i: int| 0 <= i < n && #[trigger] shade(i, n) == gray as int;
            let si = shade_index(gray as int, n);
            lemma_shade_unique(i, si, n);
            lemma_shade_in_range(si, n);
            let c = grayscale_colors(size)[si];
            assert(c@[0] == gray && c@[1] == gray && c@[2] == gray && c@[3] == 255);
            assert(data[4 * k + 1] == gray && data[4 * k + 2] == gray);
            assert((data[4 * k + 3] as int * 255) / 255 == data[4 * k + 3] as int) by {
                vstd::arithmetic::div_mod::lemma_div_multiples_vanish(data[4 * k + 3] as int, 255);
            }
            assert(p == 4 * k + p % 4);
        }
    }
    assert(recolored_data(data, grayscale_colors(size), n) =~= data);
}

// ---------------------------------------------------------------------------
// Named palettes
// ---------------------------------------------------------------------------

spec fn names_unique(e: Seq<(String, Palette)>) -> bool {
    forall|i: int, j: int| 0 <= i < e.len() && 0 <= j < e.len() && i != j ==>
        (#[trigger] e[i]).0@ != (#[trigger] e[j]).0@
}

spec fn has_name_at(e: Seq<(String, Palette)>, name: Seq<char>, i: int) -> bool {
    0 <= i < e.len() && e[i].0@ == name
}

spec fn entries_map(e: Seq<(String, Palette)>) -> Map<Seq<char>, PaletteModel> {
    Map::new(
        |name: Seq<char>| exists|i: int| has_name_at(e, name, i),
        |name: Seq<char>| e[choose|i: int| has_name_at(e, name, i)].1@,
    )
}

proof fn lemma_entries_map_at(e: Seq<(String, Palette)>, i: int)
    requires
        names_unique(e),
        0 <= i < e.len(),
    ensures
        entries_map(e).contains_key(e[i].0@),
        entries_map(e)[e[i].0@] == e[i].1@,
{
    let name = e[i].0@;
    assert(has_name_at(e, name, i));
    let j = choose|j: int| has_name_at(e, name, j);
    if i != j {
        assert(e[i].0@ != e[j].0@);
    }
}

proof fn lemma_entries_map_update(e: Seq<(String, Palette)>, i: int, x: (String, Palette))
    requires
        names_unique(e),
        0 <= i < e.len(),
        x.0@ == e[i].0@,
    ensures
        names_unique(e.update(i, x)),
        entries_map(e.update(i, x)) == entries_map(e).insert(x.0@, x.1@),
{
    let f = e.update(i, x);
    assert forall|a: int, b: int| 0 <= a < f.len() && 0 <= b < f.len() && a != b implies
        (#[trigger] f[a]).0@ != (#[trigger] f[b]).0@ by {
        assert(e[a].0@ != e[b].0@);
    }
    let m = entries_map(e).insert(x.0@, x.1@);
    assert forall|k: Seq<char>| #[trigger] entries_map(f).contains_key(k) == m.contains_key(k) by {
        if entries_map(f).contains_key(k) {
            let j = choose|j: int| has_name_at(f, k, j);
            assert(has_name_at(e, k, j));
        }
        if entries_map(e).contains_key(k) {
            let j = choose|j: int| has_name_at(e, k, j);
            assert(has_name_at(f, k, j));
        }
        if k == x.0@ {
            assert(has_name_at(f, k, i));
        }
    }
    assert forall|k: Seq<char>| entries_map(f).contains_key(k) implies #[trigger] entries_map(f)[k] == m[k] by {
        let j = choose|j: int| has_name_at(f, k, j);
        lemma_entries_map_at(f, j);
        if j != i {
            lemma_entries_map_at(e, j);
            assert(k != x.0@) by {
                assert(e[j].0@ != e[i].0@);
            }
        }
    }
    assert(entries_map(f) =~= m);
}

proof fn lemma_entries_map_push(e: Seq<(String, Palette)>, x: (String, Palette))
    requires
        names_unique(e),
        !entries_map(e).contains_key(x.0@),
    ensures
        names_unique(e.push(x)),
        entries_map(e.push(x)) == entries_map(e).insert(x.0@, x.1@),
{
    let f = e.push(x);
    assert forall|a: int, b: int| 0 <= a < f.len() && 0 <= b < f.len() && a != b implies
        (#[trigger] f[a]).0@ != (#[trigger] f[b]).0@ by {
        if a < e.len() && b < e.len() {
            assert(e[a].0@ != e[b].0@);
        } else if a < e.len() {
            if e[a].0@ == x.0@ {
                assert(has_name_at(e, x.0@, a));
            }
        } else if b < e.len() {
            if e[b].0@ == x.0@ {
                assert(has_name_at(e, x.0@, b));
            }
        }
    }
    let m = entries_map(e).insert(x.0@, x.1@);
    assert forall|k: Seq<char>| #[trigger] entries_map(f).contains_key(k) == m.contains_key(k) by {
        if entries_map(f).contains_key(k) {
            let j = choose|j: int| has_name_at(f, k, j);
            if j < e.len() {
                assert(has_name_at(e, k, j));
            }
        }
        if entries_map(e).contains_key(k) {
            let j = choose|j: int| has_name_at(e, k, j);
            assert(has_name_at(f, k, j));
        }
        if k == x.0@ {
            assert(has_name_at(f, k, e.len() as int));
        }
    }
    assert forall|k: Seq<char>| entries_map(f).contains_key(k) implies #[trigger] entries_map(f)[k] == m[k] by {
        let j = choose|j: int| has_name_at(f, k, j);
        lemma_entries_map_at(f, j);
        if j < e.len() {
            lemma_entries_map_at(e, j);
        }
    }
    assert(entries_map(f) =~= m);
}

/// Palettes by name, each name at most once.
#[derive(Debug, PartialEq, Eq)]
pub struct PaletteRegistry {
    entries: Vec<(String, Palette)>,
}

impl PaletteRegistry {
    #[verifier::type_invariant]
    spec fn inv(self) -> bool {
        names_unique(self.entries@)
    }

    /// The registry as a map from names to palettes.
    pub closed spec fn view(&self) -> Map<Seq<char>, PaletteModel> {
        entries_map(self.entries@)
    }

    /// An empty registry.
    pub fn new() -> (r: Self)
        ensures
            r@ == Map::<Seq<char>, PaletteModel>::empty(),
    {
        let r = PaletteRegistry { entries: Vec::new() };
        assert(r@ =~= Map::<Seq<char>, PaletteModel>::empty());
        r
    }

    /// The number of named palettes.
    pub fn len(&self) -> (n: usize)
        ensures
            n == self@.len(),
    {
        proof {
            use_type_invariant(self);
            let e = self.entries@;
            let keys = e.map_values(|x: (String, Palette)| x.0@);
            assert(keys.no_duplicates()) by {
                assert forall|i: int, j: int| 0 <= i < keys.len() && 0 <= j < keys.len() && i != j implies keys[i] != keys[j] by {
                    assert(e[i].0@ != e[j].0@);
                }
            }
            assert(self@.dom() =~= keys.to_set()) by {
                assert forall|k: Seq<char>| self@.dom().contains(k) implies keys.to_set().contains(k) by {
                    let i = choose|i: int| has_name_at(e, k, i);
                    assert(keys[i] == k);
                }
                assert forall|k: Seq<char>| keys.to_set().contains(k) implies self@.dom().contains(k) by {
                    let i = choose|i: int| 0 <= i < keys.len() && keys[i] == k;
                    assert(has_name_at(e, k, i));
                }
            }
            keys.unique_seq_to_set();
        }
        self.entries.len()
    }

    fn index_of(&self, name: &str) -> (r: Option<usize>)
        ensures
            r matches Some(i) ==> i < self.entries@.len() && self.entries@[i as int].0@ == name@,
            r is None ==> !self@.contains_key(name@),
    {
        let mut i: usize = 0;
        while i < self.entries.len()
            invariant
                i <= self.entries@.len(),
                forall|j: int| 0 <= j < i ==> self.entries@[j].0@ != name@,
            decreases self.entries.len() - i,
        {
            if str_eq(self.entries[i].0.as_str(), name) {
                return Some(i);
            }
            i = i + 1;
        }
        None
    }

    /// The palette registered under `name`, if any.
    pub fn get(&self, name: &str) -> (r: Option<&Palette>)
        ensures
            r is Some <==> self@.contains_key(name@),
            r matches Some(p) ==> p@ == self@[name@],
    {
        proof {
            use_type_invariant(self);
        }
        match self.index_of(name) {
            Some(i) => {
                proof {
                    lemma_entries_map_at(self.entries@, i as int);
                }
                Some(&self.entries[i].1)
            },
            None => None,
        }
    }

    /// Registers `palette` under `name`, replacing a palette of that name.
    pub fn insert(&mut self, name: String, palette: Palette)
        ensures
            final(self)@ == old(self)@.insert(name@, palette@),
    {
        proof {
            use_type_invariant(&*self);
        }
        let found = self.index_of(name.as_str());
        let mut entries: Vec<(String, Palette)> = Vec::new();
        std::mem::swap(&mut entries, &mut self.entries);
        match found {
            Some(i) => {
                proof {
                    lemma_entries_map_update(entries@, i as int, (name, palette));
                }
                entries.set(i, (name, palette));
            },
            None => {
                proof {
                    lemma_entries_map_push(entries@, (name, palette));
                }
                entries.push((name, palette));
            },
        }
        self.entries = entries;
    }
}

// ---------------------------------------------------------------------------
// Built-in palettes
// ---------------------------------------------------------------------------

pub open spec fn pal4_model(colors: Seq<[u8; 4]>) -> PaletteModel {
    PaletteModel { size: PaletteSize::Pal4, colors }
}

/// The palettes that ship with the engine, by name.
pub open spec fn builtin_palette_map() -> Map<Seq<char>, PaletteModel> {
    Map::<Seq<char>, PaletteModel>::empty()
        .insert("gb_default"@, pal4_model(seq![
            [0x0Fu8, 0x38u8, 0x0Fu8, 0xFFu8],
            [0x30u8, 0x62u8, 0x30u8, 0xFFu8],
            [0x8Bu8, 0xACu8, 0x0Fu8, 0xFFu8],
            [0x9Bu8, 0xBCu8, 0x0Fu8, 0xFFu8],
        ]))
        .insert("gray"@, pal4_model(seq![
            [0x11u8, 0x11u8, 0x11u8, 0xFFu8],
            [0x55u8, 0x55u8, 0x55u8, 0xFFu8],
            [0xAAu8, 0xAAu8, 0xAAu8, 0xFFu8],
            [0xF0u8, 0xF0u8, 0xF0u8, 0xFFu8],
        ]))
        .insert("night"@, pal4_model(seq![
            [0x10u8, 0x18u8, 0x2Bu8, 0xFFu8],
            [0x2Du8, 0x4Fu8, 0x6Cu8, 0xFFu8],
            [0x65u8, 0x87u8, 0xA3u8, 0xFFu8],
            [0xB8u8, 0xD0u8, 0xE0u8, 0xFFu8],
        ]))
        .insert("poison"@, pal4_model(seq![
            [0x1Bu8, 0x0Fu8, 0x1Bu8, 0xFFu8],
            [0x4Bu8, 0x1Fu8, 0x6Bu8, 0xFFu8],
            [0x7Bu8, 0x4Fu8, 0xA5u8, 0xFFu8],
            [0xC8u8, 0x9Fu8, 0xE8u8, 0xFFu8],
        ]))
        .insert("sepia"@, pal4_model(seq![
            [0x2Cu8, 0x1Bu8, 0x12u8, 0xFFu8],
            [0x6Bu8, 0x44u8, 0x2Au8, 0xFFu8],
            [0xB0u8, 0x7Au8, 0x45u8, 0xFFu8],
            [0xE7u8, 0xC9u8, 0x8Au8, 0xFFu8],
        ]))
}

fn pal4(c0: [u8; 4], c1: [u8; 4], c2: [u8; 4], c3: [u8; 4]) -> (p: Palette)
    ensures
        p@ == pal4_model(seq![c0, c1, c2, c3]),
{
    let mut colors: Vec<[u8; 4]> = Vec::new();
    colors.push(c0);
    colors.push(c1);
    colors.push(c2);
    colors.push(c3);
    assert(colors@ =~= seq![c0, c1, c2, c3]);
    Palette { size: PaletteSize::Pal4, colors }
}

/// The built-in palettes by name.
pub fn builtin_palettes() -> (r: PaletteRegistry)
    ensures
        r@ == builtin_palette_map(),
{
    let mut r = PaletteRegistry::new();
    r.insert(string_from_str("gb_default"), pal4(
        [0x0F, 0x38, 0x0F, 0xFF],
        [0x30, 0x62, 0x30, 0xFF],
        [0x8B, 0xAC, 0x0F, 0xFF],
        [0x9B, 0xBC, 0x0F, 0xFF],
    ));
    r.insert(string_from_str("gray"), pal4(
        [0x11, 0x11, 0x11, 0xFF],
        [0x55, 0x55, 0x55, 0xFF],
        [0xAA, 0xAA, 0xAA, 0xFF],
        [0xF0, 0xF0, 0xF0, 0xFF],
    ));
    r.insert(string_from_str("night"), pal4(
        [0x10, 0x18, 0x2B, 0xFF],
        [0x2D, 0x4F, 0x6C, 0xFF],
        [0x65, 0x87, 0xA3, 0xFF],
        [0xB8, 0xD0, 0xE0, 0xFF],
    ));
    r.insert(string_from_str("poison"), pal4(
        [0x1B, 0x0F, 0x1B, 0xFF],
        [0x4B, 0x1F, 0x6B, 0xFF],
        [0x7B, 0x4F, 0xA5, 0xFF],
        [0xC8, 0x9F, 0xE8, 0xFF],
    ));
    r.insert(string_from_str("sepia"), pal4(
        [0x2C, 0x1B, 0x12, 0xFF],
        [0x6B, 0x44, 0x2A, 0xFF],
        [0xB0, 0x7A, 0x45, 0xFF],
        [0xE7, 0xC9, 0x8A, 0xFF],
    ));
    r
}

/// Every built-in palette holds as many colours as its size names.
pub proof fn law_builtin_palettes_well_formed()
    ensures
        forall|name: Seq<char>| #[trigger] builtin_palette_map().contains_key(name) ==>
            builtin_palette_map()[name].wf(),
{
}

/// The palette a name resolves to: the project's own palette of that name,
/// else the built-in one.
pub open spec fn resolved_palette(palette_id: Seq<char>, project: Map<Seq<char>, PaletteModel>) -> Option<PaletteModel> {
    if project.contains_key(palette_id) {
        Some(project[palette_id])
    } else if builtin_palette_map().contains_key(palette_id) {
        Some(builtin_palette_map()[palette_id])
    } else {
        None
    }
}

/// Looks a palette up by name, preferring the project's palettes over the
/// built-in ones.
pub fn resolve_palette(palette_id: &str, project_palettes: &PaletteRegistry) -> (r: Option<Palette>)
    ensures
        r is Some <==> resolved_palette(palette_id@, project_palettes@) is Some,
        r matches Some(p) ==> p@ == resolved_palette(palette_id@, project_palettes@).unwrap(),
{
    match project_palettes.get(palette_id) {
        Some(p) => Some(p.duplicate()),
        None => {
            let builtin = builtin_palettes();
            match builtin.get(palette_id) {
                Some(p) => Some(p.duplicate()),
                None => None,
            }
        },
    }
}

// ---------------------------------------------------------------------------
// Palette expansion (mismatch strategy support)
// ---------------------------------------------------------------------------

/// Strategy for handling palette-size mismatches between an atlas and a
/// palette.
#[derive(Debug, Clone, Copy, PartialEq, Eq, Structural)]
pub enum PaletteMismatchStrategy {
    /// Use the palette as-is; unmapped shades keep their canonical gray.
    Lenient,
    /// Linearly interpolate the palette's colour ramp to fill the target size.
    Interpolate,
}

impl Default for PaletteMismatchStrategy {
    fn default() -> (r: Self)
        ensures
            r == PaletteMismatchStrategy::Lenient,
    {
        PaletteMismatchStrategy::Lenient
    }
}

/// The channel value a fraction `r / d` of the way from `a` to `b`,
/// rounded to the nearest integer (with `d` odd no value falls half way).
pub open spec fn lerp_channel(a: u8, b: u8, r: int, d: int) -> int {
    (2 * (a as int * d + (b as int - a as int) * r) + d) / (2 * d)
}

/// Colour `i` of the `m`-colour ramp interpolated from the `n` colours of
/// `colors`: target index `i` maps to `i * (n - 1) / (m - 1)` in the
/// source, between the two bracketing source colours.
pub open spec fn expanded_color(colors: Seq<[u8; 4]>, n: int, m: int, i: int) -> [u8; 4] {
    let t = i * (n - 1);
    let lower = t / (m - 1);
    let r = t % (m - 1);
    let upper = if lower + 1 <= n - 1 { lower + 1 } else { n - 1 };
    let a = colors[lower];
    let b = colors[upper];
    [
        lerp_channel(a@[0], b@[0], r, m - 1) as u8,
        lerp_channel(a@[1], b@[1], r, m - 1) as u8,
        lerp_channel(a@[2], b@[2], r, m - 1) as u8,
        lerp_channel(a@[3], b@[3], r, m - 1) as u8,
    ]
}

/// The palette `source` expanded (or shrunk) to `target` colours.
pub open spec fn expanded_palette(source: PaletteModel, target: PaletteSize) -> PaletteModel {
    let n = source.size.count() as int;
    let m = target.count() as int;
    if n == m {
        source
    } else {
        PaletteModel { size: target, colors: Seq::new(target.count(), |i: int| expanded_color(source.colors, n, m, i)) }
    }
}

fn lerp_u8(a: u8, b: u8, r: u32, d: u32) -> (v: u8)
    requires
        1 <= d <= 255,
        r < d,
    ensures
        v as int == lerp_channel(a, b, r as int, d as int),
{
    assert(0 <= a as int * d as int <= 255 * 255) by (nonlinear_arith)
        requires 0 <= a <= 255, 1 <= d <= 255;
    assert(-255 * 255 <= (b as int - a as int) * r as int <= 255 * 255) by (nonlinear_arith)
        requires 0 <= a <= 255, 0 <= b <= 255, 0 <= r <= 255;
    let num: i64 = a as i64 * d as i64 + (b as i64 - a as i64) * r as i64;
    assert(0 <= num <= 255 * d) by (nonlinear_arith)
        requires
            num == a as int * d as int + (b as int - a as int) * r as int,
            0 <= a <= 255,
            0 <= b <= 255,
            0 <= r < d;
    let q = (2 * num + d as i64) / (2 * d as i64);
    assert(0 <= q <= 255) by (nonlinear_arith)
        requires
            q == (2 * num + d) / (2 * d),
            0 <= num <= 255 * d,
            1 <= d;
    q as u8
}

fn lerp_palette_color(source: &Palette, n: usize, m: usize, i: usize) -> (c: [u8; 4])
    requires
        source@.wf(),
        n == source@.size.count(),
        2 <= m <= 256,
        i < m,
    ensures
        c == expanded_color(source@.colors, n as int, m as int, i as int),
{
    assert(i as int * (n as int - 1) <= 255 * 255) by (nonlinear_arith)
        requires i < m, m <= 256, 4 <= n <= 256;
    let t = i * (n - 1);
    let lower = t / (m - 1);
    let r = t % (m - 1);
    assert(lower <= n - 1) by (nonlinear_arith)
        requires
            t as int == i as int * (n as int - 1),
            lower as int == t as int / (m as int - 1),
            i <= m - 1,
            m >= 2,
            n >= 4;
    let upper = if lower + 1 <= n - 1 { lower + 1 } else { n - 1 };
    let a = source.color(lower);
    let b = source.color(upper);
    let c = [
        lerp_u8(a[0], b[0], r as u32, (m - 1) as u32),
        lerp_u8(a[1], b[1], r as u32, (m - 1) as u32),
        lerp_u8(a[2], b[2], r as u32, (m - 1) as u32),
        lerp_u8(a[3], b[3], r as u32, (m - 1) as u32),
    ];
    assert(c =~= expanded_color(source@.colors, n as int, m as int, i as int));
    c
}

/// Expand (or shrink) `source` to `target_size` by linearly interpolating
/// along the palette's colour ramp.
///
/// For each target index `i` in `0..M`, `t = i * (N - 1) / (M - 1)` maps
/// into the source palette's range, and the colour is interpolated between
/// the two bracketing source colours, each channel rounded to the nearest
/// integer.
pub fn expand_palette(source: &Palette, target_size: PaletteSize) -> (p: Palette)
    requires
        source@.wf(),
    ensures
        p@ == expanded_palette(source@, target_size),
        p@.wf(),
{
    let n = source.size().color_count();
    let m = target_size.color_count();
    if n == m {
        return source.duplicate();
    }
    let mut colors: Vec<[u8; 4]> = Vec::new();
    let mut i: usize = 0;
    while i < m
        invariant
            source@.wf(),
            n == source@.size.count(),
            m == target_size.count(),
            i <= m,
            colors@.len() == i,
            forall|j: int| 0 <= j < i ==> #[trigger] colors@[j] == expanded_color(source@.colors, n as int, m as int, j),
        decreases m - i,
    {
        colors.push(lerp_palette_color(source, n, m, i));
        i = i + 1;
    }
    let p = Palette { size: target_size, colors };
    assert(p@.colors =~= expanded_palette(source@, target_size).colors);
    p
}

proof fn lemma_lerp_at_start(a: u8, b: u8, d: int)
    requires
        d >= 1,
    ensures
        lerp_channel(a, b, 0, d) == a as int,
{
    assert((2 * (a as int * d + (b as int - a as int) * 0) + d) / (2 * d) == a as int) by (nonlinear_arith)
        requires d >= 1, 0 <= a <= 255;
}

/// Expanding a palette keeps its two ends: the first target colour is the
/// first source colour and the last is the last.
pub proof fn law_expand_palette_keeps_endpoints(source: PaletteModel, target: PaletteSize)
    requires
        source.wf(),
    ensures
        expanded_palette(source, target).colors[0] == source.colors[0],
        expanded_palette(source, target).colors[target.count() - 1] == source.colors[source.size.count() - 1],
{
    let n = source.size.count() as int;
    let m = target.count() as int;
    if n != m {
        let e = expanded_palette(source, target);
        let d = m - 1;
        assert(0 * (n - 1) == 0);
        assert(0int / d == 0 && 0int % d == 0);
        let a = source.colors[0];
        let b = source.colors[if 1 <= n - 1 { 1 } else { n - 1 }];
        lemma_lerp_at_start(a@[0], b@[0], d);
        lemma_lerp_at_start(a@[1], b@[1], d);
        lemma_lerp_at_start(a@[2], b@[2], d);
        lemma_lerp_at_start(a@[3], b@[3], d);
        assert(e.colors[0] =~= a);
        let t = (m - 1) * (n - 1);
        assert(t / d == n - 1 && t % d == 0) by (nonlinear_arith)
            requires t == (m - 1) * (n - 1), d == m - 1, d >= 1;
        let z = source.colors[n - 1];
        lemma_lerp_at_start(z@[0], z@[0], d);
        lemma_lerp_at_start(z@[1], z@[1], d);
        lemma_lerp_at_start(z@[2], z@[2], d);
        lemma_lerp_at_start(z@[3], z@[3], d);
        assert(e.colors[m - 1] =~= z);
    }
}

proof fn lemma_lerp_between(a: u8, b: u8, r: int, d: int)
    requires
        d >= 1,
        0 <= r < d,
    ensures
        a <= b ==> a <= lerp_channel(a, b, r, d) <= b,
        b <= a ==> b <= lerp_channel(a, b, r, d) <= a,
{
    let x = a as int;
    let y = b as int;
    let v = lerp_channel(a, b, r, d);
    assert(v == (2 * (x * d + (y - x) * r) + d) / (2 * d));
    if x <= y {
        assert(x <= (2 * (x * d + (y - x) * r) + d) / (2 * d) <= y) by (nonlinear_arith)
            requires d >= 1, 0 <= r < d, x <= y;
    } else {
        assert(y <= (2 * (x * d + (y - x) * r) + d) / (2 * d) <= x) by (nonlinear_arith)
            requires d >= 1, 0 <= r < d, y < x;
    }
}

/// The smaller and larger of two channel values.
pub open spec fn channel_min(a: u8, b: u8) -> u8 {
    if a <= b { a } else { b }
}

pub open spec fn channel_max(a: u8, b: u8) -> u8 {
    if a <= b { b } else { a }
}

/// An expanded colour lies between the two source colours it is
/// interpolated from, channel by channel: interpolation never overshoots.
pub proof fn law_expanded_colors_lie_between_neighbours(source: PaletteModel, target: PaletteSize, i: int)
    requires
        source.wf(),
        source.size != target,
        0 <= i < target.count(),
    ensures
        ({
            let n = source.size.count() as int;
            let m = target.count() as int;
            let lower = i * (n - 1) / (m - 1);
            let upper = if lower + 1 <= n - 1 { lower + 1 } else { n - 1 };
            let c = expanded_palette(source, target).colors[i];
            forall|k: int| 0 <= k < 4 ==>
                channel_min(source.colors[lower]@[k], source.colors[upper]@[k]) <= #[trigger] c@[k]
                    && c@[k] <= channel_max(source.colors[lower]@[k], source.colors[upper]@[k])
        }),
{
    let n = source.size.count() as int;
    let m = target.count() as int;
    let d = m - 1;
    let t = i * (n - 1);
    assert(n >= 4 && m >= 4);
    assert(0 <= t);
    let lower = t / d;
    let r = t % d;
    assert(0 <= r < d);
    assert(lower <= n - 1) by (nonlinear_arith)
        requires t == i * (n - 1), 0 <= i <= d, d >= 1, n >= 1, lower == t / d;
    assert(0 <= lower);
    let upper = if lower + 1 <= n - 1 { lower + 1 } else { n - 1 };
    let a = source.colors[lower];
    let b = source.colors[upper];
    lemma_lerp_between(a@[0], b@[0], r, d);
    lemma_lerp_between(a@[1], b@[1], r, d);
    lemma_lerp_between(a@[2], b@[2], r, d);
    lemma_lerp_between(a@[3], b@[3], r, d);
    let c = expanded_palette(source, target).colors[i];
    assert(c == expanded_color(source.colors, n, m, i));
    assert forall|k: int| 0 <= k < 4 implies
        channel_min(a@[k], b@[k]) <= #[trigger] c@[k] && c@[k] <= channel_max(a@[k], b@[k]) by {
        if k == 0 {
            assert(c@[0] == lerp_channel(a@[0], b@[0], r, d) as u8);
        } else if k == 1 {
            assert(c@[1] == lerp_channel(a@[1], b@[1], r, d) as u8);
        } else if k == 2 {
            assert(c@[2] == lerp_channel(a@[2], b@[2], r, d) as u8);
        } else {
            assert(c@[3] == lerp_channel(a@[3], b@[3], r, d) as u8);
        }
    }
}

/// Every palette size survives the trip through its colour count.
pub proof fn law_palette_size_count_roundtrip(size: PaletteSize)
    ensures
        PaletteSize::of_count(size.count() as int) == Some(size),
        size.count() <= u16::MAX,
{
}

} // verus!
