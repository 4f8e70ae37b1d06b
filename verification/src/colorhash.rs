//! Like Chroma-Hash, but with ANSI terminal colours: four colours of the
//! 256-colour palette derived from a hash of what was typed, each shown as a
//! pair of stars.

use rand::Rng;
use sha3::Digest;
use vstd::prelude::*;
use crate::encoding::{char_bytes, push_char};

verus! {

/// The colour that a raw byte is turned into: one of the 216 colours of the
/// 6x6x6 cube of the 256-colour palette (indices 16 to 231).
pub open spec fn cube_color(b: u8) -> u8 {
    (16 + b % 216) as u8
}

/// True of the palette indices that lie in the colour cube.
pub open spec fn is_cube_color(c: u8) -> bool {
    16 <= c < 232
}

/// The four colours that a digest is shown as: its first four bytes, each
/// mapped into the colour cube.
pub open spec fn digest_colors(digest: Seq<u8>) -> Seq<u8>
    recommends
        digest.len() >= 4,
{
    seq![
        cube_color(digest[0]),
        cube_color(digest[1]),
        cube_color(digest[2]),
        cube_color(digest[3]),
    ]
}

/// The SHA3-256 digest of `data`.
pub uninterp spec fn sha3_256(data: Seq<u8>) -> Seq<u8>;

/// The colours shown for the typed bytes `data`.
pub open spec fn hash_colors(data: Seq<u8>) -> Seq<u8> {
    digest_colors(sha3_256(data))
}

/// Decimal digits (ASCII) of `n`, without leading zeros.
pub open spec fn decimal(n: nat) -> Seq<u8>
    decreases n,
{
    if n < 10 {
        seq![(48 + n) as u8]
    } else {
        decimal(n / 10) + seq![(48 + n % 10) as u8]
    }
}

/// `ESC [ 38 ; 5 ; <c> m`: sets the foreground to colour `c` of the 256-colour palette.
pub open spec fn fg_color_code(c: u8) -> Seq<u8> {
    seq![0x1bu8, 0x5b, 0x33, 0x38, 0x3b, 0x35, 0x3b] + decimal(c as nat) + seq![0x6du8]
}

/// `ESC [ 39 m`: back to the default foreground colour.
pub open spec fn fg_reset_code() -> Seq<u8> {
    seq![0x1bu8, 0x5b, 0x33, 0x39, 0x6d]
}

/// One cell per colour: the colour code, then the star twice.
pub open spec fn star_cells(colors: Seq<u8>, star: char) -> Seq<u8>
    decreases colors.len(),
{
    if colors.len() == 0 {
        Seq::empty()
    } else {
        star_cells(colors.drop_last(), star) + fg_color_code(colors.last()) + char_bytes(star)
            + char_bytes(star)
    }
}

/// The bytes that show `colors` as pairs of stars and then restore the colour.
pub open spec fn rendered(colors: Seq<u8>, star: char) -> Seq<u8> {
    star_cells(colors, star) + fg_reset_code()
}

/// Four colours and the star that shows them.
pub struct ColorStar {
    colors: [u8; 4],
    star: char,
}

impl ColorStar {
    /// The four palette indices.
    pub closed spec fn spec_colors(self) -> Seq<u8> {
        self.colors@
    }

    /// The star character.
    pub closed spec fn spec_star(self) -> char {
        self.star
    }

    /// Stars of palette colour 0, as shown for an empty passphrase.
    pub fn from(star: char) -> (r: ColorStar)
        ensures
            r.spec_colors() == seq![0u8, 0, 0, 0],
            r.spec_star() == star,
    {
        let r = ColorStar { colors: [0u8, 0, 0, 0], star };
        assert(r.colors@ =~= seq![0u8, 0, 0, 0]);
        r
    }

    /// Stars of palette colour 30, as the prompt is first drawn, before
    /// anything is typed.
    pub fn idle(star: char) -> (r: ColorStar)
        ensures
            r.spec_colors() == seq![30u8, 30, 30, 30],
            r.spec_star() == star,
    {
        let r = ColorStar { colors: [30u8, 30, 30, 30], star };
        assert(r.colors@ =~= seq![30u8, 30, 30, 30]);
        r
    }

    /// The four palette indices.
    pub fn colors(&self) -> (r: [u8; 4])
        ensures
            r@ == self.spec_colors(),
    {
        self.colors
    }

    /// The star character.
    pub fn star(&self) -> (r: char)
        ensures
            r == self.spec_star(),
    {
        self.star
    }

    /// Appends to `out` the bytes that show the stars in their colours:
    /// for each colour its code and the star twice, then the reset code.
    pub fn write_to(&self, out: &mut Vec<u8>)
        ensures
            final(out)@ == old(out)@ + rendered(self.spec_colors(), self.spec_star()),
    {
        let ghost cs = self.colors@;
        let mut i: usize = 0;
        while i < 4
            invariant
                i <= 4,
                cs == self.colors@,
                cs.len() == 4,
                out@ == old(out)@ + star_cells(cs.take(i as int), self.star),
            decreases 4 - i,
        {
            let c = self.colors[i];
            push_fg_color_code(out, c);
            push_char(out, self.star);
            push_char(out, self.star);
            proof {
                let t = cs.take(i + 1);
                assert(t.drop_last() =~= cs.take(i as int));
                assert(t.last() == c);
                assert(out@ =~= old(out)@ + star_cells(t, self.star));
            }
            i = i + 1;
        }
        assert(cs.take(4) =~= cs);
        let ghost before = out@;
        out.push(0x1b);
        out.push(0x5b);
        out.push(0x33);
        out.push(0x39);
        out.push(0x6d);
        assert(out@ =~= before + fg_reset_code());
    }
}

/// Appends the decimal digits of `n`.
fn push_decimal(out: &mut Vec<u8>, n: u8)
    ensures
        final(out)@ == old(out)@ + decimal(n as nat),
{
    proof {
        reveal_with_fuel(decimal, 3);
    }
    if n >= 100 {
        out.push(48 + n / 100);
        out.push(48 + (n / 10) % 10);
        out.push(48 + n % 10);
        assert(decimal(n as nat) =~= seq![(48 + n / 100) as u8, (48 + (n / 10) % 10) as u8, (48 + n % 10) as u8]);
    } else if n >= 10 {
        out.push(48 + n / 10);
        out.push(48 + n % 10);
        assert(decimal(n as nat) =~= seq![(48 + n / 10) as u8, (48 + n % 10) as u8]);
    } else {
        out.push(48 + n);
    }
    assert(out@ =~= old(out)@ + decimal(n as nat));
}

/// Appends `ESC [ 38 ; 5 ; <c> m`.
fn push_fg_color_code(out: &mut Vec<u8>, c: u8)
    ensures
        final(out)@ == old(out)@ + fg_color_code(c),
{
    out.push(0x1b);
    out.push(0x5b);
    out.push(0x33);
    out.push(0x38);
    out.push(0x3b);
    out.push(0x35);
    out.push(0x3b);
    push_decimal(out, c);
    out.push(0x6d);
    assert(out@ =~= old(out)@ + fg_color_code(c));
}

/// Maps every byte of `colors` into the colour cube of the palette.
pub fn mask_colors(colors: &mut [u8])
    ensures
        final(colors)@.len() == old(colors)@.len(),
        forall|i: int|
            0 <= i < old(colors)@.len() ==> #[trigger] final(colors)@[i] == cube_color(
                old(colors)@[i],
            ),
{
    let n = colors.len();
    let mut i: usize = 0;
    while i < n
        invariant
            n == colors@.len(),
            colors@.len() == old(colors)@.len(),
            i <= n,
            forall|j: int| 0 <= j < i ==> #[trigger] colors@[j] == cube_color(old(colors)@[j]),
            forall|j: int| i <= j < n ==> #[trigger] colors@[j] == old(colors)@[j],
        decreases n - i,
    {
        let b = colors[i];
        colors[i] = 16 + b % 216;
        i = i + 1;
    }
}

/// The colours shown for a digest: its first four bytes mapped into the
/// colour cube.
pub fn colors_from_digest(star: char, digest: &[u8]) -> (r: ColorStar)
    requires
        digest@.len() >= 4,
    ensures
        r.spec_colors() == digest_colors(digest@),
        r.spec_star() == star,
{
    let mut colors: [u8; 4] = [digest[0], digest[1], digest[2], digest[3]];
    mask_colors(&mut colors);
    let r = ColorStar { colors, star };
    assert(r.colors@ =~= digest_colors(digest@));
    r
}

/// Hashes the given bytes and encodes the result as ANSI terminal colours.
pub fn hash_chars_as_color(star: char, chars: &[u8]) -> (r: ColorStar)
    ensures
        r.spec_colors() == hash_colors(chars@),
        r.spec_star() == star,
{
    let digest = sha3_256_digest(chars);
    colors_from_digest(star, digest.as_slice())
}

/// Stars of four random colours of the colour cube: four random bytes,
/// each mapped into the cube as a digest's bytes are.
pub fn random_color(star: char) -> (r: ColorStar)
    ensures
        exists|draw: Seq<u8>| draw.len() == 4 && r.spec_colors() == #[trigger] digest_colors(draw),
        r.spec_colors().len() == 4,
        forall|i: int| 0 <= i < 4 ==> is_cube_color(#[trigger] r.spec_colors()[i]),
        r.spec_star() == star,
{
    let draw = random_bytes();
    let r = colors_from_digest(star, &draw);
    assert(r.spec_colors() == digest_colors(draw@));
    r
}

/// `sha3::Sha3_256::digest`: the SHA3-256 digest of `data`. Trusted to be
/// the value named `sha3_256` of the bytes, 32 bytes long, as the sha3
/// crate's output size for this hash says.
#[verifier::external_body]
fn sha3_256_digest(data: &[u8]) -> (d: Vec<u8>)
    ensures
        d@ == sha3_256(data@),
        d@.len() == 32,
{
    sha3::Sha3_256::digest(data).to_vec()
}

/// `rand::Rng::fill` on the thread-local generator of `rand::thread_rng`:
/// four random bytes. Nothing is claimed of their values. The generator
/// panics only when the operating system's random source fails.
#[verifier::external_body]
pub(crate) fn random_bytes() -> (r: [u8; 4]) {
    let mut b = [0u8; 4];
    rand::thread_rng().fill(&mut b);
    b
}

} // verus!
