//! Display-facing configuration and the color parser used for it.
//!
//! The renderer itself (window, canvas, scaling) is presentation work that
//! lives outside this library; only its configuration and the `#rrggbb`
//! color parsing are logic worth stating exactly.

use vstd::prelude::*;

verus! {

use vstd::string::StringSliceAdditionalSpecFns;

/// Options the host passes to the renderer.
pub struct Config<'a> {
    pub fullscreen: bool,
    pub software_render: bool,
    pub fg_hex: &'a str,
    pub bg_hex: &'a str,
}

/// True if `b` is the ASCII code of a hexadecimal digit.
pub open spec fn is_hex_digit(b: u8) -> bool {
    (0x30 <= b <= 0x39) || (0x41 <= b <= 0x46) || (0x61 <= b <= 0x66)
}

/// Numeric value of the ASCII hex digit `b`.
pub open spec fn hex_val(b: u8) -> u8
    recommends
        is_hex_digit(b),
{
    if 0x30 <= b <= 0x39 {
        (b - 0x30) as u8
    } else if 0x41 <= b <= 0x46 {
        (b - 0x41 + 10) as u8
    } else {
        (b - 0x61 + 10) as u8
    }
}

/// `bytes` with every leading `#` removed.
pub open spec fn strip_hashes(bytes: Seq<u8>) -> Seq<u8>
    decreases bytes.len(),
{
    if bytes.len() > 0 && bytes[0] == 0x23 {
        strip_hashes(bytes.skip(1))
    } else {
        bytes
    }
}

/// True if `bytes` spells a color: exactly six hex digits.
pub open spec fn is_color_code(bytes: Seq<u8>) -> bool {
    bytes.len() == 6 && forall|k: int| 0 <= k < 6 ==> is_hex_digit(#[trigger] bytes[k])
}

/// The byte named by the hex digits at positions `2i` and `2i + 1`.
pub open spec fn color_component(bytes: Seq<u8>, i: int) -> u8
    recommends
        is_color_code(bytes),
        0 <= i < 3,
{
    (hex_val(bytes[2 * i]) * 16 + hex_val(bytes[2 * i + 1])) as u8
}

/// Numeric value of one ASCII hex digit, or `Err` if `b` is no such digit.
fn hex_digit(b: u8) -> (r: Result<u8, ()>)
    ensures
        r is Ok <==> is_hex_digit(b),
        is_hex_digit(b) ==> r == Ok::<u8, ()>(hex_val(b)),
{
    if 0x30 <= b && b <= 0x39 {
        Ok(b - 0x30)
    } else if 0x41 <= b && b <= 0x46 {
        Ok(b - 0x41 + 10)
    } else if 0x61 <= b && b <= 0x66 {
        Ok(b - 0x61 + 10)
    } else {
        Err(())
    }
}

proof fn lemma_strip_hashes_at(bytes: Seq<u8>, i: int)
    requires
        0 <= i <= bytes.len(),
        forall|j: int| 0 <= j < i ==> bytes[j] == 0x23,
        i == bytes.len() || bytes[i] != 0x23,
    ensures
        strip_hashes(bytes) =~= bytes.skip(i),
    decreases i,
{
    if i > 0 {
        lemma_strip_hashes_at(bytes.skip(1), i - 1);
        assert(bytes.skip(1).skip(i - 1) =~= bytes.skip(i));
    }
}

/// Parses a `#rrggbb` color string into its red, green and blue bytes.
///
/// Any number of leading `#` characters is ignored; what remains must be
/// exactly six hexadecimal digits (either case), else the string is rejected.
pub fn hex_to_rgb(hex: &str) -> (r: Result<(u8, u8, u8), ()>)
    ensures
        ({
            let t = strip_hashes(hex.spec_bytes());
            if is_color_code(t) {
                r == Ok::<(u8, u8, u8), ()>(
                    (color_component(t, 0), color_component(t, 1), color_component(t, 2)),
                )
            } else {
                r == Err::<(u8, u8, u8), ()>(())
            }
        }),
{
    let bytes = hex.as_bytes();
    let n = bytes.len();
    let mut start: usize = 0;
    while start < n && bytes[start] == 0x23
        invariant
            0 <= start <= n,
            n == bytes@.len(),
            bytes@ == hex.spec_bytes(),
            forall|j: int| 0 <= j < start ==> bytes@[j] == 0x23,
        decreases n - start,
    {
        start = start + 1;
    }
    proof {
        lemma_strip_hashes_at(bytes@, start as int);
    }
    let ghost t = strip_hashes(hex.spec_bytes());
    if n - start != 6 {
        return Err(());
    }
    assert(forall|k: int| 0 <= k < 6 ==> t[k] == bytes@[start + k]);
    let d0 = hex_digit(bytes[start])?;
    let d1 = hex_digit(bytes[start + 1])?;
    let d2 = hex_digit(bytes[start + 2])?;
    let d3 = hex_digit(bytes[start + 3])?;
    let d4 = hex_digit(bytes[start + 4])?;
    let d5 = hex_digit(bytes[start + 5])?;
    assert(is_color_code(t));
    Ok((d0 * 16 + d1, d2 * 16 + d3, d4 * 16 + d5))
}

} // verus!
