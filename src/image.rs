use vstd::prelude::*;

use vstd::arithmetic::div_mod::lemma_fundamental_div_mod_converse;
use vstd::arithmetic::mul::lemma_mul_inequality;

verus! {

/// The pixel `(column, row)` written in place `k` of an image `width` pixels
/// wide and `height` rows high: rows from the top (`height - 1`) down to 0,
/// columns from 0 up to `width - 1` within a row.
pub open spec fn pixel_at(k: int, width: u32, height: u32) -> (u32, u32) {
    ((k % width as int) as u32, (height - 1 - k / width as int) as u32)
}

/// Every pixel of the image, in the order in which the image is written.
pub fn pixel_order(width: u32, height: u32) -> (r: Vec<(u32, u32)>)
    requires
        width as int * height as int <= usize::MAX,
    ensures
        r@.len() == width as int * height as int,
        forall|k: int| 0 <= k < r@.len() ==> #[trigger] r@[k] == pixel_at(k, width, height),
{
    let mut r: Vec<(u32, u32)> = Vec::new();
    let mut row: u32 = height;
    while row > 0
        invariant
            row <= height,
            width as int * height as int <= usize::MAX,
            r@.len() == (height - row) as int * width as int,
            forall|k: int| 0 <= k < r@.len() ==> #[trigger] r@[k] == pixel_at(k, width, height),
        decreases row,
    {
        row -= 1;
        let mut col: u32 = 0;
        while col < width
            invariant
                col <= width,
                row < height,
                width as int * height as int <= usize::MAX,
                r@.len() == (height - 1 - row) as int * width as int + col,
                forall|k: int| 0 <= k < r@.len() ==> #[trigger] r@[k] == pixel_at(k, width, height),
            decreases width - col,
        {
            let ghost k = r@.len() as int;
            proof {
                lemma_fundamental_div_mod_converse(
                    k,
                    width as int,
                    (height - 1 - row) as int,
                    col as int,
                );
                lemma_mul_inequality((height - 1 - row) as int, (height - 1) as int, width as int);
                assert((height - 1 - row) as int * width as int + col < height as int
                    * width as int) by (nonlinear_arith)
                    requires
                        col < width,
                        row < height,
                ;
            }
            r.push((col, row));
            col += 1;
        }
        assert((height - 1 - row) as int * width as int + width == (height - row) as int
            * width as int) by (nonlinear_arith);
    }
    assert(height as int * width as int == width as int * height as int) by (nonlinear_arith);
    r
}

/// ASCII bytes of `n` in decimal, without leading zeros.
pub open spec fn decimal(n: nat) -> Seq<u8>
    decreases n,
{
    if n < 10 {
        seq![(48 + n) as u8]
    } else {
        decimal(n / 10) + seq![(48 + n % 10) as u8]
    }
}

/// The image header: format tag, width and height, maximum channel value.
pub open spec fn header_text(width: u32, height: u32) -> Seq<u8> {
    seq![80u8, 51u8, 10u8] + decimal(width as nat) + seq![32u8] + decimal(height as nat) + seq![
        10u8,
        50u8,
        53u8,
        53u8,
        10u8,
    ]
}

/// One pixel line: the three channels in decimal, separated by spaces.
pub open spec fn pixel_text(r: u8, g: u8, b: u8) -> Seq<u8> {
    decimal(r as nat) + seq![32u8] + decimal(g as nat) + seq![32u8] + decimal(b as nat) + seq![
        10u8,
    ]
}

/// Appends `n` in decimal to `out`.
fn push_decimal(out: &mut Vec<u8>, n: u32)
    ensures
        final(out)@ == old(out)@ + decimal(n as nat),
    decreases n,
{
    if n >= 10 {
        push_decimal(out, n / 10);
    }
    let digit: u8 = (n % 10) as u8;
    out.push(48 + digit);
    proof {
        if n >= 10 {
            assert(final(out)@ == old(out)@ + (decimal((n / 10) as nat) + seq![(48 + n % 10) as u8]));
        } else {
            assert(final(out)@ == old(out)@ + seq![(48 + n) as u8]);
        }
    }
}

/// The header of a plain-text RGB image: the two-letter format tag, width
/// and height, and the largest channel value 255, one item per line.
pub fn ppm_header(width: u32, height: u32) -> (r: Vec<u8>)
    ensures
        r@ == header_text(width, height),
{
    let mut r: Vec<u8> = Vec::new();
    r.push(80);
    r.push(51);
    r.push(10);
    push_decimal(&mut r, width);
    r.push(32);
    push_decimal(&mut r, height);
    r.push(10);
    push_decimal(&mut r, 255);
    r.push(10);
    assert(decimal(255) =~= seq![50u8, 53u8, 53u8]) by {
        reveal_with_fuel(decimal, 3);
    }
    assert(r@ =~= header_text(width, height));
    r
}

/// The line of one quantized pixel: red, green and blue in decimal,
/// separated by single spaces and ended by a newline.
pub fn pixel_line(red: u8, green: u8, blue: u8) -> (r: Vec<u8>)
    ensures
        r@ == pixel_text(red, green, blue),
{
    let mut r: Vec<u8> = Vec::new();
    push_decimal(&mut r, red as u32);
    r.push(32);
    push_decimal(&mut r, green as u32);
    r.push(32);
    push_decimal(&mut r, blue as u32);
    r.push(10);
    assert(r@ =~= pixel_text(red, green, blue));
    r
}

} // verus!
