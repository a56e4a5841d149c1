use vstd::prelude::*;

verus! {

// Plain-text PPM ("P3"): a header with the size and the largest channel
// value, then the channel values of every pixel, row by row, in decimal.
// A row of the image starts a new line, and a line is also broken before a
// value that would not fit, with the space that follows it, in
// `MAX_LINE_LENGTH` characters.

pub const MAX_LINE_LENGTH: usize = 70;

pub const MAX_CHANNEL_VALUE: u32 = 255;

/// The ASCII decimal digits of `n`, most significant first.
pub open spec fn decimal(n: nat) -> Seq<u8>
    decreases n,
{
    if n < 10 {
        seq![(48 + n) as u8]
    } else {
        decimal(n / 10).push((48 + n % 10) as u8)
    }
}

pub proof fn lemma_decimal_len(n: nat)
    requires
        n < 1000,
    ensures
        decimal(n).len() == if n >= 100 {
            3nat
        } else if n >= 10 {
            2nat
        } else {
            1nat
        },
{
    if n >= 10 {
        let m = n / 10;
        if m >= 10 {
            assert(decimal(m / 10).len() == 1);
            assert(decimal(m).len() == 2);
        } else {
            assert(decimal(m).len() == 1);
        }
        assert(decimal(n).len() == decimal(m).len() + 1);
    }
}

/// Appends the decimal digits of `n`.
fn push_decimal(out: &mut Vec<u8>, n: u32)
    ensures
        final(out)@ == old(out)@ + decimal(n as nat),
    decreases n,
{
    if n >= 10 {
        push_decimal(out, n / 10);
    }
    out.push(48u8 + (n % 10) as u8);
    assert(final(out)@ =~= old(out)@ + decimal(n as nat));
}

/// Length of the line that holds the `i`-th value, counted up to and
/// including that value, when values of rows of `row_len` values are laid
/// out.
pub open spec fn line_length(values: Seq<u8>, row_len: nat, i: nat) -> nat
    decreases i,
{
    let d = decimal(values[i as int] as nat).len();
    if i == 0 || i % row_len == 0 || line_length(values, row_len, (i - 1) as nat) + d + 2
        > MAX_LINE_LENGTH {
        d
    } else {
        line_length(values, row_len, (i - 1) as nat) + 1 + d
    }
}

/// A new line starts before the `i`-th value (`i > 0`): a new row begins, or
/// the value and the space after it do not fit on the current line.
pub open spec fn breaks_before(values: Seq<u8>, row_len: nat, i: nat) -> bool {
    i % row_len == 0 || line_length(values, row_len, (i - 1) as nat) + decimal(
        values[i as int] as nat,
    ).len() + 2 > MAX_LINE_LENGTH
}

/// The text of the first `n` values: each after a line break or a space, as
/// the layout decides, but the first.
pub open spec fn values_text(values: Seq<u8>, row_len: nat, n: nat) -> Seq<u8>
    decreases n,
{
    if n == 0 {
        seq![]
    } else {
        let i = (n - 1) as nat;
        let sep: Seq<u8> = if i == 0 {
            seq![]
        } else if breaks_before(values, row_len, i) {
            seq![10u8]
        } else {
            seq![32u8]
        };
        values_text(values, row_len, i) + sep + decimal(values[i as int] as nat)
    }
}

/// The header: format tag, width and height, largest channel value.
pub open spec fn header_text(width: nat, height: nat) -> Seq<u8> {
    seq![80u8, 51u8, 10u8] + decimal(width) + seq![32u8] + decimal(height) + seq![10u8] + decimal(
        MAX_CHANNEL_VALUE as nat,
    ) + seq![10u8]
}

/// Every line, with the space that would follow its last value, fits in
/// `MAX_LINE_LENGTH` characters.
pub proof fn lemma_lines_fit(values: Seq<u8>, row_len: nat, i: nat)
    requires
        i < values.len(),
    ensures
        line_length(values, row_len, i) + 1 <= MAX_LINE_LENGTH,
    decreases i,
{
    lemma_decimal_len(values[i as int] as nat);
    if i > 0 {
        lemma_lines_fit(values, row_len, (i - 1) as nat);
    }
}

/// The header of a PPM image of the given size.
pub fn ppm_header(width: u32, height: u32) -> (text: Vec<u8>)
    ensures
        text@ == header_text(width as nat, height as nat),
{
    let mut text: Vec<u8> = Vec::new();
    text.push(80u8);
    text.push(51u8);
    text.push(10u8);
    push_decimal(&mut text, width);
    text.push(32u8);
    push_decimal(&mut text, height);
    text.push(10u8);
    push_decimal(&mut text, MAX_CHANNEL_VALUE);
    text.push(10u8);
    assert(text@ =~= header_text(width as nat, height as nat));
    text
}

/// The pixel data of a PPM image `width` pixels wide whose channel values,
/// three per pixel, are `channels`: the laid-out values and a final line
/// break.
pub fn ppm_pixel_data(width: u32, channels: &Vec<u8>) -> (text: Vec<u8>)
    requires
        width > 0,
    ensures
        channels@.len() == 0 ==> text@.len() == 0,
        channels@.len() > 0 ==> text@ == values_text(channels@, 3 * width as nat, channels@.len()).push(
            10u8,
        ),
{
    let row_len: u64 = 3 * width as u64;
    let ghost rl = row_len as nat;
    let mut text: Vec<u8> = Vec::new();
    let mut line: usize = 0;
    let mut i: usize = 0;
    while i < channels.len()
        invariant
            0 <= i <= channels@.len(),
            rl == row_len == 3 * width as nat,
            row_len > 0,
            text@ == values_text(channels@, rl, i as nat),
            i > 0 ==> line == line_length(channels@, rl, (i - 1) as nat),
            i > 0 ==> line + 1 <= MAX_LINE_LENGTH,
        decreases channels@.len() - i,
    {
        let v = channels[i];
        let d: usize = if v >= 100 {
            3
        } else if v >= 10 {
            2
        } else {
            1
        };
        proof {
            lemma_decimal_len(v as nat);
        }
        let ghost before = text@;
        if i == 0 {
            line = d;
        } else if (i as u64) % row_len == 0 || line + d + 2 > MAX_LINE_LENGTH {
            text.push(10u8);
            line = d;
        } else {
            text.push(32u8);
            line = line + 1 + d;
        }
        push_decimal(&mut text, v as u32);
        proof {
            assert(text@ =~= values_text(channels@, rl, (i + 1) as nat));
            lemma_lines_fit(channels@, rl, i as nat);
        }
        i = i + 1;
    }
    if i > 0 {
        text.push(10u8);
    }
    text
}

/// A complete PPM image: the header, then the pixel data.
pub fn encode_ppm(width: u32, height: u32, channels: &Vec<u8>) -> (text: Vec<u8>)
    requires
        width > 0,
    ensures
        channels@.len() == 0 ==> text@ == header_text(width as nat, height as nat),
        channels@.len() > 0 ==> text@ == header_text(width as nat, height as nat) + values_text(
            channels@,
            3 * width as nat,
            channels@.len(),
        ).push(10u8),
{
    let mut text = ppm_header(width, height);
    let mut data = ppm_pixel_data(width, channels);
    text.append(&mut data);
    text
}

} // verus!
