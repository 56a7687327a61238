//! Zero-padded decimal numbering of output files.
use vstd::prelude::*;

verus! {

/// The decimal digit character for `d < 10`.
pub open spec fn digit_char(d: nat) -> char {
    if d == 0 {
        '0'
    } else if d == 1 {
        '1'
    } else if d == 2 {
        '2'
    } else if d == 3 {
        '3'
    } else if d == 4 {
        '4'
    } else if d == 5 {
        '5'
    } else if d == 6 {
        '6'
    } else if d == 7 {
        '7'
    } else if d == 8 {
        '8'
    } else {
        '9'
    }
}

/// The decimal representation of `n`, without leading zeros.
pub open spec fn decimal(n: nat) -> Seq<char>
    decreases n,
{
    if n < 10 {
        seq![digit_char(n)]
    } else {
        decimal(n / 10).push(digit_char(n % 10))
    }
}

/// `n` in decimal, left-padded with zeros to at least three digits.
pub open spec fn pad3(n: nat) -> Seq<char> {
    if n < 10 {
        seq!['0', '0'] + decimal(n)
    } else if n < 100 {
        seq!['0'] + decimal(n)
    } else {
        decimal(n)
    }
}

/// The literal holding the single digit `d`.
fn digit_str(d: u64) -> (r: &'static str)
    requires
        d < 10,
    ensures
        r@ == seq![digit_char(d as nat)],
{
    proof {
        reveal_strlit("0");
        reveal_strlit("1");
        reveal_strlit("2");
        reveal_strlit("3");
        reveal_strlit("4");
        reveal_strlit("5");
        reveal_strlit("6");
        reveal_strlit("7");
        reveal_strlit("8");
        reveal_strlit("9");
    }
    let r = if d == 0 {
        "0"
    } else if d == 1 {
        "1"
    } else if d == 2 {
        "2"
    } else if d == 3 {
        "3"
    } else if d == 4 {
        "4"
    } else if d == 5 {
        "5"
    } else if d == 6 {
        "6"
    } else if d == 7 {
        "7"
    } else if d == 8 {
        "8"
    } else {
        "9"
    };
    assert(r@ =~= seq![digit_char(d as nat)]);
    r
}

/// Appends the decimal representation of `n` to `out`.
pub fn push_decimal(out: &mut String, n: u64)
    ensures
        final(out)@ == old(out)@ + decimal(n as nat),
    decreases n,
{
    if n < 10 {
        out.append(digit_str(n));
    } else {
        push_decimal(out, n / 10);
        out.append(digit_str(n % 10));
        assert(final(out)@ =~= old(out)@ + decimal(n as nat));
    }
}

/// Appends `n` zero-padded to three digits (the `{:03}` form) to `out`.
pub fn push_pad3(out: &mut String, n: u64)
    ensures
        final(out)@ == old(out)@ + pad3(n as nat),
{
    proof {
        reveal_strlit("00");
        reveal_strlit("0");
    }
    if n < 10 {
        out.append("00");
    } else if n < 100 {
        out.append("0");
    }
    push_decimal(out, n);
    assert(final(out)@ =~= old(out)@ + pad3(n as nat));
}

/// `n` zero-padded to three digits.
pub fn pad3_string(n: u64) -> (r: String)
    ensures
        r@ == pad3(n as nat),
{
    let mut r = String::new();
    push_pad3(&mut r, n);
    assert(r@ =~= pad3(n as nat));
    r
}

/// The file name `NNN.md` of chapter `i`.
pub open spec fn chapter_name(i: nat) -> Seq<char> {
    pad3(i) + seq!['.', 'm', 'd']
}

/// The file name `GGG.NNN.jpg` of image `n` of gallery `g`.
pub open spec fn image_name(g: nat, n: nat) -> Seq<char> {
    pad3(g) + seq!['.'] + pad3(n) + seq!['.', 'j', 'p', 'g']
}

/// Appends the file name of chapter `i` to `out`.
pub fn push_chapter_name(out: &mut String, i: usize)
    ensures
        final(out)@ == old(out)@ + chapter_name(i as nat),
{
    proof {
        reveal_strlit(".md");
    }
    push_pad3(out, i as u64);
    out.append(".md");
    assert(final(out)@ =~= old(out)@ + chapter_name(i as nat));
}

/// Appends the file name of image `n` of gallery `g` to `out`.
pub fn push_image_name(out: &mut String, g: usize, n: usize)
    ensures
        final(out)@ == old(out)@ + image_name(g as nat, n as nat),
{
    proof {
        reveal_strlit(".");
        reveal_strlit(".jpg");
    }
    push_pad3(out, g as u64);
    out.append(".");
    push_pad3(out, n as u64);
    out.append(".jpg");
    assert(final(out)@ =~= old(out)@ + image_name(g as nat, n as nat));
}

/// The output file name of chapter `i`.
pub fn chapter_file_name(i: usize) -> (r: String)
    ensures
        r@ == chapter_name(i as nat),
{
    let mut r = String::new();
    push_chapter_name(&mut r, i);
    assert(r@ =~= chapter_name(i as nat));
    r
}

/// The output file name of image `n` of gallery `g`.
pub fn image_file_name(g: usize, n: usize) -> (r: String)
    ensures
        r@ == image_name(g as nat, n as nat),
{
    let mut r = String::new();
    push_image_name(&mut r, g, n);
    assert(r@ =~= image_name(g as nat, n as nat));
    r
}

} // verus!
