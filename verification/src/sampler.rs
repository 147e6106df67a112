use vstd::prelude::*;

verus! {

/// The decimal digit `d` (`0 <= d < 10`) as a character.
pub open spec fn digit_char(d: int) -> char {
    seq!['0', '1', '2', '3', '4', '5', '6', '7', '8', '9'][d]
}

/// The decimal representation of `n`, without leading zeros.
pub open spec fn decimal(n: nat) -> Seq<char>
    decreases n,
{
    if n < 10 {
        seq![digit_char(n as int)]
    } else {
        decimal(n / 10).push(digit_char((n % 10) as int))
    }
}

/// The text of the decimal digit `d`.
fn digit_str(d: u32) -> (s: &'static str)
    requires
        d < 10,
    ensures
        s@ == seq![digit_char(d as int)],
{
    match d {
        0 => {
            proof {
                reveal_strlit("0");
            }
            "0"
        },
        1 => {
            proof {
                reveal_strlit("1");
            }
            "1"
        },
        2 => {
            proof {
                reveal_strlit("2");
            }
            "2"
        },
        3 => {
            proof {
                reveal_strlit("3");
            }
            "3"
        },
        4 => {
            proof {
                reveal_strlit("4");
            }
            "4"
        },
        5 => {
            proof {
                reveal_strlit("5");
            }
            "5"
        },
        6 => {
            proof {
                reveal_strlit("6");
            }
            "6"
        },
        7 => {
            proof {
                reveal_strlit("7");
            }
            "7"
        },
        8 => {
            proof {
                reveal_strlit("8");
            }
            "8"
        },
        _ => {
            proof {
                reveal_strlit("9");
            }
            "9"
        },
    }
}

/// The decimal representation of `n` (what `Display` of std writes for a
/// `u32`).
fn decimal_string(n: u32) -> (s: String)
    ensures
        s@ == decimal(n as nat),
    decreases n,
{
    if n < 10 {
        String::from_str(digit_str(n))
    } else {
        let mut s = decimal_string(n / 10);
        s.append(digit_str(n % 10));
        s
    }
}

/// The red, green and blue components of a pixel.
pub type Pixel = (u32, u32, u32);

/// The text of the plain-PPM header of a `width` x `height` image whose
/// components range over 0..=255.
pub open spec fn ppm_header_text(width: u32, height: u32) -> Seq<char> {
    "P3\n"@ + decimal(width as nat) + " "@ + decimal(height as nat) + "\n255\n"@
}

/// The text of one pixel: its three components, each followed by a space.
pub open spec fn ppm_pixel_text(p: Pixel) -> Seq<char> {
    decimal(p.0 as nat) + " "@ + decimal(p.1 as nat) + " "@ + decimal(p.2 as nat) + " "@
}

/// The text of a sequence of pixels, one after the other.
pub open spec fn ppm_pixels_text(ps: Seq<Pixel>) -> Seq<char>
    decreases ps.len(),
{
    if ps.len() == 0 {
        Seq::empty()
    } else {
        ppm_pixels_text(ps.drop_last()) + ppm_pixel_text(ps.last())
    }
}

/// Whether `c` is one of the ten decimal digits.
pub open spec fn is_digit(c: char) -> bool {
    '0' <= c <= '9'
}

/// The value of the decimal digit `c`: its distance from `'0'`.
pub open spec fn digit_value(c: char) -> int {
    c as int - '0' as int
}

/// The number that the digits `s` denote in base ten, most significant
/// first.
pub open spec fn numeral_value(s: Seq<char>) -> int
    decreases s.len(),
{
    if s.len() == 0 {
        0
    } else {
        numeral_value(s.drop_last()) * 10 + digit_value(s.last())
    }
}

/// Whether `s` is a decimal numeral in canonical form: at least one digit,
/// nothing but digits, and no leading zero unless it is `0` itself.
pub open spec fn is_numeral(s: Seq<char>) -> bool {
    &&& s.len() > 0
    &&& forall|i: int| 0 <= i < s.len() ==> is_digit(#[trigger] s[i])
    &&& s.len() > 1 ==> s[0] != '0'
}

/// The character of each digit value is the digit whose code is `'0'` plus
/// that value.
proof fn lemma_digit_char(d: int)
    requires
        0 <= d < 10,
    ensures
        is_digit(digit_char(d)),
        digit_value(digit_char(d)) == d,
{
    let t = seq!['0', '1', '2', '3', '4', '5', '6', '7', '8', '9'];
    assert(t[0] == '0' && t[1] == '1' && t[2] == '2' && t[3] == '3' && t[4] == '4');
    assert(t[5] == '5' && t[6] == '6' && t[7] == '7' && t[8] == '8' && t[9] == '9');
}

/// Reading the decimal representation of `n` back as a base-ten numeral
/// gives `n`, and the representation is a canonical numeral.
pub proof fn lemma_decimal_round_trip(n: nat)
    ensures
        is_numeral(decimal(n)),
        numeral_value(decimal(n)) == n,
    decreases n,
{
    if n < 10 {
        lemma_digit_char(n as int);
        let s = decimal(n);
        assert(s.drop_last() =~= Seq::<char>::empty());
        assert(numeral_value(s) == numeral_value(s.drop_last()) * 10 + digit_value(s.last()));
    } else {
        lemma_decimal_round_trip(n / 10);
        lemma_digit_char((n % 10) as int);
        let s = decimal(n);
        let p = decimal(n / 10);
        assert(s.drop_last() =~= p);
        assert(s.last() == digit_char((n % 10) as int));
        assert(numeral_value(s) == numeral_value(p) * 10 + digit_value(s.last()));
        assert(n == (n / 10) * 10 + n % 10);
        assert(s[0] == p[0]);
        if p.len() == 1 {
            assert(p[0] != '0') by {
                if p[0] == '0' {
                    assert(numeral_value(p.drop_last()) == 0);
                }
            }
        }
        assert forall|i: int| 0 <= i < s.len() implies is_digit(#[trigger] s[i]) by {
            if i < p.len() {
                assert(s[i] == p[i]);
            }
        }
    }
}

/// How many digits `s` ends with.
pub open spec fn trailing_digits(s: Seq<char>) -> nat
    decreases s.len(),
{
    if s.len() == 0 || !is_digit(s.last()) {
        0
    } else {
        trailing_digits(s.drop_last()) + 1
    }
}

/// A text ends with no more digits than it has characters.
pub proof fn lemma_trailing_digits_bound(s: Seq<char>)
    ensures
        trailing_digits(s) <= s.len(),
    decreases s.len(),
{
    if s.len() > 0 {
        lemma_trailing_digits_bound(s.drop_last());
    }
}

/// The numbers of a text made of canonical decimal numerals, each followed
/// by one space; `None` for any other text.
pub open spec fn parse_fields(s: Seq<char>) -> Option<Seq<int>>
    decreases s.len(),
{
    if s.len() == 0 {
        Some(Seq::empty())
    } else if s.last() != ' ' {
        None
    } else {
        let body = s.drop_last();
        let k = trailing_digits(body);
        proof {
            lemma_trailing_digits_bound(body);
        }
        let num = body.subrange(body.len() - k, body.len() as int);
        if k == 0 || !is_numeral(num) {
            None
        } else {
            match parse_fields(body.subrange(0, body.len() - k)) {
                Some(xs) => Some(xs.push(numeral_value(num))),
                None => None,
            }
        }
    }
}

/// The numbers of a row of plain-PPM text: fields as `parse_fields` reads
/// them, then a line break; `None` for any other text.
pub open spec fn parse_row(s: Seq<char>) -> Option<Seq<int>> {
    if s.len() > 0 && s.last() == '\n' {
        parse_fields(s.drop_last())
    } else {
        None
    }
}

/// The width and height named by a plain-PPM header: `P3`, a line break,
/// two numerals separated by one space, a line break, `255` and a line
/// break; `None` for any other text.
pub open spec fn parse_header(s: Seq<char>) -> Option<(int, int)> {
    if s.len() >= 8 && s.subrange(0, 3) == "P3\n"@ && s.subrange(s.len() - 5, s.len() as int)
        == "\n255\n"@ {
        match parse_fields(s.subrange(3, s.len() - 5).push(' ')) {
            Some(xs) => if xs.len() == 2 {
                Some((xs[0], xs[1]))
            } else {
                None
            },
            None => None,
        }
    } else {
        None
    }
}

/// The components of `ps`, pixel after pixel, each as red, green, blue.
pub open spec fn pixel_components(ps: Seq<Pixel>) -> Seq<int>
    decreases ps.len(),
{
    if ps.len() == 0 {
        Seq::empty()
    } else {
        pixel_components(ps.drop_last()) + seq![
            ps.last().0 as int,
            ps.last().1 as int,
            ps.last().2 as int,
        ]
    }
}

proof fn lemma_trailing_numeral(a: Seq<char>, d: Seq<char>)
    requires
        a.len() == 0 || !is_digit(a.last()),
        forall|i: int| 0 <= i < d.len() ==> is_digit(#[trigger] d[i]),
    ensures
        trailing_digits(a + d) == d.len(),
    decreases d.len(),
{
    if d.len() == 0 {
        assert(a + d =~= a);
    } else {
        assert((a + d).drop_last() =~= a + d.drop_last());
        assert((a + d).last() == d[d.len() - 1]);
        lemma_trailing_numeral(a, d.drop_last());
    }
}

/// Parsing a numeral followed by a space after some fields appends its
/// value to theirs.
proof fn lemma_parse_one_more(a: Seq<char>, n: nat)
    requires
        a.len() == 0 || a.last() == ' ',
    ensures
        parse_fields(a + decimal(n) + " "@) == match parse_fields(a) {
            Some(xs) => Some(xs.push(n as int)),
            None => None,
        },
{
    reveal_strlit(" ");
    lemma_decimal_round_trip(n);
    let d = decimal(n);
    let s = a + d + " "@;
    let body = s.drop_last();
    assert(body =~= a + d);
    lemma_trailing_numeral(a, d);
    assert(body.subrange(body.len() - d.len(), body.len() as int) =~= d);
    assert(body.subrange(0, body.len() - d.len()) =~= a);
}

/// The text of a sequence of pixels reads back, field by field, as their
/// components in order.
pub proof fn lemma_ppm_pixels_text_parses(ps: Seq<Pixel>)
    ensures
        parse_fields(ppm_pixels_text(ps)) == Some(pixel_components(ps)),
        ppm_pixels_text(ps).len() == 0 || ppm_pixels_text(ps).last() == ' ',
    decreases ps.len(),
{
    reveal_strlit(" ");
    if ps.len() > 0 {
        let t = ppm_pixels_text(ps.drop_last());
        lemma_ppm_pixels_text_parses(ps.drop_last());
        let p = ps.last();
        let a1 = t + decimal(p.0 as nat) + " "@;
        let a2 = a1 + decimal(p.1 as nat) + " "@;
        let a3 = a2 + decimal(p.2 as nat) + " "@;
        assert(ppm_pixels_text(ps) =~= a3);
        lemma_parse_one_more(t, p.0 as nat);
        lemma_parse_one_more(a1, p.1 as nat);
        lemma_parse_one_more(a2, p.2 as nat);
        let xs = pixel_components(ps.drop_last());
        assert(xs.push(p.0 as int).push(p.1 as int).push(p.2 as int) =~= pixel_components(ps));
    }
}

/// A row of plain-PPM text reads back as the components of its pixels, in
/// order: red, green and blue of the first pixel, then of the next, and so
/// on.
pub proof fn lemma_ppm_row_parses(ps: Seq<Pixel>)
    ensures
        parse_row(ppm_pixels_text(ps) + "\n"@) == Some(pixel_components(ps)),
{
    reveal_strlit("\n");
    lemma_ppm_pixels_text_parses(ps);
    assert((ppm_pixels_text(ps) + "\n"@).drop_last() =~= ppm_pixels_text(ps));
}

/// The header of a plain-PPM image reads back as its width and its height,
/// in that order.
pub proof fn lemma_ppm_header_parses(width: u32, height: u32)
    ensures
        parse_header(ppm_header_text(width, height)) == Some((width as int, height as int)),
{
    reveal_strlit(" ");
    reveal_strlit("P3\n");
    reveal_strlit("\n255\n");
    lemma_decimal_round_trip(width as nat);
    lemma_decimal_round_trip(height as nat);
    let dw = decimal(width as nat);
    let dh = decimal(height as nat);
    let s = ppm_header_text(width, height);
    assert(s.subrange(0, 3) =~= "P3\n"@);
    assert(s.subrange(s.len() - 5, s.len() as int) =~= "\n255\n"@);
    let e = Seq::<char>::empty();
    assert(s.subrange(3, s.len() - 5).push(' ') =~= (e + dw + " "@) + dh + " "@);
    assert(e + dw + " "@ =~= dw + " "@);
    lemma_parse_one_more(e, width as nat);
    lemma_parse_one_more(e + dw + " "@, height as nat);
    assert(parse_fields(e) == Some(Seq::<int>::empty()));
}

/// The header of a plain-PPM image.
pub fn ppm_header(width: u32, height: u32) -> (s: String)
    ensures
        s@ == ppm_header_text(width, height),
        parse_header(s@) == Some((width as int, height as int)),
{
    proof {
        lemma_ppm_header_parses(width, height);
    }
    let mut s = String::from_str("P3\n");
    let w = decimal_string(width);
    let h = decimal_string(height);
    s.append(w.as_str());
    s.append(" ");
    s.append(h.as_str());
    s.append("\n255\n");
    s
}

/// One row of a plain-PPM image: the text of its pixels, left to right,
/// then a line break.
pub fn ppm_row(pixels: &Vec<Pixel>) -> (s: String)
    ensures
        s@ == ppm_pixels_text(pixels@) + "\n"@,
        parse_row(s@) == Some(pixel_components(pixels@)),
{
    proof {
        lemma_ppm_row_parses(pixels@);
    }
    let mut s = String::new();
    let mut i: usize = 0;
    while i < pixels.len()
        invariant
            0 <= i <= pixels@.len(),
            s@ == ppm_pixels_text(pixels@.take(i as int)),
        decreases pixels@.len() - i,
    {
        let (r, g, b) = pixels[i];
        let rs = decimal_string(r);
        let gs = decimal_string(g);
        let bs = decimal_string(b);
        s.append(rs.as_str());
        s.append(" ");
        s.append(gs.as_str());
        s.append(" ");
        s.append(bs.as_str());
        s.append(" ");
        assert(pixels@.take(i + 1).drop_last() =~= pixels@.take(i as int));
        i = i + 1;
    }
    assert(pixels@.take(pixels@.len() as int) =~= pixels@);
    s.append("\n");
    s
}

/// The text of pixels written one after the other is the text of the
/// first ones followed by the text of the rest.
pub proof fn lemma_ppm_pixels_text_append(a: Seq<Pixel>, b: Seq<Pixel>)
    ensures
        ppm_pixels_text(a + b) == ppm_pixels_text(a) + ppm_pixels_text(b),
    decreases b.len(),
{
    if b.len() == 0 {
        assert(a + b =~= a);
        assert(ppm_pixels_text(a) + ppm_pixels_text(b) =~= ppm_pixels_text(a));
    } else {
        lemma_ppm_pixels_text_append(a, b.drop_last());
        assert((a + b).drop_last() =~= a + b.drop_last());
        assert((a + b).last() == b.last());
        assert(ppm_pixels_text(a) + ppm_pixels_text(b) =~= ppm_pixels_text(a) + ppm_pixels_text(
            b.drop_last(),
        ) + ppm_pixel_text(b.last()));
    }
}

/// The seed of the random generator of pixel `(i, j)`: a hash of its
/// coordinates below 44497, so that neighbouring pixels draw different
/// samples.
pub fn pixel_seed(i: u32, j: u32) -> (r: u64)
    requires
        i * 13 + j * 65537 <= u32::MAX,
    ensures
        r == (i * 13 + j * 65537) % 44497,
        r < 44497,
{
    ((i * 13 + j * 65537) % 44497) as u64
}

} // verus!
