//! The plain-text image format: a header, then one line of channel values
//! for each row of pixels, top row first.
//!
//! Channels are written as integer levels, where 255 stands for full
//! intensity; a level outside `0..=255` is clamped to the nearer end. The
//! level of a channel is its intensity times 255, rounded up; that is
//! arithmetic, and the caller hands in the function that does it.

use vstd::prelude::*;
use crate::canvas::Canvas;
use crate::color::Color;
use crate::scalar::Scalar;

verus! {

/// The channel levels of one pixel, before clamping.
#[derive(Clone, Copy, Debug, PartialEq, Eq, Structural)]
pub struct Levels {
    pub red: i64,
    pub green: i64,
    pub blue: i64,
}

/// The level confined to `0..=255`.
pub open spec fn clamped(level: int) -> nat {
    if level > 255 {
        255
    } else if level < 0 {
        0
    } else {
        level as nat
    }
}

/// The character of a decimal digit.
pub open spec fn digit(d: nat) -> char
    recommends
        d < 10,
{
    if d == 0 {
        '0'
    } else if d == 1 {
        '1'
    } else if d == 2 {
        '2'
    } else if d == 3 {
        '3'
    } else if d == 4 {
        '4'
    } else if d == 5 {
        '5'
    } else if d == 6 {
        '6'
    } else if d == 7 {
        '7'
    } else if d == 8 {
        '8'
    } else {
        '9'
    }
}

/// The decimal numeral of `n`, without leading zeros.
pub open spec fn decimal(n: nat) -> Seq<char>
    decreases n,
{
    if n < 10 {
        seq![digit(n)]
    } else {
        decimal(n / 10).push(digit(n % 10))
    }
}

/// The parts one after another, with `separator` between neighbours.
pub open spec fn joined(parts: Seq<Seq<char>>, separator: Seq<char>) -> Seq<char>
    decreases parts.len(),
{
    if parts.len() == 0 {
        Seq::empty()
    } else if parts.len() == 1 {
        parts[0]
    } else {
        joined(parts.drop_last(), separator) + separator + parts.last()
    }
}

/// The three clamped channels of a pixel, separated by spaces.
pub open spec fn pixel_text(pixel: Levels) -> Seq<char> {
    decimal(clamped(pixel.red as int)) + seq![' '] + decimal(clamped(pixel.green as int)) + seq![' ']
        + decimal(clamped(pixel.blue as int))
}

/// One line of the image body: the pixels of a row, separated by spaces.
pub open spec fn row_text(row: Seq<Levels>) -> Seq<char> {
    joined(row.map_values(|pixel: Levels| pixel_text(pixel)), seq![' '])
}

/// The lines of the file: the format tag, the size, the maximum value of a
/// channel, then the rows.
pub open spec fn ppm_lines(width: nat, height: nat, rows: Seq<Seq<Levels>>) -> Seq<Seq<char>> {
    seq![seq!['P', '3'], decimal(width) + seq![' '] + decimal(height), seq!['2', '5', '5']]
        + rows.map_values(|row: Seq<Levels>| row_text(row))
}

/// The whole file: the lines separated by line feeds, with none at the end.
pub open spec fn ppm_text(width: nat, height: nat, rows: Seq<Seq<Levels>>) -> Seq<char> {
    joined(ppm_lines(width, height, rows), seq!['\n'])
}

/// The rows held by a vector of vectors.
pub open spec fn rows_of(v: Seq<Vec<Levels>>) -> Seq<Seq<Levels>> {
    v.map_values(|row: Vec<Levels>| row@)
}

/// `levels` are answers of `level` for the three channels of `color`.
pub open spec fn are_levels_of<L: Fn(Scalar) -> i64>(level: L, color: Color, levels: Levels) -> bool {
    &&& call_ensures(level, (color.red,), levels.red)
    &&& call_ensures(level, (color.green,), levels.green)
    &&& call_ensures(level, (color.blue,), levels.blue)
}

/// `rows` has the shape of `pixels` and holds, in each place, levels of the
/// colour in that place.
pub open spec fn are_levels<L: Fn(Scalar) -> i64>(
    level: L,
    pixels: Seq<Seq<Color>>,
    rows: Seq<Seq<Levels>>,
) -> bool {
    &&& rows.len() == pixels.len()
    &&& forall|y: int| 0 <= y < pixels.len() ==> (#[trigger] rows[y]).len() == pixels[y].len()
    &&& forall|x: int, y: int|
        0 <= y < pixels.len() && 0 <= x < pixels[y].len() ==> are_levels_of(
            level,
            pixels[y][x],
            #[trigger] rows[y][x],
        )
}

/// Joining one more part appends the separator and the part, or the part
/// alone when it is the first.
proof fn lemma_joined_push(parts: Seq<Seq<char>>, separator: Seq<char>, part: Seq<char>)
    ensures
        joined(parts.push(part), separator) == if parts.len() == 0 {
            part
        } else {
            joined(parts, separator) + separator + part
        },
{
    assert(parts.push(part).drop_last() =~= parts);
}

/// Confines a level to the range of a channel.
pub fn scale_color(level: i64) -> (sample: u8)
    ensures
        sample == clamped(level as int),
{
    if level > 255 {
        255
    } else if level < 0 {
        0
    } else {
        level as u8
    }
}

/// The one-character text of a digit.
fn digit_text(d: usize) -> (text: &'static str)
    requires
        d < 10,
    ensures
        text@ == seq![digit(d as nat)],
{
    proof {
        reveal_strlit("0");
        reveal_strlit("1");
        reveal_strlit("2");
        reveal_strlit("3");
        reveal_strlit("4");
        reveal_strlit("5");
        reveal_strlit("6");
        reveal_strlit("7");
        reveal_strlit("8");
        reveal_strlit("9");
    }
    let text = if d == 0 {
        "0"
    } else if d == 1 {
        "1"
    } else if d == 2 {
        "2"
    } else if d == 3 {
        "3"
    } else if d == 4 {
        "4"
    } else if d == 5 {
        "5"
    } else if d == 6 {
        "6"
    } else if d == 7 {
        "7"
    } else if d == 8 {
        "8"
    } else {
        "9"
    };
    assert(text@ =~= seq![digit(d as nat)]);
    text
}

/// Appends the decimal numeral of `n`.
fn append_decimal(text: &mut String, n: usize)
    ensures
        final(text)@ == old(text)@ + decimal(n as nat),
    decreases n,
{
    if n >= 10 {
        append_decimal(text, n / 10);
    }
    text.append(digit_text(n % 10));
    assert(text@ =~= old(text)@ + decimal(n as nat));
}

/// Appends the three channels of a pixel.
fn append_pixel(text: &mut String, pixel: &Levels)
    ensures
        final(text)@ == old(text)@ + pixel_text(*pixel),
{
    proof {
        reveal_strlit(" ");
    }
    append_decimal(text, scale_color(pixel.red) as usize);
    text.append(" ");
    append_decimal(text, scale_color(pixel.green) as usize);
    text.append(" ");
    append_decimal(text, scale_color(pixel.blue) as usize);
    assert(" "@ =~= seq![' ']);
    assert(text@ =~= old(text)@ + pixel_text(*pixel));
}

/// Appends one line of the image body, without a line feed.
fn append_row(text: &mut String, row: &Vec<Levels>)
    ensures
        final(text)@ == old(text)@ + row_text(row@),
{
    let ghost words = row@.map_values(|pixel: Levels| pixel_text(pixel));
    let mut x: usize = 0;
    assert(words.take(0) =~= Seq::<Seq<char>>::empty());
    assert(text@ =~= old(text)@ + joined(words.take(0), seq![' ']));
    while x < row.len()
        invariant
            x <= row@.len(),
            words == row@.map_values(|pixel: Levels| pixel_text(pixel)),
            text@ == old(text)@ + joined(words.take(x as int), seq![' ']),
        decreases row@.len() - x,
    {
        if x > 0 {
            text.append(" ");
        }
        append_pixel(text, &row[x]);
        proof {
            reveal_strlit(" ");
            assert(" "@ =~= seq![' ']);
            lemma_joined_push(words.take(x as int), seq![' '], words[x as int]);
            assert(words.take(x as int).push(words[x as int]) =~= words.take(x + 1));
            assert(text@ =~= old(text)@ + joined(words.take(x + 1), seq![' ']));
        }
        x += 1;
    }
    assert(words.take(x as int) =~= words);
}

/// The text of an image of the declared size whose body has the given rows.
pub fn levels_to_ppm(width: usize, height: usize, rows: &Vec<Vec<Levels>>) -> (text: String)
    ensures
        text@ == ppm_text(width as nat, height as nat, rows_of(rows@)),
{
    proof {
        reveal_strlit("P3\n");
        reveal_strlit(" ");
        reveal_strlit("\n255");
    }
    let ghost feed = seq!['\n'];
    let ghost header = seq![
        seq!['P', '3'],
        decimal(width as nat) + seq![' '] + decimal(height as nat),
        seq!['2', '5', '5'],
    ];
    let ghost body = rows_of(rows@).map_values(|row: Seq<Levels>| row_text(row));
    let mut text = String::new();
    text.append("P3\n");
    append_decimal(&mut text, width);
    text.append(" ");
    append_decimal(&mut text, height);
    text.append("\n255");
    proof {
        assert("P3\n"@ =~= seq!['P', '3', '\n']);
        assert(" "@ =~= seq![' ']);
        assert("\n255"@ =~= seq!['\n', '2', '5', '5']);
        lemma_joined_push(seq![header[0]], feed, header[1]);
        lemma_joined_push(seq![header[0], header[1]], feed, header[2]);
        assert(seq![header[0]].push(header[1]) =~= seq![header[0], header[1]]);
        assert(seq![header[0], header[1]].push(header[2]) =~= header);
        assert(text@ =~= joined(header, feed));
        assert(header + body.take(0) =~= header);
    }
    let mut y: usize = 0;
    while y < rows.len()
        invariant
            y <= rows@.len(),
            feed == seq!['\n'],
            header.len() == 3,
            body == rows_of(rows@).map_values(|row: Seq<Levels>| row_text(row)),
            text@ == joined(header + body.take(y as int), feed),
        decreases rows@.len() - y,
    {
        text.append("\n");
        append_row(&mut text, &rows[y]);
        proof {
            reveal_strlit("\n");
            assert("\n"@ =~= feed);
            lemma_joined_push(header + body.take(y as int), feed, body[y as int]);
            assert((header + body.take(y as int)).push(body[y as int]) =~= header + body.take(y + 1));
        }
        y += 1;
    }
    assert(body.take(y as int) =~= body);
    text
}

/// The text of a canvas: its declared size in the header, and in the body
/// its rows, with every channel at the level that `level` gives it.
pub fn canvas_to_ppm<L: Fn(Scalar) -> i64>(canvas: &Canvas, level: &L) -> (text: String)
    requires
        forall|channel: Scalar| call_requires(*level, (channel,)),
    ensures
        exists|rows: Seq<Seq<Levels>>|
            are_levels(*level, canvas@, rows) && text@ == ppm_text(
                canvas.width as nat,
                canvas.height as nat,
                rows,
            ),
{
    let mut rows: Vec<Vec<Levels>> = Vec::new();
    let mut y: usize = 0;
    while y < canvas.pixels.len()
        invariant
            y <= canvas@.len(),
            forall|channel: Scalar| call_requires(*level, (channel,)),
            rows@.len() == y,
            are_levels(*level, canvas@.take(y as int), rows_of(rows@)),
        decreases canvas@.len() - y,
    {
        let line = &canvas.pixels[y];
        let mut row: Vec<Levels> = Vec::new();
        let mut x: usize = 0;
        while x < line.len()
            invariant
                x <= line@.len(),
                forall|channel: Scalar| call_requires(*level, (channel,)),
                row@.len() == x,
                forall|i: int| 0 <= i < x ==> are_levels_of(*level, line@[i], #[trigger] row@[i]),
            decreases line@.len() - x,
        {
            let pixel = line[x];
            let levels = Levels { red: level(pixel.red), green: level(pixel.green), blue: level(pixel.blue) };
            row.push(levels);
            x += 1;
        }
        let ghost before = rows_of(rows@);
        rows.push(row);
        proof {
            let after = rows_of(rows@);
            assert(after =~= before.push(row@));
            assert(canvas@.take(y + 1) =~= canvas@.take(y as int).push(line@));
            assert forall|i: int, j: int|
                0 <= j < y + 1 && 0 <= i < canvas@.take(y + 1)[j].len() implies are_levels_of(
                *level,
                canvas@.take(y + 1)[j][i],
                #[trigger] after[j][i],
            ) by {
                if j < y {
                    assert(after[j] == before[j]);
                    assert(canvas@.take(y + 1)[j] == canvas@.take(y as int)[j]);
                }
            }
        }
        y += 1;
    }
    assert(canvas@.take(y as int) =~= canvas@);
    levels_to_ppm(canvas.width, canvas.height, &rows)
}

} // verus!
