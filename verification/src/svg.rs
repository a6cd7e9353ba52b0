//! Vector output: one unit square for each pixel that is not fully
//! transparent.
//!
//! The document opens with an `svg` element that declares the grid's
//! dimensions and a matching view box, lists the squares row by row from
//! the top and from left to right within a row, and closes the element.
//! Pixels whose alpha sample is zero get no square; every other pixel gets
//! one, whatever its opacity, and neighbours of one colour are not merged.

use vstd::prelude::*;
use vstd::string::StringExecFns;
use vstd::utf8::encode_utf8;
use crate::alpha::{alpha_text, append_alpha};
use crate::decimal::{append_decimal, decimal_text};
use crate::pixels::{PixelGrid, Raster, Rgba};

verus! {

/// The opening tag for a canvas of the given dimensions.
pub open spec fn svg_header(width: nat, height: nat) -> Seq<char> {
    "<svg width=\""@ + decimal_text(width) + "\" height=\""@ + decimal_text(height)
        + "\" viewBox=\"0 0 "@ + decimal_text(width) + " "@ + decimal_text(height)
        + "\" xmlns=\"http://www.w3.org/2000/svg\">"@
}

/// The closing tag.
pub open spec fn svg_footer() -> Seq<char> {
    "</svg>"@
}

/// The unit square at column `x` of row `y`, filled with the given colour.
pub open spec fn rect_text(x: nat, y: nat, red: u8, green: u8, blue: u8, alpha: u8) -> Seq<char> {
    "<rect x=\""@ + decimal_text(x) + "\" y=\""@ + decimal_text(y)
        + "\" width=\"1\" height=\"1\" fill=\"rgba("@ + decimal_text(red as nat) + ","@
        + decimal_text(green as nat) + ","@ + decimal_text(blue as nat) + ","@ + alpha_text(alpha)
        + ")\" />"@
}

/// What the pixel at column `x` of row `y` contributes: nothing where its
/// alpha sample is zero, its square otherwise.
pub open spec fn pixel_text(r: Raster, x: nat, y: nat) -> Seq<char> {
    if r.alpha(x, y) == 0 {
        Seq::empty()
    } else {
        rect_text(x, y, r.red(x, y), r.green(x, y), r.blue(x, y), r.alpha(x, y))
    }
}

/// The first `count` pixels of row `y`, from the left.
pub open spec fn row_text(r: Raster, y: nat, count: nat) -> Seq<char>
    decreases count,
{
    if count == 0 {
        Seq::empty()
    } else {
        row_text(r, y, (count - 1) as nat) + pixel_text(r, (count - 1) as nat, y)
    }
}

/// The first `rows` rows, from the top.
pub open spec fn rows_text(r: Raster, rows: nat) -> Seq<char>
    decreases rows,
{
    if rows == 0 {
        Seq::empty()
    } else {
        rows_text(r, (rows - 1) as nat) + row_text(r, (rows - 1) as nat, r.width)
    }
}

/// The whole document.
pub open spec fn svg_text(r: Raster) -> Seq<char> {
    svg_header(r.width, r.height) + rows_text(r, r.height) + svg_footer()
}

/// Whether every pixel of the raster has an alpha sample of zero.
pub open spec fn fully_transparent(r: Raster) -> bool {
    forall|x: nat, y: nat| x < r.width && y < r.height ==> #[trigger] r.alpha(x, y) == 0
}

proof fn lemma_transparent_row(r: Raster, y: nat, count: nat)
    requires
        fully_transparent(r),
        y < r.height,
        count <= r.width,
    ensures
        row_text(r, y, count) == Seq::<char>::empty(),
    decreases count,
{
    if count > 0 {
        lemma_transparent_row(r, y, (count - 1) as nat);
        assert(r.alpha((count - 1) as nat, y) == 0);
    }
}

proof fn lemma_transparent_rows(r: Raster, rows: nat)
    requires
        fully_transparent(r),
        rows <= r.height,
    ensures
        rows_text(r, rows) == Seq::<char>::empty(),
    decreases rows,
{
    if rows > 0 {
        lemma_transparent_rows(r, (rows - 1) as nat);
        lemma_transparent_row(r, (rows - 1) as nat, r.width);
    }
}

/// A raster without a visible pixel gives a document that holds the
/// opening tag with the raster's dimensions and the closing tag, and no
/// square.
pub proof fn lemma_transparent_document(r: Raster)
    requires
        fully_transparent(r),
    ensures
        svg_text(r) == svg_header(r.width, r.height) + svg_footer(),
{
    lemma_transparent_rows(r, r.height);
}

/// Every document begins with the opening tag that declares the raster's
/// dimensions and ends with the closing tag.
pub proof fn lemma_document_declares_dimensions(r: Raster)
    ensures
        svg_header(r.width, r.height).is_prefix_of(svg_text(r)),
        svg_footer().is_suffix_of(svg_text(r)),
{
    let header = svg_header(r.width, r.height);
    let text = svg_text(r);
    assert(text.subrange(0, header.len() as int) == header);
    assert(text.subrange(text.len() - svg_footer().len(), text.len() as int) == svg_footer());
}

/// A raster of a single pixel that is not fully transparent gives a
/// document with exactly the square of that pixel, at the origin.
pub proof fn lemma_single_pixel_document(r: Raster)
    requires
        r.width == 1,
        r.height == 1,
        r.alpha(0, 0) != 0,
    ensures
        svg_text(r) == svg_header(1, 1) + rect_text(
            0,
            0,
            r.red(0, 0),
            r.green(0, 0),
            r.blue(0, 0),
            r.alpha(0, 0),
        ) + svg_footer(),
{
    reveal_with_fuel(row_text, 2);
    reveal_with_fuel(rows_text, 2);
    assert(row_text(r, 0, 1) == pixel_text(r, 0, 0));
    assert(rows_text(r, 1) == row_text(r, 0, 1));
}

/// The places, as column and row, of the pixels that are not fully
/// transparent among the first `count` pixels of row `y`, from the left.
pub open spec fn visible_in_row(r: Raster, y: nat, count: nat) -> Seq<(nat, nat)>
    decreases count,
{
    if count == 0 {
        Seq::empty()
    } else if r.alpha((count - 1) as nat, y) == 0 {
        visible_in_row(r, y, (count - 1) as nat)
    } else {
        visible_in_row(r, y, (count - 1) as nat).push(((count - 1) as nat, y))
    }
}

/// The places of the pixels that are not fully transparent in the first
/// `rows` rows, row by row from the top.
pub open spec fn visible_in_rows(r: Raster, rows: nat) -> Seq<(nat, nat)>
    decreases rows,
{
    if rows == 0 {
        Seq::empty()
    } else {
        visible_in_rows(r, (rows - 1) as nat) + visible_in_row(r, (rows - 1) as nat, r.width)
    }
}

/// The places of all pixels that are not fully transparent.
pub open spec fn visible_pixels(r: Raster) -> Seq<(nat, nat)> {
    visible_in_rows(r, r.height)
}

/// Whether place `a` comes before place `b` going row by row from the top
/// and from left to right within a row.
pub open spec fn comes_before(a: (nat, nat), b: (nat, nat)) -> bool {
    a.1 < b.1 || (a.1 == b.1 && a.0 < b.0)
}

/// The square of the pixel at a place.
pub open spec fn square_at(r: Raster, place: (nat, nat)) -> Seq<char> {
    rect_text(
        place.0,
        place.1,
        r.red(place.0, place.1),
        r.green(place.0, place.1),
        r.blue(place.0, place.1),
        r.alpha(place.0, place.1),
    )
}

/// The squares of the pixels at the given places, one after the other.
pub open spec fn squares(r: Raster, places: Seq<(nat, nat)>) -> Seq<char>
    decreases places.len(),
{
    if places.len() == 0 {
        Seq::empty()
    } else {
        squares(r, places.drop_last()) + square_at(r, places.last())
    }
}

proof fn lemma_squares_append(r: Raster, a: Seq<(nat, nat)>, b: Seq<(nat, nat)>)
    ensures
        squares(r, a + b) == squares(r, a) + squares(r, b),
    decreases b.len(),
{
    if b.len() == 0 {
        assert(a + b == a);
    } else {
        assert((a + b).drop_last() == a + b.drop_last());
        assert((a + b).last() == b.last());
        lemma_squares_append(r, a, b.drop_last());
    }
}

proof fn lemma_row_is_squares(r: Raster, y: nat, count: nat)
    ensures
        row_text(r, y, count) == squares(r, visible_in_row(r, y, count)),
    decreases count,
{
    if count > 0 {
        let before = visible_in_row(r, y, (count - 1) as nat);
        lemma_row_is_squares(r, y, (count - 1) as nat);
        if r.alpha((count - 1) as nat, y) != 0 {
            let place = ((count - 1) as nat, y);
            assert(before.push(place).drop_last() == before);
            assert(before.push(place).last() == place);
        }
    }
}

proof fn lemma_rows_are_squares(r: Raster, rows: nat)
    ensures
        rows_text(r, rows) == squares(r, visible_in_rows(r, rows)),
    decreases rows,
{
    if rows > 0 {
        lemma_rows_are_squares(r, (rows - 1) as nat);
        lemma_row_is_squares(r, (rows - 1) as nat, r.width);
        lemma_squares_append(
            r,
            visible_in_rows(r, (rows - 1) as nat),
            visible_in_row(r, (rows - 1) as nat, r.width),
        );
    }
}

proof fn lemma_visible_in_row(r: Raster, y: nat, count: nat)
    ensures
        forall|i: int|
            0 <= i < visible_in_row(r, y, count).len() ==> {
                let place = #[trigger] visible_in_row(r, y, count)[i];
                place.0 < count && place.1 == y && r.alpha(place.0, place.1) != 0
            },
        forall|i: int, j: int|
            0 <= i < j < visible_in_row(r, y, count).len() ==> comes_before(
                #[trigger] visible_in_row(r, y, count)[i],
                #[trigger] visible_in_row(r, y, count)[j],
            ),
        forall|x: nat|
            x < count && #[trigger] r.alpha(x, y) != 0 ==> visible_in_row(r, y, count).contains(
                (x, y),
            ),
    decreases count,
{
    if count > 0 {
        let before = visible_in_row(r, y, (count - 1) as nat);
        let now = visible_in_row(r, y, count);
        lemma_visible_in_row(r, y, (count - 1) as nat);
        assert forall|x: nat| x < count && #[trigger] r.alpha(x, y) != 0 implies now.contains(
            (x, y),
        ) by {
            if x < count - 1 {
                let i = choose|i: int| 0 <= i < before.len() && before[i] == (x, y);
                assert(now[i] == (x, y));
            } else {
                assert(now[now.len() - 1] == (x, y));
            }
        }
    }
}

proof fn lemma_visible_in_rows(r: Raster, rows: nat)
    ensures
        forall|i: int|
            0 <= i < visible_in_rows(r, rows).len() ==> {
                let place = #[trigger] visible_in_rows(r, rows)[i];
                place.0 < r.width && place.1 < rows && r.alpha(place.0, place.1) != 0
            },
        forall|i: int, j: int|
            0 <= i < j < visible_in_rows(r, rows).len() ==> comes_before(
                #[trigger] visible_in_rows(r, rows)[i],
                #[trigger] visible_in_rows(r, rows)[j],
            ),
        forall|x: nat, y: nat|
            x < r.width && y < rows && #[trigger] r.alpha(x, y) != 0 ==> visible_in_rows(
                r,
                rows,
            ).contains((x, y)),
    decreases rows,
{
    if rows > 0 {
        let above = visible_in_rows(r, (rows - 1) as nat);
        let row = visible_in_row(r, (rows - 1) as nat, r.width);
        let now = visible_in_rows(r, rows);
        lemma_visible_in_rows(r, (rows - 1) as nat);
        lemma_visible_in_row(r, (rows - 1) as nat, r.width);
        assert forall|i: int| 0 <= i < now.len() implies {
            let place = #[trigger] now[i];
            place.0 < r.width && place.1 < rows && r.alpha(place.0, place.1) != 0
        } by {
            if i < above.len() {
                assert(now[i] == above[i]);
            } else {
                assert(now[i] == row[i - above.len()]);
            }
        }
        assert forall|i: int, j: int| 0 <= i < j < now.len() implies comes_before(
            #[trigger] now[i],
            #[trigger] now[j],
        ) by {
            if j < above.len() {
                assert(now[i] == above[i] && now[j] == above[j]);
            } else if i < above.len() {
                assert(now[i] == above[i] && now[j] == row[j - above.len()]);
            } else {
                assert(now[i] == row[i - above.len()] && now[j] == row[j - above.len()]);
            }
        }
        assert forall|x: nat, y: nat|
            x < r.width && y < rows && #[trigger] r.alpha(x, y) != 0 implies now.contains(
            (x, y),
        ) by {
            if y < rows - 1 {
                let i = choose|i: int| 0 <= i < above.len() && above[i] == (x, y);
                assert(now[i] == (x, y));
            } else {
                let i = choose|i: int| 0 <= i < row.len() && row[i] == (x, y);
                assert(now[above.len() + i] == (x, y));
            }
        }
    }
}

/// Between the opening and the closing tag a document holds squares and
/// nothing else: the square of each pixel that is not fully transparent,
/// in the order of the pixels.
pub proof fn lemma_document_is_squares(r: Raster)
    ensures
        svg_text(r) == svg_header(r.width, r.height) + squares(r, visible_pixels(r)) + svg_footer(),
{
    lemma_rows_are_squares(r, r.height);
}

/// The places whose squares a document holds are those of the pixels
/// whose alpha sample is not zero, each once, row by row from the top and
/// from left to right within a row. A pixel with an alpha sample of zero
/// has no square, and every other pixel has one, whatever its opacity.
pub proof fn lemma_visible_pixels(r: Raster)
    ensures
        forall|i: int|
            0 <= i < visible_pixels(r).len() ==> {
                let place = #[trigger] visible_pixels(r)[i];
                place.0 < r.width && place.1 < r.height && r.alpha(place.0, place.1) != 0
            },
        forall|i: int, j: int|
            0 <= i < j < visible_pixels(r).len() ==> comes_before(
                #[trigger] visible_pixels(r)[i],
                #[trigger] visible_pixels(r)[j],
            ),
        forall|x: nat, y: nat|
            x < r.width && y < r.height && #[trigger] r.alpha(x, y) != 0 ==> visible_pixels(
                r,
            ).contains((x, y)),
{
    lemma_visible_in_rows(r, r.height);
}

/// Appends the square of one pixel to `out`.
fn append_rect(out: &mut String, x: u32, y: u32, p: Rgba)
    ensures
        final(out)@ == old(out)@ + rect_text(x as nat, y as nat, p.red, p.green, p.blue, p.alpha),
{
    out.append("<rect x=\"");
    append_decimal(out, x as u64);
    out.append("\" y=\"");
    append_decimal(out, y as u64);
    out.append("\" width=\"1\" height=\"1\" fill=\"rgba(");
    append_decimal(out, p.red as u64);
    out.append(",");
    append_decimal(out, p.green as u64);
    out.append(",");
    append_decimal(out, p.blue as u64);
    out.append(",");
    append_alpha(out, p.alpha);
    out.append(")\" />");
}

/// The document for `grid`, as text.
pub fn render_svg_text(grid: &PixelGrid) -> (text: String)
    ensures
        text@ == svg_text(grid@),
{
    let width: u32 = grid.width();
    let height: u32 = grid.height();
    let mut out = String::new();
    out.append("<svg width=\"");
    append_decimal(&mut out, width as u64);
    out.append("\" height=\"");
    append_decimal(&mut out, height as u64);
    out.append("\" viewBox=\"0 0 ");
    append_decimal(&mut out, width as u64);
    out.append(" ");
    append_decimal(&mut out, height as u64);
    out.append("\" xmlns=\"http://www.w3.org/2000/svg\">");
    assert(out@ == svg_header(width as nat, height as nat));
    let mut y: u32 = 0;
    while y < height
        invariant
            y <= height,
            width == grid@.width,
            height == grid@.height,
            out@ == svg_header(width as nat, height as nat) + rows_text(grid@, y as nat),
        decreases height - y,
    {
        let mut x: u32 = 0;
        while x < width
            invariant
                x <= width,
                y < height,
                width == grid@.width,
                height == grid@.height,
                out@ == svg_header(width as nat, height as nat) + rows_text(grid@, y as nat)
                    + row_text(grid@, y as nat, x as nat),
            decreases width - x,
        {
            let p = grid.pixel(x, y);
            if p.alpha != 0 {
                append_rect(&mut out, x, y, p);
            }
            x = x + 1;
        }
        y = y + 1;
    }
    out.append("</svg>");
    out
}

/// The document for `grid`, encoded as UTF-8.
pub fn render_svg(grid: &PixelGrid) -> (bytes: Vec<u8>)
    ensures
        bytes@ == encode_utf8(svg_text(grid@)),
{
    render_svg_text(grid).into_bytes()
}

} // verus!
