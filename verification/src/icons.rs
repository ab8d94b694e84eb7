//! Small pictures for the display, drawn as rows of text, and where
//! their pixels land on the screen.

use vstd::prelude::*;
use vstd::string::StringSliceAdditionalSpecFns;

verus! {

/// Width of the display in pixels.
pub const SCREEN_WIDTH: u32 = 128;

/// Height of the display in pixels.
pub const SCREEN_HEIGHT: u32 = 64;

/// A picture: one string per row, one byte per pixel, a space for a
/// pixel that is off and anything else for one that is on.
#[derive(Clone, Copy, Debug)]
pub struct Icon {
    pub name: &'static str,
    pub author: &'static str,
    pub pixels: &'static [&'static str],
}

/// A pixel of the display and what it is set to.
#[derive(Clone, Copy, Debug, PartialEq, Eq, Structural)]
pub struct Pixel {
    pub x: u32,
    pub y: u32,
    pub on: bool,
}

/// Whether (`xpos`, `ypos`) is a pixel of the display.
pub open spec fn on_screen(xpos: int, ypos: int) -> bool {
    0 <= xpos < SCREEN_WIDTH && 0 <= ypos < SCREEN_HEIGHT
}

/// Whether every pixel of `pixels` is a pixel of the display.
pub open spec fn all_on_screen(pixels: Seq<Pixel>) -> bool {
    forall|i: int|
        0 <= i < pixels.len() ==> on_screen((#[trigger] pixels[i]).x as int, pixels[i].y as int)
}

/// The display pixel that lies `x` to the right of `xleft` and `y` below
/// `ytop`, if there is one.
pub fn screen_position(x: usize, y: usize, xleft: i32, ytop: i32) -> (at: Option<(u32, u32)>)
    ensures
        at.is_some() <==> on_screen(x + xleft, y + ytop),
        at.is_some() ==> at.unwrap().0 == x + xleft && at.unwrap().1 == y + ytop,
{
    if x > 0xFFFF_FFFF || y > 0xFFFF_FFFF {
        return None;
    }
    let xpos: i64 = x as i64 + xleft as i64;
    let ypos: i64 = y as i64 + ytop as i64;
    if xpos > 127 || ypos > 63 || xpos < 0 || ypos < 0 {
        return None;
    }
    Some((xpos as u32, ypos as u32))
}

impl Icon {
    /// Number of rows.
    pub open spec fn rows(&self) -> nat {
        self.pixels@.len()
    }

    /// Number of pixels of row `row`.
    pub open spec fn row_len(&self, row: int) -> nat {
        self.pixels@[row].spec_bytes().len()
    }

    /// Whether the pixel in column `col` of row `row` is on.
    pub open spec fn lit(&self, col: int, row: int) -> bool {
        self.pixels@[row].spec_bytes()[col] != 0x20u8
    }

    /// The rows of the picture as text.
    pub open spec fn art(&self) -> Seq<Seq<char>> {
        Seq::new(self.rows(), |row: int| self.pixels@[row]@)
    }

    /// Whether the picture has a row and all its rows are as long as the
    /// first.
    pub open spec fn well_formed(&self) -> bool {
        &&& self.rows() > 0
        &&& forall|row: int|
            0 <= row < self.rows() ==> #[trigger] self.row_len(row) == self.row_len(0)
    }

    /// Whether the picture is `width` pixels wide and `height` pixels high.
    pub open spec fn is_grid(&self, width: nat, height: nat) -> bool {
        &&& self.rows() == height
        &&& forall|row: int| 0 <= row < height ==> #[trigger] self.row_len(row) == width
    }

    /// Whether the picture, drawn `scale` times its size, has a pixel in
    /// column `x` of row `y`.
    pub open spec fn covers(&self, x: int, y: int, scale: int) -> bool {
        &&& scale > 0
        &&& 0 <= x
        &&& 0 <= y
        &&& y / scale < self.rows()
        &&& x / scale < self.row_len(y / scale)
    }

    /// Whether the size of the picture drawn `scale` times its size can
    /// be counted: as many rows as the picture has, times `scale`, and as
    /// many columns as its first row has, times `scale`.
    pub open spec fn fits(&self, scale: int) -> bool {
        &&& self.rows() * scale <= usize::MAX
        &&& self.rows() > 0 && scale > 0 ==> self.row_len(0) * scale <= usize::MAX
    }

    /// Whether the picture has a pixel wherever its drawing at (`xleft`,
    /// `ytop`) touches the screen. Rows may be shorter than the first
    /// where they stay off the screen.
    pub open spec fn drawable(&self, xleft: int, ytop: int, scale: int) -> bool {
        forall|x: int, y: int|
            0 <= y < self.rows() * scale && 0 <= x < self.row_len(0) * scale && on_screen(
                x + xleft,
                y + ytop,
            ) ==> #[trigger] self.covers(x, y, scale)
    }

    /// Where pixel (`x`, `y`) of the picture drawn `scale` times its size
    /// lands when the picture's top left corner is at (`xleft`, `ytop`),
    /// and what it is set to; nothing where it falls off the screen.
    pub open spec fn shown(&self, x: int, y: int, xleft: int, ytop: int, scale: int) -> Option<
        Pixel,
    > {
        if on_screen(x + xleft, y + ytop) {
            Some(
                Pixel {
                    x: (x + xleft) as u32,
                    y: (y + ytop) as u32,
                    on: self.lit(x / scale, y / scale),
                },
            )
        } else {
            None
        }
    }

    /// What the first `upto` pixels of row `y` of the scaled picture set
    /// on the screen, left to right.
    pub open spec fn shown_in_row(
        &self,
        y: int,
        upto: nat,
        xleft: int,
        ytop: int,
        scale: int,
    ) -> Seq<Pixel>
        decreases upto,
    {
        if upto == 0 {
            Seq::empty()
        } else {
            let before = self.shown_in_row(y, (upto - 1) as nat, xleft, ytop, scale);
            match self.shown(upto - 1, y, xleft, ytop, scale) {
                Some(pixel) => before.push(pixel),
                None => before,
            }
        }
    }

    /// What the first `upto` rows of the scaled picture set on the
    /// screen, top to bottom and left to right.
    pub open spec fn shown_in_rows(&self, upto: nat, xleft: int, ytop: int, scale: int) -> Seq<
        Pixel,
    >
        decreases upto,
    {
        if upto == 0 {
            Seq::empty()
        } else {
            self.shown_in_rows((upto - 1) as nat, xleft, ytop, scale) + self.shown_in_row(
                upto - 1,
                (self.row_len(0) * scale) as nat,
                xleft,
                ytop,
                scale,
            )
        }
    }

    /// Everything that the picture sets on the screen when it is drawn
    /// `scale` times its size with its top left corner at (`xleft`,
    /// `ytop`).
    pub open spec fn drawn(&self, xleft: int, ytop: int, scale: int) -> Seq<Pixel> {
        self.shown_in_rows((self.rows() * scale) as nat, xleft, ytop, scale)
    }

    /// Number of pixels in the first row.
    pub fn width(&self) -> (w: usize)
        requires
            self.rows() > 0,
        ensures
            w == self.row_len(0),
    {
        self.pixels[0].as_bytes().len()
    }

    /// Number of rows.
    pub fn height(&self) -> (h: usize)
        ensures
            h == self.rows(),
    {
        self.pixels.len()
    }

    /// The screen pixel for pixel (`x`, `y`) of the scaled picture.
    pub fn screen_pixel(&self, x: usize, y: usize, xleft: i32, ytop: i32, scale: usize) -> (pixel:
        Option<Pixel>)
        requires
            scale > 0,
            on_screen(x + xleft, y + ytop) ==> self.covers(x as int, y as int, scale as int),
        ensures
            pixel == self.shown(x as int, y as int, xleft as int, ytop as int, scale as int),
    {
        match screen_position(x, y, xleft, ytop) {
            Some((xpos, ypos)) => {
                let row = self.pixels[y / scale].as_bytes();
                Some(Pixel { x: xpos, y: ypos, on: row[x / scale] != 0x20u8 })
            },
            None => None,
        }
    }

    /// The pixels to set for the picture drawn `scale` times its size
    /// with its top left corner at (`xleft`, `ytop`), or nothing where
    /// the drawing cannot be made. What falls off the screen is left out.
    pub fn try_draw_icon_with_scale(&self, xleft: i32, ytop: i32, scale: usize) -> (pixels: Option<
        Vec<Pixel>,
    >)
        ensures
            pixels.is_some() <==> self.fits(scale as int) && self.drawable(
                xleft as int,
                ytop as int,
                scale as int,
            ),
            pixels.is_some() ==> pixels.unwrap()@ == self.drawn(
                xleft as int,
                ytop as int,
                scale as int,
            ),
    {
        let mut pixels: Vec<Pixel> = Vec::new();
        if scale == 0 || self.height() == 0 {
            assert(self.rows() * scale == 0) by (nonlinear_arith)
                requires
                    scale == 0 || self.rows() == 0,
            ;
            return Some(pixels);
        }
        assert(self.rows() * scale > 0) by (nonlinear_arith)
            requires
                scale > 0,
                self.rows() > 0,
        ;
        let height: usize = match self.height().checked_mul(scale) {
            Some(height) => height,
            None => {
                return None;
            },
        };
        let width: usize = match self.width().checked_mul(scale) {
            Some(width) => width,
            None => {
                return None;
            },
        };
        let mut y: usize = 0;
        while y < height
            invariant
                scale > 0,
                height == self.rows() * scale,
                width == self.row_len(0) * scale,
                y <= height,
                pixels@ == self.shown_in_rows(y as nat, xleft as int, ytop as int, scale as int),
                forall|x1: int, y1: int|
                    0 <= y1 < y && 0 <= x1 < width && on_screen(x1 + xleft, y1 + ytop)
                        ==> #[trigger] self.covers(x1, y1, scale as int),
            decreases height - y,
        {
            let ghost above = pixels@;
            let mut x: usize = 0;
            while x < width
                invariant
                    scale > 0,
                    height == self.rows() * scale,
                    width == self.row_len(0) * scale,
                    y < height,
                    x <= width,
                    pixels@ == above + self.shown_in_row(
                        y as int,
                        x as nat,
                        xleft as int,
                        ytop as int,
                        scale as int,
                    ),
                    forall|x1: int|
                        0 <= x1 < x && on_screen(x1 + xleft, y + ytop) ==> #[trigger] self.covers(
                            x1,
                            y as int,
                            scale as int,
                        ),
                decreases width - x,
            {
                let ghost before = self.shown_in_row(
                    y as int,
                    x as nat,
                    xleft as int,
                    ytop as int,
                    scale as int,
                );
                if screen_position(x, y, xleft, ytop).is_some() {
                    let row = y / scale;
                    assert(row < self.rows()) by (nonlinear_arith)
                        requires
                            y < self.rows() * scale,
                            scale > 0,
                            row == y / scale,
                    ;
                    if x / scale >= self.pixels[row].as_bytes().len() {
                        assert(!self.covers(x as int, y as int, scale as int));
                        return None;
                    }
                    let pixel = self.screen_pixel(x, y, xleft, ytop, scale);
                    pixels.push(pixel.unwrap());
                    assert(pixels@ =~= above + before.push(pixel.unwrap()));
                }
                x += 1;
            }
            y += 1;
        }
        Some(pixels)
    }

    /// The pixels to set for the picture drawn `scale` times its size
    /// with its top left corner at (`xleft`, `ytop`). What falls off the
    /// screen is left out.
    pub fn draw_icon_with_scale(&self, xleft: i32, ytop: i32, scale: usize) -> (pixels: Vec<Pixel>)
        requires
            self.fits(scale as int),
            self.drawable(xleft as int, ytop as int, scale as int),
        ensures
            pixels@ == self.drawn(xleft as int, ytop as int, scale as int),
    {
        match self.try_draw_icon_with_scale(xleft, ytop, scale) {
            Some(pixels) => pixels,
            None => vstd::pervasive::unreached(),
        }
    }

    /// The picture at its own size: `draw_icon_with_scale` with scale 1.
    pub fn draw_icon(&self, xleft: i32, ytop: i32) -> (pixels: Vec<Pixel>)
        requires
            self.fits(1),
            self.drawable(xleft as int, ytop as int, 1),
        ensures
            pixels@ == self.drawn(xleft as int, ytop as int, 1),
    {
        self.draw_icon_with_scale(xleft, ytop, 1)
    }

    /// Every pixel that a row of the drawing sets lies on the screen.
    proof fn lemma_row_on_screen(&self, y: int, upto: nat, xleft: int, ytop: int, scale: int)
        ensures
            all_on_screen(self.shown_in_row(y, upto, xleft, ytop, scale)),
        decreases upto,
    {
        if upto > 0 {
            self.lemma_row_on_screen(y, (upto - 1) as nat, xleft, ytop, scale);
            let before = self.shown_in_row(y, (upto - 1) as nat, xleft, ytop, scale);
            let row = self.shown_in_row(y, upto, xleft, ytop, scale);
            assert forall|i: int| 0 <= i < row.len() implies on_screen(
                (#[trigger] row[i]).x as int,
                row[i].y as int,
            ) by {
                if i < before.len() {
                    assert(row[i] == before[i]);
                }
            }
        }
    }

    /// Every pixel that the first `upto` rows of the drawing set lies on
    /// the screen.
    proof fn lemma_rows_on_screen(&self, upto: nat, xleft: int, ytop: int, scale: int)
        ensures
            all_on_screen(self.shown_in_rows(upto, xleft, ytop, scale)),
        decreases upto,
    {
        if upto > 0 {
            let above = self.shown_in_rows((upto - 1) as nat, xleft, ytop, scale);
            let row = self.shown_in_row(
                upto - 1,
                (self.row_len(0) * scale) as nat,
                xleft,
                ytop,
                scale,
            );
            self.lemma_rows_on_screen((upto - 1) as nat, xleft, ytop, scale);
            self.lemma_row_on_screen(
                upto - 1,
                (self.row_len(0) * scale) as nat,
                xleft,
                ytop,
                scale,
            );
            assert forall|i: int| 0 <= i < (above + row).len() implies on_screen(
                (#[trigger] (above + row)[i]).x as int,
                (above + row)[i].y as int,
            ) by {
                if i < above.len() {
                    assert((above + row)[i] == above[i]);
                } else {
                    assert((above + row)[i] == row[i - above.len()]);
                }
            }
        }
    }

    /// A drawing sets no pixel off the screen.
    pub proof fn lemma_drawn_on_screen(&self, xleft: int, ytop: int, scale: int)
        ensures
            all_on_screen(self.drawn(xleft, ytop, scale)),
    {
        self.lemma_rows_on_screen((self.rows() * scale) as nat, xleft, ytop, scale);
    }

    /// A well-formed picture can be drawn anywhere at any size.
    pub proof fn lemma_well_formed_drawable(&self, xleft: int, ytop: int, scale: int)
        requires
            self.well_formed(),
        ensures
            self.drawable(xleft, ytop, scale),
    {
        assert forall|x: int, y: int|
            0 <= y < self.rows() * scale && 0 <= x < self.row_len(0) * scale
                implies #[trigger] self.covers(x, y, scale) by {
            self.lemma_covers(x, y, scale);
        }
    }

    /// A well-formed picture drawn `scale` times its size covers every
    /// pixel of a grid `scale` times as wide and as high.
    pub proof fn lemma_covers(&self, x: int, y: int, scale: int)
        requires
            self.well_formed(),
            0 <= x < self.row_len(0) * scale,
            0 <= y < self.rows() * scale,
        ensures
            self.covers(x, y, scale),
    {
        let w = self.row_len(0) as int;
        let h = self.rows() as int;
        assert(scale > 0 && 0 <= x / scale < w) by (nonlinear_arith)
            requires
                0 <= x < w * scale,
                0 <= w,
        ;
        assert(0 <= y / scale < h) by (nonlinear_arith)
            requires
                0 <= y < h * scale,
                0 <= h,
                scale > 0,
        ;
    }
}

/// An upright cross, row by row.
pub open spec fn cross_art() -> Seq<Seq<char>> {
    seq![
        "  X  "@,
        "  X  "@,
        "  X  "@,
        "XXXXX"@,
        "  X  "@,
        "  X  "@,
        "  X  "@,
        "  X  "@,
    ]
}

/// An upright cross.
pub fn cross() -> (icon: Icon)
    ensures
        icon.name@ == "cross"@,
        icon.author@ == "emma"@,
        icon.art() == cross_art(),
        icon.is_grid(5, 8),
        icon.well_formed(),
{
    proof {
        broadcast use vstd::string::is_ascii_spec_bytes;
        reveal_strlit("  X  ");
        assert(vstd::string::is_ascii("  X  "));
        reveal_strlit("XXXXX");
        assert(vstd::string::is_ascii("XXXXX"));
    }
    let icon = Icon {
        name: "cross",
        author: "emma",
        pixels: &[
            "  X  ",
            "  X  ",
            "  X  ",
            "XXXXX",
            "  X  ",
            "  X  ",
            "  X  ",
            "  X  ",
        ],
    };
    assert(icon.art() =~= cross_art());
    icon
}

/// A small heart, row by row.
pub open spec fn sm_heart_art() -> Seq<Seq<char>> {
    seq![
        " XXX   XXX "@,
        "XXXXX XXXXX"@,
        " XXXXXXXXX "@,
        "   XXXXX   "@,
        "     X     "@,
    ]
}

/// A small heart.
pub fn sm_heart() -> (icon: Icon)
    ensures
        icon.name@ == "small heart"@,
        icon.author@ == "aaron"@,
        icon.art() == sm_heart_art(),
        icon.is_grid(11, 5),
        icon.well_formed(),
{
    proof {
        broadcast use vstd::string::is_ascii_spec_bytes;
        reveal_strlit(" XXX   XXX ");
        assert(vstd::string::is_ascii(" XXX   XXX "));
        reveal_strlit("XXXXX XXXXX");
        assert(vstd::string::is_ascii("XXXXX XXXXX"));
        reveal_strlit(" XXXXXXXXX ");
        assert(vstd::string::is_ascii(" XXXXXXXXX "));
        reveal_strlit("   XXXXX   ");
        assert(vstd::string::is_ascii("   XXXXX   "));
        reveal_strlit("     X     ");
        assert(vstd::string::is_ascii("     X     "));
    }
    let icon = Icon {
        name: "small heart",
        author: "aaron",
        pixels: &[
            " XXX   XXX ",
            "XXXXX XXXXX",
            " XXXXXXXXX ",
            "   XXXXX   ",
            "     X     ",
        ],
    };
    assert(icon.art() =~= sm_heart_art());
    icon
}

/// A loaf of bread, row by row.
pub open spec fn bread_art() -> Seq<Seq<char>> {
    seq![
        "   XXXXXX "@,
        "  X      X"@,
        "   xxxxx X"@,
        " X xxxxx X"@,
        "   xxxxx X"@,
        "X  xxxxx X"@,
        "         X"@,
        " XXXXXXXX "@,
    ]
}

/// A loaf of bread.
pub fn bread() -> (icon: Icon)
    ensures
        icon.name@ == "bread"@,
        icon.author@ == "anna"@,
        icon.art() == bread_art(),
        icon.is_grid(10, 8),
        icon.well_formed(),
{
    proof {
        broadcast use vstd::string::is_ascii_spec_bytes;
        reveal_strlit("   XXXXXX ");
        assert(vstd::string::is_ascii("   XXXXXX "));
        reveal_strlit("  X      X");
        assert(vstd::string::is_ascii("  X      X"));
        reveal_strlit("   xxxxx X");
        assert(vstd::string::is_ascii("   xxxxx X"));
        reveal_strlit(" X xxxxx X");
        assert(vstd::string::is_ascii(" X xxxxx X"));
        reveal_strlit("X  xxxxx X");
        assert(vstd::string::is_ascii("X  xxxxx X"));
        reveal_strlit("         X");
        assert(vstd::string::is_ascii("         X"));
        reveal_strlit(" XXXXXXXX ");
        assert(vstd::string::is_ascii(" XXXXXXXX "));
    }
    let icon = Icon {
        name: "bread",
        author: "anna",
        pixels: &[
            "   XXXXXX ",
            "  X      X",
            "   xxxxx X",
            " X xxxxx X",
            "   xxxxx X",
            "X  xxxxx X",
            "         X",
            " XXXXXXXX ",
        ],
    };
    assert(icon.art() =~= bread_art());
    icon
}

/// A heart within a heart, row by row.
pub open spec fn two_heart_art() -> Seq<Seq<char>> {
    seq![
        " XX XX "@,
        "X  X  X"@,
        "X X X X"@,
        "X XXX X"@,
        " X X X "@,
        "  X X  "@,
        "   X   "@,
    ]
}

/// A heart within a heart.
pub fn two_heart() -> (icon: Icon)
    ensures
        icon.name@ == "2heart"@,
        icon.author@ == "emma"@,
        icon.art() == two_heart_art(),
        icon.is_grid(7, 7),
        icon.well_formed(),
{
    proof {
        broadcast use vstd::string::is_ascii_spec_bytes;
        reveal_strlit(" XX XX ");
        assert(vstd::string::is_ascii(" XX XX "));
        reveal_strlit("X  X  X");
        assert(vstd::string::is_ascii("X  X  X"));
        reveal_strlit("X X X X");
        assert(vstd::string::is_ascii("X X X X"));
        reveal_strlit("X XXX X");
        assert(vstd::string::is_ascii("X XXX X"));
        reveal_strlit(" X X X ");
        assert(vstd::string::is_ascii(" X X X "));
        reveal_strlit("  X X  ");
        assert(vstd::string::is_ascii("  X X  "));
        reveal_strlit("   X   ");
        assert(vstd::string::is_ascii("   X   "));
    }
    let icon = Icon {
        name: "2heart",
        author: "emma",
        pixels: &[
            " XX XX ",
            "X  X  X",
            "X X X X",
            "X XXX X",
            " X X X ",
            "  X X  ",
            "   X   ",
        ],
    };
    assert(icon.art() =~= two_heart_art());
    icon
}

/// A checkerboard, row by row.
pub open spec fn checker_art() -> Seq<Seq<char>> {
    seq![
        "X X X"@,
        " X X "@,
        "X X X"@,
        " X X "@,
        "X X X"@,
        " X X "@,
        "X X X"@,
        " X X "@,
        "X X X"@,
    ]
}

/// A checkerboard.
pub fn checker() -> (icon: Icon)
    ensures
        icon.name@ == "checker"@,
        icon.author@ == "emma"@,
        icon.art() == checker_art(),
        icon.is_grid(5, 9),
        icon.well_formed(),
{
    proof {
        broadcast use vstd::string::is_ascii_spec_bytes;
        reveal_strlit("X X X");
        assert(vstd::string::is_ascii("X X X"));
        reveal_strlit(" X X ");
        assert(vstd::string::is_ascii(" X X "));
    }
    let icon = Icon {
        name: "checker",
        author: "emma",
        pixels: &[
            "X X X",
            " X X ",
            "X X X",
            " X X ",
            "X X X",
            " X X ",
            "X X X",
            " X X ",
            "X X X",
        ],
    };
    assert(icon.art() =~= checker_art());
    icon
}

/// A wrapped sweet, row by row.
pub open spec fn candy_art() -> Seq<Seq<char>> {
    seq![
        "X      X"@,
        "XX XX XX"@,
        "XXXXXXXX"@,
        "XXXXXXXX"@,
        "XX XX XX"@,
        "X      X"@,
    ]
}

/// A wrapped sweet.
pub fn candy() -> (icon: Icon)
    ensures
        icon.name@ == "candy"@,
        icon.author@ == "emma"@,
        icon.art() == candy_art(),
        icon.is_grid(8, 6),
        icon.well_formed(),
{
    proof {
        broadcast use vstd::string::is_ascii_spec_bytes;
        reveal_strlit("X      X");
        assert(vstd::string::is_ascii("X      X"));
        reveal_strlit("XX XX XX");
        assert(vstd::string::is_ascii("XX XX XX"));
        reveal_strlit("XXXXXXXX");
        assert(vstd::string::is_ascii("XXXXXXXX"));
    }
    let icon = Icon {
        name: "candy",
        author: "emma",
        pixels: &[
            "X      X",
            "XX XX XX",
            "XXXXXXXX",
            "XXXXXXXX",
            "XX XX XX",
            "X      X",
        ],
    };
    assert(icon.art() =~= candy_art());
    icon
}

/// A lollipop, row by row.
pub open spec fn lollipop_art() -> Seq<Seq<char>> {
    seq![
        " XXX "@,
        "XXXXX"@,
        "XXXXX"@,
        "XXXXX"@,
        " XXX "@,
        "  X  "@,
        "  X  "@,
        "  X  "@,
    ]
}

/// A lollipop.
pub fn lollipop() -> (icon: Icon)
    ensures
        icon.name@ == "lollipop"@,
        icon.author@ == "anna"@,
        icon.art() == lollipop_art(),
        icon.is_grid(5, 8),
        icon.well_formed(),
{
    proof {
        broadcast use vstd::string::is_ascii_spec_bytes;
        reveal_strlit(" XXX ");
        assert(vstd::string::is_ascii(" XXX "));
        reveal_strlit("XXXXX");
        assert(vstd::string::is_ascii("XXXXX"));
        reveal_strlit("  X  ");
        assert(vstd::string::is_ascii("  X  "));
    }
    let icon = Icon {
        name: "lollipop",
        author: "anna",
        pixels: &[
            " XXX ",
            "XXXXX",
            "XXXXX",
            "XXXXX",
            " XXX ",
            "  X  ",
            "  X  ",
            "  X  ",
        ],
    };
    assert(icon.art() =~= lollipop_art());
    icon
}

/// A daisy, row by row.
pub open spec fn daisy_art() -> Seq<Seq<char>> {
    seq![
        " XXXX "@,
        "X    X"@,
        "X xx X"@,
        "X    X"@,
        " XXXX "@,
    ]
}

/// A daisy.
pub fn daisy() -> (icon: Icon)
    ensures
        icon.name@ == "daisy"@,
        icon.author@ == "anna"@,
        icon.art() == daisy_art(),
        icon.is_grid(6, 5),
        icon.well_formed(),
{
    proof {
        broadcast use vstd::string::is_ascii_spec_bytes;
        reveal_strlit(" XXXX ");
        assert(vstd::string::is_ascii(" XXXX "));
        reveal_strlit("X    X");
        assert(vstd::string::is_ascii("X    X"));
        reveal_strlit("X xx X");
        assert(vstd::string::is_ascii("X xx X"));
    }
    let icon = Icon {
        name: "daisy",
        author: "anna",
        pixels: &[
            " XXXX ",
            "X    X",
            "X xx X",
            "X    X",
            " XXXX ",
        ],
    };
    assert(icon.art() =~= daisy_art());
    icon
}

/// Number of pictures.
pub const ICON_COUNT: usize = 8;

/// Every picture, by name.
pub fn icons() -> (all: [Icon; ICON_COUNT])
    ensures
        all[0].art() == bread_art(),
        all[1].art() == candy_art(),
        all[2].art() == checker_art(),
        all[3].art() == cross_art(),
        all[4].art() == daisy_art(),
        all[5].art() == lollipop_art(),
        all[6].art() == sm_heart_art(),
        all[7].art() == two_heart_art(),
        forall|i: int| 0 <= i < ICON_COUNT ==> (#[trigger] all[i]).well_formed(),
{
    [bread(), candy(), checker(), cross(), daisy(), lollipop(), sm_heart(), two_heart()]
}

} // verus!
