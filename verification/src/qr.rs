//! QR codes in an image: each code that carries a link which a rule changes
//! is covered by a new code, of about the same size, that carries the
//! rewritten link.

use crate::link::same_text;
use crate::pipeline::{entered, replace_all, resumed, Lookup, LookupView, Rewrite, RewriteView};
use crate::table::ShortLink;
use vstd::prelude::*;

verus! {

/// An image as the imaging library holds it. Nothing here looks inside.
#[verifier::external_type_specification]
#[verifier::external_body]
pub struct ExDynamicImage(image::DynamicImage);

/// A point of an image, in pixels.
#[derive(Clone, Copy, Debug, PartialEq, Eq, Structural)]
pub struct Corner {
    pub x: i32,
    pub y: i32,
}

/// A QR code found in an image: where its four corners lie, and what it
/// holds, or why that could not be read.
#[derive(Debug)]
pub struct QrGrid {
    pub top_left: Corner,
    pub top_right: Corner,
    pub bottom_right: Corner,
    pub bottom_left: Corner,
    pub payload: Result<String, String>,
}

/// The mathematical content of a [`QrGrid`].
pub struct QrGridView {
    pub top_left: Corner,
    pub top_right: Corner,
    pub bottom_right: Corner,
    pub bottom_left: Corner,
    pub payload: Result<Seq<char>, Seq<char>>,
}

impl View for QrGrid {
    type V = QrGridView;

    open spec fn view(&self) -> QrGridView {
        QrGridView {
            top_left: self.top_left,
            top_right: self.top_right,
            bottom_right: self.bottom_right,
            bottom_left: self.bottom_left,
            payload: match self.payload {
                Ok(text) => Ok(text@),
                Err(reason) => Err(reason@),
            },
        }
    }
}

impl QrGridView {
    /// The measured width: from the top left corner to the top right one.
    pub open spec fn width(self) -> int {
        self.top_right.x - self.top_left.x
    }

    /// The measured height: from the top left corner to the bottom left one.
    pub open spec fn height(self) -> int {
        self.bottom_left.y - self.top_left.y
    }

    /// Where a replacement is laid: five pixels up and left of the top left
    /// corner, to cover the margin of the code underneath.
    pub open spec fn origin(self) -> (int, int) {
        (self.top_left.x - OVERLAY_MARGIN, self.top_left.y - OVERLAY_MARGIN)
    }
}

/// The pixels by which a replacement reaches over the corner of the code it covers.
pub const OVERLAY_MARGIN: i64 = 5;

/// The largest size that can be asked of a replacement.
pub const MAX_SIDE: u32 = u32::MAX;

/// A size cut to what can be asked of a replacement.
pub open spec fn clamped(size: int) -> int {
    if size < 0 {
        0
    } else if size > MAX_SIDE {
        MAX_SIDE as int
    } else {
        size
    }
}

/// The least size of a replacement for a code of size `measured`: nine
/// tenths of it, rounded up to whole pixels.
pub open spec fn least_size(measured: int) -> int {
    if measured <= 0 {
        0
    } else {
        clamped((measured * 9 + 9) / 10)
    }
}

/// The largest size of a replacement for a code of size `measured`: eleven
/// tenths of it, rounded down.
pub open spec fn most_size(measured: int) -> int {
    clamped(measured * 11 / 10)
}

impl QrGrid {
    /// The measured width: from the top left corner to the top right one.
    pub fn width(&self) -> (width: i64)
        ensures
            width == self@.width(),
    {
        self.top_right.x as i64 - self.top_left.x as i64
    }

    /// The measured height: from the top left corner to the bottom left one.
    pub fn height(&self) -> (height: i64)
        ensures
            height == self@.height(),
    {
        self.bottom_left.y as i64 - self.top_left.y as i64
    }

    /// Where a replacement is laid.
    pub fn origin(&self) -> (origin: (i64, i64))
        ensures
            origin.0 == self@.origin().0,
            origin.1 == self@.origin().1,
    {
        (self.top_left.x as i64 - OVERLAY_MARGIN, self.top_left.y as i64 - OVERLAY_MARGIN)
    }
}

/// The least and the largest size of a replacement for a code of size
/// `measured`: nine and eleven tenths of it.
pub fn tolerance(measured: i64) -> (range: (u32, u32))
    ensures
        range.0 == least_size(measured as int),
        range.1 == most_size(measured as int),
        range.0 <= range.1,
{
    if measured <= 0 {
        return (0, 0);
    }
    let top: i64 = MAX_SIDE as i64;
    let least: i64 = if measured > 2 * top {
        top
    } else {
        let nine = (measured * 9 + 9) / 10;
        if nine > top {
            top
        } else {
            nine
        }
    };
    let most: i64 = if measured > top {
        top
    } else {
        let eleven = measured * 11 / 10;
        if eleven > top {
            top
        } else {
            eleven
        }
    };
    (least as u32, most as u32)
}

/// How much of a code may be damaged before it cannot be read.
#[derive(Clone, Copy, Debug, PartialEq, Eq, Structural)]
pub enum EcLevel {
    /// About 7%.
    L,
    /// About 15%.
    M,
    /// About 25%.
    Q,
    /// About 30%.
    H,
}

/// The colour of the dark modules of a replacement: opaque black.
pub const INK: [u8; 4] = [0, 0, 0, 255];

/// The colour of the light modules of a replacement: opaque white.
pub const PAPER: [u8; 4] = [255, 255, 255, 255];

/// The smallest symbol that holds `text` at `level`, as the encoder builds
/// it: the number of modules on each side and, row by row, whether each
/// module is dark; or the encoder's reason where no symbol holds the text.
pub uninterp spec fn qr_modules(text: Seq<char>, level: EcLevel) -> Result<(nat, Seq<bool>), Seq<char>>;

/// Encodes with `qrcode::QrCode::with_error_correction_level` and reads the
/// symbol with `QrCode::width` and `QrCode::into_colors`. Trusted: the result
/// is what the encoder returns, named [`qr_modules`]; a symbol has from 21 to
/// 177 modules on each side, and one colour for every module of the square.
#[verifier::external_body]
pub(crate) fn encode_modules(text: &str, level: EcLevel) -> (modules: Result<(usize, Vec<bool>), String>)
    ensures
        match modules {
            Ok((side, dark)) => {
                &&& qr_modules(text@, level) == Ok::<(nat, Seq<bool>), Seq<char>>((side as nat, dark@))
                &&& 21 <= side <= 177
                &&& dark.len() == side * side
            },
            Err(reason) => qr_modules(text@, level) == Err::<(nat, Seq<bool>), Seq<char>>(reason@),
        },
{
    let level = match level {
        EcLevel::L => qrcode::EcLevel::L,
        EcLevel::M => qrcode::EcLevel::M,
        EcLevel::Q => qrcode::EcLevel::Q,
        EcLevel::H => qrcode::EcLevel::H,
    };
    let code = qrcode::QrCode::with_error_correction_level(text, level)
        .map_err(|error| error.to_string())?;
    let side = code.width();
    Ok((side, code.into_colors().into_iter().map(|color| color.select(true, false)).collect()))
}

/// The size of one module when a symbol of `side` modules is drawn no
/// smaller than `at_least` pixels: the least whole number of pixels with
/// which the symbol reaches that size, and never less than one.
pub open spec fn module_size(side: int, at_least: int) -> int {
    let unit = (at_least + side - 1) / side;
    if unit < 1 {
        1
    } else {
        unit
    }
}

/// The size in pixels of a symbol of `side` modules drawn no smaller than `at_least`.
pub open spec fn drawn_size(side: int, at_least: int) -> int {
    side * module_size(side, at_least)
}

/// A drawing of the given size can be held in memory, four bytes a pixel.
pub open spec fn drawable(width: int, height: int) -> bool {
    4 * width * height <= isize::MAX
}

/// A symbol drawn as an image.
pub struct Tile {
    pub image: image::DynamicImage,
    pub width: u32,
    pub height: u32,
}

/// The codes that the reader finds in `image`, in the order in which it
/// finds them: the corners of each, and what it holds, or the reader's
/// reason where that cannot be read.
pub uninterp spec fn found_codes(image: image::DynamicImage) -> Seq<QrGridView>;

/// The drawing, `width` by `height` pixels, that the renderer makes of a
/// symbol of `side` modules a side without a quiet zone, `dark` telling row
/// by row which of the modules are dark: all modules of one size, the dark
/// ones in `ink` and the light ones in `paper`.
pub uninterp spec fn drawn_image(
    side: nat,
    dark: Seq<bool>,
    ink: [u8; 4],
    paper: [u8; 4],
    width: nat,
    height: nat,
) -> image::DynamicImage;

/// `base` with `top` laid over it, the top left corner of `top` at
/// `(x, y)`: the pixels of `top` that fall inside `base` are blended over
/// those of `base`, and every other pixel of `base` stays as it is.
pub uninterp spec fn laid_over(
    base: image::DynamicImage,
    top: image::DynamicImage,
    x: i64,
    y: i64,
) -> image::DynamicImage;

/// Draws with `qrcode::render::Renderer`: `max_dimensions` first, then
/// `min_dimensions`, which has the last word on the module size. Without a
/// quiet zone its width, `margin`, plays no part. Trusted: the drawing
/// measures as many modules as the symbol has on a side, each of the size
/// that `min_dimensions` computes, [`module_size`]; the drawing itself is
/// what the renderer returns, named [`drawn_image`] by what it depends on:
/// the symbol, the two colours and the size. The bounds keep the
/// renderer's 32-bit sizes and the buffer of the drawing from overflowing.
#[verifier::external_body]
pub(crate) fn draw_modules(
    side: usize,
    dark: &Vec<bool>,
    ink: [u8; 4],
    paper: [u8; 4],
    quiet_zone: bool,
    margin: u32,
    at_most: (u32, u32),
    at_least: (u32, u32),
) -> (tile: Tile)
    requires
        !quiet_zone,
        1 <= side <= 177,
        dark.len() == side * side,
        at_least.0 + side <= u32::MAX,
        at_least.1 + side <= u32::MAX,
        drawable(drawn_size(side as int, at_least.0 as int), drawn_size(side as int, at_least.1 as int)),
    ensures
        tile.image == drawn_image(
            side as nat,
            dark@,
            ink,
            paper,
            tile.width as nat,
            tile.height as nat,
        ),
        tile.width == drawn_size(side as int, at_least.0 as int),
        tile.height == drawn_size(side as int, at_least.1 as int),
{
    let color = |dark: &bool| if *dark { qrcode::Color::Dark } else { qrcode::Color::Light };
    let colors: Vec<qrcode::Color> = dark.iter().map(color).collect();
    let drawing = qrcode::render::Renderer::<image::Rgba<u8>>::new(&colors, side, margin)
        .light_color(image::Rgba(paper))
        .dark_color(image::Rgba(ink))
        .quiet_zone(quiet_zone)
        .max_dimensions(at_most.0, at_most.1)
        .min_dimensions(at_least.0, at_least.1)
        .build();
    let (width, height) = drawing.dimensions();
    Tile { image: image::DynamicImage::ImageRgba8(drawing), width, height }
}

/// Lays `top` over `base` with `image::imageops::overlay`, its top left
/// corner at `(x, y)`. Trusted: `base` becomes what the overlay makes of it,
/// named [`laid_over`].
#[verifier::external_body]
pub(crate) fn lay_over(base: &mut image::DynamicImage, top: &image::DynamicImage, x: i64, y: i64)
    ensures
        *final(base) == laid_over(*old(base), *top, x, y),
{
    image::imageops::overlay(base, top, x, y);
}

/// Finds the codes with `rqrr::PreparedImage::detect_grids`, on the image
/// that `DynamicImage::to_luma8` and `PreparedImage::prepare` make of
/// `image`, and reads each with `Grid::decode`. Trusted: the result is what
/// the reader returns, named [`found_codes`].
#[verifier::external_body]
pub(crate) fn find_grids(image: &image::DynamicImage) -> (grids: Vec<QrGrid>)
    ensures
        grid_views(grids@) == found_codes(*image),
{
    let mut prepared = rqrr::PreparedImage::prepare(image.to_luma8());
    let corner = |point: rqrr::Point| Corner { x: point.x, y: point.y };
    prepared
        .detect_grids()
        .iter()
        .map(|grid| QrGrid {
            top_left: corner(grid.bounds[0]),
            top_right: corner(grid.bounds[1]),
            bottom_right: corner(grid.bounds[2]),
            bottom_left: corner(grid.bounds[3]),
            payload: grid.decode().map(|(_, text)| text).map_err(|error| error.to_string()),
        })
        .collect()
}

/// Why the rewrite of an image failed. Nothing of the image is handed back.
#[derive(Debug)]
pub enum QrFailure {
    /// A lookup failed, for a short link of this family in a code.
    Lookup(ShortLink),
    /// A code was found that cannot be read; this is the reader's reason.
    Decode(String),
    /// No code holds the rewritten link; this is the encoder's reason.
    Encode(String),
    /// The replacement would be larger than an image can be.
    Oversized,
}

/// The mathematical content of a [`QrFailure`].
pub enum QrFailureView {
    Lookup(ShortLink),
    Decode(Seq<char>),
    Encode(Seq<char>),
    Oversized,
}

impl View for QrFailure {
    type V = QrFailureView;

    open spec fn view(&self) -> QrFailureView {
        match self {
            QrFailure::Lookup(family) => QrFailureView::Lookup(*family),
            QrFailure::Decode(reason) => QrFailureView::Decode(reason@),
            QrFailure::Encode(reason) => QrFailureView::Encode(reason@),
            QrFailure::Oversized => QrFailureView::Oversized,
        }
    }
}

/// The views of a list of codes.
pub open spec fn grid_views(grids: Seq<QrGrid>) -> Seq<QrGridView> {
    Seq::new(grids.len(), |i: int| grids[i]@)
}

/// A replacement for `grid` that holds `text` can be drawn: a symbol holds
/// the text, and at the size asked for the drawing is not beyond an image.
pub open spec fn replaceable(grid: QrGridView, text: Seq<char>) -> Result<(), QrFailureView> {
    match qr_modules(text, EcLevel::L) {
        Err(reason) => Err(QrFailureView::Encode(reason)),
        Ok((side, dark)) => {
            if drawable(
                drawn_size(side as int, least_size(grid.width())),
                drawn_size(side as int, least_size(grid.height())),
            ) {
                Ok(())
            } else {
                Err(QrFailureView::Oversized)
            }
        },
    }
}

/// The replacement for `grid` that shows the symbol: black on white,
/// without a quiet zone, and of the least whole number of pixels for each
/// module with which it is no smaller than the least size for `grid`.
pub open spec fn replacement(grid: QrGridView, side: nat, dark: Seq<bool>) -> image::DynamicImage {
    drawn_image(
        side,
        dark,
        INK,
        PAPER,
        drawn_size(side as int, least_size(grid.width())) as nat,
        drawn_size(side as int, least_size(grid.height())) as nat,
    )
}

/// `image` with the replacement for `grid` that holds `text` laid over it,
/// five pixels up and left of the top left corner of `grid`.
pub open spec fn covered_image(
    image: image::DynamicImage,
    grid: QrGridView,
    text: Seq<char>,
) -> image::DynamicImage {
    match qr_modules(text, EcLevel::L) {
        Ok((side, dark)) => laid_over(
            image,
            replacement(grid, side, dark),
            grid.origin().0 as i64,
            grid.origin().1 as i64,
        ),
        Err(_) => image,
    }
}

/// The image and the rewritten links so far, once the code `grid` has been
/// rewritten to `text`: a code whose text no rule changed is passed over,
/// and the image stays as it is; else the replacement is laid over the
/// image and the text joins the links.
pub open spec fn noted(
    image: image::DynamicImage,
    grid: QrGridView,
    text: Seq<char>,
    urls: Seq<Seq<char>>,
) -> Result<(image::DynamicImage, Seq<Seq<char>>), QrFailureView> {
    if grid.payload == Ok::<Seq<char>, Seq<char>>(text) {
        Ok((image, urls))
    } else {
        match replaceable(grid, text) {
            Ok(()) => Ok((covered_image(image, grid, text), urls.push(text))),
            Err(failure) => Err(failure),
        }
    }
}

/// A rewrite of an image that waits for the target of a short link in one of its codes.
pub struct QrLookup {
    image: image::DynamicImage,
    grids: Vec<QrGrid>,
    at: usize,
    urls: Vec<String>,
    lookup: Lookup,
}

/// What a [`QrLookup`] holds: the image with the replacements laid so far,
/// the codes found, which of them is being rewritten, the rewritten links of
/// the codes replaced so far, and the lookup that the rewrite of the code's
/// text waits for.
pub struct QrLookupView {
    pub image: image::DynamicImage,
    pub grids: Seq<QrGridView>,
    pub at: nat,
    pub urls: Seq<Seq<char>>,
    pub lookup: LookupView,
}

impl View for QrLookup {
    type V = QrLookupView;

    closed spec fn view(&self) -> QrLookupView {
        QrLookupView {
            image: self.image,
            grids: grid_views(self.grids@),
            at: self.at as nat,
            urls: self.urls.deep_view(),
            lookup: self.lookup@,
        }
    }
}

/// How far the rewrite of an image has come.
pub enum QrRewrite {
    /// The rewrite is complete. `None`: no code was replaced, whether none
    /// was found or no rule changed what they hold. Otherwise the image with
    /// its replacements, and the rewritten links in the order in which their
    /// codes were found.
    Done(Option<(image::DynamicImage, Vec<String>)>),
    /// The target of a short link is needed to go on.
    Pending(QrLookup),
    /// The rewrite failed.
    Failed(QrFailure),
}

/// The mathematical content of a [`QrRewrite`].
pub enum QrRewriteView {
    Unchanged,
    Replaced(image::DynamicImage, Seq<Seq<char>>),
    Pending(QrLookupView),
    Failed(QrFailureView),
}

impl View for QrRewrite {
    type V = QrRewriteView;

    open spec fn view(&self) -> QrRewriteView {
        match self {
            QrRewrite::Done(None) => QrRewriteView::Unchanged,
            QrRewrite::Done(Some((image, urls))) => QrRewriteView::Replaced(
                *image,
                urls.deep_view(),
            ),
            QrRewrite::Pending(lookup) => QrRewriteView::Pending(lookup@),
            QrRewrite::Failed(failure) => QrRewriteView::Failed(failure@),
        }
    }
}

/// Where the rewrite of an image stands when it reaches the code at `at`
/// with the image `image` and the rewritten links `urls`. Codes are taken in
/// the order in which they were found. A code that cannot be read fails the
/// rewrite; so does a failed lookup, and a replacement that cannot be drawn.
/// At the end the image is unchanged where no code was replaced.
pub open spec fn scanned(
    image: image::DynamicImage,
    grids: Seq<QrGridView>,
    at: nat,
    urls: Seq<Seq<char>>,
) -> QrRewriteView
    decreases grids.len() - at, 1nat,
{
    if at >= grids.len() {
        if urls.len() == 0 {
            QrRewriteView::Unchanged
        } else {
            QrRewriteView::Replaced(image, urls)
        }
    } else {
        match grids[at as int].payload {
            Err(reason) => QrRewriteView::Failed(QrFailureView::Decode(reason)),
            Ok(text) => followed(image, grids, at, urls, entered(text, 0)),
        }
    }
}

/// Where the rewrite of an image stands when the rewrite of the text of the
/// code at `at` has come to `rewrite`.
pub open spec fn followed(
    image: image::DynamicImage,
    grids: Seq<QrGridView>,
    at: nat,
    urls: Seq<Seq<char>>,
    rewrite: RewriteView,
) -> QrRewriteView
    decreases grids.len() - at, 0nat,
{
    if at >= grids.len() {
        QrRewriteView::Unchanged
    } else {
        match rewrite {
            RewriteView::Failed(family) => QrRewriteView::Failed(QrFailureView::Lookup(family)),
            RewriteView::Pending(lookup) => QrRewriteView::Pending(
                QrLookupView { image, grids, at, urls, lookup },
            ),
            RewriteView::Done(text) => match noted(image, grids[at as int], text, urls) {
                Err(failure) => QrRewriteView::Failed(failure),
                Ok(pair) => scanned(pair.0, grids, at + 1, pair.1),
            },
        }
    }
}

/// The rewritten links `all` begin with the links `urls`, and hold at most
/// `more` links beyond them.
pub open spec fn continues(all: Seq<Seq<char>>, urls: Seq<Seq<char>>, more: int) -> bool {
    &&& urls.len() <= all.len() <= urls.len() + more
    &&& all.subrange(0, urls.len() as int) == urls
}

/// The image is reported unchanged exactly when no code was replaced, and
/// the rewritten links come in the order in which their codes were found:
/// a rewrite that is done from the code at `at` on keeps the links noted
/// before, and adds at most one for each code that is left.
pub proof fn lemma_scanned_in_order(
    image: image::DynamicImage,
    grids: Seq<QrGridView>,
    at: nat,
    urls: Seq<Seq<char>>,
)
    requires
        at <= grids.len(),
    ensures
        scanned(image, grids, at, urls) is Unchanged ==> urls.len() == 0,
        scanned(image, grids, at, urls) matches QrRewriteView::Replaced(_, all) ==> all.len() >= 1
            && continues(all, urls, grids.len() - at),
    decreases grids.len() - at, 1nat,
{
    if at < grids.len() {
        match grids[at as int].payload {
            Ok(text) => {
                lemma_followed_in_order(image, grids, at, urls, entered(text, 0));
            },
            Err(_) => {},
        }
    } else {
        assert(urls.subrange(0, urls.len() as int) =~= urls);
    }
}

/// The same of a rewrite that goes on from the text of the code at `at`.
pub proof fn lemma_followed_in_order(
    image: image::DynamicImage,
    grids: Seq<QrGridView>,
    at: nat,
    urls: Seq<Seq<char>>,
    rewrite: RewriteView,
)
    requires
        at < grids.len(),
    ensures
        followed(image, grids, at, urls, rewrite) is Unchanged ==> urls.len() == 0,
        followed(image, grids, at, urls, rewrite) matches QrRewriteView::Replaced(_, all)
            ==> all.len() >= 1 && continues(all, urls, grids.len() - at),
    decreases grids.len() - at, 0nat,
{
    match rewrite {
        RewriteView::Done(text) => match noted(image, grids[at as int], text, urls) {
            Ok(pair) => {
                lemma_scanned_in_order(pair.0, grids, at + 1, pair.1);
                match scanned(pair.0, grids, at + 1, pair.1) {
                    QrRewriteView::Replaced(_, all) => {
                        assert(pair.1.subrange(0, urls.len() as int) =~= urls);
                        assert(all.subrange(0, urls.len() as int) =~= all.subrange(
                            0,
                            pair.1.len() as int,
                        ).subrange(0, urls.len() as int));
                    },
                    _ => {},
                }
            },
            Err(_) => {},
        },
        _ => {},
    }
}

/// Where no code is replaced the image is not touched: a code whose text
/// no rule changed leaves the image and the links as they are.
pub proof fn lemma_unchanged_code_left(
    image: image::DynamicImage,
    grid: QrGridView,
    text: Seq<char>,
    urls: Seq<Seq<char>>,
)
    requires
        grid.payload == Ok::<Seq<char>, Seq<char>>(text),
    ensures
        noted(image, grid, text, urls) == Ok::<
            (image::DynamicImage, Seq<Seq<char>>),
            QrFailureView,
        >((image, urls)),
{
}

/// Draws the replacement for `grid` that holds `text`: a code at level L,
/// black on white and without a quiet zone, of the least whole number of
/// pixels for each module with which it is no smaller than nine tenths of
/// the measured width and height of `grid`.
pub fn draw_replacement(grid: &QrGrid, text: &str) -> (done: Result<Tile, QrFailure>)
    ensures
        match done {
            Ok(tile) => {
                &&& replaceable(grid@, text@) == Ok::<(), QrFailureView>(())
                &&& qr_modules(text@, EcLevel::L) matches Ok((side, dark))
                &&& tile.image == replacement(grid@, side, dark)
                &&& tile.width == drawn_size(side as int, least_size(grid@.width()))
                &&& tile.height == drawn_size(side as int, least_size(grid@.height()))
                &&& tile.width >= least_size(grid@.width())
                &&& tile.height >= least_size(grid@.height())
            },
            Err(failure) => replaceable(grid@, text@) == Err::<(), QrFailureView>(failure@),
        },
{
    match encode_modules(text, EcLevel::L) {
        Err(reason) => Err(QrFailure::Encode(reason)),
        Ok((side, dark)) => {
            let width = tolerance(grid.width());
            let height = tolerance(grid.height());
            proof {
                lemma_drawn_bounds(side as int, width.0 as int);
                lemma_drawn_bounds(side as int, height.0 as int);
            }
            let drawn_width = drawn(side as u32, width.0);
            let drawn_height = drawn(side as u32, height.0);
            if !fits_memory(drawn_width, drawn_height) {
                return Err(QrFailure::Oversized);
            }
            Ok(
                draw_modules(
                    side,
                    &dark,
                    INK,
                    PAPER,
                    false,
                    0,
                    (width.1, height.1),
                    (width.0, height.0),
                ),
            )
        },
    }
}

/// Draws the replacement for `grid` that holds `text`, and lays it over
/// `image`, which stays as it is where the replacement cannot be drawn.
fn replace_grid(image: &mut image::DynamicImage, grid: &QrGrid, text: &str) -> (done: Result<(), QrFailure>)
    ensures
        match done {
            Ok(()) => {
                &&& replaceable(grid@, text@) == Ok::<(), QrFailureView>(())
                &&& *final(image) == covered_image(*old(image), grid@, text@)
            },
            Err(failure) => {
                &&& replaceable(grid@, text@) == Err::<(), QrFailureView>(failure@)
                &&& *final(image) == *old(image)
            },
        },
{
    match draw_replacement(grid, text) {
        Err(failure) => Err(failure),
        Ok(tile) => {
            let origin = grid.origin();
            lay_over(image, &tile.image, origin.0, origin.1);
            Ok(())
        },
    }
}

/// The size in pixels of a symbol of `side` modules drawn no smaller than `at_least`.
pub fn drawn(side: u32, at_least: u32) -> (size: u32)
    requires
        1 <= side,
        at_least + side <= u32::MAX,
    ensures
        size == drawn_size(side as int, at_least as int),
        at_least <= size < at_least + side || size == side,
{
    let unit = (at_least + side - 1) / side;
    let unit = if unit < 1 {
        1
    } else {
        unit
    };
    proof {
        lemma_drawn_bounds(side as int, at_least as int);
    }
    side * unit
}

/// A drawing reaches the size asked for, with less than one module to spare
/// unless a single pixel for each module is already more.
pub proof fn lemma_drawn_bounds(side: int, at_least: int)
    requires
        1 <= side,
        0 <= at_least,
    ensures
        at_least <= drawn_size(side, at_least),
        drawn_size(side, at_least) < at_least + side || drawn_size(side, at_least) == side,
        side <= drawn_size(side, at_least),
{
    let unit = (at_least + side - 1) / side;
    let low = unit * side;
    assert(low <= at_least + side - 1 < low + side) by (nonlinear_arith)
        requires
            unit == (at_least + side - 1) / side,
            low == unit * side,
            side >= 1,
    ;
    if unit < 1 {
        assert(low == 0) by (nonlinear_arith)
            requires
                low == unit * side,
                unit == 0,
        ;
    } else {
        assert(side * unit == low) by (nonlinear_arith)
            requires
                low == unit * side,
        ;
        assert(low >= side) by (nonlinear_arith)
            requires
                low == unit * side,
                unit >= 1,
                side >= 1,
        ;
    }
}

/// The tolerance is a tenth either way: the least size is nine tenths of
/// the measured size, rounded up to whole pixels, and the largest eleven
/// tenths, rounded down.
pub proof fn lemma_tolerance_tenths(measured: int)
    requires
        0 <= measured,
        measured * 11 / 10 <= MAX_SIDE,
    ensures
        9 * measured <= 10 * least_size(measured) < 9 * measured + 10,
        10 * most_size(measured) <= 11 * measured < 10 * most_size(measured) + 10,
        least_size(measured) <= measured <= most_size(measured),
{
}

/// A replacement is within the tolerance of the code it covers wherever a
/// symbol of its number of modules can be: where some whole number of
/// pixels for each module gives a size between the least and the largest.
/// It is never smaller than the least size. Within the tolerance means
/// within a tenth of the measured size, either way.
pub proof fn lemma_replacement_within_tolerance(measured: int, side: int, pixels: int)
    requires
        0 <= measured,
        measured * 11 / 10 <= MAX_SIDE,
        1 <= side,
        1 <= pixels,
        least_size(measured) <= pixels * side <= most_size(measured),
    ensures
        least_size(measured) <= drawn_size(side, least_size(measured)) <= most_size(measured),
        9 * measured <= 10 * drawn_size(side, least_size(measured)) <= 11 * measured,
{
    lemma_tolerance_tenths(measured);
    let least = least_size(measured);
    lemma_drawn_bounds(side, least);
    let unit = module_size(side, least);
    assert(side * unit <= pixels * side) by (nonlinear_arith)
        requires
            1 <= side,
            1 <= pixels,
            least <= pixels * side,
            side * unit < least + side || side * unit == side,
    ;
}

/// The replacement laid over a code is within a tenth of the measured width
/// and height of the code, either way, wherever a symbol of its number of
/// modules can be: where some whole number of pixels for each module gives
/// a width, and some a height, between the least and the largest.
pub proof fn lemma_replacement_size(
    grid: QrGridView,
    side: nat,
    dark: Seq<bool>,
    across: int,
    down: int,
)
    requires
        1 <= side,
        0 <= grid.width() && grid.width() * 11 / 10 <= MAX_SIDE,
        0 <= grid.height() && grid.height() * 11 / 10 <= MAX_SIDE,
        1 <= across && least_size(grid.width()) <= across * side <= most_size(grid.width()),
        1 <= down && least_size(grid.height()) <= down * side <= most_size(grid.height()),
    ensures
        ({
            let width = drawn_size(side as int, least_size(grid.width()));
            let height = drawn_size(side as int, least_size(grid.height()));
            &&& replacement(grid, side, dark) == drawn_image(
                side,
                dark,
                INK,
                PAPER,
                width as nat,
                height as nat,
            )
            &&& 9 * grid.width() <= 10 * width <= 11 * grid.width()
            &&& 9 * grid.height() <= 10 * height <= 11 * grid.height()
        }),
{
    lemma_replacement_within_tolerance(grid.width(), side as int, across);
    lemma_replacement_within_tolerance(grid.height(), side as int, down);
}

/// Tells whether a drawing of the given size can be held in memory.
pub fn fits_memory(width: u32, height: u32) -> (fits: bool)
    ensures
        fits == drawable(width as int, height as int),
{
    assert(width as int * height as int <= 0xffff_ffff * 0xffff_ffff) by (nonlinear_arith)
        requires
            0 <= width <= 0xffff_ffff,
            0 <= height <= 0xffff_ffff,
    ;
    let area: u64 = width as u64 * height as u64;
    assert(4 * width * height == 4 * (width as int * height as int)) by (nonlinear_arith);
    area <= (isize::MAX as u64) / 4
}

/// Notes the rewrite of one code: lays a replacement over the image where a
/// rule changed the text, and adds the text to the rewritten links.
fn note(
    image: &mut image::DynamicImage,
    grid: &QrGrid,
    text: String,
    urls: Vec<String>,
) -> (done: Result<Vec<String>, QrFailure>)
    ensures
        match done {
            Ok(urls_after) => {
                &&& noted(*old(image), grid@, text@, urls.deep_view()) matches Ok(pair)
                &&& pair.0 == *final(image)
                &&& pair.1 == urls_after.deep_view()
            },
            Err(failure) => {
                &&& noted(*old(image), grid@, text@, urls.deep_view()) matches Err(reason)
                &&& reason == failure@
            },
        },
{
    let unchanged = match &grid.payload {
        Ok(payload) => same_text(payload.as_str(), text.as_str()),
        Err(_) => false,
    };
    if unchanged {
        return Ok(urls);
    }
    match replace_grid(image, grid, text.as_str()) {
        Err(failure) => Err(failure),
        Ok(()) => {
            let mut urls = urls;
            urls.push(text);
            Ok(urls)
        },
    }
}

/// Goes on from the code at `at`, whose text the rewrite has brought to `rewrite`.
fn follow(
    image: image::DynamicImage,
    grids: Vec<QrGrid>,
    at: usize,
    urls: Vec<String>,
    rewrite: Rewrite,
) -> (next: QrRewrite)
    requires
        at < grids.len(),
    ensures
        next@ == followed(image, grid_views(grids@), at as nat, urls.deep_view(), rewrite@),
    decreases grids.len() - at, 0nat,
{
    match rewrite {
        Rewrite::Failed(family) => QrRewrite::Failed(QrFailure::Lookup(family)),
        Rewrite::Pending(lookup) => QrRewrite::Pending(QrLookup { image, grids, at, urls, lookup }),
        Rewrite::Done(text) => {
            let mut canvas = image;
            match note(&mut canvas, &grids[at], text, urls) {
                Err(failure) => QrRewrite::Failed(failure),
                Ok(urls) => scan(canvas, grids, at + 1, urls),
            }
        },
    }
}

/// Goes through the codes from the one at `at` on.
fn scan(image: image::DynamicImage, grids: Vec<QrGrid>, at: usize, urls: Vec<String>) -> (next:
    QrRewrite)
    requires
        at <= grids.len(),
    ensures
        next@ == scanned(image, grid_views(grids@), at as nat, urls.deep_view()),
    decreases grids.len() - at, 1nat,
{
    if at >= grids.len() {
        if urls.len() == 0 {
            QrRewrite::Done(None)
        } else {
            QrRewrite::Done(Some((image, urls)))
        }
    } else {
        let start = match &grids[at].payload {
            Err(reason) => Err(reason.clone()),
            Ok(text) => Ok(replace_all(text.as_str())),
        };
        match start {
            Err(reason) => QrRewrite::Failed(QrFailure::Decode(reason)),
            Ok(rewrite) => follow(image, grids, at, urls, rewrite),
        }
    }
}

impl QrLookup {
    #[verifier::type_invariant]
    spec fn inv(self) -> bool {
        self.at < self.grids.len()
    }

    /// The family of the link whose target is asked for.
    pub fn family(&self) -> (family: ShortLink)
        ensures
            family == self@.lookup.family,
            self@.lookup.wf(),
            self@.at < self@.grids.len(),
    {
        proof {
            use_type_invariant(self);
        }
        self.lookup.family()
    }

    /// The link whose target is asked for, as it stands in the code.
    pub fn url(&self) -> (url: String)
        ensures
            url@ == self@.lookup.url(),
    {
        self.lookup.url()
    }

    /// Goes on with the answer to the lookup: the URL on which the request
    /// for [`QrLookup::url`] ended, or `None` where the request failed.
    pub fn resume(self, answer: Option<String>) -> (next: QrRewrite)
        ensures
            next@ == followed(
                self@.image,
                self@.grids,
                self@.at,
                self@.urls,
                resumed(self@.lookup, answer.deep_view()),
            ),
    {
        proof {
            use_type_invariant(&self);
        }
        let QrLookup { image, grids, at, urls, lookup } = self;
        let rewrite = lookup.resume(answer);
        follow(image, grids, at, urls, rewrite)
    }
}

/// Rewrites the codes `grids` found in `image`, in their order: the text of
/// each goes through [`replace_all`], and where that changes it a code for
/// the new text is laid over the old one.
pub fn rewrite_grids(image: image::DynamicImage, grids: Vec<QrGrid>) -> (next: QrRewrite)
    ensures
        next@ == scanned(image, grid_views(grids@), 0, Seq::empty()),
{
    let urls: Vec<String> = Vec::new();
    assert(urls.deep_view() =~= Seq::empty());
    scan(image, grids, 0, urls)
}

/// Rewrites the links in the QR codes of an image: the codes that the
/// reader finds in it are rewritten as by [`rewrite_grids`].
pub fn replace_qrcode(image: image::DynamicImage) -> (next: QrRewrite)
    ensures
        next@ == scanned(image, found_codes(image), 0, Seq::empty()),
{
    let grids = find_grids(&image);
    rewrite_grids(image, grids)
}

} // verus!
