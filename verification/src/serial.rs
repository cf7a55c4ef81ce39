//! The wire format of the LED matrix: one packet per column, byte-stuffed
//! and closed by a zero.

use crate::color::Rgb;
use vstd::prelude::*;

verus! {

/// The byte-stuffed form of `source` as `cobs::encode_vec` produces it.
pub uninterp spec fn cobs_encoded(source: Seq<u8>) -> Seq<u8>;

/// `cobs::encode_vec`: the consistent-overhead byte stuffing of `source`
/// with sentinel zero and without the closing sentinel. The result depends
/// on the bytes of `source` alone and holds no zero byte; nothing else is
/// claimed of it.
#[verifier::external_body]
fn cobs_encode(source: &Vec<u8>) -> (encoded: Vec<u8>)
    ensures
        encoded@ == cobs_encoded(source@),
        forall|i: int| 0 <= i < encoded@.len() ==> #[trigger] encoded@[i] != 0,
{
    cobs::encode_vec(source.as_slice())
}

/// A picture for the matrix, row after row from the top.
pub struct LedImage {
    pub width: usize,
    pub height: usize,
    pub pixels: Vec<Rgb>,
}

impl LedImage {
    /// There is one pixel for each place of the matrix.
    pub open spec fn wf(&self) -> bool {
        self.pixels@.len() == self.width * self.height
    }

    /// The pixel in column `col` of row `row`.
    pub open spec fn spec_pixel(&self, col: int, row: int) -> Rgb {
        self.pixels@[row * self.width + col]
    }

    /// A picture of the given size from its pixels in row-major order, or
    /// `None` when their number is not `width * height`.
    pub fn new(width: usize, height: usize, pixels: Vec<Rgb>) -> (image: Option<Self>)
        ensures
            image.is_some() <==> pixels@.len() == width * height,
            image matches Some(img) ==> img.wf() && img.width == width && img.height == height
                && img.pixels@ == pixels@,
    {
        let count: usize = pixels.len();
        let fits = match width.checked_mul(height) {
            Some(n) => n == count,
            None => false,
        };
        if fits {
            Some(LedImage { width, height, pixels })
        } else {
            None
        }
    }

    /// The pixel in column `col` of row `row`.
    pub fn pixel(&self, col: usize, row: usize) -> (p: Rgb)
        requires
            self.wf(),
            col < self.width,
            row < self.height,
        ensures
            p == self.spec_pixel(col as int, row as int),
    {
        let count: usize = self.pixels.len();
        proof {
            lemma_cell_in_range(self.width as int, self.height as int, col as int, row as int);
            assert(row * self.width + col < count);
        }
        self.pixels[row * self.width + col]
    }
}

/// The cell in column `col` of row `row` lies inside a grid of `width`
/// by `height` cells.
pub proof fn lemma_cell_in_range(width: int, height: int, col: int, row: int)
    requires
        0 <= col < width,
        0 <= row < height,
    ensures
        0 <= row * width,
        row * width + col < width * height,
{
    assert(0 <= row * width) by (nonlinear_arith)
        requires
            0 <= row,
            0 <= width,
    ;
    assert(row * width + width <= width * height) by (nonlinear_arith)
        requires
            row + 1 <= height,
            0 <= width,
    ;
}

/// Byte `k` of the packet of column `col`: the column's number first, then
/// green, red and blue of each pixel from the top row down.
pub open spec fn spec_packet_byte(image: LedImage, col: int, k: int) -> u8 {
    if k == 0 {
        (col % 256) as u8
    } else {
        let p = image.spec_pixel(col, (k - 1) / 3);
        if (k - 1) % 3 == 0 {
            p.g
        } else if (k - 1) % 3 == 1 {
            p.r
        } else {
            p.b
        }
    }
}

/// The packet of column `col` before byte stuffing.
pub open spec fn spec_column_packet(image: LedImage, col: int) -> Seq<u8> {
    Seq::new((3 * image.height + 1) as nat, |k: int| spec_packet_byte(image, col, k))
}

/// The frame of column `col` as it goes over the wire.
pub open spec fn spec_column_frame(image: LedImage, col: int) -> Seq<u8> {
    cobs_encoded(spec_column_packet(image, col)).push(0u8)
}

/// Builds the packet of column `col`: its number, cut to eight bits, then
/// three bytes per pixel in the order green, red, blue.
pub fn column_packet(image: &LedImage, col: usize) -> (packet: Vec<u8>)
    requires
        image.wf(),
        col < image.width,
    ensures
        packet@ == spec_column_packet(*image, col as int),
        packet@.len() == 3 * image.height + 1,
{
    let mut packet: Vec<u8> = Vec::new();
    packet.push((col % 256) as u8);
    let mut row: usize = 0;
    while row < image.height
        invariant
            image.wf(),
            col < image.width,
            row <= image.height,
            packet@.len() == 3 * row + 1,
            forall|k: int|
                0 <= k < packet@.len() ==> #[trigger] packet@[k] == spec_packet_byte(
                    *image,
                    col as int,
                    k,
                ),
        decreases image.height - row,
    {
        let p = image.pixel(col, row);
        packet.push(p.g);
        packet.push(p.r);
        packet.push(p.b);
        row += 1;
    }
    assert(packet@ =~= spec_column_packet(*image, col as int));
    packet
}

/// Byte-stuffs a packet and closes it with the zero that ends a frame.
pub fn encode_frame(packet: &Vec<u8>) -> (frame: Vec<u8>)
    ensures
        frame@ == cobs_encoded(packet@).push(0u8),
        frame@.len() >= 1,
        frame@[frame@.len() - 1] == 0,
        forall|i: int| 0 <= i < frame@.len() - 1 ==> #[trigger] frame@[i] != 0,
{
    let mut frame = cobs_encode(packet);
    frame.push(0);
    frame
}

/// The frame of column `col`, ready to be written to the port.
pub fn column_frame(image: &LedImage, col: usize) -> (frame: Vec<u8>)
    requires
        image.wf(),
        col < image.width,
    ensures
        frame@ == spec_column_frame(*image, col as int),
        frame@.len() >= 1,
        frame@[frame@.len() - 1] == 0,
        forall|i: int| 0 <= i < frame@.len() - 1 ==> #[trigger] frame@[i] != 0,
{
    let packet = column_packet(image, col);
    encode_frame(&packet)
}

/// The frames of all columns, from the left.
pub fn image_frames(image: &LedImage) -> (frames: Vec<Vec<u8>>)
    requires
        image.wf(),
    ensures
        frames@.len() == image.width,
        forall|col: int|
            0 <= col < image.width ==> (#[trigger] frames@[col])@ == spec_column_frame(*image, col),
{
    let mut frames: Vec<Vec<u8>> = Vec::new();
    let mut col: usize = 0;
    while col < image.width
        invariant
            image.wf(),
            col <= image.width,
            frames@.len() == col,
            forall|c: int|
                0 <= c < col ==> (#[trigger] frames@[c])@ == spec_column_frame(*image, c),
        decreases image.width - col,
    {
        frames.push(column_frame(image, col));
        col += 1;
    }
    frames
}

/// Microseconds for which the device is left alone after the port has
/// opened.
pub const SETTLE_MICROS: u64 = 1_000_000;

/// Microseconds to wait after a write that failed.
pub const BACKOFF_MICROS: u64 = 100_000;

/// Microseconds between two columns, for the device's receive buffer.
pub const COLUMN_GAP_MICROS: u64 = 50;

/// Microseconds between two pictures.
pub const REST_MICROS: u64 = 1_000;

/// Where the transmitter stands in its round.
#[derive(Clone, Copy, Debug, PartialEq, Eq, Structural)]
pub enum Link {
    /// The port has not been opened yet.
    Closed,
    /// The port could not be opened; nothing is sent, now or later.
    Disabled,
    /// The port is open and the device is given time to start.
    Settling,
    /// The frame of this column is due.
    Column(usize),
    /// The write of this column failed and is waited out.
    Backoff(usize),
    /// The pause after this column.
    Gap(usize),
    /// What the device may have sent back is read.
    Listening,
    /// The pause after a picture.
    Resting,
}

/// What the transmitter does next.
#[derive(Clone, Copy, Debug, PartialEq, Eq, Structural)]
pub enum LinkAction {
    /// Open the port.
    Open,
    /// Do nothing more.
    Halt,
    /// Sleep for this many microseconds.
    Sleep(u64),
    /// Write the frame of this column of the latest picture.
    Write(usize),
    /// Read what the device has sent, without waiting for more.
    Read,
}

/// What a stand of the transmitter asks for.
pub open spec fn spec_link_action(link: Link) -> LinkAction {
    match link {
        Link::Closed => LinkAction::Open,
        Link::Disabled => LinkAction::Halt,
        Link::Settling => LinkAction::Sleep(SETTLE_MICROS),
        Link::Column(col) => LinkAction::Write(col),
        Link::Backoff(_) => LinkAction::Sleep(BACKOFF_MICROS),
        Link::Gap(_) => LinkAction::Sleep(COLUMN_GAP_MICROS),
        Link::Listening => LinkAction::Read,
        Link::Resting => LinkAction::Sleep(REST_MICROS),
    }
}

/// The first stand of a picture of `width` columns.
pub open spec fn spec_picture_start(width: usize) -> Link {
    if width == 0 {
        Link::Listening
    } else {
        Link::Column(0)
    }
}

/// Where the transmitter stands after its action has succeeded (`ok`) or
/// failed, with a picture of `width` columns at hand. A port that does not
/// open disables the transmitter for good. A write that fails is waited
/// out and the round goes on with the next column; a read that fails is
/// passed over.
pub open spec fn spec_link_next(link: Link, ok: bool, width: usize) -> Link {
    match link {
        Link::Closed => if ok {
            Link::Settling
        } else {
            Link::Disabled
        },
        Link::Disabled => Link::Disabled,
        Link::Settling => spec_picture_start(width),
        Link::Column(col) => if ok {
            Link::Gap(col)
        } else {
            Link::Backoff(col)
        },
        Link::Backoff(col) => Link::Gap(col),
        Link::Gap(col) => if col < width && col + 1 < width {
            Link::Column((col + 1) as usize)
        } else {
            Link::Listening
        },
        Link::Listening => Link::Resting,
        Link::Resting => spec_picture_start(width),
    }
}

impl Link {
    /// What is to be done in this stand.
    pub fn action(self) -> (action: LinkAction)
        ensures
            action == spec_link_action(self),
    {
        match self {
            Link::Closed => LinkAction::Open,
            Link::Disabled => LinkAction::Halt,
            Link::Settling => LinkAction::Sleep(SETTLE_MICROS),
            Link::Column(col) => LinkAction::Write(col),
            Link::Backoff(_) => LinkAction::Sleep(BACKOFF_MICROS),
            Link::Gap(_) => LinkAction::Sleep(COLUMN_GAP_MICROS),
            Link::Listening => LinkAction::Read,
            Link::Resting => LinkAction::Sleep(REST_MICROS),
        }
    }

    /// The stand after the action of this one has been carried out.
    pub fn next(self, ok: bool, width: usize) -> (link: Link)
        ensures
            link == spec_link_next(self, ok, width),
    {
        match self {
            Link::Closed => if ok {
                Link::Settling
            } else {
                Link::Disabled
            },
            Link::Disabled => Link::Disabled,
            Link::Settling | Link::Resting => if width == 0 {
                Link::Listening
            } else {
                Link::Column(0)
            },
            Link::Column(col) => if ok {
                Link::Gap(col)
            } else {
                Link::Backoff(col)
            },
            Link::Backoff(col) => Link::Gap(col),
            Link::Gap(col) => if col < width && col + 1 < width {
                Link::Column(col + 1)
            } else {
                Link::Listening
            },
            Link::Listening => Link::Resting,
        }
    }
}

/// The stand reached from `link` in `steps` steps whose actions succeed or
/// fail as `oks` says.
pub open spec fn spec_link_run(link: Link, oks: Seq<bool>, width: usize) -> Link
    decreases oks.len(),
{
    if oks.len() == 0 {
        link
    } else {
        spec_link_next(spec_link_run(link, oks.drop_last(), width), oks.last(), width)
    }
}

/// A transmitter whose port did not open stays disabled whatever follows.
pub proof fn lemma_disabled_for_good(oks: Seq<bool>, width: usize)
    ensures
        spec_link_run(Link::Disabled, oks, width) == Link::Disabled,
        spec_link_run(Link::Closed, seq![false] + oks, width) == Link::Disabled,
    decreases oks.len(),
{
    if oks.len() == 0 {
        assert((seq![false] + oks).drop_last() =~= Seq::<bool>::empty());
        assert(spec_link_run(Link::Closed, Seq::<bool>::empty(), width) == Link::Closed);
    } else {
        lemma_disabled_for_good(oks.drop_last(), width);
        assert((seq![false] + oks).drop_last() =~= seq![false] + oks.drop_last());
        assert((seq![false] + oks).last() == oks.last());
    }
}

/// A failed write holds the round up but does not end it: from a column
/// that is due, the pause after that column is reached in one step when
/// the write succeeds and in two when it fails, and the step after the
/// pause leads to the next column or, past the last, to listening.
pub proof fn lemma_write_failure_is_transient(col: usize, ok: bool, width: usize)
    requires
        col < width,
    ensures
        ok ==> spec_link_next(Link::Column(col), ok, width) == Link::Gap(col),
        !ok ==> spec_link_next(spec_link_next(Link::Column(col), ok, width), true, width)
            == Link::Gap(col),
        !ok ==> spec_link_next(spec_link_next(Link::Column(col), ok, width), false, width)
            == Link::Gap(col),
        col + 1 < width ==> spec_link_next(Link::Gap(col), ok, width) == Link::Column(
            (col + 1) as usize,
        ),
        col + 1 == width ==> spec_link_next(Link::Gap(col), ok, width) == Link::Listening,
{
}

} // verus!
