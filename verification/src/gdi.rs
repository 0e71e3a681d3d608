//! Capture from the Windows graphics device interface. It hands the bitmap over bottom row
//! first, so the rows are put back in order, last to first. The capture is always of the
//! whole virtual desktop: the screen index that the caller gives selects nothing.

use vstd::prelude::*;
use vstd::arithmetic::div_mod::lemma_fundamental_div_mod_converse;
use crate::capture::{
    held_after, is_run, lemma_run_step, outcome_view, Protocol, Step, BAD_SIZE,
};
use crate::image::{Layout, ScreenResult, Screenshot, ScreenshotView};

verus! {

/// The screen's drawing context could not be had.
pub const NO_SCREEN: &'static str = "Can't get the Windows desktop.";

/// No drawing context compatible with the screen's could be created.
pub const NO_CONTEXT: &'static str = "Can't get a Windows display.";

/// No off-screen bitmap could be created.
pub const NO_BITMAP: &'static str = "Can't create a Windows buffer";

/// The bitmap could not be selected into the drawing context.
pub const NO_SELECT: &'static str = "Can't select Windows buffer.";

/// The desktop's pixels could not be copied into the bitmap.
pub const NO_BLIT: &'static str = "Failed to copy screen to Windows buffer";

/// The bitmap's bits could not be transferred.
pub const NO_BITS: &'static str = "Failed to read the Windows buffer";

/// Where byte `k` of the flipped buffer comes from: the same place in the row that is as
/// far from the bottom as `k`'s row is from the top.
pub open spec fn source_of(k: int, height: nat, row_len: nat) -> int {
    (height - 1 - k / (row_len as int)) * row_len + k % (row_len as int)
}

/// `data`, read as `height` rows of `row_len` bytes, with the rows in reverse order.
pub open spec fn flipped(data: Seq<u8>, height: nat, row_len: nat) -> Seq<u8> {
    Seq::new(
        data.len(),
        |k: int|
            if row_len > 0 && k < height * row_len {
                data[source_of(k, height, row_len)]
            } else {
                data[k]
            },
    )
}

/// Byte `col` of row `row` lies at `row * row_len + col`, in a buffer of `height` rows
/// and nowhere else.
proof fn lemma_cell(row: int, col: int, height: int, row_len: int)
    requires
        0 <= row < height,
        0 <= col < row_len,
    ensures
        0 <= row * row_len + col < height * row_len,
        (row * row_len + col) / row_len == row,
        (row * row_len + col) % row_len == col,
{
    lemma_fundamental_div_mod_converse(row * row_len + col, row_len, row, col);
    assert(0 <= row * row_len && row * row_len + row_len <= height * row_len)
        by (nonlinear_arith)
        requires
            0 <= row < height,
            0 < row_len,
    ;
}

/// In the flipped buffer, row `row` holds byte for byte what row `height - 1 - row` held.
pub proof fn lemma_flipped_cell(data: Seq<u8>, height: nat, row_len: nat, row: int, col: int)
    requires
        data.len() == height * row_len,
        0 <= row < height,
        0 <= col < row_len,
    ensures
        0 <= row * row_len + col < data.len(),
        0 <= (height - 1 - row) * row_len + col < data.len(),
        flipped(data, height, row_len)[row * row_len + col] == data[(height - 1 - row) * row_len
            + col],
{
    lemma_cell(row, col, height as int, row_len as int);
    lemma_cell(height - 1 - row, col, height as int, row_len as int);
}

/// Row reversal: row `i` of the buffer that went in is row `height - 1 - i` of the buffer
/// that comes out, for every row.
pub proof fn lemma_flip_moves_rows(data: Seq<u8>, height: nat, row_len: nat, i: int)
    requires
        data.len() == height * row_len,
        0 <= i < height,
    ensures
        0 <= i * row_len <= (i + 1) * row_len <= data.len(),
        0 <= (height - 1 - i) * row_len <= (height - i) * row_len <= data.len(),
        flipped(data, height, row_len).subrange((height - 1 - i) * row_len, (height - i) * row_len)
            == data.subrange(i * row_len, (i + 1) * row_len),
{
    let out = flipped(data, height, row_len);
    let to = height - 1 - i;
    assert(0 <= i * row_len && (i + 1) * row_len == i * row_len + row_len && (i + 1) * row_len
        <= height * row_len) by (nonlinear_arith)
        requires
            0 <= i < height,
    ;
    assert(0 <= to * row_len && (height - i) * row_len == to * row_len + row_len && (height - i)
        * row_len <= height * row_len) by (nonlinear_arith)
        requires
            0 <= i < height,
            to == height - 1 - i,
    ;
    let a = out.subrange(to * row_len, (height - i) * row_len);
    let b = data.subrange(i * row_len, (i + 1) * row_len);
    assert forall|col: int| 0 <= col < row_len implies a[col] == b[col] by {
        lemma_flipped_cell(data, height, row_len, to, col);
    }
    assert(a =~= b);
}

/// Reversing the rows twice gives the buffer back.
pub proof fn lemma_flip_twice(data: Seq<u8>, height: nat, row_len: nat)
    requires
        data.len() == height * row_len,
    ensures
        flipped(flipped(data, height, row_len), height, row_len) == data,
{
    let once = flipped(data, height, row_len);
    let twice = flipped(once, height, row_len);
    assert forall|k: int| 0 <= k < data.len() implies twice[k] == data[k] by {
        if row_len > 0 {
            let row = k / (row_len as int);
            let col = k % (row_len as int);
            assert(k == row * row_len + col && 0 <= col < row_len && 0 <= row < height)
                by (nonlinear_arith)
                requires
                    0 <= k < height * row_len,
                    row_len > 0,
                    row == k / (row_len as int),
                    col == k % (row_len as int),
            ;
            lemma_flipped_cell(once, height, row_len, row, col);
            lemma_flipped_cell(data, height, row_len, height - 1 - row, col);
        }
    }
    assert(twice =~= data);
}

/// Reorder rows in bitmap, last to first.
pub fn flip_rows(data: Vec<u8>, height: usize, row_len: usize) -> (out: Vec<u8>)
    requires
        data@.len() == height * row_len,
    ensures
        out@ == flipped(data@, height as nat, row_len as nat),
{
    let ghost want = flipped(data@, height as nat, row_len as nat);
    let len: usize = data.len();
    let mut out: Vec<u8> = Vec::with_capacity(len);
    let mut row: usize = 0;
    while row < height
        invariant
            row <= height,
            len == data@.len(),
            out@.len() <= len,
            data@.len() == height * row_len,
            want == flipped(data@, height as nat, row_len as nat),
            out@.len() == row * row_len,
            forall|k: int| 0 <= k < out@.len() ==> out@[k] == want[k],
        decreases height - row,
    {
        proof {
            assert((row + 1) * row_len == row * row_len + row_len && (row + 1) * row_len
                <= height * row_len) by (nonlinear_arith)
                requires
                    0 <= row < height,
                    0 <= row_len,
            ;
            assert((height - 1 - row) * row_len + row_len <= height * row_len && 0 <= (height - 1
                - row) * row_len) by (nonlinear_arith)
                requires
                    0 <= row < height,
                    0 <= row_len,
            ;
        }
        let from: usize = (height - 1 - row) * row_len;
        let mut col: usize = 0;
        while col < row_len
            invariant
                col <= row_len,
                row < height,
                from == (height - 1 - row) * row_len,
                from + row_len <= data@.len(),
                len == data@.len(),
                row * row_len + row_len <= len,
                data@.len() == height * row_len,
                want == flipped(data@, height as nat, row_len as nat),
                out@.len() == row * row_len + col,
                forall|k: int| 0 <= k < out@.len() ==> out@[k] == want[k],
            decreases row_len - col,
        {
            proof {
                lemma_flipped_cell(data@, height as nat, row_len as nat, row as int, col as int);
            }
            out.push(data[from + col]);
            col += 1;
        }
        row += 1;
    }
    assert(out@ =~= want);
    out
}

/// The image that a capture makes of the bits transferred from a bitmap of `width` by
/// `height` pixels: four bytes to the pixel, no padding, rows put back top first.
pub open spec fn assembled(width: usize, height: usize, bits: Seq<u8>) -> Result<
    ScreenshotView,
    &'static str,
> {
    if width * 4 <= usize::MAX && bits.len() == width * height * 4 {
        Ok(
            Layout { width, height, row_len: (width * 4) as usize, pixel_width: 4 }.holding(
                flipped(bits, height as nat, (width * 4) as nat),
            ),
        )
    } else {
        Err(BAD_SIZE)
    }
}

/// Makes the image of the bits transferred from the bitmap: refuses a buffer that is not
/// `width * height * 4` bytes long, and reverses the rows of one that is. In the image that
/// results the scanlines fill the buffer.
pub fn assemble(width: usize, height: usize, bits: Vec<u8>) -> (r: ScreenResult)
    ensures
        outcome_view(r) == assembled(width, height, bits@),
        r matches Ok(img) ==> img@.rows_hold_pixels() && img@.rows_fill_buffer()
            && img@.pixel_width == 4,
{
    let row_len: usize = match width.checked_mul(4) {
        Some(n) => n,
        None => { return Err(BAD_SIZE); },
    };
    let layout = Layout { width, height, row_len, pixel_width: 4 };
    assert(layout.pixels_len() == width * height * 4 && width * height * 4 == height * row_len
        && row_len * height == height * row_len) by (nonlinear_arith)
        requires
            layout.pixels_len() == width * height * 4,
            row_len == width * 4,
    ;
    let have: usize = bits.len();
    match layout.checked_pixels_len() {
        Some(len) => {
            if len == have {
                Ok(Screenshot::new(layout, flip_rows(bits, height, row_len)))
            } else {
                Err(BAD_SIZE)
            }
        },
        None => Err(BAD_SIZE),
    }
}

/// What a session holds of the system's while it runs.
pub enum Handle {
    /// The drawing context of the desktop.
    Screen,
    /// The drawing context made to be compatible with it.
    Context,
    /// The off-screen bitmap.
    Bitmap,
}

/// The virtual desktop: the rectangle that spans all monitors. Its origin is negative
/// where a monitor stands left of or above the primary one.
#[derive(Clone, Copy, Debug, PartialEq, Eq)]
pub struct Desktop {
    pub width: i32,
    pub height: i32,
    pub left: i32,
    pub top: i32,
}

/// The compression of a bitmap whose pixels are stored as they are.
pub const UNCOMPRESSED: u32 = 0;

/// The format in which the bitmap's bits are asked for. The height is positive, which
/// asks for the bottom row first.
#[derive(Clone, Copy, Debug, PartialEq, Eq)]
pub struct BitmapFormat {
    pub width: i32,
    pub height: i32,
    pub planes: u16,
    pub bit_count: u16,
    pub compression: u32,
    pub size_image: u32,
}

impl Desktop {
    /// The desktop has a size, and a bitmap of it at four bytes to the pixel has a length
    /// that the format can state.
    pub open spec fn fits(self) -> bool {
        0 <= self.width && 0 <= self.height && self.width * self.height * 4 <= u32::MAX
    }

    /// The format for a desktop that fits: 32 bits to the pixel, one plane, uncompressed,
    /// as wide and as high as the desktop.
    pub open spec fn format(self) -> BitmapFormat {
        BitmapFormat {
            width: self.width,
            height: self.height,
            planes: 1,
            bit_count: 32,
            compression: UNCOMPRESSED,
            size_image: (self.width * self.height * 4) as u32,
        }
    }
}

/// The native call that a session asks for next.
#[derive(Clone, Copy, Debug, PartialEq, Eq)]
pub enum Request {
    /// Get the desktop window's drawing context and measure the virtual desktop. Answered
    /// by `Reply::Screen`.
    GetScreen,
    /// Create a drawing context compatible with the screen's.
    CreateContext,
    /// Create a bitmap of this size, compatible with the screen's drawing context.
    CreateBitmap { width: i32, height: i32 },
    /// Select the bitmap into the compatible context.
    SelectBitmap,
    /// Copy this rectangle of the screen, layered windows included, to the origin of the
    /// compatible context.
    Blit { width: i32, height: i32, left: i32, top: i32 },
    /// Transfer all `format.height` scanlines of the bitmap, as device-independent bits of
    /// this format, into a buffer of `len` bytes. Answered by `Reply::Bits`.
    GetBits { format: BitmapFormat, len: usize },
    /// Release the screen's drawing context.
    ReleaseScreen,
    /// Delete the compatible context.
    DeleteContext,
    /// Delete the bitmap.
    DeleteBitmap,
}

/// What a native call gave back.
pub enum Reply {
    /// The call failed.
    Failed,
    /// The call succeeded and has nothing to report.
    Done,
    /// The screen's drawing context is held, and the desktop measures this.
    Screen(Desktop),
    /// The bits transferred.
    Bits(Vec<u8>),
}

/// A capture under way, named by the call it waits for.
pub enum Session {
    /// Nothing is held yet.
    GettingScreen,
    /// The screen's context is held, and the desktop measures `desktop`.
    CreatingContext { desktop: Desktop },
    /// The compatible context is held too.
    CreatingBitmap { desktop: Desktop },
    /// All three handles are held; the bitmap is not yet selected.
    Selecting { desktop: Desktop },
    /// The bitmap is selected and waits for the screen's pixels.
    Blitting { desktop: Desktop },
    /// The bitmap holds the screen's pixels: `width` by `height` of them, `len` bytes in
    /// `format`.
    Transferring { width: usize, height: usize, format: BitmapFormat, len: usize },
    /// The capture has come to `outcome`, and the screen's context goes first; the flags
    /// say what else is held.
    ReleasingScreen { context: bool, bitmap: bool, outcome: ScreenResult },
    /// The capture has come to `outcome`, and the compatible context goes next.
    DeletingContext { bitmap: bool, outcome: ScreenResult },
    /// The capture has come to `outcome`, and only the bitmap is left.
    DeletingBitmap { outcome: ScreenResult },
}

impl Request {
    /// The handle that this call hands out when it succeeds.
    pub open spec fn acquires(self) -> Option<Handle> {
        match self {
            Request::GetScreen => Some(Handle::Screen),
            Request::CreateContext => Some(Handle::Context),
            Request::CreateBitmap { .. } => Some(Handle::Bitmap),
            _ => None,
        }
    }

    /// The handle that this call gives back to the system.
    pub open spec fn releases(self) -> Option<Handle> {
        match self {
            Request::ReleaseScreen => Some(Handle::Screen),
            Request::DeleteContext => Some(Handle::Context),
            Request::DeleteBitmap => Some(Handle::Bitmap),
            _ => None,
        }
    }
}

/// The handles among context and bitmap that the flags name.
pub open spec fn off_screen(context: bool, bitmap: bool) -> Set<Handle> {
    Set::new(|h: Handle| (context && h == Handle::Context) || (bitmap && h == Handle::Bitmap))
}

/// The session that gives the screen's context back, with `outcome` in hand.
pub open spec fn released_from(context: bool, bitmap: bool, outcome: ScreenResult) -> Step<
    Session,
> {
    Step::Next(Session::ReleasingScreen { context, bitmap, outcome })
}

/// The session that gives back what is left after the screen's context, or the end of the
/// capture where nothing is.
pub open spec fn unwound(context: bool, bitmap: bool, outcome: ScreenResult) -> Step<Session> {
    if context {
        Step::Next(Session::DeletingContext { bitmap, outcome })
    } else if bitmap {
        Step::Next(Session::DeletingBitmap { outcome })
    } else {
        Step::Done(outcome)
    }
}

impl Session {
    /// The call that the session waits for.
    pub open spec fn pending(self) -> Request {
        match self {
            Session::GettingScreen => Request::GetScreen,
            Session::CreatingContext { .. } => Request::CreateContext,
            Session::CreatingBitmap { desktop } => Request::CreateBitmap {
                width: desktop.width,
                height: desktop.height,
            },
            Session::Selecting { .. } => Request::SelectBitmap,
            Session::Blitting { desktop } => Request::Blit {
                width: desktop.width,
                height: desktop.height,
                left: desktop.left,
                top: desktop.top,
            },
            Session::Transferring { format, len, .. } => Request::GetBits { format, len },
            Session::ReleasingScreen { .. } => Request::ReleaseScreen,
            Session::DeletingContext { .. } => Request::DeleteContext,
            Session::DeletingBitmap { .. } => Request::DeleteBitmap,
        }
    }

    /// A capture, before its first call. It is of the whole virtual desktop whatever
    /// `screen` is.
    pub fn start(screen: usize) -> (s: Session)
        ensures
            s == Session::GettingScreen,
            s.holds() == Set::<Handle>::empty(),
            s.sound(),
    {
        Session::GettingScreen
    }

    /// The call to make next.
    pub fn request(&self) -> (req: Request)
        ensures
            req == self.pending(),
            req.releases() matches Some(h) ==> self.holds().contains(h),
            req.acquires() matches Some(h) ==> !self.holds().contains(h),
    {
        match self {
            Session::GettingScreen => Request::GetScreen,
            Session::CreatingContext { .. } => Request::CreateContext,
            Session::CreatingBitmap { desktop } => Request::CreateBitmap {
                width: desktop.width,
                height: desktop.height,
            },
            Session::Selecting { .. } => Request::SelectBitmap,
            Session::Blitting { desktop } => Request::Blit {
                width: desktop.width,
                height: desktop.height,
                left: desktop.left,
                top: desktop.top,
            },
            Session::Transferring { format, len, .. } => Request::GetBits {
                format: *format,
                len: *len,
            },
            Session::ReleasingScreen { .. } => Request::ReleaseScreen,
            Session::DeletingContext { .. } => Request::DeleteContext,
            Session::DeletingBitmap { .. } => Request::DeleteBitmap,
        }
    }

    /// Takes the reply to the pending call and says how the capture goes on. The session
    /// that follows holds exactly what was held before, with what the reply handed out and
    /// without what the call gave back; the capture ends only with nothing held.
    pub fn step(self, reply: Reply) -> (next: Step<Session>)
        ensures
            self.steps_to(reply, next),
            next matches Step::Next(s) ==> s.holds() == held_after(
                self.holds(),
                self.receives(reply),
                self.gives_back(),
            ),
            next is Done ==> held_after(self.holds(), self.receives(reply), self.gives_back())
                == Set::<Handle>::empty(),
    {
        let next = match self {
            Session::GettingScreen => match reply {
                Reply::Screen(desktop) => Step::Next(Session::CreatingContext { desktop }),
                _ => Step::Done(Err(NO_SCREEN)),
            },
            Session::CreatingContext { desktop } => match reply {
                Reply::Done => Step::Next(Session::CreatingBitmap { desktop }),
                _ => give_back(false, false, Err(NO_CONTEXT)),
            },
            Session::CreatingBitmap { desktop } => match reply {
                Reply::Done => Step::Next(Session::Selecting { desktop }),
                _ => give_back(true, false, Err(NO_BITMAP)),
            },
            Session::Selecting { desktop } => match reply {
                Reply::Done => Step::Next(Session::Blitting { desktop }),
                _ => give_back(true, true, Err(NO_SELECT)),
            },
            Session::Blitting { desktop } => match reply {
                Reply::Done => match transfer_of(&desktop) {
                    Some(session) => Step::Next(session),
                    None => give_back(true, true, Err(BAD_SIZE)),
                },
                _ => give_back(true, true, Err(NO_BLIT)),
            },
            Session::Transferring { width, height, .. } => {
                let outcome = match reply {
                    Reply::Bits(bits) => assemble(width, height, bits),
                    _ => Err(NO_BITS),
                };
                give_back(true, true, outcome)
            },
            Session::ReleasingScreen { context, bitmap, outcome } => {
                if context {
                    Step::Next(Session::DeletingContext { bitmap, outcome })
                } else if bitmap {
                    Step::Next(Session::DeletingBitmap { outcome })
                } else {
                    Step::Done(outcome)
                }
            },
            Session::DeletingContext { bitmap, outcome } => {
                if bitmap {
                    Step::Next(Session::DeletingBitmap { outcome })
                } else {
                    Step::Done(outcome)
                }
            },
            Session::DeletingBitmap { outcome } => Step::Done(outcome),
        };
        proof {
            self.lemma_step(reply, next);
        }
        next
    }
}

/// The session that gives the screen's context back first.
fn give_back(context: bool, bitmap: bool, outcome: ScreenResult) -> (next: Step<Session>)
    ensures
        next == released_from(context, bitmap, outcome),
{
    Step::Next(Session::ReleasingScreen { context, bitmap, outcome })
}

/// The session that transfers the bits of a bitmap of the desktop, where the desktop fits.
fn transfer_of(desktop: &Desktop) -> (s: Option<Session>)
    ensures
        !desktop.fits() ==> s is None,
        desktop.fits() ==> s == Some(
            Session::Transferring {
                width: desktop.width as usize,
                height: desktop.height as usize,
                format: desktop.format(),
                len: (desktop.width * desktop.height * 4) as usize,
            },
        ),
{
    if desktop.width < 0 || desktop.height < 0 {
        return None;
    }
    let width: u64 = desktop.width as u64;
    let height: u64 = desktop.height as u64;
    assert(width * height * 4 <= 0xffff_ffff_ffff_ffff) by (nonlinear_arith)
        requires
            width <= 0x7fff_ffff,
            height <= 0x7fff_ffff,
    ;
    assert(0 <= width * height) by (nonlinear_arith);
    let total: u64 = width * height * 4;
    if total > 0xffff_ffff {
        return None;
    }
    Some(
        Session::Transferring {
            width: width as usize,
            height: height as usize,
            format: BitmapFormat {
                width: desktop.width,
                height: desktop.height,
                planes: 1,
                bit_count: 32,
                compression: UNCOMPRESSED,
                size_image: total as u32,
            },
            len: total as usize,
        },
    )
}

impl Protocol for Session {
    type Reply = Reply;

    type Handle = Handle;

    open spec fn holds(self) -> Set<Handle> {
        match self {
            Session::GettingScreen => Set::empty(),
            Session::CreatingContext { .. } => off_screen(false, false).insert(Handle::Screen),
            Session::CreatingBitmap { .. } => off_screen(true, false).insert(Handle::Screen),
            Session::Selecting { .. } | Session::Blitting { .. } | Session::Transferring { .. } =>
                off_screen(true, true).insert(Handle::Screen),
            Session::ReleasingScreen { context, bitmap, .. } => off_screen(context, bitmap).insert(
                Handle::Screen,
            ),
            Session::DeletingContext { bitmap, .. } => off_screen(true, bitmap),
            Session::DeletingBitmap { .. } => off_screen(false, true),
        }
    }

    open spec fn gives_back(self) -> Option<Handle> {
        self.pending().releases()
    }

    open spec fn receives(self, reply: Reply) -> Option<Handle> {
        match (self, reply) {
            (Session::GettingScreen, Reply::Screen(_)) => self.pending().acquires(),
            (Session::CreatingContext { .. }, Reply::Done) => self.pending().acquires(),
            (Session::CreatingBitmap { .. }, Reply::Done) => self.pending().acquires(),
            _ => None,
        }
    }

    /// Each call that the system refuses ends the capture with the sentence for that call,
    /// once what was acquired before it has been given back: the screen's context first,
    /// then the compatible context, then the bitmap. The size of the buffer is worked out
    /// only when the screen has been copied; a desktop that does not fit is refused then.
    open spec fn steps_to(self, reply: Reply, next: Step<Session>) -> bool {
        match self {
            Session::GettingScreen => next == (match reply {
                Reply::Screen(desktop) => Step::Next(Session::CreatingContext { desktop }),
                _ => Step::Done(Err(NO_SCREEN)),
            }),
            Session::CreatingContext { desktop } => next == (match reply {
                Reply::Done => Step::Next(Session::CreatingBitmap { desktop }),
                _ => released_from(false, false, Err(NO_CONTEXT)),
            }),
            Session::CreatingBitmap { desktop } => next == (match reply {
                Reply::Done => Step::Next(Session::Selecting { desktop }),
                _ => released_from(true, false, Err(NO_BITMAP)),
            }),
            Session::Selecting { desktop } => next == (match reply {
                Reply::Done => Step::Next(Session::Blitting { desktop }),
                _ => released_from(true, true, Err(NO_SELECT)),
            }),
            Session::Blitting { desktop } => next == (match reply {
                Reply::Done => if desktop.fits() {
                    Step::Next(
                        Session::Transferring {
                            width: desktop.width as usize,
                            height: desktop.height as usize,
                            format: desktop.format(),
                            len: (desktop.width * desktop.height * 4) as usize,
                        },
                    )
                } else {
                    released_from(true, true, Err(BAD_SIZE))
                },
                _ => released_from(true, true, Err(NO_BLIT)),
            }),
            Session::Transferring { width, height, .. } => {
                &&& next matches Step::Next(
                    Session::ReleasingScreen { context: true, bitmap: true, outcome },
                )
                &&& outcome_view(outcome) == (match reply {
                    Reply::Bits(bits) => assembled(width, height, bits@),
                    _ => Err(NO_BITS),
                })
            },
            Session::ReleasingScreen { context, bitmap, outcome } => next == unwound(
                context,
                bitmap,
                outcome,
            ),
            Session::DeletingContext { bitmap, outcome } => next == unwound(false, bitmap, outcome),
            Session::DeletingBitmap { outcome } => next == Step::<Session>::Done(outcome),
        }
    }

    open spec fn sound(self) -> bool {
        match self {
            Session::ReleasingScreen { outcome, .. }
            | Session::DeletingContext { outcome, .. }
            | Session::DeletingBitmap { outcome } => outcome matches Ok(img) ==> img@.valid(),
            _ => true,
        }
    }

    proof fn lemma_step(self, reply: Reply, next: Step<Session>) {
        let after = held_after(self.holds(), self.receives(reply), self.gives_back());
        if next is Next {
            assert(next->Next_0.holds() =~= after);
        } else {
            assert(after =~= Set::<Handle>::empty());
        }
    }
}

/// A session that gives handles back with a failure in hand ends in that failure.
proof fn lemma_failure_stays(
    sessions: Seq<Session>,
    replies: Seq<Reply>,
    end: ScreenResult,
    at: int,
)
    requires
        is_run(sessions, replies, end),
        0 <= at < sessions.len(),
    ensures
        sessions[at] matches Session::ReleasingScreen { outcome, .. } ==> outcome is Err ==> end
            is Err,
{
    lemma_run_step(sessions, replies, end, at);
    if at + 1 < sessions.len() {
        lemma_run_step(sessions, replies, end, at + 1);
    }
    if at + 2 < sessions.len() {
        lemma_run_step(sessions, replies, end, at + 2);
    }
}

/// The image of a capture that succeeds is as wide and as high as the desktop was
/// measured, at four bytes to the pixel, which are the 32 bits that the format asked for,
/// and its scanlines fill the buffer without padding. The buffer holds the bits that were
/// transferred, with the rows in reverse order.
pub proof fn lemma_image_as_measured(
    sessions: Seq<Session>,
    replies: Seq<Reply>,
    end: ScreenResult,
    at: int,
    desktop: Desktop,
)
    requires
        is_run(sessions, replies, end),
        0 <= at < sessions.len(),
        sessions[at] is GettingScreen,
        replies[at] == Reply::Screen(desktop),
        end is Ok,
    ensures
        desktop.fits(),
        end matches Ok(img) && img@.pixel_width * 8 == desktop.format().bit_count,
        end matches Ok(img) && replies[at + 5] matches Reply::Bits(bits) && img@.data == flipped(
            bits@,
            desktop.height as nat,
            (desktop.width * 4) as nat,
        ),
        end matches Ok(img) && img@.rows_fill_buffer() && img@.rows_hold_pixels()
            && img@.layout() == (
            desktop.width as nat,
            desktop.height as nat,
            (desktop.width * 4) as nat,
            4nat,
        ),
{
    lemma_run_step(sessions, replies, end, at);
    lemma_failure_stays(sessions, replies, end, at + 1);
    lemma_run_step(sessions, replies, end, at + 1);
    lemma_failure_stays(sessions, replies, end, at + 2);
    lemma_run_step(sessions, replies, end, at + 2);
    lemma_failure_stays(sessions, replies, end, at + 3);
    lemma_run_step(sessions, replies, end, at + 3);
    lemma_failure_stays(sessions, replies, end, at + 4);
    lemma_run_step(sessions, replies, end, at + 4);
    lemma_failure_stays(sessions, replies, end, at + 5);
    lemma_run_step(sessions, replies, end, at + 5);
    lemma_run_step(sessions, replies, end, at + 6);
    lemma_run_step(sessions, replies, end, at + 7);
    lemma_run_step(sessions, replies, end, at + 8);
    let img = end->Ok_0@;
    assert(img.width * img.height * 4 == img.row_len * img.height) by (nonlinear_arith)
        requires
            img.row_len == img.width * 4,
    ;
}

/// Two captures that both succeed, of a desktop that measures the same both times, agree
/// in width, height, scanline length and pixel width, whatever the pixels are.
pub proof fn lemma_same_desktop_same_layout(
    first: (Seq<Session>, Seq<Reply>, ScreenResult, int),
    second: (Seq<Session>, Seq<Reply>, ScreenResult, int),
    desktop: Desktop,
)
    requires
        is_run(first.0, first.1, first.2),
        is_run(second.0, second.1, second.2),
        0 <= first.3 < first.0.len(),
        0 <= second.3 < second.0.len(),
        first.0[first.3] is GettingScreen,
        second.0[second.3] is GettingScreen,
        first.1[first.3] == Reply::Screen(desktop),
        second.1[second.3] == Reply::Screen(desktop),
        first.2 is Ok,
        second.2 is Ok,
    ensures
        first.2->Ok_0@.layout() == second.2->Ok_0@.layout(),
{
    lemma_image_as_measured(first.0, first.1, first.2, first.3, desktop);
    lemma_image_as_measured(second.0, second.1, second.2, second.3, desktop);
}

} // verus!
