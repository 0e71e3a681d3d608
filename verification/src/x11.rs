//! Capture from an X display server. The server's image has its origin at the top left, so
//! rows stay where they are; it often leaves the alpha plane as zeroed memory that means
//! nothing, and such a plane is made opaque.

use vstd::prelude::*;
use crate::capture::{
    held_after, is_run, lemma_run_step, outcome_view, Header, Protocol, Step, BAD_SIZE,
    NOT_INTEGRAL, NO_SUCH_SCREEN,
};
use crate::image::{Layout, ScreenResult, Screenshot, ScreenshotView};

verus! {

/// The server refused a connection.
pub const NO_DISPLAY: &'static str = "Can't open the X display.";

/// The server handed out no image of the screen.
pub const NO_IMAGE: &'static str = "Can't get an image of the X screen.";

/// No alpha byte (every fourth byte, from the fourth on) is set.
pub open spec fn alpha_unset(data: Seq<u8>) -> bool {
    forall|i: int| 0 <= i < data.len() && i % 4 == 3 ==> data[i] == 0
}

/// `data` with every alpha byte at 255 and every other byte as it is.
pub open spec fn made_opaque(data: Seq<u8>) -> Seq<u8> {
    Seq::new(
        data.len(),
        |i: int|
            if i % 4 == 3 {
                255u8
            } else {
                data[i]
            },
    )
}

/// `data` after alpha repair: made opaque where no alpha byte is set, untouched where one
/// is.
pub open spec fn repaired(data: Seq<u8>) -> Seq<u8> {
    if alpha_unset(data) {
        made_opaque(data)
    } else {
        data
    }
}

/// Whether any alpha byte is set.
pub fn has_alpha(data: &Vec<u8>) -> (found: bool)
    ensures
        found == !alpha_unset(data@),
{
    let len: usize = data.len();
    let mut i: usize = 0;
    while i < len
        invariant
            i <= len,
            len == data@.len(),
            forall|j: int| 0 <= j < i && j % 4 == 3 ==> data@[j] == 0,
        decreases len - i,
    {
        if i % 4 == 3 && data[i] != 0 {
            return true;
        }
        i += 1;
    }
    false
}

/// Alpha repair. A buffer in which no alpha byte is set comes from a server that did not
/// fill the plane in: every alpha byte becomes 255 and no other byte changes. A buffer with
/// an alpha byte set is left as it is. A capture that is fully transparent by chance cannot
/// be told from one whose plane was never filled in, and is made opaque too.
pub fn repair_alpha(data: &mut Vec<u8>)
    ensures
        final(data)@ == repaired(old(data)@),
{
    if has_alpha(data) {
        return ;
    }
    let len: usize = data.len();
    let mut i: usize = 0;
    while i < len
        invariant
            i <= len,
            len == data@.len(),
            len == old(data)@.len(),
            forall|j: int| 0 <= j < i ==> data@[j] == made_opaque(old(data)@)[j],
            forall|j: int| i <= j < len ==> data@[j] == old(data)@[j],
        decreases len - i,
    {
        if i % 4 == 3 {
            data[i] = 255;
        }
        i += 1;
    }
    assert(data@ =~= made_opaque(old(data)@));
}

/// Repairing twice is repairing once.
pub proof fn lemma_repair_idempotent(data: Seq<u8>)
    ensures
        repaired(repaired(data)) == repaired(data),
{
    let once = repaired(data);
    if alpha_unset(data) {
        if data.len() >= 4 {
            assert(once[3] == 255);
            assert(!alpha_unset(once));
        } else {
            assert(made_opaque(once) =~= once);
        }
    }
}

/// Repair changes no length and no colour byte, and sets alpha bytes to 255 only where
/// all of them were 0.
pub proof fn lemma_repair_keeps_colours(data: Seq<u8>)
    ensures
        repaired(data).len() == data.len(),
        forall|i: int| 0 <= i < data.len() && i % 4 != 3 ==> repaired(data)[i] == data[i],
        forall|i: int|
            0 <= i < data.len() && i % 4 == 3 ==> repaired(data)[i] == (if alpha_unset(data) {
                255u8
            } else {
                data[i]
            }),
{
}

/// The image that a capture makes of `bytes` read under `layout`.
pub open spec fn assembled(layout: Layout, bytes: Seq<u8>) -> Result<ScreenshotView, &'static str> {
    if layout.rows_hold_pixels() && bytes.len() == layout.rows_len() {
        Ok(layout.holding(repaired(bytes)))
    } else {
        Err(BAD_SIZE)
    }
}

/// Makes the image of the bytes copied from the server's image: refuses scanlines too
/// short for their pixels and a buffer that is not `height` scanlines long, and repairs
/// the alpha plane of what it accepts. In the image that results the scanlines fill the
/// buffer.
pub fn assemble(layout: Layout, bytes: Vec<u8>) -> (r: ScreenResult)
    ensures
        outcome_view(r) == assembled(layout, bytes@),
        r matches Ok(img) ==> img@.rows_hold_pixels() && img@.rows_fill_buffer(),
{
    let mut data = bytes;
    let have: usize = data.len();
    if !layout.rows_hold_pixels() {
        return Err(BAD_SIZE);
    }
    match layout.checked_rows_len() {
        Some(len) => {
            if len == have {
                repair_alpha(&mut data);
                Ok(Screenshot::new(layout, data))
            } else {
                Err(BAD_SIZE)
            }
        },
        None => Err(BAD_SIZE),
    }
}

/// The server's image can be copied whole: its scanlines are long enough for their pixels,
/// and a buffer can hold them all.
pub open spec fn can_copy(layout: Layout) -> bool {
    layout.rows_hold_pixels() && layout.rows_len() <= usize::MAX
}

/// The number of bytes in the server's image, where it can be copied.
fn copy_len(layout: &Layout) -> (n: Option<usize>)
    ensures
        can_copy(*layout) ==> n == Some(layout.rows_len() as usize),
        !can_copy(*layout) ==> n is None,
{
    if layout.rows_hold_pixels() {
        layout.checked_rows_len()
    } else {
        None
    }
}

/// What a session holds of the server's while it runs.
pub enum Handle {
    /// The connection to the server.
    Display,
    /// The server's image of the screen.
    Image,
}

/// The native call that a session asks for next.
#[derive(Clone, Copy, Debug, PartialEq, Eq)]
pub enum Request {
    /// Open a connection to the default display, and count its screens. Answered by
    /// `Reply::Opened`.
    OpenDisplay,
    /// Take an image of the whole root window of `screen`, all planes, in Z format.
    /// Answered by `Reply::Image`.
    GetImage { screen: u32 },
    /// Copy the image's data, which is `len` bytes long. Answered by `Reply::Pixels`.
    CopyPixels { len: usize },
    /// Destroy the image.
    DestroyImage,
    /// Close the connection.
    CloseDisplay,
}

/// What a native call gave back.
pub enum Reply {
    /// The call failed, or gave nothing.
    Failed,
    /// The call was made and has nothing to report.
    Done,
    /// A connection stands, to a display of `screens` screens.
    Opened { screens: u32 },
    /// An image was taken, with this header.
    Image(Header),
    /// The bytes copied.
    Pixels(Vec<u8>),
}

/// A capture under way, named by the call it waits for.
pub enum Session {
    /// Nothing is held yet; `screen` is the one to capture.
    Opening { screen: u32 },
    /// The connection stands, and `screen` is one of its screens.
    Fetching { screen: u32 },
    /// The image is held; its data is `len` bytes long and is read under `layout`.
    Copying { layout: Layout, len: usize },
    /// The capture has come to `outcome`, and the image goes first.
    DestroyingImage { outcome: ScreenResult },
    /// The capture has come to `outcome`, and only the connection is left.
    ClosingDisplay { outcome: ScreenResult },
}

impl Request {
    /// The handle that this call hands out when it succeeds.
    pub open spec fn acquires(self) -> Option<Handle> {
        match self {
            Request::OpenDisplay => Some(Handle::Display),
            Request::GetImage { .. } => Some(Handle::Image),
            _ => None,
        }
    }

    /// The handle that this call gives back to the server.
    pub open spec fn releases(self) -> Option<Handle> {
        match self {
            Request::DestroyImage => Some(Handle::Image),
            Request::CloseDisplay => Some(Handle::Display),
            _ => None,
        }
    }
}

impl Reply {
    /// The bytes that a reply brings: those of `Pixels`, none otherwise.
    pub open spec fn bytes(self) -> Seq<u8> {
        match self {
            Reply::Pixels(bytes) => bytes@,
            _ => Seq::empty(),
        }
    }
}

impl Session {
    /// The call that the session waits for.
    pub open spec fn pending(self) -> Request {
        match self {
            Session::Opening { .. } => Request::OpenDisplay,
            Session::Fetching { screen } => Request::GetImage { screen },
            Session::Copying { len, .. } => Request::CopyPixels { len },
            Session::DestroyingImage { .. } => Request::DestroyImage,
            Session::ClosingDisplay { .. } => Request::CloseDisplay,
        }
    }

    /// A capture of `screen`, before its first call.
    pub fn start(screen: u32) -> (s: Session)
        ensures
            s == (Session::Opening { screen }),
            s.holds() == Set::<Handle>::empty(),
            s.sound(),
    {
        Session::Opening { screen }
    }

    /// The call to make next.
    pub fn request(&self) -> (req: Request)
        ensures
            req == self.pending(),
            req.releases() matches Some(h) ==> self.holds().contains(h),
            req.acquires() matches Some(h) ==> !self.holds().contains(h),
    {
        match self {
            Session::Opening { .. } => Request::OpenDisplay,
            Session::Fetching { screen } => Request::GetImage { screen: *screen },
            Session::Copying { len, .. } => Request::CopyPixels { len: *len },
            Session::DestroyingImage { .. } => Request::DestroyImage,
            Session::ClosingDisplay { .. } => Request::CloseDisplay,
        }
    }

    /// Takes the reply to the pending call and says how the capture goes on. The session
    /// that follows holds exactly what was held before, with what the reply handed out and
    /// without what the call gave back; the capture ends only with nothing held.
    pub fn step(self, reply: Reply) -> (next: Step<Session>)
        ensures
            self.steps_to(reply, next),
            next matches Step::Next(s) ==> s.holds() == held_after(
                self.holds(),
                self.receives(reply),
                self.gives_back(),
            ),
            next is Done ==> held_after(self.holds(), self.receives(reply), self.gives_back())
                == Set::<Handle>::empty(),
    {
        let next = match self {
            Session::Opening { screen } => match reply {
                Reply::Opened { screens } => {
                    if screen < screens {
                        Step::Next(Session::Fetching { screen })
                    } else {
                        Step::Next(Session::ClosingDisplay { outcome: Err(NO_SUCH_SCREEN) })
                    }
                },
                _ => Step::Done(Err(NO_DISPLAY)),
            },
            Session::Fetching { .. } => match reply {
                Reply::Image(header) => {
                    match header.layout() {
                        Err(e) => Step::Next(Session::DestroyingImage { outcome: Err(e) }),
                        Ok(layout) => match copy_len(&layout) {
                            None => Step::Next(Session::DestroyingImage { outcome: Err(BAD_SIZE) }),
                            Some(len) => Step::Next(Session::Copying { layout, len }),
                        },
                    }
                },
                _ => Step::Next(Session::ClosingDisplay { outcome: Err(NO_IMAGE) }),
            },
            Session::Copying { layout, .. } => {
                let bytes = match reply {
                    Reply::Pixels(bytes) => bytes,
                    _ => Vec::new(),
                };
                Step::Next(Session::DestroyingImage { outcome: assemble(layout, bytes) })
            },
            Session::DestroyingImage { outcome } => Step::Next(Session::ClosingDisplay { outcome }),
            Session::ClosingDisplay { outcome } => Step::Done(outcome),
        };
        proof {
            self.lemma_step(reply, next);
        }
        next
    }
}

impl Protocol for Session {
    type Reply = Reply;

    type Handle = Handle;

    open spec fn holds(self) -> Set<Handle> {
        match self {
            Session::Opening { .. } => set![],
            Session::Fetching { .. } => set![Handle::Display],
            Session::Copying { .. } => set![Handle::Display, Handle::Image],
            Session::DestroyingImage { .. } => set![Handle::Display, Handle::Image],
            Session::ClosingDisplay { .. } => set![Handle::Display],
        }
    }

    open spec fn gives_back(self) -> Option<Handle> {
        self.pending().releases()
    }

    open spec fn receives(self, reply: Reply) -> Option<Handle> {
        match (self, reply) {
            (Session::Opening { .. }, Reply::Opened { .. }) => self.pending().acquires(),
            (Session::Fetching { .. }, Reply::Image(_)) => self.pending().acquires(),
            _ => None,
        }
    }

    /// A connection that is refused ends the capture at once. A screen that the display
    /// does not have is refused before any image is asked for. An image whose pixels are
    /// not whole bytes, or whose scanlines are too short for them, is destroyed uncopied.
    /// Whatever was acquired is given back, image first, before the capture ends.
    open spec fn steps_to(self, reply: Reply, next: Step<Session>) -> bool {
        match self {
            Session::Opening { screen } => next == (match reply {
                Reply::Opened { screens } => if screen < screens {
                    Step::Next(Session::Fetching { screen })
                } else {
                    Step::Next(Session::ClosingDisplay { outcome: Err(NO_SUCH_SCREEN) })
                },
                _ => Step::Done(Err(NO_DISPLAY)),
            }),
            Session::Fetching { .. } => next == (match reply {
                Reply::Image(header) => if header.bits_per_pixel % 8 != 0 {
                    Step::Next(Session::DestroyingImage { outcome: Err(NOT_INTEGRAL) })
                } else if !can_copy(header.spec_layout()) {
                    Step::Next(Session::DestroyingImage { outcome: Err(BAD_SIZE) })
                } else {
                    Step::Next(
                        Session::Copying {
                            layout: header.spec_layout(),
                            len: header.spec_layout().rows_len() as usize,
                        },
                    )
                },
                _ => Step::Next(Session::ClosingDisplay { outcome: Err(NO_IMAGE) }),
            }),
            Session::Copying { layout, .. } => {
                &&& next matches Step::Next(Session::DestroyingImage { outcome })
                &&& outcome_view(outcome) == assembled(layout, reply.bytes())
            },
            Session::DestroyingImage { outcome } => next == Step::<Session>::Next(
                Session::ClosingDisplay { outcome },
            ),
            Session::ClosingDisplay { outcome } => next == Step::<Session>::Done(outcome),
        }
    }

    open spec fn sound(self) -> bool {
        match self {
            Session::DestroyingImage { outcome } | Session::ClosingDisplay { outcome } => {
                outcome matches Ok(img) ==> img@.valid()
            },
            _ => true,
        }
    }

    proof fn lemma_step(self, reply: Reply, next: Step<Session>) {
        let after = held_after(self.holds(), self.receives(reply), self.gives_back());
        if next is Next {
            assert(next->Next_0.holds() =~= after);
        } else {
            assert(after =~= Set::<Handle>::empty());
        }
    }
}

/// A capture of a screen that the display does not have asks for no image, of that
/// screen or of another, and ends by saying so once the connection is closed.
pub proof fn lemma_no_such_screen(
    sessions: Seq<Session>,
    replies: Seq<Reply>,
    end: ScreenResult,
    screen: u32,
    screens: u32,
)
    requires
        is_run(sessions, replies, end),
        sessions[0] == (Session::Opening { screen }),
        replies[0] == (Reply::Opened { screens }),
        screens <= screen,
    ensures
        end == Err::<Screenshot, &'static str>(NO_SUCH_SCREEN),
        sessions.len() == 2,
        sessions[1].pending() == Request::CloseDisplay,
{
    lemma_run_step(sessions, replies, end, 0);
    lemma_run_step(sessions, replies, end, 1);
}

/// The image of a capture that succeeds has the width, the height and the scanline length
/// that the server reported, and its pixel width times eight is the reported depth, which
/// is a multiple of eight. Its buffer is `height` scanlines of `row_len` bytes, each long
/// enough for `width` pixels, and holds the bytes of the reply that followed the header,
/// after alpha repair.
pub proof fn lemma_image_as_reported(
    sessions: Seq<Session>,
    replies: Seq<Reply>,
    end: ScreenResult,
    at: int,
    header: Header,
)
    requires
        is_run(sessions, replies, end),
        0 <= at < sessions.len(),
        sessions[at] is Fetching,
        replies[at] == Reply::Image(header),
        end is Ok,
    ensures
        header.bits_per_pixel % 8 == 0,
        end matches Ok(img) && img@.pixel_width * 8 == header.bits_per_pixel && img@.layout() == (
            header.width as nat,
            header.height as nat,
            header.row_len as nat,
            (header.bits_per_pixel / 8) as nat,
        ),
        end matches Ok(img) && img@.rows_fill_buffer() && img@.rows_hold_pixels(),
        end matches Ok(img) && img@.data == repaired(replies[at + 1].bytes()),
{
    lemma_run_step(sessions, replies, end, at);
    lemma_run_step(sessions, replies, end, at + 1);
    if sessions[at + 1] is Copying {
        lemma_run_step(sessions, replies, end, at + 2);
        lemma_run_step(sessions, replies, end, at + 3);
    } else {
        lemma_run_step(sessions, replies, end, at + 2);
    }
}

/// Two captures that both succeed, of a display that reports the same header both times,
/// agree in width, height, scanline length and pixel width, whatever the pixels are.
pub proof fn lemma_same_header_same_layout(
    first: (Seq<Session>, Seq<Reply>, ScreenResult, int),
    second: (Seq<Session>, Seq<Reply>, ScreenResult, int),
    header: Header,
)
    requires
        is_run(first.0, first.1, first.2),
        is_run(second.0, second.1, second.2),
        0 <= first.3 < first.0.len(),
        0 <= second.3 < second.0.len(),
        first.0[first.3] is Fetching,
        second.0[second.3] is Fetching,
        first.1[first.3] == Reply::Image(header),
        second.1[second.3] == Reply::Image(header),
        first.2 is Ok,
        second.2 is Ok,
    ensures
        first.2->Ok_0@.layout() == second.2->Ok_0@.layout(),
{
    lemma_image_as_reported(first.0, first.1, first.2, first.3, header);
    lemma_image_as_reported(second.0, second.1, second.2, second.3, header);
}

} // verus!
