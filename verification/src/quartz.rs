//! Capture from the macOS compositor. Its image has its origin at the top left and a
//! faithful alpha channel, so the bytes are taken as they come, once their number has been
//! held against the reported size.

use vstd::prelude::*;
use crate::capture::{
    held_after, is_run, lemma_run_step, outcome_view, Header, Protocol, Step, BAD_SIZE,
    NOT_INTEGRAL, NO_SUCH_SCREEN,
};
use crate::image::{Layout, ScreenResult, Screenshot, ScreenshotView};

verus! {

/// The system did not say how many displays are active.
pub const NO_COUNT: &'static str = "Error getting number of displays.";

/// The system did not list the active displays.
pub const NO_LIST: &'static str = "Error getting list of displays.";

/// The system made no image of the display.
pub const NO_IMAGE: &'static str = "Can't create an image of the display.";

/// The image's data could not be copied out of its provider.
pub const NO_DATA: &'static str = "Can't copy the data of the display image.";

/// The image that a capture makes of `bytes` read under `layout`.
pub open spec fn assembled(layout: Layout, bytes: Seq<u8>) -> Result<ScreenshotView, &'static str> {
    if layout.rows_hold_pixels() && bytes.len() == layout.pixels_len() {
        Ok(layout.holding(bytes))
    } else {
        Err(BAD_SIZE)
    }
}

/// Makes the image of the bytes copied from the image's data: refuses scanlines too short
/// for their pixels and a buffer that is not `width * height * pixel_width` bytes long,
/// and takes what it accepts byte for byte.
pub fn assemble(layout: Layout, bytes: Vec<u8>) -> (r: ScreenResult)
    ensures
        outcome_view(r) == assembled(layout, bytes@),
        r matches Ok(img) ==> img@.rows_hold_pixels() && img@.pixels_fill_buffer(),
{
    let have: usize = bytes.len();
    if !layout.rows_hold_pixels() {
        return Err(BAD_SIZE);
    }
    match layout.checked_pixels_len() {
        Some(len) => {
            if len == have {
                Ok(Screenshot::new(layout, bytes))
            } else {
                Err(BAD_SIZE)
            }
        },
        None => Err(BAD_SIZE),
    }
}

/// A data length agrees with a header of whole-byte pixels when width x height x depth in
/// bits is eight times the length.
pub proof fn lemma_length_agrees(header: Header, len: usize)
    requires
        header.bits_per_pixel % 8 == 0,
    ensures
        header.spec_layout().pixels_len() == len <==> header.width * header.height
            * header.bits_per_pixel == len * 8,
{
    let depth = header.bits_per_pixel / 8;
    let area = header.width * header.height;
    assert(area * header.bits_per_pixel == (area * depth) * 8) by (nonlinear_arith)
        requires
            header.bits_per_pixel == depth * 8,
    ;
}

/// What a session holds of the system's while it runs.
pub enum Handle {
    /// The image of the display.
    Image,
    /// The copy of the image's data.
    Data,
}

/// The native call that a session asks for next.
#[derive(Clone, Copy, Debug, PartialEq, Eq)]
pub enum Request {
    /// Ask how many displays are active. Answered by `Reply::Count`.
    CountDisplays,
    /// List up to `capacity` active displays. Answered by `Reply::Displays`.
    ListDisplays { capacity: u32 },
    /// Make an image of what this display shows, and read its width, height, bytes per row
    /// and bits per pixel. Answered by `Reply::Image`.
    CreateImage { display: u32 },
    /// Copy the data out of the image's provider, and read its length. Answered by
    /// `Reply::Data`.
    CopyData,
    /// Copy `len` bytes of the data into a buffer. Answered by `Reply::Bytes`.
    ReadBytes { len: usize },
    /// Release the image.
    ReleaseImage,
    /// Release the copy of the data.
    ReleaseData,
}

/// What a native call gave back.
pub enum Reply {
    /// The call failed, or gave nothing.
    Failed,
    /// The call was made and has nothing to report.
    Done,
    /// The number of active displays.
    Count(u32),
    /// The active displays, by their identifiers.
    Displays(Vec<u32>),
    /// An image was made, with this header.
    Image(Header),
    /// The data was copied, and is this long.
    Data { len: usize },
    /// The bytes read.
    Bytes(Vec<u8>),
}

/// A capture under way, named by the call it waits for.
pub enum Session {
    /// Nothing is held yet; `screen` is the place in the list of the display to capture.
    Counting { screen: usize },
    /// The system has `capacity` active displays.
    Listing { screen: usize, capacity: u32 },
    /// `display` is the one to capture.
    Creating { display: u32 },
    /// The image is held, and is read under `layout`.
    Copying { layout: Layout },
    /// The image and the copy of its data are held; the data is `len` bytes long.
    Reading { layout: Layout, len: usize },
    /// The capture has come to `outcome`, and the image goes first; `data` says whether
    /// the copy of its data is held too.
    ReleasingImage { data: bool, outcome: ScreenResult },
    /// The capture has come to `outcome`, and only the copy of the data is left.
    ReleasingData { outcome: ScreenResult },
}

impl Request {
    /// The handle that this call hands out when it succeeds.
    pub open spec fn acquires(self) -> Option<Handle> {
        match self {
            Request::CreateImage { .. } => Some(Handle::Image),
            Request::CopyData => Some(Handle::Data),
            _ => None,
        }
    }

    /// The handle that this call gives back to the system.
    pub open spec fn releases(self) -> Option<Handle> {
        match self {
            Request::ReleaseImage => Some(Handle::Image),
            Request::ReleaseData => Some(Handle::Data),
            _ => None,
        }
    }
}

impl Reply {
    /// The bytes that a reply brings: those of `Bytes`, none otherwise.
    pub open spec fn bytes(self) -> Seq<u8> {
        match self {
            Reply::Bytes(bytes) => bytes@,
            _ => Seq::empty(),
        }
    }
}

/// The data's copy, where the flag names it.
pub open spec fn copied(data: bool) -> Set<Handle> {
    Set::new(|h: Handle| data && h == Handle::Data)
}

impl Session {
    /// The call that the session waits for.
    pub open spec fn pending(self) -> Request {
        match self {
            Session::Counting { .. } => Request::CountDisplays,
            Session::Listing { capacity, .. } => Request::ListDisplays { capacity },
            Session::Creating { display } => Request::CreateImage { display },
            Session::Copying { .. } => Request::CopyData,
            Session::Reading { len, .. } => Request::ReadBytes { len },
            Session::ReleasingImage { .. } => Request::ReleaseImage,
            Session::ReleasingData { .. } => Request::ReleaseData,
        }
    }

    /// A capture of the display at `screen` in the system's list, before its first call.
    pub fn start(screen: usize) -> (s: Session)
        ensures
            s == (Session::Counting { screen }),
            s.holds() == Set::<Handle>::empty(),
            s.sound(),
    {
        Session::Counting { screen }
    }

    /// The call to make next.
    pub fn request(&self) -> (req: Request)
        ensures
            req == self.pending(),
            req.releases() matches Some(h) ==> self.holds().contains(h),
            req.acquires() matches Some(h) ==> !self.holds().contains(h),
    {
        match self {
            Session::Counting { .. } => Request::CountDisplays,
            Session::Listing { capacity, .. } => Request::ListDisplays { capacity: *capacity },
            Session::Creating { display } => Request::CreateImage { display: *display },
            Session::Copying { .. } => Request::CopyData,
            Session::Reading { len, .. } => Request::ReadBytes { len: *len },
            Session::ReleasingImage { .. } => Request::ReleaseImage,
            Session::ReleasingData { .. } => Request::ReleaseData,
        }
    }

    /// Takes the reply to the pending call and says how the capture goes on. The session
    /// that follows holds exactly what was held before, with what the reply handed out and
    /// without what the call gave back; the capture ends only with nothing held.
    pub fn step(self, reply: Reply) -> (next: Step<Session>)
        ensures
            self.steps_to(reply, next),
            next matches Step::Next(s) ==> s.holds() == held_after(
                self.holds(),
                self.receives(reply),
                self.gives_back(),
            ),
            next is Done ==> held_after(self.holds(), self.receives(reply), self.gives_back())
                == Set::<Handle>::empty(),
    {
        let next = match self {
            Session::Counting { screen } => match reply {
                Reply::Count(capacity) => Step::Next(Session::Listing { screen, capacity }),
                _ => Step::Done(Err(NO_COUNT)),
            },
            Session::Listing { screen, .. } => match reply {
                Reply::Displays(ids) => {
                    if screen < ids.len() {
                        Step::Next(Session::Creating { display: ids[screen] })
                    } else {
                        Step::Done(Err(NO_SUCH_SCREEN))
                    }
                },
                _ => Step::Done(Err(NO_LIST)),
            },
            Session::Creating { .. } => match reply {
                Reply::Image(header) => match header.layout() {
                    Err(e) => Step::Next(Session::ReleasingImage { data: false, outcome: Err(e) }),
                    Ok(layout) => {
                        if layout.rows_hold_pixels() {
                            Step::Next(Session::Copying { layout })
                        } else {
                            Step::Next(
                                Session::ReleasingImage { data: false, outcome: Err(BAD_SIZE) },
                            )
                        }
                    },
                },
                _ => Step::Done(Err(NO_IMAGE)),
            },
            Session::Copying { layout } => match reply {
                Reply::Data { len } => {
                    if layout.checked_pixels_len() == Some(len) {
                        Step::Next(Session::Reading { layout, len })
                    } else {
                        Step::Next(Session::ReleasingImage { data: true, outcome: Err(BAD_SIZE) })
                    }
                },
                _ => Step::Next(Session::ReleasingImage { data: false, outcome: Err(NO_DATA) }),
            },
            Session::Reading { layout, .. } => {
                let bytes = match reply {
                    Reply::Bytes(bytes) => bytes,
                    _ => Vec::new(),
                };
                Step::Next(Session::ReleasingImage { data: true, outcome: assemble(layout, bytes) })
            },
            Session::ReleasingImage { data, outcome } => {
                if data {
                    Step::Next(Session::ReleasingData { outcome })
                } else {
                    Step::Done(outcome)
                }
            },
            Session::ReleasingData { outcome } => Step::Done(outcome),
        };
        proof {
            self.lemma_step(reply, next);
        }
        next
    }
}

impl Protocol for Session {
    type Reply = Reply;

    type Handle = Handle;

    open spec fn holds(self) -> Set<Handle> {
        match self {
            Session::Counting { .. } | Session::Listing { .. } | Session::Creating { .. } =>
                Set::empty(),
            Session::Copying { .. } => copied(false).insert(Handle::Image),
            Session::Reading { .. } => copied(true).insert(Handle::Image),
            Session::ReleasingImage { data, .. } => copied(data).insert(Handle::Image),
            Session::ReleasingData { .. } => copied(true),
        }
    }

    open spec fn gives_back(self) -> Option<Handle> {
        self.pending().releases()
    }

    open spec fn receives(self, reply: Reply) -> Option<Handle> {
        match (self, reply) {
            (Session::Creating { .. }, Reply::Image(_)) => self.pending().acquires(),
            (Session::Copying { .. }, Reply::Data { .. }) => self.pending().acquires(),
            _ => None,
        }
    }

    /// A failure to count or to list the displays ends the capture at once, and so does a
    /// screen index that the list does not reach: no image is made then, of any display.
    /// An image whose pixels are not whole bytes, or whose scanlines are too short for
    /// them, is released before its data is touched. A data length that disagrees with the
    /// header ends the capture before any byte is read. Whatever was acquired is given
    /// back, image first, before the capture ends.
    open spec fn steps_to(self, reply: Reply, next: Step<Session>) -> bool {
        match self {
            Session::Counting { screen } => next == (match reply {
                Reply::Count(capacity) => Step::Next(Session::Listing { screen, capacity }),
                _ => Step::Done(Err(NO_COUNT)),
            }),
            Session::Listing { screen, .. } => next == (match reply {
                Reply::Displays(ids) => if screen < ids@.len() {
                    Step::Next(Session::Creating { display: ids@[screen as int] })
                } else {
                    Step::Done(Err(NO_SUCH_SCREEN))
                },
                _ => Step::Done(Err(NO_LIST)),
            }),
            Session::Creating { .. } => next == (match reply {
                Reply::Image(header) => if header.bits_per_pixel % 8 != 0 {
                    Step::Next(Session::ReleasingImage { data: false, outcome: Err(NOT_INTEGRAL) })
                } else if !header.spec_layout().rows_hold_pixels() {
                    Step::Next(Session::ReleasingImage { data: false, outcome: Err(BAD_SIZE) })
                } else {
                    Step::Next(Session::Copying { layout: header.spec_layout() })
                },
                _ => Step::Done(Err(NO_IMAGE)),
            }),
            Session::Copying { layout } => next == (match reply {
                Reply::Data { len } => if layout.pixels_len() == len {
                    Step::Next(Session::Reading { layout, len })
                } else {
                    Step::Next(Session::ReleasingImage { data: true, outcome: Err(BAD_SIZE) })
                },
                _ => Step::Next(Session::ReleasingImage { data: false, outcome: Err(NO_DATA) }),
            }),
            Session::Reading { layout, .. } => {
                &&& next matches Step::Next(Session::ReleasingImage { data: true, outcome })
                &&& outcome_view(outcome) == assembled(layout, reply.bytes())
            },
            Session::ReleasingImage { data, outcome } => next == (if data {
                Step::Next(Session::ReleasingData { outcome })
            } else {
                Step::Done(outcome)
            }),
            Session::ReleasingData { outcome } => next == Step::<Session>::Done(outcome),
        }
    }

    open spec fn sound(self) -> bool {
        match self {
            Session::ReleasingImage { outcome, .. } | Session::ReleasingData { outcome } => {
                outcome matches Ok(img) ==> img@.valid()
            },
            _ => true,
        }
    }

    proof fn lemma_step(self, reply: Reply, next: Step<Session>) {
        let after = held_after(self.holds(), self.receives(reply), self.gives_back());
        if next is Next {
            assert(next->Next_0.holds() =~= after);
        } else {
            assert(after =~= Set::<Handle>::empty());
        }
    }
}

/// A capture of a screen that the list of displays does not reach ends by saying so as
/// soon as the list is in: it asks for an image of no display.
pub proof fn lemma_no_such_screen(
    sessions: Seq<Session>,
    replies: Seq<Reply>,
    end: ScreenResult,
    screen: usize,
    ids: Vec<u32>,
)
    requires
        is_run(sessions, replies, end),
        sessions[0] == (Session::Counting { screen }),
        replies[0] is Count,
        replies[1] == Reply::Displays(ids),
        ids@.len() <= screen,
    ensures
        end == Err::<Screenshot, &'static str>(NO_SUCH_SCREEN),
        sessions.len() == 2,
        sessions[1].pending() is ListDisplays,
{
    lemma_run_step(sessions, replies, end, 0);
    lemma_run_step(sessions, replies, end, 1);
}

/// The image of a capture that succeeds has the width, the height and the scanline length
/// that the system reported, and its pixel width times eight is the reported depth, which
/// is a multiple of eight. Its buffer is the `width * height` pixels, and a scanline is
/// long enough for `width` of them. The buffer holds the bytes that were read, as they
/// were read.
pub proof fn lemma_image_as_reported(
    sessions: Seq<Session>,
    replies: Seq<Reply>,
    end: ScreenResult,
    at: int,
    header: Header,
)
    requires
        is_run(sessions, replies, end),
        0 <= at < sessions.len(),
        sessions[at] is Creating,
        replies[at] == Reply::Image(header),
        end is Ok,
    ensures
        header.bits_per_pixel % 8 == 0,
        end matches Ok(img) && img@.pixel_width * 8 == header.bits_per_pixel && img@.layout() == (
            header.width as nat,
            header.height as nat,
            header.row_len as nat,
            (header.bits_per_pixel / 8) as nat,
        ),
        end matches Ok(img) && img@.pixels_fill_buffer() && img@.rows_hold_pixels(),
        end matches Ok(img) && img@.data == replies[at + 2].bytes(),
{
    lemma_run_step(sessions, replies, end, at);
    lemma_run_step(sessions, replies, end, at + 1);
    if at + 2 < sessions.len() {
        lemma_run_step(sessions, replies, end, at + 2);
    }
    if at + 3 < sessions.len() {
        lemma_run_step(sessions, replies, end, at + 3);
    }
    if at + 4 < sessions.len() {
        lemma_run_step(sessions, replies, end, at + 4);
    }
}

/// Two captures that both succeed, of a display that reports the same header both times,
/// agree in width, height, scanline length and pixel width, whatever the pixels are.
pub proof fn lemma_same_header_same_layout(
    first: (Seq<Session>, Seq<Reply>, ScreenResult, int),
    second: (Seq<Session>, Seq<Reply>, ScreenResult, int),
    header: Header,
)
    requires
        is_run(first.0, first.1, first.2),
        is_run(second.0, second.1, second.2),
        0 <= first.3 < first.0.len(),
        0 <= second.3 < second.0.len(),
        first.0[first.3] is Creating,
        second.0[second.3] is Creating,
        first.1[first.3] == Reply::Image(header),
        second.1[second.3] == Reply::Image(header),
        first.2 is Ok,
        second.2 is Ok,
    ensures
        first.2->Ok_0@.layout() == second.2->Ok_0@.layout(),
{
    lemma_image_as_reported(first.0, first.1, first.2, first.3, header);
    lemma_image_as_reported(second.0, second.1, second.2, second.3, header);
}

} // verus!
