//! What the three capture sessions share: the header that a display service reports, the
//! sentences for the failures that any of them can meet, and the shape of one step.

use vstd::prelude::*;
use crate::image::{Layout, ScreenResult, ScreenshotView};

verus! {

/// The pixel depth that the display service reported is not a whole number of bytes.
pub const NOT_INTEGRAL: &'static str = "Pixels aren't integral bytes.";

/// The number of bytes on hand is not width x height x pixel width.
pub const BAD_SIZE: &'static str = "Image size is inconsistent with W*H*D.";

/// The requested screen is not among the displays that the system listed.
pub const NO_SUCH_SCREEN: &'static str = "Screen index is out of range.";

/// What the display service says of an image it holds.
#[derive(Clone, Copy)]
pub struct Header {
    pub width: usize,
    pub height: usize,
    /// Bytes from the start of one scanline to the start of the next.
    pub row_len: usize,
    pub bits_per_pixel: usize,
}

impl Header {
    /// The layout of an image with this header, unless its pixels are not whole bytes.
    /// On success the pixel width is the reported depth in bytes, and the rest is taken
    /// over as reported.
    pub fn layout(&self) -> (r: Result<Layout, &'static str>)
        ensures
            self.bits_per_pixel % 8 != 0 ==> r == Err::<Layout, &'static str>(NOT_INTEGRAL),
            self.bits_per_pixel % 8 == 0 ==> r == Ok::<Layout, &'static str>(self.spec_layout()),
            r matches Ok(l) ==> l.pixel_width * 8 == self.bits_per_pixel,
    {
        if self.bits_per_pixel % 8 != 0 {
            Err(NOT_INTEGRAL)
        } else {
            Ok(
                Layout {
                    width: self.width,
                    height: self.height,
                    row_len: self.row_len,
                    pixel_width: self.bits_per_pixel / 8,
                },
            )
        }
    }

    /// The layout that `layout` gives for a header of whole-byte pixels.
    pub open spec fn spec_layout(self) -> Layout {
        Layout {
            width: self.width,
            height: self.height,
            row_len: self.row_len,
            pixel_width: self.bits_per_pixel / 8,
        }
    }
}

/// Where a session stands after one reply: it goes on in state `S`, or the capture is
/// over.
pub enum Step<S> {
    Next(S),
    Done(ScreenResult),
}

/// A capture's result with the image taken as its mathematical value.
pub open spec fn outcome_view(r: ScreenResult) -> Result<ScreenshotView, &'static str> {
    match r {
        Ok(img) => Ok(img@),
        Err(e) => Err(e),
    }
}

/// The handles held after a call made while `held` were: with the one that the reply
/// handed out, without the one that the call gave back.
pub open spec fn held_after<H>(
    held: Set<H>,
    handed_out: Option<H>,
    given_back: Option<H>,
) -> Set<H> {
    match (handed_out, given_back) {
        (Some(h), _) => held.insert(h),
        (_, Some(h)) => held.remove(h),
        _ => held,
    }
}

/// What the three sessions have in common, and what is proved of each of them: an account
/// of the native handles that a capture holds.
pub trait Protocol: Sized {
    /// What a native call gives back.
    type Reply;

    /// The native resources that a capture acquires and must give back.
    type Handle;

    /// The handles held while the session waits for its call.
    spec fn holds(self) -> Set<Self::Handle>;

    /// The handle that the pending call gives back to the system.
    spec fn gives_back(self) -> Option<Self::Handle>;

    /// The handle that `reply` hands out.
    spec fn receives(self, reply: Self::Reply) -> Option<Self::Handle>;

    /// Where the session stands after `reply`.
    spec fn steps_to(self, reply: Self::Reply, next: Step<Self>) -> bool;

    /// An image that the session carries to the end of the capture is valid.
    spec fn sound(self) -> bool;

    /// One step keeps the account: a handle is given back only while held and handed out
    /// only while not; what the next session holds is what was held, with what the reply
    /// handed out and without what the call gave back; and the capture ends only with
    /// nothing held. It keeps sessions sound, and ends a sound session with a valid image
    /// or with none.
    proof fn lemma_step(self, reply: Self::Reply, next: Step<Self>)
        requires
            self.steps_to(reply, next),
        ensures
            self.gives_back() matches Some(h) ==> self.holds().contains(h),
            self.receives(reply) matches Some(h) ==> !self.holds().contains(h)
                && self.gives_back() is None,
            next matches Step::Next(s) ==> s.holds() == held_after(
                self.holds(),
                self.receives(reply),
                self.gives_back(),
            ),
            next is Done ==> held_after(self.holds(), self.receives(reply), self.gives_back())
                == Set::<Self::Handle>::empty(),
            self.sound() ==> (next matches Step::Next(s) ==> s.sound()),
            self.sound() ==> (next matches Step::Done(Ok(img)) ==> img@.valid()),
    ;
}

/// A whole capture: the sessions it goes through, the reply that each of them takes, and
/// the result that the last reply ends it with.
pub open spec fn is_run<P: Protocol>(
    sessions: Seq<P>,
    replies: Seq<P::Reply>,
    end: ScreenResult,
) -> bool {
    &&& sessions.len() > 0
    &&& sessions.len() == replies.len()
    &&& forall|i: int|
        0 <= i < sessions.len() - 1 ==> (#[trigger] sessions[i]).steps_to(
            replies[i],
            Step::Next(sessions[i + 1]),
        )
    &&& sessions.last().steps_to(replies.last(), Step::Done(end))
}

/// Step `k` of a run ends the capture where it is the last, and leads to the next session
/// where it is not.
pub proof fn lemma_run_step<P: Protocol>(
    sessions: Seq<P>,
    replies: Seq<P::Reply>,
    end: ScreenResult,
    k: int,
)
    requires
        is_run(sessions, replies, end),
        0 <= k < sessions.len(),
    ensures
        k == sessions.len() - 1 ==> sessions[k].steps_to(replies[k], Step::Done(end)),
        k < sessions.len() - 1 ==> sessions[k].steps_to(replies[k], Step::Next(sessions[k + 1])),
{
}

/// How often the first `n` replies of a run handed `h` out.
pub open spec fn handed_out<P: Protocol>(
    sessions: Seq<P>,
    replies: Seq<P::Reply>,
    h: P::Handle,
    n: nat,
) -> nat
    decreases n,
{
    if n == 0 {
        0
    } else {
        let before = handed_out(sessions, replies, h, (n - 1) as nat);
        if sessions[n - 1].receives(replies[n - 1]) == Some(h) {
            before + 1
        } else {
            before
        }
    }
}

/// How often the first `n` calls of a run gave `h` back.
pub open spec fn given_back<P: Protocol>(sessions: Seq<P>, h: P::Handle, n: nat) -> nat
    decreases n,
{
    if n == 0 {
        0
    } else {
        let before = given_back(sessions, h, (n - 1) as nat);
        if sessions[n - 1].gives_back() == Some(h) {
            before + 1
        } else {
            before
        }
    }
}

/// One where the session holds `h`, nought where it does not.
pub open spec fn held_once<P: Protocol>(session: P, h: P::Handle) -> nat {
    if session.holds().contains(h) {
        1
    } else {
        0
    }
}

/// Before step `n` of a run that starts with nothing held, `h` has been handed out once
/// more than given back if it is held, and as often if it is not.
proof fn lemma_account<P: Protocol>(
    sessions: Seq<P>,
    replies: Seq<P::Reply>,
    end: ScreenResult,
    h: P::Handle,
    n: nat,
)
    requires
        is_run(sessions, replies, end),
        !sessions[0].holds().contains(h),
        n < sessions.len(),
    ensures
        handed_out(sessions, replies, h, n) == given_back(sessions, h, n) + held_once(
            sessions[n as int],
            h,
        ),
    decreases n,
{
    if n > 0 {
        let k = n - 1;
        lemma_account(sessions, replies, end, h, k as nat);
        sessions[k].lemma_step(replies[k], Step::Next(sessions[k + 1]));
    }
}

/// Over a whole capture that starts with nothing held, whether it succeeds or fails and
/// whatever the system replies, every handle is given back exactly as often as it was
/// handed out: none leaks, and none is given back twice.
pub proof fn lemma_handles_given_back<P: Protocol>(
    sessions: Seq<P>,
    replies: Seq<P::Reply>,
    end: ScreenResult,
    h: P::Handle,
)
    requires
        is_run(sessions, replies, end),
        !sessions[0].holds().contains(h),
    ensures
        handed_out(sessions, replies, h, sessions.len()) == given_back(sessions, h, sessions.len()),
{
    let k = sessions.len() - 1;
    let last = sessions[k];
    lemma_account(sessions, replies, end, h, k as nat);
    last.lemma_step(replies[k], Step::Done(end));
    assert(!held_after(last.holds(), last.receives(replies[k]), last.gives_back()).contains(h));
}

/// Every session of a run that starts sound is sound.
proof fn lemma_sound<P: Protocol>(
    sessions: Seq<P>,
    replies: Seq<P::Reply>,
    end: ScreenResult,
    n: nat,
)
    requires
        is_run(sessions, replies, end),
        sessions[0].sound(),
        n < sessions.len(),
    ensures
        sessions[n as int].sound(),
    decreases n,
{
    if n > 0 {
        let k = n - 1;
        lemma_sound(sessions, replies, end, k as nat);
        sessions[k].lemma_step(replies[k], Step::Next(sessions[k + 1]));
    }
}

/// The image of every capture that succeeds is valid: its scanlines are long enough for its
/// pixels, and its buffer is all the scanlines or all the pixels.
pub proof fn lemma_capture_is_valid<P: Protocol>(
    sessions: Seq<P>,
    replies: Seq<P::Reply>,
    end: ScreenResult,
)
    requires
        is_run(sessions, replies, end),
        sessions[0].sound(),
    ensures
        end matches Ok(img) ==> img@.valid(),
{
    let k = sessions.len() - 1;
    lemma_sound(sessions, replies, end, k as nat);
    sessions[k].lemma_step(replies[k], Step::Done(end));
}

} // verus!
