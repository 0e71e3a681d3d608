use screenshot::capture::BAD_SIZE;
use screenshot::gdi::{
    assemble, flip_rows, BitmapFormat, Desktop, Reply, Request, Session, NO_BITMAP, NO_BITS, NO_BLIT, NO_CONTEXT,
    NO_SCREEN, NO_SELECT, UNCOMPRESSED,
};
use screenshot::{ScreenResult, Screenshot, Step};

/// A stand-in for the graphics device interface: it answers the calls of a session, fails
/// the one it is told to fail, and keeps count of what it handed out.
struct Gdi {
    desktop: Desktop,
    /// The bitmap's bits, bottom row first.
    bits: Vec<u8>,
    fails: Option<Request>,
    asked: Vec<Request>,
    screens: i32,
    contexts: i32,
    bitmaps: i32,
}

impl Gdi {
    fn new(desktop: Desktop, bits: Vec<u8>) -> Gdi {
        Gdi { desktop, bits, fails: None, asked: Vec::new(), screens: 0, contexts: 0, bitmaps: 0 }
    }

    fn failing(mut self, request: Request) -> Gdi {
        self.fails = Some(request);
        self
    }

    fn answer(&mut self, request: Request) -> Reply {
        self.asked.push(request);
        if self.fails == Some(request) {
            return Reply::Failed;
        }
        match request {
            Request::GetScreen => {
                self.screens += 1;
                Reply::Screen(self.desktop)
            }
            Request::CreateContext => {
                assert!(self.screens == 1);
                self.contexts += 1;
                Reply::Done
            }
            Request::CreateBitmap { .. } => {
                assert!(self.screens == 1);
                self.bitmaps += 1;
                Reply::Done
            }
            Request::SelectBitmap | Request::Blit { .. } => {
                assert!(self.contexts == 1 && self.bitmaps == 1);
                Reply::Done
            }
            Request::GetBits { .. } => {
                assert!(self.contexts == 1 && self.bitmaps == 1);
                Reply::Bits(self.bits.clone())
            }
            Request::ReleaseScreen => {
                assert!(self.screens == 1);
                self.screens -= 1;
                Reply::Done
            }
            Request::DeleteContext => {
                assert!(self.contexts == 1);
                self.contexts -= 1;
                Reply::Done
            }
            Request::DeleteBitmap => {
                assert!(self.bitmaps == 1);
                self.bitmaps -= 1;
                Reply::Done
            }
        }
    }

    fn held(&self) -> (i32, i32, i32) {
        (self.screens, self.contexts, self.bitmaps)
    }
}

fn capture(native: &mut Gdi, screen: usize) -> ScreenResult {
    let mut session = Session::start(screen);
    loop {
        let reply = native.answer(session.request());
        match session.step(reply) {
            Step::Next(next) => session = next,
            Step::Done(result) => return result,
        }
    }
}

fn desktop(width: i32, height: i32) -> Desktop {
    Desktop { width, height, left: 0, top: 0 }
}

fn format(width: i32, height: i32) -> BitmapFormat {
    BitmapFormat {
        width,
        height,
        planes: 1,
        bit_count: 32,
        compression: UNCOMPRESSED,
        size_image: (width * height * 4) as u32,
    }
}

fn image_of(result: ScreenResult) -> Screenshot {
    match result {
        Ok(img) => img,
        Err(e) => panic!("{}", e),
    }
}

/// A buffer of `height` rows of `row_len` bytes in which every byte of row `i` is `i + 1`.
fn marked_rows(height: usize, row_len: usize) -> Vec<u8> {
    let mut data = Vec::new();
    for row in 0..height {
        for _ in 0..row_len {
            data.push(row as u8 + 1);
        }
    }
    data
}

#[test]
fn gdi_messages_are_fixed_sentences() {
    assert_eq!(NO_SCREEN, "Can't get the Windows desktop.");
    assert_eq!(NO_CONTEXT, "Can't get a Windows display.");
    assert_eq!(NO_BITMAP, "Can't create a Windows buffer");
    assert_eq!(NO_SELECT, "Can't select Windows buffer.");
    assert_eq!(NO_BLIT, "Failed to copy screen to Windows buffer");
    assert_eq!(NO_BITS, "Failed to read the Windows buffer");
}

#[test]
fn flip_reverses_marked_rows() {
    let height = 5;
    let row_len = 12;
    let data = marked_rows(height, row_len);
    let out = flip_rows(data.clone(), height, row_len);
    assert_eq!(out.len(), data.len());
    for i in 0..height {
        let to = height - 1 - i;
        assert_eq!(&out[to * row_len..(to + 1) * row_len], &data[i * row_len..(i + 1) * row_len]);
        assert!(out[to * row_len..(to + 1) * row_len].iter().all(|b| *b == i as u8 + 1));
    }
}

#[test]
fn flip_keeps_the_order_inside_a_row() {
    let out = flip_rows(vec![1, 2, 3, 4, 5, 6, 7, 8, 9, 10, 11, 12], 3, 4);
    assert_eq!(out, vec![9, 10, 11, 12, 5, 6, 7, 8, 1, 2, 3, 4]);
}

#[test]
fn flip_of_one_row_or_none() {
    assert_eq!(flip_rows(vec![1, 2, 3, 4], 1, 4), vec![1, 2, 3, 4]);
    assert_eq!(flip_rows(Vec::new(), 0, 4), Vec::<u8>::new());
    assert_eq!(flip_rows(Vec::new(), 3, 0), Vec::<u8>::new());
    assert_eq!(flip_rows(vec![1, 2], 2, 1), vec![2, 1]);
}

#[test]
fn flip_twice_gives_the_buffer_back() {
    let data: Vec<u8> = (0..60).collect();
    assert_eq!(flip_rows(flip_rows(data.clone(), 5, 12), 5, 12), data);
    assert_eq!(flip_rows(flip_rows(data.clone(), 4, 15), 4, 15), data);
}

#[test]
fn gdi_assemble_flips_and_lays_out_four_bytes_to_the_pixel() {
    let img = image_of(assemble(2, 2, vec![1, 2, 3, 4, 5, 6, 7, 8, 9, 10, 11, 12, 13, 14, 15, 16]));
    assert_eq!(img.raw_data(), &[9, 10, 11, 12, 13, 14, 15, 16, 1, 2, 3, 4, 5, 6, 7, 8]);
    assert_eq!((img.width(), img.height(), img.row_len(), img.pixel_width()), (2, 2, 8, 4));
    let top_left = img.get_pixel(0, 0);
    assert_eq!((top_left.b, top_left.g, top_left.r, top_left.a), (9, 10, 11, 12));
}

#[test]
fn gdi_assemble_refuses_a_wrong_length() {
    assert_eq!(assemble(2, 2, vec![0; 15]).err(), Some(BAD_SIZE));
    assert_eq!(assemble(2, 2, vec![0; 17]).err(), Some(BAD_SIZE));
    assert_eq!(assemble(usize::MAX, 0, Vec::new()).err(), Some(BAD_SIZE));
    assert_eq!(assemble(usize::MAX / 4, 2, Vec::new()).err(), Some(BAD_SIZE));
    assert_eq!(image_of(assemble(0, 9, Vec::new())).raw_len(), 0);
}

#[test]
fn gdi_capture_goes_through_the_calls_in_order() {
    let shown = Desktop { width: 2, height: 3, left: -1920, top: -40 };
    let mut native = Gdi::new(shown, marked_rows(3, 8));
    let img = image_of(capture(&mut native, 0));
    assert_eq!(
        native.asked,
        vec![
            Request::GetScreen,
            Request::CreateContext,
            Request::CreateBitmap { width: 2, height: 3 },
            Request::SelectBitmap,
            Request::Blit { width: 2, height: 3, left: -1920, top: -40 },
            Request::GetBits { format: format(2, 3), len: 24 },
            Request::ReleaseScreen,
            Request::DeleteContext,
            Request::DeleteBitmap,
        ]
    );
    assert_eq!(native.held(), (0, 0, 0));
    assert_eq!((img.width(), img.height(), img.row_len(), img.pixel_width()), (2, 3, 8, 4));
    // The bottom row came first and is the last now.
    assert_eq!(img.get_pixel(0, 0).b, 3);
    assert_eq!(img.get_pixel(1, 1).r, 2);
    assert_eq!(img.get_pixel(2, 0).a, 1);
}

#[test]
fn gdi_format_asks_for_bottom_up_32_bit_rows() {
    let mut session = Session::start(0);
    let mut native = Gdi::new(desktop(640, 480), vec![0; 640 * 480 * 4]);
    loop {
        let request = session.request();
        if let Request::GetBits { format, len } = request {
            assert_eq!(format.width, 640);
            assert_eq!(format.height, 480);
            assert!(format.height > 0);
            assert_eq!(format.planes, 1);
            assert_eq!(format.bit_count, 32);
            assert_eq!(format.compression, 0);
            assert_eq!(format.size_image, 1228800);
            assert_eq!(len, 1228800);
            break;
        }
        match session.step(native.answer(request)) {
            Step::Next(next) => session = next,
            Step::Done(_) => panic!("the bits were never asked for"),
        }
    }
}

#[test]
fn gdi_capture_shape_invariants() {
    let mut native = Gdi::new(desktop(7, 5), vec![1; 140]);
    let img = image_of(capture(&mut native, 0));
    assert_eq!(img.raw_len(), img.row_len() * img.height());
    assert_eq!(img.row_len(), img.width() * img.pixel_width());
    assert_eq!(img.pixel_width() * 8, 32);
}

#[test]
fn gdi_screen_index_selects_nothing() {
    let mut first = Gdi::new(desktop(2, 2), (1..=16).collect());
    let mut other = Gdi::new(desktop(2, 2), (1..=16).collect());
    let a = image_of(capture(&mut first, 0));
    let b = image_of(capture(&mut other, 5));
    assert_eq!(first.asked, other.asked);
    assert_eq!(a.raw_data(), b.raw_data());
    assert_eq!(Session::start(usize::MAX).request(), Request::GetScreen);
}

#[test]
fn gdi_each_refused_call_has_its_sentence() {
    let cases = [
        (Request::GetScreen, "Can't get the Windows desktop."),
        (Request::CreateContext, "Can't get a Windows display."),
        (Request::CreateBitmap { width: 2, height: 2 }, "Can't create a Windows buffer"),
        (Request::SelectBitmap, "Can't select Windows buffer."),
        (Request::Blit { width: 2, height: 2, left: 0, top: 0 }, "Failed to copy screen to Windows buffer"),
        (Request::GetBits { format: format(2, 2), len: 16 }, "Failed to read the Windows buffer"),
    ];
    for (refused, sentence) in cases {
        let mut native = Gdi::new(desktop(2, 2), vec![0; 16]).failing(refused);
        assert_eq!(capture(&mut native, 0).err(), Some(sentence));
        assert_eq!(native.held(), (0, 0, 0));
        assert_eq!(native.asked.iter().filter(|r| **r == refused).count(), 1);
    }
}

#[test]
fn gdi_refusals_give_back_what_was_acquired() {
    let mut native = Gdi::new(desktop(2, 2), vec![0; 16]).failing(Request::GetScreen);
    let _ = capture(&mut native, 0);
    assert_eq!(native.asked, vec![Request::GetScreen]);

    let mut native = Gdi::new(desktop(2, 2), vec![0; 16]).failing(Request::CreateContext);
    let _ = capture(&mut native, 0);
    assert_eq!(native.asked, vec![Request::GetScreen, Request::CreateContext, Request::ReleaseScreen]);

    let mut native = Gdi::new(desktop(2, 2), vec![0; 16]).failing(Request::CreateBitmap { width: 2, height: 2 });
    let _ = capture(&mut native, 0);
    assert_eq!(
        native.asked,
        vec![
            Request::GetScreen,
            Request::CreateContext,
            Request::CreateBitmap { width: 2, height: 2 },
            Request::ReleaseScreen,
            Request::DeleteContext,
        ]
    );

    let mut native = Gdi::new(desktop(2, 2), vec![0; 16]).failing(Request::SelectBitmap);
    let _ = capture(&mut native, 0);
    assert_eq!(
        native.asked,
        vec![
            Request::GetScreen,
            Request::CreateContext,
            Request::CreateBitmap { width: 2, height: 2 },
            Request::SelectBitmap,
            Request::ReleaseScreen,
            Request::DeleteContext,
            Request::DeleteBitmap,
        ]
    );
}

#[test]
fn gdi_wrong_number_of_bits_is_refused_and_everything_released_once() {
    for have in [0usize, 15, 17, 64] {
        let mut native = Gdi::new(desktop(2, 2), vec![0; have]);
        assert_eq!(capture(&mut native, 0).err(), Some(BAD_SIZE));
        assert_eq!(native.held(), (0, 0, 0));
        for release in [Request::ReleaseScreen, Request::DeleteContext, Request::DeleteBitmap] {
            assert_eq!(native.asked.iter().filter(|r| **r == release).count(), 1);
        }
    }
}

#[test]
fn gdi_desktop_that_does_not_fit_is_refused_after_the_copy() {
    for shown in [desktop(-1, 2), desktop(2, -1), desktop(i32::MAX, i32::MAX), desktop(32768, 32768)] {
        let mut native = Gdi::new(shown, Vec::new());
        assert_eq!(capture(&mut native, 0).err(), Some(BAD_SIZE));
        assert!(native.asked.iter().any(|r| matches!(r, Request::Blit { .. })));
        assert!(!native.asked.iter().any(|r| matches!(r, Request::GetBits { .. })));
        assert_eq!(native.held(), (0, 0, 0));
    }
}

#[test]
fn gdi_largest_desktop_that_fits() {
    // 32768 x 32767 pixels of four bytes are 2^32 - 2^17 bytes.
    let mut session = Session::Blitting { desktop: desktop(32768, 32767) };
    session = match session.step(Reply::Done) {
        Step::Next(next) => next,
        Step::Done(_) => panic!("the capture goes on"),
    };
    match session.request() {
        Request::GetBits { format, len } => {
            assert_eq!(format.size_image, 4294836224);
            assert_eq!(len as u64, 4294836224);
        }
        _ => panic!("the bits come next"),
    }
}

#[test]
fn gdi_empty_desktop_gives_an_empty_image() {
    let mut native = Gdi::new(desktop(0, 0), Vec::new());
    let img = image_of(capture(&mut native, 0));
    assert_eq!((img.width(), img.height(), img.row_len(), img.raw_len()), (0, 0, 0, 0));
}

#[test]
fn gdi_same_desktop_gives_the_same_shape() {
    let a = image_of(capture(&mut Gdi::new(desktop(3, 2), vec![1; 24]), 0));
    let b = image_of(capture(&mut Gdi::new(desktop(3, 2), vec![2; 24]), 0));
    assert_eq!(
        (a.width(), a.height(), a.row_len(), a.pixel_width()),
        (b.width(), b.height(), b.row_len(), b.pixel_width())
    );
    assert_eq!((a.width(), a.height(), a.row_len(), a.pixel_width()), (3, 2, 12, 4));
}

#[test]
fn gdi_any_other_reply_counts_as_a_refusal() {
    match Session::start(0).step(Reply::Done) {
        Step::Done(result) => assert_eq!(result.err(), Some(NO_SCREEN)),
        Step::Next(_) => panic!("no screen is held"),
    }
    match (Session::CreatingContext { desktop: desktop(2, 2) }).step(Reply::Screen(desktop(2, 2))) {
        Step::Next(Session::ReleasingScreen { context, bitmap, outcome }) => {
            assert_eq!((context, bitmap), (false, false));
            assert_eq!(outcome.err(), Some(NO_CONTEXT));
        }
        _ => panic!("the screen must be released next"),
    }
    match (Session::Blitting { desktop: desktop(2, 2) }).step(Reply::Bits(vec![0; 16])) {
        Step::Next(Session::ReleasingScreen { context, bitmap, outcome }) => {
            assert_eq!((context, bitmap), (true, true));
            assert_eq!(outcome.err(), Some(NO_BLIT));
        }
        _ => panic!("the screen must be released next"),
    }
}

#[test]
fn gdi_releases_follow_what_is_held() {
    let held_all = Session::ReleasingScreen { context: true, bitmap: true, outcome: Err(NO_BLIT) };
    let mut asked = vec![held_all.request()];
    let mut step = held_all.step(Reply::Done);
    let result = loop {
        match step {
            Step::Next(next) => {
                asked.push(next.request());
                step = next.step(Reply::Done);
            }
            Step::Done(result) => break result,
        }
    };
    assert_eq!(asked, vec![Request::ReleaseScreen, Request::DeleteContext, Request::DeleteBitmap]);
    assert_eq!(result.err(), Some(NO_BLIT));

    match (Session::ReleasingScreen { context: false, bitmap: true, outcome: Err(NO_BITS) }).step(Reply::Done) {
        Step::Next(next) => assert_eq!(next.request(), Request::DeleteBitmap),
        Step::Done(_) => panic!("the bitmap is still held"),
    }
    match (Session::DeletingContext { bitmap: false, outcome: Err(NO_BITMAP) }).step(Reply::Failed) {
        Step::Done(result) => assert_eq!(result.err(), Some(NO_BITMAP)),
        Step::Next(_) => panic!("nothing is left to give back"),
    }
}
