//! A picture of the window, taken once it has settled.
use vstd::prelude::*;
use vstd::string::*;

use crate::client::cli;

verus! {

/// What to do for a picture in this frame.
#[derive(Debug, Clone, Copy, PartialEq, Eq, Structural)]
pub struct CaptureStep {
    /// Whether another frame has to follow.
    pub repaint: bool,
    /// Whether the picture has to be asked for.
    pub request: bool,
    /// Whether the picture that came has to be written, and the window closed.
    pub save: bool,
}

/// The frame that is pictured where none is named.
pub const DEFAULT_FRAME: u32 = 4;

/// Takes one picture, where one is wanted.
pub struct Capture {
    path: Option<String>,
    frame: u32,
    at_frame: u32,
}

/// What a [`Capture`] holds.
#[verifier::ext_equal]
pub struct CaptureView {
    pub path: Option<Seq<char>>,
    pub frame: u32,
    pub at_frame: u32,
}

impl View for Capture {
    type V = CaptureView;

    closed spec fn view(&self) -> CaptureView {
        CaptureView { path: self.path.deep_view(), frame: self.frame, at_frame: self.at_frame }
    }
}

/// The frame to picture: the one that is named, where the name is a number that
/// fits.
pub open spec fn frame_named(frame: Option<Seq<char>>) -> u32 {
    match frame {
        Some(text) => match cli::number(text) {
            Some(n) => if n <= u32::MAX {
                n as u32
            } else {
                DEFAULT_FRAME
            },
            None => DEFAULT_FRAME,
        },
        None => DEFAULT_FRAME,
    }
}

impl CaptureView {
    /// One more frame is drawn, in which the picture comes or not.
    pub open spec fn drawn(self, arrived: bool) -> (CaptureView, CaptureStep) {
        if self.path is None {
            (self, CaptureStep { repaint: false, request: false, save: false })
        } else {
            let frame = if self.frame == u32::MAX {
                0
            } else {
                (self.frame + 1) as u32
            };
            (
                CaptureView { frame, ..self },
                CaptureStep { repaint: true, request: frame == self.at_frame, save: arrived },
            )
        }
    }
}

impl Capture {
    /// A picture to write at a path, of the named frame.
    pub fn new(path: Option<String>, frame: Option<String>) -> (r: Self)
        ensures
            r@ == (CaptureView {
                path: path.deep_view(),
                frame: 0,
                at_frame: frame_named(frame.deep_view()),
            }),
    {
        let at_frame: u32 = match frame {
            Some(text) => match cli::parse_number(text.as_str()) {
                Some(n) => {
                    if n <= 0xffff_ffff {
                        n as u32
                    } else {
                        DEFAULT_FRAME
                    }
                },
                None => DEFAULT_FRAME,
            },
            None => DEFAULT_FRAME,
        };
        Capture { path, frame: 0, at_frame }
    }

    /// Where the picture goes.
    pub fn path(&self) -> (r: Option<String>)
        ensures
            r.deep_view() == self@.path,
    {
        self.path.clone()
    }

    /// Notes that one more frame is drawn.
    pub fn tick(&mut self, arrived: bool) -> (r: CaptureStep)
        ensures
            (final(self)@, r) == old(self)@.drawn(arrived),
    {
        if self.path.is_none() {
            return CaptureStep { repaint: false, request: false, save: false };
        }
        self.frame = self.frame.wrapping_add(1);
        CaptureStep { repaint: true, request: self.frame == self.at_frame, save: arrived }
    }
}

/// Without a path nothing is ever asked for.
pub proof fn law_no_picture_unasked(m: CaptureView, arrived: bool)
    requires
        m.path is None,
    ensures
        !m.drawn(arrived).1.request && !m.drawn(arrived).1.save,
        m.drawn(arrived).0 == m,
{
}

} // verus!
