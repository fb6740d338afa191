//! Capturing the screen.

use vstd::prelude::*;

use crate::decimal;
use crate::decimal::append_decimal;
use crate::geom::Rect;
use crate::image;
use crate::image::CapturedImage;
use crate::platform::Os;
use crate::screen::ScreenInfo;

verus! {

#[derive(Debug, PartialEq)]
pub enum Error {
    /// The user has not allowed the program to record the screen.
    PermissionDenied,
    CaptureFailed(String),
    /// No answer within so many milliseconds.
    Timeout(u64),
    /// There is nothing to capture.
    EmptyRect(Rect),
    /// The platform cannot capture the screen.
    Unsupported,
}

/// Takes pictures of the screen.
pub trait Capturer: Sized {
    /// Captures a region of the screen, given in global coordinates, at the
    /// scale factor of the display that it lies on. A region that crosses
    /// displays is captured display by display, because their scale factors
    /// may differ.
    fn capture_rect(&self, rect: Rect, scale: i64) -> (r: Result<CapturedImage, Error>)
        ensures
            r matches Ok(image) ==> image@.wf() && image.scale == scale,
    ;

    /// Captures a whole display.
    fn capture_screen(&self, screen: &ScreenInfo) -> (r: Result<CapturedImage, Error>)
        ensures
            call_ensures(Self::capture_rect, (self, screen.frame, screen.scale), r),
    {
        self.capture_rect(screen.frame, screen.scale)
    }
}

/// How long to wait for a capture, in milliseconds.
pub const CAPTURE_TIMEOUT: u64 = 5_000;

/// Whether the program may record the screen.
#[derive(Debug, Clone, Copy, PartialEq, Eq, Structural)]
pub enum Permission {
    Granted,
    Denied,
    /// The platform asks for no permission.
    NotRequired,
}

/// The permission, given what the system answered. `None` stands for a system
/// that knows no such permission.
pub fn permission_status(preflight: Option<bool>) -> (r: Permission)
    ensures
        r == match preflight {
            Some(true) => Permission::Granted,
            Some(false) => Permission::Denied,
            None => Permission::NotRequired,
        },
{
    match preflight {
        Some(true) => Permission::Granted,
        Some(false) => Permission::Denied,
        None => Permission::NotRequired,
    }
}

/// Whether the program may record the screen after asking the user, given what
/// the system answered. `None` stands for a system that knows no such
/// permission.
pub fn request_permission(answer: Option<bool>) -> (r: bool)
    ensures
        r == match answer {
            Some(granted) => granted,
            None => true,
        },
{
    match answer {
        Some(granted) => granted,
        None => true,
    }
}

/// Chooses how the screen is captured.
pub fn current_capturer(os: Os) -> (r: Result<MacCapturer, Error>)
    ensures
        r is Ok <==> os == Os::Mac,
        r matches Err(e) ==> e == Error::Unsupported,
{
    match os {
        Os::Mac => Ok(MacCapturer),
        Os::Other => Err(Error::Unsupported),
    }
}

/// What came of drawing a captured image into a bitmap of our own, which makes
/// its format known.
pub enum Canvas {
    NoColorSpace,
    NoContext,
    Pixels(Vec<u8>),
}

/// The reply of the system to a request for a capture.
pub enum Reply {
    Failed(String),
    /// Neither an image nor an error.
    Nothing,
    Image { width: usize, height: usize, canvas: Canvas },
}

/// Why an image of the given size and its bitmap are of no use, if they are not.
pub open spec fn image_flaw(width: usize, height: usize, canvas: Canvas) -> Option<Seq<char>> {
    if width == 0 || height == 0 {
        Some(
            "图像尺寸非法: "@ + decimal::decimal(width as nat) + "x"@ + decimal::decimal(
                height as nat,
            ),
        )
    } else {
        match canvas {
            Canvas::NoColorSpace => Some("创建色彩空间失败"@),
            Canvas::NoContext => Some("创建位图上下文失败"@),
            Canvas::Pixels(_) => None,
        }
    }
}

/// Why a reply holds no image, if it does not.
pub open spec fn reply_flaw(reply: Reply) -> Option<Seq<char>> {
    match reply {
        Reply::Failed(message) => Some(message@),
        Reply::Nothing => Some("回调返回空图像且无错误信息"@),
        Reply::Image { width, height, canvas } => image_flaw(width, height, canvas),
    }
}

/// The bitmap of a reply has the size of its image.
pub open spec fn fits(reply: Reply) -> bool {
    reply matches Reply::Image { width, height, canvas } ==> {
        &&& width <= u32::MAX
        &&& height <= u32::MAX
        &&& canvas matches Canvas::Pixels(buf) ==> buf@.len() == image::byte_count(
            width as u32,
            height as u32,
        )
    }
}

/// Takes the pixels of a captured image.
fn cgimage_to_bgra(width: usize, height: usize, canvas: Canvas) -> (r: Result<
    (u32, u32, Vec<u8>),
    String,
>)
    requires
        fits(Reply::Image { width, height, canvas }),
    ensures
        r is Ok <==> image_flaw(width, height, canvas) is None,
        r matches Ok((w, h, buf)) ==> w == width && h == height && canvas == Canvas::Pixels(buf),
        r matches Err(message) ==> message@ == image_flaw(width, height, canvas)->0,
{
    if width == 0 || height == 0 {
        let mut message: String = "图像尺寸非法: ".to_owned();
        append_decimal(&mut message, width as u64);
        message.append("x");
        append_decimal(&mut message, height as u64);
        return Err(message);
    }
    match canvas {
        Canvas::NoColorSpace => Err("创建色彩空间失败".to_owned()),
        Canvas::NoContext => Err("创建位图上下文失败".to_owned()),
        Canvas::Pixels(buf) => Ok((width as u32, height as u32, buf)),
    }
}

/// Captures the screen of a Mac. The requests themselves are made elsewhere.
pub struct MacCapturer;

impl MacCapturer {
    /// Whether a region can be captured at all.
    pub fn check(&self, rect: Rect, permission: Permission) -> (r: Result<(), Error>)
        ensures
            r == if rect.size.width <= 0 || rect.size.height <= 0 {
                Err(Error::EmptyRect(rect))
            } else if permission != Permission::Granted {
                Err(Error::PermissionDenied)
            } else {
                Ok(())
            },
    {
        if rect.size.width <= 0 || rect.size.height <= 0 {
            return Err(Error::EmptyRect(rect));
        }
        if permission != Permission::Granted {
            return Err(Error::PermissionDenied);
        }
        Ok(())
    }

    /// Takes the image out of the reply to a request.
    pub fn receive(&self, reply: Reply, scale: i64) -> (r: Result<CapturedImage, Error>)
        requires
            fits(reply),
        ensures
            r is Ok <==> reply_flaw(reply) is None,
            r matches Ok(captured) ==> captured@.wf() && captured.scale == scale && (reply matches
                Reply::Image { width, height, canvas } && width == captured.width && height
                == captured.height && canvas == Canvas::Pixels(captured.bgra)),
            r matches Err(e) ==> (e matches Error::CaptureFailed(message) && message@
                == reply_flaw(reply)->0),
    {
        let taken: Result<(u32, u32, Vec<u8>), String> = match reply {
            Reply::Failed(message) => Err(message),
            Reply::Nothing => Err("回调返回空图像且无错误信息".to_owned()),
            Reply::Image { width, height, canvas } => cgimage_to_bgra(width, height, canvas),
        };
        match taken {
            Ok((width, height, bgra)) => Ok(CapturedImage { width, height, scale, bgra }),
            Err(message) => Err(Error::CaptureFailed(message)),
        }
    }
}

/// What a look at the channel of a pending reply shows.
pub enum Received<T> {
    Value(T),
    /// Whoever was to send has gone.
    Disconnected,
    Empty,
}

/// What to do while a reply is pending.
pub enum Wait<T> {
    Done(T),
    Failed(Error),
    /// Let the system run its callbacks, and look again.
    Pump,
}

/// Decides on a look at the channel: a reply ends the wait, and so does the
/// deadline. A reply that is there counts, however late it is.
pub fn wait_pumping<T>(received: Received<T>, now: u64, deadline: u64, timeout: u64) -> (r: Wait<T>)
    ensures
        received matches Received::Value(v) ==> r == Wait::Done(v),
        received is Disconnected ==> (r matches Wait::Failed(Error::CaptureFailed(message))
            && message@ == "回调未产生结果即被释放"@),
        received is Empty && now >= deadline ==> r == Wait::<T>::Failed(Error::Timeout(timeout)),
        received is Empty && now < deadline ==> r == Wait::<T>::Pump,
{
    match received {
        Received::Value(v) => Wait::Done(v),
        Received::Disconnected => Wait::Failed(
            Error::CaptureFailed("回调未产生结果即被释放".to_owned()),
        ),
        Received::Empty => if now >= deadline {
            Wait::Failed(Error::Timeout(timeout))
        } else {
            Wait::Pump
        },
    }
}

/// A reply holds an image if and only if it came with a size and with pixels. A failure
/// is passed on in its own words.
pub proof fn law_a_reply_with_pixels_is_an_image(reply: Reply)
    ensures
        reply_flaw(reply) is None <==> (reply matches Reply::Image { width, height, canvas } && width
            > 0 && height > 0 && canvas is Pixels),
        reply matches Reply::Failed(message) ==> reply_flaw(reply) == Some(message@),
{
}

} // verus!
