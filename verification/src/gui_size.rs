//! Plugin window sizes and windowing APIs: every editor is freely resizable
//! between per-plugin bounds, embedded (never floating) in a Cocoa, Win32
//! or X11 parent.

use vstd::prelude::*;

verus! {

/// The plugins that ship an editor window.
#[derive(Clone, Copy, Debug, PartialEq, Eq, Structural)]
pub enum Editor {
    Filter,
    Formant,
    Granular,
    Harmonic,
    Kubyz,
    Limiter,
    Looper,
    MidSide,
    Nam,
}

/// Default, smallest and largest window size of one editor.
#[derive(Clone, Copy, Debug, PartialEq, Eq, Structural)]
pub struct GuiBounds {
    pub default_width: u32,
    pub default_height: u32,
    pub min_width: u32,
    pub min_height: u32,
    pub max_width: u32,
    pub max_height: u32,
}

impl GuiBounds {
    pub open spec fn wf(self) -> bool {
        &&& self.min_width <= self.default_width <= self.max_width
        &&& self.min_height <= self.default_height <= self.max_height
    }

    pub open spec fn table(e: Editor) -> GuiBounds {
        match e {
            Editor::Filter => GuiBounds::new_spec(560, 600, 460, 480, 1400, 1200),
            Editor::Formant => GuiBounds::new_spec(560, 720, 420, 520, 1400, 1200),
            Editor::Granular => GuiBounds::new_spec(520, 640, 400, 460, 1400, 1200),
            Editor::Harmonic => GuiBounds::new_spec(560, 620, 460, 500, 1400, 1200),
            Editor::Kubyz => GuiBounds::new_spec(760, 700, 540, 520, 1400, 1200),
            Editor::Limiter => GuiBounds::new_spec(460, 400, 360, 320, 1200, 900),
            Editor::Looper => GuiBounds::new_spec(720, 500, 560, 400, 1600, 1100),
            Editor::MidSide => GuiBounds::new_spec(460, 340, 360, 260, 1000, 700),
            Editor::Nam => GuiBounds::new_spec(580, 460, 460, 360, 1400, 1200),
        }
    }

    pub open spec fn new_spec(dw: u32, dh: u32, minw: u32, minh: u32, maxw: u32, maxh: u32) -> GuiBounds {
        GuiBounds {
            default_width: dw,
            default_height: dh,
            min_width: minw,
            min_height: minh,
            max_width: maxw,
            max_height: maxh,
        }
    }

    /// The size bounds of an editor.
    pub fn for_editor(e: Editor) -> (b: GuiBounds)
        ensures
            b == GuiBounds::table(e),
            b.wf(),
    {
        let (dw, dh, minw, minh, maxw, maxh): (u32, u32, u32, u32, u32, u32) = match e {
            Editor::Filter => (560, 600, 460, 480, 1400, 1200),
            Editor::Formant => (560, 720, 420, 520, 1400, 1200),
            Editor::Granular => (520, 640, 400, 460, 1400, 1200),
            Editor::Harmonic => (560, 620, 460, 500, 1400, 1200),
            Editor::Kubyz => (760, 700, 540, 520, 1400, 1200),
            Editor::Limiter => (460, 400, 360, 320, 1200, 900),
            Editor::Looper => (720, 500, 560, 400, 1600, 1100),
            Editor::MidSide => (460, 340, 360, 260, 1000, 700),
            Editor::Nam => (580, 460, 460, 360, 1400, 1200),
        };
        GuiBounds {
            default_width: dw,
            default_height: dh,
            min_width: minw,
            min_height: minh,
            max_width: maxw,
            max_height: maxh,
        }
    }

    /// A requested size pulled into the bounds, each side separately.
    pub open spec fn clamped(self, width: u32, height: u32) -> (u32, u32) {
        (clamp_spec(width, self.min_width, self.max_width), clamp_spec(height, self.min_height, self.max_height))
    }

    /// The size the editor accepts for a requested size.
    pub fn clamp_size(&self, width: u32, height: u32) -> (s: (u32, u32))
        requires
            self.wf(),
        ensures
            s == self.clamped(width, height),
    {
        (clamp_u32(width, self.min_width, self.max_width), clamp_u32(height, self.min_height, self.max_height))
    }
}

pub open spec fn clamp_spec(v: u32, lo: u32, hi: u32) -> u32 {
    if v < lo {
        lo
    } else if v > hi {
        hi
    } else {
        v
    }
}

fn clamp_u32(v: u32, lo: u32, hi: u32) -> (r: u32)
    requires
        lo <= hi,
    ensures
        r == clamp_spec(v, lo, hi),
{
    if v < lo {
        lo
    } else if v > hi {
        hi
    } else {
        v
    }
}

/// The preset an editor shows selected when it opens: the stored active
/// index, pulled onto the last preset when it is out of range (and 0 when
/// there are none).
pub fn initial_preset_index(active: u32, preset_count: usize) -> (i: usize)
    ensures
        i == if (active as int) < preset_count - 1 {
            active as int
        } else if preset_count > 0 {
            preset_count - 1
        } else {
            0
        },
{
    let last = if preset_count > 0 { preset_count - 1 } else { 0 };
    let a = active as usize;
    if a < last {
        a
    } else {
        last
    }
}

/// A windowing API a host may offer.
#[derive(Clone, Copy, Debug, PartialEq, Eq, Structural)]
pub enum GuiApi {
    Cocoa,
    Win32,
    X11,
    Other,
}

/// The operating system the plugin was built for.
#[derive(Clone, Copy, Debug, PartialEq, Eq, Structural)]
pub enum HostOs {
    MacOs,
    Windows,
    Unix,
}

/// Editors embed into Cocoa, Win32 or X11 parents and never float.
pub open spec fn api_supported(api: GuiApi, is_floating: bool) -> bool {
    !is_floating && api != GuiApi::Other
}

pub fn is_api_supported(api: GuiApi, is_floating: bool) -> (b: bool)
    ensures
        b == api_supported(api, is_floating),
{
    if is_floating {
        return false;
    }
    match api {
        GuiApi::Cocoa | GuiApi::Win32 | GuiApi::X11 => true,
        GuiApi::Other => false,
    }
}

pub open spec fn native_api(os: HostOs) -> GuiApi {
    match os {
        HostOs::MacOs => GuiApi::Cocoa,
        HostOs::Windows => GuiApi::Win32,
        HostOs::Unix => GuiApi::X11,
    }
}

/// The API an editor asks for: the platform's native one, embedded.
pub fn preferred_api(os: HostOs) -> (r: (GuiApi, bool))
    ensures
        r == (native_api(os), false),
{
    let api = match os {
        HostOs::MacOs => GuiApi::Cocoa,
        HostOs::Windows => GuiApi::Win32,
        HostOs::Unix => GuiApi::X11,
    };
    (api, false)
}

/// Every editor opens at a size it accepts; an accepted size lies within
/// the bounds, sizes already within them are kept, and accepting twice
/// changes nothing more.
pub proof fn lemma_size_bounds(e: Editor, width: u32, height: u32)
    ensures
        GuiBounds::table(e).wf(),
        GuiBounds::table(e).clamped(GuiBounds::table(e).default_width, GuiBounds::table(e).default_height) == (
            GuiBounds::table(e).default_width,
            GuiBounds::table(e).default_height,
        ),
        ({
            let b = GuiBounds::table(e);
            let (w, h) = b.clamped(width, height);
            &&& b.min_width <= w <= b.max_width
            &&& b.min_height <= h <= b.max_height
            &&& b.clamped(w, h) == (w, h)
            &&& (b.min_width <= width <= b.max_width && b.min_height <= height <= b.max_height) ==> (w, h) == (
                width,
                height,
            )
        }),
{
}

/// The preferred API is always one the editor supports.
pub proof fn lemma_preferred_api_supported(os: HostOs)
    ensures
        api_supported(native_api(os), false),
{
}

} // verus!
