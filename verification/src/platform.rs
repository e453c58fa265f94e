//! The platform state around the renderer: the one display, the pending
//! renderer handed over before a window exists, and the active window's
//! renderer slot. The platform is passed explicitly through entry points
//! rather than living in ambient global state, so window and renderer
//! attachment is checkable in isolation. The renderer handle type is the
//! host layer's.

use vstd::prelude::*;

verus! {

/// Identifies a display.
#[derive(Clone, Copy, Debug, PartialEq, Eq, Hash, Structural)]
pub struct DisplayId(pub u32);

/// The browser viewport, as the one display of the host.
#[derive(Clone, Copy, Debug, PartialEq, Eq, Structural)]
pub struct WebDisplay {
    pub id: DisplayId,
}

impl WebDisplay {
    /// The primary (and only) display.
    pub fn new() -> (r: WebDisplay)
        ensures
            r.id == DisplayId(0),
    {
        WebDisplay { id: DisplayId(0) }
    }

    /// This display's identifier.
    pub fn id(&self) -> (r: DisplayId)
        ensures
            r == self.id,
    {
        self.id
    }
}

/// A window: its renderer, once one is attached.
pub struct WebWindow<R> {
    pub renderer: Option<R>,
}

/// The platform: a renderer set aside for the next window, and the active
/// window, if one is open.
pub struct WebPlatform<R> {
    pub pending_renderer: Option<R>,
    pub active_window: Option<WebWindow<R>>,
}

impl<R> WebPlatform<R> {
    /// A fresh platform: no pending renderer, no window.
    pub fn new() -> (r: WebPlatform<R>)
        ensures
            r.pending_renderer is None,
            r.active_window is None,
    {
        WebPlatform { pending_renderer: None, active_window: None }
    }

    /// Take the renderer set aside for the next window, leaving none.
    pub fn take_pending_renderer(&mut self) -> (r: Option<R>)
        ensures
            r == old(self).pending_renderer,
            final(self).pending_renderer is None,
            final(self).active_window == old(self).active_window,
    {
        self.pending_renderer.take()
    }

    /// Open the window: it becomes the active window, and takes the pending
    /// renderer with it, so the texture atlas is usable from the start.
    pub fn open_window(&mut self)
        ensures
            final(self).pending_renderer is None,
            final(self).active_window == Some(
                WebWindow { renderer: old(self).pending_renderer },
            ),
    {
        let renderer = self.pending_renderer.take();
        self.active_window = Some(WebWindow { renderer });
    }
}

/// Set a renderer aside, before any window opens, to be attached to the next
/// window.
pub fn set_pending_renderer<R>(platform: &mut WebPlatform<R>, renderer: R)
    ensures
        final(platform).pending_renderer == Some(renderer),
        final(platform).active_window == old(platform).active_window,
{
    platform.pending_renderer = Some(renderer);
}

/// Attach a renderer to the active window. Without an active window the
/// renderer is dropped and nothing changes (the host logs this).
pub fn set_window_renderer<R>(platform: &mut WebPlatform<R>, renderer: R)
    ensures
        old(platform).active_window is Some ==> {
            &&& final(platform).active_window == Some(WebWindow { renderer: Some(renderer) })
            &&& final(platform).pending_renderer == old(platform).pending_renderer
        },
        old(platform).active_window is None ==> {
            &&& final(platform).active_window is None
            &&& final(platform).pending_renderer == old(platform).pending_renderer
        },
{
    match &mut platform.active_window {
        Some(window) => {
            window.renderer = Some(renderer);
        },
        None => {},
    }
}

/// The platform context the entry points thread through: created once by the
/// host, fresh and empty. The headless flag is accepted for call
/// compatibility; the browser host has exactly one mode.
pub fn current_platform<R>(headless: bool) -> (r: WebPlatform<R>)
    ensures
        r.pending_renderer is None,
        r.active_window is None,
{
    let _ = headless;
    WebPlatform::new()
}

} // verus!
