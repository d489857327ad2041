//! Pointer events: what the hook captures of the raw messages it is called
//! with, and what the pipeline does with each captured event before it is
//! handed on.

use crate::get_browser_url::{
    browser_url, get_brower_url, resolved_locale, text_of, Element, LocaleCache, LocaleState,
};
use crate::monitor::{monitor_visible_processes, Hwnd, MonitoredWindows};
use vstd::prelude::*;

verus! {

/// What a pointer event reports.
#[derive(Clone, Copy, Debug, PartialEq, Eq, Structural)]
pub enum MouseEventType {
    MouseMove,
    LeftClickDown,
    LeftClickUp,
    RightClickDown,
    RightClickUp,
    MouseWheel,
}

/// A pointer event with the process that owned the foreground window when it
/// happened. The hook leaves `url` empty; the pipeline fills it in for clicks
/// inside a browser.
#[derive(Debug, PartialEq, Eq)]
pub struct MouseEvent {
    pub event_type: MouseEventType,
    pub position: (i32, i32),
    /// Milliseconds since the Unix epoch.
    pub timestamp: u64,
    pub process_name: String,
    pub url: Option<String>,
}

/// An event as plain values.
pub struct MouseEventView {
    pub event_type: MouseEventType,
    pub position: (i32, i32),
    pub timestamp: u64,
    pub process_name: Seq<char>,
    pub url: Option<Seq<char>>,
}

impl View for MouseEvent {
    type V = MouseEventView;

    open spec fn view(&self) -> MouseEventView {
        MouseEventView {
            event_type: self.event_type,
            position: self.position,
            timestamp: self.timestamp,
            process_name: self.process_name@,
            url: text_of(self.url),
        }
    }
}

impl MouseEvent {
    /// The event as the hook makes it: everything but the URL.
    pub fn new(
        event_type: MouseEventType,
        position: (i32, i32),
        timestamp: u64,
        process_name: String,
    ) -> (event: MouseEvent)
        ensures
            event@ == (MouseEventView {
                event_type,
                position,
                timestamp,
                process_name: process_name@,
                url: None,
            }),
    {
        MouseEvent { event_type, position, timestamp, process_name, url: None }
    }
}

/// Message identifier of a pointer move.
pub const WM_MOUSEMOVE: u32 = 0x0200;

/// Message identifier of the left button going down.
pub const WM_LBUTTONDOWN: u32 = 0x0201;

/// Message identifier of the left button going up.
pub const WM_LBUTTONUP: u32 = 0x0202;

/// Message identifier of the right button going down.
pub const WM_RBUTTONDOWN: u32 = 0x0204;

/// Message identifier of the right button going up.
pub const WM_RBUTTONUP: u32 = 0x0205;

/// Message identifier of a turn of the wheel.
pub const WM_MOUSEWHEEL: u32 = 0x020A;

/// The kind of pointer event that a message identifier stands for, if any.
pub open spec fn message_kind(message: u32) -> Option<MouseEventType> {
    if message == WM_MOUSEMOVE {
        Some(MouseEventType::MouseMove)
    } else if message == WM_LBUTTONDOWN {
        Some(MouseEventType::LeftClickDown)
    } else if message == WM_LBUTTONUP {
        Some(MouseEventType::LeftClickUp)
    } else if message == WM_RBUTTONDOWN {
        Some(MouseEventType::RightClickDown)
    } else if message == WM_RBUTTONUP {
        Some(MouseEventType::RightClickUp)
    } else if message == WM_MOUSEWHEEL {
        Some(MouseEventType::MouseWheel)
    } else {
        None
    }
}

/// Tells which kind of pointer event a message identifier stands for.
pub fn classify_message(message: u32) -> (kind: Option<MouseEventType>)
    ensures
        kind == message_kind(message),
{
    if message == WM_MOUSEMOVE {
        Some(MouseEventType::MouseMove)
    } else if message == WM_LBUTTONDOWN {
        Some(MouseEventType::LeftClickDown)
    } else if message == WM_LBUTTONUP {
        Some(MouseEventType::LeftClickUp)
    } else if message == WM_RBUTTONDOWN {
        Some(MouseEventType::RightClickDown)
    } else if message == WM_RBUTTONUP {
        Some(MouseEventType::RightClickUp)
    } else if message == WM_MOUSEWHEEL {
        Some(MouseEventType::MouseWheel)
    } else {
        None
    }
}

/// What the hook captures of one raw message: the kind of the message, if the
/// hook code is not negative, the foreground window is monitored and the
/// message is a pointer message; otherwise nothing.
pub open spec fn hook_decision(code: i32, message: u32, foreground: Hwnd, monitored: Set<Hwnd>)
    -> Option<MouseEventType> {
    if code >= 0 && monitored.contains(foreground) {
        message_kind(message)
    } else {
        None
    }
}

/// Decides for one call of the hook whether an event is captured, and of which
/// kind. Nothing is captured while the foreground window is not monitored.
/// Whatever the answer, the caller passes the message on to the next hook.
pub fn mouse_hook_proc(code: i32, message: u32, foreground: Hwnd, monitored: &MonitoredWindows)
    -> (captured: Option<MouseEventType>)
    ensures
        captured == hook_decision(code, message, foreground, monitored@),
{
    if code >= 0 && monitored.contains(foreground) {
        classify_message(message)
    } else {
        None
    }
}

/// One call of the hook: the raw message, the foreground window at that
/// moment, and the monitored set at that moment.
pub struct HookCall {
    pub code: i32,
    pub message: u32,
    pub foreground: Hwnd,
    pub monitored: Set<Hwnd>,
}

/// The kinds of the events that a sequence of hook calls captures, in the
/// order of the calls.
pub open spec fn captured_kinds(calls: Seq<HookCall>) -> Seq<MouseEventType>
    decreases calls.len(),
{
    if calls.len() == 0 {
        Seq::empty()
    } else {
        let earlier = captured_kinds(calls.drop_last());
        let call = calls.last();
        match hook_decision(call.code, call.message, call.foreground, call.monitored) {
            Some(kind) => earlier.push(kind),
            None => earlier,
        }
    }
}

/// Raw messages that all arrive while the foreground window is not monitored
/// lead to no event at all, however many they are.
pub proof fn lemma_unmonitored_windows_capture_nothing(calls: Seq<HookCall>)
    requires
        forall|i: int|
            0 <= i < calls.len() ==> !(#[trigger] calls[i]).monitored.contains(
                calls[i].foreground,
            ),
    ensures
        captured_kinds(calls) == Seq::<MouseEventType>::empty(),
    decreases calls.len(),
{
    if calls.len() > 0 {
        assert(!calls[calls.len() - 1].monitored.contains(calls[calls.len() - 1].foreground));
        lemma_unmonitored_windows_capture_nothing(calls.drop_last());
    }
}

/// Whether the kind of event is a button going down.
pub open spec fn is_press(kind: MouseEventType) -> bool {
    kind == MouseEventType::LeftClickDown || kind == MouseEventType::RightClickDown
}

/// Whether the executable is one of the browsers whose address bar can be
/// read: `chrome.exe`, `firefox.exe` or `msedge.exe`.
pub open spec fn is_browser_process(name: Seq<char>) -> bool {
    name == "chrome.exe"@ || name == "firefox.exe"@ || name == "msedge.exe"@
}

/// Whether the pipeline looks up the URL for the event: it does for a button
/// going down inside a browser, and for nothing else.
pub open spec fn wants_browser_url(event: MouseEventView) -> bool {
    is_browser_process(event.process_name) && is_press(event.event_type)
}

/// Whether the process name is exactly the given executable name.
fn is_executable(name: &String, executable: &str) -> (same: bool)
    ensures
        same == (name@ == executable@),
{
    let executable = executable.to_owned();
    *name == executable
}

/// Tells whether the pipeline looks up the URL for the event.
pub fn needs_browser_url(event: &MouseEvent) -> (wanted: bool)
    ensures
        wanted == wants_browser_url(event@),
{
    let press = event.event_type == MouseEventType::LeftClickDown || event.event_type
        == MouseEventType::RightClickDown;
    press && (is_executable(&event.process_name, "chrome.exe") || is_executable(
        &event.process_name,
        "firefox.exe",
    ) || is_executable(&event.process_name, "msedge.exe"))
}

/// What the pipeline does next with an event it took from the queue.
pub enum PipelineStep {
    /// Search the tree of the foreground window for the address bar, then
    /// hand the event with what was found to `attach_browser_url`.
    Search(MouseEvent),
    /// Hand the event to the sink as it is.
    Emit(MouseEvent),
}

/// Decides what happens to an event taken from the queue. A button going down
/// inside a browser calls for one search of the window's tree; every other
/// event goes to the sink untouched and without a search.
pub fn process_mouse_events(event: MouseEvent) -> (step: PipelineStep)
    ensures
        step == (if wants_browser_url(event@) {
            PipelineStep::Search(event)
        } else {
            PipelineStep::Emit(event)
        }),
{
    if needs_browser_url(&event) {
        PipelineStep::Search(event)
    } else {
        PipelineStep::Emit(event)
    }
}

/// The event with the URL that the search of `window` gave. Where the search
/// gave nothing the event stays as it was.
pub open spec fn with_browser_url(event: MouseEventView, found: Option<Seq<char>>)
    -> MouseEventView {
    MouseEventView {
        url: match found {
            Some(url) => Some(url),
            None => event.url,
        },
        ..event
    }
}

/// Completes a search step: looks up the URL in the tree of the foreground
/// window and attaches it to the event, which is then ready for the sink.
/// `window` is `None` where the tree could not be reached; then, as when no
/// address bar is found, the event keeps its empty URL. An event for which
/// the pipeline looks up no URL is handed back as it came, with no search
/// made and nothing learnt of the browser's labels.
pub fn attach_browser_url(event: MouseEvent, cache: &mut LocaleCache, window: Option<&Element>)
    -> (enriched: MouseEvent)
    ensures
        wants_browser_url(event@) ==> final(cache)@ == resolved_locale(old(cache)@, window),
        wants_browser_url(event@) ==> enriched@ == with_browser_url(
            event@,
            browser_url(final(cache)@, window),
        ),
        !wants_browser_url(event@) ==> final(cache)@ == old(cache)@,
        !wants_browser_url(event@) ==> enriched == event,
{
    if !needs_browser_url(&event) {
        return event;
    }
    let mut event = event;
    if let Some(url) = get_brower_url(cache, window) {
        event.url = Some(url);
    }
    event
}

/// The state that the three parts of a running listener work on.
pub struct Listener {
    /// The windows whose events the hook captures; the monitor keeps it up
    /// to date.
    pub monitored: MonitoredWindows,
    /// The labels of the browser, for the pipeline.
    pub locale: LocaleCache,
}

/// Sets a listener up: every window of `all_windows`, the visible top-level
/// windows at this moment, is monitored, and nothing is known yet of the
/// browser's labels.
pub fn start(all_windows: &[Hwnd]) -> (listener: Listener)
    ensures
        listener.monitored@ == all_windows@.to_set(),
        listener.locale@ == LocaleState::Unknown,
{
    let mut monitored = MonitoredWindows::new();
    monitor_visible_processes(&mut monitored, all_windows);
    assert(Set::<Hwnd>::empty().union(all_windows@.to_set()) =~= all_windows@.to_set());
    Listener { monitored, locale: LocaleCache::new() }
}

} // verus!
