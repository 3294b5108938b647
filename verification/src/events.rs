use vstd::prelude::*;

verus! {

/// The phase of an event's propagation.
#[derive(Debug, Clone, Copy, PartialEq, Eq, Structural)]
pub enum EventPhase {
    /// The event has not been dispatched yet.
    NoPhase,
    /// The event travels down through the target's ancestors.
    Capturing,
    /// The event has reached its target.
    AtTarget,
    /// The event travels back up through the ancestors.
    Bubbling,
}

impl Default for EventPhase {
    fn default() -> (p: Self)
        ensures
            p == EventPhase::NoPhase,
    {
        EventPhase::NoPhase
    }
}

/// An event on its way through a tree: where it is, and what its
/// listeners asked of it so far. `I` is what the event carries.
#[derive(Debug)]
pub struct Event<T, I> {
    /// The element the event was first dispatched to.
    pub target: T,
    /// The element whose listeners run now.
    pub current_target: T,
    pub phase: EventPhase,
    propagation_stopped: bool,
    immediate_propagation_stopped: bool,
    default_prevented: bool,
    inner: I,
}

impl<T, I> Event<T, I> {
    pub closed spec fn spec_target(&self) -> T {
        self.target
    }

    pub closed spec fn spec_current_target(&self) -> T {
        self.current_target
    }

    pub closed spec fn spec_phase(&self) -> EventPhase {
        self.phase
    }

    pub closed spec fn spec_propagation_stopped(&self) -> bool {
        self.propagation_stopped
    }

    pub closed spec fn spec_immediate_propagation_stopped(&self) -> bool {
        self.immediate_propagation_stopped
    }

    pub closed spec fn spec_default_prevented(&self) -> bool {
        self.default_prevented
    }

    pub closed spec fn spec_inner(&self) -> I {
        self.inner
    }

    /// Whether the flags agree: stopping immediate propagation stops
    /// propagation too.
    pub open spec fn wf(&self) -> bool {
        self.spec_immediate_propagation_stopped() ==> self.spec_propagation_stopped()
    }

    /// A fresh event: not dispatched, nothing stopped or prevented.
    pub fn new(target: T, current_target: T, inner: I) -> (e: Self)
        ensures
            e.spec_target() == target,
            e.spec_current_target() == current_target,
            e.spec_phase() == EventPhase::NoPhase,
            !e.spec_propagation_stopped(),
            !e.spec_immediate_propagation_stopped(),
            !e.spec_default_prevented(),
            e.spec_inner() == inner,
            e.wf(),
    {
        Event {
            target,
            current_target,
            phase: EventPhase::NoPhase,
            propagation_stopped: false,
            immediate_propagation_stopped: false,
            default_prevented: false,
            inner,
        }
    }

    /// Stops the event from travelling to further elements.
    pub fn stop_propagation(&mut self)
        ensures
            final(self).spec_propagation_stopped(),
            final(self).spec_immediate_propagation_stopped() == old(
                self,
            ).spec_immediate_propagation_stopped(),
            final(self).spec_default_prevented() == old(self).spec_default_prevented(),
            final(self).spec_target() == old(self).spec_target(),
            final(self).spec_current_target() == old(self).spec_current_target(),
            final(self).spec_phase() == old(self).spec_phase(),
            final(self).spec_inner() == old(self).spec_inner(),
            final(self).wf(),
    {
        self.propagation_stopped = true;
    }

    /// Stops the event from reaching further elements, and further
    /// listeners of this one.
    pub fn stop_immediate_propagation(&mut self)
        ensures
            final(self).spec_propagation_stopped(),
            final(self).spec_immediate_propagation_stopped(),
            final(self).spec_default_prevented() == old(self).spec_default_prevented(),
            final(self).spec_target() == old(self).spec_target(),
            final(self).spec_current_target() == old(self).spec_current_target(),
            final(self).spec_phase() == old(self).spec_phase(),
            final(self).spec_inner() == old(self).spec_inner(),
            final(self).wf(),
    {
        self.propagation_stopped = true;
        self.immediate_propagation_stopped = true;
    }

    /// Asks that the event's default action not be taken.
    pub fn prevent_default(&mut self)
        ensures
            final(self).spec_default_prevented(),
            final(self).spec_propagation_stopped() == old(self).spec_propagation_stopped(),
            final(self).spec_immediate_propagation_stopped() == old(
                self,
            ).spec_immediate_propagation_stopped(),
            final(self).spec_target() == old(self).spec_target(),
            final(self).spec_current_target() == old(self).spec_current_target(),
            final(self).spec_phase() == old(self).spec_phase(),
            final(self).spec_inner() == old(self).spec_inner(),
            old(self).wf() ==> final(self).wf(),
    {
        self.default_prevented = true;
    }

    pub fn is_propagation_stopped(&self) -> (r: bool)
        ensures
            r == self.spec_propagation_stopped(),
    {
        self.propagation_stopped
    }

    pub fn is_immediate_propagation_stopped(&self) -> (r: bool)
        ensures
            r == self.spec_immediate_propagation_stopped(),
    {
        self.immediate_propagation_stopped
    }

    pub fn default_prevented(&self) -> (r: bool)
        ensures
            r == self.spec_default_prevented(),
    {
        self.default_prevented
    }

    /// What the event carries.
    pub fn inner(&self) -> (r: &I)
        ensures
            *r == self.spec_inner(),
    {
        &self.inner
    }
}

/// Focus event data: the element on the other side of the focus change.
#[derive(Debug, Clone)]
pub struct FocusEvent<T> {
    pub related_target: Option<T>,
}

/// Composition event data: the text being composed or committed.
#[derive(Debug, Clone)]
pub struct CompositionEvent {
    pub data: String,
}

/// The kind of an input operation.
#[derive(Debug, Clone, Copy, PartialEq, Eq, Structural)]
pub enum InputType {
    InsertText,
    InsertReplacementText,
    InsertLineBreak,
    InsertParagraph,
    InsertOrderedList,
    InsertUnorderedList,
    InsertHorizontalRule,
    InsertFromPaste,
    InsertFromDrop,
    InsertFromYank,
    InsertCompositionText,
    InsertLink,
    DeleteContentBackward,
    DeleteContentForward,
    DeleteWordBackward,
    DeleteWordForward,
    DeleteSoftLineBackward,
    DeleteSoftLineForward,
    DeleteHardLineBackward,
    DeleteHardLineForward,
    DeleteByCut,
    DeleteByDrag,
    DeleteContent,
    HistoryUndo,
    HistoryRedo,
    FormatBold,
    FormatItalic,
    FormatUnderline,
    FormatStrikeThrough,
    FormatSuperscript,
    FormatSubscript,
    FormatJustifyFull,
    FormatJustifyCenter,
    FormatJustifyRight,
    FormatJustifyLeft,
    FormatIndent,
    FormatOutdent,
    FormatRemove,
    FormatSetBlockTextDirection,
    FormatSetInlineTextDirection,
    FormatBackColor,
    FormatFontColor,
    FormatFontName,
}

/// Input event data.
#[derive(Debug, Clone)]
pub struct InputEvent {
    /// The inserted text, if any.
    pub data: Option<String>,
    /// Whether the input is part of an IME composition.
    pub is_composing: bool,
    pub input_type: InputType,
}

/// The mouse button that an event is about.
#[derive(Debug, Clone, Copy, PartialEq, Eq, Structural)]
pub enum MouseButton {
    /// Usually the left button.
    Primary,
    /// Usually the middle button or wheel.
    Auxiliary,
    /// Usually the right button.
    Secondary,
    /// Usually "back".
    Fourth,
    /// Usually "forward".
    Fifth,
}

/// The buttons held down: a set of flags, held as the bits of a `u16`.
#[derive(Debug, Clone, Copy, PartialEq, Eq, Structural)]
pub struct MouseButtons {
    pub bits: u16,
}

impl View for MouseButtons {
    type V = u16;

    open spec fn view(&self) -> u16 {
        self.bits
    }
}

pub const PRIMARY: u16 = 1;

pub const SECONDARY: u16 = 2;

pub const AUXILIARY: u16 = 4;

pub const FOURTH: u16 = 8;

pub const FIFTH: u16 = 16;

impl Default for MouseButtons {
    fn default() -> (b: Self)
        ensures
            b@ == 0,
    {
        MouseButtons { bits: 0 }
    }
}

impl MouseButtons {
    pub fn empty() -> (b: Self)
        ensures
            b@ == 0,
    {
        MouseButtons { bits: 0 }
    }

    /// The flag of one button.
    pub open spec fn spec_flag(button: MouseButton) -> u16 {
        match button {
            MouseButton::Primary => PRIMARY,
            MouseButton::Secondary => SECONDARY,
            MouseButton::Auxiliary => AUXILIARY,
            MouseButton::Fourth => FOURTH,
            MouseButton::Fifth => FIFTH,
        }
    }

    /// The set that holds just `button`.
    pub fn from_button(button: MouseButton) -> (b: Self)
        ensures
            b@ == Self::spec_flag(button),
    {
        let bits: u16 = match button {
            MouseButton::Primary => PRIMARY,
            MouseButton::Secondary => SECONDARY,
            MouseButton::Auxiliary => AUXILIARY,
            MouseButton::Fourth => FOURTH,
            MouseButton::Fifth => FIFTH,
        };
        MouseButtons { bits }
    }

    pub fn contains(&self, other: MouseButtons) -> (r: bool)
        ensures
            r == (self@ & other@ == other@),
    {
        self.bits & other.bits == other.bits
    }

    pub fn insert(&mut self, other: MouseButtons)
        ensures
            final(self)@ == old(self)@ | other@,
    {
        self.bits = self.bits | other.bits;
    }

    pub fn remove(&mut self, other: MouseButtons)
        ensures
            final(self)@ == old(self)@ & !other@,
    {
        self.bits = self.bits & !other.bits;
    }
}

/// The kind of pointing device.
#[derive(Debug, Clone, Copy, PartialEq, Eq, Structural)]
pub enum PointerType {
    Mouse,
    Pen,
    Touch,
}

impl Default for PointerType {
    fn default() -> (p: Self)
        ensures
            p == PointerType::Mouse,
    {
        PointerType::Mouse
    }
}

/// The unit of a wheel's deltas.
#[derive(Debug, Clone, Copy, PartialEq, Eq, Structural)]
pub enum DeltaMode {
    Pixel,
    Line,
    Page,
}

impl Default for DeltaMode {
    fn default() -> (d: Self)
        ensures
            d == DeltaMode::Pixel,
    {
        DeltaMode::Pixel
    }
}

/// Coordinates on the screen, from the top left of the primary monitor.
pub struct Screen;

/// Coordinates in the viewport, from its top left.
pub struct Client;

/// Coordinates in the document, from its top left, scrolling included.
pub struct Page;

/// Coordinates relative to the top left of the target element.
pub struct Offset;


/// Which of the built-in events an event is, without what it carries.
/// A custom event names itself.
#[derive(Debug, Clone, Copy, PartialEq, Eq, Structural)]
pub enum EventKind {
    Click,
    DblClick,
    MouseDown,
    MouseUp,
    MouseMove,
    MouseEnter,
    MouseLeave,
    MouseOver,
    MouseOut,
    ContextMenu,
    PointerDown,
    PointerUp,
    PointerMove,
    PointerEnter,
    PointerLeave,
    PointerOver,
    PointerOut,
    PointerCancel,
    GotPointerCapture,
    LostPointerCapture,
    Wheel,
    KeyDown,
    KeyUp,
    Focus,
    Blur,
    FocusIn,
    FocusOut,
    Input,
    BeforeInput,
    CompositionStart,
    CompositionUpdate,
    CompositionEnd,
}

/// The name a listener registers for an event of kind `k`.
pub open spec fn spec_event_name(k: EventKind) -> Seq<char> {
    match k {
        EventKind::Click => "click"@,
        EventKind::DblClick => "dblclick"@,
        EventKind::MouseDown => "mousedown"@,
        EventKind::MouseUp => "mouseup"@,
        EventKind::MouseMove => "mousemove"@,
        EventKind::MouseEnter => "mouseenter"@,
        EventKind::MouseLeave => "mouseleave"@,
        EventKind::MouseOver => "mouseover"@,
        EventKind::MouseOut => "mouseout"@,
        EventKind::ContextMenu => "contextmenu"@,
        EventKind::PointerDown => "pointerdown"@,
        EventKind::PointerUp => "pointerup"@,
        EventKind::PointerMove => "pointermove"@,
        EventKind::PointerEnter => "pointerenter"@,
        EventKind::PointerLeave => "pointerleave"@,
        EventKind::PointerOver => "pointerover"@,
        EventKind::PointerOut => "pointerout"@,
        EventKind::PointerCancel => "pointercancel"@,
        EventKind::GotPointerCapture => "gotpointercapture"@,
        EventKind::LostPointerCapture => "lostpointercapture"@,
        EventKind::Wheel => "wheel"@,
        EventKind::KeyDown => "keydown"@,
        EventKind::KeyUp => "keyup"@,
        EventKind::Focus => "focus"@,
        EventKind::Blur => "blur"@,
        EventKind::FocusIn => "focusin"@,
        EventKind::FocusOut => "focusout"@,
        EventKind::Input => "input"@,
        EventKind::BeforeInput => "beforeinput"@,
        EventKind::CompositionStart => "compositionstart"@,
        EventKind::CompositionUpdate => "compositionupdate"@,
        EventKind::CompositionEnd => "compositionend"@,
    }
}

impl EventKind {
    /// The event's name, as listeners register for it.
    pub fn name(&self) -> (r: &'static str)
        ensures
            r@ == spec_event_name(*self),
    {
        match self {
            EventKind::Click => "click",
            EventKind::DblClick => "dblclick",
            EventKind::MouseDown => "mousedown",
            EventKind::MouseUp => "mouseup",
            EventKind::MouseMove => "mousemove",
            EventKind::MouseEnter => "mouseenter",
            EventKind::MouseLeave => "mouseleave",
            EventKind::MouseOver => "mouseover",
            EventKind::MouseOut => "mouseout",
            EventKind::ContextMenu => "contextmenu",
            EventKind::PointerDown => "pointerdown",
            EventKind::PointerUp => "pointerup",
            EventKind::PointerMove => "pointermove",
            EventKind::PointerEnter => "pointerenter",
            EventKind::PointerLeave => "pointerleave",
            EventKind::PointerOver => "pointerover",
            EventKind::PointerOut => "pointerout",
            EventKind::PointerCancel => "pointercancel",
            EventKind::GotPointerCapture => "gotpointercapture",
            EventKind::LostPointerCapture => "lostpointercapture",
            EventKind::Wheel => "wheel",
            EventKind::KeyDown => "keydown",
            EventKind::KeyUp => "keyup",
            EventKind::Focus => "focus",
            EventKind::Blur => "blur",
            EventKind::FocusIn => "focusin",
            EventKind::FocusOut => "focusout",
            EventKind::Input => "input",
            EventKind::BeforeInput => "beforeinput",
            EventKind::CompositionStart => "compositionstart",
            EventKind::CompositionUpdate => "compositionupdate",
            EventKind::CompositionEnd => "compositionend",
        }
    }
}

} // verus!
