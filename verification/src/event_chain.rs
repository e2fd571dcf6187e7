//! The input handling chain: an ordered list of tagged handlers, each
//! offered every event in priority order; the first handler that consumes
//! an event short-circuits the chain and names the action the application
//! must perform.

use vstd::prelude::*;

verus! {

use crate::camera::spec_scaled;
use crate::camera::spec_translated;
use crate::camera::Camera;
use crate::camera::ZOOM_IN_FACTOR;
use crate::camera::ZOOM_OUT_FACTOR;

/// A key of interest to the viewer.
#[derive(Clone, Copy, Debug, PartialEq, Eq, Structural)]
pub enum KeyCode {
    W,
    A,
    S,
    D,
    Up,
    Down,
    Other,
}

/// A window or input event, reduced to the plain values the chain decides
/// on.
#[derive(Clone, Copy, Debug, PartialEq, Eq, Structural)]
pub enum ChainEvent {
    CloseRequested,
    Resized { width: u32, height: u32 },
    ScaleFactorChanged { width: u32, height: u32 },
    RedrawRequested,
    MainEventsCleared,
    KeyPressed { key: KeyCode },
    KeyPressedUnknown,
    CursorMoved { x: i64, y: i64 },
    MouseLeftPressed,
    Other,
}

/// What the application must do for a consumed event. `Ignore` means the
/// event was consumed but asks nothing further of the application.
#[derive(Clone, Copy, Debug, PartialEq, Eq, Structural)]
pub enum ChainAction {
    Exit,
    Resize { width: u32, height: u32 },
    Draw,
    RequestRedraw,
    Key { key: KeyCode },
    Clicked { x: i64, y: i64 },
    Ignore,
}

/// Consumes the close request and asks the application to exit.
pub struct CloseHandler {}

/// What the close handler answers to each event.
pub open spec fn close_response(event: ChainEvent) -> Option<ChainAction> {
    match event {
        ChainEvent::CloseRequested => Some(ChainAction::Exit),
        _ => None,
    }
}

impl CloseHandler {
    pub fn new() -> (r: CloseHandler) {
        CloseHandler {  }
    }

    pub fn handle(&mut self, event: &ChainEvent) -> (r: Option<ChainAction>)
        ensures
            r == close_response(*event),
    {
        match event {
            ChainEvent::CloseRequested => Some(ChainAction::Exit),
            _ => None,
        }
    }
}

/// Consumes resize and redraw traffic and turns it into drawing work.
pub struct DrawHandler {}

/// What the draw handler answers to each event.
pub open spec fn draw_response(event: ChainEvent) -> Option<ChainAction> {
    match event {
        ChainEvent::Resized { width, height } => Some(ChainAction::Resize { width, height }),
        ChainEvent::ScaleFactorChanged { width, height } => Some(
            ChainAction::Resize { width, height },
        ),
        ChainEvent::RedrawRequested => Some(ChainAction::Draw),
        ChainEvent::MainEventsCleared => Some(ChainAction::RequestRedraw),
        _ => None,
    }
}

impl DrawHandler {
    pub fn new() -> (r: DrawHandler) {
        DrawHandler {  }
    }

    pub fn handle(&mut self, event: &ChainEvent) -> (r: Option<ChainAction>)
        ensures
            r == draw_response(*event),
    {
        match event {
            ChainEvent::Resized { width, height } => Some(
                ChainAction::Resize { width: *width, height: *height },
            ),
            ChainEvent::ScaleFactorChanged { width, height } => Some(
                ChainAction::Resize { width: *width, height: *height },
            ),
            ChainEvent::RedrawRequested => Some(ChainAction::Draw),
            ChainEvent::MainEventsCleared => Some(ChainAction::RequestRedraw),
            _ => None,
        }
    }
}

/// Consumes key presses; a press without a recognisable key code is
/// swallowed without further work.
pub struct KeyboardHandler {}

/// What the keyboard handler answers to each event.
pub open spec fn keyboard_response(event: ChainEvent) -> Option<ChainAction> {
    match event {
        ChainEvent::KeyPressed { key } => Some(ChainAction::Key { key }),
        ChainEvent::KeyPressedUnknown => Some(ChainAction::Ignore),
        _ => None,
    }
}

impl KeyboardHandler {
    pub fn new() -> (r: KeyboardHandler) {
        KeyboardHandler {  }
    }

    pub fn handle(&mut self, event: &ChainEvent) -> (r: Option<ChainAction>)
        ensures
            r == keyboard_response(*event),
    {
        match event {
            ChainEvent::KeyPressed { key } => Some(ChainAction::Key { key: *key }),
            ChainEvent::KeyPressedUnknown => Some(ChainAction::Ignore),
            _ => None,
        }
    }
}

/// Remembers the cursor position and reports clicks at it, in physical
/// pixels.
#[derive(Clone, Copy, Debug, PartialEq, Eq, Structural)]
pub struct MouseHandler {
    pub x: i64,
    pub y: i64,
}

/// What the mouse handler answers to each event.
pub open spec fn mouse_response(m: MouseHandler, event: ChainEvent) -> Option<ChainAction> {
    match event {
        ChainEvent::CursorMoved { .. } => Some(ChainAction::Ignore),
        ChainEvent::MouseLeftPressed => Some(ChainAction::Clicked { x: m.x, y: m.y }),
        _ => None,
    }
}

/// The mouse handler's state after an event.
pub open spec fn mouse_next(m: MouseHandler, event: ChainEvent) -> MouseHandler {
    match event {
        ChainEvent::CursorMoved { x, y } => MouseHandler { x, y },
        _ => m,
    }
}

impl MouseHandler {
    pub fn new() -> (r: MouseHandler)
        ensures
            r == (MouseHandler { x: 0, y: 0 }),
    {
        MouseHandler { x: 0, y: 0 }
    }

    pub fn handle(&mut self, event: &ChainEvent) -> (r: Option<ChainAction>)
        ensures
            r == mouse_response(*old(self), *event),
            *final(self) == mouse_next(*old(self), *event),
    {
        match event {
            ChainEvent::CursorMoved { x, y } => {
                self.x = *x;
                self.y = *y;
                Some(ChainAction::Ignore)
            },
            ChainEvent::MouseLeftPressed => Some(ChainAction::Clicked { x: self.x, y: self.y }),
            _ => None,
        }
    }
}

/// One element of the handler chain, tagged by its kind.
pub enum EventChainElement {
    Close(CloseHandler),
    Draw(DrawHandler),
    Keyboard(KeyboardHandler),
    Mouse(MouseHandler),
}

/// What a chain element answers to an event.
pub open spec fn element_response(el: EventChainElement, event: ChainEvent) -> Option<
    ChainAction,
> {
    match el {
        EventChainElement::Close(_) => close_response(event),
        EventChainElement::Draw(_) => draw_response(event),
        EventChainElement::Keyboard(_) => keyboard_response(event),
        EventChainElement::Mouse(m) => mouse_response(m, event),
    }
}

/// A chain element's state after it is offered an event.
pub open spec fn element_next(el: EventChainElement, event: ChainEvent) -> EventChainElement {
    match el {
        EventChainElement::Mouse(m) => EventChainElement::Mouse(mouse_next(m, event)),
        _ => el,
    }
}

impl EventChainElement {
    pub fn handle(&mut self, event: &ChainEvent) -> (r: Option<ChainAction>)
        ensures
            r == element_response(*old(self), *event),
            *final(self) == element_next(*old(self), *event),
    {
        match self {
            EventChainElement::Close(h) => h.handle(event),
            EventChainElement::Draw(h) => h.handle(event),
            EventChainElement::Keyboard(h) => h.handle(event),
            EventChainElement::Mouse(h) => h.handle(event),
        }
    }
}

/// The answer of a whole chain: that of the first element to consume the
/// event, elements being tried in order.
pub open spec fn chain_response(els: Seq<EventChainElement>, event: ChainEvent) -> Option<
    ChainAction,
>
    decreases els.len(),
{
    if els.len() == 0 {
        None
    } else if element_response(els[0], event) is Some {
        element_response(els[0], event)
    } else {
        chain_response(els.drop_first(), event)
    }
}

/// The chain's elements after an event: every element up to and including
/// the consumer is offered the event; those after it are left untouched.
pub open spec fn chain_next(els: Seq<EventChainElement>, event: ChainEvent) -> Seq<
    EventChainElement,
>
    decreases els.len(),
{
    if els.len() == 0 {
        els
    } else if element_response(els[0], event) is Some {
        els.update(0, element_next(els[0], event))
    } else {
        seq![element_next(els[0], event)] + chain_next(els.drop_first(), event)
    }
}

/// The ordered handler chain.
pub struct EventChain {
    elements: Vec<EventChainElement>,
}

impl View for EventChain {
    type V = Seq<EventChainElement>;

    closed spec fn view(&self) -> Seq<EventChainElement> {
        self.elements@
    }
}

/// Walking past a prefix of non-consuming elements leaves the chain's
/// answer that of the remaining suffix, and the prefix elements in their
/// post-event states.
proof fn lemma_chain_skip(els: Seq<EventChainElement>, event: ChainEvent, i: int)
    requires
        0 <= i <= els.len(),
        forall|j: int| 0 <= j < i ==> element_response(#[trigger] els[j], event) is None,
    ensures
        chain_response(els, event) == chain_response(els.skip(i), event),
        chain_next(els, event) =~= Seq::new(i as nat, |j: int| element_next(els[j], event))
            + chain_next(els.skip(i), event),
    decreases i,
{
    if i == 0 {
        assert(els.skip(0) =~= els);
    } else {
        assert(element_response(els[0], event) is None);
        lemma_chain_skip(els.drop_first(), event, i - 1);
        assert(els.drop_first().skip(i - 1) =~= els.skip(i));
        assert(chain_next(els, event) =~= Seq::new(i as nat, |j: int| element_next(els[j], event))
            + chain_next(els.skip(i), event));
    }
}

impl EventChain {
    /// A chain trying the given handlers in order.
    pub fn new(elements: Vec<EventChainElement>) -> (r: EventChain)
        ensures
            r@ == elements@,
    {
        EventChain { elements }
    }

    /// Offer the event to each handler in order until one consumes it; the
    /// consumer's action, if any, is returned for the application to
    /// perform.
    pub fn handle_event(&mut self, event: &ChainEvent) -> (r: Option<ChainAction>)
        ensures
            r == chain_response(old(self)@, *event),
            final(self)@ == chain_next(old(self)@, *event),
    {
        let n = self.elements.len();
        let mut i: usize = 0;
        while i < n
            invariant
                i <= n,
                n == self.elements@.len(),
                n == old(self)@.len(),
                forall|j: int|
                    0 <= j < i ==> element_response(#[trigger] old(self)@[j], *event) is None,
                forall|j: int|
                    0 <= j < i ==> self.elements@[j] == element_next(
                        #[trigger] old(self)@[j],
                        *event,
                    ),
                forall|j: int| i <= j < n ==> self.elements@[j] == old(self)@[j],
            decreases n - i,
        {
            let element = &mut self.elements[i];
            let r = element.handle(event);
            if r.is_some() {
                proof {
                    lemma_chain_skip(old(self)@, *event, i as int);
                    assert(old(self)@.skip(i as int)[0] == old(self)@[i as int]);
                    assert(old(self)@.skip(i as int).update(
                        0,
                        element_next(old(self)@[i as int], *event),
                    ) =~= seq![element_next(old(self)@[i as int], *event)] + old(self)@.skip(
                        i as int + 1,
                    ));
                    assert(self.elements@ =~= chain_next(old(self)@, *event));
                }
                return r;
            }
            i = i + 1;
        }
        proof {
            lemma_chain_skip(old(self)@, *event, n as int);
            assert(old(self)@.skip(n as int).len() == 0);
            assert(self.elements@ =~= chain_next(old(self)@, *event));
        }
        None
    }
}

/// The input mapping: which camera motion each key produces. Panning keys
/// move one pan step; the zoom keys scale by the fixed zoom factors; any
/// other key leaves the camera untouched.
pub open spec fn key_effect(c: Camera, key: KeyCode) -> Camera {
    match key {
        KeyCode::W => spec_translated(c, 0, -c.speed as int),
        KeyCode::S => spec_translated(c, 0, c.speed as int),
        KeyCode::A => spec_translated(c, c.speed as int, 0),
        KeyCode::D => spec_translated(c, -c.speed as int, 0),
        KeyCode::Up => spec_scaled(c, ZOOM_IN_FACTOR as int),
        KeyCode::Down => spec_scaled(c, ZOOM_OUT_FACTOR as int),
        KeyCode::Other => c,
    }
}

/// Apply a pressed key to the camera, following the fixed input mapping.
pub fn key_pressed(camera: &mut Camera, key: KeyCode)
    requires
        old(camera).wf(),
    ensures
        final(camera).wf(),
        *final(camera) == key_effect(*old(camera), key),
{
    match key {
        KeyCode::W => camera.up(),
        KeyCode::S => camera.down(),
        KeyCode::A => camera.left(),
        KeyCode::D => camera.right(),
        KeyCode::Up => camera.zoom_in(),
        KeyCode::Down => camera.zoom_out(),
        KeyCode::Other => {},
    }
}

} // verus!
