//! Tests of the event-handler chain, the key-to-camera input mapping, and
//! the per-frame driver.

use toroidal_life::advance_frame;
use toroidal_life::camera::Camera;
use toroidal_life::event_chain::key_pressed;
use toroidal_life::event_chain::ChainAction;
use toroidal_life::event_chain::ChainEvent;
use toroidal_life::event_chain::CloseHandler;
use toroidal_life::event_chain::DrawHandler;
use toroidal_life::event_chain::EventChain;
use toroidal_life::event_chain::EventChainElement;
use toroidal_life::event_chain::KeyCode;
use toroidal_life::event_chain::KeyboardHandler;
use toroidal_life::event_chain::MouseHandler;
use toroidal_life::life::Life;

fn standard_chain() -> EventChain {
    EventChain::new(vec![
        EventChainElement::Close(CloseHandler::new()),
        EventChainElement::Draw(DrawHandler::new()),
        EventChainElement::Keyboard(KeyboardHandler::new()),
        EventChainElement::Mouse(MouseHandler::new()),
    ])
}

#[test]
fn close_request_asks_for_exit() {
    let mut chain = standard_chain();
    let action = chain.handle_event(&ChainEvent::CloseRequested);
    assert_eq!(action, Some(ChainAction::Exit));
}

#[test]
fn resize_events_ask_for_a_resize() {
    let mut chain = standard_chain();
    assert_eq!(
        chain.handle_event(&ChainEvent::Resized { width: 640, height: 480 }),
        Some(ChainAction::Resize { width: 640, height: 480 })
    );
    assert_eq!(
        chain.handle_event(&ChainEvent::ScaleFactorChanged { width: 320, height: 240 }),
        Some(ChainAction::Resize { width: 320, height: 240 })
    );
}

#[test]
fn redraw_traffic_maps_to_draw_work() {
    let mut chain = standard_chain();
    assert_eq!(chain.handle_event(&ChainEvent::RedrawRequested), Some(ChainAction::Draw));
    assert_eq!(chain.handle_event(&ChainEvent::MainEventsCleared), Some(ChainAction::RequestRedraw));
}

#[test]
fn key_presses_are_reported_and_unknown_keys_swallowed() {
    let mut chain = standard_chain();
    assert_eq!(
        chain.handle_event(&ChainEvent::KeyPressed { key: KeyCode::W }),
        Some(ChainAction::Key { key: KeyCode::W })
    );
    assert_eq!(chain.handle_event(&ChainEvent::KeyPressedUnknown), Some(ChainAction::Ignore));
}

#[test]
fn unhandled_events_fall_through_the_chain() {
    let mut chain = standard_chain();
    assert_eq!(chain.handle_event(&ChainEvent::Other), None);
}

#[test]
fn mouse_clicks_report_the_last_cursor_position() {
    let mut chain = standard_chain();
    assert_eq!(
        chain.handle_event(&ChainEvent::MouseLeftPressed),
        Some(ChainAction::Clicked { x: 0, y: 0 })
    );
    assert_eq!(
        chain.handle_event(&ChainEvent::CursorMoved { x: 42, y: 17 }),
        Some(ChainAction::Ignore)
    );
    assert_eq!(
        chain.handle_event(&ChainEvent::MouseLeftPressed),
        Some(ChainAction::Clicked { x: 42, y: 17 })
    );
}

#[test]
fn earlier_handlers_take_priority() {
    let mut chain = EventChain::new(vec![
        EventChainElement::Keyboard(KeyboardHandler::new()),
        EventChainElement::Draw(DrawHandler::new()),
    ]);
    assert_eq!(chain.handle_event(&ChainEvent::RedrawRequested), Some(ChainAction::Draw));
    assert_eq!(
        chain.handle_event(&ChainEvent::KeyPressed { key: KeyCode::A }),
        Some(ChainAction::Key { key: KeyCode::A })
    );
}

#[test]
fn keys_map_to_the_documented_camera_motions() {
    let mut camera = Camera::new(100, 80);
    key_pressed(&mut camera, KeyCode::W);
    assert_eq!((camera.position_x, camera.position_y), (0, -5000));
    key_pressed(&mut camera, KeyCode::S);
    assert_eq!((camera.position_x, camera.position_y), (0, 0));
    key_pressed(&mut camera, KeyCode::A);
    assert_eq!((camera.position_x, camera.position_y), (5000, 0));
    key_pressed(&mut camera, KeyCode::D);
    assert_eq!((camera.position_x, camera.position_y), (0, 0));
    key_pressed(&mut camera, KeyCode::Up);
    assert_eq!(camera.scale, 1100);
    key_pressed(&mut camera, KeyCode::Down);
    assert_eq!(camera.scale, 990);
    let before = camera;
    key_pressed(&mut camera, KeyCode::Other);
    assert_eq!(camera, before);
}

#[test]
fn frame_regenerates_instances_only_after_camera_changes() {
    let mut state = vec![0u32; 100];
    state[2 + 2 * 10] = 1;
    state[3 + 2 * 10] = 1;
    state[2 + 3 * 10] = 1;
    state[3 + 3 * 10] = 1;
    let mut life = Life::from_state(10, 10, &state);
    let mut camera = Camera::new(10, 10);

    let first = advance_frame(&mut life, &mut camera);
    let instances = first.expect("a fresh camera must trigger instance generation");
    assert_eq!(instances.len(), 36);

    let second = advance_frame(&mut life, &mut camera);
    assert!(second.is_none());

    camera.translate(1000, 0);
    let third = advance_frame(&mut life, &mut camera);
    assert!(third.is_some());

    let buffer = life.life_buffer();
    for i in 0..buffer.len() {
        assert_eq!(buffer.get(i), state[i]);
    }
}
