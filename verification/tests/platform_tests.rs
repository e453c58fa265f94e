use atlas_render::dispatcher::{poll_global_dispatcher, WebDispatcher};
use atlas_render::events::{
    modifiers_from_keyboard_event, modifiers_from_mouse_event, mouse_button_from_browser,
    pressed_button_from_buttons, Modifiers, MouseButton, NavigationDirection,
};
use atlas_render::geometry::{DevicePixels, Size};
use atlas_render::http_stubs::HeaderValue;
use atlas_render::platform::{
    current_platform, set_pending_renderer, set_window_renderer, DisplayId, WebDisplay,
    WebPlatform,
};

#[test]
fn browser_button_numbers_map_to_buttons() {
    assert_eq!(mouse_button_from_browser(0), MouseButton::Left);
    assert_eq!(mouse_button_from_browser(1), MouseButton::Middle);
    assert_eq!(mouse_button_from_browser(2), MouseButton::Right);
    assert_eq!(
        mouse_button_from_browser(3),
        MouseButton::Navigate(NavigationDirection::Back)
    );
    assert_eq!(
        mouse_button_from_browser(4),
        MouseButton::Navigate(NavigationDirection::Forward)
    );
    assert_eq!(mouse_button_from_browser(7), MouseButton::Left);
    assert_eq!(mouse_button_from_browser(-1), MouseButton::Left);
}

#[test]
fn pressed_button_takes_the_lowest_set_bit_in_priority_order() {
    assert_eq!(pressed_button_from_buttons(0), None);
    assert_eq!(pressed_button_from_buttons(1), Some(MouseButton::Left));
    assert_eq!(pressed_button_from_buttons(2), Some(MouseButton::Right));
    assert_eq!(pressed_button_from_buttons(4), Some(MouseButton::Middle));
    assert_eq!(
        pressed_button_from_buttons(8),
        Some(MouseButton::Navigate(NavigationDirection::Back))
    );
    assert_eq!(
        pressed_button_from_buttons(16),
        Some(MouseButton::Navigate(NavigationDirection::Forward))
    );
    // Left wins over anything else.
    assert_eq!(pressed_button_from_buttons(1 | 4 | 16), Some(MouseButton::Left));
    // Right wins over middle.
    assert_eq!(pressed_button_from_buttons(2 | 4), Some(MouseButton::Right));
    assert_eq!(pressed_button_from_buttons(32), None);
}

#[test]
fn modifiers_carry_over_and_function_reads_released() {
    let m = modifiers_from_mouse_event(true, false, true, false);
    assert_eq!(
        m,
        Modifiers { control: true, alt: false, shift: true, platform: false, function: false }
    );
    let k = modifiers_from_keyboard_event(false, true, false, true);
    assert_eq!(
        k,
        Modifiers { control: false, alt: true, shift: false, platform: true, function: false }
    );
}

#[test]
fn dispatcher_polls_tasks_in_dispatch_order() {
    let mut d: WebDispatcher<u32> = WebDispatcher::new();
    assert!(d.is_main_thread());
    d.dispatch(1);
    d.dispatch_on_main_thread(2);
    d.dispatch(3);
    let tasks = poll_global_dispatcher(&mut d);
    assert_eq!(tasks, vec![1, 2, 3]);
    assert_eq!(poll_global_dispatcher(&mut d), Vec::<u32>::new());
}

#[test]
fn pending_renderer_attaches_to_the_opened_window() {
    let mut platform: WebPlatform<&'static str> = current_platform(false);
    set_pending_renderer(&mut platform, "renderer");
    platform.open_window();
    let window = platform.active_window.as_ref().expect("a window is open");
    assert_eq!(window.renderer, Some("renderer"));
    assert!(platform.take_pending_renderer().is_none());
}

#[test]
fn window_renderer_attaches_only_with_an_active_window() {
    let mut platform: WebPlatform<u8> = WebPlatform::new();
    set_window_renderer(&mut platform, 7);
    assert!(platform.active_window.is_none());

    platform.open_window();
    set_window_renderer(&mut platform, 9);
    assert_eq!(platform.active_window.as_ref().unwrap().renderer, Some(9));
}

#[test]
fn display_and_header_value() {
    let display = WebDisplay::new();
    assert_eq!(display.id(), DisplayId(0));

    let header = HeaderValue::from_str("text/html").expect("every string is accepted");
    assert_eq!(header.0, "text/html");
}

#[test]
fn size_max_is_component_wise() {
    let a = Size { width: DevicePixels(100), height: DevicePixels(900) };
    let b = Size { width: DevicePixels(500), height: DevicePixels(40) };
    let m = a.max(&b);
    assert_eq!(m.width.0, 500);
    assert_eq!(m.height.0, 900);
}
