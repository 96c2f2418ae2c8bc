use winit::wayland::{
    ActiveEventLoop, ActiveEventLoopExtWayland, Backend, EventLoop, EventLoopBuilder,
    EventLoopBuilderExtWayland, EventLoopExtWayland, MonitorHandle, MonitorHandleExtWayland,
    PlatformSpecificEventLoopAttributes, PlatformSpecificWindowAttributes, WindowAttributes,
    WindowAttributesExtWayland,
};

fn builder() -> EventLoopBuilder {
    EventLoopBuilder {
        platform_specific: PlatformSpecificEventLoopAttributes {
            forced_backend: None,
            any_thread: false,
        },
    }
}

#[test]
fn with_wayland_forces_the_backend() {
    let mut b = builder();
    b.with_wayland();
    assert_eq!(b.platform_specific.forced_backend, Some(Backend::Wayland));
    assert!(!b.platform_specific.any_thread);
}

#[test]
fn with_any_thread_sets_the_flag() {
    let mut b = builder();
    b.with_wayland().with_any_thread(true);
    assert_eq!(b.platform_specific.forced_backend, Some(Backend::Wayland));
    assert!(b.platform_specific.any_thread);
    b.with_any_thread(false);
    assert!(!b.platform_specific.any_thread);
}

#[test]
fn is_wayland_by_backend() {
    assert!(EventLoop { backend: Backend::Wayland }.is_wayland());
    assert!(!EventLoop { backend: Backend::X }.is_wayland());
    assert!(ActiveEventLoop { backend: Backend::Wayland }.is_wayland());
    assert!(!ActiveEventLoop { backend: Backend::X }.is_wayland());
}

#[test]
fn with_name_sets_application_name() {
    let attrs = WindowAttributes { platform_specific: PlatformSpecificWindowAttributes { name: None } };
    let attrs = attrs.with_name("org.example.App".to_string(), "main".to_string());
    let name = attrs.platform_specific.name.unwrap();
    assert_eq!(name.general, "org.example.App");
    assert_eq!(name.instance, "main");
}

#[test]
fn native_id_of_output() {
    assert_eq!(MonitorHandle { native_identifier: 17 }.native_id(), 17);
}
