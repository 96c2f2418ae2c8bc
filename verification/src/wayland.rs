//! Wayland-specific extensions of the event loop, its builder, window
//! attributes and monitors, over the Linux platform's backend settings.

use vstd::prelude::*;

verus! {

/// The display-server backends of the Linux platform.
#[derive(Clone, Copy, Debug, PartialEq, Eq, Structural)]
pub enum Backend {
    X,
    Wayland,
}

/// Event-loop settings of the Linux platform.
#[derive(Clone, Copy, Debug, PartialEq, Eq, Structural)]
pub struct PlatformSpecificEventLoopAttributes {
    /// The backend to use, where the user forces one.
    pub forced_backend: Option<Backend>,
    /// Whether the event loop may be made off the main thread.
    pub any_thread: bool,
}

/// Builds an event loop from its settings.
#[derive(Clone, Copy, Debug, PartialEq, Eq, Structural)]
pub struct EventLoopBuilder {
    pub platform_specific: PlatformSpecificEventLoopAttributes,
}

/// An event loop of the Linux platform, run by one backend.
#[derive(Clone, Copy, Debug, PartialEq, Eq, Structural)]
pub struct EventLoop {
    pub backend: Backend,
}

/// The running event loop, as handed to the application, with the backend
/// that runs it.
#[derive(Clone, Copy, Debug, PartialEq, Eq, Structural)]
pub struct ActiveEventLoop {
    pub backend: Backend,
}

/// The application name that a Wayland window carries.
#[derive(Clone, Debug)]
pub struct ApplicationName {
    pub general: String,
    pub instance: String,
}

impl ApplicationName {
    pub fn new(general: String, instance: String) -> (r: Self)
        ensures
            r.general@ == general@,
            r.instance@ == instance@,
    {
        ApplicationName { general, instance }
    }
}

/// Window settings of the Linux platform.
#[derive(Clone, Debug)]
pub struct PlatformSpecificWindowAttributes {
    pub name: Option<ApplicationName>,
}

/// The attributes that a window is made with.
#[derive(Clone, Debug)]
pub struct WindowAttributes {
    pub platform_specific: PlatformSpecificWindowAttributes,
}

/// Additional methods on [`ActiveEventLoop`] that are specific to Wayland.
pub trait ActiveEventLoopExtWayland {
    /// True if the [`ActiveEventLoop`] uses Wayland.
    fn is_wayland(&self) -> bool;
}

impl ActiveEventLoopExtWayland for ActiveEventLoop {
    fn is_wayland(&self) -> (r: bool)
        ensures
            r == (self.backend == Backend::Wayland),
    {
        match self.backend {
            Backend::Wayland => true,
            Backend::X => false,
        }
    }
}

/// Additional methods on [`EventLoop`] that are specific to Wayland.
pub trait EventLoopExtWayland {
    /// True if the [`EventLoop`] uses Wayland.
    fn is_wayland(&self) -> bool;
}

impl EventLoopExtWayland for EventLoop {
    fn is_wayland(&self) -> (r: bool)
        ensures
            r == (self.backend == Backend::Wayland),
    {
        match self.backend {
            Backend::Wayland => true,
            Backend::X => false,
        }
    }
}

/// Additional methods on [`EventLoopBuilder`] that are specific to Wayland.
pub trait EventLoopBuilderExtWayland {
    /// Force using Wayland.
    fn with_wayland(&mut self) -> &mut Self;

    /// Whether to allow the event loop to be created off of the main thread.
    ///
    /// By default, the window is only allowed to be created on the main
    /// thread, to make platform compatibility easier.
    fn with_any_thread(&mut self, any_thread: bool) -> &mut Self;
}

impl EventLoopBuilderExtWayland for EventLoopBuilder {
    fn with_wayland(&mut self) -> (r: &mut Self)
        ensures
            r.platform_specific.forced_backend == Some(Backend::Wayland),
            r.platform_specific.any_thread == old(self).platform_specific.any_thread,
            *final(self) == *final(r),
    {
        self.platform_specific.forced_backend = Some(Backend::Wayland);
        self
    }

    fn with_any_thread(&mut self, any_thread: bool) -> (r: &mut Self)
        ensures
            r.platform_specific.any_thread == any_thread,
            r.platform_specific.forced_backend == old(self).platform_specific.forced_backend,
            *final(self) == *final(r),
    {
        self.platform_specific.any_thread = any_thread;
        self
    }
}

/// Additional methods on [`WindowAttributes`] that are specific to Wayland.
pub trait WindowAttributesExtWayland {
    /// Build window with the given name.
    ///
    /// The `general` name sets an application ID, which should match the `.desktop`
    /// file distributed with your program. The `instance` is a `no-op`.
    fn with_name(self, general: String, instance: String) -> Self;
}

impl WindowAttributesExtWayland for WindowAttributes {
    fn with_name(self, general: String, instance: String) -> (r: Self)
        ensures
            r.platform_specific.name matches Some(name) && name.general@ == general@
                && name.instance@ == instance@,
    {
        let mut attributes = self;
        attributes.platform_specific.name = Some(ApplicationName::new(general, instance));
        attributes
    }
}

/// A Wayland output, known by the identifier that the compositor gave it.
#[derive(Clone, Copy, Debug, PartialEq, Eq, Structural)]
pub struct MonitorHandle {
    pub native_identifier: u32,
}

/// Additional methods on `MonitorHandle` that are specific to Wayland.
pub trait MonitorHandleExtWayland {
    /// Returns the inner identifier of the monitor.
    fn native_id(&self) -> u32;
}

impl MonitorHandleExtWayland for MonitorHandle {
    fn native_id(&self) -> (r: u32)
        ensures
            r == self.native_identifier,
    {
        self.native_identifier
    }
}

} // verus!
