//! `mantle.windows`: every open toplevel window, for taskbars, docks and alt-tab.

use vstd::prelude::*;

pub mod controller;
pub mod wlr;

use self::controller::{Backend, WindowCommand, WindowRequest, WindowsController};

verus! {

// An action a backend does not support does nothing.
#[derive(Debug, PartialEq, Eq)]
pub enum WindowsAction {
    /// Focuses a window.
    Focus { id: String },
    /// Asks the compositor to close the window.
    Close { id: String },
    /// Sets fullscreen on or off; no-op on niri.
    SetFullscreen { id: String, fullscreen: bool },
    /// Sets minimized on or off; wlr only.
    SetMinimized { id: String, minimized: bool },
    /// Sets maximized on or off; no-op on niri.
    SetMaximized { id: String, maximized: bool },
}

/// The window an action is for.
pub open spec fn window_of(action: WindowsAction) -> Seq<char> {
    match action {
        WindowsAction::Focus { id } => id@,
        WindowsAction::Close { id } => id@,
        WindowsAction::SetFullscreen { id, .. } => id@,
        WindowsAction::SetMinimized { id, .. } => id@,
        WindowsAction::SetMaximized { id, .. } => id@,
    }
}

/// What an action asks of a backend that reported `state`.
pub open spec fn request_of(
    action: WindowsAction,
    backend: Backend,
    state: controller::WindowsState,
) -> Option<WindowRequest> {
    match action {
        WindowsAction::Focus { id } => controller::focus_request(backend),
        WindowsAction::Close { id } => controller::close_request(backend),
        WindowsAction::SetFullscreen { id, fullscreen } => controller::fullscreen_request(
            backend,
            state,
            id@,
            fullscreen,
        ),
        WindowsAction::SetMinimized { id, minimized } => controller::minimized_request(backend, minimized),
        WindowsAction::SetMaximized { id, maximized } => controller::maximized_request(
            backend,
            state,
            id@,
            maximized,
        ),
    }
}

/// Routes an action. What comes of it names the action's window.
pub fn dispatch(controller: &WindowsController, action: &WindowsAction) -> (command: Option<WindowCommand>)
    ensures
        controller::command_view(command) == controller::made_for(
            request_of(*action, controller.backend(), controller.state()),
            window_of(*action),
        ),
{
    match action {
        WindowsAction::Focus { id } => controller.focus(id.as_str()),
        WindowsAction::Close { id } => controller.close(id.as_str()),
        WindowsAction::SetFullscreen { id, fullscreen } => controller.set_fullscreen(id.as_str(), *fullscreen),
        WindowsAction::SetMinimized { id, minimized } => controller.set_minimized(id.as_str(), *minimized),
        WindowsAction::SetMaximized { id, maximized } => controller.set_maximized(id.as_str(), *maximized),
    }
}

/// An action goes to the window it names, as the compositor in charge is asked for it, and nowhere
/// without one.
pub proof fn an_action_goes_to_its_window(backend: Backend, state: controller::WindowsState, id: String, flag: bool)
    ensures
        window_of(WindowsAction::Focus { id }) == id@,
        window_of(WindowsAction::Close { id }) == id@,
        window_of(WindowsAction::SetFullscreen { id, fullscreen: flag }) == id@,
        window_of(WindowsAction::SetMinimized { id, minimized: flag }) == id@,
        window_of(WindowsAction::SetMaximized { id, maximized: flag }) == id@,
        request_of(WindowsAction::Focus { id }, backend, state) == controller::focus_request(backend),
        request_of(WindowsAction::Close { id }, backend, state) == controller::close_request(backend),
        request_of(WindowsAction::SetFullscreen { id, fullscreen: flag }, backend, state)
            == controller::fullscreen_request(backend, state, id@, flag),
        request_of(WindowsAction::SetMinimized { id, minimized: flag }, backend, state) == controller::minimized_request(
            backend,
            flag,
        ),
        request_of(WindowsAction::SetMaximized { id, maximized: flag }, backend, state) == controller::maximized_request(
            backend,
            state,
            id@,
            flag,
        ),
        backend is Wlr ==> request_of(WindowsAction::SetMaximized { id, maximized: flag }, backend, state) == Some(
            controller::WindowRequest::WlrMaximized(flag),
        ),
        backend is Wlr ==> request_of(WindowsAction::SetMinimized { id, minimized: flag }, backend, state) == Some(
            controller::WindowRequest::WlrMinimized(flag),
        ),
        backend is Wlr ==> request_of(WindowsAction::SetFullscreen { id, fullscreen: flag }, backend, state) == Some(
            controller::WindowRequest::WlrFullscreen(flag),
        ),
{
}

} // verus!
