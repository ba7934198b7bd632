//! What a user-interface platform offers, and the platform that offers nothing.

use vstd::prelude::*;
use crate::text::{owned, append_str};

verus! {

/// A window, by its identifier. The platform's own handle is an opaque number.
#[derive(Debug, Clone)]
pub struct WindowHandle {
    pub id: String,
    pub platform_handle: PlatformWindowHandle,
}

/// A button, by its identifier.
#[derive(Debug, Clone)]
pub struct ButtonHandle {
    pub id: String,
    pub platform_handle: PlatformButtonHandle,
}

/// A label, by its identifier.
#[derive(Debug, Clone)]
pub struct LabelHandle {
    pub id: String,
    pub platform_handle: PlatformLabelHandle,
}

/// A platform's handle of a window; 0 where the platform keeps none.
#[derive(Debug, Clone, Copy)]
pub struct PlatformWindowHandle {
    pub data: usize,
}

/// A platform's handle of a button; 0 where the platform keeps none.
#[derive(Debug, Clone, Copy)]
pub struct PlatformButtonHandle {
    pub data: usize,
}

/// A platform's handle of a label; 0 where the platform keeps none.
#[derive(Debug, Clone, Copy)]
pub struct PlatformLabelHandle {
    pub data: usize,
}

/// Features a platform may or may not have.
#[derive(Debug, Clone, Copy, PartialEq, Eq, Structural)]
pub enum UIFeature {
    NativeMenus,
    SystemTray,
    MultipleWindows,
    CustomTheming,
    HardwareAcceleration,
    WebAssemblyIntegration,
}

/// The name of a feature, as `{:?}` writes it.
pub open spec fn feature_name(f: UIFeature) -> Seq<char> {
    match f {
        UIFeature::NativeMenus => "NativeMenus"@,
        UIFeature::SystemTray => "SystemTray"@,
        UIFeature::MultipleWindows => "MultipleWindows"@,
        UIFeature::CustomTheming => "CustomTheming"@,
        UIFeature::HardwareAcceleration => "HardwareAcceleration"@,
        UIFeature::WebAssemblyIntegration => "WebAssemblyIntegration"@,
    }
}

/// Why a user-interface operation failed.
#[derive(Debug, PartialEq)]
pub enum UIError {
    PlatformError(String),
    WindowError(String),
    WidgetError(String),
    EventLoopError(String),
    UnsupportedFeature(UIFeature),
    ResourceError(String),
}

/// The message of an error.
pub open spec fn ui_error_message(e: UIError) -> Seq<char> {
    match e {
        UIError::PlatformError(m) => "Platform error: "@ + m@,
        UIError::WindowError(m) => "Window error: "@ + m@,
        UIError::WidgetError(m) => "Widget error: "@ + m@,
        UIError::EventLoopError(m) => "Event loop error: "@ + m@,
        UIError::UnsupportedFeature(f) => "Unsupported feature: "@ + feature_name(f),
        UIError::ResourceError(m) => "Resource error: "@ + m@,
    }
}

fn feature_text(f: UIFeature) -> (r: &'static str)
    ensures
        r@ == feature_name(f),
{
    match f {
        UIFeature::NativeMenus => "NativeMenus",
        UIFeature::SystemTray => "SystemTray",
        UIFeature::MultipleWindows => "MultipleWindows",
        UIFeature::CustomTheming => "CustomTheming",
        UIFeature::HardwareAcceleration => "HardwareAcceleration",
        UIFeature::WebAssemblyIntegration => "WebAssemblyIntegration",
    }
}

impl UIError {
    /// What went wrong, in words.
    pub fn message(&self) -> (r: String)
        ensures
            r@ == ui_error_message(*self),
    {
        match self {
            UIError::PlatformError(m) => {
                let mut r = owned("Platform error: ");
                append_str(&mut r, m.as_str());
                r
            },
            UIError::WindowError(m) => {
                let mut r = owned("Window error: ");
                append_str(&mut r, m.as_str());
                r
            },
            UIError::WidgetError(m) => {
                let mut r = owned("Widget error: ");
                append_str(&mut r, m.as_str());
                r
            },
            UIError::EventLoopError(m) => {
                let mut r = owned("Event loop error: ");
                append_str(&mut r, m.as_str());
                r
            },
            UIError::UnsupportedFeature(f) => {
                let mut r = owned("Unsupported feature: ");
                append_str(&mut r, feature_text(*f));
                r
            },
            UIError::ResourceError(m) => {
                let mut r = owned("Resource error: ");
                append_str(&mut r, m.as_str());
                r
            },
        }
    }

    /// The error as it is shown to users: `UI Error: ` and its message.
    pub fn to_string(&self) -> (r: String)
        ensures
            r@ == "UI Error: "@ + ui_error_message(*self),
    {
        let mut r = owned("UI Error: ");
        append_str(&mut r, self.message().as_str());
        r
    }

    /// The error's description: the text users are shown.
    pub fn description(&self) -> (r: Option<String>)
        ensures
            r matches Some(d) && d@ == "UI Error: "@ + ui_error_message(*self),
    {
        Some(self.to_string())
    }
}

/// A user-interface platform.
pub trait UIPlatform {
    /// Creates a window.
    fn create_window(&mut self, title: &str, width: u32, height: u32, id: &str) -> Result<WindowHandle, UIError>;

    /// Creates a button in a window.
    fn create_button(&mut self, window: &WindowHandle, id: &str, label: &str, x: u32, y: u32, width: u32) -> Result<ButtonHandle, UIError>;

    /// Creates a label in a window.
    fn create_label(&mut self, window: &WindowHandle, id: &str, text: &str, x: u32, y: u32) -> Result<LabelHandle, UIError>;

    /// Shows a window.
    fn show_window(&mut self, window: &WindowHandle) -> Result<(), UIError>;

    /// Hides a window.
    fn hide_window(&mut self, window: &WindowHandle) -> Result<(), UIError>;

    /// Whether a button was clicked since its click was last reset.
    fn button_clicked(&self, button: &ButtonHandle) -> bool;

    /// Forgets a button's click.
    fn reset_button_click(&mut self, button: &ButtonHandle);

    /// The text of an input field.
    fn get_input_value(&self, window: &WindowHandle, input_id: &str) -> Result<String, UIError>;

    /// Sets the text of an input field.
    fn set_input_value(&mut self, window: &WindowHandle, input_id: &str, value: &str) -> Result<(), UIError>;

    /// Starts the event loop.
    fn run_event_loop(&mut self) -> Result<(), UIError>;

    /// Stops the event loop.
    fn stop_event_loop(&mut self) -> Result<(), UIError>;

    /// The platform's name.
    fn platform_name(&self) -> &'static str;

    /// Whether the platform has a feature.
    fn supports_feature(&self, feature: UIFeature) -> bool;
}

/// The platform where no user interface is available: everything fails.
pub struct UnsupportedPlatform;

fn not_supported() -> (r: UIError)
    ensures
        r matches UIError::PlatformError(m) && m@ == "UI not supported on this platform"@,
{
    UIError::PlatformError(owned("UI not supported on this platform"))
}

pub open spec fn is_not_supported(e: UIError) -> bool {
    e matches UIError::PlatformError(m) && m@ == "UI not supported on this platform"@
}

impl UIPlatform for UnsupportedPlatform {
    fn create_window(&mut self, title: &str, width: u32, height: u32, id: &str) -> (r: Result<WindowHandle, UIError>)
        ensures
            r matches Err(e) && is_not_supported(e),
    {
        Err(not_supported())
    }

    fn create_button(&mut self, window: &WindowHandle, id: &str, label: &str, x: u32, y: u32, width: u32) -> (r: Result<ButtonHandle, UIError>)
        ensures
            r matches Err(e) && is_not_supported(e),
    {
        Err(not_supported())
    }

    fn create_label(&mut self, window: &WindowHandle, id: &str, text: &str, x: u32, y: u32) -> (r: Result<LabelHandle, UIError>)
        ensures
            r matches Err(e) && is_not_supported(e),
    {
        Err(not_supported())
    }

    fn show_window(&mut self, window: &WindowHandle) -> (r: Result<(), UIError>)
        ensures
            r matches Err(e) && is_not_supported(e),
    {
        Err(not_supported())
    }

    fn hide_window(&mut self, window: &WindowHandle) -> (r: Result<(), UIError>)
        ensures
            r matches Err(e) && is_not_supported(e),
    {
        Err(not_supported())
    }

    fn button_clicked(&self, button: &ButtonHandle) -> (r: bool)
        ensures
            !r,
    {
        false
    }

    fn reset_button_click(&mut self, button: &ButtonHandle) {
    }

    fn get_input_value(&self, window: &WindowHandle, input_id: &str) -> (r: Result<String, UIError>)
        ensures
            r matches Err(e) && is_not_supported(e),
    {
        Err(not_supported())
    }

    fn set_input_value(&mut self, window: &WindowHandle, input_id: &str, value: &str) -> (r: Result<(), UIError>)
        ensures
            r matches Err(e) && is_not_supported(e),
    {
        Err(not_supported())
    }

    fn run_event_loop(&mut self) -> (r: Result<(), UIError>)
        ensures
            r matches Err(e) && is_not_supported(e),
    {
        Err(not_supported())
    }

    fn stop_event_loop(&mut self) -> (r: Result<(), UIError>)
        ensures
            r matches Err(e) && is_not_supported(e),
    {
        Err(not_supported())
    }

    fn platform_name(&self) -> (r: &'static str)
        ensures
            r@ == "Unsupported"@,
    {
        "Unsupported"
    }

    fn supports_feature(&self, feature: UIFeature) -> (r: bool)
        ensures
            !r,
    {
        false
    }
}

} // verus!
