//! Message types shared by the panels and their backends.

use vstd::prelude::*;

verus! {

/// Stable identity of a device: the object path of the D-Bus object that
/// describes it (for example `/org/freedesktop/UDisks2/block_devices/sdb1`).
#[derive(Debug, Clone, PartialEq, Eq, Hash)]
pub struct DeviceId(pub String);

impl DeviceId {
    /// A copy of this identity with the same text.
    pub fn duplicate(&self) -> (r: DeviceId)
        ensures
            r.0@ == self.0@,
    {
        DeviceId(self.0.clone())
    }
}

/// Severity of a status-line notification.
#[derive(Debug, Clone, Copy, PartialEq, Eq, Structural)]
pub enum ToastLevel {
    Info,
    Success,
    Warning,
    Error,
}

/// A short-lived notification shown in the status line.
#[derive(Debug, Clone)]
pub struct Toast {
    pub level: ToastLevel,
    pub text: String,
}

impl Toast {
    pub fn info(text: String) -> (r: Toast)
        ensures
            r.level == ToastLevel::Info,
            r.text@ == text@,
    {
        Toast { level: ToastLevel::Info, text }
    }

    pub fn success(text: String) -> (r: Toast)
        ensures
            r.level == ToastLevel::Success,
            r.text@ == text@,
    {
        Toast { level: ToastLevel::Success, text }
    }

    pub fn warn(text: String) -> (r: Toast)
        ensures
            r.level == ToastLevel::Warning,
            r.text@ == text@,
    {
        Toast { level: ToastLevel::Warning, text }
    }

    pub fn error(text: String) -> (r: Toast)
        ensures
            r.level == ToastLevel::Error,
            r.text@ == text@,
    {
        Toast { level: ToastLevel::Error, text }
    }
}

} // verus!
