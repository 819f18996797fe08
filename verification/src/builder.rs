//! The application builder: decides which platform path to take. The
//! platform layer supplies the compile-time platform flags and the OS name
//! and performs the actual window and renderer construction.

use vstd::prelude::*;

use crate::errors::AppInitError;

verus! {

/// The platform paths the application implements.
#[derive(Clone, Copy, Debug, PartialEq, Eq, Structural)]
pub enum Platform {
    Windows,
    Android,
}

/// Builds the application for the platform it runs on.
pub struct ApplicationBuilder {}

impl ApplicationBuilder {
    /// A new builder.
    pub fn new() -> Self {
        ApplicationBuilder {  }
    }

    /// Decides the platform path: windows first, then android, otherwise
    /// the OS is unsupported and its name is reported.
    pub fn select_platform(&self, is_windows: bool, is_android: bool, os_name: &str) -> (r: Result<
        Platform,
        AppInitError,
    >)
        ensures
            is_windows ==> (r matches Ok(p) && p == Platform::Windows),
            !is_windows && is_android ==> (r matches Ok(p) && p == Platform::Android),
            !is_windows && !is_android ==> (r matches Err(e) && (e matches
            AppInitError::OSNotSupported(n) && n@ == os_name@)),
    {
        if is_windows {
            Ok(Platform::Windows)
        } else if is_android {
            Ok(Platform::Android)
        } else {
            Err(AppInitError::OSNotSupported(os_name.to_owned()))
        }
    }
}

} // verus!
