//! The configuration an application and its window are built from.
use vstd::prelude::*;

verus! {

/// Window width used when none is configured.
pub const DEFAULT_WINDOW_WIDTH: u32 = 600;

/// Window height used when none is configured.
pub const DEFAULT_WINDOW_HEIGHT: u32 = 500;

/// Whether the window can be resized when nothing else is configured.
pub const DEFAULT_WINDOW_RESIZABLE: bool = true;

/// Describes the application to the engine.
#[derive(Clone, Debug)]
pub struct AppInfo {
    pub app_name: Option<String>,
    pub app_version: Option<u32>,
    pub resizable_window: bool,
}

impl Default for AppInfo {
    fn default() -> (r: Self)
        ensures
            r.app_name is None,
            r.app_version is None,
            !r.resizable_window,
    {
        AppInfo { app_name: None, app_version: None, resizable_window: false }
    }
}

/// The settings an application window is built with.
#[derive(Clone, Debug)]
pub struct LveApplicationBuilder {
    app_name: Option<String>,
    app_version: Option<u32>,
    window_name: String,
    window_width: u32,
    window_height: u32,
    window_resizable: bool,
}

impl LveApplicationBuilder {
    /// The application name handed to the renderer, if any.
    pub closed spec fn app_name_of(&self) -> Option<Seq<char>> {
        match self.app_name {
            Some(n) => Some(n@),
            None => None,
        }
    }

    /// The application version handed to the renderer, if any.
    pub closed spec fn app_version_of(&self) -> Option<u32> {
        self.app_version
    }

    /// The window's title.
    pub closed spec fn window_name_of(&self) -> Seq<char> {
        self.window_name@
    }

    /// The window's inner size, width first.
    pub closed spec fn window_size_of(&self) -> (u32, u32) {
        (self.window_width, self.window_height)
    }

    /// Whether the window can be resized.
    pub closed spec fn window_resizable_of(&self) -> bool {
        self.window_resizable
    }

    /// Sets the window's title.
    pub fn with_window_name(self, name: &str) -> (r: Self)
        ensures
            r.window_name_of() == name@,
            r.window_size_of() == self.window_size_of(),
            r.window_resizable_of() == self.window_resizable_of(),
            r.app_name_of() == self.app_name_of(),
            r.app_version_of() == self.app_version_of(),
    {
        LveApplicationBuilder { window_name: name.to_owned(), ..self }
    }

    /// Sets the window's inner size.
    pub fn with_window_size(self, width: u32, height: u32) -> (r: Self)
        ensures
            r.window_size_of() == (width, height),
            r.window_name_of() == self.window_name_of(),
            r.window_resizable_of() == self.window_resizable_of(),
            r.app_name_of() == self.app_name_of(),
            r.app_version_of() == self.app_version_of(),
    {
        LveApplicationBuilder { window_width: width, window_height: height, ..self }
    }

    /// Sets whether the window can be resized.
    pub fn with_resizable_window(self, resizable: bool) -> (r: Self)
        ensures
            r.window_resizable_of() == resizable,
            r.window_name_of() == self.window_name_of(),
            r.window_size_of() == self.window_size_of(),
            r.app_name_of() == self.app_name_of(),
            r.app_version_of() == self.app_version_of(),
    {
        LveApplicationBuilder { window_resizable: resizable, ..self }
    }

    /// The application name handed to the renderer, if any.
    pub fn app_name(&self) -> (r: Option<&str>)
        ensures
            r is Some == self.app_name_of() is Some,
            r matches Some(n) ==> self.app_name_of() == Some(n@),
    {
        match &self.app_name {
            Some(n) => Some(n.as_str()),
            None => None,
        }
    }

    /// The application version handed to the renderer, if any.
    pub fn app_version(&self) -> (r: Option<u32>)
        ensures
            r == self.app_version_of(),
    {
        self.app_version
    }

    /// The window's title.
    pub fn window_name(&self) -> (r: &str)
        ensures
            r@ == self.window_name_of(),
    {
        self.window_name.as_str()
    }

    /// The window's inner size, width first.
    pub fn window_size(&self) -> (r: (u32, u32))
        ensures
            r == self.window_size_of(),
    {
        (self.window_width, self.window_height)
    }

    /// Whether the window can be resized.
    pub fn window_resizable(&self) -> (r: bool)
        ensures
            r == self.window_resizable_of(),
    {
        self.window_resizable
    }
}

impl Default for LveApplicationBuilder {
    /// No application name or version, the title "LveEngine App", a window of
    /// 600 by 500 that can be resized.
    fn default() -> (r: Self)
        ensures
            r.app_name_of() is None,
            r.app_version_of() is None,
            r.window_name_of() == "LveEngine App"@,
            r.window_size_of() == (DEFAULT_WINDOW_WIDTH, DEFAULT_WINDOW_HEIGHT),
            r.window_resizable_of() == DEFAULT_WINDOW_RESIZABLE,
    {
        LveApplicationBuilder {
            app_name: None,
            app_version: None,
            window_name: "LveEngine App".to_owned(),
            window_width: DEFAULT_WINDOW_WIDTH,
            window_height: DEFAULT_WINDOW_HEIGHT,
            window_resizable: DEFAULT_WINDOW_RESIZABLE,
        }
    }
}

} // verus!
