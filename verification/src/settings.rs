//! The settings of the application, and how the settings file and the
//! command line change them.

use vstd::prelude::*;

verus! {

/// The command line settings model
#[derive(Debug)]
pub struct CLISettingsConfiguration {
    /// The data path
    pub data_path: Option<String>,
    /// The window width in pixels
    pub window_width: Option<u32>,
    /// The window height in pixels
    pub window_height: Option<u32>,
}

/// The settings file model
#[derive(Debug)]
pub struct FileSettingsConfiguration {
    /// The data path
    pub data_path: Option<String>,
    /// The window width in pixels
    pub window_width: u32,
    /// The window height in pixels
    pub window_height: u32,
}

/// Models application settings
#[derive(Debug)]
pub struct Settings {
    /// The data path contains all the static application data
    data_path: String,
    /// The window width in pixels
    window_width: u32,
    /// The window height in pixels
    window_height: u32,
}

/// What the settings hold.
pub struct SettingsView {
    /// The data path
    pub data_path: Seq<char>,
    /// The window width in pixels
    pub window_width: u32,
    /// The window height in pixels
    pub window_height: u32,
}

/// The text of a path that may be missing.
pub open spec fn text(path: Option<String>) -> Option<Seq<char>> {
    match path {
        Some(path) => Some(path@),
        None => None,
    }
}

impl SettingsView {
    /// The settings before any configuration is applied: a window of 800 by
    /// 600 pixels, and the data path that was found, or the empty path.
    pub open spec fn initial(data_path: Option<Seq<char>>) -> SettingsView {
        SettingsView {
            data_path: match data_path {
                Some(path) => path,
                None => Seq::empty(),
            },
            window_width: 800,
            window_height: 600,
        }
    }

    /// The settings after the settings file has been applied: the file sets
    /// the size of the window, and the data path where it names one.
    pub open spec fn with_file(
        self,
        data_path: Option<Seq<char>>,
        window_width: u32,
        window_height: u32,
    ) -> SettingsView {
        SettingsView {
            data_path: match data_path {
                Some(path) => path,
                None => self.data_path,
            },
            window_width,
            window_height,
        }
    }

    /// The settings after the command line has been applied: each argument
    /// that is given sets its setting.
    pub open spec fn with_arguments(
        self,
        data_path: Option<Seq<char>>,
        window_width: Option<u32>,
        window_height: Option<u32>,
    ) -> SettingsView {
        SettingsView {
            data_path: match data_path {
                Some(path) => path,
                None => self.data_path,
            },
            window_width: match window_width {
                Some(width) => width,
                None => self.window_width,
            },
            window_height: match window_height {
                Some(height) => height,
                None => self.window_height,
            },
        }
    }

    /// The settings after the settings file, where there is one, has been
    /// applied.
    pub open spec fn with_optional_file(
        self,
        file: Option<FileSettingsConfiguration>,
    ) -> SettingsView {
        match file {
            Some(file) => self.with_file(
                text(file.data_path),
                file.window_width,
                file.window_height,
            ),
            None => self,
        }
    }
}

impl View for Settings {
    type V = SettingsView;

    closed spec fn view(&self) -> SettingsView {
        SettingsView {
            data_path: self.data_path@,
            window_width: self.window_width,
            window_height: self.window_height,
        }
    }
}

impl Settings {
    /// Creates the settings from the data path that was found, if any, and
    /// then applies the configurations of the settings file, if there is
    /// one, and of the command line (in that order) on top of that
    pub fn load(
        data_path: Option<String>,
        file: Option<FileSettingsConfiguration>,
        arguments: CLISettingsConfiguration,
    ) -> (settings: Settings)
        ensures
            settings@ == SettingsView::initial(text(data_path)).with_optional_file(
                file,
            ).with_arguments(
                text(arguments.data_path),
                arguments.window_width,
                arguments.window_height,
            ),
    {
        let mut settings = Settings::initial(data_path);
        match file {
            Some(file) => {
                settings.apply_file(file);
            },
            None => {},
        }
        settings.apply_command_line_arguments(arguments);
        settings
    }

    /// Returns the settings before any configuration is applied
    pub fn initial(data_path: Option<String>) -> (settings: Settings)
        ensures
            settings@ == SettingsView::initial(text(data_path)),
    {
        Settings {
            data_path: match data_path {
                Some(path) => path,
                None => String::new(),
            },
            window_width: 800,
            window_height: 600,
        }
    }

    /// Returns the data path
    pub fn data_path(&self) -> (path: &String)
        ensures
            path@ == self@.data_path,
    {
        &self.data_path
    }

    /// Returns the window width in pixels
    pub fn window_width(&self) -> (width: u32)
        ensures
            width == self@.window_width,
    {
        self.window_width
    }

    /// Returns the window width in pixels
    pub fn window_height(&self) -> (height: u32)
        ensures
            height == self@.window_height,
    {
        self.window_height
    }

    /// Applies the command line arguments to the settings
    pub fn apply_command_line_arguments(&mut self, config: CLISettingsConfiguration)
        ensures
            final(self)@ == old(self)@.with_arguments(
                text(config.data_path),
                config.window_width,
                config.window_height,
            ),
    {
        if let Some(data_path) = config.data_path {
            self.data_path = data_path;
        }
        if let Some(window_width) = config.window_width {
            self.window_width = window_width;
        }
        if let Some(window_height) = config.window_height {
            self.window_height = window_height;
        }
    }

    /// Applies the settings file to the settings
    pub fn apply_file(&mut self, config: FileSettingsConfiguration)
        ensures
            final(self)@ == old(self)@.with_file(
                text(config.data_path),
                config.window_width,
                config.window_height,
            ),
    {
        if let Some(data_path) = config.data_path {
            self.data_path = data_path;
        }
        self.window_width = config.window_width;
        self.window_height = config.window_height;
    }
}

impl Default for Settings {
    /// Returns the default settings
    fn default() -> (settings: Settings)
        ensures
            settings@ == SettingsView::initial(None),
    {
        Settings::initial(None)
    }
}

} // verus!
