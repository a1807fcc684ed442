use vstd::prelude::*;

use vstd::string::StringExecFns;

verus! {

/// A 24-bit color for log-line styling.
#[derive(Clone, Copy, Debug, PartialEq, Eq, Structural)]
pub struct Rgb {
    /// Red channel.
    pub red: u8,
    /// Green channel.
    pub green: u8,
    /// Blue channel.
    pub blue: u8,
}

/// One foreground color per log level.
#[derive(Clone, Copy, Debug, PartialEq, Eq, Structural)]
pub struct ColorConfig {
    /// Color of debug lines.
    pub debug: Rgb,
    /// Color of info lines.
    pub info: Rgb,
    /// Color of trace lines.
    pub trace: Rgb,
    /// Color of warning lines.
    pub warn: Rgb,
    /// Color of error lines.
    pub error: Rgb,
}

impl Default for ColorConfig {
    /// Green debug, cyan info, dark-red trace, yellow warnings, red errors.
    fn default() -> (c: ColorConfig)
        ensures
            c == ColorConfig::default_spec(),
    {
        ColorConfig {
            debug: Rgb { red: 0, green: 128, blue: 0 },
            info: Rgb { red: 0, green: 255, blue: 255 },
            trace: Rgb { red: 128, green: 0, blue: 0 },
            warn: Rgb { red: 255, green: 255, blue: 0 },
            error: Rgb { red: 255, green: 0, blue: 0 },
        }
    }
}

impl ColorConfig {
    /// The default palette.
    pub open spec fn default_spec() -> ColorConfig {
        ColorConfig {
            debug: Rgb { red: 0, green: 128, blue: 0 },
            info: Rgb { red: 0, green: 255, blue: 255 },
            trace: Rgb { red: 128, green: 0, blue: 0 },
            warn: Rgb { red: 255, green: 255, blue: 0 },
            error: Rgb { red: 255, green: 0, blue: 0 },
        }
    }
}

/// Log formatting settings: the per-level palette and the line format,
/// where `%l` stands for the styled level, `%t` for the padded target and
/// `%m` for the message.
#[derive(Debug)]
pub struct LogConfig {
    /// Foreground colors by level.
    pub colors: ColorConfig,
    /// The line format.
    pub format: String,
}

impl Default for LogConfig {
    /// The default palette with the line format `%l | %t > %m`.
    fn default() -> (c: LogConfig)
        ensures
            c.colors == ColorConfig::default_spec(),
            c.format@ == "%l | %t > %m"@,
    {
        LogConfig { colors: ColorConfig::default(), format: String::from_str("%l | %t > %m") }
    }
}

/// Application-level settings.
#[derive(Debug)]
pub struct AppConfig {
    /// The window title.
    pub title: String,
}

impl Default for AppConfig {
    /// The default window title.
    fn default() -> (c: AppConfig)
        ensures
            c.title@ == "rsgss game"@,
    {
        AppConfig { title: String::from_str("rsgss game") }
    }
}

/// Process-wide settings, supplied once at startup by the configuration
/// loader in the shell.
#[derive(Debug)]
pub struct Config {
    /// Log formatting settings.
    pub log: LogConfig,
    /// Application-level settings.
    pub app: AppConfig,
}

impl Default for Config {
    /// All defaults.
    fn default() -> (c: Config)
        ensures
            c.log.colors == ColorConfig::default_spec(),
            c.log.format@ == "%l | %t > %m"@,
            c.app.title@ == "rsgss game"@,
    {
        Config { log: LogConfig::default(), app: AppConfig::default() }
    }
}

/// The GPU power preference the renderer asks the adapter for.
#[derive(Clone, Copy, Debug, PartialEq, Eq, Structural)]
pub enum PowerPreference {
    /// Prefer the adapter that uses the least power.
    LowPower,
    /// Prefer the fastest adapter.
    HighPerformance,
}

/// Window settings the launcher reads at startup.
#[derive(Debug)]
pub struct WindowConfiguration {
    /// The window title.
    pub title: String,
    /// Window width in pixels.
    pub width: u32,
    /// Window height in pixels.
    pub height: u32,
}

impl Default for WindowConfiguration {
    /// A 640 by 480 window titled "Game".
    fn default() -> (c: WindowConfiguration)
        ensures
            c.title@ == "Game"@,
            c.width == 640,
            c.height == 480,
    {
        WindowConfiguration { title: String::from_str("Game"), width: 640, height: 480 }
    }
}

/// Renderer settings the launcher reads at startup.
#[derive(Clone, Copy, Debug, PartialEq, Eq, Structural)]
pub struct RendererConfiguration {
    /// Which GPU adapter to prefer.
    pub power_preference: PowerPreference,
}

impl Default for RendererConfiguration {
    /// Prefer the fastest adapter.
    fn default() -> (c: RendererConfiguration)
        ensures
            c.power_preference == PowerPreference::HighPerformance,
    {
        RendererConfiguration { power_preference: PowerPreference::HighPerformance }
    }
}

/// Everything the launcher reads at startup.
#[derive(Debug)]
pub struct AppConfiguration {
    /// Window settings.
    pub window: WindowConfiguration,
    /// Renderer settings.
    pub renderer: RendererConfiguration,
}

impl Default for AppConfiguration {
    /// All defaults.
    fn default() -> (c: AppConfiguration)
        ensures
            c.window.title@ == "Game"@,
            c.window.width == 640,
            c.window.height == 480,
            c.renderer.power_preference == PowerPreference::HighPerformance,
    {
        AppConfiguration {
            window: WindowConfiguration::default(),
            renderer: RendererConfiguration::default(),
        }
    }
}

} // verus!
