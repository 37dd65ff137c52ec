//! Application configuration and the decisions of its watcher.

use vstd::prelude::*;
use vstd::string::StringExecFns;

verus! {

/// Milliseconds for which changes on disk are gathered before they are
/// acted on.
pub const DEBOUNCE_MILLIS: u64 = 50;

/// The keyboard layout used where none is configured.
pub fn default_layout() -> (layout: String)
    ensures
        layout@ == "qwerty"@,
{
    String::from_str("qwerty")
}

/// The theme used where none is configured.
pub fn default_theme() -> (theme: String)
    ensures
        theme@ == "Default"@,
{
    String::from_str("Default")
}

/// What the client is configured with.
#[derive(Debug)]
pub struct AppConfig {
    pub layout: String,
    pub theme: String,
}

/// A configuration as a mathematical value.
pub struct AppConfigView {
    pub layout: Seq<char>,
    pub theme: Seq<char>,
}

impl View for AppConfig {
    type V = AppConfigView;

    open spec fn view(&self) -> AppConfigView {
        AppConfigView { layout: self.layout@, theme: self.theme@ }
    }
}

/// The built-in configuration.
pub open spec fn default_config() -> AppConfigView {
    AppConfigView { layout: "qwerty"@, theme: "Default"@ }
}

impl Default for AppConfig {
    fn default() -> (config: Self)
        ensures
            config@ == default_config(),
    {
        AppConfig { layout: default_layout(), theme: default_theme() }
    }
}

impl Clone for AppConfig {
    fn clone(&self) -> (copy: Self)
        ensures
            copy@ == self@,
    {
        AppConfig { layout: self.layout.clone(), theme: self.theme.clone() }
    }
}

impl AppConfig {
    /// The configuration read from a document in which either key may be
    /// missing: a missing key takes its default.
    pub fn from_parts(layout: Option<String>, theme: Option<String>) -> (config: Self)
        ensures
            config@.layout == match layout {
                Some(l) => l@,
                None => "qwerty"@,
            },
            config@.theme == match theme {
                Some(t) => t@,
                None => "Default"@,
            },
    {
        AppConfig {
            layout: match layout {
                Some(l) => l,
                None => default_layout(),
            },
            theme: match theme {
                Some(t) => t,
                None => default_theme(),
            },
        }
    }
}

/// The kind of a debounced change on disk.
#[derive(Clone, Copy, Debug, PartialEq, Eq, Structural)]
pub enum ChangeKind {
    /// A change after which the file was quiet.
    Any,
    /// One of a run of changes that goes on.
    AnyContinuous,
    /// Any other kind.
    Other,
}

/// The watcher as a mathematical value.
pub struct WatcherState {
    /// The configuration that subscribers have been given last.
    pub current: AppConfigView,
    /// Name of the watched file within its directory.
    pub target: Seq<char>,
}

/// True where a change in the watched directory concerns the watched file:
/// it names that file, and is of a kind that is acted on.
pub open spec fn concerns_target(
    st: WatcherState,
    file_name: Option<Seq<char>>,
    kind: ChangeKind,
) -> bool {
    file_name == Some(st.target) && (kind == ChangeKind::Any || kind == ChangeKind::AnyContinuous)
}

/// Holder of the current configuration.
#[derive(Debug)]
pub struct ConfigWatcher {
    current: AppConfig,
    target: String,
}

impl View for ConfigWatcher {
    type V = WatcherState;

    closed spec fn view(&self) -> WatcherState {
        WatcherState { current: self.current@, target: self.target@ }
    }
}

impl ConfigWatcher {
    /// A watcher of the file named `target` in its directory. `initial` is
    /// what was read of it at startup; where that failed, the built-in
    /// configuration is taken.
    pub fn new(initial: Option<AppConfig>, target: String) -> (watcher: Self)
        ensures
            watcher@.target == target@,
            watcher@.current == match initial {
                Some(config) => config@,
                None => default_config(),
            },
    {
        let current = match initial {
            Some(config) => config,
            None => AppConfig::default(),
        };
        ConfigWatcher { current, target }
    }

    /// The configuration that subscribers have been given last.
    pub fn current(&self) -> (config: AppConfig)
        ensures
            config@ == self@.current,
    {
        self.current.clone()
    }

    /// Whether a debounced change calls for the file to be read again:
    /// `file_name` is the last part of the changed path, if it has one.
    /// Changes to other files of the directory are passed over.
    pub fn concerns(&self, file_name: Option<&String>, kind: ChangeKind) -> (reload: bool)
        ensures
            reload == concerns_target(
                self@,
                match file_name {
                    Some(name) => Some(name@),
                    None => None,
                },
                kind,
            ),
    {
        let named = match file_name {
            Some(name) => *name == self.target,
            None => false,
        };
        named && match kind {
            ChangeKind::Any => true,
            ChangeKind::AnyContinuous => true,
            ChangeKind::Other => false,
        }
    }

    /// Takes in what reading the file again gave. A configuration that was
    /// read becomes the current one and is returned, to be handed to the
    /// subscribers; a failed read changes nothing.
    pub fn reloaded(&mut self, read: Option<AppConfig>) -> (publish: Option<AppConfig>)
        ensures
            final(self)@.target == old(self)@.target,
            final(self)@.current == match read {
                Some(config) => config@,
                None => old(self)@.current,
            },
            publish is Some <==> read is Some,
            publish matches Some(config) ==> config@ == final(self)@.current,
    {
        match read {
            Some(config) => {
                self.current = config.clone();
                Some(config)
            },
            None => None,
        }
    }
}

} // verus!
