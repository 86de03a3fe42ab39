//! Pure state of the operator terminal: tabs, edit modes, entry buffers,
//! status messages, and the uptime formatter. Rendering and key handling
//! live outside the library.

use vstd::prelude::*;

use crate::text::dec_chars;
use crate::text::u64_to_dec;

verus! {

/// The tabs of the operator terminal.
#[derive(Clone, Copy, Debug, PartialEq, Eq, Structural)]
pub enum Tab {
    /// Connection and server status.
    Status,
    /// The configured routes.
    Routes,
    /// The configured upstream pools.
    Upstreams,
    /// Listener and static-file settings.
    Config,
    /// Accumulated counters.
    Stats,
    /// Key bindings.
    Help,
}

/// The name of each tab.
pub open spec fn tab_name(t: Tab) -> Seq<char> {
    match t {
        Tab::Status => "Status"@,
        Tab::Routes => "Routes"@,
        Tab::Upstreams => "Upstreams"@,
        Tab::Config => "Config"@,
        Tab::Stats => "Stats"@,
        Tab::Help => "Help"@,
    }
}

impl Tab {
    /// Every tab, in display order.
    pub fn all() -> (r: [Tab; 6])
        ensures
            r@ == seq![Tab::Status, Tab::Routes, Tab::Upstreams, Tab::Config, Tab::Stats, Tab::Help],
    {
        let tabs = [Tab::Status, Tab::Routes, Tab::Upstreams, Tab::Config, Tab::Stats, Tab::Help];
        proof {
            assert(tabs@ =~= seq![
                Tab::Status,
                Tab::Routes,
                Tab::Upstreams,
                Tab::Config,
                Tab::Stats,
                Tab::Help,
            ]);
        }
        tabs
    }

    /// This tab's display name.
    pub fn name(&self) -> (r: &'static str)
        ensures
            r@ == tab_name(*self),
    {
        match self {
            Tab::Status => "Status",
            Tab::Routes => "Routes",
            Tab::Upstreams => "Upstreams",
            Tab::Config => "Config",
            Tab::Stats => "Stats",
            Tab::Help => "Help",
        }
    }
}

/// What the operator is currently editing, if anything.
#[derive(Clone, Copy, Debug, PartialEq, Eq, Structural)]
pub enum EditMode {
    /// No edit in progress.
    Idle,
    /// Adding a route: entering the path.
    AddRoutePath,
    /// Adding a route: entering the upstream name.
    AddRouteUpstream,
    /// Adding a route: entering the timeout.
    AddRouteTimeout,
    /// Editing the listener port.
    EditServerPort,
    /// Adding a static rule: entering the URL path.
    AddStaticPath,
    /// Adding a static rule: entering the root directory.
    AddStaticRoot,
}

/// The fields of a route being entered.
pub struct NewRoute {
    /// Path pattern entered so far.
    pub path: String,
    /// Upstream name entered so far.
    pub upstream: String,
    /// Timeout text entered so far.
    pub timeout: String,
}

impl NewRoute {
    /// An empty entry buffer.
    pub fn new() -> (r: Self)
        ensures
            r.path@.len() == 0,
            r.upstream@.len() == 0,
            r.timeout@.len() == 0,
    {
        NewRoute { path: String::new(), upstream: String::new(), timeout: String::new() }
    }
}

/// The fields of a static rule being entered.
pub struct NewStaticDir {
    /// URL prefix entered so far.
    pub path: String,
    /// Root directory entered so far.
    pub root: String,
}

impl NewStaticDir {
    /// An empty entry buffer.
    pub fn new() -> (r: Self)
        ensures
            r.path@.len() == 0,
            r.root@.len() == 0,
    {
        NewStaticDir { path: String::new(), root: String::new() }
    }
}

/// One line of the status message log.
pub struct StatusMessage {
    /// The text shown.
    pub text: String,
    /// Whether it reports an error.
    pub is_error: bool,
}

/// The uptime rendering: seconds always; minutes, hours and days only
/// once they are reached.
pub open spec fn duration_text(secs: u64) -> Seq<char> {
    let days = secs / 86400;
    let hours = (secs % 86400) / 3600;
    let minutes = (secs % 3600) / 60;
    let seconds = secs % 60;
    if days > 0 {
        dec_chars(days as nat) + "d "@ + dec_chars(hours as nat) + "h "@ + dec_chars(
            minutes as nat,
        ) + "m "@ + dec_chars(seconds as nat) + "s"@
    } else if hours > 0 {
        dec_chars(hours as nat) + "h "@ + dec_chars(minutes as nat) + "m "@ + dec_chars(
            seconds as nat,
        ) + "s"@
    } else if minutes > 0 {
        dec_chars(minutes as nat) + "m "@ + dec_chars(seconds as nat) + "s"@
    } else {
        dec_chars(seconds as nat) + "s"@
    }
}

/// Renders an uptime in seconds as days, hours, minutes and seconds.
pub fn format_duration(secs: u64) -> (r: String)
    ensures
        r@ == duration_text(secs),
{
    let days = secs / 86400;
    let hours = (secs % 86400) / 3600;
    let minutes = (secs % 3600) / 60;
    let seconds = secs % 60;
    if days > 0 {
        let mut out = u64_to_dec(days);
        out.append("d ");
        out.append(u64_to_dec(hours).as_str());
        out.append("h ");
        out.append(u64_to_dec(minutes).as_str());
        out.append("m ");
        out.append(u64_to_dec(seconds).as_str());
        out.append("s");
        out
    } else if hours > 0 {
        let mut out = u64_to_dec(hours);
        out.append("h ");
        out.append(u64_to_dec(minutes).as_str());
        out.append("m ");
        out.append(u64_to_dec(seconds).as_str());
        out.append("s");
        out
    } else if minutes > 0 {
        let mut out = u64_to_dec(minutes);
        out.append("m ");
        out.append(u64_to_dec(seconds).as_str());
        out.append("s");
        out
    } else {
        let mut out = u64_to_dec(seconds);
        out.append("s");
        out
    }
}

} // verus!
