use vstd::prelude::*;

use crate::client::{GntpClient, GntpClientView};
use crate::error::GntpError;
use crate::notification::{
    clamp_priority, opt_resource, NotificationType, NotificationTypeView,
    NotifyOptions, NotifyOptionsView,
};
use crate::resource::{IconMode, Resource};
use crate::text::{
    chars_of, decimal, parse_u16, parse_u16_spec, push_decimal, same_text, split_first_two,
    split_two,
};

verus! {

/// What `str::to_lowercase` gives for a text.
pub uninterp spec fn lowercase(s: Seq<char>) -> Seq<char>;

/// `str::to_lowercase`: the text with every character mapped to its Unicode lowercase.
/// The mapping is Unicode's and is named (`lowercase`) rather than restated.
#[verifier::external_body]
fn to_lowercase(s: &str) -> (r: String)
    ensures
        r@ == lowercase(s@),
{
    s.to_lowercase()
}

/// The icon mode that a lowercased name stands for.
pub open spec fn icon_mode_named(lower: Seq<char>) -> Option<IconMode> {
    if lower == "binary"@ {
        Some(IconMode::Binary)
    } else if lower == "fileurl"@ {
        Some(IconMode::FileUrl)
    } else if lower == "dataurl"@ {
        Some(IconMode::DataUrl)
    } else if lower == "httpurl"@ {
        Some(IconMode::HttpUrl)
    } else if lower == "auto"@ {
        Some(IconMode::Auto)
    } else {
        None
    }
}

/// The message for a name that is no icon mode.
pub open spec fn invalid_icon_mode_message(given: Seq<char>) -> Seq<char> {
    "Invalid icon mode: "@ + given + ". Use: binary, fileurl, dataurl, httpurl, auto"@
}

/// Picks the icon mode from `lower`, the lowercased form of the name `given`; the error
/// quotes `given`.
pub fn icon_mode_from_lowercase(given: &str, lower: &str) -> (r: Result<IconMode, String>)
    ensures
        match icon_mode_named(lower@) {
            Some(m) => r == Ok::<IconMode, String>(m),
            None => r matches Err(msg) && msg@ == invalid_icon_mode_message(given@),
        },
{
    if same_text(lower, "binary") {
        Ok(IconMode::Binary)
    } else if same_text(lower, "fileurl") {
        Ok(IconMode::FileUrl)
    } else if same_text(lower, "dataurl") {
        Ok(IconMode::DataUrl)
    } else if same_text(lower, "httpurl") {
        Ok(IconMode::HttpUrl)
    } else if same_text(lower, "auto") {
        Ok(IconMode::Auto)
    } else {
        Err(
            "Invalid icon mode: ".to_string().concat(given).concat(
                ". Use: binary, fileurl, dataurl, httpurl, auto",
            ),
        )
    }
}

/// Parses the name of an icon mode, whatever its case: `binary`, `fileurl`, `dataurl`,
/// `httpurl` or `auto`.
pub fn parse_icon_mode(s: &str) -> (r: Result<IconMode, String>)
    ensures
        match icon_mode_named(lowercase(s@)) {
            Some(m) => r == Ok::<IconMode, String>(m),
            None => r matches Err(msg) && msg@ == invalid_icon_mode_message(s@),
        },
{
    let lower = to_lowercase(s);
    icon_mode_from_lowercase(s, lower.as_str())
}

/// The host to contact: on Windows the loopback addresses `127.0.0.1` and `::1` are
/// replaced by `localhost`, which Growl for Windows accepts.
pub open spec fn safe_host(host: Seq<char>, on_windows: bool) -> Seq<char> {
    if on_windows && (host == "127.0.0.1"@ || host == "::1"@) {
        "localhost"@
    } else {
        host
    }
}

/// The host to contact (see `safe_host`); `on_windows` tells whether this runs on Windows.
pub fn windows_safe_host(host: &str, on_windows: bool) -> (r: String)
    ensures
        r@ == safe_host(host@, on_windows),
{
    if on_windows && (same_text(host, "127.0.0.1") || same_text(host, "::1")) {
        "localhost".to_string()
    } else {
        host.to_string()
    }
}

/// A server to send to.
pub struct HostTarget {
    /// Host name or address.
    pub host: String,
    /// Port.
    pub port: u16,
}

/// A host as given, completed with the default port when it names none (holds no `:`).
pub open spec fn host_entry(h: Seq<char>, default_port: u16) -> Seq<char> {
    if h.contains(':') {
        h
    } else {
        h + ":"@ + decimal(default_port as nat)
    }
}

/// The host and port of an entry `host:port`: the text before the first `:`, and the port
/// after it when it parses, the default port otherwise.
pub open spec fn entry_target(entry: Seq<char>, default_port: u16) -> (Seq<char>, u16) {
    let fields = split_two(entry, ':');
    (
        fields.0,
        match fields.1 {
            Some(p) => match parse_u16_spec(p) {
                Some(v) => v,
                None => default_port,
            },
            None => default_port,
        },
    )
}

/// The host entries to send to: the given hosts completed with the default port, or
/// `localhost` with the default port when none is given.
pub open spec fn host_entries(hosts: Seq<Seq<char>>, default_port: u16) -> Seq<Seq<char>> {
    if hosts.len() == 0 {
        seq!["localhost:"@ + decimal(default_port as nat)]
    } else {
        hosts.map_values(|h: Seq<char>| host_entry(h, default_port))
    }
}

fn contains_char(s: &str, c: char) -> (r: bool)
    ensures
        r == s@.contains(c),
{
    let cs = chars_of(s);
    let mut i: usize = 0;
    while i < cs.len()
        invariant
            cs@ == s@,
            i <= cs@.len(),
            forall|k: int| 0 <= k < i ==> cs@[k] != c,
        decreases cs@.len() - i,
    {
        if cs[i] == c {
            return true;
        }
        i = i + 1;
    }
    false
}

fn entry_to_target(entry: &str, default_port: u16) -> (r: HostTarget)
    ensures
        (r.host@, r.port) == entry_target(entry@, default_port),
{
    let (host, rest) = split_first_two(entry, ':');
    let port = match rest {
        Some(p) => match parse_u16(p.as_str()) {
            Some(v) => v,
            None => default_port,
        },
        None => default_port,
    };
    HostTarget { host, port }
}

/// The servers to send to, from the hosts given on the command line (each `host` or
/// `host:port`) and the default port.
pub fn host_targets(hosts: &Vec<String>, default_port: u16) -> (r: Vec<HostTarget>)
    ensures
        r@.len() == host_entries(hosts@.map_values(|h: String| h@), default_port).len(),
        forall|i: int|
            0 <= i < r@.len() ==> (#[trigger] r@[i].host@, r@[i].port) == entry_target(
                host_entries(hosts@.map_values(|h: String| h@), default_port)[i],
                default_port,
            ),
{
    let ghost hv = hosts@.map_values(|h: String| h@);
    let mut out: Vec<HostTarget> = Vec::new();
    if hosts.len() == 0 {
        let mut entry = "localhost:".to_string();
        push_decimal(&mut entry, default_port as u128);
        out.push(entry_to_target(entry.as_str(), default_port));
        return out;
    }
    let mut i: usize = 0;
    while i < hosts.len()
        invariant
            hv == hosts@.map_values(|h: String| h@),
            hosts@.len() > 0,
            i <= hosts@.len(),
            out@.len() == i,
            forall|k: int|
                0 <= k < i ==> (#[trigger] out@[k].host@, out@[k].port) == entry_target(
                    host_entries(hv, default_port)[k],
                    default_port,
                ),
        decreases hosts@.len() - i,
    {
        let h = &hosts[i];
        let t = if contains_char(h.as_str(), ':') {
            entry_to_target(h.as_str(), default_port)
        } else {
            let mut entry = h.clone();
            entry.append(":");
            push_decimal(&mut entry, default_port as u128);
            entry_to_target(entry.as_str(), default_port)
        };
        assert(host_entries(hv, default_port)[i as int] == host_entry(h@, default_port));
        out.push(t);
        i = i + 1;
    }
    out
}

/// The client for one delivery: the application's name, the server, the icon mode, and
/// packets shown when the verbosity is above 1. No application icon is attached.
pub fn delivery_client(
    app_name: &str,
    host: &str,
    port: u16,
    icon_mode: IconMode,
    verbose: u8,
) -> (r: GntpClient)
    ensures
        r@ == (GntpClientView {
            host: host@,
            port: port,
            application_name: app_name@,
            application_icon: None,
            password: None,
            registered: false,
            debug: verbose > 1,
            icon_mode: icon_mode,
        }),
{
    GntpClient::new(app_name).with_host(host).with_port(port).with_icon_mode(icon_mode).with_debug(
        verbose > 1,
    )
}

/// The notification type of one delivery: named and displayed as the event, enabled, and
/// carrying the icon when there is one (the icon goes on the notification type only).
pub fn delivery_notification(event_name: &str, icon: &Option<Resource>) -> (r: NotificationType)
    ensures
        r@ == (NotificationTypeView {
            name: event_name@,
            display_name: Some(event_name@),
            enabled: true,
            icon: opt_resource(*icon),
        }),
{
    let n = NotificationType::new(event_name).with_display_name(event_name).with_enabled(true);
    match icon {
        Some(i) => n.with_icon(i.duplicate()),
        None => n,
    }
}

/// The options of one delivery.
pub fn delivery_options(sticky: bool, priority: i8) -> (r: NotifyOptions)
    ensures
        r@ == (NotifyOptionsView {
            sticky: sticky,
            priority: clamp_priority(priority as int) as i8,
            icon: None,
        }),
{
    NotifyOptions::new().with_sticky(sticky).with_priority(priority)
}

/// How one attempt at delivering a notification ended.
pub enum AttemptResult {
    /// Registration and notification both succeeded.
    Delivered,
    /// Registration failed with this error.
    RegisterFailed(GntpError),
    /// Registration succeeded and the notification failed with this error.
    NotifyFailed(GntpError),
}

/// What to do after an attempt.
pub enum NextStep {
    /// The notification was delivered.
    Done,
    /// Wait for the retry delay, then attempt again.
    Retry,
    /// Every attempt failed; this is the last attempt's error.
    GiveUp(GntpError),
}

/// Attempts at delivering one notification to one server: up to `max_attempts` of them,
/// one more than the number of retries.
pub struct RetryPlan {
    /// How many attempts may be made in all.
    pub max_attempts: u16,
    /// How many attempts have been made.
    pub attempts: u16,
}

impl RetryPlan {
    /// The plan is consistent: at least one attempt is allowed, and no more were made.
    pub open spec fn wf(&self) -> bool {
        1 <= self.max_attempts && self.attempts <= self.max_attempts
    }

    /// A plan with `retry_count` retries after the first attempt, none made yet.
    pub fn new(retry_count: u8) -> (r: RetryPlan)
        ensures
            r.wf(),
            r.max_attempts == retry_count + 1,
            r.attempts == 0,
    {
        RetryPlan { max_attempts: retry_count as u16 + 1, attempts: 0 }
    }

    /// Records how an attempt ended and decides what comes next: done when delivered,
    /// another attempt while attempts are left, and otherwise giving up with the error of the
    /// attempt that failed last.
    pub fn record(&mut self, outcome: AttemptResult) -> (r: NextStep)
        requires
            old(self).wf(),
            old(self).attempts < old(self).max_attempts,
        ensures
            final(self).wf(),
            final(self).max_attempts == old(self).max_attempts,
            final(self).attempts == old(self).attempts + 1,
            match outcome {
                AttemptResult::Delivered => r is Done,
                AttemptResult::RegisterFailed(e) => if old(self).attempts + 1 < old(self).max_attempts {
                    r is Retry
                } else {
                    r == NextStep::GiveUp(e)
                },
                AttemptResult::NotifyFailed(e) => if old(self).attempts + 1 < old(self).max_attempts {
                    r is Retry
                } else {
                    r == NextStep::GiveUp(e)
                },
            },
    {
        self.attempts = self.attempts + 1;
        match outcome {
            AttemptResult::Delivered => NextStep::Done,
            AttemptResult::RegisterFailed(e) | AttemptResult::NotifyFailed(e) => {
                if self.attempts < self.max_attempts {
                    NextStep::Retry
                } else {
                    NextStep::GiveUp(e)
                }
            },
        }
    }
}

} // verus!
