use vstd::prelude::*;

use crate::resource::{Resource, ResourceView};

verus! {

/// A type of notification that an application registers and later sends.
#[derive(Clone)]
pub struct NotificationType {
    /// Internal name, used when notifying.
    pub name: String,
    /// Name shown to the user.
    pub display_name: Option<String>,
    /// Whether the notification type is enabled.
    pub enabled: bool,
    /// Icon of this notification type.
    pub icon: Option<Resource>,
}

/// The mathematical value of a `NotificationType`.
pub struct NotificationTypeView {
    pub name: Seq<char>,
    pub display_name: Option<Seq<char>>,
    pub enabled: bool,
    pub icon: Option<ResourceView>,
}

/// The view of an optional resource.
pub open spec fn opt_resource(o: Option<Resource>) -> Option<ResourceView> {
    match o {
        Some(r) => Some(r@),
        None => None,
    }
}

impl View for NotificationType {
    type V = NotificationTypeView;

    open spec fn view(&self) -> NotificationTypeView {
        NotificationTypeView {
            name: self.name@,
            display_name: crate::resource::opt_text(self.display_name),
            enabled: self.enabled,
            icon: opt_resource(self.icon),
        }
    }
}

impl NotificationType {
    /// A notification type with the given name, no display name, enabled, without icon.
    pub fn new(name: &str) -> (r: NotificationType)
        ensures
            r@ == (NotificationTypeView {
                name: name@,
                display_name: None,
                enabled: true,
                icon: None,
            }),
    {
        NotificationType { name: name.to_string(), display_name: None, enabled: true, icon: None }
    }

    /// Sets the name shown to the user.
    pub fn with_display_name(self, display_name: &str) -> (r: NotificationType)
        ensures
            r@ == (NotificationTypeView { display_name: Some(display_name@), ..self@ }),
    {
        let mut s = self;
        s.display_name = Some(display_name.to_string());
        s
    }

    /// Sets the icon of this notification type.
    pub fn with_icon(self, icon: Resource) -> (r: NotificationType)
        ensures
            r@ == (NotificationTypeView { icon: Some(icon@), ..self@ }),
    {
        let mut s = self;
        s.icon = Some(icon);
        s
    }

    /// Sets whether this notification type is enabled.
    pub fn with_enabled(self, enabled: bool) -> (r: NotificationType)
        ensures
            r@ == (NotificationTypeView { enabled: enabled, ..self@ }),
    {
        let mut s = self;
        s.enabled = enabled;
        s
    }
}

/// Options of a single notification.
pub struct NotifyOptions {
    /// Keep the notification on screen until it is dismissed.
    pub sticky: bool,
    /// Priority, from -2 (very low) through 0 (normal) to 2 (emergency).
    pub priority: i8,
    /// Icon for this notification.
    pub icon: Option<Resource>,
}

/// The mathematical value of `NotifyOptions`.
pub struct NotifyOptionsView {
    pub sticky: bool,
    pub priority: i8,
    pub icon: Option<ResourceView>,
}

impl View for NotifyOptions {
    type V = NotifyOptionsView;

    open spec fn view(&self) -> NotifyOptionsView {
        NotifyOptionsView { sticky: self.sticky, priority: self.priority, icon: opt_resource(self.icon) }
    }
}

/// A priority limited to the range -2 to 2.
pub open spec fn clamp_priority(p: int) -> int {
    if p < -2 {
        -2
    } else if p > 2 {
        2
    } else {
        p
    }
}

impl Default for NotifyOptions {
    /// Not sticky, normal priority, no icon.
    fn default() -> (r: NotifyOptions)
        ensures
            r@ == (NotifyOptionsView { sticky: false, priority: 0, icon: None }),
    {
        NotifyOptions { sticky: false, priority: 0, icon: None }
    }
}

impl NotifyOptions {
    /// The default options: not sticky, normal priority (0), no icon.
    pub fn new() -> (r: NotifyOptions)
        ensures
            r@ == (NotifyOptionsView { sticky: false, priority: 0, icon: None }),
    {
        NotifyOptions { sticky: false, priority: 0, icon: None }
    }

    /// Sets whether the notification stays until it is dismissed.
    pub fn with_sticky(self, sticky: bool) -> (r: NotifyOptions)
        ensures
            r@ == (NotifyOptionsView { sticky: sticky, ..self@ }),
    {
        let mut s = self;
        s.sticky = sticky;
        s
    }

    /// Sets the priority, limited to the range -2 to 2.
    pub fn with_priority(self, priority: i8) -> (r: NotifyOptions)
        ensures
            r@ == (NotifyOptionsView { priority: clamp_priority(priority as int) as i8, ..self@ }),
            -2 <= r@.priority <= 2,
    {
        let mut s = self;
        s.priority = if priority < -2 {
            -2
        } else if priority > 2 {
            2
        } else {
            priority
        };
        s
    }

    /// Sets the icon of this notification.
    pub fn with_icon(self, icon: Resource) -> (r: NotifyOptions)
        ensures
            r@ == (NotifyOptionsView { icon: Some(icon@), ..self@ }),
    {
        let mut s = self;
        s.icon = Some(icon);
        s
    }
}

} // verus!
