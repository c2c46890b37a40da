use vstd::prelude::*;

use crate::error::GntpError;
use crate::notification::{
    opt_resource, NotificationType, NotificationTypeView, NotifyOptions,
    NotifyOptionsView,
};
use crate::resource::{icon_reference, opt_text, IconMode, Resource, ResourceView};
use crate::text::{contains_text, decimal, has_infix, push_decimal, push_signed_decimal, same_text, signed_decimal};

verus! {

/// The port on which Growl servers listen by default.
pub const DEFAULT_PORT: u16 = 23053;

/// Client for a Growl server. It builds the REGISTER and NOTIFY messages, keeps track of
/// whether the application has been registered, and judges the server's replies; moving the
/// bytes over the network is left to the caller.
pub struct GntpClient {
    /// Host name of the Growl server.
    pub host: String,
    /// Port of the Growl server.
    pub port: u16,
    /// Name of the application.
    pub application_name: String,
    /// Icon of the application.
    pub application_icon: Option<Resource>,
    /// Password (authentication is not implemented; the password is never sent).
    pub password: Option<String>,
    /// Whether a registration has succeeded.
    pub registered: Registration,
    /// Whether packets are to be shown while they are sent.
    pub debug: bool,
    /// How icons are delivered.
    pub icon_mode: IconMode,
}

/// Whether a client's registration has succeeded. Only the client's own operations set it.
#[derive(Clone, Copy, Debug)]
pub struct Registration {
    done: bool,
}

impl View for Registration {
    type V = bool;

    closed spec fn view(&self) -> bool {
        self.done
    }
}

/// The mathematical value of a `GntpClient`.
pub struct GntpClientView {
    pub host: Seq<char>,
    pub port: u16,
    pub application_name: Seq<char>,
    pub application_icon: Option<ResourceView>,
    pub password: Option<Seq<char>>,
    pub registered: bool,
    pub debug: bool,
    pub icon_mode: IconMode,
}

impl View for GntpClient {
    type V = GntpClientView;

    open spec fn view(&self) -> GntpClientView {
        GntpClientView {
            host: self.host@,
            port: self.port,
            application_name: self.application_name@,
            application_icon: opt_resource(self.application_icon),
            password: opt_text(self.password),
            registered: self.registered@,
            debug: self.debug,
            icon_mode: self.icon_mode,
        }
    }
}

/// A message for the Growl server: the text of the packet, and, when icons travel as binary
/// resources, the resources whose bytes follow the text.
pub struct GntpRequest {
    /// Text of the packet (headers and blank lines).
    pub packet: String,
    /// Resources whose bytes follow the packet (binary mode only).
    pub resources: Vec<Resource>,
    /// Whether the message is framed for binary resources.
    pub binary: bool,
}

/// The mathematical value of a `GntpRequest`.
pub struct GntpRequestView {
    pub packet: Seq<char>,
    pub resources: Seq<ResourceView>,
    pub binary: bool,
}

/// The views of a sequence of resources.
pub open spec fn resource_views(rs: Seq<Resource>) -> Seq<ResourceView> {
    rs.map_values(|r: Resource| r@)
}

/// The views of a sequence of notification types.
pub open spec fn notification_views(ns: Seq<NotificationType>) -> Seq<NotificationTypeView> {
    ns.map_values(|n: NotificationType| n@)
}

impl View for GntpRequest {
    type V = GntpRequestView;

    open spec fn view(&self) -> GntpRequestView {
        GntpRequestView {
            packet: self.packet@,
            resources: resource_views(self.resources@),
            binary: self.binary,
        }
    }
}

/// End of a header line.
pub open spec fn crlf() -> Seq<char> {
    "\r\n"@
}

/// A header line `<key><value>\r\n`, the key given with its colon and space.
pub open spec fn header(key: Seq<char>, value: Seq<char>) -> Seq<char> {
    key + value + crlf()
}

/// A header line when the value is present, nothing otherwise.
pub open spec fn optional_header(key: Seq<char>, value: Option<Seq<char>>) -> Seq<char> {
    match value {
        Some(v) => header(key, v),
        None => Seq::empty(),
    }
}

/// The reference of an optional icon under a delivery mode.
pub open spec fn opt_reference(icon: Option<ResourceView>, mode: IconMode) -> Option<Seq<char>> {
    match icon {
        Some(i) => Some(icon_reference(i, mode)),
        None => None,
    }
}

/// The opening of a REGISTER packet, up to and with the blank line after the
/// application's headers.
pub open spec fn register_head(c: GntpClientView, count: nat) -> Seq<char> {
    "GNTP/1.0 REGISTER NONE\r\n"@
        + header("Application-Name: "@, c.application_name)
        + optional_header("Application-Icon: "@, opt_reference(c.application_icon, c.icon_mode))
        + header("Notifications-Count: "@, decimal(count))
        + crlf()
}

/// The headers that declare one notification type, and the blank line after them.
pub open spec fn notification_block(n: NotificationTypeView, mode: IconMode) -> Seq<char> {
    header("Notification-Name: "@, n.name)
        + optional_header("Notification-Display-Name: "@, n.display_name)
        + header("Notification-Enabled: "@, if n.enabled { "True"@ } else { "False"@ })
        + optional_header("Notification-Icon: "@, opt_reference(n.icon, mode))
        + crlf()
}

/// The blocks of a sequence of notification types, in order.
pub open spec fn notification_blocks(ns: Seq<NotificationTypeView>, mode: IconMode) -> Seq<char>
    decreases ns.len(),
{
    if ns.len() == 0 {
        Seq::empty()
    } else {
        notification_blocks(ns.drop_last(), mode) + notification_block(ns.last(), mode)
    }
}

/// The headers that announce one binary resource.
pub open spec fn resource_block(r: ResourceView) -> Seq<char> {
    header("Identifier: "@, r.identifier) + header("Length: "@, decimal(r.data.len())) + crlf()
}

/// The announcements of a sequence of resources, in order.
pub open spec fn resource_blocks(rs: Seq<ResourceView>) -> Seq<char>
    decreases rs.len(),
{
    if rs.len() == 0 {
        Seq::empty()
    } else {
        resource_blocks(rs.drop_last()) + resource_block(rs.last())
    }
}

/// A sequence holding the icon, if there is one.
pub open spec fn icon_seq(icon: Option<ResourceView>) -> Seq<ResourceView> {
    match icon {
        Some(i) => seq![i],
        None => Seq::empty(),
    }
}

/// The icons of a sequence of notification types, in order.
pub open spec fn notification_icons(ns: Seq<NotificationTypeView>) -> Seq<ResourceView>
    decreases ns.len(),
{
    if ns.len() == 0 {
        Seq::empty()
    } else {
        notification_icons(ns.drop_last()) + icon_seq(ns.last().icon)
    }
}

/// The identifiers of a sequence of resources.
pub open spec fn identifiers(rs: Seq<ResourceView>) -> Seq<Seq<char>> {
    rs.map_values(|r: ResourceView| r.identifier)
}

/// The resources in order, each identifier kept at its first occurrence only.
pub open spec fn unique_by_identifier(rs: Seq<ResourceView>) -> Seq<ResourceView>
    decreases rs.len(),
{
    if rs.len() == 0 {
        Seq::empty()
    } else {
        let d = unique_by_identifier(rs.drop_last());
        if identifiers(d).contains(rs.last().identifier) {
            d
        } else {
            d.push(rs.last())
        }
    }
}

/// The resources that a REGISTER message carries: in binary mode the application icon and
/// the notification icons, without repeated identifiers; in any other mode none.
pub open spec fn register_resources(
    c: GntpClientView,
    ns: Seq<NotificationTypeView>,
) -> Seq<ResourceView> {
    if c.icon_mode == IconMode::Binary {
        unique_by_identifier(icon_seq(c.application_icon) + notification_icons(ns))
    } else {
        Seq::empty()
    }
}

/// The REGISTER message of a client for the given notification types.
pub open spec fn register_request(c: GntpClientView, ns: Seq<NotificationTypeView>) -> GntpRequestView {
    let resources = register_resources(c, ns);
    GntpRequestView {
        packet: register_head(c, ns.len()) + notification_blocks(ns, c.icon_mode) + resource_blocks(
            resources,
        ),
        resources: resources,
        binary: c.icon_mode == IconMode::Binary,
    }
}

/// The NOTIFY message of a client.
pub open spec fn notify_request(
    c: GntpClientView,
    name: Seq<char>,
    title: Seq<char>,
    text: Seq<char>,
    o: NotifyOptionsView,
) -> GntpRequestView {
    let binary = c.icon_mode == IconMode::Binary;
    let resources = if binary {
        icon_seq(o.icon)
    } else {
        Seq::empty()
    };
    GntpRequestView {
        packet: "GNTP/1.0 NOTIFY NONE\r\n"@
            + header("Application-Name: "@, c.application_name)
            + header("Notification-Name: "@, name)
            + header("Notification-Title: "@, title)
            + header("Notification-Text: "@, text)
            + (if o.sticky { "Notification-Sticky: True\r\n"@ } else { Seq::empty() })
            + (if o.priority != 0 {
                header("Notification-Priority: "@, signed_decimal(o.priority as int))
            } else {
                Seq::empty()
            })
            + optional_header("Notification-Icon: "@, opt_reference(o.icon, c.icon_mode))
            + crlf()
            + resource_blocks(resources),
        resources: resources,
        binary: binary,
    }
}

/// A client as `GntpClient::new` makes it for the named application.
pub open spec fn new_client(application_name: Seq<char>) -> GntpClientView {
    GntpClientView {
        host: "localhost"@,
        port: 23053,
        application_name: application_name,
        application_icon: None,
        password: None,
        registered: false,
        debug: false,
        icon_mode: IconMode::DataUrl,
    }
}

/// The client after the server answered a REGISTER message, successfully or not.
pub open spec fn after_register_reply(c: GntpClientView, reply_ok: bool) -> GntpClientView {
    GntpClientView { registered: c.registered || reply_ok, ..c }
}

/// Whether the client may send notifications: only once a registration has succeeded.
pub open spec fn may_notify(c: GntpClientView) -> bool {
    c.registered
}

/// `e` is the error that a NOTIFY before any successful REGISTER gives.
pub open spec fn is_not_registered_error(e: GntpError) -> bool {
    e matches GntpError::ProtocolError(m) && m@ == "Must call register() before notify()"@
}

/// The bytes of the resources that follow a binary-mode packet: each resource's data, then
/// `\r\n`.
pub open spec fn resource_frames(rs: Seq<ResourceView>) -> Seq<u8>
    decreases rs.len(),
{
    if rs.len() == 0 {
        Seq::empty()
    } else {
        resource_frames(rs.drop_last()) + rs.last().data + seq![13u8, 10u8]
    }
}

/// The bytes of a message on the wire: the UTF-8 text of the packet, and in binary mode the
/// resource frames and a closing `\r\n`.
pub open spec fn wire_bytes(req: GntpRequestView) -> Seq<u8> {
    vstd::utf8::encode_utf8(req.packet) + if req.binary {
        resource_frames(req.resources) + seq![13u8, 10u8]
    } else {
        Seq::empty()
    }
}


/// What became of reading the server's reply.
pub enum ReadOutcome {
    /// The whole reply was read.
    Received(String),
    /// The server closed or reset the connection before a reply was read.
    Closed,
    /// Reading failed for another reason; the message of the failure.
    Failed(String),
}

/// The outcome of an exchange with the server given what reading the reply gave: a reply
/// that holds `-ERROR` is a protocol error, a connection closed early counts as an empty
/// reply, and any other read failure is an I/O error.
pub open spec fn reply_result(outcome: ReadOutcome, r: Result<String, GntpError>) -> bool {
    match outcome {
        ReadOutcome::Received(s) => if has_infix(s@, "-ERROR"@) {
            r matches Err(GntpError::ProtocolError(m)) && m@ == "Server error: "@ + s@
        } else {
            r matches Ok(t) && t@ == s@
        },
        ReadOutcome::Closed => r matches Ok(t) && t@ == Seq::<char>::empty(),
        ReadOutcome::Failed(msg) => r matches Err(GntpError::IoError(m)) && m@ == msg@,
    }
}

fn push_header(packet: &mut String, key: &str, value: &str)
    ensures
        final(packet)@ == old(packet)@ + header(key@, value@),
{
    packet.append(key);
    packet.append(value);
    packet.append("\r\n");
}

fn push_optional_reference(packet: &mut String, key: &str, icon: &Option<Resource>, mode: &IconMode)
    ensures
        final(packet)@ == old(packet)@ + optional_header(key@, opt_reference(opt_resource(*icon), *mode)),
{
    match icon {
        Some(i) => {
            let r = i.get_reference(mode);
            push_header(packet, key, r.as_str());
        },
        None => {
            assert(old(packet)@ + Seq::<char>::empty() =~= old(packet)@);
        },
    }
}

fn push_notification_block(packet: &mut String, n: &NotificationType, mode: &IconMode)
    ensures
        final(packet)@ == old(packet)@ + notification_block(n@, *mode),
{
    let ghost start = packet@;
    push_header(packet, "Notification-Name: ", n.name.as_str());
    match &n.display_name {
        Some(d) => push_header(packet, "Notification-Display-Name: ", d.as_str()),
        None => {},
    }
    let enabled = if n.enabled {
        "True"
    } else {
        "False"
    };
    push_header(packet, "Notification-Enabled: ", enabled);
    push_optional_reference(packet, "Notification-Icon: ", &n.icon, mode);
    packet.append("\r\n");
    assert(packet@ =~= start + notification_block(n@, *mode));
}

fn push_resource_block(packet: &mut String, r: &Resource)
    ensures
        final(packet)@ == old(packet)@ + resource_block(r@),
{
    let ghost start = packet@;
    push_header(packet, "Identifier: ", r.identifier.as_str());
    packet.append("Length: ");
    push_decimal(packet, r.data.len() as u128);
    packet.append("\r\n");
    packet.append("\r\n");
    assert(packet@ =~= start + resource_block(r@));
}

fn push_resource_blocks(packet: &mut String, rs: &Vec<Resource>)
    ensures
        final(packet)@ == old(packet)@ + resource_blocks(resource_views(rs@)),
{
    let ghost start = packet@;
    let mut j: usize = 0;
    while j < rs.len()
        invariant
            j <= rs@.len(),
            packet@ == start + resource_blocks(resource_views(rs@).take(j as int)),
        decreases rs@.len() - j,
    {
        push_resource_block(packet, &rs[j]);
        proof {
            let v = resource_views(rs@);
            assert(v.take(j + 1).drop_last() =~= v.take(j as int));
        }
        j = j + 1;
    }
    assert(resource_views(rs@).take(j as int) =~= resource_views(rs@));
}

fn has_identifier(rs: &Vec<Resource>, id: &String) -> (r: bool)
    ensures
        r == identifiers(resource_views(rs@)).contains(id@),
{
    let mut k: usize = 0;
    while k < rs.len()
        invariant
            k <= rs@.len(),
            forall|m: int| 0 <= m < k ==> rs@[m].identifier@ != id@,
        decreases rs@.len() - k,
    {
        if same_text(rs[k].identifier.as_str(), id.as_str()) {
            assert(identifiers(resource_views(rs@))[k as int] == id@);
            return true;
        }
        k = k + 1;
    }
    assert(!identifiers(resource_views(rs@)).contains(id@)) by {
        if identifiers(resource_views(rs@)).contains(id@) {
            let m = choose|m: int|
                0 <= m < identifiers(resource_views(rs@)).len() && identifiers(
                    resource_views(rs@),
                )[m] == id@;
            assert(rs@[m].identifier@ == id@);
        }
    }
    false
}

fn add_unique(rs: &mut Vec<Resource>, icon: &Resource)
    ensures
        resource_views(final(rs)@) == if identifiers(resource_views(old(rs)@)).contains(
            icon@.identifier,
        ) {
            resource_views(old(rs)@)
        } else {
            resource_views(old(rs)@).push(icon@)
        },
{
    if !has_identifier(rs, &icon.identifier) {
        rs.push(icon.duplicate());
        assert(resource_views(rs@) =~= resource_views(old(rs)@).push(icon@));
    }
}

fn append_bytes(out: &mut Vec<u8>, src: &[u8])
    ensures
        final(out)@ == old(out)@ + src@,
{
    let ghost start = out@;
    let mut i: usize = 0;
    while i < src.len()
        invariant
            i <= src@.len(),
            out@ == start + src@.take(i as int),
        decreases src@.len() - i,
    {
        out.push(src[i]);
        assert(src@.take(i + 1) =~= src@.take(i as int).push(src@[i as int]));
        i = i + 1;
    }
    assert(src@.take(i as int) =~= src@);
}

impl GntpRequest {
    /// The bytes to send to the server: the packet's text, and in binary mode each resource's
    /// bytes followed by `\r\n`, then a closing `\r\n`.
    pub fn to_bytes(&self) -> (r: Vec<u8>)
        ensures
            r@ == wire_bytes(self@),
    {
        let mut out: Vec<u8> = Vec::new();
        append_bytes(&mut out, self.packet.as_str().as_bytes());
        if self.binary {
            let ghost text = out@;
            let mut i: usize = 0;
            while i < self.resources.len()
                invariant
                    i <= self.resources@.len(),
                    out@ == text + resource_frames(resource_views(self.resources@).take(i as int)),
                decreases self.resources@.len() - i,
            {
                append_bytes(&mut out, self.resources[i].data.as_slice());
                out.push(13u8);
                out.push(10u8);
                proof {
                    let v = resource_views(self.resources@);
                    assert(v.take(i + 1).drop_last() =~= v.take(i as int));
                }
                assert(out@ =~= text + resource_frames(
                    resource_views(self.resources@).take(i + 1),
                ));
                i = i + 1;
            }
            assert(resource_views(self.resources@).take(i as int) =~= resource_views(
                self.resources@,
            ));
            out.push(13u8);
            out.push(10u8);
        }
        assert(out@ =~= wire_bytes(self@));
        out
    }
}

impl GntpClient {
    /// A client for the named application: server `localhost` on port 23053, no icon,
    /// no password, not registered, debug output off, icons delivered as data URLs.
    pub fn new(application_name: &str) -> (r: GntpClient)
        ensures
            r@ == new_client(application_name@),
    {
        GntpClient {
            host: "localhost".to_string(),
            port: DEFAULT_PORT,
            application_name: application_name.to_string(),
            application_icon: None,
            password: None,
            registered: Registration { done: false },
            debug: false,
            icon_mode: IconMode::DataUrl,
        }
    }

    /// Sets the server's host name.
    pub fn with_host(self, host: &str) -> (r: GntpClient)
        ensures
            r@ == (GntpClientView { host: host@, ..self@ }),
    {
        let mut s = self;
        s.host = host.to_string();
        s
    }

    /// Sets the server's port.
    pub fn with_port(self, port: u16) -> (r: GntpClient)
        ensures
            r@ == (GntpClientView { port: port, ..self@ }),
    {
        let mut s = self;
        s.port = port;
        s
    }

    /// Sets the application's icon.
    pub fn with_icon(self, icon: Resource) -> (r: GntpClient)
        ensures
            r@ == (GntpClientView { application_icon: Some(icon@), ..self@ }),
    {
        let mut s = self;
        s.application_icon = Some(icon);
        s
    }

    /// Sets the password (kept, never sent: authentication is not implemented).
    pub fn with_password(self, password: &str) -> (r: GntpClient)
        ensures
            r@ == (GntpClientView { password: Some(password@), ..self@ }),
    {
        let mut s = self;
        s.password = Some(password.to_string());
        s
    }

    /// Turns the display of packets on or off.
    pub fn with_debug(self, debug: bool) -> (r: GntpClient)
        ensures
            r@ == (GntpClientView { debug: debug, ..self@ }),
    {
        let mut s = self;
        s.debug = debug;
        s
    }

    /// Sets how icons are delivered.
    pub fn with_icon_mode(self, mode: IconMode) -> (r: GntpClient)
        ensures
            r@ == (GntpClientView { icon_mode: mode, ..self@ }),
    {
        let mut s = self;
        s.icon_mode = mode;
        s
    }

    /// Whether a registration has succeeded.
    pub fn is_registered(&self) -> (r: bool)
        ensures
            r == self@.registered,
    {
        self.registered.done
    }

    /// The REGISTER message that declares the application and the given notification types.
    /// In binary mode the icons travel as resources, each identifier once; in the other modes
    /// they are referred to in the headers.
    pub fn register(&self, notifications: Vec<NotificationType>) -> (r: GntpRequest)
        ensures
            r@ == register_request(self@, notification_views(notifications@)),
    {
        let ghost c = self@;
        let ghost ns = notification_views(notifications@);
        let binary = self.icon_mode == IconMode::Binary;
        let mut packet = String::new();
        let mut resources: Vec<Resource> = Vec::new();
        packet.append("GNTP/1.0 REGISTER NONE\r\n");
        push_header(&mut packet, "Application-Name: ", self.application_name.as_str());
        push_optional_reference(&mut packet, "Application-Icon: ", &self.application_icon, &self.icon_mode);
        if binary {
            match &self.application_icon {
                Some(icon) => {
                    add_unique(&mut resources, icon);
                    assert(unique_by_identifier(seq![icon@]) =~= seq![icon@]) by {
                        let one = seq![icon@];
                        assert(one.drop_last() =~= Seq::<ResourceView>::empty());
                        assert(one.last() == icon@);
                        assert(unique_by_identifier(Seq::<ResourceView>::empty()) =~= Seq::<ResourceView>::empty());
                        assert(identifiers(Seq::<ResourceView>::empty()) =~= Seq::<Seq<char>>::empty());
                        assert(!identifiers(Seq::<ResourceView>::empty()).contains(icon@.identifier));
                    }
                },
                None => {},
            }
        }
        packet.append("Notifications-Count: ");
        push_decimal(&mut packet, notifications.len() as u128);
        packet.append("\r\n");
        packet.append("\r\n");
        assert(packet@ =~= register_head(c, ns.len()) + notification_blocks(ns.take(0), c.icon_mode)) by {
            assert(ns.take(0) =~= Seq::<NotificationTypeView>::empty());
        }
        assert(notification_icons(ns.take(0)) =~= Seq::<ResourceView>::empty()) by {
            assert(ns.take(0) =~= Seq::<NotificationTypeView>::empty());
        }
        assert(icon_seq(c.application_icon) + notification_icons(ns.take(0)) =~= icon_seq(
            c.application_icon,
        ));
        let mut i: usize = 0;
        while i < notifications.len()
            invariant
                c == self@,
                ns == notification_views(notifications@),
                binary == (c.icon_mode == IconMode::Binary),
                i <= notifications@.len(),
                packet@ == register_head(c, ns.len()) + notification_blocks(ns.take(i as int), c.icon_mode),
                resource_views(resources@) == if binary {
                    unique_by_identifier(icon_seq(c.application_icon) + notification_icons(ns.take(i as int)))
                } else {
                    Seq::<ResourceView>::empty()
                },
            decreases notifications@.len() - i,
        {
            let n = &notifications[i];
            push_notification_block(&mut packet, n, &self.icon_mode);
            let ghost before = icon_seq(c.application_icon) + notification_icons(ns.take(i as int));
            proof {
                assert(ns.take(i + 1).drop_last() =~= ns.take(i as int));
                assert(ns.take(i + 1).last() == n@);
                assert(icon_seq(c.application_icon) + notification_icons(ns.take(i + 1)) =~= before
                    + icon_seq(n@.icon));
            }
            if binary {
                match &n.icon {
                    Some(icon) => {
                        add_unique(&mut resources, icon);
                        proof {
                            let all = before + icon_seq(n@.icon);
                            assert(all =~= before.push(icon@));
                            assert(all.drop_last() =~= before);
                        }
                    },
                    None => {
                        assert(before + icon_seq(n@.icon) =~= before);
                    },
                }
            }
            i = i + 1;
        }
        assert(ns.take(i as int) =~= ns);
        push_resource_blocks(&mut packet, &resources);
        GntpRequest { packet, resources, binary }
    }

    /// Records the outcome of sending the REGISTER message: once a registration has
    /// succeeded the client is registered. The outcome is handed back unchanged.
    pub fn finish_register(&mut self, reply: Result<String, GntpError>) -> (r: Result<String, GntpError>)
        ensures
            r == reply,
            final(self)@ == after_register_reply(old(self)@, reply is Ok),
    {
        if reply.is_ok() {
            self.registered = Registration { done: true };
        }
        reply
    }

    /// The NOTIFY message for a registered notification type, with the given options.
    /// Before any successful registration it is a protocol error.
    pub fn notify_with_options(
        &self,
        notification_name: &str,
        title: &str,
        text: &str,
        options: NotifyOptions,
    ) -> (r: Result<GntpRequest, GntpError>)
        ensures
            !may_notify(self@) ==> (r matches Err(e) && is_not_registered_error(e)),
            may_notify(self@) ==> (r matches Ok(req) && req@ == notify_request(
                self@,
                notification_name@,
                title@,
                text@,
                options@,
            )),
    {
        if !self.registered.done {
            return Err(GntpError::ProtocolError("Must call register() before notify()".to_string()));
        }
        let binary = self.icon_mode == IconMode::Binary;
        let mut packet = String::new();
        let mut resources: Vec<Resource> = Vec::new();
        packet.append("GNTP/1.0 NOTIFY NONE\r\n");
        push_header(&mut packet, "Application-Name: ", self.application_name.as_str());
        push_header(&mut packet, "Notification-Name: ", notification_name);
        push_header(&mut packet, "Notification-Title: ", title);
        push_header(&mut packet, "Notification-Text: ", text);
        if options.sticky {
            packet.append("Notification-Sticky: True\r\n");
        }
        if options.priority != 0 {
            packet.append("Notification-Priority: ");
            push_signed_decimal(&mut packet, options.priority as i64);
            packet.append("\r\n");
        }
        push_optional_reference(&mut packet, "Notification-Icon: ", &options.icon, &self.icon_mode);
        if binary {
            match &options.icon {
                Some(icon) => {
                    resources.push(icon.duplicate());
                },
                None => {},
            }
        }
        packet.append("\r\n");
        assert(resource_views(resources@) =~= if binary {
            icon_seq(options@.icon)
        } else {
            Seq::<ResourceView>::empty()
        });
        push_resource_blocks(&mut packet, &resources);
        let req = GntpRequest { packet, resources, binary };
        assert(req@.packet =~= notify_request(self@, notification_name@, title@, text@, options@).packet);
        Ok(req)
    }

    /// The NOTIFY message with the default options (not sticky, normal priority, no icon).
    pub fn notify(&self, notification_name: &str, title: &str, text: &str) -> (r: Result<GntpRequest, GntpError>)
        ensures
            !may_notify(self@) ==> (r matches Err(e) && is_not_registered_error(e)),
            may_notify(self@) ==> (r matches Ok(req) && req@ == notify_request(
                self@,
                notification_name@,
                title@,
                text@,
                NotifyOptionsView { sticky: false, priority: 0, icon: None },
            )),
    {
        self.notify_with_options(notification_name, title, text, NotifyOptions::new())
    }

    /// The `host:port` address of the server.
    pub fn address(&self) -> (r: String)
        ensures
            r@ == self@.host + ":"@ + decimal(self@.port as nat),
    {
        let mut a = self.host.clone();
        a.append(":");
        push_decimal(&mut a, self.port as u128);
        a
    }

    /// The error for a failed connection to the server, given the failure's message.
    pub fn connection_error(&self, detail: &str) -> (r: GntpError)
        ensures
            r matches GntpError::ConnectionError(m) && m@ == "Failed to connect to "@ + self@.host
                + ":"@ + decimal(self@.port as nat) + ": "@ + detail@,
    {
        let a = self.address();
        GntpError::ConnectionError("Failed to connect to ".to_string().concat(a.as_str()).concat(": ").concat(detail))
    }

    /// Judges what reading the server's reply gave (see `reply_result`).
    pub fn reply_from(outcome: ReadOutcome) -> (r: Result<String, GntpError>)
        ensures
            reply_result(outcome, r),
    {
        match outcome {
            ReadOutcome::Received(s) => {
                if contains_text(s.as_str(), "-ERROR") {
                    Err(GntpError::ProtocolError("Server error: ".to_string().concat(s.as_str())))
                } else {
                    Ok(s)
                }
            },
            ReadOutcome::Closed => Ok(String::new()),
            ReadOutcome::Failed(m) => Err(GntpError::IoError(m)),
        }
    }
}
} // verus!
