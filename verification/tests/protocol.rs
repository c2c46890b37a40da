use gntp::base64::base64_encode;
use gntp::client::ReadOutcome;
use gntp::resource::{guess_mime_type, mime_type_for_extension};
use gntp::{GntpClient, GntpError, IconMode, NotificationType, NotifyOptions, Resource};

fn icon(bytes: &[u8]) -> Resource {
    Resource::from_bytes(bytes.to_vec(), "image/png")
}

fn is_uuid_v4(s: &str) -> bool {
    let cs: Vec<char> = s.chars().collect();
    if cs.len() != 36 {
        return false;
    }
    for (i, c) in cs.iter().enumerate() {
        if i == 8 || i == 13 || i == 18 || i == 23 {
            if *c != '-' {
                return false;
            }
        } else if !(c.is_ascii_digit() || ('a'..='f').contains(c)) {
            return false;
        }
    }
    cs[14] == '4' && matches!(cs[19], '8' | '9' | 'a' | 'b')
}

#[test]
fn error_messages_name_their_kind() {
    assert_eq!(GntpError::ConnectionError("refused".to_string()).message(), "Connection error: refused");
    assert_eq!(GntpError::IoError("gone".to_string()).message(), "I/O error: gone");
    assert_eq!(GntpError::ProtocolError("bad".to_string()).message(), "Protocol error: bad");
}

#[test]
fn base64_rfc4648_vectors() {
    assert_eq!(base64_encode(b""), "");
    assert_eq!(base64_encode(b"f"), "Zg==");
    assert_eq!(base64_encode(b"fo"), "Zm8=");
    assert_eq!(base64_encode(b"foo"), "Zm9v");
    assert_eq!(base64_encode(b"foob"), "Zm9vYg==");
    assert_eq!(base64_encode(b"fooba"), "Zm9vYmE=");
    assert_eq!(base64_encode(b"foobar"), "Zm9vYmFy");
    assert_eq!(base64_encode(b"hello"), "aGVsbG8=");
    assert_eq!(base64_encode(b"hell"), "aGVsbA==");
    assert_eq!(base64_encode(&[0xff, 0xfe, 0xfd]), "//79");
    assert_eq!(base64_encode(&[0xfb, 0xef, 0xbe]), "++++");
}

#[test]
fn base64_length_and_alphabet_on_long_input() {
    let data: Vec<u8> = (0..100u32).map(|i| (i * 37 % 256) as u8).collect();
    let wrapped = base64_encode(&data);
    let raw_len = 4 * ((100 + 2) / 3);
    assert_eq!(wrapped.len(), raw_len + 2 * ((raw_len - 1) / 76));
    let encoded = wrapped.replace("\r\n", "");
    assert_eq!(encoded.len(), raw_len);
    assert!(encoded
        .chars()
        .all(|c| c.is_ascii_alphanumeric() || c == '+' || c == '/' || c == '='));
}

#[test]
fn mime_types_follow_the_extension() {
    assert_eq!(guess_mime_type("icon.png"), "image/png");
    assert_eq!(guess_mime_type("/usr/share/a.jpg"), "image/jpeg");
    assert_eq!(guess_mime_type("a.jpeg"), "image/jpeg");
    assert_eq!(guess_mime_type("a.gif"), "image/gif");
    assert_eq!(guess_mime_type("a.bmp"), "image/bmp");
    assert_eq!(guess_mime_type("a.ico"), "image/x-icon");
    assert_eq!(guess_mime_type("a.svg"), "image/svg+xml");
    assert_eq!(guess_mime_type("a.webp"), "image/webp");
    assert_eq!(guess_mime_type("a.PNG"), "application/octet-stream");
    assert_eq!(guess_mime_type("noextension"), "application/octet-stream");
    assert_eq!(guess_mime_type(".png"), "application/octet-stream");
    assert_eq!(guess_mime_type("dir.png/file"), "application/octet-stream");
    assert_eq!(mime_type_for_extension(Some("ico")), "image/x-icon");
    assert_eq!(mime_type_for_extension(None), "application/octet-stream");
}

#[test]
fn resource_from_bytes_keeps_data_and_gets_uuid() {
    let r = Resource::from_bytes(vec![1, 2, 3], "image/gif");
    assert_eq!(r.data, vec![1, 2, 3]);
    assert_eq!(r.mime_type, "image/gif");
    assert!(r.source_path.is_none());
    assert!(is_uuid_v4(&r.identifier), "{}", r.identifier);
    let other = Resource::from_bytes(vec![1, 2, 3], "image/gif");
    assert_ne!(r.identifier, other.identifier);
}

#[test]
fn resource_from_file_contents() {
    let r = Resource::from_file("/tmp/growl.png", Ok(vec![9, 8])).unwrap();
    assert_eq!(r.data, vec![9, 8]);
    assert_eq!(r.mime_type, "image/png");
    assert_eq!(r.source_path.as_deref(), Some("/tmp/growl.png"));
    assert!(is_uuid_v4(&r.identifier));

    let e = Resource::from_file("missing.png", Err("No such file or directory".to_string()));
    match e {
        Err(GntpError::IoError(m)) => {
            assert_eq!(m, "Failed to read file missing.png: No such file or directory")
        }
        _ => panic!("expected an I/O error"),
    }

    let p = Resource::from_pathbuf("x.jpg".to_string(), Ok(vec![])).unwrap();
    assert_eq!(p.mime_type, "image/jpeg");
}

#[test]
fn icon_references_per_mode() {
    let mut r = icon(b"hello");
    assert_eq!(r.get_reference(&IconMode::Binary), format!("x-growl-resource://{}", r.identifier));
    assert_eq!(r.get_reference(&IconMode::DataUrl), "data:image/png;base64,aGVsbG8=");
    assert_eq!(r.get_reference(&IconMode::Auto), "data:image/png;base64,aGVsbG8=");
    assert_eq!(r.get_reference(&IconMode::FileUrl), "data:image/png;base64,aGVsbG8=");
    assert_eq!(r.get_reference(&IconMode::HttpUrl), "data:image/png;base64,aGVsbG8=");
    r.source_path = Some("C:\\icons\\a.png".to_string());
    assert_eq!(r.get_reference(&IconMode::FileUrl), "file:///C:/icons/a.png");
    r.source_path = Some("http://host/i.png".to_string());
    assert_eq!(r.get_reference(&IconMode::HttpUrl), "http://host/i.png");
    assert_eq!(r.to_data_url(), "data:image/png;base64,aGVsbG8=");
}

#[test]
fn notification_type_builders() {
    let n = NotificationType::new("alert");
    assert_eq!(n.name, "alert");
    assert!(n.display_name.is_none());
    assert!(n.enabled);
    assert!(n.icon.is_none());
    let n = n.with_display_name("Alert").with_enabled(false).with_icon(icon(b"x"));
    assert_eq!(n.display_name.as_deref(), Some("Alert"));
    assert!(!n.enabled);
    assert_eq!(n.icon.unwrap().data, b"x".to_vec());
}

#[test]
fn notify_options_priority_is_clamped() {
    let o = NotifyOptions::new();
    assert!(!o.sticky);
    assert_eq!(o.priority, 0);
    assert!(o.icon.is_none());
    let d = NotifyOptions::default();
    assert_eq!(d.priority, 0);
    assert_eq!(NotifyOptions::new().with_priority(5).priority, 2);
    assert_eq!(NotifyOptions::new().with_priority(-7).priority, -2);
    assert_eq!(NotifyOptions::new().with_priority(1).priority, 1);
    assert_eq!(NotifyOptions::new().with_priority(-2).priority, -2);
    assert_eq!(NotifyOptions::new().with_priority(i8::MIN).priority, -2);
    assert_eq!(NotifyOptions::new().with_priority(i8::MAX).priority, 2);
    let o = NotifyOptions::new().with_sticky(true).with_icon(icon(b"i"));
    assert!(o.sticky);
    assert!(o.icon.is_some());
}

#[test]
fn client_defaults_and_builders() {
    let c = GntpClient::new("My App");
    assert_eq!(c.host, "localhost");
    assert_eq!(c.port, 23053);
    assert_eq!(c.application_name, "My App");
    assert!(c.application_icon.is_none());
    assert!(c.password.is_none());
    assert!(!c.debug);
    assert_eq!(c.icon_mode, IconMode::DataUrl);
    assert!(!c.is_registered());
    let c = c
        .with_host("192.168.1.100")
        .with_port(1234)
        .with_password("secret")
        .with_debug(true)
        .with_icon_mode(IconMode::Binary)
        .with_icon(icon(b"a"));
    assert_eq!(c.host, "192.168.1.100");
    assert_eq!(c.port, 1234);
    assert_eq!(c.password.as_deref(), Some("secret"));
    assert!(c.debug);
    assert_eq!(c.icon_mode, IconMode::Binary);
    assert!(c.application_icon.is_some());
    assert_eq!(c.address(), "192.168.1.100:1234");
}

#[test]
fn notify_before_register_is_a_protocol_error() {
    let c = GntpClient::new("Test App");
    match c.notify("test", "Title", "Text") {
        Err(GntpError::ProtocolError(m)) => assert_eq!(m, "Must call register() before notify()"),
        _ => panic!("expected a protocol error"),
    }
}

#[test]
fn failed_registration_does_not_register() {
    let mut c = GntpClient::new("App");
    let r = c.finish_register(Err(GntpError::ConnectionError("down".to_string())));
    assert!(matches!(r, Err(GntpError::ConnectionError(_))));
    assert!(!c.is_registered());
    assert!(c.notify("a", "b", "c").is_err());
    let r = c.finish_register(Ok("GNTP/1.0 -OK NONE\r\n".to_string()));
    assert_eq!(r.unwrap(), "GNTP/1.0 -OK NONE\r\n");
    assert!(c.is_registered());
    assert!(c.notify("a", "b", "c").is_ok());
    let _ = c.finish_register(Err(GntpError::IoError("later".to_string())));
    assert!(c.is_registered());
}

#[test]
fn register_packet_in_data_url_mode() {
    let c = GntpClient::new("App");
    let n = NotificationType::new("alert").with_display_name("Alert");
    let req = c.register(vec![n, NotificationType::new("info").with_enabled(false)]);
    assert_eq!(
        req.packet,
        "GNTP/1.0 REGISTER NONE\r\n\
         Application-Name: App\r\n\
         Notifications-Count: 2\r\n\
         \r\n\
         Notification-Name: alert\r\n\
         Notification-Display-Name: Alert\r\n\
         Notification-Enabled: True\r\n\
         \r\n\
         Notification-Name: info\r\n\
         Notification-Enabled: False\r\n\
         \r\n"
    );
    assert!(req.resources.is_empty());
    assert!(!req.binary);
    assert_eq!(req.to_bytes(), req.packet.as_bytes().to_vec());
}

#[test]
fn register_with_no_notification_types() {
    let req = GntpClient::new("App").register(vec![]);
    assert_eq!(
        req.packet,
        "GNTP/1.0 REGISTER NONE\r\nApplication-Name: App\r\nNotifications-Count: 0\r\n\r\n"
    );
}

#[test]
fn register_icons_as_data_urls() {
    let i = icon(b"hi");
    let c = GntpClient::new("App").with_icon(i.clone());
    let req = c.register(vec![NotificationType::new("a").with_icon(i)]);
    assert_eq!(
        req.packet,
        "GNTP/1.0 REGISTER NONE\r\n\
         Application-Name: App\r\n\
         Application-Icon: data:image/png;base64,aGk=\r\n\
         Notifications-Count: 1\r\n\
         \r\n\
         Notification-Name: a\r\n\
         Notification-Enabled: True\r\n\
         Notification-Icon: data:image/png;base64,aGk=\r\n\
         \r\n"
    );
    assert!(req.resources.is_empty());
}

#[test]
fn register_binary_deduplicates_resources() {
    let shared = icon(b"hello");
    let other = icon(b"xyz");
    let c = GntpClient::new("App").with_icon_mode(IconMode::Binary).with_icon(shared.clone());
    let req = c.register(vec![
        NotificationType::new("a").with_icon(shared.clone()),
        NotificationType::new("b").with_icon(other.clone()),
        NotificationType::new("c").with_icon(shared.clone()),
    ]);
    assert!(req.binary);
    assert_eq!(req.resources.len(), 2);
    assert_eq!(req.resources[0].identifier, shared.identifier);
    assert_eq!(req.resources[1].identifier, other.identifier);
    assert_eq!(req.packet.matches("Identifier: ").count(), 2);
    let tail = format!(
        "Identifier: {}\r\nLength: 5\r\n\r\nIdentifier: {}\r\nLength: 3\r\n\r\n",
        shared.identifier, other.identifier
    );
    assert!(req.packet.ends_with(&tail));
    assert_eq!(
        req.packet.matches(&format!("x-growl-resource://{}", shared.identifier)).count(),
        3
    );
    let mut expected = req.packet.as_bytes().to_vec();
    expected.extend_from_slice(b"hello\r\nxyz\r\n\r\n");
    assert_eq!(req.to_bytes(), expected);
}

#[test]
fn notify_packet_with_options() {
    let mut c = GntpClient::new("App");
    c.finish_register(Ok(String::new())).unwrap();
    let opts = NotifyOptions::new().with_sticky(true).with_priority(-1).with_icon(icon(b"hi"));
    let req = c.notify_with_options("alert", "T", "X", opts).unwrap();
    assert_eq!(
        req.packet,
        "GNTP/1.0 NOTIFY NONE\r\n\
         Application-Name: App\r\n\
         Notification-Name: alert\r\n\
         Notification-Title: T\r\n\
         Notification-Text: X\r\n\
         Notification-Sticky: True\r\n\
         Notification-Priority: -1\r\n\
         Notification-Icon: data:image/png;base64,aGk=\r\n\
         \r\n"
    );
    assert!(req.resources.is_empty());
    let plain = c.notify("alert", "Hello", "World").unwrap();
    assert_eq!(
        plain.packet,
        "GNTP/1.0 NOTIFY NONE\r\nApplication-Name: App\r\nNotification-Name: alert\r\n\
         Notification-Title: Hello\r\nNotification-Text: World\r\n\r\n"
    );
}

#[test]
fn notify_binary_carries_its_icon() {
    let mut c = GntpClient::new("App").with_icon_mode(IconMode::Binary);
    c.finish_register(Ok(String::new())).unwrap();
    let i = icon(b"ab");
    let req = c
        .notify_with_options("n", "t", "x", NotifyOptions::new().with_priority(2).with_icon(i.clone()))
        .unwrap();
    let expected = format!(
        "GNTP/1.0 NOTIFY NONE\r\nApplication-Name: App\r\nNotification-Name: n\r\n\
         Notification-Title: t\r\nNotification-Text: x\r\nNotification-Priority: 2\r\n\
         Notification-Icon: x-growl-resource://{id}\r\n\r\nIdentifier: {id}\r\nLength: 2\r\n\r\n",
        id = i.identifier
    );
    assert_eq!(req.packet, expected);
    let mut bytes = expected.into_bytes();
    bytes.extend_from_slice(b"ab\r\n\r\n");
    assert_eq!(req.to_bytes(), bytes);
    let bare = c.notify("n", "t", "x").unwrap();
    let mut bare_bytes = bare.packet.clone().into_bytes();
    bare_bytes.extend_from_slice(b"\r\n");
    assert_eq!(bare.to_bytes(), bare_bytes);
}

#[test]
fn replies_are_judged() {
    let ok = GntpClient::reply_from(ReadOutcome::Received("GNTP/1.0 -OK NONE\r\n".to_string()));
    assert_eq!(ok.unwrap(), "GNTP/1.0 -OK NONE\r\n");
    match GntpClient::reply_from(ReadOutcome::Received("GNTP/1.0 -ERROR NONE\r\n".to_string())) {
        Err(GntpError::ProtocolError(m)) => assert_eq!(m, "Server error: GNTP/1.0 -ERROR NONE\r\n"),
        _ => panic!("expected a protocol error"),
    }
    assert_eq!(GntpClient::reply_from(ReadOutcome::Closed).unwrap(), "");
    match GntpClient::reply_from(ReadOutcome::Failed("timed out".to_string())) {
        Err(GntpError::IoError(m)) => assert_eq!(m, "timed out"),
        _ => panic!("expected an I/O error"),
    }
}

#[test]
fn connection_error_names_the_address() {
    let c = GntpClient::new("App").with_host("255.255.255.255").with_port(65535);
    match c.connection_error("unreachable") {
        GntpError::ConnectionError(m) => {
            assert_eq!(m, "Failed to connect to 255.255.255.255:65535: unreachable")
        }
        _ => panic!("expected a connection error"),
    }
}

fn decode_base64(s: &str) -> Vec<u8> {
    fn value(c: u8) -> u32 {
        match c {
            b'A'..=b'Z' => (c - b'A') as u32,
            b'a'..=b'z' => (c - b'a') as u32 + 26,
            b'0'..=b'9' => (c - b'0') as u32 + 52,
            b'+' => 62,
            _ => 63,
        }
    }
    let unwrapped = s.replace("\r\n", "");
    let bytes = unwrapped.as_bytes();
    let mut out = Vec::new();
    for g in bytes.chunks(4) {
        let n = (value(g[0]) << 18) | (value(g[1]) << 12) | (value(g[2]) << 6) | value(g[3]);
        out.push((n >> 16) as u8);
        if g[2] != b'=' {
            out.push((n >> 8) as u8);
        }
        if g[3] != b'=' {
            out.push(n as u8);
        }
    }
    out
}

#[test]
fn base64_decodes_back_to_the_bytes() {
    for len in 0..40usize {
        let data: Vec<u8> = (0..len).map(|i| (i * 97 + 13) as u8).collect();
        assert_eq!(decode_base64(&base64_encode(&data)), data);
    }
    let all: Vec<u8> = (0..=255u8).collect();
    assert_eq!(decode_base64(&base64_encode(&all)), all);
}

#[test]
fn duplicate_resource_is_equal() {
    let mut r = icon(b"abc");
    r.source_path = Some("/x/y.png".to_string());
    let d = r.duplicate();
    assert_eq!(d.identifier, r.identifier);
    assert_eq!(d.data, r.data);
    assert_eq!(d.source_path, r.source_path);
    assert_eq!(d.mime_type, r.mime_type);
}

#[test]
fn base64_lines_break_every_76_characters() {
    let data: Vec<u8> = (0..58u32).map(|i| (i * 7 + 1) as u8).collect();
    let wrapped = base64_encode(&data);
    assert_eq!(wrapped.len(), 82);
    assert_eq!(&wrapped[76..78], "\r\n");
    assert!(!wrapped.ends_with("\r\n"));
    assert_eq!(wrapped.replace("\r\n", "").len(), 80);
    assert_eq!(decode_base64(&wrapped.replace("\r\n", "")), data);

    let exact: Vec<u8> = vec![0u8; 57];
    let line = base64_encode(&exact);
    assert_eq!(line.len(), 76);
    assert!(!line.contains('\r'));

    let long: Vec<u8> = vec![255u8; 300];
    let text = base64_encode(&long);
    let lines: Vec<&str> = text.split("\r\n").collect();
    assert_eq!(lines.len(), 6);
    assert!(lines[..5].iter().all(|l| l.len() == 76));
    assert_eq!(lines[5].len(), 400 - 5 * 76);
}

#[test]
fn large_icons_are_flagged_in_data_url_modes() {
    let small = icon(b"hello");
    assert!(small.data_url_warning(&IconMode::DataUrl).is_none());
    let big = Resource::from_bytes(vec![7u8; 375_000], "image/png");
    let n = base64_encode(&big.data).len();
    assert_eq!(n, 500_000 + 2 * ((500_000 - 1) / 76));
    let w = big.data_url_warning(&IconMode::DataUrl).unwrap();
    assert_eq!(w, format!("Warning: Icon size ({} bytes) may be too large for some GNTP servers", n));
    assert!(big.data_url_warning(&IconMode::Auto).is_some());
    assert!(big.data_url_warning(&IconMode::FileUrl).is_some());
    assert!(big.data_url_warning(&IconMode::Binary).is_none());
    let mut on_disk = big.clone();
    on_disk.source_path = Some("/big.png".to_string());
    assert!(on_disk.data_url_warning(&IconMode::FileUrl).is_none());
    assert!(on_disk.data_url_warning(&IconMode::DataUrl).is_some());
    let limit = Resource::from_bytes(vec![0u8; 365_000], "image/png");
    assert!(base64_encode(&limit.data).len() <= 500_000);
    assert!(limit.data_url_warning(&IconMode::DataUrl).is_none());
}
