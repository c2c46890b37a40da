use vstd::prelude::*;

use crate::base64::{
    alphabet_char, alphabet_value, base64, base64_decode, base64_lines, decode_group, encode_group,
    wrap_lines,
};
use crate::client::{
    after_register_reply, icon_seq, identifiers, may_notify, new_client, notification_block,
    notification_blocks,
    notification_icons, notify_request, register_request, reply_result, unique_by_identifier,
    wire_bytes, GntpClientView, GntpRequestView, ReadOutcome,
};
use crate::error::GntpError;
use crate::delivery::{entry_target, host_entry};
use crate::notification::{clamp_priority, NotificationTypeView, NotifyOptionsView};
use crate::resource::{data_url, icon_reference, uses_data_url, IconMode, ResourceView};
use crate::text::{
    decimal, digit_char, digits_value, find_char, has_infix, is_digit, parse_u16_spec,
    signed_decimal,
};

verus! {

/// No two resources share an identifier.
pub open spec fn distinct_identifiers(rs: Seq<ResourceView>) -> bool {
    forall|i: int, j: int|
        0 <= i < j < rs.len() ==> #[trigger] rs[i].identifier != #[trigger] rs[j].identifier
}

proof fn lemma_unique_by_identifier(rs: Seq<ResourceView>)
    ensures
        distinct_identifiers(unique_by_identifier(rs)),
        forall|k: int|
            0 <= k < rs.len() ==> identifiers(unique_by_identifier(rs)).contains(
                #[trigger] rs[k].identifier,
            ),
        forall|k: int|
            0 <= k < unique_by_identifier(rs).len() ==> rs.contains(
                #[trigger] unique_by_identifier(rs)[k],
            ),
    decreases rs.len(),
{
    if rs.len() > 0 {
        let p = rs.drop_last();
        let x = rs.last();
        lemma_unique_by_identifier(p);
        let d = unique_by_identifier(p);
        let u = unique_by_identifier(rs);
        assert forall|k: int| 0 <= k < d.len() implies rs.contains(#[trigger] d[k]) by {
            assert(p.contains(d[k]));
            let m = choose|m: int| 0 <= m < p.len() && p[m] == d[k];
            assert(rs[m] == d[k]);
        }
        if identifiers(d).contains(x.identifier) {
            assert forall|k: int| 0 <= k < rs.len() implies identifiers(u).contains(
                #[trigger] rs[k].identifier,
            ) by {
                if k < rs.len() - 1 {
                    assert(rs[k] == p[k]);
                }
            }
        } else {
            assert(u == d.push(x));
            assert forall|i: int, j: int| 0 <= i < j < u.len() implies #[trigger] u[i].identifier
                != #[trigger] u[j].identifier by {
                if j == u.len() - 1 {
                    assert(identifiers(d)[i] == d[i].identifier);
                }
            }
            assert forall|k: int| 0 <= k < rs.len() implies identifiers(u).contains(
                #[trigger] rs[k].identifier,
            ) by {
                if k < rs.len() - 1 {
                    assert(rs[k] == p[k]);
                    let m = choose|m: int|
                        0 <= m < identifiers(d).len() && identifiers(d)[m] == p[k].identifier;
                    assert(identifiers(u)[m] == identifiers(d)[m]);
                } else {
                    assert(identifiers(u)[u.len() - 1] == x.identifier);
                }
            }
            assert forall|k: int| 0 <= k < u.len() implies rs.contains(#[trigger] u[k]) by {
                if k == u.len() - 1 {
                    assert(rs[rs.len() - 1] == x);
                } else {
                    assert(u[k] == d[k]);
                }
            }
        }
    }
}

/// In binary mode a REGISTER message carries every icon it refers to (the application's and
/// the notification types') as a resource, carries no other resource, and carries each
/// identifier once, however many times the same icon is used.
pub proof fn register_resources_are_deduplicated(c: GntpClientView, ns: Seq<NotificationTypeView>)
    requires
        c.icon_mode == IconMode::Binary,
    ensures
        distinct_identifiers(register_request(c, ns).resources),
        forall|k: int|
            0 <= k < (icon_seq(c.application_icon) + notification_icons(ns)).len()
                ==> identifiers(register_request(c, ns).resources).contains(
                #[trigger] (icon_seq(c.application_icon) + notification_icons(ns))[k].identifier,
            ),
        forall|k: int|
            0 <= k < register_request(c, ns).resources.len() ==> (icon_seq(c.application_icon)
                + notification_icons(ns)).contains(#[trigger] register_request(c, ns).resources[k]),
{
    lemma_unique_by_identifier(icon_seq(c.application_icon) + notification_icons(ns));
}

/// Outside binary mode a REGISTER message carries no resource: icons travel in the headers.
pub proof fn register_without_binary_has_no_resources(c: GntpClientView, ns: Seq<NotificationTypeView>)
    requires
        c.icon_mode != IconMode::Binary,
    ensures
        register_request(c, ns).resources.len() == 0,
        !register_request(c, ns).binary,
{
}

/// A priority set through the options always lies between -2 and 2; one already in that
/// range is kept, and limiting twice is limiting once.
pub proof fn priority_is_limited(p: int)
    ensures
        -2 <= clamp_priority(p) <= 2,
        -2 <= p <= 2 ==> clamp_priority(p) == p,
        clamp_priority(clamp_priority(p)) == clamp_priority(p),
{
}

/// `IconMode::Auto` delivers icons as `IconMode::DataUrl` does, and whenever an icon is
/// said to travel as a data URL (the case the large-icon warning looks at), its reference is
/// its data URL.
pub proof fn auto_mode_is_data_url(r: ResourceView, mode: IconMode)
    ensures
        icon_reference(r, IconMode::Auto) == icon_reference(r, IconMode::DataUrl),
        icon_reference(r, IconMode::DataUrl) == data_url(r),
        uses_data_url(r, mode) ==> icon_reference(r, mode) == data_url(r),
{
}

/// `c` belongs to the base64 alphabet or is the padding character.
pub open spec fn is_base64_char(c: char) -> bool {
    ('A' <= c <= 'Z') || ('a' <= c <= 'z') || ('0' <= c <= '9') || c == '+' || c == '/' || c == '='
}

proof fn lemma_alphabet_char(v: int)
    requires
        0 <= v < 64,
    ensures
        is_base64_char(alphabet_char(v)),
        alphabet_char(v) != '=',
{
}

/// The base64 text (before it is cut into lines) has four characters for every three bytes
/// begun, drawn from the base64 alphabet and the padding character `=`.
pub proof fn base64_length_and_alphabet(data: Seq<u8>)
    ensures
        base64(data).len() == 4 * ((data.len() + 2) / 3),
        forall|i: int| 0 <= i < base64(data).len() ==> is_base64_char(#[trigger] base64(data)[i]),
    decreases data.len(),
{
    if data.len() > 0 {
        let b1 = data[0] as int;
        let b2 = if data.len() > 1 { data[1] as int } else { 0 };
        let b3 = if data.len() > 2 { data[2] as int } else { 0 };
        lemma_alphabet_char(b1 / 4);
        lemma_alphabet_char((b1 % 4) * 16 + b2 / 16);
        lemma_alphabet_char((b2 % 16) * 4 + b3 / 64);
        lemma_alphabet_char(b3 % 64);
        let g = encode_group(data);
        assert(forall|i: int| 0 <= i < 4 ==> is_base64_char(#[trigger] g[i]));
        if data.len() > 3 {
            base64_length_and_alphabet(data.skip(3));
            let rest = base64(data.skip(3));
            assert forall|i: int| 0 <= i < base64(data).len() implies is_base64_char(
                #[trigger] base64(data)[i],
            ) by {
                if i >= 4 {
                    assert(base64(data)[i] == rest[i - 4]);
                } else {
                    assert(base64(data)[i] == g[i]);
                }
            }
        }
    }
}

proof fn lemma_decimal_digits(n: nat)
    ensures
        decimal(n).len() > 0,
        forall|i: int| 0 <= i < decimal(n).len() ==> is_digit(#[trigger] decimal(n)[i]),
        digits_value(decimal(n)) == n,
    decreases n,
{
    if n >= 10 {
        lemma_decimal_digits(n / 10);
        let s = decimal(n);
        assert(s.drop_last() =~= decimal(n / 10));
        assert(s.last() == digit_char((n % 10) as int));
        assert(digit_char((n % 10) as int) as int == n % 10 + 48);
        assert(digits_value(s) == digits_value(decimal(n / 10)) * 10 + (n % 10));
        assert((n / 10) * 10 + n % 10 == n);
        assert forall|i: int| 0 <= i < s.len() implies is_digit(#[trigger] s[i]) by {
            if i < s.len() - 1 {
                assert(s[i] == decimal(n / 10)[i]);
            }
        }
    } else {
        assert(seq![digit_char(n as int)].drop_last() =~= Seq::<char>::empty());
        assert(digit_char(n as int) as int == n + 48);
        let one = seq![digit_char(n as int)];
        assert(digits_value(one.drop_last()) == 0);
        assert(one.last() == digit_char(n as int));
        assert(digits_value(one) == n);
        assert(decimal(n) == one);
    }
}

/// A number written in decimal reads back as the same number.
pub proof fn decimal_port_parses_back(p: u16)
    ensures
        parse_u16_spec(decimal(p as nat)) == Some(p),
{
    lemma_decimal_digits(p as nat);
    assert(is_digit(decimal(p as nat)[0]));
}

proof fn lemma_find_char_append(a: Seq<char>, b: Seq<char>, c: char)
    requires
        !a.contains(c),
    ensures
        find_char(a + b, c) == a.len() + find_char(b, c),
    decreases a.len(),
{
    if a.len() > 0 {
        assert((a + b)[0] == a[0]);
        assert((a + b).drop_first() =~= a.drop_first() + b);
        assert(!a.drop_first().contains(c)) by {
            if a.drop_first().contains(c) {
                let k = choose|k: int| 0 <= k < a.drop_first().len() && a.drop_first()[k] == c;
                assert(a[k + 1] == c);
            }
        }
        lemma_find_char_append(a.drop_first(), b, c);
    } else {
        assert(a + b =~= b);
    }
}

proof fn lemma_find_char_absent(a: Seq<char>, c: char)
    requires
        !a.contains(c),
    ensures
        find_char(a, c) == a.len(),
{
    lemma_find_char_append(a, Seq::empty(), c);
    assert(a + Seq::<char>::empty() =~= a);
}

/// A host given without a port is contacted at the default port, under its own name.
pub proof fn host_without_port_uses_default(h: Seq<char>, port: u16)
    requires
        !h.contains(':'),
    ensures
        entry_target(host_entry(h, port), port) == (h, port),
{
    let d = decimal(port as nat);
    lemma_decimal_digits(port as nat);
    assert(!d.contains(':')) by {
        if d.contains(':') {
            let k = choose|k: int| 0 <= k < d.len() && d[k] == ':';
            assert(is_digit(d[k]));
        }
    }
    let colon = ":"@;
    assert(colon =~= seq![':']) by {
        reveal_strlit(":");
    }
    let e = h + colon + d;
    assert(e =~= h + (colon + d));
    lemma_find_char_append(h, colon + d, ':');
    assert((colon + d)[0] == ':');
    assert(find_char(colon + d, ':') == 0);
    assert(e.take(h.len() as int) =~= h);
    assert(e.skip(h.len() + 1int) =~= d);
    lemma_find_char_absent(d, ':');
    assert(d.take(d.len() as int) =~= d);
    decimal_port_parses_back(port);
}

/// Notifications need a registration first: a new client may not notify, a successful
/// registration allows it, a failed one does not, and once allowed it stays allowed.
pub proof fn notify_needs_registration(application_name: Seq<char>, c: GntpClientView, reply_ok: bool)
    ensures
        !may_notify(new_client(application_name)),
        may_notify(after_register_reply(c, true)),
        !may_notify(c) ==> !may_notify(after_register_reply(c, false)),
        may_notify(c) ==> may_notify(after_register_reply(c, reply_ok)),
{
}

proof fn lemma_alphabet_value(v: int)
    requires
        0 <= v < 64,
    ensures
        alphabet_value(alphabet_char(v)) == v,
{
}

proof fn lemma_decode_encode_group(data: Seq<u8>)
    requires
        data.len() > 0,
    ensures
        decode_group(encode_group(data)) == if data.len() >= 3 {
            data.take(3)
        } else {
            data
        },
{
    let b1 = data[0] as int;
    let b2 = if data.len() > 1 { data[1] as int } else { 0 };
    let b3 = if data.len() > 2 { data[2] as int } else { 0 };
    let a = b1 / 4;
    let b = (b1 % 4) * 16 + b2 / 16;
    let c = (b2 % 16) * 4 + b3 / 64;
    let d = b3 % 64;
    lemma_alphabet_value(a);
    lemma_alphabet_value(b);
    lemma_alphabet_value(c);
    lemma_alphabet_value(d);
    lemma_alphabet_char(c);
    lemma_alphabet_char(d);
    assert(a * 4 + b / 16 == b1);
    assert((b % 16) * 16 + c / 4 == b2);
    assert((c % 4) * 64 + d == b3);
    let g = encode_group(data);
    if data.len() >= 3 {
        assert(decode_group(g) =~= data.take(3));
    } else if data.len() == 2 {
        assert(decode_group(g) =~= data);
    } else {
        assert(decode_group(g) =~= data);
    }
}

/// Decoding the base64 text of some bytes gives those bytes back: the encoding loses nothing.
pub proof fn base64_decodes_back(data: Seq<u8>)
    ensures
        base64_decode(base64(data)) == data,
    decreases data.len(),
{
    if data.len() > 0 {
        lemma_decode_encode_group(data);
        let g = encode_group(data);
        if data.len() <= 3 {
            assert(base64(data).take(4) =~= g);
            assert(base64(data).skip(4) =~= Seq::<char>::empty());
            assert(base64_decode(Seq::<char>::empty()) =~= Seq::<u8>::empty());
            if data.len() == 3 {
                assert(data.take(3) =~= data);
            }
            assert(base64_decode(base64(data)) =~= data);
        } else {
            base64_decodes_back(data.skip(3));
            let rest = base64(data.skip(3));
            assert(base64(data).take(4) =~= g);
            assert(base64(data).skip(4) =~= rest);
            assert(data =~= data.take(3) + data.skip(3));
        }
    } else {
        assert(base64_decode(Seq::<char>::empty()) =~= Seq::<u8>::empty());
    }
}

/// `s` without its carriage returns and line feeds.
pub open spec fn without_line_breaks(s: Seq<char>) -> Seq<char>
    decreases s.len(),
{
    if s.len() == 0 {
        s
    } else if s.last() == '\r' || s.last() == '\n' {
        without_line_breaks(s.drop_last())
    } else {
        without_line_breaks(s.drop_last()).push(s.last())
    }
}

/// `s` holds no carriage return and no line feed.
pub open spec fn no_line_breaks(s: Seq<char>) -> bool {
    forall|i: int| 0 <= i < s.len() ==> #[trigger] s[i] != '\r' && s[i] != '\n'
}

proof fn lemma_without_line_breaks_append(a: Seq<char>, b: Seq<char>)
    ensures
        without_line_breaks(a + b) == without_line_breaks(a) + without_line_breaks(b),
    decreases b.len(),
{
    if b.len() == 0 {
        assert(a + b =~= a);
        assert(without_line_breaks(a) + without_line_breaks(b) =~= without_line_breaks(a));
    } else {
        lemma_without_line_breaks_append(a, b.drop_last());
        assert((a + b).drop_last() =~= a + b.drop_last());
        assert((a + b).last() == b.last());
        if !(b.last() == '\r' || b.last() == '\n') {
            assert(without_line_breaks(a) + without_line_breaks(b.drop_last()).push(b.last())
                =~= (without_line_breaks(a) + without_line_breaks(b.drop_last())).push(b.last()));
        }
    }
}

proof fn lemma_without_line_breaks_none(s: Seq<char>)
    requires
        no_line_breaks(s),
    ensures
        without_line_breaks(s) == s,
    decreases s.len(),
{
    if s.len() > 0 {
        assert(no_line_breaks(s.drop_last())) by {
            assert forall|i: int| 0 <= i < s.drop_last().len() implies #[trigger] s.drop_last()[i]
                != '\r' && s.drop_last()[i] != '\n' by {
                assert(s.drop_last()[i] == s[i]);
            }
        }
        lemma_without_line_breaks_none(s.drop_last());
        assert(s.last() == s[s.len() - 1]);
        assert(s.drop_last().push(s.last()) =~= s);
    }
}

/// Cutting text into lines adds two characters per line break, one break per 76 characters
/// that more text follows, and taking the line breaks out again gives back the text.
pub proof fn wrapped_lines_unwrap(s: Seq<char>)
    requires
        no_line_breaks(s),
    ensures
        without_line_breaks(wrap_lines(s)) == s,
        s.len() > 0 ==> wrap_lines(s).len() == s.len() + 2 * ((s.len() - 1) / 76),
    decreases s.len(),
{
    if s.len() <= 76 {
        lemma_without_line_breaks_none(s);
    } else {
        let head = s.take(76);
        let rest = s.skip(76);
        assert(no_line_breaks(head)) by {
            assert forall|i: int| 0 <= i < head.len() implies #[trigger] head[i] != '\r'
                && head[i] != '\n' by {
                assert(head[i] == s[i]);
            }
        }
        assert(no_line_breaks(rest)) by {
            assert forall|i: int| 0 <= i < rest.len() implies #[trigger] rest[i] != '\r'
                && rest[i] != '\n' by {
                assert(rest[i] == s[i + 76]);
            }
        }
        wrapped_lines_unwrap(rest);
        lemma_without_line_breaks_none(head);
        let crlf = "\r\n"@;
        assert(crlf =~= seq!['\r', '\n']) by {
            reveal_strlit("\r\n");
        }
        assert(without_line_breaks(crlf) =~= Seq::<char>::empty()) by {
            let cr = seq!['\r'];
            assert(crlf.drop_last() =~= cr);
            assert(crlf.last() == '\n');
            assert(cr.drop_last() =~= Seq::<char>::empty());
            assert(cr.last() == '\r');
            assert(without_line_breaks(Seq::<char>::empty()) =~= Seq::<char>::empty());
            assert(without_line_breaks(cr) =~= Seq::<char>::empty());
            assert(without_line_breaks(crlf) == without_line_breaks(cr));
        }
        lemma_without_line_breaks_append(head, crlf);
        lemma_without_line_breaks_append(head + crlf, wrap_lines(rest));
        assert(head + rest =~= s);
        assert(head + Seq::<char>::empty() =~= head);
    }
}

proof fn lemma_base64_no_line_breaks(data: Seq<u8>)
    ensures
        no_line_breaks(base64(data)),
{
    base64_length_and_alphabet(data);
    assert forall|i: int| 0 <= i < base64(data).len() implies #[trigger] base64(data)[i] != '\r'
        && base64(data)[i] != '\n' by {
        assert(is_base64_char(base64(data)[i]));
    }
}

/// The base64 text in lines decodes back to the bytes once its line breaks are taken out.
pub proof fn base64_lines_decode_back(data: Seq<u8>)
    ensures
        base64_decode(without_line_breaks(base64_lines(data))) == data,
{
    lemma_base64_no_line_breaks(data);
    wrapped_lines_unwrap(base64(data));
    base64_decodes_back(data);
}

/// `s` begins with `t`.
pub open spec fn starts_with(s: Seq<char>, t: Seq<char>) -> bool {
    t.len() <= s.len() && s.take(t.len() as int) == t
}

proof fn lemma_infix_self(p: Seq<char>)
    ensures
        has_infix(p, p),
{
    assert(p.subrange(0, 0 + p.len() as int) =~= p);
}

proof fn lemma_infix_within(a: Seq<char>, q: Seq<char>, b: Seq<char>, p: Seq<char>)
    requires
        has_infix(q, p),
    ensures
        has_infix(a + q + b, p),
{
    let i = choose|i: int| 0 <= i && i + p.len() <= q.len() && #[trigger] q.subrange(i, i + p.len()) == p;
    let w = a + q + b;
    let j = a.len() + i;
    assert(w.subrange(j, j + p.len()) =~= q.subrange(i, i + p.len()));
}

proof fn lemma_infix_trans(w: Seq<char>, q: Seq<char>, p: Seq<char>)
    requires
        has_infix(w, q),
        has_infix(q, p),
    ensures
        has_infix(w, p),
{
    let i = choose|i: int| 0 <= i && i + q.len() <= w.len() && #[trigger] w.subrange(i, i + q.len()) == q;
    let j = choose|j: int| 0 <= j && j + p.len() <= q.len() && #[trigger] q.subrange(j, j + p.len()) == p;
    assert(w.subrange(i + j, i + j + p.len()) =~= q.subrange(j, j + p.len()));
}

/// A received reply is an error exactly when it holds `-ERROR` somewhere, whatever else it
/// holds; the error is then a protocol error that quotes the whole reply, and a reply without
/// `-ERROR` is handed back as it came.
pub proof fn error_replies_are_refused(reply: String, r: Result<String, GntpError>)
    requires
        reply_result(ReadOutcome::Received(reply), r),
    ensures
        r is Err <==> has_infix(reply@, "-ERROR"@),
        has_infix(reply@, "-ERROR"@) ==> (r matches Err(GntpError::ProtocolError(m))
            && m@ == "Server error: "@ + reply@),
        !has_infix(reply@, "-ERROR"@) ==> (r matches Ok(t) && t@ == reply@),
{
}

/// A data URL names the icon's own MIME type right after `data:`, and what follows
/// `;base64,` decodes (line breaks taken out) to the icon's own bytes.
pub proof fn data_url_carries_type_and_bytes(r: ResourceView)
    ensures
        starts_with(data_url(r), "data:"@ + r.mime_type + ";base64,"@),
        base64_decode(
            without_line_breaks(
                data_url(r).skip(("data:"@ + r.mime_type + ";base64,"@).len() as int),
            ),
        ) == r.data,
{
    let pre = "data:"@ + r.mime_type + ";base64,"@;
    assert(data_url(r).take(pre.len() as int) =~= pre);
    assert(data_url(r).skip(pre.len() as int) =~= base64_lines(r.data));
    base64_lines_decode_back(r.data);
}

/// The bytes of a message begin with a run that is valid UTF-8 and decodes to the packet's
/// text, for every text; without binary resources the bytes are exactly that run.
pub proof fn wire_bytes_decode_to_packet(req: GntpRequestView)
    ensures
        exists|n: int|
            0 <= n <= wire_bytes(req).len() && vstd::utf8::valid_utf8(
                #[trigger] wire_bytes(req).take(n),
            ) && vstd::utf8::decode_utf8(wire_bytes(req).take(n)) == req.packet,
        !req.binary ==> vstd::utf8::valid_utf8(wire_bytes(req)) && vstd::utf8::decode_utf8(
            wire_bytes(req),
        ) == req.packet,
{
    let e = vstd::utf8::encode_utf8(req.packet);
    vstd::utf8::encode_utf8_valid_utf8(req.packet);
    vstd::utf8::encode_utf8_decode_utf8(req.packet);
    assert(wire_bytes(req).take(e.len() as int) =~= e);
    if !req.binary {
        assert(wire_bytes(req) =~= e);
    }
}

proof fn lemma_block_in_blocks(ns: Seq<NotificationTypeView>, mode: IconMode, k: int)
    requires
        0 <= k < ns.len(),
    ensures
        has_infix(notification_blocks(ns, mode), notification_block(ns[k], mode)),
    decreases ns.len(),
{
    let d = ns.drop_last();
    let e = Seq::<char>::empty();
    if k == ns.len() - 1 {
        lemma_infix_self(notification_block(ns[k], mode));
        lemma_infix_within(
            notification_blocks(d, mode),
            notification_block(ns[k], mode),
            e,
            notification_block(ns[k], mode),
        );
        assert(notification_blocks(d, mode) + notification_block(ns[k], mode) + e
            =~= notification_blocks(ns, mode));
    } else {
        lemma_block_in_blocks(d, mode, k);
        assert(d[k] == ns[k]);
        lemma_infix_within(
            e,
            notification_blocks(d, mode),
            notification_block(ns.last(), mode),
            notification_block(ns[k], mode),
        );
        assert(e + notification_blocks(d, mode) + notification_block(ns.last(), mode)
            =~= notification_blocks(ns, mode));
    }
}

/// The lines that declare a notification type, one after the other: its name, its display
/// name when it has one, and whether it is enabled.
pub open spec fn declaration_lines(n: NotificationTypeView) -> Seq<char> {
    "Notification-Name: "@ + n.name + "\r\n"@ + match n.display_name {
        Some(d) => "Notification-Display-Name: "@ + d + "\r\n"@,
        None => Seq::<char>::empty(),
    } + "Notification-Enabled: "@ + (if n.enabled { "True"@ } else { "False"@ }) + "\r\n"@
}

#[verifier::spinoff_prover]
#[verifier::rlimit(40)]
proof fn lemma_block_lines(n: NotificationTypeView, mode: IconMode)
    ensures
        has_infix(notification_block(n, mode), "Notification-Name: "@ + n.name + "\r\n"@),
        has_infix(notification_block(n, mode), declaration_lines(n)),
        n.icon matches Some(i) ==> has_infix(
            notification_block(n, mode),
            "Notification-Icon: "@ + icon_reference(i, mode) + "\r\n"@,
        ),
{
    let blk = notification_block(n, mode);
    let e = Seq::<char>::empty();
    let name_line = "Notification-Name: "@ + n.name + "\r\n"@;
    let display = crate::client::optional_header("Notification-Display-Name: "@, n.display_name);
    let enabled = crate::client::header(
        "Notification-Enabled: "@,
        if n.enabled { "True"@ } else { "False"@ },
    );
    let icon = crate::client::optional_header(
        "Notification-Icon: "@,
        crate::client::opt_reference(n.icon, mode),
    );
    assert(blk == name_line + display + enabled + icon + "\r\n"@);
    lemma_infix_self(name_line);
    lemma_infix_within(e, name_line, display + enabled + icon + "\r\n"@, name_line);
    assert(e + name_line + (display + enabled + icon + "\r\n"@) =~= blk);
    let decl = declaration_lines(n);
    assert(decl =~= name_line + display + enabled);
    lemma_infix_self(decl);
    lemma_infix_within(e, decl, icon + "\r\n"@, decl);
    assert(e + decl + (icon + "\r\n"@) =~= blk);
    if let Some(i) = n.icon {
        let rf = icon_reference(i, mode);
        let icon_line = "Notification-Icon: "@ + rf + "\r\n"@;
        assert(icon == icon_line);
        lemma_infix_self(icon_line);
        lemma_infix_within(name_line + display + enabled, icon_line, "\r\n"@, icon_line);
    }
}

#[verifier::spinoff_prover]
#[verifier::rlimit(40)]
proof fn lemma_register_packet_parts(c: GntpClientView, ns: Seq<NotificationTypeView>)
    ensures
        has_infix(register_request(c, ns).packet, notification_blocks(ns, c.icon_mode)),
        starts_with(
            register_request(c, ns).packet,
            "GNTP/1.0 REGISTER NONE\r\n"@ + "Application-Name: "@ + c.application_name + "\r\n"@,
        ),
        has_infix(
            register_request(c, ns).packet,
            "Notifications-Count: "@ + decimal(ns.len()) + "\r\n"@,
        ),
        c.application_icon matches Some(i) ==> has_infix(
            register_request(c, ns).packet,
            "Application-Icon: "@ + icon_reference(i, c.icon_mode) + "\r\n"@,
        ),
{
    let req = register_request(c, ns);
    let head = crate::client::register_head(c, ns.len());
    let blocks = notification_blocks(ns, c.icon_mode);
    let rb = crate::client::resource_blocks(req.resources);
    assert(req.packet == head + blocks + rb);
    lemma_infix_self(blocks);
    lemma_infix_within(head, blocks, rb, blocks);
    let opening = "GNTP/1.0 REGISTER NONE\r\n"@ + "Application-Name: "@ + c.application_name + "\r\n"@;
    let app_part = crate::client::optional_header(
        "Application-Icon: "@,
        crate::client::opt_reference(c.application_icon, c.icon_mode),
    );
    let count_line = "Notifications-Count: "@ + decimal(ns.len()) + "\r\n"@;
    assert(req.packet =~= opening + (app_part + count_line + "\r\n"@ + blocks + rb));
    assert(req.packet.take(opening.len() as int) =~= opening);
    lemma_infix_self(count_line);
    lemma_infix_within(opening + app_part, count_line, "\r\n"@ + blocks + rb, count_line);
    assert(opening + app_part + count_line + ("\r\n"@ + blocks + rb) =~= req.packet);
    if let Some(i) = c.application_icon {
        let app_line = "Application-Icon: "@ + icon_reference(i, c.icon_mode) + "\r\n"@;
        let before = "GNTP/1.0 REGISTER NONE\r\n"@ + crate::client::header(
            "Application-Name: "@,
            c.application_name,
        );
        let count = crate::client::header("Notifications-Count: "@, decimal(ns.len())) + "\r\n"@;
        assert(head == before + app_line + count);
        lemma_infix_self(app_line);
        lemma_infix_within(before, app_line, count + blocks + rb, app_line);
        assert(before + app_line + (count + blocks + rb) =~= req.packet);
    }
}

/// Every notification type is declared in the REGISTER packet by a line with its name, and
/// one with an icon, in every delivery mode, by a line `Notification-Icon: ` followed by the
/// icon's reference under the client's mode; the application icon is declared likewise.
#[verifier::spinoff_prover]
#[verifier::rlimit(40)]
pub proof fn register_declares_names_and_icons(c: GntpClientView, ns: Seq<NotificationTypeView>, k: int)
    requires
        0 <= k < ns.len(),
    ensures
        has_infix(register_request(c, ns).packet, "Notification-Name: "@ + ns[k].name + "\r\n"@),
        has_infix(register_request(c, ns).packet, declaration_lines(ns[k])),
        starts_with(
            register_request(c, ns).packet,
            "GNTP/1.0 REGISTER NONE\r\n"@ + "Application-Name: "@ + c.application_name + "\r\n"@,
        ),
        has_infix(
            register_request(c, ns).packet,
            "Notifications-Count: "@ + decimal(ns.len()) + "\r\n"@,
        ),
        ns[k].icon matches Some(i) ==> has_infix(
            register_request(c, ns).packet,
            "Notification-Icon: "@ + icon_reference(i, c.icon_mode) + "\r\n"@,
        ),
        c.application_icon matches Some(i) ==> has_infix(
            register_request(c, ns).packet,
            "Application-Icon: "@ + icon_reference(i, c.icon_mode) + "\r\n"@,
        ),
{
    let packet = register_request(c, ns).packet;
    let mode = c.icon_mode;
    let blocks = notification_blocks(ns, mode);
    let blk = notification_block(ns[k], mode);
    lemma_register_packet_parts(c, ns);
    lemma_block_in_blocks(ns, mode, k);
    lemma_block_lines(ns[k], mode);
    lemma_infix_trans(packet, blocks, blk);
    lemma_infix_trans(packet, blk, "Notification-Name: "@ + ns[k].name + "\r\n"@);
    lemma_infix_trans(packet, blk, declaration_lines(ns[k]));
    if let Some(i) = ns[k].icon {
        lemma_infix_trans(packet, blk, "Notification-Icon: "@ + icon_reference(i, mode) + "\r\n"@);
    }
}

/// How an icon is referred to in each mode: by its identifier as a binary resource; by
/// `file:///` and its path, each `\` turned into `/`; by its path as an HTTP URL; and, when
/// it has no path, by its data URL in the file and HTTP URL modes.
pub proof fn icon_reference_in_each_mode(r: ResourceView)
    ensures
        icon_reference(r, IconMode::Binary) == "x-growl-resource://"@ + r.identifier,
        r.source_path matches Some(p) ==> ({
            let u = icon_reference(r, IconMode::FileUrl);
            &&& u.len() == p.len() + 8
            &&& u.take(8) == seq!['f', 'i', 'l', 'e', ':', '/', '/', '/']
            &&& forall|i: int|
                0 <= i < p.len() ==> #[trigger] u[i + 8] == if p[i] == '\\' {
                    '/'
                } else {
                    p[i]
                }
        }),
        r.source_path matches Some(p) ==> icon_reference(r, IconMode::HttpUrl) == p,
        r.source_path is None ==> icon_reference(r, IconMode::FileUrl) == data_url(r)
            && icon_reference(r, IconMode::HttpUrl) == data_url(r),
{
    if let Some(p) = r.source_path {
        reveal_strlit("file:///");
        let u = icon_reference(r, IconMode::FileUrl);
        assert(u.take(8) =~= seq!['f', 'i', 'l', 'e', ':', '/', '/', '/']);
    }
}

/// The opening of a NOTIFY packet: the request line and the application, name, title and
/// text headers, in this order.
pub open spec fn notify_opening(c: GntpClientView, name: Seq<char>, title: Seq<char>, text: Seq<char>) -> Seq<char> {
    "GNTP/1.0 NOTIFY NONE\r\n"@ + "Application-Name: "@ + c.application_name + "\r\n"@
        + "Notification-Name: "@ + name + "\r\n"@ + "Notification-Title: "@ + title + "\r\n"@
        + "Notification-Text: "@ + text + "\r\n"@
}

spec fn notify_rest(c: GntpClientView, o: NotifyOptionsView) -> Seq<char> {
    let binary = c.icon_mode == IconMode::Binary;
    let resources = if binary { icon_seq(o.icon) } else { Seq::<ResourceView>::empty() };
    (if o.sticky { "Notification-Sticky: True\r\n"@ } else { Seq::<char>::empty() })
        + (if o.priority != 0 {
        "Notification-Priority: "@ + signed_decimal(o.priority as int) + "\r\n"@
    } else {
        Seq::<char>::empty()
    }) + crate::client::optional_header(
        "Notification-Icon: "@,
        crate::client::opt_reference(o.icon, c.icon_mode),
    ) + "\r\n"@ + crate::client::resource_blocks(resources)
}

#[verifier::spinoff_prover]
#[verifier::rlimit(40)]
proof fn lemma_notify_split(
    c: GntpClientView,
    name: Seq<char>,
    title: Seq<char>,
    text: Seq<char>,
    o: NotifyOptionsView,
)
    ensures
        notify_request(c, name, title, text, o).packet == notify_opening(c, name, title, text)
            + notify_rest(c, o),
{
    assert(notify_request(c, name, title, text, o).packet =~= notify_opening(c, name, title, text)
        + notify_rest(c, o));
}

#[verifier::spinoff_prover]
#[verifier::rlimit(40)]
proof fn lemma_rest_sticky(c: GntpClientView, o: NotifyOptionsView)
    ensures
        o.sticky <==> starts_with(notify_rest(c, o), "Notification-Sticky: True\r\n"@),
{
    let sticky = "Notification-Sticky: True\r\n"@;
    let rest = notify_rest(c, o);
    let pr = if o.priority != 0 {
        "Notification-Priority: "@ + signed_decimal(o.priority as int) + "\r\n"@
    } else {
        Seq::<char>::empty()
    };
    let ic = crate::client::optional_header(
        "Notification-Icon: "@,
        crate::client::opt_reference(o.icon, c.icon_mode),
    );
    let binary = c.icon_mode == IconMode::Binary;
    let resources = if binary { icon_seq(o.icon) } else { Seq::<ResourceView>::empty() };
    let tail = "\r\n"@ + crate::client::resource_blocks(resources);
    if o.sticky {
        assert(rest == sticky + pr + ic + tail);
        assert((sticky + pr + ic + tail).take(sticky.len() as int) =~= sticky);
    } else {
        assert(rest =~= pr + ic + tail);
        reveal_strlit("Notification-Sticky: True\r\n");
        if starts_with(rest, sticky) {
            assert(rest[13] == rest.take(sticky.len() as int)[13]);
            assert(rest[0] == rest.take(sticky.len() as int)[0]);
            if o.priority != 0 {
                reveal_strlit("Notification-Priority: ");
                assert(rest[13] == "Notification-Priority: "@[13]);
            } else if o.icon is Some {
                reveal_strlit("Notification-Icon: ");
                assert(ic.len() > 13);
                assert(rest[13] == ic[13]);
                assert(ic[13] == "Notification-Icon: "@[13]);
            } else {
                reveal_strlit("\r\n");
                assert(rest =~= tail);
                assert(rest[0] == '\r');
            }
        }
    }
}

/// A NOTIFY packet opens with the request line and the application, name, title and text
/// headers; right after them comes the line `Notification-Sticky: True` if and only if the
/// options are sticky, whatever the priority; a priority other than 0 is sent in a
/// `Notification-Priority` line.
#[verifier::spinoff_prover]
#[verifier::rlimit(40)]
pub proof fn notify_packet_stickiness(
    c: GntpClientView,
    name: Seq<char>,
    title: Seq<char>,
    text: Seq<char>,
    o: NotifyOptionsView,
)
    ensures
        starts_with(notify_request(c, name, title, text, o).packet, notify_opening(c, name, title, text)),
        o.sticky <==> starts_with(
            notify_request(c, name, title, text, o).packet.skip(
                notify_opening(c, name, title, text).len() as int,
            ),
            "Notification-Sticky: True\r\n"@,
        ),
        o.sticky ==> has_infix(notify_request(c, name, title, text, o).packet, "Notification-Sticky: True\r\n"@),
        o.priority != 0 ==> has_infix(
            notify_request(c, name, title, text, o).packet,
            "Notification-Priority: "@ + signed_decimal(o.priority as int) + "\r\n"@,
        ),
{
    let packet = notify_request(c, name, title, text, o).packet;
    let opening = notify_opening(c, name, title, text);
    let rest = notify_rest(c, o);
    lemma_notify_split(c, name, title, text, o);
    lemma_rest_sticky(c, o);
    assert(packet.take(opening.len() as int) =~= opening);
    assert(packet.skip(opening.len() as int) =~= rest);
    let sticky = "Notification-Sticky: True\r\n"@;
    let st = if o.sticky { sticky } else { Seq::<char>::empty() };
    let pr = if o.priority != 0 {
        "Notification-Priority: "@ + signed_decimal(o.priority as int) + "\r\n"@
    } else {
        Seq::<char>::empty()
    };
    let after = rest.skip((st.len() + pr.len()) as int);
    assert(rest =~= st + pr + after);
    if o.sticky {
        lemma_infix_self(sticky);
        lemma_infix_within(opening, sticky, pr + after, sticky);
        assert(opening + sticky + (pr + after) =~= packet);
    }
    if o.priority != 0 {
        lemma_infix_self(pr);
        lemma_infix_within(opening + st, pr, after, pr);
        assert(opening + st + pr + after =~= packet);
    }
}

/// A NOTIFY packet with an icon declares it in a line `Notification-Icon: ` followed by the
/// icon's reference under the client's mode.
#[verifier::spinoff_prover]
#[verifier::rlimit(40)]
pub proof fn notify_packet_declares_icon(
    c: GntpClientView,
    name: Seq<char>,
    title: Seq<char>,
    text: Seq<char>,
    o: NotifyOptionsView,
)
    ensures
        o.icon matches Some(i) ==> has_infix(
            notify_request(c, name, title, text, o).packet,
            "Notification-Icon: "@ + icon_reference(i, c.icon_mode) + "\r\n"@,
        ),
{
    if let Some(i) = o.icon {
        let packet = notify_request(c, name, title, text, o).packet;
        let opening = notify_opening(c, name, title, text);
        lemma_notify_split(c, name, title, text, o);
        let st = if o.sticky { "Notification-Sticky: True\r\n"@ } else { Seq::<char>::empty() };
        let pr = if o.priority != 0 {
            "Notification-Priority: "@ + signed_decimal(o.priority as int) + "\r\n"@
        } else {
            Seq::<char>::empty()
        };
        let icon_line = "Notification-Icon: "@ + icon_reference(i, c.icon_mode) + "\r\n"@;
        let binary = c.icon_mode == IconMode::Binary;
        let resources = if binary { icon_seq(o.icon) } else { Seq::<ResourceView>::empty() };
        let tail = "\r\n"@ + crate::client::resource_blocks(resources);
        assert(notify_rest(c, o) == st + pr + icon_line + tail);
        lemma_infix_self(icon_line);
        lemma_infix_within(opening + st + pr, icon_line, tail, icon_line);
        assert(opening + st + pr + icon_line + tail =~= packet);
    }
}

} // verus!
