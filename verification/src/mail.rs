//! Verification mail: which service sends it, the SMTP settings taken
//! from the configuration, and the texts of the message.

use vstd::prelude::*;

use crate::links::{append_decimal, decimal};
use crate::numbers::{parse_u16, u16_of_text};
use crate::security::IpAddress;
use crate::text::{
    append_str, chars_of, contains, ends_with, ends_with_chars, has_char, str_contains, string_of,
    trim, trimmed,
};

verus! {

broadcast use vstd::string::group_string_axioms;

// ---------------------------------------------------------------------------
// The sending service
// ---------------------------------------------------------------------------

/// The service a verification mail goes through.
#[derive(PartialEq, Eq, Structural, Clone, Copy, Debug)]
pub enum MailRoute {
    /// Brevo's HTTP API, whose answer is final.
    Brevo,
    /// Resend's HTTP API; when it fails, SMTP.
    ResendThenSmtp,
    /// SMTP alone.
    Smtp,
}

/// A configured API key counts when it is not blank.
pub open spec fn key_set(k: Option<Seq<char>>) -> bool {
    k matches Some(s) && trim(s).len() > 0
}

pub open spec fn route_of(brevo_key: Option<Seq<char>>, resend_key: Option<Seq<char>>) -> MailRoute {
    if key_set(brevo_key) {
        MailRoute::Brevo
    } else if key_set(resend_key) {
        MailRoute::ResendThenSmtp
    } else {
        MailRoute::Smtp
    }
}

fn key_present(k: Option<&str>) -> (r: bool)
    ensures
        r == key_set(
            match k {
                Some(s) => Some(s@),
                None => None,
            },
        ),
{
    match k {
        Some(s) => !trimmed(s).as_str().is_empty(),
        None => false,
    }
}

/// The service for the configured `BREVO_API_KEY` and `RESEND_API_KEY`.
pub fn mail_route(brevo_key: Option<&str>, resend_key: Option<&str>) -> (r: MailRoute)
    ensures
        r == route_of(
            match brevo_key {
                Some(s) => Some(s@),
                None => None,
            },
            match resend_key {
                Some(s) => Some(s@),
                None => None,
            },
        ),
{
    if key_present(brevo_key) {
        MailRoute::Brevo
    } else if key_present(resend_key) {
        MailRoute::ResendThenSmtp
    } else {
        MailRoute::Smtp
    }
}

pub const DEFAULT_SENDER: &'static str = "noreply@signal-audio.io";

pub const RESEND_DEFAULT_SENDER: &'static str = "SIGNAL <onboarding@resend.dev>";

/// The configured value, else the default.
pub open spec fn value_or(configured: Option<Seq<char>>, default: Seq<char>) -> Seq<char> {
    match configured {
        Some(v) => v,
        None => default,
    }
}

/// Sender of a mail sent through Brevo: `SMTP_FROM`, else the default.
pub fn brevo_sender(configured: Option<&str>) -> (r: String)
    ensures
        r@ == value_or(
            match configured {
                Some(s) => Some(s@),
                None => None,
            },
            DEFAULT_SENDER@,
        ),
{
    match configured {
        Some(s) => s.to_owned(),
        None => DEFAULT_SENDER.to_owned(),
    }
}

/// Sender of a mail sent through Resend: `RESEND_FROM`, else the default.
pub fn resend_sender(configured: Option<&str>) -> (r: String)
    ensures
        r@ == value_or(
            match configured {
                Some(s) => Some(s@),
                None => None,
            },
            RESEND_DEFAULT_SENDER@,
        ),
{
    match configured {
        Some(s) => s.to_owned(),
        None => RESEND_DEFAULT_SENDER.to_owned(),
    }
}

// ---------------------------------------------------------------------------
// SMTP settings
// ---------------------------------------------------------------------------

pub const SMTP_CREDENTIALS_MISSING: &'static str =
    "На сервере не заданы переменные SMTP_USER и SMTP_PASS для отправки писем";

pub const SMTP_HOST_MISSING: &'static str = "Укажите SMTP_HOST в переменных окружения";

/// The SMTP server: `SMTP_HOST` when it is not blank (used as written),
/// else the server of the user's mail provider, when it is known.
pub open spec fn smtp_host_of(configured: Option<Seq<char>>, user: Seq<char>) -> Option<Seq<char>> {
    if (configured matches Some(h) && trim(h).len() > 0) {
        configured
    } else if ends_with(user, "@gmail.com"@) {
        Some("smtp.gmail.com"@)
    } else if ends_with(user, "@yandex.ru"@) || ends_with(user, "@yandex.com"@) {
        Some("smtp.yandex.ru"@)
    } else if ends_with(user, "@mail.ru"@) {
        Some("smtp.mail.ru"@)
    } else {
        None
    }
}

/// The SMTP port: `SMTP_PORT` when it reads as a port number, else 587
/// for Gmail and 465 for the others.
pub open spec fn smtp_port_of(configured: Option<Seq<char>>, host: Seq<char>) -> u16 {
    let default: u16 = if contains(host, "gmail"@) {
        587
    } else {
        465
    };
    match configured {
        Some(p) => match u16_of_text(p) {
            Some(v) => v,
            None => default,
        },
        None => default,
    }
}

/// The sender: `SMTP_FROM`, else the SMTP user when it is an address,
/// else the default.
pub open spec fn smtp_sender_of(configured: Option<Seq<char>>, user: Seq<char>) -> Seq<char> {
    match configured {
        Some(v) => v,
        None => if user.len() > 0 && user.contains('@') {
            user
        } else {
            DEFAULT_SENDER@
        },
    }
}

/// How an SMTP mail is sent.
pub struct SmtpSettings {
    pub host: String,
    pub port: u16,
    pub sender: String,
    /// TLS from the first byte (port 465) rather than after `STARTTLS`.
    pub implicit_tls: bool,
}

fn ends_with_str(s: &Vec<char>, p: &str) -> (r: bool)
    ensures
        r == ends_with(s@, p@),
{
    let pc = chars_of(p);
    ends_with_chars(s, &pc)
}

/// The SMTP settings for the configured user, password, `SMTP_HOST`,
/// `SMTP_PORT` and `SMTP_FROM`; refused without a user and password, or
/// without a server.
pub fn smtp_settings(
    user: &str,
    password: &str,
    host: Option<&str>,
    port: Option<&str>,
    from: Option<&str>,
) -> (r: Result<SmtpSettings, &'static str>)
    ensures
        (user@.len() == 0 || password@.len() == 0) ==> r == Err::<SmtpSettings, &'static str>(
            SMTP_CREDENTIALS_MISSING,
        ),
        (user@.len() > 0 && password@.len() > 0 && smtp_host_of(
            match host {
                Some(s) => Some(s@),
                None => None,
            },
            user@,
        ) is None) ==> r == Err::<SmtpSettings, &'static str>(SMTP_HOST_MISSING),
        (user@.len() > 0 && password@.len() > 0 && smtp_host_of(
            match host {
                Some(s) => Some(s@),
                None => None,
            },
            user@,
        ) is Some) ==> r is Ok,
        r matches Ok(s) ==> ({
            let h = smtp_host_of(
                match host {
                    Some(s) => Some(s@),
                    None => None,
                },
                user@,
            )->0;
            &&& s.host@ == h
            &&& s.port == smtp_port_of(
                match port {
                    Some(p) => Some(p@),
                    None => None,
                },
                h,
            )
            &&& s.sender@ == smtp_sender_of(
                match from {
                    Some(f) => Some(f@),
                    None => None,
                },
                user@,
            )
            &&& s.implicit_tls == (s.port == 465)
        }),
{
    if user.is_empty() || password.is_empty() {
        return Err(SMTP_CREDENTIALS_MISSING);
    }
    let uc = chars_of(user);
    let configured = match host {
        Some(h) => if trimmed(h).as_str().is_empty() {
            None
        } else {
            Some(h.to_owned())
        },
        None => None,
    };
    let server: String = match configured {
        Some(h) => h,
        None => {
            if ends_with_str(&uc, "@gmail.com") {
                "smtp.gmail.com".to_owned()
            } else if ends_with_str(&uc, "@yandex.ru") || ends_with_str(&uc, "@yandex.com") {
                "smtp.yandex.ru".to_owned()
            } else if ends_with_str(&uc, "@mail.ru") {
                "smtp.mail.ru".to_owned()
            } else {
                return Err(SMTP_HOST_MISSING);
            }
        },
    };
    let default_port: u16 = if str_contains(server.as_str(), "gmail") {
        587
    } else {
        465
    };
    let port_number = match port {
        Some(p) => match parse_u16(p) {
            Some(v) => v,
            None => default_port,
        },
        None => default_port,
    };
    let sender = match from {
        Some(f) => f.to_owned(),
        None => if uc.len() > 0 && has_char(&uc, '@') {
            user.to_owned()
        } else {
            DEFAULT_SENDER.to_owned()
        },
    };
    Ok(SmtpSettings { host: server, port: port_number, sender, implicit_tls: port_number == 465 })
}

/// The first IPv4 address of `addrs`.
pub open spec fn first_v4(addrs: Seq<IpAddress>) -> Option<IpAddress>
    decreases addrs.len(),
{
    if addrs.len() == 0 {
        None
    } else if addrs[0] is V4 {
        Some(addrs[0])
    } else {
        first_v4(addrs.drop_first())
    }
}

/// An IPv4 address in dotted decimal.
pub open spec fn dotted(a: u8, b: u8, c: u8, d: u8) -> Seq<char> {
    decimal(a as nat) + "."@ + decimal(b as nat) + "."@ + decimal(c as nat) + "."@ + decimal(
        d as nat,
    )
}

/// Where the SMTP connection goes: the first IPv4 address the server's
/// name resolved to (in dotted form), else the name itself.
pub open spec fn connect_target(addrs: Seq<IpAddress>, host: Seq<char>) -> Seq<char> {
    match first_v4(addrs) {
        Some(IpAddress::V4(a, b, c, d)) => dotted(a, b, c, d),
        _ => host,
    }
}

/// The address to connect to (see `connect_target`); `resolved` is empty
/// when the name did not resolve.
pub fn connect_host(resolved: &Vec<IpAddress>, host: &str) -> (r: String)
    ensures
        r@ == connect_target(resolved@, host@),
{
    let mut i: usize = 0;
    assert(resolved@.skip(0) =~= resolved@);
    while i < resolved.len()
        invariant
            i <= resolved.len(),
            first_v4(resolved@) == first_v4(resolved@.skip(i as int)),
        decreases resolved.len() - i,
    {
        assert(resolved@.skip(i as int)[0] == resolved@[i as int]);
        assert(resolved@.skip(i as int).drop_first() =~= resolved@.skip(i + 1));
        if let IpAddress::V4(a, b, c, d) = resolved[i] {
            let mut out: Vec<char> = Vec::new();
            append_decimal(&mut out, a as u64);
            append_str(&mut out, ".");
            append_decimal(&mut out, b as u64);
            append_str(&mut out, ".");
            append_decimal(&mut out, c as u64);
            append_str(&mut out, ".");
            append_decimal(&mut out, d as u64);
            return string_of(&out);
        }
        i = i + 1;
    }
    assert(resolved@.skip(i as int).len() == 0);
    host.to_owned()
}

// ---------------------------------------------------------------------------
// The message
// ---------------------------------------------------------------------------

pub const SUBJECT_HEAD: &'static str = "Код подтверждения SIGNAL: ";

pub const API_HTML_HEAD: &'static str = "<div style='font-family:sans-serif;background:#09090b;color:#fff;padding:30px;text-align:center;'><h2>SIGNAL AUDIO</h2><p>Ваш код подтверждения:</p><h1 style='color:#38bdf8;letter-spacing:6px;'>";

pub const API_HTML_TAIL: &'static str = "</h1><p style='color:#71717a;font-size:12px;'>Код действует 15 минут.</p></div>";

pub const SMTP_TEXT_HEAD: &'static str = "SIGNAL AUDIO // СИСТЕМА АВТОРИЗАЦИИ\n\nВаш 6-значный цифровой код подтверждения:\n\n>>>  ";

pub const SMTP_TEXT_TAIL: &'static str = "  <<<\n\nСрок действия кода: 15 минут.\nЕсли вы не запрашивали данный код, просто проигнорируйте это письмо.\n";

pub const SMTP_HTML_HEAD: &'static str = "<!DOCTYPE html>\n<html>\n<head><meta charset=\"utf-8\"></head>\n<body style=\"margin:0;padding:24px;background-color:#09090b;font-family:-apple-system,BlinkMacSystemFont,'Segoe UI',Roboto,Helvetica,Arial,sans-serif;color:#ffffff;\">\n  <div style=\"max-width:440px;margin:0 auto;background:#111114;border:1px solid #27272a;border-radius:12px;padding:32px;text-align:center;\">\n    <h2 style=\"margin:0 0 8px;font-size:20px;font-weight:700;color:#ffffff;letter-spacing:0.05em;\">SIGNAL AUDIO</h2>\n    <p style=\"margin:0 0 20px;font-size:13px;color:#a1a1aa;\">Код для подтверждения регистрации</p>\n    <div style=\"background:#18181b;border:1px solid #38bdf8;border-radius:8px;padding:16px;margin:20px 0;letter-spacing:0.35em;font-size:32px;font-weight:800;color:#38bdf8;font-family:monospace;\">";

pub const SMTP_HTML_TAIL: &'static str = "</div>\n    <p style=\"margin:20px 0 0;font-size:12px;color:#71717a;\">Код действует в течение 15 минут.<br>Если вы не запрашивали регистрацию, проигнорируйте это письмо.</p>\n  </div>\n</body>\n</html>";

fn enclose(head: &str, code: &str, tail: &str) -> (r: String)
    ensures
        r@ == head@ + code@ + tail@,
{
    let mut out = chars_of(head);
    append_str(&mut out, code);
    append_str(&mut out, tail);
    string_of(&out)
}

/// The subject of a verification mail.
pub fn verification_subject(code: &str) -> (r: String)
    ensures
        r@ == SUBJECT_HEAD@ + code@,
{
    let mut out = chars_of(SUBJECT_HEAD);
    append_str(&mut out, code);
    string_of(&out)
}

/// The HTML body of a verification mail sent through an HTTP API.
pub fn api_html_body(code: &str) -> (r: String)
    ensures
        r@ == API_HTML_HEAD@ + code@ + API_HTML_TAIL@,
{
    enclose(API_HTML_HEAD, code, API_HTML_TAIL)
}

/// The plain-text part of a verification mail sent by SMTP.
pub fn smtp_text_body(code: &str) -> (r: String)
    ensures
        r@ == SMTP_TEXT_HEAD@ + code@ + SMTP_TEXT_TAIL@,
{
    enclose(SMTP_TEXT_HEAD, code, SMTP_TEXT_TAIL)
}

/// The HTML part of a verification mail sent by SMTP.
pub fn smtp_html_body(code: &str) -> (r: String)
    ensures
        r@ == SMTP_HTML_HEAD@ + code@ + SMTP_HTML_TAIL@,
{
    enclose(SMTP_HTML_HEAD, code, SMTP_HTML_TAIL)
}

} // verus!
