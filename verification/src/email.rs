//! Composing the registry's outgoing mail.
//!
//! The library builds the full message — recipient, sender, subject and
//! body — as plain values; handing it to an SMTP transport, or writing it
//! to disk in development, is the caller's side of the split.

use vstd::prelude::*;

use crate::text::{chars_to_string, push_str_chars};

verus! {

/// The SMTP settings of the outgoing-mail account, when one is configured.
#[derive(Debug)]
pub struct MailgunConfigVars {
    pub smtp_login: String,
    pub smtp_password: String,
    pub smtp_server: String,
}

/// One composed mail message.
#[derive(Debug)]
pub struct Email {
    pub to: String,
    pub from: String,
    pub subject: String,
    pub body: String,
}

/// The sender a message carries: the configured SMTP login, or the
/// development-mode marker when no mail account is configured.
pub open spec fn sender_of(config: Option<MailgunConfigVars>) -> Seq<char> {
    match config {
        Option::Some(c) => c.smtp_login@,
        Option::None => "Development Mode"@,
    }
}

/// Composes one message to `recipient` with the given subject and body.
pub fn build_email(
    recipient: &str,
    subject: &str,
    body: &str,
    mailgun_config: &Option<MailgunConfigVars>,
) -> (r: Email)
    ensures
        r.to@ == recipient@,
        r.from@ == sender_of(*mailgun_config),
        r.subject@ == subject@,
        r.body@ == body@,
{
    let from = match mailgun_config {
        Some(c) => c.smtp_login.clone(),
        None => {
            let mut out: Vec<char> = Vec::new();
            push_str_chars(&mut out, "Development Mode");
            chars_to_string(&out)
        },
    };
    let mut to: Vec<char> = Vec::new();
    push_str_chars(&mut to, recipient);
    let mut subj: Vec<char> = Vec::new();
    push_str_chars(&mut subj, subject);
    let mut bd: Vec<char> = Vec::new();
    push_str_chars(&mut bd, body);
    Email {
        to: chars_to_string(&to),
        from,
        subject: chars_to_string(&subj),
        body: chars_to_string(&bd),
    }
}

/// The subject of the address-confirmation mail.
pub open spec fn confirm_subject() -> Seq<char> {
    "Please confirm your email address"@
}

/// The body of the address-confirmation mail: a greeting and the
/// confirmation link carrying the token.
pub open spec fn confirm_body_of(user_name: Seq<char>, token: Seq<char>) -> Seq<char> {
    "Hello "@ + user_name
        + "! Welcome to Crates.io. Please click the\nlink below to verify your email address. Thank you!\n\nhttps://crates.io/confirm/"@
        + token
}

/// Composes the mail that asks a user to confirm their address: the token
/// in the link is what the confirmation endpoint will match against the
/// stored one.
pub fn send_user_confirm_email(
    email: &str,
    user_name: &str,
    token: &str,
    mailgun_config: &Option<MailgunConfigVars>,
) -> (r: Email)
    ensures
        r.to@ == email@,
        r.from@ == sender_of(*mailgun_config),
        r.subject@ == confirm_subject(),
        r.body@ == confirm_body_of(user_name@, token@),
{
    let mut subj: Vec<char> = Vec::new();
    push_str_chars(&mut subj, "Please confirm your email address");
    let subject = chars_to_string(&subj);
    let mut bd: Vec<char> = Vec::new();
    push_str_chars(&mut bd, "Hello ");
    push_str_chars(&mut bd, user_name);
    push_str_chars(
        &mut bd,
        "! Welcome to Crates.io. Please click the\nlink below to verify your email address. Thank you!\n\nhttps://crates.io/confirm/",
    );
    push_str_chars(&mut bd, token);
    assert(bd@ =~= confirm_body_of(user_name@, token@));
    let body = chars_to_string(&bd);
    build_email(email, subject.as_str(), body.as_str(), mailgun_config)
}

} // verus!
