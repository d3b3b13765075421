//! Notices by mail: who gets what, over which channels.
use crate::config::{
    EmailConfig, NotifyChannelConfig, NotifyChannelKind, NotifyConfig, NotifyPolicyMode, SmtpTlsMode,
    SyncStrategy,
};
use crate::strings::{copy_list, copy_option, join_with, owned, push_string, trim_end_char};
use vstd::prelude::*;

verus! {

/// Sends notices. Without a configuration, or where it is switched off, nothing is sent.
pub struct Notifier {
    pub config: Option<NotifyConfig>,
}

/// A notice on its way through the channels.
pub struct SendRun {
    pub subject: String,
    pub body: String,
    /// The channel that is being tried.
    pub at: usize,
    pub sent: bool,
    pub errors: Vec<String>,
}

/// What the caller is to do next.
#[derive(Debug)]
pub enum SendAction {
    /// Send over the channel number so-and-so.
    Send(usize),
    /// The notice is out, or there was nowhere to send it.
    Done(bool),
    Fail(String),
}

/// What an action is.
#[verifier::ext_equal]
pub enum Sending {
    Send(int),
    Done(bool),
    Fail(Seq<char>),
}

impl View for SendAction {
    type V = Sending;

    open spec fn view(&self) -> Sending {
        match *self {
            SendAction::Send(i) => Sending::Send(i as int),
            SendAction::Done(sent) => Sending::Done(sent),
            SendAction::Fail(words) => Sending::Fail(words@),
        }
    }
}

/// How many channels there are: those of the list, else the mail account of older configurations.
pub open spec fn channel_count(config: NotifyConfig) -> int {
    if config.channels@.len() > 0 {
        config.channels@.len() as int
    } else if config.email is Some {
        1
    } else {
        0
    }
}

pub open spec fn channel_on(config: NotifyConfig, i: int) -> bool {
    if config.channels@.len() > 0 {
        config.channels@[i].enabled
    } else {
        config.email->0.enabled
    }
}

pub open spec fn channel_name(config: NotifyConfig, i: int) -> Seq<char> {
    if config.channels@.len() > 0 {
        config.channels@[i].name@
    } else {
        "email"@
    }
}

/// The two channels say the same.
pub open spec fn same_channel(a: NotifyChannelConfig, b: NotifyChannelConfig) -> bool {
    &&& a.name@ == b.name@
    &&& a.kind == b.kind
    &&& a.enabled == b.enabled
    &&& a.smtp_host == b.smtp_host
    &&& a.smtp_port == b.smtp_port
    &&& a.tls == b.tls
    &&& a.username_env == b.username_env
    &&& a.password_env == b.password_env
    &&& a.api_token_env == b.api_token_env
    &&& a.account_id_env == b.account_id_env
    &&& a.api_base_url == b.api_base_url
    &&& a.from == b.from
    &&& crate::strings::views(a.to@) == crate::strings::views(b.to@)
}

/// The channel is the mail account of an older configuration.
pub open spec fn is_legacy(channel: NotifyChannelConfig, email: EmailConfig) -> bool {
    &&& channel.name@ == "email"@
    &&& channel.kind == NotifyChannelKind::Smtp
    &&& channel.enabled == email.enabled
    &&& channel.smtp_host == email.smtp_host
    &&& channel.smtp_port == Some(email.smtp_port)
    &&& channel.tls == Some(SmtpTlsMode::StartTls)
    &&& channel.username_env == email.username_env
    &&& channel.password_env == email.password_env
    &&& channel.api_token_env is None
    &&& channel.account_id_env is None
    &&& channel.api_base_url is None
    &&& channel.from == email.from
    &&& crate::strings::views(channel.to@) == crate::strings::views(email.to@)
}

fn copy_channel(channel: &NotifyChannelConfig) -> (r: NotifyChannelConfig)
    ensures
        same_channel(r, *channel),
{
    NotifyChannelConfig {
        name: channel.name.clone(),
        kind: channel.kind,
        enabled: channel.enabled,
        smtp_host: copy_option(&channel.smtp_host),
        smtp_port: channel.smtp_port,
        tls: channel.tls,
        username_env: copy_option(&channel.username_env),
        password_env: copy_option(&channel.password_env),
        api_token_env: copy_option(&channel.api_token_env),
        account_id_env: copy_option(&channel.account_id_env),
        api_base_url: copy_option(&channel.api_base_url),
        from: copy_option(&channel.from),
        to: copy_list(&channel.to),
    }
}

pub fn legacy_email_to_channel(email: &EmailConfig) -> (r: NotifyChannelConfig)
    ensures
        is_legacy(r, *email),
{
    NotifyChannelConfig {
        name: owned("email"),
        kind: NotifyChannelKind::Smtp,
        enabled: email.enabled,
        smtp_host: copy_option(&email.smtp_host),
        smtp_port: Some(email.smtp_port),
        tls: Some(SmtpTlsMode::StartTls),
        username_env: copy_option(&email.username_env),
        password_env: copy_option(&email.password_env),
        api_token_env: None,
        account_id_env: None,
        api_base_url: None,
        from: copy_option(&email.from),
        to: copy_list(&email.to),
    }
}

/// The channels of a configuration.
pub fn normalized_channels(config: &NotifyConfig) -> (r: Vec<NotifyChannelConfig>)
    ensures
        r@.len() == channel_count(*config),
        config.channels@.len() > 0 ==> forall|i: int|
            0 <= i < r@.len() ==> same_channel(#[trigger] r@[i], config.channels@[i]),
        config.channels@.len() == 0 && config.email is Some ==> is_legacy(r@[0], config.email->0),
{
    let mut out: Vec<NotifyChannelConfig> = Vec::new();
    if config.channels.len() > 0 {
        let mut i: usize = 0;
        while i < config.channels.len()
            invariant
                i <= config.channels@.len(),
                out@.len() == i,
                forall|k: int|
                    0 <= k < out@.len() ==> same_channel(#[trigger] out@[k], config.channels@[k]),
            decreases config.channels@.len() - i,
        {
            out.push(copy_channel(&config.channels[i]));
            i += 1;
        }
        return out;
    }
    match &config.email {
        Some(email) => {
            out.push(legacy_email_to_channel(email));
        },
        None => {},
    }
    out
}

/// One success is enough.
pub open spec fn stops_after_success(mode: NotifyPolicyMode) -> bool {
    mode == NotifyPolicyMode::FirstSuccess || mode == NotifyPolicyMode::PrimaryWithFallback
}

pub fn should_stop_after_success(mode: NotifyPolicyMode) -> (r: bool)
    ensures
        r == stops_after_success(mode),
{
    match mode {
        NotifyPolicyMode::FirstSuccess | NotifyPolicyMode::PrimaryWithFallback => true,
        NotifyPolicyMode::Fanout => false,
    }
}

/// The first channel at or behind `i` that is switched on.
pub open spec fn next_channel(config: NotifyConfig, i: int) -> Option<int>
    decreases channel_count(config) - i,
{
    if i >= channel_count(config) {
        None
    } else if channel_on(config, i) {
        Some(i)
    } else {
        next_channel(config, i + 1)
    }
}

/// What is done next, where the channels below `i` have been tried.
pub open spec fn onward(config: NotifyConfig, i: int, sent: bool, errors: Seq<Seq<char>>) -> Sending {
    match next_channel(config, i) {
        Some(k) => Sending::Send(k),
        None => if sent {
            Sending::Done(true)
        } else if errors.len() == 0 {
            Sending::Done(false)
        } else {
            Sending::Fail("all notification channels failed: "@ + crate::strings::join(errors, " | "@))
        },
    }
}

pub open spec fn strategy_text(strategy: SyncStrategy) -> Seq<char> {
    match strategy {
        SyncStrategy::Rebase => "Rebase"@,
        SyncStrategy::Merge => "Merge"@,
    }
}

fn strategy_name(strategy: SyncStrategy) -> (r: &'static str)
    ensures
        r@ == strategy_text(strategy),
{
    match strategy {
        SyncStrategy::Rebase => "Rebase",
        SyncStrategy::Merge => "Merge",
    }
}

impl SendRun {
    /// The run fits the configuration.
    pub open spec fn wf(self, config: NotifyConfig) -> bool {
        &&& 0 <= self.at < channel_count(config)
        &&& channel_on(config, self.at as int)
    }

    fn go_on(&mut self, config: &NotifyConfig, from: usize) -> (r: SendAction)
        requires
            from <= channel_count(*config),
        ensures
            r@ == onward(*config, from as int, old(self).sent, crate::strings::views(old(self).errors@)),
            r is Send ==> final(self).wf(*config) && r->Send_0 == final(self).at,
            final(self).subject == old(self).subject,
            final(self).body == old(self).body,
            final(self).sent == old(self).sent,
            final(self).errors == old(self).errors,
    {
        let count: usize = if config.channels.len() > 0 {
            config.channels.len()
        } else if config.email.is_some() {
            1
        } else {
            0
        };
        let mut i: usize = from;
        while i < count
            invariant
                i <= count,
                count == channel_count(*config),
                next_channel(*config, from as int) == next_channel(*config, i as int),
                *self == *old(self),
            decreases count - i,
        {
            let on = if config.channels.len() > 0 {
                config.channels[i].enabled
            } else {
                match &config.email {
                    Some(email) => email.enabled,
                    None => false,
                }
            };
            if on {
                self.at = i;
                return SendAction::Send(i);
            }
            i += 1;
        }
        if self.sent {
            SendAction::Done(true)
        } else if self.errors.len() == 0 {
            SendAction::Done(false)
        } else {
            SendAction::Fail(
                owned("all notification channels failed: ").concat(
                    join_with(&self.errors, " | ").as_str(),
                ),
            )
        }
    }

    /// Takes note of what came of the channel that was tried.
    pub fn step(&mut self, config: &NotifyConfig, result: Result<(), String>) -> (r: SendAction)
        requires
            old(self).wf(*config),
        ensures
            ({
                let errors = crate::strings::views(old(self).errors@);
                let i = old(self).at as int;
                match result {
                    Ok(_) => {
                        &&& final(self).sent
                        &&& crate::strings::views(final(self).errors@) == errors
                        &&& r@ == (if stops_after_success(config.policy.mode) {
                            Sending::Done(true)
                        } else {
                            onward(*config, i + 1, true, errors)
                        })
                    },
                    Err(words) => {
                        let more = errors.push(channel_name(*config, i) + ": "@ + words@);
                        &&& final(self).sent == old(self).sent
                        &&& crate::strings::views(final(self).errors@) == more
                        &&& r@ == onward(*config, i + 1, old(self).sent, more)
                    },
                }
            }),
            r is Send ==> final(self).wf(*config) && r->Send_0 == final(self).at,
            final(self).subject == old(self).subject,
            final(self).body == old(self).body,
    {
        let listed: usize = config.channels.len();
        assert(self.at < listed || self.at == 0);
        let next: usize = self.at + 1;
        match result {
            Ok(()) => {
                self.sent = true;
                if should_stop_after_success(config.policy.mode) {
                    return SendAction::Done(true);
                }
            },
            Err(words) => {
                let name = if config.channels.len() > 0 {
                    config.channels[self.at].name.clone()
                } else {
                    owned("email")
                };
                push_string(&mut self.errors, name.concat(": ").concat(words.as_str()));
            },
        }
        self.go_on(config, next)
    }
}

impl Notifier {
    pub fn new(config: Option<NotifyConfig>) -> (r: Notifier)
        ensures
            r.config == config,
    {
        Notifier { config }
    }

    /// Notices may be sent.
    pub open spec fn on(self) -> bool {
        self.config is Some && self.config->0.enabled
    }

    pub fn sync_start_enabled(&self) -> (r: bool)
        ensures
            r == (self.on() && self.config->0.events.sync_start),
    {
        match &self.config {
            Some(config) => config.enabled && config.events.sync_start,
            None => false,
        }
    }

    pub fn sync_summary_enabled(&self) -> (r: bool)
        ensures
            r == (self.on() && self.config->0.events.sync_summary),
    {
        match &self.config {
            Some(config) => config.enabled && config.events.sync_summary,
            None => false,
        }
    }

    /// The sending of a notice begins as it should.
    pub open spec fn begun(self, subject: Seq<char>, body: Seq<char>, r: (SendRun, SendAction)) -> bool {
        if self.on() {
            &&& r.1@ == onward(self.config->0, 0, false, Seq::empty())
            &&& r.1 is Send ==> r.0.wf(self.config->0) && r.1->Send_0 == r.0.at
            &&& r.0.subject@ == self.config->0.subject_prefix@ + " "@ + subject
            &&& r.0.body@ == body
            &&& !r.0.sent
            &&& r.0.errors@.len() == 0
        } else {
            r.1@ == Sending::Done(false)
        }
    }

    /// Begins to send a notice.
    pub fn send(&self, subject: &str, body: &str) -> (r: (SendRun, SendAction))
        ensures
            self.begun(subject@, body@, r),
    {
        match &self.config {
            Some(config) => {
                let mut run = SendRun {
                    subject: owned(config.subject_prefix.as_str()).concat(" ").concat(subject),
                    body: owned(body),
                    at: 0,
                    sent: false,
                    errors: Vec::new(),
                };
                if !config.enabled {
                    return (run, SendAction::Done(false));
                }
                assert(crate::strings::views(run.errors@) =~= Seq::empty());
                let action = run.go_on(config, 0);
                (run, action)
            },
            None => (
                SendRun {
                    subject: owned(subject),
                    body: owned(body),
                    at: 0,
                    sent: false,
                    errors: Vec::new(),
                },
                SendAction::Done(false),
            ),
        }
    }

    pub fn send_failure(&self, subject: &str, body: &str) -> (r: (SendRun, SendAction))
        ensures
            self.begun(subject@, body@, r),
    {
        self.send(subject, body)
    }

    pub fn send_sync_start(&self, branch: &str, base: &str, strategy: SyncStrategy) -> (r: (
        SendRun,
        SendAction,
    ))
        ensures
            self.begun(
                "正在合并 "@ + branch@,
                "TermiteRS 正在同步分支。\n\nbranch: "@ + branch@ + "\nbase: "@ + base@ + "\nstrategy: "@
                    + strategy_text(strategy) + "\n"@,
                r,
            ),
    {
        let subject = owned("正在合并 ").concat(branch);
        let body = owned("TermiteRS 正在同步分支。\n\nbranch: ").concat(branch).concat("\nbase: ").concat(
            base,
        ).concat("\nstrategy: ").concat(strategy_name(strategy)).concat("\n");
        self.send(subject.as_str(), body.as_str())
    }

    pub fn send_sync_summary(&self, summary: &str, report: &str) -> (r: (SendRun, SendAction))
        ensures
            self.begun("同步总结"@, summary@ + "\n\n--- 原始报告 ---\n"@ + report@, r),
    {
        let body = owned(summary).concat("\n\n--- 原始报告 ---\n").concat(report);
        self.send("同步总结", body.as_str())
    }
}

/// The port of a mail server.
pub open spec fn smtp_port_of(tls: Option<SmtpTlsMode>) -> u16 {
    match tls {
        Some(SmtpTlsMode::Implicit) => 465,
        Some(SmtpTlsMode::Plain) => 25,
        _ => 587,
    }
}

pub fn default_smtp_port(tls: Option<SmtpTlsMode>) -> (r: u16)
    ensures
        r == smtp_port_of(tls),
{
    match tls {
        Some(SmtpTlsMode::Implicit) => 465,
        Some(SmtpTlsMode::Plain) => 25,
        Some(SmtpTlsMode::StartTls) => 587,
        None => 587,
    }
}

/// How a mail is handed to a server.
#[derive(Debug)]
pub struct SmtpPlan {
    pub host: String,
    pub port: u16,
    pub tls: SmtpTlsMode,
    pub from: String,
    /// The environment variables that hold the account, where both are named.
    pub credentials: Option<(String, String)>,
}

/// What a channel lacks.
pub open spec fn sender_fault(channel: NotifyChannelConfig) -> Option<Seq<char>> {
    if channel.from is None {
        Some("channel "@ + channel.name@ + " requires from"@)
    } else if channel.to@.len() == 0 {
        Some("channel "@ + channel.name@ + " requires at least one recipient"@)
    } else {
        None
    }
}

/// What a channel over a mail server lacks.
pub open spec fn smtp_fault(channel: NotifyChannelConfig) -> Option<Seq<char>> {
    if channel.smtp_host is None {
        Some("channel "@ + channel.name@ + " requires smtp_host"@)
    } else {
        sender_fault(channel)
    }
}

fn sender(channel: &NotifyChannelConfig) -> (r: Result<String, String>)
    ensures
        match r {
            Ok(from) => sender_fault(*channel) is None && from@ == channel.from->0@,
            Err(words) => sender_fault(*channel) == Some(words@),
        },
{
    match &channel.from {
        None => Err(owned("channel ").concat(channel.name.as_str()).concat(" requires from")),
        Some(from) => if channel.to.len() == 0 {
            Err(
                owned("channel ").concat(channel.name.as_str()).concat(
                    " requires at least one recipient",
                ),
            )
        } else {
            Ok(from.clone())
        },
    }
}

/// Says how a mail is handed to a server.
pub fn send_smtp(channel: &NotifyChannelConfig) -> (r: Result<SmtpPlan, String>)
    ensures
        match r {
            Err(words) => smtp_fault(*channel) == Some(words@),
            Ok(plan) => {
                &&& smtp_fault(*channel) is None
                &&& plan.host@ == channel.smtp_host->0@
                &&& plan.port == (match channel.smtp_port {
                    Some(port) => port,
                    None => smtp_port_of(channel.tls),
                })
                &&& plan.tls == (match channel.tls {
                    Some(tls) => tls,
                    None => SmtpTlsMode::StartTls,
                })
                &&& plan.from@ == channel.from->0@
                &&& match plan.credentials {
                    Some((username, password)) => channel.username_env is Some
                        && channel.password_env is Some && username@ == channel.username_env->0@
                        && password@ == channel.password_env->0@,
                    None => channel.username_env is None || channel.password_env is None,
                }
            },
        },
{
    let host = match &channel.smtp_host {
        None => {
            return Err(
                owned("channel ").concat(channel.name.as_str()).concat(" requires smtp_host"),
            );
        },
        Some(host) => host.clone(),
    };
    let from = match sender(channel) {
        Err(words) => {
            return Err(words);
        },
        Ok(from) => from,
    };
    let port: u16 = match channel.smtp_port {
        Some(port) => port,
        None => default_smtp_port(channel.tls),
    };
    let tls = match channel.tls {
        Some(tls) => tls,
        None => SmtpTlsMode::StartTls,
    };
    let credentials = match (&channel.username_env, &channel.password_env) {
        (Some(username), Some(password)) => Some((username.clone(), password.clone())),
        _ => None,
    };
    Ok(SmtpPlan { host, port, tls, from, credentials })
}

/// The environment variables that hold the token and the account.
pub fn cloudflare_envs(channel: &NotifyChannelConfig) -> (r: (String, String))
    ensures
        r.0@ == (match channel.api_token_env {
            Some(name) => name@,
            None => "CLOUDFLARE_API_TOKEN"@,
        }),
        r.1@ == (match channel.account_id_env {
            Some(name) => name@,
            None => "CLOUDFLARE_ACCOUNT_ID"@,
        }),
{
    let token = match &channel.api_token_env {
        Some(name) => name.clone(),
        None => owned("CLOUDFLARE_API_TOKEN"),
    };
    let account = match &channel.account_id_env {
        Some(name) => name.clone(),
        None => owned("CLOUDFLARE_ACCOUNT_ID"),
    };
    (token, account)
}

/// The sender and the address to which a mail is posted.
pub fn send_cloudflare(channel: &NotifyChannelConfig, account_id: &str) -> (r: Result<
    (String, String),
    String,
>)
    ensures
        match r {
            Err(words) => sender_fault(*channel) == Some(words@),
            Ok((from, url)) => {
                let base = match channel.api_base_url {
                    Some(base) => base@,
                    None => "https://api.cloudflare.com/client/v4"@,
                };
                &&& sender_fault(*channel) is None
                &&& from@ == channel.from->0@
                &&& url@ == crate::strings::trim_back_char(base, '/') + "/accounts/"@ + account_id@
                    + "/email/sending/send"@
            },
        },
{
    let from = match sender(channel) {
        Err(words) => {
            return Err(words);
        },
        Ok(from) => from,
    };
    let base = match &channel.api_base_url {
        Some(base) => base.clone(),
        None => owned("https://api.cloudflare.com/client/v4"),
    };
    let url = trim_end_char(base.as_str(), '/').concat("/accounts/").concat(account_id).concat(
        "/email/sending/send",
    );
    Ok((from, url))
}

/// The channels that are still tried lie behind the one that was tried last, and are switched on.
pub proof fn law_channels_are_tried_in_order(config: NotifyConfig, i: int, sent: bool, errors: Seq<Seq<char>>)
    requires
        0 <= i,
    ensures
        onward(config, i, sent, errors) is Send ==> i <= onward(config, i, sent, errors)->Send_0
            < channel_count(config) && channel_on(config, onward(config, i, sent, errors)->Send_0),
    decreases channel_count(config) - i,
{
    if i < channel_count(config) && !channel_on(config, i) {
        law_channels_are_tried_in_order(config, i + 1, sent, errors);
    }
}

} // verus!
