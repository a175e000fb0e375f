//! A grabbing task for one project and one account, and the request
//! headers that its client is set up with.

use vstd::prelude::*;
use crate::model::{BuyerInfo, BuyerInfoData, NoBindBuyerInfo, TicketInfo};

verus! {

/// The user's settings that a task reads.
#[derive(Debug)]
pub struct CustomConfig {
    /// A user agent to send in place of the default one; empty for none.
    pub custom_ua: String,
    /// How captchas are solved.
    pub captcha_mode: usize,
}

impl Clone for CustomConfig {
    fn clone(&self) -> (res: Self)
        ensures
            res == *self,
    {
        CustomConfig { custom_ua: self.custom_ua.clone(), captcha_mode: self.captcha_mode }
    }
}

/// A logged-in account.
#[derive(Debug)]
pub struct Account {
    pub uid: i64,
    pub name: String,
    pub level: i32,
    pub vip_label: String,
    pub cookie: String,
}

impl Clone for Account {
    fn clone(&self) -> (res: Self)
        ensures
            res == *self,
    {
        Account {
            uid: self.uid,
            name: self.name.clone(),
            level: self.level,
            vip_label: self.vip_label.clone(),
            cookie: self.cookie.clone(),
        }
    }
}

/// The user's notification settings.
#[derive(Debug)]
pub struct PushConfig {
    pub enabled: bool,
}

impl Clone for PushConfig {
    fn clone(&self) -> (res: Self)
        ensures
            res == *self,
    {
        PushConfig { enabled: self.enabled }
    }
}

/// The shared cookie jar of a running task; a new task has none.
#[derive(Debug)]
pub struct CookieManager {
    pub cookies: Vec<(String, String)>,
}

/// A grabbing task: who grabs, what project, and what has been learnt of it.
#[derive(Clone, Debug)]
pub struct BilibiliTicket {
    pub uid: i64,
    pub method: u8,
    pub ua: String,
    pub config: CustomConfig,
    pub account: Account,
    pub push_self: PushConfig,
    pub status_delay: usize,
    pub captcha_use_type: usize,
    pub cookie_manager: Option<std::sync::Arc<CookieManager>>,
    pub project_id: String,
    pub referer: String,
    pub screen_id: String,
    /// Whether buyers must be bound by real name; 999 until known.
    pub id_bind: usize,
    pub project_info: Option<TicketInfo>,
    pub all_buyer_info: Option<BuyerInfoData>,
    pub buyer_info: Option<Vec<BuyerInfo>>,
    pub no_bind_buyer_info: Option<NoBindBuyerInfo>,
    pub select_ticket_id: Option<String>,
    pub pay_money: Option<i64>,
    pub count: Option<i32>,
    pub device_id: String,
}

/// `t` is a new task with these parameters: it copies them, takes its uid
/// from the account and its captcha way from the settings, and knows nothing
/// yet of the project.
pub open spec fn is_new_ticket(
    t: BilibiliTicket,
    method: u8,
    ua: Seq<char>,
    config: CustomConfig,
    account: Account,
    push_self: PushConfig,
    status_delay: usize,
    project_id: Seq<char>,
    referer: Seq<char>,
) -> bool {
    &&& t.uid == account.uid
    &&& t.method == method
    &&& t.ua@ == ua
    &&& t.config == config
    &&& t.account == account
    &&& t.push_self == push_self
    &&& t.status_delay == status_delay
    &&& t.captcha_use_type == config.captcha_mode
    &&& t.cookie_manager is None
    &&& t.project_id@ == project_id
    &&& t.referer@ == referer
    &&& t.screen_id@.len() == 0
    &&& t.id_bind == 999
    &&& t.project_info is None
    &&& t.all_buyer_info is None
    &&& t.buyer_info is None
    &&& t.no_bind_buyer_info is None
    &&& t.select_ticket_id is None
    &&& t.pay_money is None
    &&& t.count is None
    &&& t.device_id@.len() == 0
}

/// The user agent that the task's requests carry: the custom one when it is
/// set, the default one otherwise.
pub open spec fn spec_effective_user_agent(config: CustomConfig, ua: Seq<char>) -> Seq<char> {
    if config.custom_ua@.len() > 0 {
        config.custom_ua@
    } else {
        ua
    }
}

/// A byte that may stand in an HTTP header value: a tab, or any byte from
/// 32 up other than 127 (DEL).
pub open spec fn header_value_byte_ok(b: u8) -> bool {
    (b >= 32 && b != 127) || b == 9
}

/// Every byte of `bytes` may stand in an HTTP header value.
pub open spec fn is_header_value_text(bytes: Seq<u8>) -> bool {
    forall|i: int| 0 <= i < bytes.len() ==> header_value_byte_ok(#[trigger] bytes[i])
}

/// Calls `reqwest::header::HeaderValue::from_str`; states that it accepts
/// exactly the strings whose UTF-8 bytes are all tabs or at least 32 and not
/// 127 (its source checks each byte so).
#[verifier::external_body]
fn header_value_accepts(s: &str) -> (ok: bool)
    ensures
        ok == is_header_value_text(vstd::utf8::encode_utf8(s@)),
{
    reqwest::header::HeaderValue::from_str(s).is_ok()
}

/// The default headers of a task's client.
#[derive(Clone, Debug)]
pub struct DefaultHeaders {
    pub cookie: Option<String>,
    pub user_agent: Option<String>,
}

/// The user agent that a task's requests carry (see `spec_effective_user_agent`).
pub fn effective_user_agent(config: &CustomConfig, ua: &String) -> (res: String)
    ensures
        res@ == spec_effective_user_agent(*config, ua@),
{
    let mut finally_ua = String::new();
    if config.custom_ua.as_str().unicode_len() != 0 {
        finally_ua.append(config.custom_ua.as_str());
    } else {
        finally_ua.append(ua.as_str());
    }
    finally_ua
}

/// The default headers of a task's client: the account's cookie when it is a
/// valid header value, and then the effective user agent when that is one
/// too; no header at all when the cookie is not valid.
pub fn default_headers(config: &CustomConfig, account: &Account, ua: &String) -> (h: DefaultHeaders)
    ensures
        ({
            let eff = spec_effective_user_agent(*config, ua@);
            if is_header_value_text(vstd::utf8::encode_utf8(account.cookie@)) {
                &&& h.cookie matches Some(c) && c@ == account.cookie@
                &&& if is_header_value_text(vstd::utf8::encode_utf8(eff)) {
                    h.user_agent matches Some(u) && u@ == eff
                } else {
                    h.user_agent is None
                }
            } else {
                h.cookie is None && h.user_agent is None
            }
        }),
{
    let finally_ua = effective_user_agent(config, ua);
    if header_value_accepts(account.cookie.as_str()) {
        let cookie = account.cookie.clone();
        let user_agent = if header_value_accepts(finally_ua.as_str()) {
            Some(finally_ua)
        } else {
            None
        };
        DefaultHeaders { cookie: Some(cookie), user_agent }
    } else {
        DefaultHeaders { cookie: None, user_agent: None }
    }
}

impl BilibiliTicket {
    /// A new task for `project_id` on the account, with the given grab
    /// method, default user agent, settings, notification settings and
    /// status delay (see `is_new_ticket`).
    pub fn new(
        method: &u8,
        ua: &String,
        config: &CustomConfig,
        account: &Account,
        push_self: &PushConfig,
        status_delay: &usize,
        project_id: &str,
        referer: &str,
    ) -> (t: Self)
        ensures
            is_new_ticket(
                t,
                *method,
                ua@,
                *config,
                *account,
                *push_self,
                *status_delay,
                project_id@,
                referer@,
            ),
    {
        BilibiliTicket {
            uid: account.uid,
            method: *method,
            ua: ua.clone(),
            config: config.clone(),
            account: account.clone(),
            push_self: push_self.clone(),
            status_delay: *status_delay,
            captcha_use_type: config.captcha_mode,
            cookie_manager: None,
            project_id: String::from_str(project_id),
            referer: String::from_str(referer),
            screen_id: String::new(),
            id_bind: 999,
            project_info: None,
            all_buyer_info: None,
            buyer_info: None,
            no_bind_buyer_info: None,
            select_ticket_id: None,
            pay_money: None,
            count: None,
            device_id: String::new(),
        }
    }
}


/// A new task keeps what it was created with: the settings it was given
/// (custom user agent and captcha way included), the account and its uid,
/// the notification settings, the grab method, the default user agent, the
/// status delay, and the project and referer.
pub proof fn law_new_ticket_keeps_its_parameters(
    t: BilibiliTicket,
    method: u8,
    ua: Seq<char>,
    config: CustomConfig,
    account: Account,
    push_self: PushConfig,
    status_delay: usize,
    project_id: Seq<char>,
    referer: Seq<char>,
)
    requires
        is_new_ticket(t, method, ua, config, account, push_self, status_delay, project_id, referer),
    ensures
        t.config == config,
        t.config.custom_ua@ == config.custom_ua@,
        t.config.captcha_mode == config.captcha_mode,
        t.account == account,
        t.uid == account.uid,
        t.push_self == push_self,
        t.method == method,
        t.ua@ == ua,
        t.status_delay == status_delay,
        t.project_id@ == project_id,
        t.referer@ == referer,
        t.cookie_manager is None,
{
}

/// A custom user agent, when set, always wins over the default one, whatever
/// the default is; the default is used exactly when no custom one is set.
pub proof fn law_custom_user_agent_wins(config: CustomConfig, ua: Seq<char>)
    ensures
        config.custom_ua@.len() > 0 ==> spec_effective_user_agent(config, ua) == config.custom_ua@,
        config.custom_ua@.len() == 0 ==> spec_effective_user_agent(config, ua) == ua,
{
}

} // verus!
