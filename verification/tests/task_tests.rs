use biliticket::home::{mode_button_colors, account_label, level_text, AccountManager, Myapp};
use biliticket::ticket::{default_headers, effective_user_agent, Account, BilibiliTicket, CustomConfig, PushConfig};

fn account(uid: i64, name: &str, cookie: &str) -> Account {
    Account { uid, name: name.to_string(), level: 6, vip_label: "年度大会员".to_string(), cookie: cookie.to_string() }
}

fn config(custom_ua: &str) -> CustomConfig {
    CustomConfig { custom_ua: custom_ua.to_string(), captcha_mode: 2 }
}

fn app(ticket_id: &str, accounts: Vec<Account>, selected: Option<i64>, grab_mode: u8) -> Myapp {
    Myapp {
        ticket_id: ticket_id.to_string(),
        show_log_window: false,
        show_login_windows: false,
        account_manager: AccountManager { accounts },
        selected_account_uid: selected,
        grab_mode,
        default_ua: "Mozilla/5.0".to_string(),
        custom_config: config(""),
        push_config: PushConfig { enabled: false },
        status_delay: 2,
        bilibiliticket_list: Vec::new(),
        show_screen_info: None,
        confirm_ticket_info: None,
        announce1: None,
    }
}

#[test]
fn new_ticket_copies_parameters() {
    let acc = account(10086, "alice", "SESSDATA=abc");
    let cfg = config("MyAgent");
    let t = BilibiliTicket::new(&1, &"Mozilla/5.0".to_string(), &cfg, &acc, &PushConfig { enabled: true }, &3, "85939", "https://x?id=85939");
    assert_eq!(t.uid, 10086);
    assert_eq!(t.method, 1);
    assert_eq!(t.ua, "Mozilla/5.0");
    assert_eq!(t.captcha_use_type, 2);
    assert_eq!(t.status_delay, 3);
    assert_eq!(t.project_id, "85939");
    assert_eq!(t.referer, "https://x?id=85939");
    assert_eq!(t.screen_id, "");
    assert_eq!(t.id_bind, 999);
    assert!(t.project_info.is_none());
    assert!(t.buyer_info.is_none());
    assert!(t.pay_money.is_none());
    assert_eq!(t.device_id, "");
    assert!(t.cookie_manager.is_none());
    assert_eq!(t.account.cookie, "SESSDATA=abc");
    assert!(t.push_self.enabled);
}

#[test]
fn custom_user_agent_wins() {
    assert_eq!(effective_user_agent(&config("MyAgent"), &"Default".to_string()), "MyAgent");
    assert_eq!(effective_user_agent(&config(""), &"Default".to_string()), "Default");
}

#[test]
fn headers_with_valid_cookie() {
    let h = default_headers(&config(""), &account(1, "a", "SESSDATA=abc; bili_jct=1\t2"), &"UA/1.0 中文".to_string());
    assert_eq!(h.cookie.as_deref(), Some("SESSDATA=abc; bili_jct=1\t2"));
    assert_eq!(h.user_agent.as_deref(), Some("UA/1.0 中文"));
}

#[test]
fn headers_with_invalid_cookie() {
    let h = default_headers(&config(""), &account(1, "a", "bad\ncookie"), &"UA".to_string());
    assert!(h.cookie.is_none());
    assert!(h.user_agent.is_none());
}

#[test]
fn headers_with_invalid_user_agent() {
    let h = default_headers(&config("bad\u{7f}agent"), &account(1, "a", "ok"), &"UA".to_string());
    assert_eq!(h.cookie.as_deref(), Some("ok"));
    assert!(h.user_agent.is_none());
}

#[test]
fn grab_with_bad_input_shows_log() {
    let mut a = app("abc", vec![account(1, "a", "c")], Some(1), 0);
    a.grab_button_clicked();
    assert!(a.show_log_window);
    assert_eq!(a.ticket_id, "abc");
    assert!(a.bilibiliticket_list.is_empty());
}

#[test]
fn grab_without_account_shows_login() {
    let link = "https://show.bilibili.com/platform/detail.html?id=85939&from=pc";
    let mut a = app(link, vec![], None, 0);
    a.grab_button_clicked();
    assert!(a.show_login_windows);
    assert!(!a.show_log_window);
    assert_eq!(a.ticket_id, "85939");
    assert!(a.bilibiliticket_list.is_empty());
}

#[test]
fn grab_without_selection_does_nothing_more() {
    let mut a = app("85939", vec![account(1, "a", "c")], None, 0);
    a.grab_button_clicked();
    assert!(!a.show_login_windows);
    assert!(a.bilibiliticket_list.is_empty());
    assert_eq!(a.ticket_id, "85939");
}

#[test]
fn grab_in_auto_mode_opens_screen_choice() {
    let mut a = app("85939", vec![account(1, "a", "c"), account(2, "b", "d")], Some(2), 0);
    a.grab_button_clicked();
    assert_eq!(a.bilibiliticket_list.len(), 1);
    let t = &a.bilibiliticket_list[0];
    assert_eq!(t.uid, 2);
    assert_eq!(t.account.name, "b");
    assert_eq!(t.project_id, "85939");
    assert_eq!(t.referer, "https://show.bilibili.com/platform/detail.html?id=85939");
    assert_eq!(t.method, 0);
    assert_eq!(a.show_screen_info, Some(2));
    assert_eq!(a.confirm_ticket_info, None);
}

#[test]
fn grab_in_watch_mode_opens_confirmation() {
    let mut a = app("85939", vec![account(-42, "a", "c")], Some(-42), 2);
    a.grab_button_clicked();
    assert_eq!(a.bilibiliticket_list.len(), 1);
    assert_eq!(a.show_screen_info, None);
    assert_eq!(a.confirm_ticket_info.as_deref(), Some("-42"));
}

#[test]
fn grab_in_unknown_mode_only_adds_task() {
    let mut a = app("85939", vec![account(7, "a", "c")], Some(7), 5);
    a.grab_button_clicked();
    assert_eq!(a.bilibiliticket_list.len(), 1);
    assert_eq!(a.show_screen_info, None);
    assert_eq!(a.confirm_ticket_info, None);
}

#[test]
fn default_selection_is_first_account() {
    let mut a = app("", vec![account(5, "a", "c"), account(6, "b", "c")], None, 0);
    a.ensure_selected_account();
    assert_eq!(a.selected_account_uid, Some(5));
    let mut kept = app("", vec![account(5, "a", "c"), account(6, "b", "c")], Some(6), 0);
    kept.ensure_selected_account();
    assert_eq!(kept.selected_account_uid, Some(6));
    let mut none = app("", vec![], None, 0);
    none.ensure_selected_account();
    assert_eq!(none.selected_account_uid, None);
}

#[test]
fn selected_account_text_and_labels() {
    let a = app("", vec![account(5, "alice", "c"), account(6, "bob", "c")], Some(6), 0);
    assert_eq!(a.selected_account_text(), "bob (6)");
    let b = app("", vec![account(5, "alice", "c")], Some(9), 0);
    assert_eq!(b.selected_account_text(), "选择账号");
    let c = app("", vec![account(5, "alice", "c")], None, 0);
    assert_eq!(c.selected_account_text(), "选择账号");
    assert_eq!(account_label(&account(123456, "小明", "c")), "小明 (123456)");
    assert_eq!(level_text(6), "LV6");
}

#[test]
fn mode_button_palette() {
    let on = mode_button_colors(true);
    assert_eq!((on.text, on.fill, on.stroke), ((255, 255, 255), (102, 204, 255), (25, 118, 210)));
    let off = mode_button_colors(false);
    assert_eq!((off.text, off.fill, off.stroke), ((70, 70, 70), (230, 230, 235), (180, 180, 190)));
}
