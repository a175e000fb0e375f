//! The decisions of the home page: what a click on the grab button does,
//! which account is selected and how it is labelled, and how the grab mode
//! buttons are coloured.

use vstd::prelude::*;
use crate::decimal::{i64_to_decimal, int_decimal};
use crate::ticket::{is_new_ticket, Account, BilibiliTicket, CustomConfig, PushConfig};
use crate::ticket_input::{check_input_ticket, spec_check_input_ticket};

verus! {

/// The logged-in accounts.
pub struct AccountManager {
    pub accounts: Vec<Account>,
}

/// The state of the application that the home page reads and changes.
pub struct Myapp {
    /// What the user typed as the project.
    pub ticket_id: String,
    pub show_log_window: bool,
    pub show_login_windows: bool,
    pub account_manager: AccountManager,
    pub selected_account_uid: Option<i64>,
    /// 0: wait for the sale and grab; 1: grab at once; 2: watch for returned tickets.
    pub grab_mode: u8,
    pub default_ua: String,
    pub custom_config: CustomConfig,
    pub push_config: PushConfig,
    pub status_delay: usize,
    pub bilibiliticket_list: Vec<BilibiliTicket>,
    /// The account whose screen choice is open, if any.
    pub show_screen_info: Option<i64>,
    /// The account (its uid in decimal) whose order confirmation is open, if any.
    pub confirm_ticket_info: Option<String>,
    pub announce1: Option<String>,
}

/// The position of the first account with uid `uid`, if there is one.
pub open spec fn first_account_with(accounts: Seq<Account>, uid: i64) -> Option<int>
    decreases accounts.len(),
{
    if accounts.len() == 0 {
        None
    } else {
        match first_account_with(accounts.drop_last(), uid) {
            Some(k) => Some(k),
            None => if accounts.last().uid == uid {
                Some(accounts.len() - 1)
            } else {
                None
            },
        }
    }
}

proof fn lemma_first_account_with(accounts: Seq<Account>, uid: i64)
    ensures
        match first_account_with(accounts, uid) {
            Some(k) => 0 <= k < accounts.len() && accounts[k].uid == uid
                && forall|j: int| 0 <= j < k ==> accounts[j].uid != uid,
            None => forall|j: int| 0 <= j < accounts.len() ==> accounts[j].uid != uid,
        },
    decreases accounts.len(),
{
    if accounts.len() > 0 {
        let d = accounts.drop_last();
        lemma_first_account_with(d, uid);
        assert forall|j: int| 0 <= j < d.len() implies d[j] == accounts[j] by {}
    }
}

/// A click on the grab button can be handled without failing: when the input
/// names a project, there are accounts and one is selected, that one is logged in.
pub open spec fn grab_click_ready(app: Myapp) -> bool {
    spec_check_input_ticket(app.ticket_id@) is Some && app.account_manager.accounts@.len() > 0
        && app.selected_account_uid is Some ==> exists|i: int|
        0 <= i < app.account_manager.accounts@.len()
            && app.account_manager.accounts@[i].uid == app.selected_account_uid->0
}

/// The position of the first account with uid `uid`.
fn find_account(accounts: &Vec<Account>, uid: i64) -> (r: Option<usize>)
    ensures
        match r {
            Some(k) => first_account_with(accounts@, uid) == Some(k as int) && k < accounts@.len(),
            None => first_account_with(accounts@, uid) is None,
        },
{
    let n = accounts.len();
    let mut i: usize = 0;
    while i < n
        invariant
            n == accounts@.len(),
            i <= n,
            first_account_with(accounts@.take(i as int), uid) is None,
        decreases n - i,
    {
        proof {
            assert(accounts@.take(i + 1).drop_last() =~= accounts@.take(i as int));
        }
        if accounts[i].uid == uid {
            proof {
                lemma_first_account_with(accounts@.take(i as int), uid);
                assert forall|j: int| 0 <= j < i implies accounts@[j].uid != uid by {
                    assert(accounts@.take(i as int)[j] == accounts@[j]);
                }
                lemma_first_is_unique(accounts@, uid, i as int);
            }
            return Some(i);
        }
        i = i + 1;
    }
    proof {
        assert(accounts@.take(n as int) =~= accounts@);
    }
    None
}

proof fn lemma_first_is_unique(accounts: Seq<Account>, uid: i64, k: int)
    requires
        0 <= k < accounts.len(),
        accounts[k].uid == uid,
        forall|j: int| 0 <= j < k ==> accounts[j].uid != uid,
    ensures
        first_account_with(accounts, uid) == Some(k),
{
    lemma_first_account_with(accounts, uid);
}

impl Myapp {
    /// Handles a click on the grab button.
    ///
    /// - When the input names no project, the log window is shown and nothing
    ///   else changes.
    /// - Otherwise the input is replaced by the project id; then, when there
    ///   is no account, the login window is shown; when none is selected,
    ///   nothing more happens; else a new task for the selected account (the
    ///   first with its uid) is added, and the screen choice (modes 0 and 1)
    ///   or the order confirmation (mode 2) is opened for that account.
    pub fn grab_button_clicked(&mut self)
        requires
            grab_click_ready(*old(self)),
        ensures
            match spec_check_input_ticket(old(self).ticket_id@) {
                None => *final(self) == (Myapp { show_log_window: true, ..*old(self) }),
                Some((id, referer)) => {
                    &&& final(self).ticket_id@ == id
                    &&& if old(self).account_manager.accounts@.len() == 0 {
                        *final(self) == (Myapp {
                            ticket_id: final(self).ticket_id,
                            show_login_windows: true,
                            ..*old(self)
                        })
                    } else if old(self).selected_account_uid is None {
                        *final(self) == (Myapp { ticket_id: final(self).ticket_id, ..*old(self) })
                    } else {
                        let uid = old(self).selected_account_uid->0;
                        let k = first_account_with(old(self).account_manager.accounts@, uid)->0;
                        let mode = old(self).grab_mode;
                        &&& *final(self) == (Myapp {
                            ticket_id: final(self).ticket_id,
                            bilibiliticket_list: final(self).bilibiliticket_list,
                            show_screen_info: final(self).show_screen_info,
                            confirm_ticket_info: final(self).confirm_ticket_info,
                            ..*old(self)
                        })
                        &&& final(self).bilibiliticket_list@.len() == old(self).bilibiliticket_list@.len() + 1
                        &&& final(self).bilibiliticket_list@.drop_last() == old(self).bilibiliticket_list@
                        &&& is_new_ticket(
                            final(self).bilibiliticket_list@.last(),
                            mode,
                            old(self).default_ua@,
                            old(self).custom_config,
                            old(self).account_manager.accounts@[k],
                            old(self).push_config,
                            old(self).status_delay,
                            id,
                            referer,
                        )
                        &&& if mode == 0 || mode == 1 {
                            final(self).show_screen_info == Some(uid)
                                && final(self).confirm_ticket_info == old(self).confirm_ticket_info
                        } else if mode == 2 {
                            &&& final(self).show_screen_info == old(self).show_screen_info
                            &&& final(self).confirm_ticket_info matches Some(s)
                            &&& s@ == int_decimal(uid as int)
                        } else {
                            final(self).show_screen_info == old(self).show_screen_info
                                && final(self).confirm_ticket_info == old(self).confirm_ticket_info
                        }
                    }
                },
            },
    {
        let (project_id, referer) = match check_input_ticket(self.ticket_id.as_str()) {
            Some(res) => res,
            None => {
                self.show_log_window = true;
                return;
            },
        };
        self.ticket_id = project_id;
        if self.account_manager.accounts.len() == 0 {
            self.show_login_windows = true;
            return;
        }
        let select_uid = match self.selected_account_uid {
            Some(uid) => uid,
            None => {
                return;
            },
        };
        let k = match find_account(&self.account_manager.accounts, select_uid) {
            Some(k) => k,
            None => {
                proof {
                    lemma_first_account_with(old(self).account_manager.accounts@, select_uid);
                }
                return;
            },
        };
        let bilibili_ticket = BilibiliTicket::new(
            &self.grab_mode,
            &self.default_ua,
            &self.custom_config,
            &self.account_manager.accounts[k],
            &self.push_config,
            &self.status_delay,
            self.ticket_id.as_str(),
            referer.as_str(),
        );
        self.bilibiliticket_list.push(bilibili_ticket);
        proof {
            assert(self.bilibiliticket_list@.drop_last() =~= old(self).bilibiliticket_list@);
        }
        if self.grab_mode == 0 || self.grab_mode == 1 {
            self.show_screen_info = Some(select_uid);
        } else if self.grab_mode == 2 {
            self.confirm_ticket_info = Some(i64_to_decimal(select_uid));
        }
    }
}


/// `app` with the first account selected when accounts are logged in and
/// none is selected; unchanged otherwise.
pub open spec fn with_default_selection(app: Myapp) -> Myapp {
    if app.account_manager.accounts@.len() > 0 && app.selected_account_uid is None {
        Myapp { selected_account_uid: Some(app.account_manager.accounts@[0].uid), ..app }
    } else {
        app
    }
}

/// The selection names a logged-in account, or nothing is selected.
pub open spec fn selection_is_valid(app: Myapp) -> bool {
    app.selected_account_uid matches Some(uid) ==> exists|i: int|
        0 <= i < app.account_manager.accounts@.len() && app.account_manager.accounts@[i].uid == uid
}

/// Selecting the default account keeps the selection valid, and leaves an
/// account selected whenever one is logged in; a grab click is then always
/// handled without failing.
pub proof fn law_default_selection_is_valid(app: Myapp)
    requires
        selection_is_valid(app),
    ensures
        selection_is_valid(with_default_selection(app)),
        app.account_manager.accounts@.len() > 0 ==> with_default_selection(app).selected_account_uid is Some,
        grab_click_ready(with_default_selection(app)),
{
    let a = with_default_selection(app);
    if app.account_manager.accounts@.len() > 0 && app.selected_account_uid is None {
        assert(a.account_manager.accounts@[0].uid == a.selected_account_uid->0);
    }
}

/// How an account is shown: its name, then its uid in brackets.
pub open spec fn spec_account_label(account: Account) -> Seq<char> {
    account.name@ + " ("@ + int_decimal(account.uid as int) + ")"@
}

/// The text of the account selector: the label of the selected account, or
/// "选择账号" when no logged-in account is selected.
pub open spec fn spec_selected_account_text(app: Myapp) -> Seq<char> {
    match app.selected_account_uid {
        Some(uid) => match first_account_with(app.account_manager.accounts@, uid) {
            Some(k) => spec_account_label(app.account_manager.accounts@[k]),
            None => "选择账号"@,
        },
        None => "选择账号"@,
    }
}

/// How an account is shown in the selector (see `spec_account_label`).
pub fn account_label(account: &Account) -> (s: String)
    ensures
        s@ == spec_account_label(*account),
{
    let mut s = account.name.clone();
    s.append(" (");
    let uid = i64_to_decimal(account.uid);
    s.append(uid.as_str());
    s.append(")");
    s
}

/// The level badge of an account: "LV" and its level.
pub fn level_text(level: i32) -> (s: String)
    ensures
        s@ == "LV"@ + int_decimal(level as int),
{
    let mut s = String::from_str("LV");
    let digits = i64_to_decimal(level as i64);
    s.append(digits.as_str());
    s
}

/// The colours of a grab-mode button, as red, green and blue.
pub struct ModeButtonColors {
    pub text: (u8, u8, u8),
    pub fill: (u8, u8, u8),
    pub stroke: (u8, u8, u8),
}

/// The colours of a grab-mode button: white on light blue with a blue
/// border when it is the selected mode, dark grey on light grey with a grey
/// border otherwise.
pub fn mode_button_colors(selected: bool) -> (c: ModeButtonColors)
    ensures
        selected ==> c.text == (255u8, 255u8, 255u8) && c.fill == (102u8, 204u8, 255u8) && c.stroke == (
            25u8,
            118u8,
            210u8,
        ),
        !selected ==> c.text == (70u8, 70u8, 70u8) && c.fill == (230u8, 230u8, 235u8) && c.stroke == (
            180u8,
            180u8,
            190u8,
        ),
{
    if selected {
        ModeButtonColors { text: (255, 255, 255), fill: (102, 204, 255), stroke: (25, 118, 210) }
    } else {
        ModeButtonColors { text: (70, 70, 70), fill: (230, 230, 235), stroke: (180, 180, 190) }
    }
}

impl Myapp {
    /// When accounts are logged in and none is selected, selects the first.
    pub fn ensure_selected_account(&mut self)
        ensures
            *final(self) == with_default_selection(*old(self)),
    {
        if self.selected_account_uid.is_none() && self.account_manager.accounts.len() > 0 {
            self.selected_account_uid = Some(self.account_manager.accounts[0].uid);
        }
    }

    /// The text of the account selector (see `spec_selected_account_text`).
    pub fn selected_account_text(&self) -> (s: String)
        ensures
            s@ == spec_selected_account_text(*self),
    {
        match self.selected_account_uid {
            Some(uid) => match find_account(&self.account_manager.accounts, uid) {
                Some(k) => account_label(&self.account_manager.accounts[k]),
                None => String::from_str("选择账号"),
            },
            None => String::from_str("选择账号"),
        }
    }
}


/// The account selector shows the selected account: when the selected uid
/// belongs to a logged-in account, the text is the name of the first account
/// with that uid, then " (", its uid in decimal, and ")"; when nothing is
/// selected, or no logged-in account has the selected uid, it is "选择账号".
pub proof fn law_selector_shows_selected_account(app: Myapp, k: int)
    ensures
        ({
            let accounts = app.account_manager.accounts@;
            (app.selected_account_uid matches Some(uid) && 0 <= k < accounts.len() && accounts[k].uid == uid
                && forall|j: int| 0 <= j < k ==> #[trigger] accounts[j].uid != uid) ==> spec_selected_account_text(app)
                == accounts[k].name@ + " ("@ + int_decimal(accounts[k].uid as int) + ")"@
        }),
        ({
            let accounts = app.account_manager.accounts@;
            (app.selected_account_uid is None || forall|j: int| 0 <= j < accounts.len() ==> #[trigger] accounts[j].uid
                != app.selected_account_uid->0) ==> spec_selected_account_text(app) == "选择账号"@
        }),
{
    let accounts = app.account_manager.accounts@;
    if let Some(uid) = app.selected_account_uid {
        lemma_first_account_with(accounts, uid);
        if 0 <= k < accounts.len() && accounts[k].uid == uid && forall|j: int| 0 <= j < k ==> #[trigger] accounts[j].uid != uid {
            lemma_first_is_unique(accounts, uid, k);
        }
    }
}

} // verus!
