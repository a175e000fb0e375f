//! Plain data carried between the ticket service and the grabbing logic:
//! the replies the service sends back, the project details, screens,
//! ticket kinds and buyers.

use vstd::prelude::*;

verus! {

/// A JSON document of `serde_json`, carried through as it is.
#[verifier::external_type_specification]
#[verifier::external_body]
pub struct ExJsonValue(serde_json::Value);

/// A JSON document is duplicated by a deep copy, which gives an equal document.
pub assume_specification[ <serde_json::Value as Clone>::clone ](v: &serde_json::Value) -> (r: serde_json::Value)
    ensures
        r == *v,
;

/// An order that the service accepted.
#[derive(Clone, Debug)]
pub struct SubmitOrderResult {
    pub order_id: i128,
    pub order_create_time: i64,
    pub order_token: String,
}

/// The answer to the payment check of an order.
#[derive(Clone, Debug)]
pub struct CheckFakeResult {
    pub errno: i32,
    pub code: i32,
    pub errtag: i32,
    pub msg: String,
    pub message: String,
    pub data: CheckFakeResultParam,
}

#[derive(Clone, Debug)]
pub struct CheckFakeResultParam {
    pub pay_param: CheckFakeResultData,
}

#[derive(Clone, Debug)]
pub struct CheckFakeResultData {
    pub sign: String,
    pub code_url: String,
}

#[derive(Clone, Debug)]
pub struct ConfirmTicketInfo {
    pub name: String,
    pub count: i32,
    pub price: i64,
}

/// The summary of an order before it is placed.
#[derive(Clone, Debug)]
pub struct ConfirmTicketResult {
    pub count: i32,
    pub pay_money: i64,
    pub project_name: String,
    pub screen_name: String,
    pub ticket_info: ConfirmTicketInfo,
}

/// The risk parameters that come with a token.
#[derive(Clone, Debug)]
pub struct TokenRiskParam {
    pub code: i32,
    pub message: String,
    pub mid: Option<String>,
    pub decision_type: Option<String>,
    pub buvid: Option<String>,
    pub ip: Option<String>,
    pub scene: Option<String>,
    pub ua: Option<String>,
    pub v_voucher: Option<String>,
    pub risk_param: Option<serde_json::Value>,
}

/// The details of a project: its identity, sale times and screens.
#[derive(Clone, Debug)]
pub struct TicketInfo {
    pub id: Option<i32>,
    pub name: Option<String>,
    pub is_sale: Option<usize>,
    pub start_time: Option<i64>,
    pub end_time: Option<i64>,
    pub pick_seat: Option<usize>,
    pub project_type: Option<usize>,
    pub express_fee: Option<usize>,
    pub sale_begin: Option<i64>,
    pub sale_end: Option<i64>,
    pub count_down: Option<i64>,
    pub screen_list: Vec<ScreenInfo>,
    pub sale_flag_number: Option<usize>,
    pub sale_flag: String,
    pub is_free: Option<bool>,
    pub performance_desc: Option<DescribeList>,
    pub id_bind: Option<usize>,
    pub hot_project: Option<bool>,
}

/// One screen (one show date) of a project.
#[derive(Clone, Debug)]
pub struct ScreenInfo {
    pub sale_flag: SaleFlag,
    pub id: Option<usize>,
    pub start_time: Option<usize>,
    pub name: Option<String>,
    pub ticket_type: Option<usize>,
    pub screen_type: Option<usize>,
    pub delivery_type: Option<usize>,
    pub pick_seat: Option<usize>,
    pub ticket_list: Vec<ScreenTicketInfo>,
    pub clickable: bool,
    pub sale_end: usize,
    pub sale_start: usize,
    pub sale_flag_number: usize,
    pub show_date: String,
}

/// The sale state of a screen or a ticket kind.
#[derive(Clone, Debug)]
pub struct SaleFlag {
    pub number: usize,
    pub display_name: String,
}

impl Default for SaleFlag {
    /// The state of a screen whose reply carries none: number 0, "未知状态".
    fn default() -> (r: Self)
        ensures
            r.number == 0,
            r.display_name@ == "未知状态"@,
    {
        SaleFlag { number: 0, display_name: String::from_str("未知状态") }
    }
}

/// One ticket kind of a screen.
#[allow(non_snake_case)]
#[derive(Clone, Debug)]
pub struct ScreenTicketInfo {
    pub saleStart: Option<usize>,
    pub saleEnd: Option<usize>,
    pub id: Option<usize>,
    pub project_id: Option<usize>,
    pub price: Option<usize>,
    pub desc: Option<String>,
    pub sale_start: Option<String>,
    pub sale_end: Option<String>,
    /// The kind of the ticket (the service calls it "type").
    pub kind: Option<usize>,
    pub sale_type: Option<usize>,
    pub is_sale: Option<usize>,
    pub num: Option<usize>,
    pub sale_flag: SaleFlag,
    pub clickable: Option<bool>,
    pub sale_flag_number: Option<usize>,
    pub screen_name: Option<String>,
}

/// The description modules of a project.
#[derive(Clone, Debug)]
pub struct DescribeList {
    /// The kind of the list (the service calls it "type").
    pub kind: u8,
    pub list: Vec<ModuleItem>,
}

/// One description module; its details are a string or a list, kept as JSON.
#[derive(Clone, Debug)]
pub struct ModuleItem {
    pub module: String,
    pub details: serde_json::Value,
    pub module_name: Option<String>,
}

#[derive(Clone, Debug)]
pub struct BaseInfoItem {
    pub title: String,
    pub content: String,
}

/// The reply that carries the details of a project.
#[derive(Clone, Debug)]
pub struct InfoResponse {
    pub errno: i32,
    pub errtag: i32,
    pub msg: String,
    pub code: i32,
    pub message: String,
    pub data: TicketInfo,
}

/// A buyer registered with real-name information.
#[allow(non_snake_case)]
#[derive(Clone, Debug)]
pub struct BuyerInfo {
    pub id: i64,
    pub uid: i64,
    pub personal_id: String,
    pub name: String,
    pub tel: String,
    pub id_type: i64,
    pub is_default: i64,
    pub id_card_front: String,
    pub id_card_back: String,
    pub verify_status: i64,
    pub isBuyerInfoVerified: bool,
    pub isBuyerValid: bool,
}

#[derive(Clone, Debug)]
pub struct BuyerInfoResponse {
    pub errno: i32,
    pub errtag: i32,
    pub msg: String,
    pub code: i32,
    pub message: String,
    pub data: BuyerInfoData,
}

#[derive(Clone, Debug)]
pub struct BuyerInfoData {
    pub list: Vec<BuyerInfo>,
}

/// A buyer for projects that need no real-name binding.
#[derive(Clone, Debug)]
pub struct NoBindBuyerInfo {
    pub name: String,
    pub tel: String,
    pub uid: i64,
}

} // verus!
