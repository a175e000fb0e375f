use biliticket::model::{SaleFlag, ScreenInfo, ScreenTicketInfo, TicketInfo};

fn ticket_kind(sale_start: Option<usize>) -> ScreenTicketInfo {
    ScreenTicketInfo {
        saleStart: sale_start,
        saleEnd: None,
        id: Some(1),
        project_id: Some(85939),
        price: Some(12800),
        desc: Some("普通票".to_string()),
        sale_start: None,
        sale_end: None,
        kind: Some(1),
        sale_type: None,
        is_sale: None,
        num: None,
        sale_flag: SaleFlag::default(),
        clickable: Some(true),
        sale_flag_number: None,
        screen_name: None,
    }
}

fn screen(start_time: Option<usize>, sale_start: usize, kinds: Vec<ScreenTicketInfo>) -> ScreenInfo {
    ScreenInfo {
        sale_flag: SaleFlag::default(),
        id: Some(1),
        start_time,
        name: Some("第一天".to_string()),
        ticket_type: None,
        screen_type: None,
        delivery_type: None,
        pick_seat: None,
        ticket_list: kinds,
        clickable: true,
        sale_end: 0,
        sale_start,
        sale_flag_number: 0,
        show_date: String::new(),
    }
}

fn project(sale_begin: Option<i64>, screens: Vec<ScreenInfo>) -> TicketInfo {
    TicketInfo {
        id: Some(85939),
        name: Some("BW2025".to_string()),
        is_sale: Some(1),
        start_time: None,
        end_time: None,
        pick_seat: None,
        project_type: Some(1),
        express_fee: None,
        sale_begin,
        sale_end: None,
        count_down: None,
        screen_list: screens,
        sale_flag_number: None,
        sale_flag: String::new(),
        is_free: None,
        performance_desc: None,
        id_bind: Some(1),
        hot_project: Some(true),
    }
}

#[test]
fn sale_flag_default() {
    let f = SaleFlag::default();
    assert_eq!(f.number, 0);
    assert_eq!(f.display_name, "未知状态");
}

#[test]
fn fill_takes_earliest_offered_time() {
    let screens = vec![
        screen(Some(1720300000), 1720270000, vec![ticket_kind(Some(1720260000)), ticket_kind(None)]),
        screen(None, 0, vec![ticket_kind(Some(1720250000)), ticket_kind(Some(0))]),
    ];
    let mut info = project(None, screens);
    info.fill_missing_sale_begin();
    assert_eq!(info.sale_begin, Some(1720250000));
}

#[test]
fn fill_skips_zero_times() {
    let mut info = project(None, vec![screen(Some(0), 0, vec![ticket_kind(Some(0))]), screen(Some(5), 9, vec![])]);
    info.fill_missing_sale_begin();
    assert_eq!(info.sale_begin, Some(5));
}

#[test]
fn fill_keeps_present_sale_begin() {
    let mut info = project(Some(42), vec![screen(Some(1), 1, vec![])]);
    info.fill_missing_sale_begin();
    assert_eq!(info.sale_begin, Some(42));
}

#[test]
fn fill_without_offered_time_leaves_none() {
    let mut info = project(None, vec![screen(None, 0, vec![ticket_kind(None)])]);
    info.fill_missing_sale_begin();
    assert_eq!(info.sale_begin, None);
    let mut empty = project(None, vec![]);
    empty.fill_missing_sale_begin();
    assert_eq!(empty.sale_begin, None);
}

#[test]
fn fill_is_idempotent() {
    let mut info = project(None, vec![screen(Some(300), 200, vec![ticket_kind(Some(100))])]);
    info.fill_missing_sale_begin();
    let once = info.sale_begin;
    info.fill_missing_sale_begin();
    assert_eq!(info.sale_begin, once);
    assert_eq!(once, Some(100));
    assert_eq!(info.screen_list.len(), 1);
    assert_eq!(info.name.as_deref(), Some("BW2025"));
}

#[test]
fn validate_accepts_complete_project() {
    let info = project(Some(1), vec![screen(None, 0, vec![])]);
    assert_eq!(info.validate(), Ok(()));
}

#[test]
fn validate_lists_every_missing_field() {
    let mut info = project(None, vec![]);
    info.id = None;
    info.name = None;
    info.id_bind = None;
    info.hot_project = None;
    assert_eq!(
        info.validate(),
        Err("项目信息校验失败，以下必需字段缺失或为空: [id(项目ID), name(项目名称), sale_begin(开售时间), id_bind(实名绑定标识), hotProject(热门项目标识), screen_list(场次列表为空)]".to_string())
    );
}

#[test]
fn validate_lists_one_missing_field() {
    let info = project(None, vec![screen(None, 0, vec![])]);
    assert_eq!(info.validate(), Err("项目信息校验失败，以下必需字段缺失或为空: [sale_begin(开售时间)]".to_string()));
    let mut other = project(Some(3), vec![screen(None, 0, vec![])]);
    other.hot_project = None;
    assert_eq!(other.validate(), Err("项目信息校验失败，以下必需字段缺失或为空: [hotProject(热门项目标识)]".to_string()));
}

#[test]
fn validation_after_fill() {
    let mut info = project(None, vec![screen(Some(10), 0, vec![])]);
    assert!(info.validate().is_err());
    info.fill_missing_sale_begin();
    assert_eq!(info.validate(), Ok(()));
    let mut no_time = project(None, vec![screen(None, 0, vec![])]);
    no_time.fill_missing_sale_begin();
    assert!(no_time.validate().is_err());
}

#[test]
fn fill_ignores_order_of_screens_and_kinds() {
    let a = screen(Some(900), 800, vec![ticket_kind(Some(700)), ticket_kind(Some(650))]);
    let b = screen(None, 0, vec![ticket_kind(Some(660)), ticket_kind(None)]);
    let mut first = project(None, vec![a.clone(), b.clone()]);
    let mut b_rev = b.clone();
    b_rev.ticket_list.reverse();
    let mut a_rev = a.clone();
    a_rev.ticket_list.reverse();
    let mut second = project(None, vec![b_rev, a_rev]);
    first.fill_missing_sale_begin();
    second.fill_missing_sale_begin();
    assert_eq!(first.sale_begin, Some(650));
    assert_eq!(second.sale_begin, first.sale_begin);
}
