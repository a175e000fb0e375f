use biliticket::decimal::i64_to_decimal;
use biliticket::ticket_input::check_input_ticket;

const PAGE: &str = "https://show.bilibili.com/platform/detail.html?id=";

/// The reading of an input as std does it, to hold the library against.
fn reference_read(input: &str) -> Option<(String, String)> {
    if input.is_empty() {
        return None;
    }
    if input.contains("https") {
        if let Some(start) = input.find("id=") {
            let rest = &input[start + 3..];
            let id = rest.split('&').next().unwrap_or(rest);
            if (5..=8).contains(&id.len()) && id.parse::<u32>().is_ok() {
                return Some((id.to_string(), input.to_string()));
            }
            return None;
        }
        return None;
    }
    if input.parse::<u32>().is_ok() {
        return Some((input.to_string(), format!("{}{}", PAGE, input)));
    }
    None
}

fn pair(a: &str, b: &str) -> Option<(String, String)> {
    Some((a.to_string(), b.to_string()))
}

#[test]
fn bare_id_gets_project_page() {
    assert_eq!(check_input_ticket("85939"), pair("85939", &format!("{}85939", PAGE)));
}

#[test]
fn empty_input_names_nothing() {
    assert_eq!(check_input_ticket(""), None);
}

#[test]
fn link_id_is_taken_up_to_ampersand() {
    let link = "https://show.bilibili.com/platform/detail.html?id=123456&from=pc_ticketlist";
    assert_eq!(check_input_ticket(link), pair("123456", link));
}

#[test]
fn link_id_at_end() {
    let link = "https://mall.bilibili.com/neul-next/ticket/detail.html?id=98765";
    assert_eq!(check_input_ticket(link), pair("98765", link));
}

#[test]
fn link_id_too_short_or_long_is_refused() {
    assert_eq!(check_input_ticket("https://show.bilibili.com/x?id=1234"), None);
    assert_eq!(check_input_ticket("https://show.bilibili.com/x?id=123456789"), None);
}

#[test]
fn link_without_id_is_refused() {
    assert_eq!(check_input_ticket("https://b23.tv/abcdef"), None);
}

#[test]
fn link_id_not_a_number_is_refused() {
    assert_eq!(check_input_ticket("https://show.bilibili.com/x?id=12a45&b=1"), None);
}

#[test]
fn link_takes_first_id() {
    let link = "https://show.bilibili.com/x?uid=77777&id=12345";
    assert_eq!(check_input_ticket(link), pair("77777", link));
}

#[test]
fn non_number_is_refused() {
    assert_eq!(check_input_ticket("abc"), None);
    assert_eq!(check_input_ticket("12 34"), None);
    assert_eq!(check_input_ticket("-12345"), None);
}

#[test]
fn plus_sign_is_accepted_as_u32_does() {
    assert_eq!(check_input_ticket("+12345"), pair("+12345", &format!("{}+12345", PAGE)));
    assert_eq!(check_input_ticket("+"), None);
}

#[test]
fn u32_bounds() {
    assert_eq!(check_input_ticket("4294967295"), pair("4294967295", &format!("{}4294967295", PAGE)));
    assert_eq!(check_input_ticket("4294967296"), None);
    assert_eq!(check_input_ticket("99999999999999999999999"), None);
    assert_eq!(check_input_ticket("0"), pair("0", &format!("{}0", PAGE)));
}

#[test]
fn agrees_with_std_reading() {
    let inputs = [
        "", "1", "12345", "00012", "+7", "++7", "12a", "4294967295", "4294967296", "https",
        "https://x?id=", "https://x?id=12345", "https://x?id=12345&", "https://x?id=&12345",
        "https://x?id=+1234", "https://x?id=+123", "https://x?id=１２３４５", "http://x?id=12345",
        "https://x?aid=54321&id=12345", "xhttpsx id=99999", "id=12345", "票务12345",
        "https://x?id=12345678", "https://x?id=123456789&z", "https://x?id=99999999",
    ];
    for input in inputs.iter() {
        assert_eq!(check_input_ticket(input), reference_read(input), "input {:?}", input);
    }
}

#[test]
fn read_id_reads_back() {
    let link = "https://show.bilibili.com/platform/detail.html?id=123456&from=pc";
    let (id, _) = check_input_ticket(link).unwrap();
    assert_eq!(check_input_ticket(&id), pair(&id, &format!("{}{}", PAGE, id)));
}

#[test]
fn referer_reads_back() {
    let (id, referer) = check_input_ticket("7654321").unwrap();
    assert_eq!(check_input_ticket(&referer), pair(&id, &referer));
}

#[test]
fn decimal_id_is_read() {
    let text = i64_to_decimal(4294967295);
    assert_eq!(check_input_ticket(&text), pair(&text, &format!("{}{}", PAGE, text)));
}

#[test]
fn decimal_matches_to_string() {
    for n in [0i64, 7, -7, 10, 305, -305, 1234567890, i64::MAX, i64::MIN, -1] {
        assert_eq!(i64_to_decimal(n), n.to_string());
    }
}
