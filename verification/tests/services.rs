use edmdata::api::edm::{
    OrderBy, PublishedEarlyDayMotionStatus, RequestEarlyDayMotion, RequestEarlyDayMotionList,
};
use edmdata::api::member::{PublishedHouse, RequestMember, RequestMemberEdmList, RequestMemberList};
use edmdata::api::si::RequestStatutoryInstrumentList;
use edmdata::api::{
    ApiError, ApiResponse, ItemsResponse, LinkResponse, PagedResponse, ValueWithLinksResponse,
};
use edmdata::data::House;
use edmdata::text::{
    contains_text, decimal_text, digits_text, is_valid_short_id, parse_i32, remove_spaces,
};

fn value(v: &str) -> ValueWithLinksResponse<String> {
    ValueWithLinksResponse { value: v.to_owned(), links: Vec::<LinkResponse>::new() }
}

fn paged(success: bool, errors: Vec<String>, response: Option<&str>) -> PagedResponse {
    PagedResponse {
        paging_info: None,
        status_code: 200,
        success,
        errors,
        response: response.map(|r| r.to_owned()),
    }
}

#[test]
fn parse_i32_reads_signed_decimals() {
    assert_eq!(parse_i32("2017"), Some(2017));
    assert_eq!(parse_i32("-5"), Some(-5));
    assert_eq!(parse_i32("+7"), Some(7));
    assert_eq!(parse_i32("-2147483648"), Some(i32::MIN));
    assert_eq!(parse_i32("2147483647"), Some(i32::MAX));
    assert_eq!(parse_i32("2147483648"), None);
    assert_eq!(parse_i32(""), None);
    assert_eq!(parse_i32("-"), None);
    assert_eq!(parse_i32("12a"), None);
    assert_eq!(parse_i32(" 1"), None);
}

#[test]
fn decimal_texts() {
    assert_eq!(decimal_text(-42), "-42");
    assert_eq!(decimal_text(0), "0");
    assert_eq!(decimal_text(i64::MIN), "-9223372036854775808");
    assert_eq!(digits_text(1234567890), "1234567890");
}

#[test]
fn short_ids_are_eight_alphanumerics() {
    assert!(is_valid_short_id(&"abcd1234".to_owned()));
    assert!(!is_valid_short_id(&"abc".to_owned()));
    assert!(!is_valid_short_id(&"abcd-123".to_owned()));
    assert!(!is_valid_short_id(&"abcd12345".to_owned()));
}

#[test]
fn spaces_removed_and_text_found() {
    assert_eq!(remove_spaces("a b  c "), "abc");
    assert!(contains_text("foobar", "oba"));
    assert!(contains_text("foobar", ""));
    assert!(!contains_text("foo", "foobar"));
}

#[test]
fn service_addresses() {
    assert_eq!(
        RequestEarlyDayMotion::new(5).url(),
        "https://oralquestionsandmotions-api.parliament.uk/EarlyDayMotion/5"
    );
    assert_eq!(RequestMember::new(12).url(), "https://members-api.parliament.uk/api/Members/12");
    assert_eq!(
        RequestMemberEdmList::new(12, 3).url(),
        "https://members-api.parliament.uk/api/Members/12/Edms?page=3"
    );
}

#[test]
fn member_list_query() {
    let mut r = RequestMemberList::new(40, 20);
    r.is_current_member = Some(true);
    r.house = Some(PublishedHouse::Lords);
    assert_eq!(r.query_string(), "House=2&IsCurrentMember=true&skip=40&take=20");
    assert_eq!(
        r.url(),
        "https://members-api.parliament.uk/api/Members/Search?House=2&IsCurrentMember=true&skip=40&take=20"
    );
}

#[test]
fn motion_list_query() {
    let mut r = RequestEarlyDayMotionList::new(vec![3, 4]);
    r.tabled_start_date = Some(1_497_312_000_000);
    r.statuses = vec![PublishedEarlyDayMotionStatus::Published, PublishedEarlyDayMotionStatus::Withdrawn];
    r.order_by = Some(OrderBy::DateTabledDesc);
    r.take = Some(1);
    assert_eq!(
        r.query_string(),
        Some(
            "parameters.edmIds=3&parameters.edmIds=4&parameters.tabledStartDate=2017-06-13 00:00:00&parameters.statuses=Published&parameters.statuses=Withdrawn&parameters.orderBy=DateTabledDesc&parameters.take=1"
                .to_owned()
        )
    );
    assert_eq!(RequestEarlyDayMotionList::new(Vec::new()).query_string(), Some(String::new()));
}

#[test]
fn instrument_list_query() {
    let mut r = RequestStatutoryInstrumentList::new(75);
    r.skip = Some(150);
    assert_eq!(r.query_string(), "parameters.skip=150&parameters.take=75");
}

#[test]
fn items_become_a_json_array() {
    let items = ItemsResponse {
        items: vec![value("1"), value("{\"a\":2}")],
        total_results: 2,
        result_context: None,
        items_per_page: None,
        links: Vec::new(),
        result_type: None,
    };
    assert_eq!(ApiResponse::ItemsResponse(items).try_unwrap(), Ok("[1,{\"a\":2}]".to_owned()));
    let empty = ItemsResponse {
        items: Vec::new(),
        total_results: 0,
        result_context: None,
        items_per_page: None,
        links: Vec::new(),
        result_type: None,
    };
    assert_eq!(ApiResponse::ItemsResponse(empty).try_unwrap(), Ok("[]".to_owned()));
}

#[test]
fn paged_response_accepted_or_error() {
    let ok = paged(true, Vec::new(), Some("[1]"));
    assert!(ok.accepted());
    assert_eq!(ApiResponse::PagedResponse(ok).try_unwrap(), Ok("[1]".to_owned()));
    let failed = paged(true, vec!["bad".to_owned()], Some("[1]"));
    assert!(!failed.accepted());
    assert_eq!(
        ApiResponse::PagedResponse(failed.clone()).try_unwrap(),
        Err(ApiError::PagedError(failed))
    );
    let none = paged(true, Vec::new(), None);
    assert_eq!(
        ApiResponse::PagedResponse(none.clone()).try_unwrap(),
        Err(ApiError::PagedError(none))
    );
}

#[test]
fn value_response_is_its_value() {
    assert_eq!(ApiResponse::ValueWithLinksResponse(value("{}")).try_unwrap(), Ok("{}".to_owned()));
}

#[test]
fn house_codes() {
    assert_eq!(House::from_code(1), House::Commons);
    assert_eq!(House::from_code(2), House::Lords);
    assert_eq!(House::Lords.code(), 2);
    assert_eq!(House::Unknown.code(), 255);
}
