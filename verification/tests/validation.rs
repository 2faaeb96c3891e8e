use stellar_router::validation::{
    validate_contract_id, validate_function_name, validate_route_name, validate_scrape_interval,
};

#[test]
fn valid_contract_id() {
    let id = "A".repeat(56);
    assert!(validate_contract_id(&id).is_ok());
}

#[test]
fn short_contract_id_rejected() {
    assert!(validate_contract_id("SHORT").is_err());
}

#[test]
fn empty_contract_id_rejected() {
    assert!(validate_contract_id("").is_err());
}

#[test]
fn contract_id_with_special_chars_rejected() {
    let id = format!("{}!", "A".repeat(55));
    assert!(validate_contract_id(&id).is_err());
}

#[test]
fn valid_route_name() {
    assert!(validate_route_name("oracle_feed-v2").is_ok());
}

#[test]
fn empty_route_name_rejected() {
    assert!(validate_route_name("").is_err());
}

#[test]
fn long_route_name_rejected() {
    assert!(validate_route_name(&"a".repeat(65)).is_err());
}

#[test]
fn route_name_with_spaces_rejected() {
    assert!(validate_route_name("bad name").is_err());
}

#[test]
fn valid_scrape_interval() {
    assert!(validate_scrape_interval(15).is_ok());
}

#[test]
fn zero_scrape_interval_rejected() {
    assert!(validate_scrape_interval(0).is_err());
}

#[test]
fn too_large_scrape_interval_rejected() {
    assert!(validate_scrape_interval(3601).is_err());
}

#[test]
fn validators_report_the_rule_broken() {
    assert_eq!(validate_contract_id("").unwrap_err().message, "contract_id must not be empty");
    assert_eq!(validate_contract_id("SHORT").unwrap_err().message, "contract_id must be exactly 56 characters");
    let id = format!("{}!", "A".repeat(55));
    assert_eq!(validate_contract_id(&id).unwrap_err().message, "contract_id must contain only alphanumeric characters");
    assert!(validate_route_name(&"a".repeat(64)).is_ok());
    assert_eq!(validate_route_name(&"a".repeat(65)).unwrap_err().message, "route name must be 64 characters or fewer");
    assert_eq!(validate_function_name("get quote").unwrap_err().message, "function name must contain only alphanumeric characters, underscores, or hyphens");
    assert!(validate_scrape_interval(3600).is_ok());
    assert_eq!(validate_scrape_interval(0).unwrap_err().message, "scrape_interval_secs must be greater than 0");
    assert_eq!(validate_scrape_interval(3601).unwrap_err().message, "scrape_interval_secs must not exceed 3600");
}

#[test]
fn multibyte_names_are_measured_in_bytes() {
    let id = "é".repeat(28);
    assert_eq!(validate_contract_id(&id).unwrap_err().message, "contract_id must contain only alphanumeric characters");
}
