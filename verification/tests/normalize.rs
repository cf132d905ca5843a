use maproom::search::fts::normalize_for_exact_match;

#[test]
fn test_simple_camelcase() {
    assert_eq!(normalize_for_exact_match("validateProvider"), "validate_provider");
}

#[test]
fn test_single_word() {
    assert_eq!(normalize_for_exact_match("provider"), "provider");
}

#[test]
fn test_multiple_camelcase_transitions() {
    assert_eq!(normalize_for_exact_match("getUserNameFromDatabase"), "get_user_name_from_database");
}

#[test]
fn test_acronym_at_start() {
    assert_eq!(normalize_for_exact_match("XMLParser"), "xml_parser");
    assert_eq!(normalize_for_exact_match("HTTPClient"), "http_client");
    assert_eq!(normalize_for_exact_match("FTPUploader"), "ftp_uploader");
}

#[test]
fn test_acronym_in_middle() {
    assert_eq!(normalize_for_exact_match("validateHTTPRequest"), "validate_http_request");
    assert_eq!(normalize_for_exact_match("sendSMTPMessage"), "send_smtp_message");
    assert_eq!(normalize_for_exact_match("parseJSONData"), "parse_json_data");
}

#[test]
fn test_consecutive_capitals() {
    assert_eq!(normalize_for_exact_match("HTTPSHandler"), "https_handler");
    assert_eq!(normalize_for_exact_match("XMLHTTPRequest"), "xmlhttp_request");
    assert_eq!(normalize_for_exact_match("SSLContext"), "ssl_context");
}

#[test]
fn test_numbers_with_capitals() {
    assert_eq!(normalize_for_exact_match("Base64Encoder"), "base64_encoder");
    assert_eq!(normalize_for_exact_match("MD5Hash"), "md5_hash");
    assert_eq!(normalize_for_exact_match("SHA256Digest"), "sha256_digest");
}

#[test]
fn test_kebab_case() {
    assert_eq!(normalize_for_exact_match("validate-provider"), "validate_provider");
    assert_eq!(normalize_for_exact_match("user-auth-service-factory"), "user_auth_service_factory");
}

#[test]
fn test_spaces() {
    assert_eq!(normalize_for_exact_match("validate provider"), "validate_provider");
    assert_eq!(normalize_for_exact_match("user  auth   service"), "user_auth_service");
}

#[test]
fn test_dots() {
    assert_eq!(normalize_for_exact_match("user.auth.service"), "user_auth_service");
}

#[test]
fn test_edge_cases() {
    assert_eq!(normalize_for_exact_match(""), "");
    assert_eq!(normalize_for_exact_match("HTTP"), "http");
    assert_eq!(normalize_for_exact_match("validate"), "validate");
    assert_eq!(normalize_for_exact_match("user__auth___service"), "user_auth_service");
    assert_eq!(normalize_for_exact_match("_privateMethod"), "private_method");
    assert_eq!(normalize_for_exact_match("method_"), "method");
}

#[test]
fn test_mixed_separators() {
    assert_eq!(normalize_for_exact_match("user-auth.service Provider"), "user_auth_service_provider");
}

#[test]
fn test_real_world_examples() {
    assert_eq!(normalize_for_exact_match("ValidationErrorHandler"), "validation_error_handler");
    assert_eq!(normalize_for_exact_match("UserAuthFormContainer"), "user_auth_form_container");
    assert_eq!(normalize_for_exact_match("execute_fts_search"), "execute_fts_search");
    assert_eq!(normalize_for_exact_match("user-profile-service"), "user_profile_service");
}
