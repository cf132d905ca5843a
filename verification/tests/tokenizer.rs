use maproom::search::tokenizer::Tokenizer;

#[test]
fn test_simple_tokenization() {
    let tokenizer = Tokenizer::new();
    let tokens = tokenizer.tokenize("hello world");
    assert_eq!(tokens, vec!["hello", "world"]);
}

#[test]
fn test_code_operators() {
    let tokenizer = Tokenizer::new();

    let tokens = tokenizer.tokenize("User::authenticate");
    assert_eq!(tokens, vec!["user", "::", "authenticate"]);

    let tokens = tokenizer.tokenize("array->length");
    assert_eq!(tokens, vec!["array", "->", "length"]);

    let tokens = tokenizer.tokenize("value => result");
    assert_eq!(tokens, vec!["value", "=>", "result"]);
}

#[test]
fn test_stop_word_filtering() {
    let tokenizer = Tokenizer::new();
    let tokens = tokenizer.tokenize("the user is authenticated");
    assert_eq!(tokens, vec!["user", "authenticated"]);
}

#[test]
fn test_underscores_preserved() {
    let tokenizer = Tokenizer::new();
    let tokens = tokenizer.tokenize("user_name auth_token");
    assert_eq!(tokens, vec!["user_name", "auth_token"]);
}

#[test]
fn test_dots_preserved() {
    let tokenizer = Tokenizer::new();
    let tokens = tokenizer.tokenize("console.log user.name");
    assert_eq!(tokens, vec!["console.log", "user.name"]);
}

#[test]
fn test_case_normalization() {
    let tokenizer = Tokenizer::new();
    let tokens = tokenizer.tokenize("UserAuthentication Login");
    assert_eq!(tokens, vec!["userauthentication", "login"]);
}

#[test]
fn test_punctuation_boundaries() {
    let tokenizer = Tokenizer::new();
    let tokens = tokenizer.tokenize("hello, world! (test)");
    assert_eq!(tokens, vec!["hello", "world", "test"]);
}

#[test]
fn test_mixed_query() {
    let tokenizer = Tokenizer::new();
    let tokens = tokenizer.tokenize("authenticate the user with OAuth2.0");
    assert_eq!(tokens, vec!["authenticate", "user", "oauth2.0"]);
}

#[test]
fn tokenizer_test_empty_query() {
    let tokenizer = Tokenizer::new();
    let tokens = tokenizer.tokenize("");
    assert!(tokens.is_empty());
}

#[test]
fn test_whitespace_only() {
    let tokenizer = Tokenizer::new();
    let tokens = tokenizer.tokenize("   \t\n  ");
    assert!(tokens.is_empty());
}

#[test]
fn test_custom_stop_words() {
    let stop_words = vec!["custom".to_string(), "stop".to_string()];

    let tokenizer = Tokenizer::with_stop_words(stop_words);
    let tokens = tokenizer.tokenize("custom word stop test");
    assert_eq!(tokens, vec!["word", "test"]);
}

#[test]
fn test_code_patterns() {
    let tokenizer = Tokenizer::new();

    let tokens = tokenizer.tokenize("*ptr");
    assert_eq!(tokens, vec!["ptr"]);

    let tokens = tokenizer.tokenize("&mut value");
    assert_eq!(tokens, vec!["&", "mut", "value"]);

    let tokens = tokenizer.tokenize("x == y");
    assert_eq!(tokens, vec!["x", "==", "y"]);

    let tokens = tokenizer.tokenize("x != y");
    assert_eq!(tokens, vec!["x", "!=", "y"]);
}

#[test]
fn test_multiple_operators() {
    let tokenizer = Tokenizer::new();
    let tokens = tokenizer.tokenize("User::Auth->login");
    assert_eq!(tokens, vec!["user", "::", "auth", "->", "login"]);
}

#[test]
fn test_numeric_identifiers() {
    let tokenizer = Tokenizer::new();
    let tokens = tokenizer.tokenize("user123 auth2fa");
    assert_eq!(tokens, vec!["user123", "auth2fa"]);
}

#[test]
fn tokens_are_trimmed_and_never_empty() {
    let tokenizer = Tokenizer::new();
    let tokens = tokenizer.tokenize("  Alpha ,, beta;; the  (gamma) ");
    assert_eq!(tokens, vec!["alpha", "beta", "gamma"]);
    for t in &tokens {
        assert!(!t.is_empty());
        assert_eq!(t.trim(), t.as_str());
    }
}

#[test]
fn ascii_case_does_not_change_tokens() {
    let tokenizer = Tokenizer::new();
    let query = "HashMap::Insert -> Vec<T> The_Value";
    assert_eq!(tokenizer.tokenize(query), tokenizer.tokenize(&query.to_ascii_lowercase()));
    for token in tokenizer.tokenize(query) {
        assert!(!token.chars().any(|c| c.is_whitespace() || c.is_ascii_uppercase()));
        assert!(!token.is_empty());
    }
}

#[test]
fn non_ascii_stop_words_are_dropped() {
    let tokenizer = Tokenizer::with_stop_words(vec!["über".to_string()]);
    assert_eq!(tokenizer.tokenize("über alles"), vec!["alles"]);
    assert_eq!(tokenizer.tokenize("Über"), vec!["Über"]);
}
