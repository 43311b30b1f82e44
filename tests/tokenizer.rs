use redlite::tokenizer::{
    get_number_of_chars, get_token, identify_command, tokenize_request, validate_request_structure, Token,
    EMPTY_REQUEST, IDENTIFIER_IS_WRONG_SIZE, INVALID_NO_IDENTIFIER, INVALID_NO_SIZE_TOKEN,
    INVALID_REQUEST_INCORRECT_SIZE, INVALID_REQUEST_STRUCTURE, NO_TOKENS_FOUND,
};

#[test]
fn mod_given_empty_request_when_parse_request_then_returns_error() {
    let request: &[u8] = b"";
    let command = identify_command(request);
    match command {
        Ok(_) => panic!("Expected error, got command"),
        Err(e) => assert_eq!(e.get_message(), EMPTY_REQUEST),
    }
}

#[test]
fn mod_given_missing_array_indicator_when_parse_request_then_returns_error() {
    let request = b"$2\r\n$4\r\nLLEN\r\n$6\r\nmylist\r\n"; // Missing the initial '*'
    let command = identify_command(request);
    match command {
        Ok(_) => panic!("Expected error, got command"),
        Err(e) => assert_eq!(e.get_message(), INVALID_REQUEST_STRUCTURE),
    }
}

#[test]
fn mod_given_byte_array_when_asked_return_integer_value() {
    let input = b"*22";
    let token = Token {
        value: input.to_vec(),
        size: input.len(),
    };

    let result = get_number_of_chars(&token);
    match result {
        Ok(num) => assert_eq!(num, 22),
        Err(e) => panic!("Expected number, got error: {}", e.get_message()),
    }
}

#[test]
fn mod_test_get_token() {
    let input = b"$3\r\nSET\r\n";
    let result = get_token(input, 0);
    assert!(result.is_ok());
    let token = result.unwrap();
    assert_eq!(String::from_utf8(token.value.to_vec()).unwrap(), "$3");
    assert_eq!(token.size, 4); // $3\r\n
}

#[test]
fn mod_test_get_token_empty() {
    let input: &[u8] = b"";
    let result = get_token(input, 0);
    assert!(result.is_err());
    assert_eq!(result.err(), Some(EMPTY_REQUEST));
}

#[test]
fn mod_test_multiple_tokens() {
    let input = b"$3\r\nSET\r\n$5\r\nkey1\r\n$5\r\nvalue1\r\n";
    let tokens = tokenize_request(input).unwrap();
    assert_eq!(tokens.len(), 6);

    assert_eq!(String::from_utf8(tokens[0].value.to_vec()).unwrap(), "$3");
    assert_eq!(String::from_utf8(tokens[1].value.to_vec()).unwrap(), "SET");
    assert_eq!(String::from_utf8(tokens[2].value.to_vec()).unwrap(), "$5");
    assert_eq!(String::from_utf8(tokens[3].value.to_vec()).unwrap(), "key1");
    assert_eq!(String::from_utf8(tokens[4].value.to_vec()).unwrap(), "$5");
    assert_eq!(String::from_utf8(tokens[5].value.to_vec()).unwrap(), "value1");
}

#[test]
fn test_validate_request_structure_empty_request() {
    let tokens: Vec<Token> = vec![];
    let result = validate_request_structure(&tokens);
    assert!(result.is_err());
    assert_eq!(result.err().unwrap().get_message(), NO_TOKENS_FOUND);
}

#[test]
fn test_validate_request_structure_no_leading_star() {
    let tokens = vec![Token {
        value: b"$2".to_vec(),
        size: 2,
    }];
    let result = validate_request_structure(&tokens);
    assert!(result.is_err());
    assert_eq!(result.err().unwrap().get_message(), INVALID_REQUEST_STRUCTURE);
}

#[test]
fn test_validate_request_structure_no_dollar_before_identifier() {
    let tokens = vec![
        Token {
            value: b"*1".to_vec(),
            size: 2,
        },
        Token {
            value: b"SET".to_vec(),
            size: 3,
        }, // Should be $3
    ];
    let result = validate_request_structure(&tokens);
    assert!(result.is_err());
    assert_eq!(result.err().unwrap().get_message(), INVALID_NO_SIZE_TOKEN);
}

#[test]
fn test_validate_request_structure_no_identifier_after_dollar() {
    let tokens = vec![
        Token {
            value: b"*1".to_vec(),
            size: 2,
        },
        Token {
            value: b"$3".to_vec(),
            size: 2,
        },
        // Missing identifier token
    ];
    let result = validate_request_structure(&tokens);
    assert!(result.is_err());
    assert_eq!(result.err().unwrap().get_message(), INVALID_NO_IDENTIFIER);
}

#[test]
fn test_validate_request_structure_identifier_wrong_size() {
    let tokens = vec![
        Token {
            value: b"*1".to_vec(),
            size: 2,
        },
        Token {
            value: b"$4".to_vec(),
            size: 2,
        },
        Token {
            value: b"SET".to_vec(),
            size: 3,
        }, // Should be 4 bytes
    ];
    let result = validate_request_structure(&tokens);
    assert!(result.is_err());
    assert_eq!(result.err().unwrap().get_message(), IDENTIFIER_IS_WRONG_SIZE);
}

#[test]
fn test_validate_request_structure_identifier_count_mismatch() {
    let tokens = vec![
        Token {
            value: b"*2".to_vec(),
            size: 2,
        },
        Token {
            value: b"$3".to_vec(),
            size: 2,
        },
        Token {
            value: b"SET".to_vec(),
            size: 3,
        },
    ];
    let result = validate_request_structure(&tokens);
    assert!(result.is_err());
    assert_eq!(result.err().unwrap().get_message(), INVALID_REQUEST_INCORRECT_SIZE);
}

#[test]
fn test_validate_request_structure_valid_request() {
    let tokens = vec![
        Token {
            value: b"*2".to_vec(),
            size: 2,
        },
        Token {
            value: b"$3".to_vec(),
            size: 2,
        },
        Token {
            value: b"SET".to_vec(),
            size: 3,
        },
        Token {
            value: b"$4".to_vec(),
            size: 2,
        },
        Token {
            value: b"key1".to_vec(),
            size: 4,
        },
    ];
    let result = validate_request_structure(&tokens);
    match result {
        Ok(identifiers) => {
            assert_eq!(identifiers.len(), 2);
            assert_eq!(identifiers[0], "SET");
            assert_eq!(identifiers[1], "key1");
        }
        Err(e) => panic!("Expected valid identifiers, got error: {}", e.get_message()),
    }
}
