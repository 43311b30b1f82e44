use redlite::protocol::{determine_identifiers, parse_request, Identifier};
use redlite::tokenizer::{get_number_of_chars, get_token, tokenize_request, Token, EMPTY_REQUEST, INVALID_REQUEST_STRUCTURE};

#[test]
fn protocol_given_byte_array_when_asked_return_integer_value() {
    let input = b"*22";
    let token = Token {
        value: input.to_vec(),
        size: input.len(),
    };

    let result = get_number_of_chars(&token);
    match result {
        Ok(num) => assert_eq!(num, 22),
        Err(e) => panic!("Expected number, got error: {}", e.get_message()),
    }
}

#[test]
fn protocol_given_empty_request_when_parse_request_then_returns_error() {
    let request: &[u8] = b"";
    let command = parse_request(request);
    match command {
        Ok(_) => panic!("Expected error, got command"),
        Err(e) => assert_eq!(e.get_message(), EMPTY_REQUEST),
    }
}

#[test]
fn protocol_given_missing_array_indicator_when_parse_request_then_returns_error() {
    let request = b"$2\r\n$4\r\nLLEN\r\n$6\r\nmylist\r\n"; // Missing the initial '*'
    let command = parse_request(request);
    match command {
        Ok(_) => panic!("Expected error, got command"),
        Err(e) => assert_eq!(e.get_message(), INVALID_REQUEST_STRUCTURE),
    }
}

#[test]
fn given_string_input_when_parse_then_return_identifier() {
    let input = b"$3\r\nSET\r\n";
    let tokens = tokenize_request(input);
    if let Ok(tokens) = tokens {
        let identifiers = determine_identifiers(&tokens, 0);
        match identifiers {
            Ok(identifier_type) => {
                if let Identifier::String(value) = identifier_type.identifier {
                    assert_eq!(value, "SET");
                    assert_eq!(identifier_type.consumed_tokens, 2);
                } else {
                    panic!("Expected String identifier, got {:?}", identifier_type.identifier);
                }
            }
            Err(e) => panic!("Expected identifier, got error: {}", e.get_message()),
        }
    }
}

#[test]
fn given_integer_input_when_parse_then_return_identifier() {
    let input = b":42\r\n";
    let tokens = tokenize_request(input);
    if let Ok(tokens) = tokens {
        let identifiers = determine_identifiers(&tokens, 0);
        match identifiers {
            Ok(identifier_type) => {
                if let Identifier::Integer(value) = identifier_type.identifier {
                    assert_eq!(value, 42);
                    assert_eq!(identifier_type.consumed_tokens, 1);
                } else {
                    panic!("Expected Integer identifier, got {:?}", identifier_type.identifier);
                }
            }
            Err(e) => panic!("Expected identifier, got error: {}", e.get_message()),
        }
    }
}

#[test]
fn protocol_test_get_token() {
    let input = b"$3\r\nSET\r\n";
    let result = get_token(input, 0);
    assert!(result.is_ok());
    let token = result.unwrap();
    assert_eq!(String::from_utf8(token.value.to_vec()).unwrap(), "$3");
    assert_eq!(token.size, 4); // $3\r\n
}

#[test]
fn protocol_test_get_token_empty() {
    let input: &[u8] = b"";
    let result = get_token(input, 0);
    assert!(result.is_err());
    assert_eq!(result.err(), Some(EMPTY_REQUEST));
}

#[test]
fn protocol_test_multiple_tokens() {
    let input = b"$3\r\nSET\r\n$5\r\nkey1\r\n$5\r\nvalue1\r\n";
    let tokens = tokenize_request(input).unwrap();
    assert_eq!(tokens.len(), 6);

    assert_eq!(String::from_utf8(tokens[0].value.to_vec()).unwrap(), "$3");
    assert_eq!(String::from_utf8(tokens[1].value.to_vec()).unwrap(), "SET");
    assert_eq!(String::from_utf8(tokens[2].value.to_vec()).unwrap(), "$5");
    assert_eq!(String::from_utf8(tokens[3].value.to_vec()).unwrap(), "key1");
    assert_eq!(String::from_utf8(tokens[4].value.to_vec()).unwrap(), "$5");
    assert_eq!(String::from_utf8(tokens[5].value.to_vec()).unwrap(), "value1");
}

#[test]
fn array_elements_are_read_in_order() {
    let tokens = tokenize_request(b"*3\r\n$3\r\nGET\r\n:-7\r\nplain\r\n").unwrap();
    let elements = redlite::protocol::process_array_command(&tokens[0], &tokens, 1).unwrap();
    assert_eq!(elements.len(), 3);
    match &elements[0].identifier {
        Identifier::String(s) => assert_eq!(s, "GET"),
        other => panic!("unexpected {:?}", other),
    }
    assert_eq!(elements[0].consumed_tokens, 2);
    match elements[1].get_identifier() {
        Identifier::Integer(i) => assert_eq!(*i, -7),
        other => panic!("unexpected {:?}", other),
    }
    match &elements[2].identifier {
        Identifier::String(s) => assert_eq!(s, "plain"),
        other => panic!("unexpected {:?}", other),
    }
}

#[test]
fn array_with_missing_element_is_an_error() {
    let tokens = tokenize_request(b"*2\r\n:1\r\n").unwrap();
    let result = redlite::protocol::process_array_command(&tokens[0], &tokens, 1);
    match result {
        Ok(_) => panic!("Expected error"),
        Err(e) => assert_eq!(e.get_message(), redlite::tokenizer::NO_TOKENS_FOUND),
    }
}

#[test]
fn bulk_value_must_match_announced_size() {
    let token = Token { value: b"abc".to_vec(), size: 5 };
    match redlite::protocol::convert_to_string_identifier(&token, 4) {
        Ok(_) => panic!("Expected error"),
        Err(e) => assert_eq!(e.get_message(), redlite::tokenizer::IDENTIFIER_IS_WRONG_SIZE),
    }
    match redlite::protocol::convert_to_string_identifier(&token, 3) {
        Ok(Identifier::String(s)) => assert_eq!(s, "abc"),
        _ => panic!("Expected string"),
    }
}

#[test]
fn nested_array_is_not_an_identifier() {
    let tokens = tokenize_request(b"*1\r\n").unwrap();
    match determine_identifiers(&tokens, 0) {
        Ok(_) => panic!("Expected error"),
        Err(e) => assert_eq!(e.get_message(), redlite::protocol::NESTED_ARRAY),
    }
}

#[test]
fn integer_element_out_of_range_is_an_error() {
    let tokens = tokenize_request(b":9223372036854775808\r\n").unwrap();
    match determine_identifiers(&tokens, 0) {
        Ok(_) => panic!("Expected error"),
        Err(e) => assert_eq!(e.get_message(), redlite::tokenizer::TOKEN_SIZE_NOT_A_NUMBER),
    }
}

#[test]
fn determine_command_reads_a_command_array() {
    let tokens = tokenize_request(b"*3\r\n$5\r\nRPUSH\r\n$4\r\njobs\r\nfirst\r\n").unwrap();
    let command = redlite::protocol::determine_command(&tokens, 0).unwrap();
    assert_eq!(command.get_command_type(), "ListCommand");
    assert_eq!(command.get_action(), "RPUSH");
    assert_eq!(command.get_target(), "jobs");
    assert_eq!(command.get_params().to_vec(), vec!["first".to_string()]);
}

#[test]
fn determine_command_rejects_integer_arguments() {
    let tokens = tokenize_request(b"*2\r\n$3\r\nGET\r\n:5\r\n").unwrap();
    match redlite::protocol::determine_command(&tokens, 0) {
        Ok(_) => panic!("Expected error"),
        Err(e) => assert_eq!(e.get_message(), redlite::protocol::ARGUMENT_NOT_TEXT),
    }
}

#[test]
fn determine_command_needs_an_array_header() {
    let tokens = tokenize_request(b"$3\r\nGET\r\n").unwrap();
    match redlite::protocol::determine_command(&tokens, 0) {
        Ok(_) => panic!("Expected error"),
        Err(e) => assert_eq!(e.get_message(), INVALID_REQUEST_STRUCTURE),
    }
    match redlite::protocol::determine_command(&tokens, 7) {
        Ok(_) => panic!("Expected error"),
        Err(e) => assert_eq!(e.get_message(), redlite::tokenizer::NO_TOKENS_FOUND),
    }
}
