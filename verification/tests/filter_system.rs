use netpix_client::app::tables::filters::packets_filter::{
    self, FilterContext, FilterType, INVALID_LENGTH, INVALID_SOURCE, INVALID_TYPE,
    UNKNOWN_FILTER,
};
use netpix_client::filter_system::comparison::ComparisonFilter;
use netpix_client::filter_system::{
    get_operator_precedence, validate_filter_syntax, FilterExpression, Lexer, ParseError, Token,
};
use netpix_client::packet::{PacketFields, SessionProtocol};

fn word(s: &str) -> Token {
    Token::Filter(s.to_string())
}

fn tokens(input: &str) -> Vec<Token> {
    let mut lexer = Lexer::new(input);
    let mut out = Vec::new();
    while let Some(t) = lexer.next_token() {
        out.push(t);
    }
    out
}

fn packet(source: &str, dest: &str, transport: &str, session: SessionProtocol, length: u32) -> PacketFields {
    let name = match session {
        SessionProtocol::Unknown => "Unknown",
        SessionProtocol::Rtp => "RTP",
        SessionProtocol::Rtcp => "RTCP",
        SessionProtocol::Mpegts => "MPEG-TS",
    };
    PacketFields {
        source_addr: source.to_string(),
        destination_addr: dest.to_string(),
        transport_protocol: transport.to_string(),
        session_protocol_name: name.to_string(),
        session_protocol: session,
        length,
    }
}

fn shows(filter: &str, p: &PacketFields) -> bool {
    let f = packets_filter::parse_filter(filter).expect("filter parses");
    f.matches(&FilterContext { packet: p })
}

#[test]
fn lexer_splits_words_colons_and_parentheses() {
    assert_eq!(
        tokens("(source:10.0.0.1 AND length:>5)"),
        vec![
            Token::OpenParen,
            word("source"),
            Token::Colon,
            word("10.0.0.1"),
            Token::And,
            word("length"),
            Token::Colon,
            word(">5"),
            Token::CloseParen,
        ]
    );
}

#[test]
fn lexer_reads_operators_in_any_case() {
    assert_eq!(
        tokens("a:1 and b:2 Or NOT c:3"),
        vec![
            word("a"),
            Token::Colon,
            word("1"),
            Token::And,
            word("b"),
            Token::Colon,
            word("2"),
            Token::Or,
            Token::Not,
            word("c"),
            Token::Colon,
            word("3"),
        ]
    );
}

#[test]
fn lexer_keeps_operator_words_before_a_delimiter_as_words() {
    // A word is only read as an operator when a space ends it.
    assert_eq!(tokens("and(x"), vec![word("and"), Token::OpenParen, word("x")]);
    assert_eq!(tokens("or"), vec![word("or")]);
}

#[test]
fn lexer_skips_repeated_spaces() {
    assert_eq!(tokens("   a   b  "), vec![word("a"), word("b")]);
    assert!(Lexer::new("    ").is_empty());
}

#[test]
fn lexer_peek_leaves_the_token() {
    let mut lexer = Lexer::new("x:y");
    assert_eq!(lexer.remaining_tokens(), 3);
    assert_eq!(lexer.peek_token(), Some(&word("x")));
    assert_eq!(lexer.remaining_tokens(), 3);
    assert_eq!(lexer.next_token(), Some(word("x")));
    assert_eq!(lexer.remaining_tokens(), 2);
    assert!(!lexer.is_empty());
    lexer.next_token();
    lexer.next_token();
    assert!(lexer.is_empty());
    assert_eq!(lexer.peek_token(), None);
    assert_eq!(lexer.next_token(), None);
}

#[test]
fn operator_precedence_values() {
    assert_eq!(get_operator_precedence(&Token::Or), 1);
    assert_eq!(get_operator_precedence(&Token::And), 2);
    assert_eq!(get_operator_precedence(&Token::Not), 0);
    assert_eq!(get_operator_precedence(&Token::Colon), 0);
    assert_eq!(get_operator_precedence(&word("x")), 0);
}

#[test]
fn syntax_check_refuses_blank_input() {
    assert_eq!(validate_filter_syntax(""), Err(ParseError::EmptyExpression));
    assert_eq!(validate_filter_syntax("  \t "), Err(ParseError::EmptyExpression));
}

#[test]
fn syntax_check_refuses_unbalanced_parentheses() {
    assert_eq!(validate_filter_syntax("(a:b"), Err(ParseError::UnmatchedParenthesis));
    assert_eq!(validate_filter_syntax("a:b)"), Err(ParseError::UnmatchedParenthesis));
    assert_eq!(validate_filter_syntax(")(a:b"), Err(ParseError::UnmatchedParenthesis));
    assert_eq!(validate_filter_syntax("((a:b))"), Ok(()));
}

#[test]
fn syntax_check_refuses_doubled_operators() {
    let consecutive = Err(ParseError::InvalidSyntax("Consecutive operators".to_string()));
    assert_eq!(validate_filter_syntax("a:b AND and c:d"), consecutive);
    assert_eq!(validate_filter_syntax("a:b Or OR c:d"), consecutive);
    assert_eq!(validate_filter_syntax("a:b AND c:d"), Ok(()));
}

#[test]
fn parse_error_messages() {
    assert_eq!(ParseError::UnmatchedParenthesis.to_string(), "Unmatched parenthesis");
    assert_eq!(ParseError::MissingOperand.to_string(), "Missing operand");
    assert_eq!(ParseError::UnexpectedToken.to_string(), "Unexpected token");
    assert_eq!(ParseError::EmptyExpression.to_string(), "Empty expression");
    assert_eq!(ParseError::InvalidToken("t".to_string()).to_string(), "t");
    assert_eq!(ParseError::InvalidSyntax("s".to_string()).to_string(), "s");
}

#[test]
fn parser_reports_missing_colon_and_value() {
    assert_eq!(
        packets_filter::parse_filter("source").err(),
        Some(ParseError::InvalidSyntax("Missing colon after 'source' filter".to_string()))
    );
    assert_eq!(
        packets_filter::parse_filter("source 10.0.0.1").err(),
        Some(ParseError::InvalidSyntax("Missing colon after 'source' filter".to_string()))
    );
    assert_eq!(
        packets_filter::parse_filter("source:").err(),
        Some(ParseError::InvalidSyntax("Missing value after 'source':".to_string()))
    );
    assert_eq!(
        packets_filter::parse_filter("source::").err(),
        Some(ParseError::InvalidSyntax("Missing value after 'source':".to_string()))
    );
}

#[test]
fn parser_reports_unexpected_tokens() {
    assert_eq!(
        packets_filter::parse_filter(":x").err(),
        Some(ParseError::InvalidToken("Unexpected token: Colon".to_string()))
    );
    assert_eq!(
        packets_filter::parse_filter("AND a:b").err(),
        Some(ParseError::InvalidToken("Unexpected token: And".to_string()))
    );
    assert_eq!(
        packets_filter::parse_filter("()").err(),
        Some(ParseError::InvalidToken("Unexpected token: CloseParen".to_string()))
    );
}

#[test]
fn parser_reports_missing_operand() {
    assert_eq!(
        packets_filter::parse_filter("length:5 AND ").err(),
        Some(ParseError::MissingOperand)
    );
    assert_eq!(
        packets_filter::parse_filter("length:5 OR length:>x").err(),
        Some(ParseError::MissingOperand)
    );
}

#[test]
fn trailing_operator_word_is_a_leftover_word() {
    // Without a space after it, a final `AND` is a filter word, which is
    // left over after the complete expression before it.
    assert!(packets_filter::parse_filter("length:5 AND").is_ok());
}

#[test]
fn parser_reports_unclosed_group_with_leftovers() {
    assert_eq!(
        packets_filter::parse_filter("(length:5 length:6)").err(),
        Some(ParseError::UnmatchedParenthesis)
    );
}

#[test]
fn parser_ignores_tokens_after_a_complete_expression() {
    let p = packet("10.0.0.1:5000", "10.0.0.2:6000", "UDP", SessionProtocol::Rtp, 100);
    assert!(shows("length:100 length:7", &p));
    assert!(!shows("length:7 length:100", &p));
}

#[test]
fn parser_reads_operators_left_to_right() {
    // `a OR b AND c` is `(a OR b) AND c`, not `a OR (b AND c)`.
    let p = packet("10.0.0.1:5000", "10.0.0.2:6000", "UDP", SessionProtocol::Rtp, 100);
    assert!(!shows("length:100 OR length:1 AND length:2", &p));
    assert!(shows("length:100 OR (length:1 AND length:2)", &p));
    assert!(!shows("(length:100 OR length:1) AND length:2", &p));
}

#[test]
fn not_inverts_and_double_not_restores() {
    let p = packet("10.0.0.1:5000", "10.0.0.2:6000", "UDP", SessionProtocol::Rtp, 100);
    assert!(shows("length:100", &p));
    assert!(!shows("NOT length:100", &p));
    assert!(shows("NOT NOT length:100", &p));
    assert!(shows("NOT length:99", &p));
    assert!(!shows("NOT (length:100 OR length:1)", &p));
}

#[test]
fn parentheses_round_a_whole_filter_change_nothing() {
    let p = packet("10.0.0.1:5000", "10.0.0.2:6000", "UDP", SessionProtocol::Rtp, 100);
    for f in ["length:100", "length:1", "length:100 AND type:RTP", "length:1 OR type:RTCP"] {
        let grouped = format!("({})", f);
        assert_eq!(shows(f, &p), shows(&grouped, &p));
    }
}

#[test]
fn and_or_follow_boolean_logic() {
    let p = packet("10.0.0.1:5000", "10.0.0.2:6000", "UDP", SessionProtocol::Rtp, 100);
    assert!(shows("length:100 AND type:RTP", &p));
    assert!(!shows("length:100 AND type:RTCP", &p));
    assert!(shows("length:1 OR type:RTP", &p));
    assert!(!shows("length:1 OR type:RTCP", &p));
}

#[test]
fn packet_filter_value_errors() {
    assert_eq!(
        packets_filter::parse_filter("source:localhost").err(),
        Some(ParseError::InvalidSyntax(INVALID_SOURCE.to_string()))
    );
    assert_eq!(
        packets_filter::parse_filter("length:>big").err(),
        Some(ParseError::InvalidSyntax(INVALID_LENGTH.to_string()))
    );
    assert_eq!(
        packets_filter::parse_filter("type:SIP").err(),
        Some(ParseError::InvalidSyntax(INVALID_TYPE.to_string()))
    );
    assert_eq!(
        packets_filter::parse_filter("color:red").err(),
        Some(ParseError::InvalidSyntax(UNKNOWN_FILTER.to_string()))
    );
}

#[test]
fn packet_filters_parse_to_their_variants() {
    assert!(matches!(
        packets_filter::parse_filter("source:10.0.0.1"),
        Ok(FilterType::Source(ref s)) if s == "10.0.0.1"
    ));
    assert!(matches!(
        packets_filter::parse_filter("dest:ABC.d"),
        Ok(FilterType::Destination(ref s)) if s == "abc.d"
    ));
    assert!(matches!(
        packets_filter::parse_filter("protocol:UDP"),
        Ok(FilterType::Protocol(ref s)) if s == "udp"
    ));
    assert!(matches!(
        packets_filter::parse_filter("length:>=10"),
        Ok(FilterType::Length(ComparisonFilter::GreaterOrEqualThan(10)))
    ));
    assert!(matches!(
        packets_filter::parse_filter("type:MPEG-TS"),
        Ok(FilterType::Type(SessionProtocol::Mpegts))
    ));
    assert!(matches!(
        packets_filter::parse_filter("NOT length:3"),
        Ok(FilterType::Not(_))
    ));
    assert!(matches!(
        packets_filter::parse_filter("length:3 AND length:4"),
        Ok(FilterType::And(_, _))
    ));
    assert!(matches!(
        packets_filter::parse_filter("length:3 or length:4"),
        Ok(FilterType::Or(_, _))
    ));
}

#[test]
fn packet_filter_matching() {
    let p = packet("192.168.1.10:5004", "10.0.0.2:6000", "UDP", SessionProtocol::Rtp, 188);
    assert!(shows("source:192.168", &p));
    assert!(!shows("source:10.0", &p));
    assert!(shows("dest:10.0", &p));
    assert!(shows("protocol:udp", &p));
    assert!(shows("protocol:rtp", &p));
    assert!(!shows("protocol:tcp", &p));
    assert!(shows("length:188", &p));
    assert!(!shows("length:0188", &p));
    assert!(shows("length:>100", &p));
    assert!(!shows("length:>188", &p));
    assert!(shows("length:>=188", &p));
    assert!(shows("length:<189", &p));
    assert!(shows("length:<=188", &p));
    assert!(!shows("length:<188", &p));
    assert!(shows("type:RTP", &p));
    assert!(!shows("type:RTCP", &p));
}

#[test]
fn comparison_parse_scenarios() {
    assert!(matches!(ComparisonFilter::<usize>::parse(">5"), Some(ComparisonFilter::GreaterThan(5))));
    assert!(matches!(ComparisonFilter::<usize>::parse(">= 5"), Some(ComparisonFilter::GreaterOrEqualThan(5))));
    assert!(matches!(ComparisonFilter::<usize>::parse("<5 "), Some(ComparisonFilter::LessThan(5))));
    assert!(matches!(ComparisonFilter::<usize>::parse("<=+5"), Some(ComparisonFilter::LessOrEqualThan(5))));
    assert!(matches!(ComparisonFilter::<usize>::parse("abc"), Some(ComparisonFilter::Equals(ref s)) if s == "abc"));
    assert!(ComparisonFilter::<usize>::parse(">x").is_none());
    assert!(ComparisonFilter::<usize>::parse("<-1").is_none());
    assert!(matches!(ComparisonFilter::<u32>::parse(">4294967295"), Some(ComparisonFilter::GreaterThan(4294967295))));
    assert!(ComparisonFilter::<u32>::parse(">4294967296").is_none());
}

#[test]
fn comparison_holds_for_numbers() {
    let gt = ComparisonFilter::<usize>::GreaterThan(5);
    assert!(gt.holds_for(6));
    assert!(!gt.holds_for(5));
    let le = ComparisonFilter::<usize>::LessOrEqualThan(5);
    assert!(le.holds_for(5));
    assert!(!le.holds_for(6));
    let eq = ComparisonFilter::<usize>::Equals("42".to_string());
    assert!(eq.holds_for(42));
    assert!(!eq.holds_for(43));
    let eq32 = ComparisonFilter::<u32>::Equals("7".to_string());
    assert!(eq32.holds_for(7));
}

#[test]
fn syntax_check_treats_unicode_white_space_as_blank() {
    assert_eq!(validate_filter_syntax("\u{3000}\u{85}\u{a0} \n"), Err(ParseError::EmptyExpression));
    assert_eq!(validate_filter_syntax("\u{200b}"), Ok(()));
}
