use openswisspairings_lib::{
    ByeRoundResult, Color, DataIdentificationNumber, Date, FieldValue, FloatErrorKind,
    IntErrorKind, LessThanOneMoveRoundResult, Name, NotPlayedRoundResult, Points,
    RegularRoundResult, Result as Outcome, Sex, StartingRankNumber, TRFError, Title, parse_into,
    parse_number,
};

#[test]
fn gender_codes() {
    assert_eq!(Sex::decode("m"), Ok(Some(Sex::Man)));
    assert_eq!(Sex::decode("w"), Ok(Some(Sex::Woman)));
    assert_eq!(Sex::decode(" "), Ok(None));
    assert_eq!(Sex::decode("x"), Err(TRFError::InvalidGenderError("x".to_string())));
    assert_eq!(Sex::decode("M"), Err(TRFError::InvalidGenderError("M".to_string())));
}

#[test]
fn title_codes_round_trip() {
    let all = [
        ("GM", Title::Grandmaster),
        ("IM", Title::InternationalMaster),
        ("WGM", Title::WomanGrandmaster),
        ("FM", Title::FIDEMaster),
        ("WIM", Title::WomanInternationalMaster),
        ("CM", Title::CandidateMaster),
        ("WFM", Title::WomanFIDEMaster),
        ("WCM", Title::WomanCandidateMaster),
    ];
    for (code, title) in all {
        assert_eq!(Title::decode(code), Ok(title));
        assert_eq!(title.code(), code);
        assert_eq!(Title::decode(&title.code()), Ok(title));
    }
    assert_eq!(Title::decode("g"), Err(TRFError::InvalidTitleError("g".to_string())));
    assert_eq!(Title::decode("gm"), Err(TRFError::InvalidTitleError("gm".to_string())));
}

#[test]
fn title_column_is_trimmed() {
    assert_eq!(parse_into::<Title>(" GM"), Ok(Some(Title::Grandmaster)));
    assert_eq!(parse_into::<Title>("   "), Ok(None));
    assert_eq!(parse_into::<Title>(" XX"), Err(TRFError::InvalidTitleError("XX".to_string())));
}

#[test]
fn name_splits_once() {
    let name = Name::decode("Smith, John").unwrap();
    assert_eq!(name.last_name(), "Smith");
    assert_eq!(name.first_name(), "John");
    assert_eq!(
        Name::decode("SmithJohn"),
        Err(TRFError::InvalidPlayerNameError("SmithJohn".to_string()))
    );
    let two = Name::decode("Doe, Jane, Jr").unwrap();
    assert_eq!(two.last_name(), "Doe");
    assert_eq!(two.first_name(), "Jane, Jr");
    let padded = parse_into::<Name>("  Smith, John      ").unwrap().unwrap();
    assert_eq!(padded.first_name(), "John");
    assert_eq!(parse_into::<Name>("      "), Ok(None));
}

#[test]
fn dates() {
    let d = Date::decode("1990/05/02").unwrap();
    assert_eq!((d.year(), d.month(), d.day()), (1990, 5, 2));
    assert_eq!(
        Date::decode("1990-05-02"),
        Err(TRFError::InvalidDateError("1990-05-02".to_string()))
    );
    assert_eq!(
        Date::decode("1990/5/2"),
        Err(TRFError::InvalidDateError("1990/5/2".to_string()))
    );
    assert_eq!(
        Date::decode("19a0/05/02"),
        Err(TRFError::InvalidDateError("19a0/05/02".to_string()))
    );
    let late = Date::decode("2023/13/40").unwrap();
    assert_eq!((late.year(), late.month(), late.day()), (2023, 13, 40));
    assert_eq!(parse_into::<Date>("          "), Ok(None));
}

#[test]
fn numbers() {
    assert_eq!(parse_number("  42 ", 0xffff), Ok(Some(42)));
    assert_eq!(parse_number("    ", 0xffff), Ok(None));
    assert_eq!(parse_number("+5", 0xffff), Ok(Some(5)));
    assert_eq!(parse_number("4a", 0xffff), Err(TRFError::ParseIntError(IntErrorKind::InvalidDigit)));
    assert_eq!(parse_number("-4", 0xffff), Err(TRFError::ParseIntError(IntErrorKind::InvalidDigit)));
    assert_eq!(parse_number("+", 0xffff), Err(TRFError::ParseIntError(IntErrorKind::InvalidDigit)));
    assert_eq!(parse_number("65535", 0xffff), Ok(Some(65535)));
    assert_eq!(parse_number("65536", 0xffff), Err(TRFError::ParseIntError(IntErrorKind::PosOverflow)));
    assert_eq!(
        parse_number("18446744073709551615", u64::MAX),
        Ok(Some(18446744073709551615))
    );
    assert_eq!(
        parse_number("18446744073709551616", u64::MAX),
        Err(TRFError::ParseIntError(IntErrorKind::PosOverflow))
    );
}

#[test]
fn points_in_tenths() {
    assert_eq!(Points::decode("17.5").unwrap().tenths(), 175);
    assert_eq!(Points::decode("3").unwrap().tenths(), 30);
    assert_eq!(Points::decode("3.").unwrap().tenths(), 30);
    assert_eq!(Points::decode(".5").unwrap().tenths(), 5);
    assert_eq!(Points::decode("1.50").unwrap().tenths(), 15);
    assert_eq!(Points::decode("1.55"), Err(TRFError::ParseFloatError(FloatErrorKind::Invalid)));
    assert_eq!(Points::decode("."), Err(TRFError::ParseFloatError(FloatErrorKind::Invalid)));
    assert_eq!(Points::decode("1.2.3"), Err(TRFError::ParseFloatError(FloatErrorKind::Invalid)));
    assert_eq!(Points::decode("abc"), Err(TRFError::ParseFloatError(FloatErrorKind::Invalid)));
    assert_eq!(Points::decode("429496729.5").unwrap().tenths(), 4294967295);
    assert_eq!(
        Points::decode("429496729.6"),
        Err(TRFError::ParseFloatError(FloatErrorKind::Invalid))
    );
    assert_eq!(parse_into::<Points>(" 5.5"), Ok(Some(Points::decode("5.5").unwrap())));
    assert_eq!(parse_into::<Points>("    "), Ok(None));
}

#[test]
fn colors() {
    assert_eq!(Color::decode("w"), Ok(Color::White));
    assert_eq!(Color::decode("b"), Ok(Color::Black));
    assert_eq!(Color::decode("-"), Ok(Color::NoColor));
    assert_eq!(Color::decode(" "), Ok(Color::NoColor));
    assert_eq!(Color::decode("x"), Err(TRFError::InvalidColorError("x".to_string())));
}

#[test]
fn outcomes() {
    let table = [
        ("-", Outcome::NotPlayed(NotPlayedRoundResult::ForfeitLoss)),
        ("+", Outcome::NotPlayed(NotPlayedRoundResult::ForfeitWin)),
        ("W", Outcome::LessThanOneMove(LessThanOneMoveRoundResult::Win)),
        ("D", Outcome::LessThanOneMove(LessThanOneMoveRoundResult::Draw)),
        ("L", Outcome::LessThanOneMove(LessThanOneMoveRoundResult::Loss)),
        ("1", Outcome::Regular(RegularRoundResult::Win)),
        ("=", Outcome::Regular(RegularRoundResult::Draw)),
        ("0", Outcome::Regular(RegularRoundResult::Loss)),
        ("H", Outcome::Bye(ByeRoundResult::HalfPointBye)),
        ("F", Outcome::Bye(ByeRoundResult::FullPointBye)),
        ("U", Outcome::Bye(ByeRoundResult::PairingAllocatedBye)),
        ("Z", Outcome::Bye(ByeRoundResult::ZeroPointBye)),
    ];
    for (code, outcome) in table {
        assert_eq!(Outcome::decode(code), Ok(outcome));
        assert_eq!(Outcome::decode(&code.to_lowercase()), Ok(outcome));
        assert_eq!(outcome.code().to_string(), code);
    }
    assert_eq!(Outcome::decode(" "), Ok(Outcome::Bye(ByeRoundResult::ZeroPointBye)));
    assert_eq!(Outcome::decode("x"), Err(TRFError::InvalidRoundResultError("x".to_string())));
    assert_eq!(Outcome::decode("11"), Err(TRFError::InvalidRoundResultError("11".to_string())));
}

#[test]
fn starting_rank_numbers() {
    assert_eq!(StartingRankNumber::parse("   7").unwrap().value(), 7);
    assert_eq!(StartingRankNumber::parse("9999").unwrap().value(), 9999);
    assert_eq!(
        StartingRankNumber::parse("    "),
        Err(TRFError::ParseIntError(IntErrorKind::Empty))
    );
    assert_eq!(
        StartingRankNumber::parse("   0"),
        Err(TRFError::ParseIntError(IntErrorKind::Zero))
    );
    assert_eq!(
        StartingRankNumber::parse("abcd"),
        Err(TRFError::ParseIntError(IntErrorKind::InvalidDigit))
    );
    assert_eq!(StartingRankNumber::try_from_number(1).unwrap().value(), 1);
    assert_eq!(
        StartingRankNumber::try_from_number(0),
        Err(TRFError::ParseIntError(IntErrorKind::Zero))
    );
    assert_eq!(
        StartingRankNumber::try_from_number(10000),
        Err(TRFError::ParseIntError(IntErrorKind::PosOverflow))
    );
}

#[test]
fn data_identification_numbers() {
    assert_eq!(DataIdentificationNumber::parse("001").unwrap().value(), 1);
    assert_eq!(DataIdentificationNumber::parse("999").unwrap().value(), 999);
    assert_eq!(
        DataIdentificationNumber::parse("XXR"),
        Err(TRFError::ParseIntError(IntErrorKind::InvalidDigit))
    );
    assert_eq!(
        DataIdentificationNumber::parse("1000"),
        Err(TRFError::ParseIntError(IntErrorKind::PosOverflow))
    );
    assert_eq!(DataIdentificationNumber::try_from_number(132).unwrap().value(), 132);
    assert_eq!(
        DataIdentificationNumber::try_from_number(1000),
        Err(TRFError::ParseIntError(IntErrorKind::PosOverflow))
    );
}

#[test]
fn gender_code_round_trip() {
    for sex in [Sex::Man, Sex::Woman] {
        assert_eq!(Sex::decode(&sex.code().to_string()), Ok(Some(sex)));
    }
    assert_eq!(Sex::Woman.code(), 'w');
}

#[test]
fn numbers_are_read_left_to_right() {
    assert_eq!(
        parse_number("65536a", 0xffff),
        Err(TRFError::ParseIntError(IntErrorKind::PosOverflow))
    );
    assert_eq!(
        parse_number("6553a", 0xffff),
        Err(TRFError::ParseIntError(IntErrorKind::InvalidDigit))
    );
    assert_eq!(
        parse_number("a65536", 0xffff),
        Err(TRFError::ParseIntError(IntErrorKind::InvalidDigit))
    );
    assert_eq!(
        DataIdentificationNumber::parse("1000a"),
        Err(TRFError::ParseIntError(IntErrorKind::InvalidDigit))
    );
    assert_eq!(
        DataIdentificationNumber::parse("65536a"),
        Err(TRFError::ParseIntError(IntErrorKind::PosOverflow))
    );
}

#[test]
fn color_and_outcome_errors_keep_the_column() {
    assert_eq!(Color::decode(" x "), Err(TRFError::InvalidColorError(" x ".to_string())));
    assert_eq!(
        Outcome::decode("x "),
        Err(TRFError::InvalidRoundResultError("x ".to_string()))
    );
}

#[test]
fn padded_codes_are_invalid_and_whitespace_is_blank() {
    assert_eq!(Sex::decode(" m"), Err(TRFError::InvalidGenderError(" m".to_string())));
    assert_eq!(Sex::decode("\t"), Ok(None));
    assert_eq!(Color::decode(" w"), Err(TRFError::InvalidColorError(" w".to_string())));
    assert_eq!(Color::decode("\t"), Ok(Color::NoColor));
    assert_eq!(Color::decode(""), Ok(Color::NoColor));
    assert_eq!(
        Outcome::decode(" 1"),
        Err(TRFError::InvalidRoundResultError(" 1".to_string()))
    );
    assert_eq!(Outcome::decode("\t"), Ok(Outcome::Bye(ByeRoundResult::ZeroPointBye)));
    assert_eq!(Outcome::decode(""), Ok(Outcome::Bye(ByeRoundResult::ZeroPointBye)));
}

#[test]
fn family_codes() {
    assert_eq!(NotPlayedRoundResult::ForfeitLoss.code(), '-');
    assert_eq!(NotPlayedRoundResult::ForfeitWin.code(), '+');
    assert_eq!(LessThanOneMoveRoundResult::Draw.code(), 'D');
    assert_eq!(RegularRoundResult::Draw.code(), '=');
    assert_eq!(RegularRoundResult::Loss.code(), '0');
    assert_eq!(ByeRoundResult::PairingAllocatedBye.code(), 'U');
    assert_eq!(ByeRoundResult::ZeroPointBye.code(), 'Z');
}
