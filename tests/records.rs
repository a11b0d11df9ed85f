use openswisspairings_lib::{
    Advisory, ByeRoundResult, Color, IntErrorKind, PlayerRoundSection, RecordKind,
    RegularRoundResult, Result as Outcome, Section, Sex, Situation, TRFError, Title,
};

/// A player record (after "001 ") with each text placed at its column.
fn payload(fields: &[(usize, &str)], len: usize) -> String {
    let mut cs: Vec<char> = vec![' '; len];
    for (start, text) in fields {
        for (k, c) in text.chars().enumerate() {
            cs[start + k] = c;
        }
    }
    cs.into_iter().collect()
}

fn smith(rank: &str, rounds: &[&str]) -> String {
    let mut fields: Vec<(usize, &str)> = vec![
        (0, rank),
        (5, "m"),
        (7, "GM"),
        (10, "Smith, John"),
        (44, "2650"),
        (49, "USA"),
        (56, "12345678"),
        (65, "1990/05/02"),
        (77, "5.5"),
        (84, "3"),
    ];
    let mut len = 85;
    for (k, r) in rounds.iter().enumerate() {
        fields.push((87 + 10 * k, r));
        len = 87 + 10 * k + r.chars().count();
    }
    payload(&fields, len)
}

#[test]
fn player_record_fields() {
    let s = Section::decode(&smith("   1", &[])).unwrap();
    assert_eq!(s.starting_rank_number().value(), 1);
    assert_eq!(s.sex(), Ok(&Some(Sex::Man)));
    assert_eq!(s.title(), Ok(&Some(Title::Grandmaster)));
    let name = s.name().unwrap().as_ref().unwrap();
    assert_eq!((name.last_name(), name.first_name()), ("Smith", "John"));
    assert_eq!(s.fide_rating(), Ok(&Some(2650)));
    assert_eq!(s.fide_federation(), Some("USA"));
    assert_eq!(s.fide_number(), Ok(&Some(12345678)));
    let d = s.birth_date().unwrap().unwrap();
    assert_eq!((d.year(), d.month(), d.day()), (1990, 5, 2));
    assert_eq!(s.points().unwrap().unwrap().tenths(), 55);
    assert_eq!(s.rank(), Ok(&Some(3)));
    assert!(s.rounds().is_empty());
}

#[test]
fn blank_and_malformed_fields_stay_apart() {
    let p = payload(&[(0, "   2"), (5, "x"), (44, "12ab"), (65, "1990-05-02")], 85);
    let s = Section::decode(&p).unwrap();
    assert_eq!(s.sex(), Err(&TRFError::InvalidGenderError("x".to_string())));
    assert_eq!(s.title(), Ok(&None));
    assert_eq!(s.name(), Ok(&None));
    assert_eq!(s.fide_rating(), Err(&TRFError::ParseIntError(IntErrorKind::InvalidDigit)));
    assert_eq!(s.fide_federation(), None);
    assert_eq!(s.fide_number(), Ok(&None));
    assert_eq!(
        s.birth_date(),
        Err(&TRFError::InvalidDateError("1990-05-02".to_string()))
    );
    assert_eq!(s.points(), Ok(&None));
    assert_eq!(s.rank(), Ok(&None));
}

#[test]
fn player_record_too_short() {
    let p = payload(&[(0, "   1")], 84);
    assert_eq!(Section::decode(&p).unwrap_err(), TRFError::UnexpectedEndOfString);
}

#[test]
fn bad_starting_rank_is_fatal() {
    assert_eq!(
        Section::decode(&smith("abcd", &[])).unwrap_err(),
        TRFError::ParseIntError(IntErrorKind::InvalidDigit)
    );
}

#[test]
fn one_round_block() {
    let s = Section::decode(&smith("   1", &["0003 w 1"])).unwrap();
    assert_eq!(s.rounds().len(), 1);
    let r = s.rounds()[0].as_ref().unwrap();
    assert_eq!(r.id(), Ok(&Some(3)));
    assert_eq!(r.color(), Ok(&Color::White));
    assert_eq!(r.result(), Ok(&Outcome::Regular(RegularRoundResult::Win)));
}

#[test]
fn several_round_blocks_in_order() {
    let s = Section::decode(&smith("   1", &["0003 w 1", "0002 b =", "0000 - H"])).unwrap();
    assert_eq!(s.rounds().len(), 3);
    let r1 = s.rounds()[1].as_ref().unwrap();
    assert_eq!(r1.id(), Ok(&Some(2)));
    assert_eq!(r1.color(), Ok(&Color::Black));
    assert_eq!(r1.result(), Ok(&Outcome::Regular(RegularRoundResult::Draw)));
    let r2 = s.rounds()[2].as_ref().unwrap();
    assert_eq!(r2.id(), Ok(&None));
    assert_eq!(r2.result(), Ok(&Outcome::Bye(ByeRoundResult::HalfPointBye)));
}

#[test]
fn bad_round_field_stays_in_its_slot() {
    let s = Section::decode(&smith("   1", &["00x3 q 1", "0004 w 0"])).unwrap();
    let r0 = s.rounds()[0].as_ref().unwrap();
    assert_eq!(r0.id(), Err(&TRFError::ParseIntError(IntErrorKind::InvalidDigit)));
    assert_eq!(r0.color(), Err(&TRFError::InvalidColorError("q".to_string())));
    assert_eq!(r0.result(), Ok(&Outcome::Regular(RegularRoundResult::Win)));
    let r1 = s.rounds()[1].as_ref().unwrap();
    assert_eq!(r1.id(), Ok(&Some(4)));
}

#[test]
fn incomplete_last_block_is_not_read() {
    let s = Section::decode(&smith("   1", &["0003 w 1", "0002 b"])).unwrap();
    assert_eq!(s.rounds().len(), 1);
}

#[test]
fn blank_round_block() {
    let r = PlayerRoundSection::decode("0000 -  ").unwrap();
    assert_eq!(r.id(), Ok(&None));
    assert_eq!(r.color(), Ok(&Color::NoColor));
    assert_eq!(r.result(), Ok(&Outcome::Bye(ByeRoundResult::ZeroPointBye)));
    let blank = PlayerRoundSection::decode("        ").unwrap();
    assert_eq!(blank.id(), Ok(&None));
    assert_eq!(blank.color(), Ok(&Color::NoColor));
    let forfeit = PlayerRoundSection::decode("0000 - +").unwrap();
    assert_eq!(forfeit.result(), Ok(&Outcome::NotPlayed(
        openswisspairings_lib::NotPlayedRoundResult::ForfeitWin
    )));
    assert_eq!(
        PlayerRoundSection::decode("0000 - ").unwrap_err(),
        TRFError::PlayerRoundSectionTooShort("0000 - ".to_string())
    );
}

#[test]
fn record_kinds() {
    assert_eq!(RecordKind::of("001"), RecordKind::PlayerData);
    assert_eq!(RecordKind::of("012"), RecordKind::TournamentName);
    assert_eq!(RecordKind::of("132"), RecordKind::DatesOfRounds);
    assert_eq!(RecordKind::of("013"), RecordKind::TeamData);
    assert_eq!(RecordKind::of("XXR"), RecordKind::JavafoExtension);
    assert_eq!(RecordKind::of("XRS"), RecordKind::SourceExtension);
    assert_eq!(RecordKind::of("DAT"), RecordKind::TorneloExtension);
    assert_eq!(RecordKind::of("999"), RecordKind::Unknown);
}

fn report(lines: &[String], sep: &str) -> String {
    lines.join(sep)
}

#[test]
fn bad_player_line_does_not_stop_the_scan() {
    let text = report(
        &[
            "012 Club Open".to_string(),
            format!("001 {}", smith("abcd", &[])),
            format!("001 {}", smith("   2", &["0001 b 0"])),
        ],
        "\r",
    );
    let (situation, notes) = Situation::decode(&text);
    assert_eq!(situation.players().len(), 1);
    assert_eq!(situation.players()[0].starting_rank_number().value(), 2);
    assert_eq!(notes.len(), 4);
    assert!(matches!(&notes[0], Advisory::Record(RecordKind::TournamentName, c, p) if c == "012" && p == "Club Open"));
    assert!(matches!(&notes[1], Advisory::Record(RecordKind::PlayerData, _, _)));
    assert!(matches!(
        &notes[2],
        Advisory::PlayerNotDecoded(_, TRFError::ParseIntError(IntErrorKind::InvalidDigit))
    ));
    assert!(matches!(&notes[3], Advisory::Record(RecordKind::PlayerData, _, _)));
}

#[test]
fn line_feed_report() {
    let lines = [
        "012 Club Open".to_string(),
        format!("001 {}", smith("   1", &["0002 w 1"])),
        format!("001 {}", smith("   2", &["0001 b 0"])),
        "".to_string(),
    ];
    let (lf, lf_notes) = Situation::decode(&report(&lines, "\n"));
    let (cr, cr_notes) = Situation::decode(&report(&lines, "\r"));
    assert_eq!(lf.players().len(), 2);
    assert_eq!(format!("{:?}", lf), format!("{:?}", cr));
    assert!(matches!(lf_notes[0], Advisory::LineFeedSeparator));
    assert_eq!(lf_notes.len(), cr_notes.len() + 1);
    let second = lf.players()[1].rounds()[0].as_ref().unwrap();
    assert_eq!(second.result(), Ok(&Outcome::Regular(RegularRoundResult::Loss)));
}

#[test]
fn decoding_twice_gives_the_same() {
    let text = report(
        &[
            format!("001 {}", smith("   1", &["0002 w 1"])),
            "XXR 7".to_string(),
            format!("001 {}", smith("   2", &["0001 b 0"])),
        ],
        "\r",
    );
    let first = Situation::decode(&text);
    let second = Situation::decode(&text);
    assert_eq!(format!("{:?}", first), format!("{:?}", second));
}

#[test]
fn short_lines_and_empty_report() {
    let (s, notes) = Situation::decode("");
    assert!(s.players().is_empty());
    assert_eq!(notes.len(), 1);
    let (s, notes) = Situation::decode("001 \r\r012");
    assert!(s.players().is_empty());
    assert!(notes.is_empty());
}

#[test]
fn unknown_codes_are_noted() {
    let (s, notes) = Situation::decode("ABC something\r");
    assert!(s.players().is_empty());
    assert!(matches!(&notes[0], Advisory::Record(RecordKind::Unknown, c, p) if c == "ABC" && p == "something"));
}

#[test]
fn other_records_do_not_change_the_players() {
    let players = [
        format!("001 {}", smith("   1", &["0002 w 1"])),
        format!("001 {}", smith("   2", &["0001 b 0"])),
    ];
    let bare = report(&players, "\n");
    let mixed = report(
        &[
            "012 Club Open".to_string(),
            players[0].clone(),
            "XXR 9".to_string(),
            "".to_string(),
            players[1].clone(),
            "132                                 23/10/01".to_string(),
        ],
        "\n",
    );
    let (a, _) = Situation::decode(&bare);
    let (b, _) = Situation::decode(&mixed);
    assert_eq!(a.players().len(), 2);
    assert_eq!(format!("{:?}", a), format!("{:?}", b));
}
