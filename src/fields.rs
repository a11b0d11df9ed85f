//! The fields of a player record: gender, title, name, birth date, and the
//! identifying numbers of records and players.
use vstd::prelude::*;
use crate::error::{ErrorModel, IntErrorKind, TRFError, field_view, result_view};
use crate::text::{chars_of, is_blank, is_space, owned, same_text, trim, trim_end, trim_start, trimmed};
use crate::utils::{FieldValue, all_digits, digits_value, is_digit, parse_uint, uint_of};

verus! {

/// The player's gender.
#[derive(Debug, Clone, Copy, PartialEq, Eq, Structural)]
pub enum Sex {
    /// Man ("m")
    Man,
    /// Woman ("w")
    Woman,
}

/// The gender column: exactly "m" or "w", or blank (whitespace only); any
/// other text, a code with whitespace around it included, is invalid.
pub open spec fn sex_field(s: Seq<char>) -> Result<Option<Sex>, ErrorModel> {
    if is_blank(s) {
        Ok(None)
    } else if s == seq!['m'] {
        Ok(Some(Sex::Man))
    } else if s == seq!['w'] {
        Ok(Some(Sex::Woman))
    } else {
        Err(ErrorModel::InvalidGender(s))
    }
}

impl View for Sex {
    type V = Sex;

    open spec fn view(&self) -> Sex {
        *self
    }
}

/// The code of each gender in a TRF file.
pub open spec fn sex_code(s: Sex) -> char {
    match s {
        Sex::Man => 'm',
        Sex::Woman => 'w',
    }
}

impl Sex {
    /// The gender's code in a TRF file: "m" or "w".
    pub fn code(&self) -> (r: char)
        ensures
            r == sex_code(*self),
            sex_field(seq![r]) == Ok::<Option<Sex>, ErrorModel>(Some(*self)),
    {
        proof {
            lemma_gender_codes(sex_code(*self));
        }
        match self {
            Sex::Man => 'm',
            Sex::Woman => 'w',
        }
    }

    /// Decodes the gender column; the error keeps the column as it stands.
    pub fn decode(s: &str) -> (r: Result<Option<Sex>, TRFError>)
        ensures
            field_view(r) == sex_field(s@),
    {
        let t = trimmed(s);
        proof {
            reveal_strlit("m");
            reveal_strlit("w");
            assert("m"@ =~= seq!['m']);
            assert("w"@ =~= seq!['w']);
        }
        if t.unicode_len() == 0 {
            Ok(None)
        } else if same_text(s, "m") {
            Ok(Some(Sex::Man))
        } else if same_text(s, "w") {
            Ok(Some(Sex::Woman))
        } else {
            Err(TRFError::InvalidGenderError(owned(s)))
        }
    }
}

/// The player's title: one of the FIDE titles.
#[derive(Debug, Clone, Copy, PartialEq, Eq, Structural)]
pub enum Title {
    Grandmaster,
    InternationalMaster,
    WomanGrandmaster,
    FIDEMaster,
    WomanInternationalMaster,
    CandidateMaster,
    WomanFIDEMaster,
    WomanCandidateMaster,
}

/// The code of each title in a TRF file.
pub open spec fn title_code(t: Title) -> Seq<char> {
    match t {
        Title::Grandmaster => seq!['G', 'M'],
        Title::InternationalMaster => seq!['I', 'M'],
        Title::WomanGrandmaster => seq!['W', 'G', 'M'],
        Title::FIDEMaster => seq!['F', 'M'],
        Title::WomanInternationalMaster => seq!['W', 'I', 'M'],
        Title::CandidateMaster => seq!['C', 'M'],
        Title::WomanFIDEMaster => seq!['W', 'F', 'M'],
        Title::WomanCandidateMaster => seq!['W', 'C', 'M'],
    }
}

/// The title whose code is exactly `s`, if there is one.
pub open spec fn title_of(s: Seq<char>) -> Option<Title> {
    if s == title_code(Title::Grandmaster) {
        Some(Title::Grandmaster)
    } else if s == title_code(Title::InternationalMaster) {
        Some(Title::InternationalMaster)
    } else if s == title_code(Title::WomanGrandmaster) {
        Some(Title::WomanGrandmaster)
    } else if s == title_code(Title::FIDEMaster) {
        Some(Title::FIDEMaster)
    } else if s == title_code(Title::WomanInternationalMaster) {
        Some(Title::WomanInternationalMaster)
    } else if s == title_code(Title::CandidateMaster) {
        Some(Title::CandidateMaster)
    } else if s == title_code(Title::WomanFIDEMaster) {
        Some(Title::WomanFIDEMaster)
    } else if s == title_code(Title::WomanCandidateMaster) {
        Some(Title::WomanCandidateMaster)
    } else {
        None
    }
}

impl View for Title {
    type V = Title;

    open spec fn view(&self) -> Title {
        *self
    }
}

impl FieldValue for Title {
    open spec fn decoded(s: Seq<char>) -> Result<Title, ErrorModel> {
        match title_of(s) {
            Some(t) => Ok(t),
            None => Err(ErrorModel::InvalidTitle(s)),
        }
    }

    fn decode(s: &str) -> (r: Result<Title, TRFError>) {
        proof {
            reveal_strlit("GM");
            reveal_strlit("IM");
            reveal_strlit("WGM");
            reveal_strlit("FM");
            reveal_strlit("WIM");
            reveal_strlit("CM");
            reveal_strlit("WFM");
            reveal_strlit("WCM");
            assert("GM"@ =~= title_code(Title::Grandmaster));
            assert("IM"@ =~= title_code(Title::InternationalMaster));
            assert("WGM"@ =~= title_code(Title::WomanGrandmaster));
            assert("FM"@ =~= title_code(Title::FIDEMaster));
            assert("WIM"@ =~= title_code(Title::WomanInternationalMaster));
            assert("CM"@ =~= title_code(Title::CandidateMaster));
            assert("WFM"@ =~= title_code(Title::WomanFIDEMaster));
            assert("WCM"@ =~= title_code(Title::WomanCandidateMaster));
        }
        if same_text(s, "GM") {
            Ok(Title::Grandmaster)
        } else if same_text(s, "IM") {
            Ok(Title::InternationalMaster)
        } else if same_text(s, "WGM") {
            Ok(Title::WomanGrandmaster)
        } else if same_text(s, "FM") {
            Ok(Title::FIDEMaster)
        } else if same_text(s, "WIM") {
            Ok(Title::WomanInternationalMaster)
        } else if same_text(s, "CM") {
            Ok(Title::CandidateMaster)
        } else if same_text(s, "WFM") {
            Ok(Title::WomanFIDEMaster)
        } else if same_text(s, "WCM") {
            Ok(Title::WomanCandidateMaster)
        } else {
            Err(TRFError::InvalidTitleError(owned(s)))
        }
    }
}

impl Title {
    /// The title's code in a TRF file ("GM", "WIM", ...).
    pub fn code(&self) -> (r: String)
        ensures
            r@ == title_code(*self),
    {
        proof {
            reveal_strlit("GM");
            reveal_strlit("IM");
            reveal_strlit("WGM");
            reveal_strlit("FM");
            reveal_strlit("WIM");
            reveal_strlit("CM");
            reveal_strlit("WFM");
            reveal_strlit("WCM");
        }
        let r = match self {
            Title::Grandmaster => owned("GM"),
            Title::InternationalMaster => owned("IM"),
            Title::WomanGrandmaster => owned("WGM"),
            Title::FIDEMaster => owned("FM"),
            Title::WomanInternationalMaster => owned("WIM"),
            Title::CandidateMaster => owned("CM"),
            Title::WomanFIDEMaster => owned("WFM"),
            Title::WomanCandidateMaster => owned("WCM"),
        };
        assert(r@ =~= title_code(*self));
        r
    }
}

/// Each title's code decodes to that title, and only a title's code decodes
/// to it: decoding is a bijection between the codes and the titles.
pub proof fn lemma_title_code_round_trip(t: Title, s: Seq<char>)
    ensures
        title_of(title_code(t)) == Some(t),
        title_of(s) == Some(t) <==> s == title_code(t),
{
    assert(title_code(Title::Grandmaster)[0] == 'G');
    assert(title_code(Title::InternationalMaster)[0] == 'I');
    assert(title_code(Title::FIDEMaster)[0] == 'F');
    assert(title_code(Title::CandidateMaster)[0] == 'C');
    assert(title_code(Title::WomanGrandmaster)[1] == 'G');
    assert(title_code(Title::WomanInternationalMaster)[1] == 'I');
    assert(title_code(Title::WomanFIDEMaster)[1] == 'F');
    assert(title_code(Title::WomanCandidateMaster)[1] == 'C');
}

} // verus!

verus! {

/// The player's name, split into last name and first name.
#[derive(Debug, Clone, PartialEq, Eq)]
pub struct Name {
    last_name: String,
    first_name: String,
}

/// The index of the first ", " in `s` at or after `i`.
pub open spec fn find_separator(s: Seq<char>, i: int) -> Option<int>
    decreases s.len() - i,
{
    if i < 0 || i + 2 > s.len() {
        None
    } else if s[i] == ',' && s[i + 1] == ' ' {
        Some(i)
    } else {
        find_separator(s, i + 1)
    }
}

impl View for Name {
    /// (last name, first name)
    type V = (Seq<char>, Seq<char>);

    closed spec fn view(&self) -> (Seq<char>, Seq<char>) {
        (self.last_name@, self.first_name@)
    }
}

impl FieldValue for Name {
    /// "Last, First": split once, at the first ", ".
    open spec fn decoded(s: Seq<char>) -> Result<(Seq<char>, Seq<char>), ErrorModel> {
        match find_separator(s, 0) {
            Some(i) => Ok((s.subrange(0, i), s.subrange(i + 2, s.len() as int))),
            None => Err(ErrorModel::InvalidPlayerName(s)),
        }
    }

    fn decode(s: &str) -> (r: Result<Name, TRFError>) {
        let cs = chars_of(s);
        let n = cs.len();
        let mut i: usize = 0;
        while n >= 2 && i <= n - 2
            invariant
                i <= n,
                cs@ == s@,
                n == s@.len(),
                find_separator(s@, 0) == find_separator(s@, i as int),
            decreases n - i,
        {
            if cs[i] == ',' && cs[i + 1] == ' ' {
                let last_name = owned(s.substring_char(0, i));
                let first_name = owned(s.substring_char(i + 2, n));
                return Ok(Name { last_name, first_name });
            }
            i = i + 1;
        }
        Err(TRFError::InvalidPlayerNameError(owned(s)))
    }
}

impl Name {
    /// The player's last name.
    pub fn last_name(&self) -> (r: &str)
        ensures
            r@ == self@.0,
    {
        self.last_name.as_str()
    }

    /// The player's first name.
    pub fn first_name(&self) -> (r: &str)
        ensures
            r@ == self@.1,
    {
        self.first_name.as_str()
    }
}

/// A date, as it stands in a birth date column.
#[derive(Debug, Clone, Copy, PartialEq, Eq, Structural)]
pub struct Date {
    year: u16,
    month: u8,
    day: u8,
}

/// The shape YYYY/MM/DD, with ASCII digits.
pub open spec fn is_date_text(s: Seq<char>) -> bool {
    &&& s.len() == 10
    &&& all_digits(s.subrange(0, 4))
    &&& s[4] == '/'
    &&& all_digits(s.subrange(5, 7))
    &&& s[7] == '/'
    &&& all_digits(s.subrange(8, 10))
}

impl View for Date {
    /// (year, month, day)
    type V = (u16, u8, u8);

    closed spec fn view(&self) -> (u16, u8, u8) {
        (self.year, self.month, self.day)
    }
}

impl Date {
    /// The year (at most four digits).
    pub fn year(&self) -> (r: u16)
        ensures
            r == self@.0,
    {
        self.year
    }

    /// The month (at most two digits, not checked against the calendar).
    pub fn month(&self) -> (r: u8)
        ensures
            r == self@.1,
    {
        self.month
    }

    /// The day (at most two digits, not checked against the calendar).
    pub fn day(&self) -> (r: u8)
        ensures
            r == self@.2,
    {
        self.day
    }
}

/// Reads the digits of `s` in `lo..hi`, which hold at most four digits.
fn small_number(s: &str, lo: usize, hi: usize) -> (r: u16)
    requires
        lo < hi <= s@.len(),
        hi - lo <= 4,
        all_digits(s@.subrange(lo as int, hi as int)),
    ensures
        r == digits_value(s@.subrange(lo as int, hi as int)),
{
    let part = s.substring_char(lo, hi);
    proof {
        crate::utils::lemma_uint_of(part@, 9999);
        crate::utils::lemma_digits_value_bound(part@);
        assert(crate::utils::ten_pow(part@.len()) <= 10000) by {
            reveal_with_fuel(crate::utils::ten_pow, 5);
        }
    }
    match parse_uint(part, 9999) {
        Ok(v) => v as u16,
        // Not reached: the part is all digits, and four digits fit.
        Err(_) => 0,
    }
}

impl FieldValue for Date {
    open spec fn decoded(s: Seq<char>) -> Result<(u16, u8, u8), ErrorModel> {
        if is_date_text(s) {
            Ok(
                (
                    digits_value(s.subrange(0, 4)) as u16,
                    digits_value(s.subrange(5, 7)) as u8,
                    digits_value(s.subrange(8, 10)) as u8,
                ),
            )
        } else {
            Err(ErrorModel::InvalidDate(s))
        }
    }

    fn decode(s: &str) -> (r: Result<Date, TRFError>) {
        let cs = chars_of(s);
        if cs.len() != 10 || cs[4] != '/' || cs[7] != '/' {
            return Err(TRFError::InvalidDateError(owned(s)));
        }
        let mut i: usize = 0;
        while i < 10
            invariant
                cs@ == s@,
                s@.len() == 10,
                i <= 10,
                forall|k: int| 0 <= k < i && k != 4 && k != 7 ==> is_digit(#[trigger] s@[k]),
            decreases 10 - i,
        {
            let u = cs[i] as u32;
            if i != 4 && i != 7 && !(0x30 <= u && u <= 0x39) {
                proof {
                    if i < 4 {
                        assert(!is_digit(s@.subrange(0, 4)[i as int]));
                    } else if i < 7 {
                        assert(!is_digit(s@.subrange(5, 7)[i - 5]));
                    } else {
                        assert(!is_digit(s@.subrange(8, 10)[i - 8]));
                    }
                }
                return Err(TRFError::InvalidDateError(owned(s)));
            }
            i = i + 1;
        }
        assert(forall|k: int| 0 <= k < 4 ==> #[trigger] s@.subrange(0, 4)[k] == s@[k]);
        assert(forall|k: int| 0 <= k < 2 ==> #[trigger] s@.subrange(5, 7)[k] == s@[k + 5]);
        assert(forall|k: int| 0 <= k < 2 ==> #[trigger] s@.subrange(8, 10)[k] == s@[k + 8]);
        let year = small_number(s, 0, 4);
        let month = small_number(s, 5, 7) as u8;
        let day = small_number(s, 8, 10) as u8;
        Ok(Date { year, month, day })
    }
}

} // verus!

verus! {

/// A player's starting rank number: 1 to 9999. It identifies the player
/// within one tournament.
#[derive(Debug, Clone, Copy, PartialEq, Eq)]
pub struct StartingRankNumber(u16);

/// The starting rank column, required: a 16-bit integer, then held to
/// 1..=9999; blank is an error.
pub open spec fn starting_rank_of(s: Seq<char>) -> Result<u16, ErrorModel> {
    match uint_of(trim(s), 0xffff) {
        Ok(v) => if v == 0 {
            Err(ErrorModel::IntParse(IntErrorKind::Zero))
        } else if v > 9999 {
            Err(ErrorModel::IntParse(IntErrorKind::PosOverflow))
        } else {
            Ok(v as u16)
        },
        Err(e) => Err(e),
    }
}

impl View for StartingRankNumber {
    type V = u16;

    closed spec fn view(&self) -> u16 {
        self.0
    }
}

impl StartingRankNumber {
    #[verifier::type_invariant]
    spec fn in_range(self) -> bool {
        1 <= self.0 <= 9999
    }

    /// The number, if it lies in 1..=9999.
    pub fn try_from_number(value: u16) -> (r: Result<StartingRankNumber, TRFError>)
        ensures
            match r {
                Ok(n) => 1 <= value <= 9999 && n@ == value,
                Err(e) => e@ == (if value == 0 {
                    ErrorModel::IntParse(IntErrorKind::Zero)
                } else {
                    ErrorModel::IntParse(IntErrorKind::PosOverflow)
                }) && !(1 <= value <= 9999),
            },
    {
        if value == 0 {
            Err(TRFError::ParseIntError(IntErrorKind::Zero))
        } else if value > 9999 {
            Err(TRFError::ParseIntError(IntErrorKind::PosOverflow))
        } else {
            Ok(StartingRankNumber(value))
        }
    }

    /// Decodes the starting rank column.
    pub fn parse(s: &str) -> (r: Result<StartingRankNumber, TRFError>)
        ensures
            result_view(r) == starting_rank_of(s@),
    {
        let t = trimmed(s);
        match parse_uint(t, 0xffff) {
            Ok(v) => if v == 0 {
                Err(TRFError::ParseIntError(IntErrorKind::Zero))
            } else if v > 9999 {
                Err(TRFError::ParseIntError(IntErrorKind::PosOverflow))
            } else {
                Ok(StartingRankNumber(v as u16))
            },
            Err(e) => Err(e),
        }
    }

    /// The number, in 1..=9999.
    pub fn value(&self) -> (r: u16)
        ensures
            r == self@,
            1 <= r <= 9999,
    {
        proof {
            use_type_invariant(self);
        }
        self.0
    }
}

/// A data identification number: the three-digit code, 0 to 999, that
/// opens each line of a TRF file and says what the line holds.
#[derive(Debug, Clone, Copy, PartialEq, Eq)]
pub struct DataIdentificationNumber(u16);

/// A data identification number read from `s` as it stands: a 16-bit
/// integer, then held to three digits.
pub open spec fn din_of(s: Seq<char>) -> Result<u16, ErrorModel> {
    match uint_of(s, 0xffff) {
        Ok(v) => if v > 999 {
            Err(ErrorModel::IntParse(IntErrorKind::PosOverflow))
        } else {
            Ok(v as u16)
        },
        Err(e) => Err(e),
    }
}

impl View for DataIdentificationNumber {
    type V = u16;

    closed spec fn view(&self) -> u16 {
        self.0
    }
}

impl DataIdentificationNumber {
    #[verifier::type_invariant]
    spec fn in_range(self) -> bool {
        self.0 <= 999
    }

    /// The number, if it has at most three digits.
    pub fn try_from_number(value: u16) -> (r: Result<DataIdentificationNumber, TRFError>)
        ensures
            match r {
                Ok(n) => value <= 999 && n@ == value,
                Err(e) => value > 999 && e@ == ErrorModel::IntParse(IntErrorKind::PosOverflow),
            },
    {
        if value > 999 {
            Err(TRFError::ParseIntError(IntErrorKind::PosOverflow))
        } else {
            Ok(DataIdentificationNumber(value))
        }
    }

    /// Reads the number from `s` as it stands.
    pub fn parse(s: &str) -> (r: Result<DataIdentificationNumber, TRFError>)
        ensures
            result_view(r) == din_of(s@),
    {
        match parse_uint(s, 0xffff) {
            Ok(v) => if v > 999 {
                Err(TRFError::ParseIntError(IntErrorKind::PosOverflow))
            } else {
                Ok(DataIdentificationNumber(v as u16))
            },
            Err(e) => Err(e),
        }
    }

    /// The number, in 0..=999.
    pub fn value(&self) -> (r: u16)
        ensures
            r == self@,
            r <= 999,
    {
        proof {
            use_type_invariant(self);
        }
        self.0
    }
}

} // verus!

verus! {

/// A one-character gender column: "m" is a man, "w" a woman, whitespace
/// none, and any other character an invalid gender that keeps the column.
pub proof fn lemma_gender_codes(c: char)
    ensures
        c == 'm' ==> sex_field(seq![c]) == Ok::<Option<Sex>, ErrorModel>(Some(Sex::Man)),
        c == 'w' ==> sex_field(seq![c]) == Ok::<Option<Sex>, ErrorModel>(Some(Sex::Woman)),
        is_space(c) ==> sex_field(seq![c]) == Ok::<Option<Sex>, ErrorModel>(None),
        c != 'm' && c != 'w' && !is_space(c) ==> sex_field(seq![c]) == Err::<Option<Sex>, ErrorModel>(
            ErrorModel::InvalidGender(seq![c]),
        ),
{
    let s = seq![c];
    assert(s.drop_first() =~= Seq::<char>::empty());
    assert(s.drop_last() =~= Seq::<char>::empty());
    assert(trim_start(Seq::<char>::empty()) == Seq::<char>::empty());
    assert(trim_end(Seq::<char>::empty()) == Seq::<char>::empty());
    if is_space(c) {
        assert(trim_start(s) == Seq::<char>::empty());
    } else {
        assert(trim_start(s) == s);
        assert(trim_end(s) == s);
    }
}

} // verus!
