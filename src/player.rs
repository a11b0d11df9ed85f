//! The player record (data identification number `001`): a fixed-width line
//! decoded field by field, followed by the player's round blocks.
use vstd::prelude::*;
use crate::error::{ErrorModel, FloatErrorKind, TRFError, field_view, ref_field_view, result_view};
use crate::fields::{Date, Name, Sex, StartingRankNumber, Title, sex_field, starting_rank_of};
use crate::round::{PlayerRoundSection, ROUND_BLOCK_WIDTH, RoundModel, round_of};
use crate::text::{chars_of, is_blank, owned, trim, trimmed};
use crate::utils::{
    FieldValue, all_digits, digit_value, digits_value, into_field, is_digit, number_field,
    parse_into, parse_number, parse_uint, unsigned_digits,
};

verus! {

/// A score in tenths of a point, as the points column holds it ("17.5").
#[derive(Debug, Clone, Copy, PartialEq, Eq, Structural)]
pub struct Points {
    tenths: u32,
}

/// The index of the first `c` in `s` at or after `i`.
pub open spec fn find_char(s: Seq<char>, c: char, i: int) -> Option<int>
    decreases s.len() - i,
{
    if i < 0 || i >= s.len() {
        None
    } else if s[i] == c {
        Some(i)
    } else {
        find_char(s, c, i + 1)
    }
}

/// The part of a score before its decimal point.
pub open spec fn whole_part(t: Seq<char>) -> Seq<char> {
    match find_char(t, '.', 0) {
        Some(i) => t.subrange(0, i),
        None => t,
    }
}

/// The part of a score after its decimal point.
pub open spec fn fraction_part(t: Seq<char>) -> Seq<char> {
    match find_char(t, '.', 0) {
        Some(i) => t.subrange(i + 1, t.len() as int),
        None => seq![],
    }
}

/// A score in tenths: digits, then optionally a point and digits, of which
/// only the first may differ from zero; at least one digit in all.
pub open spec fn tenths_of(t: Seq<char>) -> Result<u32, ErrorModel> {
    let w = whole_part(t);
    let f = fraction_part(t);
    let v = digits_value(w) * 10 + if f.len() > 0 {
        digit_value(f[0])
    } else {
        0
    };
    if w.len() + f.len() == 0 || !all_digits(w) || !all_digits(f) || exists|k: int|
        1 <= k < f.len() && #[trigger] f[k] != '0' {
        Err(ErrorModel::FloatParse(FloatErrorKind::Invalid))
    } else if v > u32::MAX {
        Err(ErrorModel::FloatParse(FloatErrorKind::Invalid))
    } else {
        Ok(v as u32)
    }
}

impl View for Points {
    type V = u32;

    closed spec fn view(&self) -> u32 {
        self.tenths
    }
}

impl FieldValue for Points {
    open spec fn decoded(s: Seq<char>) -> Result<u32, ErrorModel> {
        tenths_of(s)
    }

    fn decode(s: &str) -> (r: Result<Points, TRFError>) {
        let cs = chars_of(s);
        let n = cs.len();
        let mut dot: usize = 0;
        while dot < n && cs[dot] != '.'
            invariant
                cs@ == s@,
                n == s@.len(),
                dot <= n,
                find_char(s@, '.', 0) == find_char(s@, '.', dot as int),
            decreases n - dot,
        {
            dot = dot + 1;
        }
        let ghost w = whole_part(s@);
        let ghost f = fraction_part(s@);
        let frac_start: usize = if dot < n { dot + 1 } else { n };
        assert(w =~= s@.subrange(0, dot as int));
        assert(f =~= s@.subrange(frac_start as int, n as int));
        if dot + (n - frac_start) == 0 {
            return Err(TRFError::ParseFloatError(FloatErrorKind::Invalid));
        }
        let mut i: usize = 0;
        while i < n
            invariant
                cs@ == s@,
                n == s@.len(),
                dot <= n,
                frac_start <= n,
                i <= n,
                w == whole_part(s@),
                f == fraction_part(s@),
                w == s@.subrange(0, dot as int),
                f == s@.subrange(frac_start as int, n as int),
                dot < n ==> frac_start == dot + 1,
                dot == n ==> frac_start == n,
                forall|k: int| 0 <= k < i && k < dot ==> is_digit(#[trigger] s@[k]),
                forall|k: int| frac_start <= k < i ==> is_digit(#[trigger] s@[k]),
                forall|k: int| frac_start + 1 <= k < i ==> #[trigger] s@[k] == '0',
            decreases n - i,
        {
            let u = cs[i] as u32;
            if i != dot && !(0x30 <= u && u <= 0x39) {
                proof {
                    if i < dot {
                        assert(!is_digit(w[i as int]));
                    } else {
                        assert(!is_digit(f[i - frac_start]));
                    }
                }
                return Err(TRFError::ParseFloatError(FloatErrorKind::Invalid));
            }
            if i > frac_start && cs[i] != '0' {
                assert(f[i - frac_start] != '0');
                return Err(TRFError::ParseFloatError(FloatErrorKind::Invalid));
            }
            i = i + 1;
        }
        assert(all_digits(w));
        assert(all_digits(f));
        assert(!exists|k: int| 1 <= k < f.len() && #[trigger] f[k] != '0');
        let tenth: u64 = if frac_start < n {
            (cs[frac_start] as u32 - 0x30) as u64
        } else {
            0
        };
        let whole: u64 = if dot == 0 {
            assert(w.len() == 0);
            0
        } else {
            let part = s.substring_char(0, dot);
            proof {
                crate::utils::lemma_uint_of(part@, 429496729);
                assert(part@ == w);
                assert(is_digit(w[0]));
                assert(unsigned_digits(w) == w);
            }
            match parse_uint(part, 429496729) {
                Ok(v) => v,
                Err(_) => {
                    return Err(TRFError::ParseFloatError(FloatErrorKind::Invalid));
                },
            }
        };
        let v: u64 = whole * 10 + tenth;
        if v > 0xffff_ffff {
            return Err(TRFError::ParseFloatError(FloatErrorKind::Invalid));
        }
        Ok(Points { tenths: v as u32 })
    }
}

impl Points {
    /// The score in tenths of a point.
    pub fn tenths(&self) -> (r: u32)
        ensures
            r == self@,
    {
        self.tenths
    }
}

} // verus!

verus! {

// Columns of a player record, counted in characters from the first after the
// data identification number and its separator; each range ends before its
// end column.
pub const STARTING_RANK_START: usize = 0;
pub const STARTING_RANK_END: usize = 4;
pub const SEX_START: usize = 5;
pub const SEX_END: usize = 6;
pub const TITLE_START: usize = 6;
pub const TITLE_END: usize = 9;
pub const NAME_START: usize = 10;
pub const NAME_END: usize = 43;
pub const FIDE_RATING_START: usize = 44;
pub const FIDE_RATING_END: usize = 48;
pub const FEDERATION_START: usize = 49;
pub const FEDERATION_END: usize = 52;
pub const FIDE_NUMBER_START: usize = 53;
pub const FIDE_NUMBER_END: usize = 64;
pub const BIRTH_DATE_START: usize = 65;
pub const BIRTH_DATE_END: usize = 75;
pub const POINTS_START: usize = 76;
pub const POINTS_END: usize = 80;
pub const RANK_START: usize = 81;
pub const RANK_END: usize = 85;
/// Where the first round block starts.
pub const ROUNDS_START: usize = 87;
/// From the start of one round block to the start of the next.
pub const ROUND_STRIDE: usize = 10;

/// What a player record decodes to, field by field.
pub struct SectionModel {
    pub starting_rank: u16,
    pub sex: Result<Option<Sex>, ErrorModel>,
    pub title: Result<Option<Title>, ErrorModel>,
    /// (last name, first name)
    pub name: Result<Option<(Seq<char>, Seq<char>)>, ErrorModel>,
    pub fide_rating: Result<Option<u16>, ErrorModel>,
    pub federation: Option<Seq<char>>,
    pub fide_number: Result<Option<u64>, ErrorModel>,
    /// (year, month, day)
    pub birth_date: Result<Option<(u16, u8, u8)>, ErrorModel>,
    /// In tenths of a point.
    pub points: Result<Option<u32>, ErrorModel>,
    pub rank: Result<Option<u16>, ErrorModel>,
    pub rounds: Seq<Option<RoundModel>>,
}

pub open spec fn columns(p: Seq<char>, start: usize, end: usize) -> Seq<char> {
    p.subrange(start as int, end as int)
}

/// An optional integer column of at most 16 bits.
pub open spec fn u16_field(s: Seq<char>) -> Result<Option<u16>, ErrorModel> {
    match number_field(s, 0xffff) {
        Ok(Some(v)) => Ok(Some(v as u16)),
        Ok(None) => Ok(None),
        Err(e) => Err(e),
    }
}

/// The federation column, taken as it stands once trimmed; blank is none.
pub open spec fn federation_of(s: Seq<char>) -> Option<Seq<char>> {
    if is_blank(s) {
        None
    } else {
        Some(trim(s))
    }
}

/// How many round blocks a record of `len` columns holds: each must fit
/// whole.
pub open spec fn round_count(len: nat) -> nat {
    if len >= ROUNDS_START + ROUND_BLOCK_WIDTH {
        ((len - ROUNDS_START - ROUND_BLOCK_WIDTH) / (ROUND_STRIDE as int) + 1) as nat
    } else {
        0
    }
}

pub open spec fn round_start(k: int) -> int {
    ROUNDS_START + k * ROUND_STRIDE
}

/// The `k`-th round slot: the block decoded, or none where it cannot be.
pub open spec fn round_slot(p: Seq<char>, k: int) -> Option<RoundModel> {
    match round_of(p.subrange(round_start(k), round_start(k) + ROUND_BLOCK_WIDTH)) {
        Ok(m) => Some(m),
        Err(_) => None,
    }
}

/// A player record: too short a line is an error, as is a starting rank
/// that cannot be read; every other field is decoded on its own, and a
/// failure in it stays in that field.
pub open spec fn section_of(p: Seq<char>) -> Result<SectionModel, ErrorModel> {
    if p.len() < RANK_END {
        Err(ErrorModel::UnexpectedEnd)
    } else {
        match starting_rank_of(columns(p, STARTING_RANK_START, STARTING_RANK_END)) {
            Err(e) => Err(e),
            Ok(n) => Ok(
                SectionModel {
                    starting_rank: n,
                    sex: sex_field(columns(p, SEX_START, SEX_END)),
                    title: into_field::<Title>(columns(p, TITLE_START, TITLE_END)),
                    name: into_field::<Name>(columns(p, NAME_START, NAME_END)),
                    fide_rating: u16_field(columns(p, FIDE_RATING_START, FIDE_RATING_END)),
                    federation: federation_of(columns(p, FEDERATION_START, FEDERATION_END)),
                    fide_number: number_field(
                        columns(p, FIDE_NUMBER_START, FIDE_NUMBER_END),
                        u64::MAX,
                    ),
                    birth_date: into_field::<Date>(columns(p, BIRTH_DATE_START, BIRTH_DATE_END)),
                    points: into_field::<Points>(columns(p, POINTS_START, POINTS_END)),
                    rank: u16_field(columns(p, RANK_START, RANK_END)),
                    rounds: Seq::new(round_count(p.len()), |k: int| round_slot(p, k)),
                },
            ),
        }
    }
}

/// A player record.
#[derive(Debug)]
pub struct Section {
    /// Identifies the player within the tournament.
    starting_rank_number: StartingRankNumber,
    sex: Result<Option<Sex>, TRFError>,
    title: Result<Option<Title>, TRFError>,
    /// Split into last name and first name.
    name: Result<Option<Name>, TRFError>,
    fide_rating: Result<Option<u16>, TRFError>,
    /// The raw federation code; none where the column is blank.
    fide_federation: Option<String>,
    /// The player's identifier in FIDE's database, where it is given.
    fide_number: Result<Option<u64>, TRFError>,
    birth_date: Result<Option<Date>, TRFError>,
    /// Points in the standings, under the tournament's scoring system.
    points: Result<Option<Points>, TRFError>,
    /// Final ranking.
    rank: Result<Option<u16>, TRFError>,
    /// Each round, in file order.
    rounds: Vec<Option<PlayerRoundSection>>,
}

pub open spec fn option_string_view(o: Option<String>) -> Option<Seq<char>> {
    match o {
        Some(s) => Some(s@),
        None => None,
    }
}

pub open spec fn slot_view(o: Option<PlayerRoundSection>) -> Option<RoundModel> {
    match o {
        Some(r) => Some(r@),
        None => None,
    }
}

impl View for Section {
    type V = SectionModel;

    closed spec fn view(&self) -> SectionModel {
        SectionModel {
            starting_rank: self.starting_rank_number@,
            sex: field_view(self.sex),
            title: field_view(self.title),
            name: field_view(self.name),
            fide_rating: field_view(self.fide_rating),
            federation: option_string_view(self.fide_federation),
            fide_number: field_view(self.fide_number),
            birth_date: field_view(self.birth_date),
            points: field_view(self.points),
            rank: field_view(self.rank),
            rounds: self.rounds@.map_values(|r: Option<PlayerRoundSection>| slot_view(r)),
        }
    }
}

fn u16_column(s: &str) -> (r: Result<Option<u16>, TRFError>)
    ensures
        field_view(r) == u16_field(s@),
{
    match parse_number(s, 0xffff) {
        Ok(Some(v)) => Ok(Some(v as u16)),
        Ok(None) => Ok(None),
        Err(e) => Err(e),
    }
}

fn federation_column(s: &str) -> (r: Option<String>)
    ensures
        option_string_view(r) == federation_of(s@),
{
    let t = trimmed(s);
    if t.unicode_len() == 0 {
        None
    } else {
        Some(owned(t))
    }
}

fn decode_rounds(p: &str) -> (r: Vec<Option<PlayerRoundSection>>)
    ensures
        r@.map_values(|r: Option<PlayerRoundSection>| slot_view(r)) == Seq::new(
            round_count(p@.len()),
            |k: int| round_slot(p@, k),
        ),
{
    let n = p.unicode_len();
    let mut rounds: Vec<Option<PlayerRoundSection>> = Vec::new();
    if n < ROUNDS_START {
        return rounds;
    }
    let mut pos: usize = ROUNDS_START;
    let mut more: bool = true;
    while more && n - pos >= ROUND_BLOCK_WIDTH
        invariant
            n == p@.len(),
            pos <= n,
            more ==> pos == round_start(rounds@.len() as int),
            !more ==> round_start(rounds@.len() as int) > n,
            rounds@.len() <= round_count(n as nat),
            rounds@.len() > 0 ==> round_start(rounds@.len() - 1) + ROUND_BLOCK_WIDTH <= n,
            forall|k: int|
                0 <= k < rounds@.len() ==> slot_view(#[trigger] rounds@[k]) == round_slot(p@, k),
        decreases n - pos + if more { 1int } else { 0int },
    {
        let slot = match PlayerRoundSection::decode(p.substring_char(pos, pos + ROUND_BLOCK_WIDTH)) {
            Ok(r) => Some(r),
            Err(_) => None,
        };
        rounds.push(slot);
        if n - pos >= ROUND_STRIDE {
            pos = pos + ROUND_STRIDE;
        } else {
            more = false;
        }
    }
    assert(rounds@.len() == round_count(n as nat));
    assert(rounds@.map_values(|r: Option<PlayerRoundSection>| slot_view(r)) =~= Seq::new(
        round_count(p@.len()),
        |k: int| round_slot(p@, k),
    ));
    rounds
}

impl Section {
    /// The data identification number of a player record.
    pub const DATA_IDENTIFICATION_NUMBER: &'static str = "001";

    /// Decodes a player record: the line after its data identification
    /// number and the separator that follows it. Columns are counted in
    /// characters, not bytes; the two agree on the ASCII text that TRF
    /// files hold, and a name with accented letters keeps its columns.
    pub fn decode(p: &str) -> (r: Result<Section, TRFError>)
        ensures
            result_view(r) == section_of(p@),
    {
        let n = p.unicode_len();
        if n < RANK_END {
            return Err(TRFError::UnexpectedEndOfString);
        }
        let starting_rank_number = match StartingRankNumber::parse(
            p.substring_char(STARTING_RANK_START, STARTING_RANK_END),
        ) {
            Ok(v) => v,
            Err(e) => {
                return Err(e);
            },
        };
        let sex = Sex::decode(p.substring_char(SEX_START, SEX_END));
        let title = parse_into::<Title>(p.substring_char(TITLE_START, TITLE_END));
        let name = parse_into::<Name>(p.substring_char(NAME_START, NAME_END));
        let fide_rating = u16_column(p.substring_char(FIDE_RATING_START, FIDE_RATING_END));
        let fide_federation = federation_column(p.substring_char(FEDERATION_START, FEDERATION_END));
        let fide_number = parse_number(
            p.substring_char(FIDE_NUMBER_START, FIDE_NUMBER_END),
            u64::MAX,
        );
        let birth_date = parse_into::<Date>(p.substring_char(BIRTH_DATE_START, BIRTH_DATE_END));
        let points = parse_into::<Points>(p.substring_char(POINTS_START, POINTS_END));
        let rank = u16_column(p.substring_char(RANK_START, RANK_END));
        let rounds = decode_rounds(p);
        let r = Section {
            starting_rank_number,
            sex,
            title,
            name,
            fide_rating,
            fide_federation,
            fide_number,
            birth_date,
            points,
            rank,
            rounds,
        };
        Ok(r)
    }
}

} // verus!

verus! {

impl Section {
    /// The starting rank number, which identifies the player.
    pub fn starting_rank_number(&self) -> (r: StartingRankNumber)
        ensures
            r@ == self@.starting_rank,
    {
        self.starting_rank_number
    }

    /// The gender.
    pub fn sex(&self) -> (r: Result<&Option<Sex>, &TRFError>)
        ensures
            ref_field_view(r) == self@.sex,
    {
        self.sex.as_ref()
    }

    /// The title.
    pub fn title(&self) -> (r: Result<&Option<Title>, &TRFError>)
        ensures
            ref_field_view(r) == self@.title,
    {
        self.title.as_ref()
    }

    /// The name.
    pub fn name(&self) -> (r: Result<&Option<Name>, &TRFError>)
        ensures
            ref_field_view(r) == self@.name,
    {
        self.name.as_ref()
    }

    /// The FIDE rating.
    pub fn fide_rating(&self) -> (r: Result<&Option<u16>, &TRFError>)
        ensures
            ref_field_view(r) == self@.fide_rating,
    {
        self.fide_rating.as_ref()
    }

    /// The federation code, as it stands in the record.
    pub fn fide_federation(&self) -> (r: Option<&str>)
        ensures
            match r {
                Some(s) => self@.federation == Some(s@),
                None => self@.federation is None,
            },
    {
        match &self.fide_federation {
            Some(s) => Some(s.as_str()),
            None => None,
        }
    }

    /// The FIDE identifier.
    pub fn fide_number(&self) -> (r: Result<&Option<u64>, &TRFError>)
        ensures
            ref_field_view(r) == self@.fide_number,
    {
        self.fide_number.as_ref()
    }

    /// The birth date.
    pub fn birth_date(&self) -> (r: Result<&Option<Date>, &TRFError>)
        ensures
            ref_field_view(r) == self@.birth_date,
    {
        self.birth_date.as_ref()
    }

    /// The points, in tenths.
    pub fn points(&self) -> (r: Result<&Option<Points>, &TRFError>)
        ensures
            ref_field_view(r) == self@.points,
    {
        self.points.as_ref()
    }

    /// The final ranking.
    pub fn rank(&self) -> (r: Result<&Option<u16>, &TRFError>)
        ensures
            ref_field_view(r) == self@.rank,
    {
        self.rank.as_ref()
    }

    /// The rounds, in file order.
    pub fn rounds(&self) -> (r: &[Option<PlayerRoundSection>])
        ensures
            r@.map_values(|o: Option<PlayerRoundSection>| slot_view(o)) == self@.rounds,
    {
        self.rounds.as_slice()
    }
}

} // verus!
