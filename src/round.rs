//! One round of a player: the opponent, the color and the outcome, decoded
//! from an eight-column round block.
use vstd::prelude::*;
use crate::error::{ErrorModel, TRFError, field_view, ref_field_view, ref_result_view, result_view};
use crate::text::{is_blank, owned, same_text, trim, trimmed};
use crate::utils::{number_field, parse_number};

verus! {

/// Scheduled color, or none.
#[derive(Debug, Clone, Copy, PartialEq, Eq, Structural)]
pub enum Color {
    /// White side.
    White,
    /// Black side.
    Black,
    /// The player had a bye or was not paired.
    NoColor,
}

impl View for Color {
    type V = Color;

    open spec fn view(&self) -> Color {
        *self
    }
}

/// The color column: exactly "w", "b" or "-", or blank (whitespace only);
/// any other text, a code with whitespace around it included, is invalid.
pub open spec fn color_of(s: Seq<char>) -> core::result::Result<Color, ErrorModel> {
    if s == seq!['w'] {
        Ok(Color::White)
    } else if s == seq!['b'] {
        Ok(Color::Black)
    } else if s == seq!['-'] || is_blank(s) {
        Ok(Color::NoColor)
    } else {
        Err(ErrorModel::InvalidColor(s))
    }
}

impl Color {
    /// Decodes a color column; the error keeps the column as it stands.
    pub fn decode(s: &str) -> (r: core::result::Result<Color, TRFError>)
        ensures
            result_view(r) == color_of(s@),
    {
        let t = trimmed(s);
        proof {
            reveal_strlit("w");
            reveal_strlit("b");
            reveal_strlit("-");
            assert("w"@ =~= seq!['w']);
            assert("b"@ =~= seq!['b']);
            assert("-"@ =~= seq!['-']);
        }
        if same_text(s, "w") {
            Ok(Color::White)
        } else if same_text(s, "b") {
            Ok(Color::Black)
        } else if same_text(s, "-") || t.unicode_len() == 0 {
            Ok(Color::NoColor)
        } else {
            Err(TRFError::InvalidColorError(owned(s)))
        }
    }
}

/// The scheduled game was not played.
#[derive(Debug, Clone, Copy, PartialEq, Eq, Structural)]
pub enum NotPlayedRoundResult {
    /// Forfeit loss ("-").
    ForfeitLoss,
    /// Forfeit win ("+").
    ForfeitWin,
}

/// The scheduled game lasted less than one move. Not rated.
#[derive(Debug, Clone, Copy, PartialEq, Eq, Structural)]
pub enum LessThanOneMoveRoundResult {
    /// Win ("W").
    Win,
    /// Draw ("D").
    Draw,
    /// Loss ("L").
    Loss,
}

/// Regular game.
#[derive(Debug, Clone, Copy, PartialEq, Eq, Structural)]
pub enum RegularRoundResult {
    /// Win ("1").
    Win,
    /// Draw ("=").
    Draw,
    /// Loss ("0").
    Loss,
}

/// Bye. Not rated.
#[derive(Debug, Clone, Copy, PartialEq, Eq, Structural)]
pub enum ByeRoundResult {
    /// Half-point bye ("H").
    HalfPointBye,
    /// Full-point bye ("F").
    FullPointBye,
    /// Pairing-allocated bye, for a player the system left unpaired ("U").
    PairingAllocatedBye,
    /// Zero-point bye, a known absence ("Z" or blank).
    ZeroPointBye,
}

/// The outcome of a round, by family.
#[derive(Debug, Clone, Copy, PartialEq, Eq, Structural)]
pub enum Result {
    /// The scheduled game was not played.
    NotPlayed(NotPlayedRoundResult),
    /// The scheduled game lasted less than one move.
    LessThanOneMove(LessThanOneMoveRoundResult),
    /// Regular game.
    Regular(RegularRoundResult),
    /// Bye.
    Bye(ByeRoundResult),
}

impl View for Result {
    type V = Result;

    open spec fn view(&self) -> Result {
        *self
    }
}

/// The outcome that a single code character stands for, in either case.
pub open spec fn outcome_of_char(c: char) -> Option<Result> {
    if c == '-' {
        Some(Result::NotPlayed(NotPlayedRoundResult::ForfeitLoss))
    } else if c == '+' {
        Some(Result::NotPlayed(NotPlayedRoundResult::ForfeitWin))
    } else if c == 'W' || c == 'w' {
        Some(Result::LessThanOneMove(LessThanOneMoveRoundResult::Win))
    } else if c == 'D' || c == 'd' {
        Some(Result::LessThanOneMove(LessThanOneMoveRoundResult::Draw))
    } else if c == 'L' || c == 'l' {
        Some(Result::LessThanOneMove(LessThanOneMoveRoundResult::Loss))
    } else if c == '1' {
        Some(Result::Regular(RegularRoundResult::Win))
    } else if c == '=' {
        Some(Result::Regular(RegularRoundResult::Draw))
    } else if c == '0' {
        Some(Result::Regular(RegularRoundResult::Loss))
    } else if c == 'H' || c == 'h' {
        Some(Result::Bye(ByeRoundResult::HalfPointBye))
    } else if c == 'F' || c == 'f' {
        Some(Result::Bye(ByeRoundResult::FullPointBye))
    } else if c == 'U' || c == 'u' {
        Some(Result::Bye(ByeRoundResult::PairingAllocatedBye))
    } else if c == 'Z' || c == 'z' {
        Some(Result::Bye(ByeRoundResult::ZeroPointBye))
    } else {
        None
    }
}

/// The outcome column: exactly one code character, or blank (whitespace
/// only) for a zero-point bye; any other text, a code with whitespace around
/// it included, is invalid.
pub open spec fn outcome_of(s: Seq<char>) -> core::result::Result<Result, ErrorModel> {
    if is_blank(s) {
        Ok(Result::Bye(ByeRoundResult::ZeroPointBye))
    } else if s.len() == 1 && outcome_of_char(s[0]) is Some {
        Ok(outcome_of_char(s[0])->Some_0)
    } else {
        Err(ErrorModel::InvalidRoundResult(s))
    }
}

/// The code character of each game not played.
pub open spec fn not_played_code(r: NotPlayedRoundResult) -> char {
    match r {
        NotPlayedRoundResult::ForfeitLoss => '-',
        NotPlayedRoundResult::ForfeitWin => '+',
    }
}

/// The code character of each game of less than one move.
pub open spec fn less_than_one_move_code(r: LessThanOneMoveRoundResult) -> char {
    match r {
        LessThanOneMoveRoundResult::Win => 'W',
        LessThanOneMoveRoundResult::Draw => 'D',
        LessThanOneMoveRoundResult::Loss => 'L',
    }
}

/// The code character of each regular game.
pub open spec fn regular_code(r: RegularRoundResult) -> char {
    match r {
        RegularRoundResult::Win => '1',
        RegularRoundResult::Draw => '=',
        RegularRoundResult::Loss => '0',
    }
}

/// The code character of each bye.
pub open spec fn bye_code(r: ByeRoundResult) -> char {
    match r {
        ByeRoundResult::HalfPointBye => 'H',
        ByeRoundResult::FullPointBye => 'F',
        ByeRoundResult::PairingAllocatedBye => 'U',
        ByeRoundResult::ZeroPointBye => 'Z',
    }
}

/// The code character of each outcome, in upper case.
pub open spec fn outcome_code(r: Result) -> char {
    match r {
        Result::NotPlayed(x) => not_played_code(x),
        Result::LessThanOneMove(x) => less_than_one_move_code(x),
        Result::Regular(x) => regular_code(x),
        Result::Bye(x) => bye_code(x),
    }
}

impl NotPlayedRoundResult {
    /// The code character: "-" or "+".
    pub fn code(&self) -> (r: char)
        ensures
            r == not_played_code(*self),
    {
        match self {
            NotPlayedRoundResult::ForfeitLoss => '-',
            NotPlayedRoundResult::ForfeitWin => '+',
        }
    }
}

impl LessThanOneMoveRoundResult {
    /// The code character: "W", "D" or "L".
    pub fn code(&self) -> (r: char)
        ensures
            r == less_than_one_move_code(*self),
    {
        match self {
            LessThanOneMoveRoundResult::Win => 'W',
            LessThanOneMoveRoundResult::Draw => 'D',
            LessThanOneMoveRoundResult::Loss => 'L',
        }
    }
}

impl RegularRoundResult {
    /// The code character: "1", "=" or "0".
    pub fn code(&self) -> (r: char)
        ensures
            r == regular_code(*self),
    {
        match self {
            RegularRoundResult::Win => '1',
            RegularRoundResult::Draw => '=',
            RegularRoundResult::Loss => '0',
        }
    }
}

impl ByeRoundResult {
    /// The code character: "H", "F", "U" or "Z".
    pub fn code(&self) -> (r: char)
        ensures
            r == bye_code(*self),
    {
        match self {
            ByeRoundResult::HalfPointBye => 'H',
            ByeRoundResult::FullPointBye => 'F',
            ByeRoundResult::PairingAllocatedBye => 'U',
            ByeRoundResult::ZeroPointBye => 'Z',
        }
    }
}

fn outcome_of_code(c: char) -> (r: Option<Result>)
    ensures
        r == outcome_of_char(c),
{
    match c {
        '-' => Some(Result::NotPlayed(NotPlayedRoundResult::ForfeitLoss)),
        '+' => Some(Result::NotPlayed(NotPlayedRoundResult::ForfeitWin)),
        'W' | 'w' => Some(Result::LessThanOneMove(LessThanOneMoveRoundResult::Win)),
        'D' | 'd' => Some(Result::LessThanOneMove(LessThanOneMoveRoundResult::Draw)),
        'L' | 'l' => Some(Result::LessThanOneMove(LessThanOneMoveRoundResult::Loss)),
        '1' => Some(Result::Regular(RegularRoundResult::Win)),
        '=' => Some(Result::Regular(RegularRoundResult::Draw)),
        '0' => Some(Result::Regular(RegularRoundResult::Loss)),
        'H' | 'h' => Some(Result::Bye(ByeRoundResult::HalfPointBye)),
        'F' | 'f' => Some(Result::Bye(ByeRoundResult::FullPointBye)),
        'U' | 'u' => Some(Result::Bye(ByeRoundResult::PairingAllocatedBye)),
        'Z' | 'z' => Some(Result::Bye(ByeRoundResult::ZeroPointBye)),
        _ => None,
    }
}

impl Result {
    /// Decodes an outcome column, case-insensitively; the error keeps the
    /// column as it stands.
    pub fn decode(s: &str) -> (r: core::result::Result<Result, TRFError>)
        ensures
            result_view(r) == outcome_of(s@),
    {
        let t = trimmed(s);
        if t.unicode_len() == 0 {
            return Ok(Result::Bye(ByeRoundResult::ZeroPointBye));
        }
        if s.unicode_len() == 1 {
            match outcome_of_code(s.get_char(0)) {
                Some(r) => {
                    return Ok(r);
                },
                None => {},
            }
        }
        Err(TRFError::InvalidRoundResultError(owned(s)))
    }

    /// The outcome's code character, in upper case ("1", "=", "H", ...).
    pub fn code(&self) -> (r: char)
        ensures
            r == outcome_code(*self),
    {
        match self {
            Result::NotPlayed(x) => x.code(),
            Result::LessThanOneMove(x) => x.code(),
            Result::Regular(x) => x.code(),
            Result::Bye(x) => x.code(),
        }
    }
}

/// Every outcome's code decodes back to that outcome.
pub proof fn lemma_outcome_code_round_trip(r: Result)
    ensures
        outcome_of_char(outcome_code(r)) == Some(r),
{
}

} // verus!

verus! {

/// Width of a round block: opponent (4), space, color, space, outcome.
pub const ROUND_BLOCK_WIDTH: usize = 8;

/// What a round block decodes to, field by field.
pub struct RoundModel {
    pub id: core::result::Result<Option<u16>, ErrorModel>,
    pub color: core::result::Result<Color, ErrorModel>,
    pub result: core::result::Result<Result, ErrorModel>,
}

/// The opponent column: "0000" or blank for none, else a starting rank.
pub open spec fn opponent_of(s: Seq<char>) -> core::result::Result<Option<u16>, ErrorModel> {
    let t = trim(s);
    if t == seq!['0', '0', '0', '0'] || t.len() == 0 {
        Ok(None)
    } else {
        match number_field(s, 0xffff) {
            Ok(Some(v)) => Ok(Some(v as u16)),
            Ok(None) => Ok(None),
            Err(e) => Err(e),
        }
    }
}

/// A round block: too short a block is an error; otherwise each of its
/// three fields is decoded on its own.
pub open spec fn round_of(b: Seq<char>) -> core::result::Result<RoundModel, ErrorModel> {
    if b.len() < ROUND_BLOCK_WIDTH {
        Err(ErrorModel::RoundSectionTooShort(b))
    } else {
        Ok(
            RoundModel {
                id: opponent_of(b.subrange(0, 4)),
                color: color_of(b.subrange(5, 6)),
                result: outcome_of(b.subrange(7, 8)),
            },
        )
    }
}

/// A player's result in one round.
#[derive(Debug)]
pub struct PlayerRoundSection {
    /// Opponent's starting rank, or none for a bye or an unpaired round.
    id: core::result::Result<Option<u16>, TRFError>,
    /// Scheduled color.
    color: core::result::Result<Color, TRFError>,
    /// Outcome.
    result: core::result::Result<Result, TRFError>,
}

impl View for PlayerRoundSection {
    type V = RoundModel;

    closed spec fn view(&self) -> RoundModel {
        RoundModel {
            id: field_view(self.id),
            color: result_view(self.color),
            result: result_view(self.result),
        }
    }
}

fn opponent(s: &str) -> (r: core::result::Result<Option<u16>, TRFError>)
    ensures
        field_view(r) == opponent_of(s@),
{
    let t = trimmed(s);
    proof {
        reveal_strlit("0000");
        assert("0000"@ =~= seq!['0', '0', '0', '0']);
    }
    if same_text(t, "0000") || t.unicode_len() == 0 {
        return Ok(None);
    }
    match parse_number(s, 0xffff) {
        Ok(Some(v)) => Ok(Some(v as u16)),
        Ok(None) => Ok(None),
        Err(e) => Err(e),
    }
}

impl PlayerRoundSection {
    /// Decodes a round block of at least eight columns; columns past the
    /// eighth are not read.
    pub fn decode(block: &str) -> (r: core::result::Result<PlayerRoundSection, TRFError>)
        ensures
            result_view(r) == round_of(block@),
    {
        let n = block.unicode_len();
        if n < ROUND_BLOCK_WIDTH {
            return Err(TRFError::PlayerRoundSectionTooShort(owned(block)));
        }
        let id = opponent(block.substring_char(0, 4));
        let color = Color::decode(block.substring_char(5, 6));
        let result = Result::decode(block.substring_char(7, 8));
        Ok(PlayerRoundSection { id, color, result })
    }

    /// The opponent's starting rank; `Ok(None)` for none.
    pub fn id(&self) -> (r: core::result::Result<&Option<u16>, &TRFError>)
        ensures
            ref_field_view(r) == self@.id,
    {
        self.id.as_ref()
    }

    /// The scheduled color.
    pub fn color(&self) -> (r: core::result::Result<&Color, &TRFError>)
        ensures
            ref_result_view(r) == self@.color,
    {
        self.color.as_ref()
    }

    /// The outcome.
    pub fn result(&self) -> (r: core::result::Result<&Result, &TRFError>)
        ensures
            ref_result_view(r) == self@.result,
    {
        self.result.as_ref()
    }
}

} // verus!
