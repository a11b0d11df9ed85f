//! The whole report: splitting it into lines, telling record types apart,
//! and collecting the player records.
use vstd::prelude::*;
use crate::error::{ErrorModel, TRFError};
use crate::player::{Section, SectionModel, section_of};
use crate::text::{chars_of, owned, push_char, same_text};

verus! {

/// What a line holds, by its data identification number.
#[derive(Debug, Clone, Copy, PartialEq, Eq, Structural)]
pub enum RecordKind {
    /// `001`: player data, the one record that is decoded.
    PlayerData,
    /// `012`
    TournamentName,
    /// `022`
    City,
    /// `032`
    Federation,
    /// `042`
    DateOfStart,
    /// `052`
    DateOfEnd,
    /// `062`
    NumberOfPlayers,
    /// `072`
    NumberOfRatedPlayers,
    /// `082`
    NumberOfTeams,
    /// `092`
    TypeOfTournament,
    /// `102`
    ChiefArbiter,
    /// `112`
    DeputyChiefArbiter,
    /// `122`
    AllottedTime,
    /// `132`
    DatesOfRounds,
    /// `013`
    TeamData,
    /// `XXR`: JaVaFo extension.
    JavafoExtension,
    /// `XRS`: extension found in Tornelo files.
    SourceExtension,
    /// `DAT`: Tornelo extension.
    TorneloExtension,
    /// Any other code.
    Unknown,
}

/// The kind of record that the code `c` stands for.
pub open spec fn kind_of(c: Seq<char>) -> RecordKind {
    if c == seq!['0', '0', '1'] {
        RecordKind::PlayerData
    } else if c == seq!['0', '1', '2'] {
        RecordKind::TournamentName
    } else if c == seq!['0', '2', '2'] {
        RecordKind::City
    } else if c == seq!['0', '3', '2'] {
        RecordKind::Federation
    } else if c == seq!['0', '4', '2'] {
        RecordKind::DateOfStart
    } else if c == seq!['0', '5', '2'] {
        RecordKind::DateOfEnd
    } else if c == seq!['0', '6', '2'] {
        RecordKind::NumberOfPlayers
    } else if c == seq!['0', '7', '2'] {
        RecordKind::NumberOfRatedPlayers
    } else if c == seq!['0', '8', '2'] {
        RecordKind::NumberOfTeams
    } else if c == seq!['0', '9', '2'] {
        RecordKind::TypeOfTournament
    } else if c == seq!['1', '0', '2'] {
        RecordKind::ChiefArbiter
    } else if c == seq!['1', '1', '2'] {
        RecordKind::DeputyChiefArbiter
    } else if c == seq!['1', '2', '2'] {
        RecordKind::AllottedTime
    } else if c == seq!['1', '3', '2'] {
        RecordKind::DatesOfRounds
    } else if c == seq!['0', '1', '3'] {
        RecordKind::TeamData
    } else if c == seq!['X', 'X', 'R'] {
        RecordKind::JavafoExtension
    } else if c == seq!['X', 'R', 'S'] {
        RecordKind::SourceExtension
    } else if c == seq!['D', 'A', 'T'] {
        RecordKind::TorneloExtension
    } else {
        RecordKind::Unknown
    }
}

impl RecordKind {
    /// The kind of record that a data identification number stands for.
    pub fn of(c: &str) -> (r: RecordKind)
        ensures
            r == kind_of(c@),
    {
        proof {
            reveal_strlit("001");
            reveal_strlit("012");
            reveal_strlit("022");
            reveal_strlit("032");
            reveal_strlit("042");
            reveal_strlit("052");
            reveal_strlit("062");
            reveal_strlit("072");
            reveal_strlit("082");
            reveal_strlit("092");
            reveal_strlit("102");
            reveal_strlit("112");
            reveal_strlit("122");
            reveal_strlit("132");
            reveal_strlit("013");
            reveal_strlit("XXR");
            reveal_strlit("XRS");
            reveal_strlit("DAT");
            assert("001"@ =~= seq!['0', '0', '1']);
            assert("012"@ =~= seq!['0', '1', '2']);
            assert("022"@ =~= seq!['0', '2', '2']);
            assert("032"@ =~= seq!['0', '3', '2']);
            assert("042"@ =~= seq!['0', '4', '2']);
            assert("052"@ =~= seq!['0', '5', '2']);
            assert("062"@ =~= seq!['0', '6', '2']);
            assert("072"@ =~= seq!['0', '7', '2']);
            assert("082"@ =~= seq!['0', '8', '2']);
            assert("092"@ =~= seq!['0', '9', '2']);
            assert("102"@ =~= seq!['1', '0', '2']);
            assert("112"@ =~= seq!['1', '1', '2']);
            assert("122"@ =~= seq!['1', '2', '2']);
            assert("132"@ =~= seq!['1', '3', '2']);
            assert("013"@ =~= seq!['0', '1', '3']);
            assert("XXR"@ =~= seq!['X', 'X', 'R']);
            assert("XRS"@ =~= seq!['X', 'R', 'S']);
            assert("DAT"@ =~= seq!['D', 'A', 'T']);
        }
        if same_text(c, "001") {
            RecordKind::PlayerData
        } else if same_text(c, "012") {
            RecordKind::TournamentName
        } else if same_text(c, "022") {
            RecordKind::City
        } else if same_text(c, "032") {
            RecordKind::Federation
        } else if same_text(c, "042") {
            RecordKind::DateOfStart
        } else if same_text(c, "052") {
            RecordKind::DateOfEnd
        } else if same_text(c, "062") {
            RecordKind::NumberOfPlayers
        } else if same_text(c, "072") {
            RecordKind::NumberOfRatedPlayers
        } else if same_text(c, "082") {
            RecordKind::NumberOfTeams
        } else if same_text(c, "092") {
            RecordKind::TypeOfTournament
        } else if same_text(c, "102") {
            RecordKind::ChiefArbiter
        } else if same_text(c, "112") {
            RecordKind::DeputyChiefArbiter
        } else if same_text(c, "122") {
            RecordKind::AllottedTime
        } else if same_text(c, "132") {
            RecordKind::DatesOfRounds
        } else if same_text(c, "013") {
            RecordKind::TeamData
        } else if same_text(c, "XXR") {
            RecordKind::JavafoExtension
        } else if same_text(c, "XRS") {
            RecordKind::SourceExtension
        } else if same_text(c, "DAT") {
            RecordKind::TorneloExtension
        } else {
            RecordKind::Unknown
        }
    }
}

} // verus!

verus! {

/// The line separator of a report: a carriage return wherever the text holds
/// one, else a line feed.
pub open spec fn separator_of(text: Seq<char>) -> char {
    if text.contains('\r') {
        '\r'
    } else {
        '\n'
    }
}

/// `s` cut at every `sep`: one more piece than there are separators, each
/// without its separator.
pub open spec fn split_on(s: Seq<char>, sep: char) -> Seq<Seq<char>>
    decreases s.len(),
{
    if s.len() == 0 {
        seq![seq![]]
    } else {
        let r = split_on(s.drop_last(), sep);
        if s.last() == sep {
            r.push(seq![])
        } else {
            r.update(r.len() - 1, r.last().push(s.last()))
        }
    }
}

/// The lines of a report.
pub open spec fn lines_of(text: Seq<char>) -> Seq<Seq<char>> {
    split_on(text, separator_of(text))
}

/// A line with a record: longer than its code and separator.
pub open spec fn is_record(line: Seq<char>) -> bool {
    line.len() > 4
}

/// The data identification number of a record.
pub open spec fn code_of(line: Seq<char>) -> Seq<char> {
    line.subrange(0, 3)
}

/// What follows the code and its separator.
pub open spec fn payload_of(line: Seq<char>) -> Seq<char> {
    line.subrange(4, line.len() as int)
}

/// The player records that the lines decode to, in order; a player line
/// that does not decode is left out.
pub open spec fn players_of(lines: Seq<Seq<char>>) -> Seq<SectionModel>
    decreases lines.len(),
{
    if lines.len() == 0 {
        seq![]
    } else {
        let prev = players_of(lines.drop_last());
        let l = lines.last();
        if is_record(l) && kind_of(code_of(l)) == RecordKind::PlayerData && section_of(
            payload_of(l),
        ) is Ok {
            prev.push(section_of(payload_of(l))->Ok_0)
        } else {
            prev
        }
    }
}

/// A note on the decoding of a report that is no part of its result.
#[derive(Debug)]
pub enum Advisory {
    /// The report separates its lines with line feeds, not carriage returns.
    LineFeedSeparator,
    /// A record was seen: its kind, its code, and the text after the code.
    Record(RecordKind, String, String),
    /// A player line (its text after the code) that did not decode, and why.
    PlayerNotDecoded(String, TRFError),
}

/// What an [`Advisory`] says, with its texts as character sequences.
pub enum AdvisoryModel {
    LineFeedSeparator,
    Record(RecordKind, Seq<char>, Seq<char>),
    PlayerNotDecoded(Seq<char>, ErrorModel),
}

impl View for Advisory {
    type V = AdvisoryModel;

    open spec fn view(&self) -> AdvisoryModel {
        match self {
            Advisory::LineFeedSeparator => AdvisoryModel::LineFeedSeparator,
            Advisory::Record(k, c, p) => AdvisoryModel::Record(*k, c@, p@),
            Advisory::PlayerNotDecoded(p, e) => AdvisoryModel::PlayerNotDecoded(p@, e@),
        }
    }
}

/// The notes on one line: none for a line too short to hold a record; else
/// its kind, and for a player line that does not decode, the error.
pub open spec fn line_advisories(l: Seq<char>) -> Seq<AdvisoryModel> {
    if !is_record(l) {
        seq![]
    } else {
        let rec = AdvisoryModel::Record(kind_of(code_of(l)), code_of(l), payload_of(l));
        if kind_of(code_of(l)) == RecordKind::PlayerData {
            match section_of(payload_of(l)) {
                Ok(_) => seq![rec],
                Err(e) => seq![rec, AdvisoryModel::PlayerNotDecoded(payload_of(l), e)],
            }
        } else {
            seq![rec]
        }
    }
}

pub open spec fn advisories_of_lines(lines: Seq<Seq<char>>) -> Seq<AdvisoryModel>
    decreases lines.len(),
{
    if lines.len() == 0 {
        seq![]
    } else {
        advisories_of_lines(lines.drop_last()) + line_advisories(lines.last())
    }
}

/// The notes on a whole report, in order: first whether it separates its
/// lines with line feeds, then the notes on each line.
pub open spec fn advisories_of(text: Seq<char>) -> Seq<AdvisoryModel> {
    let head = if separator_of(text) == '\n' {
        seq![AdvisoryModel::LineFeedSeparator]
    } else {
        seq![]
    };
    head + advisories_of_lines(lines_of(text))
}

/// A tournament: the root of what a report decodes to.
#[derive(Debug)]
pub struct Situation {
    /// The player records, in file order.
    players: Vec<Section>,
}

impl View for Situation {
    type V = Seq<SectionModel>;

    closed spec fn view(&self) -> Seq<SectionModel> {
        self.players@.map_values(|s: Section| s@)
    }
}

fn contains_char(cs: &Vec<char>, c: char) -> (r: bool)
    ensures
        r == cs@.contains(c),
{
    let mut i: usize = 0;
    while i < cs.len()
        invariant
            i <= cs@.len(),
            forall|k: int| 0 <= k < i ==> cs@[k] != c,
        decreases cs@.len() - i,
    {
        if cs[i] == c {
            assert(cs@[i as int] == c);
            return true;
        }
        i = i + 1;
    }
    false
}

/// Takes in one line: notes its record, and keeps a player record that decodes.
fn take_line(line: &str, players: &mut Vec<Section>, notes: &mut Vec<Advisory>)
    ensures
        final(players)@.map_values(|s: Section| s@) == old(players)@.map_values(|s: Section| s@)
            + players_of(seq![line@]),
        final(notes)@.map_values(|a: Advisory| a@) == old(notes)@.map_values(|a: Advisory| a@)
            + line_advisories(line@),
{
    proof {
        let ls = seq![line@];
        assert(ls.drop_last() =~= Seq::<Seq<char>>::empty());
        assert(ls.last() == line@);
        assert(players_of(Seq::<Seq<char>>::empty()) == Seq::<SectionModel>::empty());
    }
    let n = line.unicode_len();
    if n <= 4 {
        proof {
            assert(old(players)@.map_values(|s: Section| s@) + seq![] =~= old(players)@.map_values(|s: Section| s@));
            assert(old(notes)@.map_values(|a: Advisory| a@) + seq![] =~= old(notes)@.map_values(|a: Advisory| a@));
        }
        return;
    }
    let code = line.substring_char(0, 3);
    let kind = RecordKind::of(code);
    let payload = line.substring_char(4, n);
    notes.push(Advisory::Record(kind, owned(code), owned(payload)));
    if kind == RecordKind::PlayerData {
        match Section::decode(payload) {
            Ok(s) => {
                players.push(s);
            },
            Err(e) => {
                notes.push(Advisory::PlayerNotDecoded(owned(payload), e));
            },
        }
    }
    proof {
        assert(players@.map_values(|s: Section| s@) =~= old(players)@.map_values(|s: Section| s@)
            + players_of(seq![line@]));
        assert(notes@.map_values(|a: Advisory| a@) =~= old(notes)@.map_values(|a: Advisory| a@)
            + line_advisories(line@));
    }
}

} // verus!

verus! {

proof fn lemma_lines_push(done: Seq<Seq<char>>, l: Seq<char>)
    ensures
        players_of(done.push(l)) == players_of(done) + players_of(seq![l]),
        advisories_of_lines(done.push(l)) == advisories_of_lines(done) + line_advisories(l),
{
    assert(done.push(l).drop_last() =~= done);
    assert(seq![l].drop_last() =~= Seq::<Seq<char>>::empty());
    assert(players_of(Seq::<Seq<char>>::empty()) == Seq::<SectionModel>::empty());
    assert(players_of(done) + Seq::<SectionModel>::empty() =~= players_of(done));
    assert(players_of(done).push(section_of(payload_of(l))->Ok_0) =~= players_of(done) + seq![
        section_of(payload_of(l))->Ok_0,
    ]);
    assert(Seq::<SectionModel>::empty().push(section_of(payload_of(l))->Ok_0) =~= seq![
        section_of(payload_of(l))->Ok_0,
    ]);
}

impl Situation {
    /// Decodes a whole report: its player records, in file order, and the
    /// notes taken on the way. Nothing in the text makes it fail: a player
    /// line that does not decode is left out, with a note.
    pub fn decode(text: &str) -> (r: (Situation, Vec<Advisory>))
        ensures
            r.0@ == players_of(lines_of(text@)),
            r.1@.map_values(|a: Advisory| a@) == advisories_of(text@),
    {
        let cs = chars_of(text);
        let sep: char = if contains_char(&cs, '\r') {
            '\r'
        } else {
            '\n'
        };
        let mut players: Vec<Section> = Vec::new();
        let mut notes: Vec<Advisory> = Vec::new();
        if sep == '\n' {
            notes.push(Advisory::LineFeedSeparator);
        }
        let ghost head = notes@.map_values(|a: Advisory| a@);
        let ghost mut done: Seq<Seq<char>> = seq![];
        let mut line = String::new();
        proof {
            assert(cs@.subrange(0, 0) =~= Seq::<char>::empty());
            assert(head + advisories_of_lines(done) =~= head);
            assert(players@.map_values(|s: Section| s@) =~= players_of(done));
        }
        let mut i: usize = 0;
        while i < cs.len()
            invariant
                cs@ == text@,
                sep == separator_of(text@),
                i <= cs@.len(),
                split_on(cs@.subrange(0, i as int), sep) == done.push(line@),
                players@.map_values(|s: Section| s@) == players_of(done),
                notes@.map_values(|a: Advisory| a@) == head + advisories_of_lines(done),
                head == (if sep == '\n' {
                    seq![AdvisoryModel::LineFeedSeparator]
                } else {
                    seq![]
                }),
            decreases cs@.len() - i,
        {
            let c = cs[i];
            proof {
                assert(cs@.subrange(0, i + 1).drop_last() =~= cs@.subrange(0, i as int));
                assert(cs@.subrange(0, i + 1).last() == c);
            }
            if c == sep {
                take_line(line.as_str(), &mut players, &mut notes);
                proof {
                    lemma_lines_push(done, line@);
                    assert(head + advisories_of_lines(done) + line_advisories(line@) =~= head
                        + (advisories_of_lines(done) + line_advisories(line@)));
                    done = done.push(line@);
                }
                line = String::new();
            } else {
                let ghost before = line@;
                push_char(&mut line, c);
                proof {
                    assert(done.push(before).update(done.len() as int, before.push(c)) =~= done.push(line@));
                }
            }
            i = i + 1;
        }
        take_line(line.as_str(), &mut players, &mut notes);
        proof {
            assert(cs@.subrange(0, cs@.len() as int) =~= cs@);
            lemma_lines_push(done, line@);
            assert(head + advisories_of_lines(done) + line_advisories(line@) =~= head
                + (advisories_of_lines(done) + line_advisories(line@)));
        }
        (Situation { players }, notes)
    }

    /// The player records, in file order.
    pub fn players(&self) -> (r: &[Section])
        ensures
            r@.map_values(|s: Section| s@) == self@,
    {
        self.players.as_slice()
    }
}

} // verus!

verus! {

/// Decoding is a function of the text alone: two decodings of one text give
/// the same player records and the same notes.
pub proof fn lemma_decode_idempotent(
    text: Seq<char>,
    first: (Situation, Vec<Advisory>),
    second: (Situation, Vec<Advisory>),
)
    requires
        first.0@ == players_of(lines_of(text)),
        first.1@.map_values(|a: Advisory| a@) == advisories_of(text),
        second.0@ == players_of(lines_of(text)),
        second.1@.map_values(|a: Advisory| a@) == advisories_of(text),
    ensures
        first.0@ == second.0@,
        first.1@.map_values(|a: Advisory| a@) == second.1@.map_values(|a: Advisory| a@),
{
}

/// The text with each carriage return replaced by a line feed.
pub open spec fn cr_to_lf(t: Seq<char>) -> Seq<char> {
    t.map_values(|c: char| if c == '\r' { '\n' } else { c })
}

proof fn lemma_split_cr_lf(t: Seq<char>)
    requires
        !t.contains('\n'),
    ensures
        split_on(cr_to_lf(t), '\n') == split_on(t, '\r'),
    decreases t.len(),
{
    if t.len() > 0 {
        let u = cr_to_lf(t);
        assert(u.drop_last() =~= cr_to_lf(t.drop_last()));
        assert(!t.drop_last().contains('\n')) by {
            if t.drop_last().contains('\n') {
                let k = choose|k: int| 0 <= k < t.drop_last().len() && t.drop_last()[k] == '\n';
                assert(t[k] == '\n');
            }
        }
        lemma_split_cr_lf(t.drop_last());
        assert(t.last() != '\n') by {
            if t.last() == '\n' {
                assert(t[t.len() - 1] == '\n');
            }
        }
    }
}

/// A report that separates its lines with line feeds decodes to the same
/// player records as the same report with carriage returns, and the
/// fallback is noted first.
pub proof fn lemma_line_feed_fallback(t: Seq<char>)
    requires
        !t.contains('\n'),
    ensures
        players_of(lines_of(cr_to_lf(t))) == players_of(lines_of(t)),
        advisories_of(cr_to_lf(t))[0] == AdvisoryModel::LineFeedSeparator,
{
    let u = cr_to_lf(t);
    assert(!u.contains('\r')) by {
        if u.contains('\r') {
            let k = choose|k: int| 0 <= k < u.len() && u[k] == '\r';
            assert(u[k] == (if t[k] == '\r' { '\n' } else { t[k] }));
        }
    }
    lemma_split_cr_lf(t);
    if !t.contains('\r') {
        assert(u =~= t) by {
            assert forall|k: int| 0 <= k < t.len() implies u[k] == t[k] by {
                if t[k] == '\r' {
                    assert(t.contains('\r'));
                }
            }
        }
    }
}

} // verus!

verus! {

/// The lines `ls` written one after another, with `sep` between each two.
pub open spec fn join_lines(ls: Seq<Seq<char>>, sep: char) -> Seq<char>
    decreases ls.len(),
{
    if ls.len() <= 1 {
        if ls.len() == 1 {
            ls[0]
        } else {
            seq![]
        }
    } else {
        join_lines(ls.drop_last(), sep) + seq![sep] + ls.last()
    }
}

proof fn lemma_split_nonempty(s: Seq<char>, sep: char)
    ensures
        split_on(s, sep).len() >= 1,
    decreases s.len(),
{
    if s.len() > 0 {
        lemma_split_nonempty(s.drop_last(), sep);
    }
}

proof fn lemma_split_append(x: Seq<char>, y: Seq<char>, sep: char)
    requires
        !y.contains(sep),
    ensures
        split_on(x + y, sep) == split_on(x, sep).update(
            split_on(x, sep).len() - 1,
            split_on(x, sep).last() + y,
        ),
    decreases y.len(),
{
    lemma_split_nonempty(x, sep);
    let r = split_on(x, sep);
    if y.len() == 0 {
        assert(x + y =~= x);
        assert(r.last() + y =~= r.last());
        assert(r.update(r.len() - 1, r.last()) =~= r);
    } else {
        let y0 = y.drop_last();
        assert(!y0.contains(sep)) by {
            if y0.contains(sep) {
                let k = choose|k: int| 0 <= k < y0.len() && y0[k] == sep;
                assert(y[k] == sep);
            }
        }
        assert(y.last() != sep) by {
            if y.last() == sep {
                assert(y[y.len() - 1] == sep);
            }
        }
        lemma_split_append(x, y0, sep);
        assert((x + y).drop_last() =~= x + y0);
        assert((x + y).last() == y.last());
        let r0 = split_on(x + y0, sep);
        assert(r0.update(r0.len() - 1, r0.last().push(y.last())) =~= r.update(
            r.len() - 1,
            r.last() + y,
        )) by {
            assert(r0.len() == r.len());
            assert(r0[r.len() - 1] == r.last() + y0);
            assert(r0.last() == r.last() + y0);
            assert((r.last() + y0).push(y.last()) =~= r.last() + y);
        }
    }
}

proof fn lemma_split_join(ls: Seq<Seq<char>>, sep: char)
    requires
        ls.len() >= 1,
        forall|k: int| 0 <= k < ls.len() ==> !(#[trigger] ls[k]).contains(sep),
    ensures
        split_on(join_lines(ls, sep), sep) == ls,
    decreases ls.len(),
{
    if ls.len() == 1 {
        lemma_split_append(seq![], ls[0], sep);
        assert(Seq::<char>::empty() + ls[0] =~= ls[0]);
        assert(Seq::<Seq<char>>::empty().push(Seq::<char>::empty()) =~= seq![seq![]]);
        assert(seq![Seq::<char>::empty()].update(0, Seq::<char>::empty() + ls[0]) =~= ls);
    } else {
        let init = ls.drop_last();
        assert(forall|k: int| 0 <= k < init.len() ==> !(#[trigger] init[k]).contains(sep)) by {
            assert forall|k: int| 0 <= k < init.len() implies !(#[trigger] init[k]).contains(
                sep,
            ) by {
                assert(init[k] == ls[k]);
            }
        }
        lemma_split_join(init, sep);
        let x = join_lines(init, sep) + seq![sep];
        assert(!ls.last().contains(sep)) by {
            assert(ls.last() == ls[ls.len() - 1]);
        }
        lemma_split_append(x, ls.last(), sep);
        assert(x.drop_last() =~= join_lines(init, sep));
        assert(x.last() == sep);
        assert(split_on(x, sep) == init.push(seq![]));
        assert(Seq::<char>::empty() + ls.last() =~= ls.last());
        assert(init.push(seq![]).update(init.len() as int, Seq::<char>::empty() + ls.last())
            =~= ls);
    }
}

proof fn lemma_join_avoids(ls: Seq<Seq<char>>, sep: char, c: char)
    requires
        c != sep,
        forall|k: int| 0 <= k < ls.len() ==> !(#[trigger] ls[k]).contains(c),
    ensures
        !join_lines(ls, sep).contains(c),
    decreases ls.len(),
{
    if ls.len() == 1 {
        assert(!ls[0].contains(c));
    } else if ls.len() > 1 {
        let init = ls.drop_last();
        assert forall|k: int| 0 <= k < init.len() implies !(#[trigger] init[k]).contains(c) by {
            assert(init[k] == ls[k]);
        }
        lemma_join_avoids(init, sep, c);
        let j = join_lines(ls, sep);
        let a = join_lines(init, sep);
        let b = ls.last();
        assert(!b.contains(c)) by {
            assert(b == ls[ls.len() - 1]);
        }
        if j.contains(c) {
            let k = choose|k: int| 0 <= k < j.len() && j[k] == c;
            if k < a.len() {
                assert(j[k] == a[k]);
            } else if k == a.len() {
                assert(j[k] == sep);
            } else {
                assert(j[k] == b[k - a.len() - 1]);
            }
        }
    }
}

/// A report whose lines are separated by line feeds alone is read line by
/// line as written: every player line among them is decoded, in order, and
/// the fallback is noted first.
pub proof fn lemma_line_feed_report(ls: Seq<Seq<char>>)
    requires
        ls.len() >= 1,
        forall|k: int|
            0 <= k < ls.len() ==> !(#[trigger] ls[k]).contains('\n') && !ls[k].contains('\r'),
    ensures
        lines_of(join_lines(ls, '\n')) == ls,
        players_of(lines_of(join_lines(ls, '\n'))) == players_of(ls),
        advisories_of(join_lines(ls, '\n'))[0] == AdvisoryModel::LineFeedSeparator,
{
    lemma_join_avoids(ls, '\n', '\r');
    lemma_split_join(ls, '\n');
}

/// Players are collected line by line: the players of two runs of lines
/// are those of the first, then those of the second.
pub proof fn lemma_players_concat(a: Seq<Seq<char>>, b: Seq<Seq<char>>)
    ensures
        players_of(a + b) == players_of(a) + players_of(b),
    decreases b.len(),
{
    if b.len() == 0 {
        assert(a + b =~= a);
        assert(players_of(a) + Seq::<SectionModel>::empty() =~= players_of(a));
    } else {
        lemma_players_concat(a, b.drop_last());
        assert((a + b).drop_last() =~= a + b.drop_last());
        assert((a + b).last() == b.last());
        let m = section_of(payload_of(b.last()))->Ok_0;
        assert(players_of(a) + players_of(b.drop_last()).push(m) =~= (players_of(a)
            + players_of(b.drop_last())).push(m));
    }
}

/// A line that is not a player record changes no player, wherever it
/// stands among the others.
pub proof fn lemma_other_line_ignored(a: Seq<Seq<char>>, l: Seq<char>, b: Seq<Seq<char>>)
    requires
        !is_record(l) || kind_of(code_of(l)) != RecordKind::PlayerData,
    ensures
        players_of(a + seq![l] + b) == players_of(a + b),
{
    lemma_players_concat(a + seq![l], b);
    lemma_players_concat(a, seq![l]);
    lemma_players_concat(a, b);
    assert(seq![l].drop_last() =~= Seq::<Seq<char>>::empty());
    assert(players_of(Seq::<Seq<char>>::empty()) == Seq::<SectionModel>::empty());
    assert(players_of(seq![l]) == Seq::<SectionModel>::empty());
    assert(players_of(a) + Seq::<SectionModel>::empty() =~= players_of(a));
}

} // verus!
