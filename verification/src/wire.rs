//! The JSON the host writes for bots and subscribers.
//!
//! The stdin snapshot is a stable wire format bots rely on:
//! `{"botname":"<str>","opponent":"<str>","round":<u32>,"history":[<play>,..]}`
//! where a play is its integer code. Strings are escaped as JSON requires.

use vstd::prelude::*;
use vstd::string::StrSliceExecFns;
use vstd::string::StringExecFns;

use crate::bots::BotDetails;
use crate::bots::BotDetailsView;
use crate::bots::BotRunInput;
use crate::bots::run_type_code;
use crate::bots::spec_run_type_code;
use crate::bracket::Match;
use crate::bracket::MatchView;
use crate::bracket::Tournament;
use crate::game::MatchOutcome;
use crate::game::MatchState;
use crate::game::ParticipantOutcome;
use crate::play::SPROption;
use crate::play::spec_play_code;
use crate::strutil::append_dec;
use crate::strutil::spec_dec;
use crate::strutil::string_push;

verus! {

/// The character for one hexadecimal digit, lower case.
pub open spec fn spec_hex_char(d: nat) -> char {
    if d < 10 {
        crate::strutil::spec_digit_char(d)
    } else if d == 10 {
        'a'
    } else if d == 11 {
        'b'
    } else if d == 12 {
        'c'
    } else if d == 13 {
        'd'
    } else if d == 14 {
        'e'
    } else {
        'f'
    }
}

/// How one character appears inside a JSON string literal: quote, backslash
/// and the named control characters get a two-character escape, the other
/// control characters a `\u00..` escape, and everything else stands as it is.
pub open spec fn spec_escape_char(c: char) -> Seq<char> {
    if c == '"' {
        seq!['\\', '"']
    } else if c == '\\' {
        seq!['\\', '\\']
    } else if c == '\n' {
        seq!['\\', 'n']
    } else if c == '\r' {
        seq!['\\', 'r']
    } else if c == '\t' {
        seq!['\\', 't']
    } else if c == '\u{8}' {
        seq!['\\', 'b']
    } else if c == '\u{c}' {
        seq!['\\', 'f']
    } else if (c as u32) < 0x20 {
        seq!['\\', 'u', '0', '0', spec_hex_char((c as u32 / 16) as nat), spec_hex_char(
            (c as u32 % 16) as nat,
        )]
    } else {
        seq![c]
    }
}

/// A whole string escaped for JSON.
pub open spec fn spec_escape(s: Seq<char>) -> Seq<char>
    decreases s.len(),
{
    if s.len() == 0 {
        Seq::empty()
    } else {
        spec_escape(s.drop_last()) + spec_escape_char(s.last())
    }
}

/// A JSON string literal: the escaped text between double quotes.
pub open spec fn spec_quoted(s: Seq<char>) -> Seq<char> {
    seq!['"'] + spec_escape(s) + seq!['"']
}

fn hex_char(d: u32) -> (c: char)
    requires
        d < 16,
    ensures
        c == spec_hex_char(d as nat),
{
    if d == 10 {
        'a'
    } else if d == 11 {
        'b'
    } else if d == 12 {
        'c'
    } else if d == 13 {
        'd'
    } else if d == 14 {
        'e'
    } else if d == 15 {
        'f'
    } else {
        match d {
            0 => '0',
            1 => '1',
            2 => '2',
            3 => '3',
            4 => '4',
            5 => '5',
            6 => '6',
            7 => '7',
            8 => '8',
            _ => '9',
        }
    }
}

fn append_escaped_char(out: &mut String, c: char)
    ensures
        final(out)@ == old(out)@ + spec_escape_char(c),
{
    if c == '"' {
        string_push(out, '\\');
        string_push(out, '"');
    } else if c == '\\' {
        string_push(out, '\\');
        string_push(out, '\\');
    } else if c == '\n' {
        string_push(out, '\\');
        string_push(out, 'n');
    } else if c == '\r' {
        string_push(out, '\\');
        string_push(out, 'r');
    } else if c == '\t' {
        string_push(out, '\\');
        string_push(out, 't');
    } else if c == '\u{8}' {
        string_push(out, '\\');
        string_push(out, 'b');
    } else if c == '\u{c}' {
        string_push(out, '\\');
        string_push(out, 'f');
    } else if (c as u32) < 0x20 {
        string_push(out, '\\');
        string_push(out, 'u');
        string_push(out, '0');
        string_push(out, '0');
        string_push(out, hex_char(c as u32 / 16));
        string_push(out, hex_char(c as u32 % 16));
    } else {
        string_push(out, c);
    }
    assert(final(out)@ =~= old(out)@ + spec_escape_char(c));
}

/// Appends the text of `s`, escaped for JSON, to `out`.
fn append_escaped(out: &mut String, s: &str)
    ensures
        final(out)@ == old(out)@ + spec_escape(s@),
{
    let n = s.unicode_len();
    assert(s@.subrange(0, 0) =~= Seq::<char>::empty());
    for i in 0..n
        invariant
            n == s@.len(),
            out@ == old(out)@ + spec_escape(s@.subrange(0, i as int)),
    {
        let c = s.get_char(i);
        append_escaped_char(out, c);
        proof {
            let t = s@.subrange(0, i + 1 as int);
            assert(t.drop_last() =~= s@.subrange(0, i as int));
            assert(t.last() == s@[i as int]);
        }
    }
    assert(s@.subrange(0, n as int) =~= s@);
}

/// Appends a JSON string literal holding `s` to `out`.
fn append_quoted(out: &mut String, s: &str)
    ensures
        final(out)@ == old(out)@ + spec_quoted(s@),
{
    string_push(out, '"');
    append_escaped(out, s);
    string_push(out, '"');
    assert(final(out)@ =~= old(out)@ + spec_quoted(s@));
}

/// A history of plays as a JSON array body: the plays' integer codes
/// separated by commas.
pub open spec fn spec_history_json(h: Seq<SPROption>) -> Seq<char>
    decreases h.len(),
{
    if h.len() == 0 {
        Seq::empty()
    } else if h.len() == 1 {
        spec_dec(spec_play_code(h[0]))
    } else {
        spec_history_json(h.drop_last()) + seq![','] + spec_dec(spec_play_code(h.last()))
    }
}

fn append_history(out: &mut String, h: &Vec<SPROption>)
    ensures
        final(out)@ == old(out)@ + spec_history_json(h@),
{
    let n = h.len();
    for i in 0..n
        invariant
            n == h@.len(),
            out@ == old(out)@ + spec_history_json(h@.subrange(0, i as int)),
    {
        if i > 0 {
            string_push(out, ',');
        }
        append_dec(out, h[i].code() as u64);
        proof {
            let t = h@.subrange(0, i + 1 as int);
            assert(t.drop_last() =~= h@.subrange(0, i as int));
            assert(t.last() == h@[i as int]);
        }
    }
    assert(h@.subrange(0, n as int) =~= h@);
}

/// The whole stdin snapshot as JSON.
pub open spec fn spec_input_json(
    name: Seq<char>,
    opp: Seq<char>,
    round: nat,
    hist: Seq<SPROption>,
) -> Seq<char> {
    "{\"botname\":"@ + spec_quoted(name) + ",\"opponent\":"@ + spec_quoted(opp) + ",\"round\":"@
        + spec_dec(round) + ",\"history\":["@ + spec_history_json(hist) + "]}"@
}

impl BotRunInput {
    /// Serialises the snapshot in the stable stdin wire format.
    pub fn to_json(&self) -> (r: String)
        ensures
            r@ == spec_input_json(self.botname@, self.opponent@, self.round as nat, self.history@),
    {
        let mut out = String::new();
        out.append("{\"botname\":");
        append_quoted(&mut out, self.botname.as_str());
        out.append(",\"opponent\":");
        append_quoted(&mut out, self.opponent.as_str());
        out.append(",\"round\":");
        append_dec(&mut out, self.round as u64);
        out.append(",\"history\":[");
        append_history(&mut out, &self.history);
        out.append("]}");
        assert(out@ =~= spec_input_json(
            self.botname@,
            self.opponent@,
            self.round as nat,
            self.history@,
        ));
        out
    }
}

/// Copies a vector of plays.
pub fn clone_plays(v: &Vec<SPROption>) -> (r: Vec<SPROption>)
    ensures
        r@ == v@,
{
    let mut r: Vec<SPROption> = Vec::new();
    let n = v.len();
    for i in 0..n
        invariant
            n == v.len(),
            r@ == v@.subrange(0, i as int),
    {
        r.push(v[i]);
        assert(r@ =~= v@.subrange(0, i + 1 as int));
    }
    assert(r@ =~= v@);
    r
}

/// A match state on the wire: its name as a JSON string.
pub open spec fn spec_state_json(st: MatchState) -> Seq<char> {
    match st {
        MatchState::NotStarted => "\"NotStarted\""@,
        MatchState::Bye => "\"Bye\""@,
        MatchState::InProgress => "\"InProgress\""@,
        MatchState::Finished => "\"Finished\""@,
    }
}

fn append_state_json(out: &mut String, st: MatchState)
    ensures
        final(out)@ == old(out)@ + spec_state_json(st),
{
    match st {
        MatchState::NotStarted => out.append("\"NotStarted\""),
        MatchState::Bye => out.append("\"Bye\""),
        MatchState::InProgress => out.append("\"InProgress\""),
        MatchState::Finished => out.append("\"Finished\""),
    }
}

/// One participant's side of an outcome on the wire: its name, its plays'
/// integer codes, and whether it won.
pub open spec fn spec_participant_json(p: ParticipantOutcome) -> Seq<char> {
    "{\"name\":"@ + spec_quoted(p.name@) + ",\"moves\":["@ + spec_history_json(p.moves@) + "],\"winner\":"@
        + (if p.winner {
        "true"@
    } else {
        "false"@
    }) + "}"@
}

fn append_participant_json(out: &mut String, p: &ParticipantOutcome)
    ensures
        final(out)@ == old(out)@ + spec_participant_json(*p),
{
    out.append("{\"name\":");
    append_quoted(out, p.name.as_str());
    out.append(",\"moves\":[");
    append_history(out, &p.moves);
    out.append("],\"winner\":");
    if p.winner {
        out.append("true");
    } else {
        out.append("false");
    }
    out.append("}");
    assert(final(out)@ =~= old(out)@ + spec_participant_json(*p));
}

/// The participants of an outcome on the wire, comma-separated.
pub open spec fn spec_participants_json(ps: Seq<ParticipantOutcome>) -> Seq<char>
    decreases ps.len(),
{
    if ps.len() == 0 {
        Seq::empty()
    } else if ps.len() == 1 {
        spec_participant_json(ps[0])
    } else {
        spec_participants_json(ps.drop_last()) + seq![','] + spec_participant_json(ps.last())
    }
}

fn append_participants_json(out: &mut String, ps: &Vec<ParticipantOutcome>)
    ensures
        final(out)@ == old(out)@ + spec_participants_json(ps@),
{
    let n = ps.len();
    for i in 0..n
        invariant
            n == ps@.len(),
            out@ == old(out)@ + spec_participants_json(ps@.subrange(0, i as int)),
    {
        if i > 0 {
            string_push(out, ',');
        }
        append_participant_json(out, &ps[i]);
        proof {
            let t = ps@.subrange(0, i + 1 as int);
            assert(t.drop_last() =~= ps@.subrange(0, i as int));
            assert(t.last() == ps@[i as int]);
        }
    }
    assert(ps@.subrange(0, n as int) =~= ps@);
}

/// A whole emitted outcome on the wire — the broadcast event subscribers
/// read: the match id, the state's name, the note or `null`, the winning
/// index, and each participant's name, plays and winner flag.
pub open spec fn spec_outcome_json(o: MatchOutcome) -> Seq<char> {
    "{\"match_id\":"@ + spec_quoted(o.match_id@) + ",\"state\":"@ + spec_state_json(o.state)
        + ",\"note\":"@ + (match o.note {
        Option::Some(n) => spec_quoted(n@),
        Option::None => "null"@,
    }) + ",\"winner\":"@ + spec_dec(o.winner as nat) + ",\"participants\":["@
        + spec_participants_json(o.participants@) + "]}"@
}

impl MatchOutcome {
    /// Serialises the outcome in the broadcast wire format.
    pub fn to_json(&self) -> (r: String)
        ensures
            r@ == spec_outcome_json(*self),
    {
        let mut out = String::new();
        out.append("{\"match_id\":");
        append_quoted(&mut out, self.match_id.as_str());
        out.append(",\"state\":");
        append_state_json(&mut out, self.state);
        out.append(",\"note\":");
        match &self.note {
            Some(n) => append_quoted(&mut out, n.as_str()),
            None => out.append("null"),
        }
        out.append(",\"winner\":");
        append_dec(&mut out, self.winner as u64);
        out.append(",\"participants\":[");
        append_participants_json(&mut out, &self.participants);
        out.append("]}");
        assert(out@ =~= spec_outcome_json(*self));
        out
    }
}

/// A seated bot on the wire: its display name and its run-type tag. Source
/// text and module bytes stay out of the broadcast.
pub open spec fn spec_bot_json(b: BotDetailsView) -> Seq<char> {
    "{\"name\":"@ + spec_quoted(b.name) + ",\"run_type\":"@ + spec_dec(
        spec_run_type_code(b.run_type),
    ) + "}"@
}

fn append_bot_json(out: &mut String, b: &BotDetails)
    ensures
        final(out)@ == old(out)@ + spec_bot_json(b@),
{
    out.append("{\"name\":");
    append_quoted(out, b.name.as_str());
    out.append(",\"run_type\":");
    append_dec(out, run_type_code(b.run_type) as u64);
    out.append("}");
    assert(final(out)@ =~= old(out)@ + spec_bot_json(b@));
}

/// The seated bots of one match on the wire, comma-separated.
pub open spec fn spec_bots_json(bs: Seq<BotDetailsView>) -> Seq<char>
    decreases bs.len(),
{
    if bs.len() == 0 {
        Seq::empty()
    } else if bs.len() == 1 {
        spec_bot_json(bs[0])
    } else {
        spec_bots_json(bs.drop_last()) + seq![','] + spec_bot_json(bs.last())
    }
}

fn append_bots_json(out: &mut String, bs: &Vec<BotDetails>)
    ensures
        final(out)@ == old(out)@ + spec_bots_json(bs.deep_view()),
{
    let n = bs.len();
    for i in 0..n
        invariant
            n == bs@.len(),
            out@ == old(out)@ + spec_bots_json(bs.deep_view().subrange(0, i as int)),
    {
        if i > 0 {
            string_push(out, ',');
        }
        append_bot_json(out, &bs[i]);
        proof {
            let t = bs.deep_view().subrange(0, i + 1 as int);
            assert(t.drop_last() =~= bs.deep_view().subrange(0, i as int));
            assert(t.last() == bs.deep_view()[i as int]);
        }
    }
    assert(bs.deep_view().subrange(0, n as int) =~= bs.deep_view());
}

/// One bracket slot on the wire: its id, round label, successor (or
/// `null`), seated bots, and state.
pub open spec fn spec_match_json(m: MatchView) -> Seq<char> {
    "{\"id\":"@ + spec_quoted(m.id) + ",\"tournament_round_text\":"@ + spec_quoted(
        m.tournament_round_text,
    ) + ",\"next_match_id\":"@ + (match m.next_match_id {
        Option::Some(s) => spec_quoted(s),
        Option::None => "null"@,
    }) + ",\"participants\":["@ + spec_bots_json(m.participants) + "],\"state\":"@
        + spec_state_json(m.state) + "}"@
}

fn append_match_json(out: &mut String, m: &Match)
    ensures
        final(out)@ == old(out)@ + spec_match_json(m@),
{
    out.append("{\"id\":");
    append_quoted(out, m.id.as_str());
    out.append(",\"tournament_round_text\":");
    append_quoted(out, m.tournament_round_text.as_str());
    out.append(",\"next_match_id\":");
    match &m.next_match_id {
        Some(s) => append_quoted(out, s.as_str()),
        None => out.append("null"),
    }
    out.append(",\"participants\":[");
    append_bots_json(out, &m.participants);
    out.append("],\"state\":");
    append_state_json(out, m.state);
    out.append("}");
    assert(final(out)@ =~= old(out)@ + spec_match_json(m@));
}

/// A bracket's slots on the wire, comma-separated.
pub open spec fn spec_matches_json(ms: Seq<MatchView>) -> Seq<char>
    decreases ms.len(),
{
    if ms.len() == 0 {
        Seq::empty()
    } else if ms.len() == 1 {
        spec_match_json(ms[0])
    } else {
        spec_matches_json(ms.drop_last()) + seq![','] + spec_match_json(ms.last())
    }
}

/// A history of emitted outcomes on the wire, comma-separated.
pub open spec fn spec_updates_json(os: Seq<MatchOutcome>) -> Seq<char>
    decreases os.len(),
{
    if os.len() == 0 {
        Seq::empty()
    } else if os.len() == 1 {
        spec_outcome_json(os[0])
    } else {
        spec_updates_json(os.drop_last()) + seq![','] + spec_outcome_json(os.last())
    }
}

/// The whole tournament as a fresh subscriber first sees it: every bracket
/// slot and every outcome emitted so far.
pub open spec fn spec_tournament_json(t: Tournament) -> Seq<char> {
    "{\"starting_matches\":["@ + spec_matches_json(t.starting_matches.deep_view())
        + "],\"match_updates\":["@ + spec_updates_json(t.match_updates@) + "]}"@
}

impl Tournament {
    /// Serialises the whole tournament for a fresh subscriber.
    pub fn to_json(&self) -> (r: String)
        ensures
            r@ == spec_tournament_json(*self),
    {
        let mut out = String::new();
        out.append("{\"starting_matches\":[");
        let ghost head = out@;
        let n = self.starting_matches.len();
        let mut i: usize = 0;
        while i < n
            invariant
                n == self.starting_matches@.len(),
                i <= n,
                out@ == head + spec_matches_json(
                    self.starting_matches.deep_view().subrange(0, i as int),
                ),
            decreases n - i,
        {
            if i > 0 {
                string_push(&mut out, ',');
            }
            append_match_json(&mut out, &self.starting_matches[i]);
            proof {
                let t = self.starting_matches.deep_view().subrange(0, i + 1 as int);
                assert(t.drop_last() =~= self.starting_matches.deep_view().subrange(0, i as int));
                assert(t.last() == self.starting_matches.deep_view()[i as int]);
            }
            i = i + 1;
        }
        proof {
            assert(self.starting_matches.deep_view().subrange(0, n as int)
                =~= self.starting_matches.deep_view());
        }
        out.append("],\"match_updates\":[");
        let ghost mid = out@;
        let u = self.match_updates.len();
        let mut k: usize = 0;
        while k < u
            invariant
                u == self.match_updates@.len(),
                k <= u,
                out@ == mid + spec_updates_json(self.match_updates@.subrange(0, k as int)),
            decreases u - k,
        {
            if k > 0 {
                string_push(&mut out, ',');
            }
            let o_json = self.match_updates[k].to_json();
            out.append(o_json.as_str());
            proof {
                let t = self.match_updates@.subrange(0, k + 1 as int);
                assert(t.drop_last() =~= self.match_updates@.subrange(0, k as int));
                assert(t.last() == self.match_updates@[k as int]);
            }
            k = k + 1;
        }
        proof {
            assert(self.match_updates@.subrange(0, u as int) =~= self.match_updates@);
        }
        out.append("]}");
        assert(out@ =~= spec_tournament_json(*self));
        out
    }
}

/// Builds the stdin payload for one run of a bot: the bot's name, the
/// opponent's name, the round index (the number of plays so far) and the
/// bot's own play history.
pub fn generate_stdin_input(bot_name: &String, opponent_name: &String, history: &Vec<
    SPROption,
>) -> (r: String)
    requires
        history@.len() <= u32::MAX,
    ensures
        r@ == spec_input_json(bot_name@, opponent_name@, history@.len(), history@),
{
    let input = BotRunInput {
        botname: bot_name.clone(),
        opponent: opponent_name.clone(),
        round: history.len() as u32,
        history: clone_plays(history),
    };
    input.to_json()
}

} // verus!
