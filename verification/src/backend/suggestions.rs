//! Command suggestions on their way from a backend to the client, and the proxy's own among
//! them.
use std::collections::HashMap;

use vstd::prelude::*;
use vstd::string::*;

use crate::codec::{
    get_text, get_varint, law_text_round_trip, law_varint_round_trip, read_text, read_varint,
    signed, text, to_signed, varint,
};
use crate::command::dispatcher::{text_pairs, OfferModel, Suggestions, SuggestionsModel};
use crate::ordering::{
    in_order, is_total, law_sorting, le_text, lemma_placed_at, lemma_text_le_total,
    lemma_text_le_transitive, stably_sorted, text_le,
};
use crate::table::views;
use crate::text::{
    begins_with, byte_len, contains_char, eq_ignore_case, first_word, first_word_of, lower,
    opt_text, owned, same_ignoring_case, starts_with, strip_first, to_lower, without_first,
};
use crate::version::ClientVersion;

verus! {

broadcast use {vstd::seq::group_seq_axioms, vstd::std_specs::hash::group_hash_axioms};

/// What is shown beside a suggestion.
#[derive(Debug, PartialEq, Eq)]
pub enum Tooltip<S = String> {
    /// Plain text
    Text(S),
    /// A component that came from the backend, by its number
    Component(u64),
}

pub type TooltipModel = Tooltip<Seq<char>>;

impl View for Tooltip {
    type V = TooltipModel;

    open spec fn view(&self) -> TooltipModel {
        match self {
            Tooltip::Text(t) => Tooltip::Text(t@),
            Tooltip::Component(n) => Tooltip::Component(*n),
        }
    }
}

#[derive(Debug, PartialEq, Eq)]
pub struct Suggestion<S = String> {
    pub suggestion: S,
    pub tooltip: Option<Tooltip<S>>,
}

pub type SuggestionModel = Suggestion<Seq<char>>;

impl View for Suggestion {
    type V = SuggestionModel;

    open spec fn view(&self) -> SuggestionModel {
        Suggestion {
            suggestion: self.suggestion@,
            tooltip: match self.tooltip {
                Some(t) => Some(t@),
                None => None,
            },
        }
    }
}

impl Clone for Suggestion {
    fn clone(&self) -> (r: Self)
        ensures
            r@ == self@,
    {
        Suggestion {
            suggestion: self.suggestion.clone(),
            tooltip: match &self.tooltip {
                Some(Tooltip::Text(t)) => Some(Tooltip::Text(t.clone())),
                Some(Tooltip::Component(n)) => Some(Tooltip::Component(*n)),
                None => None,
            },
        }
    }
}

/// A suggestions packet for the client.
#[derive(Debug, PartialEq, Eq)]
pub struct SuggestionReply {
    pub id: i32,
    pub start: i32,
    pub length: i32,
    pub matches: Vec<Suggestion>,
}

pub struct ReplyModel {
    pub id: i32,
    pub start: i32,
    pub length: i32,
    pub matches: Seq<SuggestionModel>,
}

impl View for SuggestionReply {
    type V = ReplyModel;

    open spec fn view(&self) -> ReplyModel {
        ReplyModel {
            id: self.id,
            start: self.start,
            length: self.length,
            matches: views(self.matches@),
        }
    }
}

// ---------------------------------------------------------------------------
// Reading a backend's suggestions
// ---------------------------------------------------------------------------

/// More suggestions than this in one packet are refused.
pub const MAX_SUGGESTIONS: i32 = 20000;

/// Number, start, length and count at the head of a suggestions packet, and what follows them.
pub open spec fn suggestions_head(b: Seq<u8>) -> Option<(i32, i32, i32, i32, Seq<u8>)> {
    match read_varint(b) {
        Ok((id, r1)) => match read_varint(r1) {
            Ok((start, r2)) => match read_varint(r2) {
                Ok((length, r3)) => match read_varint(r3) {
                    Ok((count, r4)) => if 0 <= count <= MAX_SUGGESTIONS {
                        Some((id, start, length, count, r4))
                    } else {
                        None
                    },
                    Err(_) => None,
                },
                Err(_) => None,
            },
            Err(_) => None,
        },
        Err(_) => None,
    }
}

/// How far the reading of suggestions gets by itself.
pub enum Progress {
    /// All are read
    Done(Seq<SuggestionModel>),
    /// A component follows beside this suggestion
    Component {
        before: Seq<SuggestionModel>,
        suggestion: Seq<char>,
        left: nat,
        rest: Seq<u8>,
    },
    /// The packet cannot be read
    Failed,
}

/// Reads up to `left` suggestions behind those in `before`, up to the next component.
pub open spec fn progress(rest: Seq<u8>, left: nat, before: Seq<SuggestionModel>) -> Progress
    decreases left,
{
    if left == 0 {
        Progress::Done(before)
    } else {
        match read_text(rest) {
            Err(_) => Progress::Failed,
            Ok((suggestion, r)) => if r.len() == 0 {
                Progress::Failed
            } else if r[0] != 0 {
                Progress::Component {
                    before,
                    suggestion,
                    left: (left - 1) as nat,
                    rest: r.skip(1),
                }
            } else {
                progress(
                    r.skip(1),
                    (left - 1) as nat,
                    before.push(Suggestion { suggestion, tooltip: None }),
                )
            },
        }
    }
}

/// What the reader needs next.
#[derive(Debug, Clone, Copy, PartialEq, Eq, Structural)]
pub enum ReadStep {
    /// Nothing: all suggestions are read
    Done,
    /// The component that begins at this byte of the packet
    Component(usize),
    /// The packet cannot be read
    Failed,
}

/// A backend's suggestions packet while it is read.
pub struct SuggestionReader {
    payload: Vec<u8>,
    pos: usize,
    left: u32,
    waiting: Option<String>,
    reply: SuggestionReply,
}

impl SuggestionReader {
    /// The reader stands within the packet.
    pub closed spec fn wf(&self) -> bool {
        self.pos <= self.payload@.len()
    }

    /// The whole packet.
    pub closed spec fn packet(&self) -> Seq<u8> {
        self.payload@
    }

    /// What has not been read.
    pub closed spec fn rest(&self) -> Seq<u8> {
        self.payload@.skip(self.pos as int)
    }

    /// Suggestions that have not been read.
    pub closed spec fn left(&self) -> nat {
        self.left as nat
    }

    /// The suggestion whose component is needed.
    pub closed spec fn waiting(&self) -> Option<Seq<char>> {
        opt_text(self.waiting)
    }

    pub closed spec fn reply(&self) -> ReplyModel {
        self.reply@
    }

    /// Begins to read a packet: versions before 1.13 send another kind, which is not read.
    pub fn begin(payload: Vec<u8>, version: ClientVersion) -> (r: Option<Self>)
        ensures
            r is Some <==> version.has_command_tree && suggestions_head(payload@) is Some,
            r matches Some(s) ==> {
                &&& s.wf()
                &&& s.packet() == payload@
                &&& s.waiting() is None
                &&& s.reply().matches == Seq::<SuggestionModel>::empty()
                &&& suggestions_head(payload@) matches Some((id, start, length, count, rest))
                &&& s.reply().id == id
                &&& s.reply().start == start
                &&& s.reply().length == length
                &&& s.left() == count
                &&& s.rest() == rest
            },
    {
        if !version.has_command_tree {
            return None;
        }
        assert(payload@.skip(0) == payload@);
        let (id, p1) = match get_varint(payload.as_slice(), 0) {
            Ok(x) => x,
            Err(_) => return None,
        };
        let (start, p2) = match get_varint(payload.as_slice(), p1) {
            Ok(x) => x,
            Err(_) => return None,
        };
        let (length, p3) = match get_varint(payload.as_slice(), p2) {
            Ok(x) => x,
            Err(_) => return None,
        };
        let (count, pos) = match get_varint(payload.as_slice(), p3) {
            Ok(x) => x,
            Err(_) => return None,
        };
        if count < 0 || count > MAX_SUGGESTIONS {
            return None;
        }
        let r = SuggestionReader {
            payload,
            pos,
            left: count as u32,
            waiting: None,
            reply: SuggestionReply { id, start, length, matches: Vec::new() },
        };
        assert(r.reply().matches == Seq::<SuggestionModel>::empty());
        Some(r)
    }

    /// Reads on to the next component or to the end.
    pub fn advance(&mut self) -> (r: ReadStep)
        requires
            old(self).wf(),
            old(self).waiting() is None,
        ensures
            final(self).wf(),
            final(self).packet() == old(self).packet(),
            final(self).reply().id == old(self).reply().id,
            final(self).reply().start == old(self).reply().start,
            final(self).reply().length == old(self).reply().length,
            match progress(old(self).rest(), old(self).left(), old(self).reply().matches) {
                Progress::Done(all) => r == ReadStep::Done && final(self).waiting() is None
                    && final(self).left() == 0 && final(self).reply().matches == all,
                Progress::Component { before, suggestion, left, rest } => {
                    &&& final(self).waiting() == Some(suggestion)
                    &&& final(self).left() == left
                    &&& final(self).rest() == rest
                    &&& final(self).reply().matches == before
                    &&& r == ReadStep::Component(
                        (final(self).packet().len() - rest.len()) as usize,
                    )
                },
                Progress::Failed => r == ReadStep::Failed,
            },
    {
        let ghost goal = progress(self.rest(), self.left(), self.reply().matches);
        let ghost start = *self;
        while self.left > 0
            invariant
                self.wf(),
                self.waiting() is None,
                self.payload@ == start.payload@,
                self.reply.id == start.reply.id,
                self.reply.start == start.reply.start,
                self.reply.length == start.reply.length,
                start == *old(self),
                goal == progress(start.rest(), start.left(), start.reply().matches),
                goal == progress(self.rest(), self.left(), self.reply().matches),
            decreases self.left,
        {
            let ghost before = self.reply().matches;
            let (suggestion, p) = match get_text(self.payload.as_slice(), self.pos) {
                Ok(x) => x,
                Err(_) => return ReadStep::Failed,
            };
            let ghost r = self.payload@.skip(p as int);
            if p >= self.payload.len() {
                return ReadStep::Failed;
            }
            let flag = self.payload[p];
            assert(r[0] == flag);
            assert(r.skip(1) == self.payload@.skip(p + 1));
            self.pos = p + 1;
            self.left = self.left - 1;
            if flag != 0 {
                self.waiting = Some(suggestion);
                return ReadStep::Component(self.pos);
            }
            self.reply.matches.push(Suggestion { suggestion, tooltip: None });
            assert(self.reply().matches == before.push(
                Suggestion { suggestion: suggestion@, tooltip: None },
            ));
        }
        ReadStep::Done
    }

    /// Hands in the component that was needed, or that it could not be read, and where reading
    /// goes on.
    pub fn supply(&mut self, component: Option<u64>, next: usize)
        requires
            old(self).wf(),
            old(self).waiting() is Some,
            next <= old(self).packet().len(),
        ensures
            final(self).wf(),
            final(self).packet() == old(self).packet(),
            final(self).waiting() is None,
            final(self).left() == old(self).left(),
            final(self).rest() == old(self).packet().skip(next as int),
            final(self).reply() == (ReplyModel {
                matches: old(self).reply().matches.push(
                    Suggestion {
                        suggestion: old(self).waiting()->Some_0,
                        tooltip: match component {
                            Some(n) => Some(Tooltip::Component(n)),
                            None => None,
                        },
                    },
                ),
                ..old(self).reply()
            }),
    {
        let ghost before = self.reply().matches;
        let ghost name = self.waiting()->Some_0;
        self.pos = next;
        match self.waiting.take() {
            Some(suggestion) => {
                let tooltip = match component {
                    Some(n) => Some(Tooltip::Component(n)),
                    None => None,
                };
                self.reply.matches.push(Suggestion { suggestion, tooltip });
            },
            None => {},
        }
        assert(self.reply().matches == before.push(
            Suggestion {
                suggestion: name,
                tooltip: match component {
                    Some(n) => Some(Tooltip::Component(n)),
                    None => None,
                },
            },
        ));
    }

    /// What has been read.
    pub fn finish(self) -> (r: SuggestionReply)
        ensures
            r@ == self.reply(),
    {
        self.reply
    }
}

// ---------------------------------------------------------------------------
// The proxy's own suggestions
// ---------------------------------------------------------------------------

/// Suggestions of the proxy that wait for those of the backend.
#[derive(Debug, PartialEq, Eq)]
pub struct PendingSuggestion {
    pub clean_cmd: String,
    pub offset: usize,
    /// Names of commands with their descriptions
    pub proxy_matches: Vec<(String, String)>,
}

pub struct PendingModel {
    pub clean_cmd: Seq<char>,
    pub offset: nat,
    pub proxy_matches: Seq<(Seq<char>, Seq<char>)>,
}

impl View for PendingSuggestion {
    type V = PendingModel;

    open spec fn view(&self) -> PendingModel {
        PendingModel {
            clean_cmd: self.clean_cmd@,
            offset: self.offset as nat,
            proxy_matches: text_pairs(self.proxy_matches@),
        }
    }
}

/// What is done about a request for suggestions.
#[derive(Debug, PartialEq, Eq)]
pub enum SuggestDecision {
    /// Answer it for a command of the proxy
    Complete { command: String, offset: usize },
    /// Let the backend answer, and add these
    Remember(PendingSuggestion),
    /// Let the backend answer
    Pass,
}

pub enum DecisionModel {
    Complete { command: Seq<char>, offset: nat },
    Remember(PendingModel),
    Pass,
}

impl View for SuggestDecision {
    type V = DecisionModel;

    open spec fn view(&self) -> DecisionModel {
        match self {
            SuggestDecision::Complete { command, offset } => DecisionModel::Complete {
                command: command@,
                offset: *offset as nat,
            },
            SuggestDecision::Remember(p) => DecisionModel::Remember(p@),
            SuggestDecision::Pass => DecisionModel::Pass,
        }
    }
}

/// The commands whose names begin as typed.
pub open spec fn matching(permitted: Seq<(Seq<char>, Seq<char>)>, typed: Seq<char>) -> Seq<
    (Seq<char>, Seq<char>),
>
    decreases permitted.len(),
{
    if permitted.len() == 0 {
        Seq::empty()
    } else {
        let before = matching(permitted.drop_last(), typed);
        if begins_with(permitted.last().0, lower(typed)) {
            before.push(permitted.last())
        } else {
            before
        }
    }
}

pub open spec fn clean_command(raw: Seq<char>) -> Seq<char> {
    match without_first(raw, '/') {
        Some(s) => s,
        None => raw,
    }
}

pub open spec fn slash_offset(raw: Seq<char>) -> nat {
    if raw.len() > 0 && raw[0] == '/' {
        1
    } else {
        0
    }
}

/// Arguments of a known command are completed by the proxy; where a name is typed, the proxy's
/// commands that fit are kept for the backend's answer.
pub open spec fn suggest_decision(
    raw: Seq<char>,
    known: bool,
    permitted: Seq<(Seq<char>, Seq<char>)>,
) -> DecisionModel {
    let clean = clean_command(raw);
    if clean.contains(' ') {
        if known {
            DecisionModel::Complete { command: clean, offset: slash_offset(raw) }
        } else {
            DecisionModel::Pass
        }
    } else if matching(permitted, clean).len() > 0 {
        DecisionModel::Remember(
            PendingModel {
                clean_cmd: clean,
                offset: slash_offset(raw),
                proxy_matches: matching(permitted, clean),
            },
        )
    } else {
        DecisionModel::Pass
    }
}

/// The word by which the command of a request for suggestions is known.
pub fn requested_command(raw: &str) -> (r: String)
    ensures
        r@ == first_word_of(clean_command(raw@)),
{
    match strip_first(raw, '/') {
        Some(s) => first_word(s.as_str()),
        None => first_word(raw),
    }
}

fn select_matching(permitted: &Vec<(String, String)>, typed: &str) -> (r: Vec<(String, String)>)
    ensures
        text_pairs(r@) == matching(text_pairs(permitted@), typed@),
{
    let t = to_lower(typed);
    let ghost all = text_pairs(permitted@);
    let mut r: Vec<(String, String)> = Vec::new();
    let mut i: usize = 0;
    assert(all.take(0) == Seq::<(Seq<char>, Seq<char>)>::empty());
    assert(text_pairs(r@) == Seq::<(Seq<char>, Seq<char>)>::empty());
    while i < permitted.len()
        invariant
            i <= permitted@.len(),
            all == text_pairs(permitted@),
            t@ == lower(typed@),
            text_pairs(r@) == matching(all.take(i as int), typed@),
        decreases permitted.len() - i,
    {
        let ghost before = text_pairs(r@);
        assert(all.take(i + 1).drop_last() == all.take(i as int));
        assert(all.take(i + 1).last() == all[i as int]);
        if starts_with(permitted[i].0.as_str(), t.as_str()) {
            r.push((permitted[i].0.clone(), permitted[i].1.clone()));
            assert(text_pairs(r@) == before.push(all[i as int]));
        }
        i = i + 1;
    }
    assert(all.take(all.len() as int) == all);
    r
}

/// Decides on a request. `known` says whether the proxy knows the command that is typed,
/// `permitted` holds the commands that the player may use.
pub fn decide_suggestion(raw: &str, known: bool, permitted: &Vec<(String, String)>) -> (r:
    SuggestDecision)
    ensures
        r@ == suggest_decision(raw@, known, text_pairs(permitted@)),
{
    let (clean, offset): (String, usize) = match strip_first(raw, '/') {
        Some(s) => (s, 1),
        None => (owned(raw), 0),
    };
    if contains_char(clean.as_str(), ' ') {
        if known {
            SuggestDecision::Complete { command: clean, offset }
        } else {
            SuggestDecision::Pass
        }
    } else {
        let proxy_matches = select_matching(permitted, clean.as_str());
        assert(text_pairs(proxy_matches@).len() == proxy_matches@.len());
        if proxy_matches.len() > 0 {
            SuggestDecision::Remember(
                PendingSuggestion { clean_cmd: clean, offset, proxy_matches },
            )
        } else {
            SuggestDecision::Pass
        }
    }
}

/// A command of the proxy as a suggestion.
pub open spec fn own_suggestion(m: (Seq<char>, Seq<char>)) -> SuggestionModel {
    Suggestion { suggestion: m.0, tooltip: Some(Tooltip::Text(m.1)) }
}

pub open spec fn own_suggestions(ms: Seq<(Seq<char>, Seq<char>)>) -> Seq<SuggestionModel> {
    Seq::new(ms.len(), |i: int| own_suggestion(ms[i]))
}

/// The answer with the proxy's own suggestions alone, for when the backend keeps silent.
pub open spec fn pending_reply(id: i32, p: PendingModel) -> ReplyModel {
    ReplyModel {
        id,
        start: signed(p.offset),
        length: signed(byte_len(p.clean_cmd)),
        matches: own_suggestions(p.proxy_matches),
    }
}

fn own_suggestion_of(m: &(String, String)) -> (r: Suggestion)
    ensures
        r@ == own_suggestion((m.0@, m.1@)),
{
    Suggestion { suggestion: m.0.clone(), tooltip: Some(Tooltip::Text(m.1.clone())) }
}

pub fn reply_from_pending(id: i32, p: &PendingSuggestion) -> (r: SuggestionReply)
    ensures
        r@ == pending_reply(id, p@),
{
    let ghost ms = p@.proxy_matches;
    let mut matches: Vec<Suggestion> = Vec::new();
    let mut i: usize = 0;
    while i < p.proxy_matches.len()
        invariant
            i <= p.proxy_matches@.len(),
            ms == text_pairs(p.proxy_matches@),
            matches@.len() == i,
            forall|j: int| 0 <= j < i ==> matches@[j]@ == own_suggestion(ms[j]),
        decreases p.proxy_matches.len() - i,
    {
        matches.push(own_suggestion_of(&p.proxy_matches[i]));
        i = i + 1;
    }
    assert(views(matches@) == own_suggestions(ms));
    SuggestionReply {
        id,
        start: to_signed(p.offset as u64),
        length: to_signed(p.clean_cmd.as_str().as_bytes().len() as u64),
        matches,
    }
}

pub open spec fn offer_suggestion(o: OfferModel) -> SuggestionModel {
    Suggestion {
        suggestion: o.text,
        tooltip: match o.tooltip {
            Some(t) => Some(Tooltip::Text(t)),
            None => None,
        },
    }
}

/// The answer for the arguments of a command of the proxy: the range counts the slash that the
/// client has before the command.
pub open spec fn completion_reply(id: i32, offset: nat, s: SuggestionsModel) -> ReplyModel {
    ReplyModel {
        id,
        start: signed(s.start + offset),
        length: signed(s.length),
        matches: Seq::new(s.offers.len(), |i: int| offer_suggestion(s.offers[i])),
    }
}

pub fn reply_from_completion(id: i32, offset: usize, s: &Suggestions) -> (r: SuggestionReply)
    requires
        s.start + offset <= u64::MAX,
    ensures
        r@ == completion_reply(id, offset as nat, s@),
{
    let ghost os = s@.offers;
    let mut matches: Vec<Suggestion> = Vec::new();
    let mut i: usize = 0;
    while i < s.offers.len()
        invariant
            i <= s.offers@.len(),
            os == views(s.offers@),
            matches@.len() == i,
            forall|j: int| 0 <= j < i ==> matches@[j]@ == offer_suggestion(os[j]),
        decreases s.offers.len() - i,
    {
        let o = &s.offers[i];
        assert(os[i as int] == o@);
        let tooltip = match &o.tooltip {
            Some(t) => Some(Tooltip::Text(t.clone())),
            None => None,
        };
        matches.push(Suggestion { suggestion: o.text.clone(), tooltip });
        i = i + 1;
    }
    assert(views(matches@) == completion_reply(id, offset as nat, s@).matches);
    SuggestionReply {
        id,
        start: to_signed(s.start as u64 + offset as u64),
        length: to_signed(s.length as u64),
        matches,
    }
}

// ---------------------------------------------------------------------------
// Merging
// ---------------------------------------------------------------------------

pub open spec fn has_suggestion(list: Seq<SuggestionModel>, name: Seq<char>) -> bool {
    exists|i: int|
        0 <= i < list.len() && same_ignoring_case((#[trigger] list[i]).suggestion, name)
}

/// The backend's suggestions and, behind them, those of the proxy that are not there in any case.
pub open spec fn joined_in(list: Seq<SuggestionModel>, own: Seq<(Seq<char>, Seq<char>)>) -> Seq<
    SuggestionModel,
>
    decreases own.len(),
{
    if own.len() == 0 {
        list
    } else {
        let before = joined_in(list, own.drop_last());
        if has_suggestion(before, own.last().0) {
            before
        } else {
            before.push(own_suggestion(own.last()))
        }
    }
}

pub open spec fn suggestion_le() -> spec_fn(SuggestionModel, SuggestionModel) -> bool {
    |a: SuggestionModel, b: SuggestionModel| text_le(a.suggestion, b.suggestion)
}

/// All of them in order.
pub open spec fn merged(list: Seq<SuggestionModel>, own: Seq<(Seq<char>, Seq<char>)>) -> Seq<
    SuggestionModel,
> {
    stably_sorted(joined_in(list, own), suggestion_le())
}

fn holds_suggestion(list: &Vec<Suggestion>, name: &str) -> (r: bool)
    ensures
        r == has_suggestion(views(list@), name@),
{
    let ghost all = views(list@);
    let mut i: usize = 0;
    while i < list.len()
        invariant
            i <= list@.len(),
            all == views(list@),
            forall|j: int| 0 <= j < i ==> !same_ignoring_case((#[trigger] all[j]).suggestion, name@),
        decreases list.len() - i,
    {
        if eq_ignore_case(list[i].suggestion.as_str(), name) {
            assert(same_ignoring_case(all[i as int].suggestion, name@));
            return true;
        }
        i = i + 1;
    }
    false
}

fn sort_suggestions(v: &Vec<Suggestion>) -> (r: Vec<Suggestion>)
    ensures
        views(r@) == stably_sorted(views(v@), suggestion_le()),
{
    let ghost le = suggestion_le();
    let ghost all = views(v@);
    let mut r: Vec<Suggestion> = Vec::new();
    let mut i: usize = 0;
    assert(all.take(0) == Seq::<SuggestionModel>::empty());
    assert(views(r@) == stably_sorted(all.take(0), le));
    while i < v.len()
        invariant
            i <= v@.len(),
            all == views(v@),
            le == suggestion_le(),
            views(r@) == stably_sorted(all.take(i as int), le),
        decreases v.len() - i,
    {
        let ghost x = v@[i as int]@;
        let ghost sorted = views(r@);
        let mut p: usize = r.len();
        while p > 0 && !le_text(r[p - 1].suggestion.as_str(), v[i].suggestion.as_str())
            invariant
                i < v@.len(),
                p <= r@.len(),
                sorted == views(r@),
                le == suggestion_le(),
                x == v@[i as int]@,
                forall|j: int| p <= j < r@.len() ==> !le(#[trigger] sorted[j], x),
            decreases p,
        {
            assert(sorted[p - 1] == r@[p - 1]@);
            p = p - 1;
        }
        proof {
            if p > 0 {
                assert(sorted[p - 1] == r@[p - 1]@);
            }
            lemma_placed_at(sorted, x, le, p as int);
            assert(all.take(i + 1).drop_last() == all.take(i as int));
            assert(all.take(i + 1).last() == x);
        }
        r.insert(p, v[i].clone());
        assert(views(r@) == sorted.insert(p as int, x));
        i = i + 1;
    }
    assert(all.take(all.len() as int) == all);
    r
}

/// Adds the proxy's suggestions to a backend's.
pub fn merge_suggestions(reply: SuggestionReply, own: &Vec<(String, String)>) -> (r: SuggestionReply)
    ensures
        r@ == (ReplyModel {
            matches: merged(reply@.matches, text_pairs(own@)),
            ..reply@
        }),
{
    let ghost list = reply@.matches;
    let ghost os = text_pairs(own@);
    let SuggestionReply { id, start, length, matches } = reply;
    let mut all = matches;
    let mut i: usize = 0;
    assert(os.take(0) == Seq::<(Seq<char>, Seq<char>)>::empty());
    while i < own.len()
        invariant
            i <= own@.len(),
            os == text_pairs(own@),
            views(all@) == joined_in(list, os.take(i as int)),
        decreases own.len() - i,
    {
        let ghost before = views(all@);
        assert(os.take(i + 1).drop_last() == os.take(i as int));
        assert(os.take(i + 1).last() == os[i as int]);
        if !holds_suggestion(&all, own[i].0.as_str()) {
            all.push(own_suggestion_of(&own[i]));
            assert(views(all@) == before.push(own_suggestion(os[i as int])));
        }
        i = i + 1;
    }
    assert(os.take(os.len() as int) == os);
    SuggestionReply { id, start, length, matches: sort_suggestions(&all) }
}

// ---------------------------------------------------------------------------
// What is pending
// ---------------------------------------------------------------------------

/// The suggestions that wait for a backend, by the number of the request.
pub struct PendingSuggestions {
    map: HashMap<i32, PendingSuggestion>,
}

impl View for PendingSuggestions {
    type V = Map<i32, PendingModel>;

    closed spec fn view(&self) -> Map<i32, PendingModel> {
        self.map@.map_values(|p: PendingSuggestion| p@)
    }
}

impl PendingSuggestions {
    pub fn new() -> (r: Self)
        ensures
            r@ == Map::<i32, PendingModel>::empty(),
    {
        let r = PendingSuggestions { map: HashMap::new() };
        assert(r@ =~= Map::<i32, PendingModel>::empty());
        r
    }

    pub fn insert(&mut self, id: i32, p: PendingSuggestion)
        ensures
            final(self)@ == old(self)@.insert(id, p@),
    {
        let ghost before = self@;
        self.map.insert(id, p);
        assert(self@ =~= before.insert(id, p@));
    }

    /// Takes what waits under a number: whoever comes first gets it.
    pub fn take(&mut self, id: i32) -> (r: Option<PendingSuggestion>)
        ensures
            final(self)@ == old(self)@.remove(id),
            r is Some <==> old(self)@.dom().contains(id),
            r matches Some(p) ==> p@ == old(self)@[id],
    {
        let ghost before = self@;
        let r = self.map.remove(&id);
        assert(self@ =~= before.remove(id));
        r
    }
}

// ---------------------------------------------------------------------------
// Laws of suggestions
// ---------------------------------------------------------------------------

proof fn lemma_suggestion_order()
    ensures
        is_total(suggestion_le()),
{
    let le = suggestion_le();
    assert forall|a: SuggestionModel, b: SuggestionModel| #[trigger] le(a, b) || le(b, a) by {
        lemma_text_le_total(a.suggestion, b.suggestion);
    }
    assert forall|a: SuggestionModel, b: SuggestionModel, c: SuggestionModel|
        #[trigger] le(a, b) && #[trigger] le(b, c) implies le(a, c) by {
        lemma_text_le_transitive(a.suggestion, b.suggestion, c.suggestion);
    }
}

proof fn lemma_joined_in(list: Seq<SuggestionModel>, own: Seq<(Seq<char>, Seq<char>)>)
    ensures
        joined_in(list, own).len() >= list.len(),
        joined_in(list, own).take(list.len() as int) == list,
        forall|i: int| 0 <= i < own.len() ==> has_suggestion(
            joined_in(list, own),
            (#[trigger] own[i]).0,
        ),
    decreases own.len(),
{
    if own.len() > 0 {
        let front = own.drop_last();
        lemma_joined_in(list, front);
        let before = joined_in(list, front);
        let all = joined_in(list, own);
        assert forall|i: int| 0 <= i < own.len() implies has_suggestion(
            all,
            (#[trigger] own[i]).0,
        ) by {
            if i < front.len() {
                assert(front[i] == own[i]);
                let j = choose|j: int|
                    0 <= j < before.len() && same_ignoring_case(
                        (#[trigger] before[j]).suggestion,
                        own[i].0,
                    );
                assert(all[j] == before[j]);
            } else if !has_suggestion(before, own.last().0) {
                assert(all[before.len() as int].suggestion == own.last().0);
            }
        }
    }
}

/// Merged suggestions are in order, hold every suggestion of the backend, and hold every command
/// of the proxy that fits, under its own name or under the backend's spelling of it.
pub proof fn law_merge_keeps_everything(
    list: Seq<SuggestionModel>,
    own: Seq<(Seq<char>, Seq<char>)>,
)
    ensures
        in_order(merged(list, own), suggestion_le()),
        forall|i: int| 0 <= i < list.len() ==> merged(list, own).contains(#[trigger] list[i]),
        forall|i: int| 0 <= i < own.len() ==> has_suggestion(
            merged(list, own),
            (#[trigger] own[i]).0,
        ),
{
    broadcast use vstd::seq_lib::group_to_multiset_ensures;

    lemma_suggestion_order();
    lemma_joined_in(list, own);
    let all = joined_in(list, own);
    law_sorting(all, suggestion_le());
    let m = merged(list, own);
    assert(m.to_multiset() == all.to_multiset());
    assert forall|i: int| 0 <= i < list.len() implies m.contains(#[trigger] list[i]) by {
        assert(all.take(list.len() as int)[i] == list[i]);
        assert(all[i] == list[i]);
        assert(all.to_multiset().count(all[i]) > 0);
        assert(m.to_multiset().count(list[i]) > 0);
    }
    assert forall|i: int| 0 <= i < own.len() implies has_suggestion(m, (#[trigger] own[i]).0) by {
        let j = choose|j: int|
            0 <= j < all.len() && same_ignoring_case((#[trigger] all[j]).suggestion, own[i].0);
        assert(all.to_multiset().count(all[j]) > 0);
        assert(m.to_multiset().count(all[j]) > 0);
        assert(m.contains(all[j]));
        let k = choose|k: int| 0 <= k < m.len() && m[k] == all[j];
        assert(same_ignoring_case(m[k].suggestion, own[i].0));
    }
}

/// Suggestions without components as a packet holds them.
pub open spec fn plain_bytes(names: Seq<Seq<char>>) -> Seq<u8>
    decreases names.len(),
{
    if names.len() == 0 {
        Seq::empty()
    } else {
        text(names[0]) + seq![0u8] + plain_bytes(names.skip(1))
    }
}

pub open spec fn plain_suggestions(names: Seq<Seq<char>>) -> Seq<SuggestionModel> {
    Seq::new(names.len(), |i: int| Suggestion { suggestion: names[i], tooltip: None })
}

proof fn lemma_plain_progress(names: Seq<Seq<char>>, before: Seq<SuggestionModel>, rest: Seq<u8>)
    requires
        forall|i: int|
            0 <= i < names.len() ==> byte_len(#[trigger] names[i])
                <= crate::codec::MAX_TEXT_BYTES,
    ensures
        progress(plain_bytes(names) + rest, names.len(), before) == Progress::Done(
            before + plain_suggestions(names),
        ),
    decreases names.len(),
{
    if names.len() == 0 {
        assert(before + plain_suggestions(names) == before);
    } else {
        let t = names.skip(1);
        let b = plain_bytes(names) + rest;
        let tail = seq![0u8] + (plain_bytes(t) + rest);
        assert(b == text(names[0]) + tail);
        assert(byte_len(names[0]) <= crate::codec::MAX_TEXT_BYTES);
        law_text_round_trip(names[0], tail);
        assert(tail.skip(1) == plain_bytes(t) + rest);
        assert forall|i: int| 0 <= i < t.len() implies byte_len(#[trigger] t[i])
            <= crate::codec::MAX_TEXT_BYTES by {
            assert(t[i] == names[i + 1]);
        }
        let first = Suggestion { suggestion: names[0], tooltip: None };
        lemma_plain_progress(t, before.push(first), rest);
        assert(before.push(first) + plain_suggestions(t) == before + plain_suggestions(names));
    }
}

/// A packet of suggestions without components is read in one go, and holds what was written.
pub proof fn law_plain_suggestions_read_back(
    id: i32,
    start: i32,
    length: i32,
    names: Seq<Seq<char>>,
)
    requires
        names.len() <= MAX_SUGGESTIONS,
        forall|i: int|
            0 <= i < names.len() ==> byte_len(#[trigger] names[i])
                <= crate::codec::MAX_TEXT_BYTES,
    ensures
        ({
            let packet = varint(id) + (varint(start) + (varint(length) + (varint(
                names.len() as i32,
            ) + plain_bytes(names))));
            &&& suggestions_head(packet) == Some(
                (id, start, length, names.len() as i32, plain_bytes(names)),
            )
            &&& progress(plain_bytes(names), names.len(), Seq::empty()) == Progress::Done(
                plain_suggestions(names),
            )
        }),
{
    let e = plain_bytes(names);
    let d = varint(names.len() as i32) + e;
    let c = varint(length) + d;
    let b = varint(start) + c;
    law_varint_round_trip(id, b);
    law_varint_round_trip(start, c);
    law_varint_round_trip(length, d);
    law_varint_round_trip(names.len() as i32, e);
    lemma_plain_progress(names, Seq::empty(), Seq::empty());
    assert(e + Seq::<u8>::empty() == e);
    assert(Seq::<SuggestionModel>::empty() + plain_suggestions(names) == plain_suggestions(names));
}

/// Merging adds nothing of its own: every suggestion is one of the backend's, or a command of the
/// proxy with its description that the backend has not suggested in any case.
pub proof fn law_merge_adds_nothing_else(
    list: Seq<SuggestionModel>,
    own: Seq<(Seq<char>, Seq<char>)>,
    x: SuggestionModel,
)
    requires
        merged(list, own).contains(x),
    ensures
        list.contains(x) || exists|i: int|
            0 <= i < own.len() && x.suggestion == (#[trigger] own[i]).0 && x.tooltip == Some(
                Tooltip::Text(own[i].1),
            ) && forall|j: int|
                0 <= j < list.len() ==> !same_ignoring_case(
                    (#[trigger] list[j]).suggestion,
                    own[i].0,
                ),
{
    broadcast use vstd::seq_lib::group_to_multiset_ensures;

    lemma_suggestion_order();
    let all = joined_in(list, own);
    law_sorting(all, suggestion_le());
    let m = merged(list, own);
    assert(m.to_multiset().count(x) > 0);
    assert(all.to_multiset().count(x) > 0);
    assert(all.contains(x));
    lemma_joined_source(list, own, x);
}

proof fn lemma_joined_source(
    list: Seq<SuggestionModel>,
    own: Seq<(Seq<char>, Seq<char>)>,
    x: SuggestionModel,
)
    requires
        joined_in(list, own).contains(x),
    ensures
        list.contains(x) || exists|i: int|
            0 <= i < own.len() && x.suggestion == (#[trigger] own[i]).0 && x.tooltip == Some(
                Tooltip::Text(own[i].1),
            ) && forall|j: int|
                0 <= j < list.len() ==> !same_ignoring_case(
                    (#[trigger] list[j]).suggestion,
                    own[i].0,
                ),
    decreases own.len(),
{
    if own.len() > 0 {
        let front = own.drop_last();
        let before = joined_in(list, front);
        let all = joined_in(list, own);
        let k = choose|k: int| 0 <= k < all.len() && all[k] == x;
        if k < before.len() {
            assert(before[k] == x);
            lemma_joined_source(list, front, x);
            if !list.contains(x) {
                let i = choose|i: int|
                    0 <= i < front.len() && x.suggestion == (#[trigger] front[i]).0 && x.tooltip
                        == Some(Tooltip::Text(front[i].1)) && forall|j: int|
                        0 <= j < list.len() ==> !same_ignoring_case(
                            (#[trigger] list[j]).suggestion,
                            front[i].0,
                        );
                assert(own[i] == front[i]);
            }
        } else {
            let i = own.len() - 1;
            assert(own[i] == own.last());
            lemma_joined_in(list, front);
            assert forall|j: int| 0 <= j < list.len() implies !same_ignoring_case(
                (#[trigger] list[j]).suggestion,
                own[i].0,
            ) by {
                assert(before.take(list.len() as int)[j] == list[j]);
                assert(before[j] == list[j]);
            }
        }
    }
}

/// Kept are exactly those commands whose names begin as typed, in any case.
pub proof fn law_matching_begins_as_typed(
    permitted: Seq<(Seq<char>, Seq<char>)>,
    typed: Seq<char>,
    x: (Seq<char>, Seq<char>),
)
    ensures
        matching(permitted, typed).contains(x) <==> permitted.contains(x) && begins_with(
            x.0,
            lower(typed),
        ),
    decreases permitted.len(),
{
    if permitted.len() > 0 {
        let front = permitted.drop_last();
        law_matching_begins_as_typed(front, typed, x);
        let a = matching(front, typed);
        let all = matching(permitted, typed);
        if permitted.contains(x) {
            let j = choose|j: int| 0 <= j < permitted.len() && permitted[j] == x;
            if j < front.len() {
                assert(front[j] == x);
            }
        }
        if front.contains(x) {
            let j = choose|j: int| 0 <= j < front.len() && front[j] == x;
            assert(permitted[j] == x);
        }
        assert(permitted[permitted.len() - 1] == permitted.last());
        if a.contains(x) {
            let j = choose|j: int| 0 <= j < a.len() && a[j] == x;
            assert(all[j] == x);
        }
        if all.contains(x) {
            let j = choose|j: int| 0 <= j < all.len() && all[j] == x;
            if j < a.len() {
                assert(a[j] == x);
            }
        }
        if begins_with(permitted.last().0, lower(typed)) {
            assert(all[a.len() as int] == permitted.last());
        }
    }
}

/// A request is decided by what is typed behind one slash at most. Once there is a space, the
/// proxy answers for its own commands and leaves others to the backend. Before, the commands that
/// fit are kept, all of them and no others, until the backend has answered.
pub proof fn law_requests_are_decided(
    clean: Seq<char>,
    slash: bool,
    known: bool,
    permitted: Seq<(Seq<char>, Seq<char>)>,
    x: (Seq<char>, Seq<char>),
)
    requires
        slash || clean.len() == 0 || clean[0] != '/',
    ensures
        ({
            let raw = if slash {
                seq!['/'] + clean
            } else {
                clean
            };
            let head: nat = if slash {
                1
            } else {
                0
            };
            let d = suggest_decision(raw, known, permitted);
            &&& clean.contains(' ') && known ==> (d matches DecisionModel::Complete {
                command,
                offset,
            } && command == clean && offset == head)
            &&& clean.contains(' ') && !known ==> d is Pass
            &&& !clean.contains(' ') ==> {
                &&& d !is Complete
                &&& permitted.contains(x) && begins_with(x.0, lower(clean)) ==> d is Remember
                &&& d matches DecisionModel::Remember(p) ==> p.clean_cmd == clean && p.offset
                    == head && p.proxy_matches.len() > 0 && (p.proxy_matches.contains(x)
                    <==> permitted.contains(x) && begins_with(x.0, lower(clean)))
            }
        }),
{
    let raw = if slash {
        seq!['/'] + clean
    } else {
        clean
    };
    if slash {
        assert(raw.skip(1) == clean);
    }
    assert(clean_command(raw) == clean);
    law_matching_begins_as_typed(permitted, clean, x);
    if permitted.contains(x) && begins_with(x.0, lower(clean)) {
        assert(matching(permitted, clean).contains(x));
        assert(matching(permitted, clean).len() > 0);
    }
}

/// The proxy's own suggestions answer their request: for the whole command behind the slash, each
/// name with its description.
pub proof fn law_pending_answers_its_request(id: i32, p: PendingModel)
    requires
        p.offset <= i32::MAX,
        byte_len(p.clean_cmd) <= i32::MAX,
    ensures
        ({
            let r = pending_reply(id, p);
            &&& r.id == id
            &&& r.start == p.offset
            &&& r.length == byte_len(p.clean_cmd)
            &&& r.matches.len() == p.proxy_matches.len()
            &&& forall|i: int|
                0 <= i < p.proxy_matches.len() ==> (#[trigger] r.matches[i]).suggestion
                    == p.proxy_matches[i].0 && r.matches[i].tooltip == Some(
                    Tooltip::Text(p.proxy_matches[i].1),
                )
        }),
{
}

/// Completions of an argument answer their request, at their place behind the slash, as they are.
pub proof fn law_completions_answer_their_request(id: i32, offset: nat, s: SuggestionsModel)
    requires
        s.start + offset <= i32::MAX,
        s.length <= i32::MAX,
    ensures
        ({
            let r = completion_reply(id, offset, s);
            &&& r.id == id
            &&& r.start == s.start + offset
            &&& r.length == s.length
            &&& r.matches.len() == s.offers.len()
            &&& forall|i: int|
                0 <= i < s.offers.len() ==> (#[trigger] r.matches[i]).suggestion
                    == s.offers[i].text && (s.offers[i].tooltip is None <==> r.matches[i].tooltip
                    is None) && (s.offers[i].tooltip matches Some(t) ==> r.matches[i].tooltip
                    == Some(Tooltip::Text(t)))
        }),
{
}

/// A suggestion with a component beside it stops the reading there: those before it are kept, the
/// component begins behind its mark, and as many are left as the packet has announced.
pub proof fn law_component_stops_the_reading(
    name: Seq<char>,
    mark: u8,
    rest: Seq<u8>,
    left: nat,
    before: Seq<SuggestionModel>,
)
    requires
        byte_len(name) <= crate::codec::MAX_TEXT_BYTES,
        mark != 0,
    ensures
        progress(text(name) + (seq![mark] + rest), left + 1, before) == (Progress::Component {
            before,
            suggestion: name,
            left,
            rest,
        }),
        progress(rest, 0, before) == Progress::Done(before),
{
    law_text_round_trip(name, seq![mark] + rest);
    assert((seq![mark] + rest).skip(1) == rest);
}

/// A packet that announces a negative number of suggestions, or more than are allowed, is not
/// read.
pub proof fn law_absurd_counts_are_refused(id: i32, start: i32, length: i32, count: i32, rest: Seq<u8>)
    requires
        count < 0 || count > 20000,
    ensures
        suggestions_head(
            varint(id) + (varint(start) + (varint(length) + (varint(count) + rest))),
        ) is None,
{
    let d = varint(count) + rest;
    let c = varint(length) + d;
    let b = varint(start) + c;
    law_varint_round_trip(id, b);
    law_varint_round_trip(start, c);
    law_varint_round_trip(length, d);
    law_varint_round_trip(count, rest);
}

/// Requests are decided, answered and merged for the texts, numbers and suggestions that were
/// given.
pub proof fn law_suggestions_are_for_their_request(
    raw: &str,
    known: bool,
    permitted: Vec<(String, String)>,
    id: i32,
    p: PendingSuggestion,
    reply: SuggestionReply,
    d: SuggestDecision,
    w: String,
    r: SuggestionReply,
    m: SuggestionReply,
)
    requires
        call_ensures(decide_suggestion, (raw, known, &permitted), d),
        call_ensures(requested_command, (raw,), w),
        call_ensures(reply_from_pending, (id, &p), r),
        call_ensures(merge_suggestions, (reply, &permitted), m),
    ensures
        d@ == suggest_decision(raw@, known, text_pairs(permitted@)),
        w@ == first_word_of(clean_command(raw@)),
        r@ == pending_reply(id, p@),
        m@.id == reply@.id && m@.start == reply@.start && m@.length == reply@.length,
        m@.matches == merged(reply@.matches, text_pairs(permitted@)),
{
}

/// A packet that ends before all its suggestions are read is refused.
pub proof fn law_cut_packets_are_refused(name: Seq<char>, left: nat, before: Seq<SuggestionModel>)
    requires
        byte_len(name) <= crate::codec::MAX_TEXT_BYTES,
    ensures
        progress(text(name), left + 1, before) is Failed,
        progress(Seq::<u8>::empty(), left + 1, before) is Failed,
{
    let none = Seq::<u8>::empty();
    law_text_round_trip(name, none);
    assert(text(name) + none == text(name));
    assert(read_varint(none) is Err);
}

} // verus!
