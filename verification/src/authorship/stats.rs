//! Counts of lines by author, and how they are shown.
use crate::assoc::{find, get, lemma_place_bounds, place_of, value_of};
use crate::authorship::authorship_log::{
    AttestationEntry, AttestationEntryView, AuthorshipLog, AuthorshipLogView, FileAttestation,
    FileAttestationView, LineRange, PromptRecord, PromptRecordView,
};
use crate::authorship::reconstruction::{range_end, range_len, range_start, total_len};
use crate::authorship::transcript::{clone_messages, AiTranscript, Message, MessageView};
use crate::binary64::{
    at_most, floor, floor_of, law_rounding_keeps_the_limit, law_share_of_a_part,
    lemma_share_is_number, round, round_even, round_even_of, round_of,
    share, share_of,
};
use crate::clock::{read_seconds_between, seconds_from_to};
use crate::error::{GitAiError, GitAiErrorView};
use crate::git::repository::{head_run, rev_parse_run, target_run, Repository, RepositoryView};
use crate::session::{
    aborted, asked, caught, catch, complained, failed, git_output_text, git_text, must, printed,
    seen, word, Reply, Request, RequestView, Run, Session, Stop, StopView, Tape,
};
use crate::text::{
    centered, chars, decimal, decimal_text, is_ascii_digit, is_digit, is_white, join2, join3,
    law_decimal_is_digits, law_decimal_is_read, law_lines_are_read_back, law_pieces_some,
    law_split_undoes_join, left_aligned, lines, lines_of, pad_both, pad_left, pad_right, parse_u32,
    parsed, repeat, repeated, right_aligned, same, spaces, split_at_char, split_char,
};
use vstd::prelude::*;

verus! {

broadcast use vstd::seq::group_seq_axioms;

/// How much of a change whom it is due to.
#[derive(Debug, Clone, Copy, PartialEq, Eq, Structural)]
pub struct CommitStats {
    /// Lines written only by humans
    pub human_additions: u32,
    /// AI-generated lines that were edited by humans
    pub mixed_additions: u32,
    /// AI-generated lines with no human editing
    pub ai_additions: u32,
    pub ai_accepted: u32,
    /// Seconds
    pub time_waiting_for_ai: u64,
    /// Total input (prompt) tokens consumed by AI responses in this commit (if available).
    pub ai_input_tokens: u64,
    /// Total output (completion) tokens produced by AI responses in this commit (if available).
    pub ai_output_tokens: u64,
    /// Total cache read input tokens (if reported by the agent/provider).
    pub ai_cache_read_input_tokens: u64,
    /// Total cache creation input tokens (if reported by the agent/provider).
    pub ai_cache_creation_input_tokens: u64,
    pub git_diff_deleted_lines: u32,
    pub git_diff_added_lines: u32,
}

impl DeepView for CommitStats {
    type V = CommitStats;

    open spec fn deep_view(&self) -> CommitStats {
        *self
    }
}

// ---------------------------------------------------------------------------------------------
// Waiting
// ---------------------------------------------------------------------------------------------
/// The seconds that count of a distance in time: none where it is not known or not forward.
pub open spec fn pause(read: Option<i64>) -> nat {
    match read {
        Some(n) => if n > 0 {
            n as nat
        } else {
            0
        },
        None => 0,
    }
}

/// The seconds that count of a distance in time.
pub fn pause_of(read: Option<i64>) -> (r: u64)
    ensures
        r == pause(read),
{
    match read {
        Some(n) => if n > 0 {
            n as u64
        } else {
            0
        },
        None => 0,
    }
}

/// The seconds from a question to the answer that follows it.
pub open spec fn answer_time(question: MessageView, answer: MessageView) -> nat {
    match (question, answer) {
        (
            MessageView::User { timestamp: Some(asked_at), .. },
            MessageView::Assistant { timestamp: Some(answered_at), .. },
        ) => pause(seconds_from_to(asked_at, answered_at)),
        _ => 0,
    }
}

/// The seconds from each question to the answer that follows it.
pub open spec fn answer_times(messages: Seq<MessageView>) -> nat
    decreases messages.len(),
{
    if messages.len() < 2 {
        0
    } else {
        answer_times(messages.drop_last()) + answer_time(
            messages[messages.len() - 2],
            messages[messages.len() - 1],
        )
    }
}

/// The time that was spent waiting for answers; none where the last word is the user's.
pub open spec fn waiting_of(messages: Seq<MessageView>) -> nat {
    if messages.len() <= 1 || messages.last() is User {
        0
    } else {
        answer_times(messages)
    }
}

fn read_answer_time(question: &Message, answer: &Message) -> (r: u64)
    ensures
        r == answer_time(question.deep_view(), answer.deep_view()),
        r <= i64::MAX,
{
    match (question, answer) {
        (
            Message::User { timestamp: Some(user_ts), .. },
            Message::Assistant { timestamp: Some(ai_ts), .. },
        ) => pause_of(read_seconds_between(user_ts.as_str(), ai_ts.as_str())),
        _ => 0,
    }
}

fn sum_waiting(messages: &Vec<Message>) -> (r: u128)
    ensures
        r == waiting_of(messages.deep_view()),
{
    let n: usize = messages.len();
    let ghost all = messages.deep_view();
    if n <= 1 {
        return 0;
    }
    assert(all.last() == messages@[n - 1].deep_view());
    // Check if last message is from human (don't count time if so)
    if let Message::User { .. } = &messages[n - 1] {
        return 0;
    }
    // Sum time between user and AI messages

    let mut total: u128 = 0;
    let mut i: usize = 1;
    while i < n
        invariant
            1 <= i <= n,
            n == messages@.len(),
            all == messages.deep_view(),
            total == answer_times(all.take(i as int)),
            total <= i * 0x7fff_ffff_ffff_ffff,
        decreases n - i,
    {
        assert(all.take(i + 1).drop_last() =~= all.take(i as int));
        assert(all.take(i + 1)[i - 1] == messages@[i - 1].deep_view());
        assert(all.take(i + 1)[i as int] == messages@[i as int].deep_view());
        let more: u64 = read_answer_time(&messages[i - 1], &messages[i]);
        assert(i * 0x7fff_ffff_ffff_ffff <= 0xffff_ffff_ffff_ffff * 0x7fff_ffff_ffff_ffff);
        total = total + more as u128;
        i = i + 1;
    }
    assert(all.take(i as int) =~= all);
    total
}

/// Says whether the time that was spent waiting fits in a `u64`.
pub fn waiting_fits(transcript: &AiTranscript) -> (r: bool)
    ensures
        r == (waiting_of(transcript.deep_view()) <= u64::MAX),
{
    sum_waiting(&transcript.messages) <= u64::MAX as u128
}

/// Calculate time waiting for AI from transcript messages
pub fn calculate_waiting_time(transcript: &AiTranscript) -> (r: u64)
    requires
        waiting_of(transcript.deep_view()) <= u64::MAX,
    ensures
        r == waiting_of(transcript.deep_view()),
{
    sum_waiting(&transcript.messages) as u64
}

// ---------------------------------------------------------------------------------------------
// Tallies
// ---------------------------------------------------------------------------------------------
/// What is counted of an authorship log.
pub struct Tally {
    pub human: nat,
    pub mixed: nat,
    pub ai: nat,
    pub accepted: nat,
    pub waiting: nat,
    pub input: nat,
    pub output: nat,
    pub cache_read: nat,
    pub cache_creation: nat,
}

/// Nothing counted.
pub open spec fn no_tally() -> Tally {
    Tally {
        human: 0,
        mixed: 0,
        ai: 0,
        accepted: 0,
        waiting: 0,
        input: 0,
        output: 0,
        cache_read: 0,
        cache_creation: 0,
    }
}

pub open spec fn or_zero(n: Option<u32>) -> nat {
    match n {
        Some(n) => n as nat,
        None => 0,
    }
}

/// The tokens that an answer used.
pub open spec fn with_usage(t: Tally, message: MessageView) -> Tally {
    match message {
        MessageView::Assistant { usage: Some(usage), .. } => Tally {
            input: t.input + or_zero(usage.input_tokens),
            output: t.output + or_zero(usage.output_tokens),
            cache_read: t.cache_read + or_zero(usage.cache_read_input_tokens),
            cache_creation: t.cache_creation + or_zero(usage.cache_creation_input_tokens),
            ..t
        },
        _ => t,
    }
}

/// The tokens that the answers used.
pub open spec fn with_usages(t: Tally, messages: Seq<MessageView>) -> Tally
    decreases messages.len(),
{
    if messages.len() == 0 {
        t
    } else {
        with_usage(with_usages(t, messages.drop_last()), messages.last())
    }
}

pub open spec fn lesser(a: nat, b: nat) -> nat {
    if a <= b {
        a
    } else {
        b
    }
}

/// One more entry: lines of a known session are the AI's, but for those that were overridden; other
/// lines are human.
pub open spec fn with_entry(
    t: Tally,
    prompts: Seq<(Seq<char>, PromptRecordView)>,
    entry: AttestationEntryView,
) -> Tally {
    let lines = total_len(entry.line_ranges) as nat;
    match value_of(prompts, entry.hash) {
        Some(prompt) => {
            let overridden = lesser(prompt.overriden_lines as nat, lines);
            Tally {
                mixed: t.mixed + overridden,
                ai: t.ai + (lines - overridden) as nat,
                accepted: t.accepted + lines,
                ..t
            }
        },
        None => Tally { human: t.human + lines, ..t },
    }
}

/// The tally of the lines of some entries.
pub open spec fn tally(
    prompts: Seq<(Seq<char>, PromptRecordView)>,
    entries: Seq<AttestationEntryView>,
) -> Tally
    decreases entries.len(),
{
    if entries.len() == 0 {
        no_tally()
    } else {
        with_entry(tally(prompts, entries.drop_last()), prompts, entries.last())
    }
}

/// The entries of all files.
pub open spec fn all_entries(attestations: Seq<FileAttestationView>) -> Seq<AttestationEntryView>
    decreases attestations.len(),
{
    if attestations.len() == 0 {
        Seq::empty()
    } else {
        all_entries(attestations.drop_last()) + attestations.last().entries
    }
}

/// Some entry names the session.
pub open spec fn is_named(entries: Seq<AttestationEntryView>, session: Seq<char>) -> bool {
    exists|i: int| 0 <= i < entries.len() && (#[trigger] entries[i]).hash == session
}

/// One more session: the time that was spent waiting for its answers, and their tokens.
pub open spec fn with_session(t: Tally, prompt: PromptRecordView) -> Tally {
    with_usages(
        Tally { waiting: t.waiting + waiting_of(prompt.messages), ..t },
        prompt.messages,
    )
}

/// The first `k` of the sessions, each once, as far as some entry names them.
pub open spec fn with_sessions(
    t: Tally,
    prompts: Seq<(Seq<char>, PromptRecordView)>,
    entries: Seq<AttestationEntryView>,
    k: nat,
) -> Tally
    decreases k,
{
    if k == 0 {
        t
    } else {
        let before = with_sessions(t, prompts, entries, (k - 1) as nat);
        if is_named(entries, prompts[k - 1].0) && place_of(prompts, prompts[k - 1].0) == k - 1 {
            with_session(before, prompts[k - 1].1)
        } else {
            before
        }
    }
}

/// The tally of a log: lines entry by entry, waiting and tokens session by session.
pub open spec fn tally_of(log: AuthorshipLogView) -> Tally {
    with_sessions(
        tally(log.metadata.prompts, all_entries(log.attestations)),
        log.metadata.prompts,
        all_entries(log.attestations),
        log.metadata.prompts.len(),
    )
}

/// The counts have room.
pub open spec fn tally_fits(t: Tally) -> bool {
    &&& t.human <= u32::MAX
    &&& t.mixed <= u32::MAX
    &&& t.ai <= u32::MAX
    &&& t.accepted <= u32::MAX
    &&& t.waiting <= u64::MAX
    &&& t.input <= u64::MAX
    &&& t.output <= u64::MAX
    &&& t.cache_read <= u64::MAX
    &&& t.cache_creation <= u64::MAX
}

/// No range ends before it starts.
pub open spec fn ranges_valid(ranges: Seq<LineRange>) -> bool {
    forall|i: int|
        0 <= i < ranges.len() ==> range_start(#[trigger] ranges[i]) <= range_end(ranges[i])
}

pub open spec fn entries_valid(entries: Seq<AttestationEntryView>) -> bool {
    forall|i: int| 0 <= i < entries.len() ==> ranges_valid((#[trigger] entries[i]).line_ranges)
}

/// A log that can be counted.
pub open spec fn countable(log: AuthorshipLogView) -> bool {
    entries_valid(all_entries(log.attestations)) && tally_fits(tally_of(log))
}

/// What is counted of an authorship log, before it is known to have room.
#[derive(Clone, Copy)]
struct Counts {
    human: u128,
    mixed: u128,
    ai: u128,
    accepted: u128,
    waiting: u128,
    input: u128,
    output: u128,
    cache_read: u128,
    cache_creation: u128,
}

impl View for Counts {
    type V = Tally;

    closed spec fn view(&self) -> Tally {
        Tally {
            human: self.human as nat,
            mixed: self.mixed as nat,
            ai: self.ai as nat,
            accepted: self.accepted as nat,
            waiting: self.waiting as nat,
            input: self.input as nat,
            output: self.output as nat,
            cache_read: self.cache_read as nat,
            cache_creation: self.cache_creation as nat,
        }
    }
}

spec fn tally_le(a: Tally, b: Tally) -> bool {
    &&& a.human <= b.human
    &&& a.mixed <= b.mixed
    &&& a.ai <= b.ai
    &&& a.accepted <= b.accepted
    &&& a.waiting <= b.waiting
    &&& a.input <= b.input
    &&& a.output <= b.output
    &&& a.cache_read <= b.cache_read
    &&& a.cache_creation <= b.cache_creation
}

proof fn lemma_usages_grow(t: Tally, messages: Seq<MessageView>)
    ensures
        tally_le(t, with_usages(t, messages)),
        with_usages(t, messages).human == t.human,
        with_usages(t, messages).mixed == t.mixed,
        with_usages(t, messages).ai == t.ai,
        with_usages(t, messages).accepted == t.accepted,
        with_usages(t, messages).waiting == t.waiting,
    decreases messages.len(),
{
    if messages.len() > 0 {
        lemma_usages_grow(t, messages.drop_last());
    }
}

proof fn lemma_entry_grows(
    t: Tally,
    prompts: Seq<(Seq<char>, PromptRecordView)>,
    entry: AttestationEntryView,
)
    ensures
        tally_le(t, with_entry(t, prompts, entry)),
        ranges_valid(entry.line_ranges) ==> {
            ||| total_len(entry.line_ranges) <= with_entry(t, prompts, entry).accepted
            ||| total_len(entry.line_ranges) <= with_entry(t, prompts, entry).human
        },
{
    lemma_total_len(entry.line_ranges);
}

proof fn lemma_session_grows(t: Tally, prompt: PromptRecordView)
    ensures
        tally_le(t, with_session(t, prompt)),
        with_session(t, prompt).waiting == t.waiting + waiting_of(prompt.messages),
{
    lemma_usages_grow(
        Tally { waiting: t.waiting + waiting_of(prompt.messages), ..t },
        prompt.messages,
    );
}

proof fn lemma_sessions_grow(
    t: Tally,
    prompts: Seq<(Seq<char>, PromptRecordView)>,
    entries: Seq<AttestationEntryView>,
    j: nat,
    k: nat,
)
    requires
        j <= k,
    ensures
        tally_le(
            with_sessions(t, prompts, entries, j),
            with_sessions(t, prompts, entries, k),
        ),
    decreases k,
{
    if j < k {
        lemma_sessions_grow(t, prompts, entries, j, (k - 1) as nat);
        lemma_session_grows(
            with_sessions(t, prompts, entries, (k - 1) as nat),
            prompts[k - 1].1,
        );
    }
}

proof fn lemma_total_len(ranges: Seq<LineRange>)
    ensures
        ranges_valid(ranges) ==> total_len(ranges) >= 0,
    decreases ranges.len(),
{
    if ranges.len() > 0 && ranges_valid(ranges) {
        let rest = ranges.drop_first();
        assert(range_start(ranges[0]) <= range_end(ranges[0]));
        assert forall|i: int| 0 <= i < rest.len() implies range_start(#[trigger] rest[i])
            <= range_end(rest[i]) by {
            assert(rest[i] == ranges[i + 1]);
        }
        lemma_total_len(rest);
    }
}

proof fn lemma_tally_grows(
    prompts: Seq<(Seq<char>, PromptRecordView)>,
    entries: Seq<AttestationEntryView>,
    k: int,
)
    requires
        0 <= k <= entries.len(),
    ensures
        tally_le(tally(prompts, entries.take(k)), tally(prompts, entries)),
    decreases entries.len() - k,
{
    if k < entries.len() {
        assert(entries.take(k + 1).drop_last() =~= entries.take(k));
        lemma_entry_grows(tally(prompts, entries.take(k)), prompts, entries[k]);
        lemma_tally_grows(prompts, entries, k + 1);
    } else {
        assert(entries.take(k) =~= entries);
    }
}

/// The two count the same lines.
pub open spec fn same_lines(a: Tally, b: Tally) -> bool {
    a.human == b.human && a.mixed == b.mixed && a.ai == b.ai && a.accepted == b.accepted
}

/// The two count the same waiting and the same tokens.
pub open spec fn same_usage(a: Tally, b: Tally) -> bool {
    &&& a.waiting == b.waiting
    &&& a.input == b.input
    &&& a.output == b.output
    &&& a.cache_read == b.cache_read
    &&& a.cache_creation == b.cache_creation
}

proof fn lemma_sessions_keep_lines(
    t: Tally,
    prompts: Seq<(Seq<char>, PromptRecordView)>,
    entries: Seq<AttestationEntryView>,
    k: nat,
)
    ensures
        same_lines(t, with_sessions(t, prompts, entries, k)),
    decreases k,
{
    if k > 0 {
        lemma_sessions_keep_lines(t, prompts, entries, (k - 1) as nat);
        let before = with_sessions(t, prompts, entries, (k - 1) as nat);
        let prompt = prompts[k - 1].1;
        lemma_usages_grow(
            Tally { waiting: before.waiting + waiting_of(prompt.messages), ..before },
            prompt.messages,
        );
    }
}

proof fn lemma_entries_use_nothing(
    prompts: Seq<(Seq<char>, PromptRecordView)>,
    entries: Seq<AttestationEntryView>,
)
    ensures
        same_usage(tally(prompts, entries), no_tally()),
    decreases entries.len(),
{
    if entries.len() > 0 {
        lemma_entries_use_nothing(prompts, entries.drop_last());
    }
}

proof fn lemma_usages_alike(a: Tally, b: Tally, messages: Seq<MessageView>)
    requires
        same_usage(a, b),
    ensures
        same_usage(with_usages(a, messages), with_usages(b, messages)),
    decreases messages.len(),
{
    if messages.len() > 0 {
        lemma_usages_alike(a, b, messages.drop_last());
    }
}

proof fn lemma_sessions_alike(
    a: Tally,
    b: Tally,
    prompts: Seq<(Seq<char>, PromptRecordView)>,
    one: Seq<AttestationEntryView>,
    other: Seq<AttestationEntryView>,
    k: nat,
)
    requires
        same_usage(a, b),
        forall|session: Seq<char>| #[trigger] is_named(one, session) == is_named(other, session),
    ensures
        same_usage(
            with_sessions(a, prompts, one, k),
            with_sessions(b, prompts, other, k),
        ),
    decreases k,
{
    if k > 0 {
        lemma_sessions_alike(a, b, prompts, one, other, (k - 1) as nat);
        let x = with_sessions(a, prompts, one, (k - 1) as nat);
        let y = with_sessions(b, prompts, other, (k - 1) as nat);
        let prompt = prompts[k - 1].1;
        assert(is_named(one, prompts[k - 1].0) == is_named(other, prompts[k - 1].0));
        lemma_usages_alike(
            Tally { waiting: x.waiting + waiting_of(prompt.messages), ..x },
            Tally { waiting: y.waiting + waiting_of(prompt.messages), ..y },
            prompt.messages,
        );
    }
}

proof fn lemma_accepted(
    prompts: Seq<(Seq<char>, PromptRecordView)>,
    entries: Seq<AttestationEntryView>,
)
    requires
        entries_valid(entries),
    ensures
        tally(prompts, entries).accepted == tally(prompts, entries).mixed + tally(
            prompts,
            entries,
        ).ai,
    decreases entries.len(),
{
    if entries.len() > 0 {
        let d = entries.drop_last();
        assert forall|i: int| 0 <= i < d.len() implies ranges_valid(
            (#[trigger] d[i]).line_ranges,
        ) by {
            assert(d[i] == entries[i]);
        }
        lemma_accepted(prompts, d);
    }
}

/// The lines that are said to be accepted are the AI's lines, whether or not they were overridden.
pub proof fn law_accepted_lines_are_the_ai_lines(log: AuthorshipLogView)
    requires
        entries_valid(all_entries(log.attestations)),
    ensures
        tally_of(log).accepted == tally_of(log).mixed + tally_of(log).ai,
{
    let entries = all_entries(log.attestations);
    let prompts = log.metadata.prompts;
    lemma_accepted(prompts, entries);
    lemma_sessions_keep_lines(tally(prompts, entries), prompts, entries, prompts.len());
}

/// Waiting and tokens do not depend on how many entries name a session, nor on which: two logs
/// with the same sessions, of which they name the same, count the same.
pub proof fn law_sessions_count_once(one: AuthorshipLogView, other: AuthorshipLogView)
    requires
        one.metadata.prompts == other.metadata.prompts,
        forall|session: Seq<char>| #[trigger]
            is_named(all_entries(one.attestations), session) == is_named(
                all_entries(other.attestations),
                session,
            ),
    ensures
        same_usage(tally_of(one), tally_of(other)),
{
    let prompts = one.metadata.prompts;
    let a = all_entries(one.attestations);
    let b = all_entries(other.attestations);
    lemma_entries_use_nothing(prompts, a);
    lemma_entries_use_nothing(prompts, b);
    lemma_sessions_alike(tally(prompts, a), tally(prompts, b), prompts, a, b, prompts.len());
}

proof fn lemma_total_len_take(ranges: Seq<LineRange>, i: int)
    requires
        0 <= i < ranges.len(),
    ensures
        total_len(ranges.skip(i)) == range_len(ranges[i]) + total_len(ranges.skip(i + 1)),
{
    assert(ranges.skip(i).drop_first() =~= ranges.skip(i + 1));
}

/// How many lines the ranges have, or `None` where a range ends before it starts or there are too
/// many.
pub fn count_lines(ranges: &Vec<LineRange>) -> (r: Option<u32>)
    ensures
        match r {
            Some(n) => ranges_valid(ranges@) && n == total_len(ranges@),
            None => !ranges_valid(ranges@) || total_len(ranges@) > u32::MAX,
        },
{
    let mut n: u64 = 0;
    let mut i: usize = 0;
    assert(ranges@.skip(0) =~= ranges@);
    let ghost whole = total_len(ranges@);
    while i < ranges.len()
        invariant
            i <= ranges@.len(),
            n + total_len(ranges@.skip(i as int)) == whole,
            whole == total_len(ranges@),
            n <= u32::MAX,
            forall|j: int|
                0 <= j < i ==> range_start(#[trigger] ranges@[j]) <= range_end(ranges@[j]),
        decreases ranges@.len() - i,
    {
        proof {
            lemma_total_len_take(ranges@, i as int);
        }
        let more: u64 = match ranges[i] {
            LineRange::Single(_) => 1,
            LineRange::Range(start, end) => {
                if end < start {
                    assert(range_start(ranges@[i as int]) > range_end(ranges@[i as int]));
                    return None;
                }
                end as u64 - start as u64 + 1
            },
        };
        n = n + more;
        if n > u32::MAX as u64 {
            proof {
                let rest = ranges@.skip(i + 1);
                if ranges_valid(ranges@) {
                    assert forall|j: int| 0 <= j < rest.len() implies range_start(
                        #[trigger] rest[j],
                    ) <= range_end(rest[j]) by {
                        assert(rest[j] == ranges@[i + 1 + j]);
                    }
                    lemma_total_len(rest);
                }
            }
            return None;
        }
        i = i + 1;
    }
    assert(ranges@.skip(i as int) =~= Seq::empty());
    Some(n as u32)
}

fn tokens(n: Option<u32>) -> (r: u128)
    ensures
        r == or_zero(n),
        r <= u32::MAX,
{
    match n {
        Some(n) => n as u128,
        None => 0,
    }
}

fn add_usages(counts: Counts, messages: &Vec<Message>) -> (r: Counts)
    requires
        counts.input <= u64::MAX,
        counts.output <= u64::MAX,
        counts.cache_read <= u64::MAX,
        counts.cache_creation <= u64::MAX,
    ensures
        r@ == with_usages(counts@, messages.deep_view()),
{
    let ghost all = messages.deep_view();
    let mut c = counts;
    let mut i: usize = 0;
    assert(all.take(0) =~= Seq::empty());
    while i < messages.len()
        invariant
            i <= messages@.len(),
            all == messages.deep_view(),
            c@ == with_usages(counts@, all.take(i as int)),
            c.input <= u64::MAX + i * 0xffff_ffff,
            c.output <= u64::MAX + i * 0xffff_ffff,
            c.cache_read <= u64::MAX + i * 0xffff_ffff,
            c.cache_creation <= u64::MAX + i * 0xffff_ffff,
        decreases messages@.len() - i,
    {
        assert(all.take(i + 1).drop_last() =~= all.take(i as int));
        assert(all.take(i + 1).last() == messages@[i as int].deep_view());
        assert(i * 0xffff_ffff <= 0xffff_ffff_ffff_ffff * 0xffff_ffff);
        if let Message::Assistant { usage: Some(usage), .. } = &messages[i] {
            c.input = c.input + tokens(usage.input_tokens);
            c.output = c.output + tokens(usage.output_tokens);
            c.cache_read = c.cache_read + tokens(usage.cache_read_input_tokens);
            c.cache_creation = c.cache_creation + tokens(usage.cache_creation_input_tokens);
        }
        i = i + 1;
    }
    assert(all.take(i as int) =~= all);
    c
}

impl Counts {
    fn fits(&self) -> (r: bool)
        ensures
            r == tally_fits(self@),
    {
        self.human <= u32::MAX as u128 && self.mixed <= u32::MAX as u128 && self.ai
            <= u32::MAX as u128 && self.accepted <= u32::MAX as u128 && self.waiting
            <= u64::MAX as u128 && self.input <= u64::MAX as u128 && self.output
            <= u64::MAX as u128 && self.cache_read <= u64::MAX as u128 && self.cache_creation
            <= u64::MAX as u128
    }
}

fn add_entry(
    counts: Counts,
    prompts: &Vec<(String, PromptRecord)>,
    entry: &AttestationEntry,
) -> (r: Option<Counts>)
    requires
        tally_fits(counts@),
    ensures
        match r {
            Some(c) => ranges_valid(entry.line_ranges@) && c@ == with_entry(
                counts@,
                prompts.deep_view(),
                entry.deep_view(),
            ) && tally_fits(c@),
            None => !ranges_valid(entry.line_ranges@) || !tally_fits(
                with_entry(counts@, prompts.deep_view(), entry.deep_view()),
            ),
        },
{
    proof {
        lemma_entry_grows(counts@, prompts.deep_view(), entry.deep_view());
    }
    // Count lines in this entry
    let lines_in_entry: u32 = count_lines(&entry.line_ranges)?;
    let mut c = counts;
    // Check if this is an AI-generated entry
    match get(prompts, entry.hash.as_str()) {
        Some(prompt_record) => {
            // Mixed: AI-generated but edited by humans
            // Ensure we don't have more overridden lines than total lines
            let overriden_lines: u32 = if prompt_record.overriden_lines <= lines_in_entry {
                prompt_record.overriden_lines
            } else {
                lines_in_entry
            };
            c.mixed = c.mixed + overriden_lines as u128;
            c.ai = c.ai + (lines_in_entry - overriden_lines) as u128;
            c.accepted = c.accepted + lines_in_entry as u128;
        },
        None => {
            // Human-authored lines
            c.human = c.human + lines_in_entry as u128;
        },
    }
    if c.fits() {
        Some(c)
    } else {
        None
    }
}

fn add_session(counts: Counts, prompt_record: &PromptRecord) -> (r: Option<Counts>)
    requires
        tally_fits(counts@),
    ensures
        match r {
            Some(c) => c@ == with_session(counts@, prompt_record.deep_view()) && tally_fits(c@),
            None => !tally_fits(with_session(counts@, prompt_record.deep_view())),
        },
{
    proof {
        lemma_session_grows(counts@, prompt_record.deep_view());
    }
    // Calculate time waiting for AI from transcript
    let transcript = AiTranscript { messages: clone_messages(&prompt_record.messages) };
    if !waiting_fits(&transcript) {
        return None;
    }
    let mut c = counts;
    c.waiting = c.waiting + calculate_waiting_time(&transcript) as u128;
    // Sum token usage for this prompt session if available
    c = add_usages(c, &prompt_record.messages);
    if c.fits() {
        Some(c)
    } else {
        None
    }
}

proof fn lemma_named_in_both(
    one: Seq<AttestationEntryView>,
    other: Seq<AttestationEntryView>,
    session: Seq<char>,
)
    ensures
        is_named(one + other, session) == (is_named(one, session) || is_named(other, session)),
{
    let both = one + other;
    if is_named(one, session) {
        let i = choose|i: int| 0 <= i < one.len() && (#[trigger] one[i]).hash == session;
        assert(both[i].hash == session);
    }
    if is_named(other, session) {
        let i = choose|i: int| 0 <= i < other.len() && (#[trigger] other[i]).hash == session;
        assert(both[one.len() + i].hash == session);
    }
    if is_named(both, session) {
        let i = choose|i: int| 0 <= i < both.len() && (#[trigger] both[i]).hash == session;
        if i < one.len() {
            assert(one[i].hash == session);
        } else {
            assert(other[i - one.len()].hash == session);
        }
    }
}

fn names_session(attestations: &Vec<FileAttestation>, session: &str) -> (r: bool)
    ensures
        r == is_named(all_entries(attestations.deep_view()), session@),
{
    let ghost all = attestations.deep_view();
    let mut f: usize = 0;
    let mut named = false;
    assert(all.take(0) =~= Seq::empty());
    while f < attestations.len()
        invariant
            f <= attestations@.len(),
            all == attestations.deep_view(),
            named == is_named(all_entries(all.take(f as int)), session@),
        decreases attestations@.len() - f,
    {
        let file = &attestations[f];
        let ghost entries = all[f as int].entries;
        assert(all[f as int] == file.deep_view());
        let mut here = false;
        let mut e: usize = 0;
        while e < file.entries.len()
            invariant
                e <= file.entries@.len(),
                entries == file.entries.deep_view(),
                here == (exists|i: int| 0 <= i < e && (#[trigger] entries[i]).hash == session@),
            decreases file.entries@.len() - e,
        {
            assert(entries[e as int] == file.entries@[e as int].deep_view());
            if same(file.entries[e].hash.as_str(), session) {
                here = true;
            }
            e = e + 1;
        }
        proof {
            assert(here == is_named(entries, session@));
            assert(all.take(f + 1).drop_last() =~= all.take(f as int));
            lemma_named_in_both(all_entries(all.take(f as int)), entries, session@);
        }
        if here {
            named = true;
        }
        f = f + 1;
    }
    assert(all.take(f as int) =~= all);
    named
}

proof fn lemma_all_entries_at(attestations: Seq<FileAttestationView>, f: int, e: int)
    requires
        0 <= f < attestations.len(),
        0 <= e <= attestations[f].entries.len(),
    ensures
        all_entries(attestations.take(f)).len() + e <= all_entries(attestations).len(),
        all_entries(attestations).take(all_entries(attestations.take(f)).len() + e) == all_entries(
            attestations.take(f),
        ) + attestations[f].entries.take(e),
    decreases attestations.len() - f,
{
    let before = all_entries(attestations.take(f));
    let entries = attestations[f].entries;
    let next = attestations.take(f + 1);
    assert(next.drop_last() =~= attestations.take(f));
    assert(next.last() == attestations[f]);
    assert(all_entries(next) == before + entries);
    if f + 1 == attestations.len() {
        assert(next =~= attestations);
        assert(all_entries(attestations).take(before.len() + e) =~= before + entries.take(e));
    } else {
        lemma_all_entries_at(attestations, f + 1, 0);
        let all = all_entries(attestations);
        assert(all.take(all_entries(next).len() as int) =~= all_entries(next) + Seq::<
            AttestationEntryView,
        >::empty());
        assert(attestations[f + 1].entries.take(0) =~= Seq::<AttestationEntryView>::empty());
        assert(all.take(before.len() + e) =~= all.take(all_entries(next).len() as int).take(
            before.len() + e,
        ));
        assert(all.take(before.len() + e) =~= before + entries.take(e));
    }
}

fn tally_lines(log: &AuthorshipLog) -> (r: Option<Counts>)
    ensures
        ({
            let entries = all_entries(log.deep_view().attestations);
            let t = tally(log.deep_view().metadata.prompts, entries);
            match r {
                Some(c) => entries_valid(entries) && tally_fits(c@) && c@ == t,
                None => !entries_valid(entries) || !tally_fits(t),
            }
        }),
{
    let ghost attestations = log.deep_view().attestations;
    let ghost prompts = log.deep_view().metadata.prompts;
    let ghost all = all_entries(attestations);
    let mut counts = Counts {
        human: 0,
        mixed: 0,
        ai: 0,
        accepted: 0,
        waiting: 0,
        input: 0,
        output: 0,
        cache_read: 0,
        cache_creation: 0,
    };
    let ghost mut done: int = 0;
    assert(all.take(0) =~= Seq::empty());
    assert(attestations.take(0) =~= Seq::empty());
    let mut f: usize = 0;
    // Count lines by author type
    while f < log.attestations.len()
        invariant
            f <= log.attestations@.len(),
            attestations == log.deep_view().attestations,
            prompts == log.deep_view().metadata.prompts,
            all == all_entries(attestations),
            done == all_entries(attestations.take(f as int)).len(),
            0 <= done <= all.len(),
            counts@ == tally(prompts, all.take(done)),
            tally_fits(counts@),
            entries_valid(all.take(done)),
        decreases log.attestations@.len() - f,
    {
        let file = &log.attestations[f];
        let ghost before = all_entries(attestations.take(f as int));
        let ghost entries = attestations[f as int].entries;
        assert(attestations[f as int] == file.deep_view());
        let mut e: usize = 0;
        while e < file.entries.len()
            invariant
                f < log.attestations@.len(),
                e <= file.entries@.len(),
                attestations == log.deep_view().attestations,
                prompts == log.deep_view().metadata.prompts,
                all == all_entries(attestations),
                before == all_entries(attestations.take(f as int)),
                entries == attestations[f as int].entries,
                entries == file.entries.deep_view(),
                done == before.len() + e,
                0 <= done <= all.len(),
                counts@ == tally(prompts, all.take(done)),
                tally_fits(counts@),
                entries_valid(all.take(done)),
            decreases file.entries@.len() - e,
        {
            let ghost entry = entries[e as int];
            assert(entry == file.entries@[e as int].deep_view());
            proof {
                lemma_all_entries_at(attestations, f as int, e as int);
                lemma_all_entries_at(attestations, f as int, e + 1);
                assert(all.take(done + 1) == before + entries.take(e + 1));
                assert(all[done] == all.take(done + 1)[done]);
                assert(all[done] == entry);
                assert(all.take(done + 1).drop_last() =~= all.take(done));
                assert(all.take(done + 1).last() == entry);
            }
            match add_entry(counts, &log.metadata.prompts, &file.entries[e]) {
                Some(c) => {
                    counts = c;
                },
                None => {
                    proof {
                        lemma_tally_grows(prompts, all, done + 1);
                        if entries_valid(all) {
                            assert(ranges_valid(all[done].line_ranges));
                        }
                    }
                    return None;
                },
            }
            proof {
                assert forall|i: int| 0 <= i < done + 1 implies ranges_valid(
                    (#[trigger] all.take(done + 1)[i]).line_ranges,
                ) by {
                    if i < done {
                        assert(all.take(done + 1)[i] == all.take(done)[i]);
                    }
                }
                done = done + 1;
            }
            e = e + 1;
        }
        assert(attestations.take(f + 1).drop_last() =~= attestations.take(f as int));
        f = f + 1;
    }
    assert(attestations.take(f as int) =~= attestations);
    assert(all.take(done) =~= all);
    Some(counts)
}

fn tally_log(log: &AuthorshipLog) -> (r: Option<Counts>)
    ensures
        match r {
            Some(c) => countable(log.deep_view()) && c@ == tally_of(log.deep_view()),
            None => !countable(log.deep_view()),
        },
{
    let ghost prompts = log.deep_view().metadata.prompts;
    let ghost entries = all_entries(log.deep_view().attestations);
    let ghost lines = tally(prompts, entries);
    proof {
        lemma_sessions_grow(lines, prompts, entries, 0, prompts.len());
    }
    let mut counts = tally_lines(log)?;
    let mut k: usize = 0;
    while k < log.metadata.prompts.len()
        invariant
            k <= log.metadata.prompts@.len(),
            prompts == log.deep_view().metadata.prompts,
            entries == all_entries(log.deep_view().attestations),
            lines == tally(prompts, entries),
            entries_valid(entries),
            counts@ == with_sessions(lines, prompts, entries, k as nat),
            tally_fits(counts@),
        decreases log.metadata.prompts@.len() - k,
    {
        let pair = &log.metadata.prompts[k];
        assert(prompts[k as int] == pair.deep_view());
        proof {
            lemma_sessions_grow(lines, prompts, entries, (k + 1) as nat, prompts.len());
        }
        let place = find(&log.metadata.prompts, pair.0.as_str());
        proof {
            lemma_place_bounds(prompts, pair.0@);
        }
        let is_first = match place {
            Some(i) => i == k,
            None => false,
        };
        if is_first && names_session(&log.attestations, pair.0.as_str()) {
            counts = add_session(counts, &pair.1)?;
        }
        k = k + 1;
    }
    Some(counts)
}

/// Says whether a log can be counted.
pub fn can_count(log: &AuthorshipLog) -> (r: bool)
    ensures
        r == countable(log.deep_view()),
{
    tally_log(log).is_some()
}

/// Analyze authorship log to extract statistics: human, mixed, AI and accepted lines, seconds of
/// waiting, and input, output, cache read and cache creation tokens.
pub fn analyze_authorship_log(authorship_log: &AuthorshipLog) -> (r: Result<
    (u32, u32, u32, u32, u64, u64, u64, u64, u64),
    GitAiError,
>)
    requires
        countable(authorship_log.deep_view()),
    ensures
        r matches Ok(counts) && ({
            let t = tally_of(authorship_log.deep_view());
            &&& counts.0 == t.human
            &&& counts.1 == t.mixed
            &&& counts.2 == t.ai
            &&& counts.3 == t.accepted
            &&& counts.4 == t.waiting
            &&& counts.5 == t.input
            &&& counts.6 == t.output
            &&& counts.7 == t.cache_read
            &&& counts.8 == t.cache_creation
        }),
{
    match tally_log(authorship_log) {
        Some(c) => Ok(
            (
                c.human as u32,
                c.mixed as u32,
                c.ai as u32,
                c.accepted as u32,
                c.waiting as u64,
                c.input as u64,
                c.output as u64,
                c.cache_read as u64,
                c.cache_creation as u64,
            ),
        ),
        None => Ok((0, 0, 0, 0, 0, 0, 0, 0, 0)),
    }
}

// ---------------------------------------------------------------------------------------------
// Statistics of a commit
// ---------------------------------------------------------------------------------------------
/// A line of `git show --numstat`: one that starts with a digit.
pub open spec fn is_numstat(line: Seq<char>) -> bool {
    line.len() > 0 && is_digit(line[0])
}

/// The number of lines that field `i` of a line of `git show --numstat` gives; none where the line
/// has less than two fields or the field is not a number.
pub open spec fn numstat_field(line: Seq<char>, i: int) -> nat {
    let parts = split_at_char(line, '\t');
    if is_numstat(line) && parts.len() >= 2 {
        match parsed(parts[i], u32::MAX as nat) {
            Some(n) => n,
            None => 0,
        }
    } else {
        0
    }
}

/// The sum of field `i` over the lines.
pub open spec fn numstat_sum(all: Seq<Seq<char>>, i: int) -> nat
    decreases all.len(),
{
    if all.len() == 0 {
        0
    } else {
        numstat_sum(all.drop_last(), i) + numstat_field(all.last(), i)
    }
}

proof fn lemma_numstat_grows(all: Seq<Seq<char>>, i: int, k: int)
    requires
        0 <= k <= all.len(),
    ensures
        numstat_sum(all.take(k), i) <= numstat_sum(all, i),
    decreases all.len() - k,
{
    if k < all.len() {
        assert(all.take(k + 1).drop_last() =~= all.take(k));
        lemma_numstat_grows(all, i, k + 1);
    } else {
        assert(all.take(k) =~= all);
    }
}

proof fn lemma_numstat_join(a: Seq<Seq<char>>, b: Seq<Seq<char>>, i: int)
    ensures
        numstat_sum(a + b, i) == numstat_sum(a, i) + numstat_sum(b, i),
    decreases b.len(),
{
    if b.len() == 0 {
        assert(a + b =~= a);
    } else {
        lemma_numstat_join(a, b.drop_last(), i);
        assert((a + b).drop_last() =~= a + b.drop_last());
        assert((a + b).last() == b.last());
    }
}

/// What git writes of a file: the lines added, the lines deleted, and the path.
pub open spec fn numstat_entry(added: nat, deleted: nat, path: Seq<char>) -> Seq<char> {
    (decimal(added).push('\t') + decimal(deleted)).push('\t') + path
}

proof fn lemma_numstat_entry(added: nat, deleted: nat, path: Seq<char>)
    requires
        added <= u32::MAX,
        deleted <= u32::MAX,
    ensures
        numstat_field(numstat_entry(added, deleted, path), 0) == added,
        numstat_field(numstat_entry(added, deleted, path), 1) == deleted,
{
    let line = numstat_entry(added, deleted, path);
    law_decimal_is_read(added, u32::MAX as nat);
    law_decimal_is_read(deleted, u32::MAX as nat);
    assert(is_white('\t'));
    assert(!decimal(added).contains('\t'));
    assert(!decimal(deleted).contains('\t'));
    let rest = decimal(deleted).push('\t') + path;
    assert(line =~= decimal(added).push('\t') + rest);
    law_split_undoes_join(decimal(added), '\t', rest);
    law_split_undoes_join(decimal(deleted), '\t', path);
    lemma_split_some(path);
    let parts = split_at_char(line, '\t');
    assert(parts == seq![decimal(added)] + (seq![decimal(deleted)] + split_at_char(path, '\t')));
    assert(parts[0] == decimal(added));
    assert(parts[1] == decimal(deleted));
    law_decimal_is_digits(added);
    assert(line[0] == decimal(added)[0]);
}

proof fn lemma_split_some(path: Seq<char>)
    ensures
        split_at_char(path, '\t').len() > 0,
{
    law_pieces_some(path, '\t');
}

/// The line that git writes of a file adds just the file's added lines to those of the commit, and
/// just its deleted lines to those, none of them where there are none.
pub proof fn law_numstat_entry_counts(
    before: Seq<char>,
    added: nat,
    deleted: nat,
    path: Seq<char>,
    behind: Seq<char>,
)
    requires
        added <= u32::MAX,
        deleted <= u32::MAX,
        before.len() == 0 || before.last() == '\n',
        !path.contains('\n'),
        path.len() > 0,
        path.last() != '\r',
    ensures
        ({
            let all = lines_of(before + numstat_entry(added, deleted, path).push('\n') + behind);
            &&& numstat_sum(all, 0) == numstat_sum(lines_of(before), 0) + added + numstat_sum(
                lines_of(behind),
                0,
            )
            &&& numstat_sum(all, 1) == numstat_sum(lines_of(before), 1) + deleted + numstat_sum(
                lines_of(behind),
                1,
            )
        }),
{
    let entry = numstat_entry(added, deleted, path);
    lemma_numstat_entry(added, deleted, path);
    law_decimal_is_digits(added);
    law_decimal_is_digits(deleted);
    assert(!entry.contains('\n')) by {
        if entry.contains('\n') {
            let i = choose|i: int| 0 <= i < entry.len() && entry[i] == '\n';
            let n = decimal(added).len();
            let m = decimal(deleted).len();
            if i < n {
                assert(entry[i] == decimal(added)[i]);
            } else if n < i < n + 1 + m {
                assert(entry[i] == decimal(deleted)[i - n - 1]);
            } else if i > n + 1 + m {
                assert(path[i - n - m - 2] == '\n');
            }
        }
    }
    assert(entry.last() == path.last());
    law_lines_are_read_back(entry, behind);
    let tail = entry.push('\n') + behind;
    assert(before + entry.push('\n') + behind =~= before + tail);
    assert(lines_of(before + tail) == lines_of(before) + lines_of(tail)) by {
        if before.len() > 0 {
            law_lines_are_read_back(before.drop_last(), tail);
            assert(before.drop_last().push('\n') =~= before);
        } else {
            law_lines_are_read_back(before, tail);
            assert(before =~= Seq::empty());
            assert(before + tail =~= tail);
            assert(lines_of(before) + lines_of(tail) =~= lines_of(tail));
        }
    }
    assert(seq![entry].drop_last() =~= Seq::empty());
    assert forall|i: int| #[trigger] numstat_sum(seq![entry], i) == numstat_field(entry, i) by {
        assert(numstat_sum(seq![entry].drop_last(), i) == 0);
    }
    lemma_numstat_join(lines_of(before), lines_of(tail), 0);
    lemma_numstat_join(lines_of(before), lines_of(tail), 1);
    lemma_numstat_join(seq![entry], lines_of(behind), 0);
    lemma_numstat_join(seq![entry], lines_of(behind), 1);
}

/// A line that does not start with a digit, such as that of a binary file, adds nothing.
pub proof fn law_other_lines_count_nothing(all: Seq<Seq<char>>, line: Seq<char>, i: int)
    requires
        line.len() == 0 || !is_digit(line[0]),
    ensures
        numstat_sum(all.push(line), i) == numstat_sum(all, i),
{
    assert(all.push(line).drop_last() =~= all);
}

fn read_number(s: &str) -> (r: u32)
    ensures
        r == (match parsed(s@, u32::MAX as nat) {
            Some(n) => n,
            None => 0,
        }),
{
    match parse_u32(s) {
        Some(n) => n,
        None => 0,
    }
}

/// The lines added and deleted in all files, or `None` where there are too many.
pub fn numstat_totals(numstat: &str) -> (r: Option<(u32, u32)>)
    ensures
        match r {
            Some((added, deleted)) => added == numstat_sum(lines_of(numstat@), 0) && deleted
                == numstat_sum(lines_of(numstat@), 1),
            None => numstat_sum(lines_of(numstat@), 0) > u32::MAX || numstat_sum(
                lines_of(numstat@),
                1,
            ) > u32::MAX,
        },
{
    let text = lines(numstat);
    let ghost all = text.deep_view();
    let mut added_lines: u32 = 0;
    let mut deleted_lines: u32 = 0;
    let mut i: usize = 0;
    assert(all.take(0) =~= Seq::empty());
    // Parse numstat output
    while i < text.len()
        invariant
            i <= text@.len(),
            all == text.deep_view(),
            all == lines_of(numstat@),
            added_lines == numstat_sum(all.take(i as int), 0),
            deleted_lines == numstat_sum(all.take(i as int), 1),
        decreases text@.len() - i,
    {
        let line: &str = text[i].as_str();
        assert(all.take(i + 1).drop_last() =~= all.take(i as int));
        assert(all.take(i + 1).last() == line@);
        let start = chars(line);
        // Skip the commit message lines (they don't start with numbers)
        if start.len() > 0 && is_ascii_digit(start[0]) {
            // Parse numstat format: "added\tdeleted\tfilename"
            let parts = split_char(line, '\t');
            let ghost fields = parts.deep_view();
            if parts.len() >= 2 {
                assert(fields[0] == parts@[0]@ && fields[1] == parts@[1]@);
                let added: u32 = read_number(parts[0].as_str());
                // A "-" stands for binary files
                let deleted: u32 = read_number(parts[1].as_str());
                if added > u32::MAX - added_lines || deleted > u32::MAX - deleted_lines {
                    proof {
                        lemma_numstat_grows(all, 0, i + 1);
                        lemma_numstat_grows(all, 1, i + 1);
                    }
                    return None;
                }
                added_lines = added_lines + added;
                deleted_lines = deleted_lines + deleted;
            }
        }
        i = i + 1;
    }
    assert(all.take(i as int) =~= all);
    Some((added_lines, deleted_lines))
}

/// The lines that a commit added and deleted.
pub open spec fn diff_stats_run(repo: RepositoryView, commit: Seq<char>, s: Tape) -> Run<
    (u32, u32),
> {
    match git_text(
        s,
        repo.args().push("show"@).push("--numstat"@).push("--format="@).push(commit),
    ) {
        (Ok(text), s1) => {
            let added = numstat_sum(lines_of(text), 0);
            let deleted = numstat_sum(lines_of(text), 1);
            if added <= u32::MAX && deleted <= u32::MAX {
                (Ok((added as u32, deleted as u32)), s1)
            } else {
                aborted("attempt to add with overflow"@, s1)
            }
        },
        (Err(stop), s1) => (Err(stop), s1),
    }
}

/// Get git diff statistics between commit and its parent
pub fn get_git_diff_stats(repo: &Repository, commit_sha: &str, session: &mut Session) -> (r: Result<
    (u32, u32),
    Stop,
>)
    ensures
        (seen(r), final(session)@) == diff_stats_run(
            repo.deep_view(),
            commit_sha@,
            old(session)@,
        ),
{
    // Use git show --numstat to get diff statistics
    let mut args = repo.global_args_for_exec();
    word(&mut args, "show");
    word(&mut args, "--numstat");
    word(&mut args, "--format=");  // No format, just the numstat
    word(&mut args, commit_sha);
    let stdout = git_output_text(session, args)?;
    match numstat_totals(stdout.as_str()) {
        Some(totals) => Ok(totals),
        None => Err(Stop::Abort("attempt to add with overflow".to_string())),
    }
}

/// The statistics of a commit, from the lines that git counts and the tally of its log.
pub open spec fn stats_of(added: u32, deleted: u32, t: Tally) -> CommitStats {
    CommitStats {
        human_additions: if added >= t.ai {
            (added - t.ai) as u32
        } else {
            t.human as u32
        },
        mixed_additions: t.mixed as u32,
        ai_additions: t.ai as u32,
        ai_accepted: t.accepted as u32,
        time_waiting_for_ai: t.waiting as u64,
        ai_input_tokens: t.input as u64,
        ai_output_tokens: t.output as u64,
        ai_cache_read_input_tokens: t.cache_read as u64,
        ai_cache_creation_input_tokens: t.cache_creation as u64,
        git_diff_deleted_lines: deleted,
        git_diff_added_lines: added,
    }
}

/// Human and AI lines are together the added lines that git counts, unless the log has more AI
/// lines than those.
pub proof fn law_additions_add_up(added: u32, deleted: u32, t: Tally)
    requires
        tally_fits(t),
        t.ai <= added,
    ensures
        stats_of(added, deleted, t).human_additions + stats_of(added, deleted, t).ai_additions
            == added,
{
}

/// The tally of a log, where there is one.
pub open spec fn tally_of_some(log: Option<AuthorshipLogView>) -> Tally {
    match log {
        Some(log) => tally_of(log),
        None => no_tally(),
    }
}

/// The statistics of a commit, from the lines that git counts and its log.
pub fn combine_stats(added: u32, deleted: u32, log: &Option<AuthorshipLog>) -> (r: CommitStats)
    requires
        log matches Some(log) ==> countable(log.deep_view()),
    ensures
        r == stats_of(added, deleted, tally_of_some(log.deep_view())),
{
    let counts: (u32, u32, u32, u32, u64, u64, u64, u64, u64) = match log {
        Some(log) => match analyze_authorship_log(log) {
            Ok(counts) => counts,
            Err(_) => (0, 0, 0, 0, 0, 0, 0, 0, 0),
        },
        // No authorship log means no AI-authored lines
        None => (0, 0, 0, 0, 0, 0, 0, 0, 0),
    };
    // Calculate human additions as the difference between total git diff and AI additions
    // This handles cases where there are no AI-authored lines (authorship log is empty)
    let human_additions: u32 = if added >= counts.2 {
        added - counts.2
    } else {
        counts.0
    };
    CommitStats {
        human_additions,
        mixed_additions: counts.1,
        ai_additions: counts.2,
        ai_accepted: counts.3,
        time_waiting_for_ai: counts.4,
        ai_input_tokens: counts.5,
        ai_output_tokens: counts.6,
        ai_cache_read_input_tokens: counts.7,
        ai_cache_creation_input_tokens: counts.8,
        git_diff_deleted_lines: deleted,
        git_diff_added_lines: added,
    }
}

/// The statistics of a commit.
pub open spec fn commit_stats_run(repo: RepositoryView, commit: Seq<char>, s: Tape) -> Run<
    CommitStats,
> {
    match diff_stats_run(repo, commit, s) {
        (Ok((added, deleted)), s1) => match asked(s1, RequestView::FindLog { commit }) {
            (Ok(Reply::MaybeLog(log)), s2) => if (log matches Some(l) ==> countable(
                l.deep_view(),
            )) {
                (Ok(stats_of(added, deleted, tally_of_some(log.deep_view()))), s2)
            } else {
                aborted("attempt to add with overflow"@, s2)
            },
            (Ok(_), s2) => (Err(StopView::Mismatch), s2),
            (Err(stop), s2) => (Err(stop), s2),
        },
        (Err(stop), s1) => (Err(stop), s1),
    }
}

pub fn stats_for_commit_stats(
    repo: &Repository,
    commit_sha: &str,
    _refname: &str,
    session: &mut Session,
) -> (r: Result<CommitStats, Stop>)
    ensures
        (seen(r), final(session)@) == commit_stats_run(
            repo.deep_view(),
            commit_sha@,
            old(session)@,
        ),
{
    // Step 1: get the diff between this commit and its parent ON refname (if more than one parent)
    // If initial than everything is additions
    // We want the count here git shows +111 -55
    let (added, deleted) = get_git_diff_stats(repo, commit_sha, session)?;
    // Step 2: get the authorship log for this commit
    // Step 3: For prompts with > 1 messages, sum all the time between user messages and AI messages.
    // if the last message is a human message, don't count anything
    match session.ask(Request::FindLog { commit: commit_sha.to_string() })? {
        Reply::MaybeLog(log) => {
            if let Some(found) = log {
                if !can_count(found) {
                    return Err(Stop::Abort("attempt to add with overflow".to_string()));
                }
            }
            Ok(combine_stats(added, deleted, log))
        },
        _ => Err(Stop::Mismatch),
    }
}

// ---------------------------------------------------------------------------------------------
// Showing statistics
// ---------------------------------------------------------------------------------------------
/// The sums that are shown have room.
pub open spec fn sums_fit(stats: CommitStats) -> bool {
    stats.human_additions + stats.ai_additions <= u32::MAX && stats.mixed_additions
        + stats.ai_additions <= u32::MAX
}

/// A commit that only deletes lines.
pub open spec fn only_deletes(stats: CommitStats) -> bool {
    stats.git_diff_added_lines == 0 && stats.git_diff_deleted_lines > 0
}

/// The lines that only humans wrote.
pub open spec fn pure_human(stats: CommitStats) -> nat {
    if stats.human_additions >= stats.mixed_additions {
        (stats.human_additions - stats.mixed_additions) as nat
    } else {
        0
    }
}

/// The blocks of the bar for human, mixed and AI lines.
pub struct BarView {
    pub human: nat,
    pub mixed: nat,
    pub ai: nat,
}

/// The blocks for lines that only humans wrote: their share of the bar, but at least two where
/// there is more than one human line.
pub open spec fn human_blocks(stats: CommitStats) -> nat {
    let total = (stats.human_additions + stats.ai_additions) as nat;
    let blocks = if total > 0 {
        floor(share(pure_human(stats), total, 40))
    } else {
        0
    };
    if stats.human_additions > 1 && blocks < 2 {
        2
    } else {
        blocks
    }
}

/// The bar: human blocks first, the rest by the shares of mixed and AI lines.
pub open spec fn bar_of(stats: CommitStats) -> BarView {
    let human = human_blocks(stats);
    let left: nat = if human <= 40 {
        (40 - human) as nat
    } else {
        0
    };
    let others = (stats.mixed_additions + stats.ai_additions) as nat;
    let mixed = if others > 0 {
        floor(share(stats.mixed_additions as nat, others, left))
    } else {
        0
    };
    BarView {
        human,
        mixed,
        ai: if mixed <= left {
            (left - mixed) as nat
        } else {
            0
        },
    }
}

/// The bar always has 40 blocks, and at least two of them are human where there is more than one
/// human line.
pub proof fn law_bar(stats: CommitStats)
    requires
        sums_fit(stats),
    ensures
        bar_of(stats).human + bar_of(stats).mixed + bar_of(stats).ai == 40,
        stats.human_additions > 1 ==> bar_of(stats).human >= 2,
{
    let total = (stats.human_additions + stats.ai_additions) as nat;
    if total > 0 {
        law_share_of_a_part(pure_human(stats), total, 40);
    }
    let human = human_blocks(stats);
    let left: nat = (40 - human) as nat;
    let others = (stats.mixed_additions + stats.ai_additions) as nat;
    if others > 0 {
        law_share_of_a_part(stats.mixed_additions as nat, others, left);
    }
}

/// The blocks of the bar.
pub struct Bar {
    pub human: usize,
    pub mixed: usize,
    pub ai: usize,
}

fn build_bar(stats: &CommitStats) -> (r: Bar)
    requires
        sums_fit(*stats),
    ensures
        r.human == bar_of(*stats).human,
        r.mixed == bar_of(*stats).mixed,
        r.ai == bar_of(*stats).ai,
{
    // Total = pure human + mixed (AI-edited-by-human) + pure AI
    let total_additions: u32 = stats.human_additions + stats.ai_additions;
    // Pure human = human_additions - mixed_additions (overridden lines)
    let pure: u32 = if stats.human_additions >= stats.mixed_additions {
        stats.human_additions - stats.mixed_additions
    } else {
        0
    };
    proof {
        law_bar(*stats);
        if total_additions > 0 {
            law_share_of_a_part(pure_human(*stats), total_additions as nat, 40);
        }
    }
    let share_blocks: u128 = if total_additions > 0 {
        floor_of(share_of(pure, total_additions, 40))
    } else {
        0
    };
    // Ensure human contributions get at least 2 visible blocks if they have more than 1 line
    let human: u32 = if stats.human_additions > 1 && share_blocks < 2 {
        2
    } else {
        share_blocks as u32
    };
    // Adjust other bars if we had to give more space to human
    let remaining_width: u32 = 40 - human;
    let total_other_additions: u32 = stats.mixed_additions + stats.ai_additions;
    let mixed: u128 = if total_other_additions > 0 {
        floor_of(share_of(stats.mixed_additions, total_other_additions, remaining_width))
    } else {
        0
    };
    let mixed_blocks: u32 = mixed as u32;
    Bar {
        human: human as usize,
        mixed: mixed_blocks as usize,
        ai: (remaining_width - mixed_blocks) as usize,
    }
}

/// The share of `n` in `total` in per cent.
pub open spec fn percentage(n: nat, total: nat) -> nat {
    if total > 0 {
        lesser(round(share(n, total, 100)), u32::MAX as nat)
    } else {
        0
    }
}

fn percentage_of(n: u32, total: u32) -> (r: u32)
    ensures
        r == percentage(n as nat, total as nat),
{
    if total > 0 {
        let p: u128 = round_of(share_of(n, total, 100));
        if p <= u32::MAX as u128 {
            p as u32
        } else {
            u32::MAX
        }
    } else {
        0
    }
}

/// The share of AI lines that were accepted, in per cent, at most all of them.
pub open spec fn acceptance(stats: CommitStats) -> nat {
    if stats.ai_additions > 0 {
        round_even(
            at_most(share(stats.ai_accepted as nat, stats.ai_additions as nat, 100), 100),
        )
    } else {
        0
    }
}

/// No more than all AI lines are said to be accepted.
pub proof fn law_acceptance(stats: CommitStats)
    ensures
        acceptance(stats) <= 100,
{
    if stats.ai_additions > 0 {
        let (n, d) = (stats.ai_accepted as nat, stats.ai_additions as nat);
        lemma_share_is_number(n, d, 100);
        law_rounding_keeps_the_limit(share(n, d, 100), 100);
    }
}

/// The shares of human, mixed and AI lines in per cent.
pub open spec fn shares(stats: CommitStats) -> (nat, nat, nat) {
    let total = (stats.human_additions + stats.ai_additions) as nat;
    (
        percentage(pure_human(stats), total),
        percentage(stats.mixed_additions as nat, total),
        percentage(stats.ai_additions as nat, total),
    )
}

fn build_shares(stats: &CommitStats) -> (r: (u32, u32, u32))
    requires
        sums_fit(*stats),
    ensures
        r.0 == shares(*stats).0,
        r.1 == shares(*stats).1,
        r.2 == shares(*stats).2,
{
    let total: u32 = stats.human_additions + stats.ai_additions;
    let pure: u32 = if stats.human_additions >= stats.mixed_additions {
        stats.human_additions - stats.mixed_additions
    } else {
        0
    };
    (
        percentage_of(pure, total),
        percentage_of(stats.mixed_additions, total),
        percentage_of(stats.ai_additions, total),
    )
}

/// The blocks of a bar between two texts.
pub open spec fn bar_text(bar: BarView, left: Seq<char>, right: Seq<char>) -> Seq<char> {
    left + repeated("█"@, bar.human) + repeated("▒"@, bar.mixed) + repeated("░"@, bar.ai) + right
}

fn draw_bar(bar: &Bar, left: &str, right: &str) -> (r: String)
    ensures
        r@ == bar_text(
            BarView { human: bar.human as nat, mixed: bar.mixed as nat, ai: bar.ai as nat },
            left@,
            right@,
        ),
{
    // Pure human bars (darkest)
    let human = repeat("█", bar.human);
    // Mixed bars (medium) - AI-generated but human-edited
    let mixed = repeat("▒", bar.mixed);
    // AI bars (lightest) - pure AI, untouched
    let ai = repeat("░", bar.ai);
    let start = join3(left, human.as_str(), mixed.as_str());
    join3(start.as_str(), ai.as_str(), right)
}

/// The lines that are shown of a commit that only deletes.
pub open spec fn deletion_lines() -> Seq<Seq<char>> {
    seq![
        "you  "@ + "\x1b[90m"@ + spaces(40) + "\x1b[0m"@ + " ai"@,
        "     \x1b[90m"@ + centered("(no additions)"@, 40) + "\x1b[0m"@,
    ]
}

/// The line under the bar: the shares at its edges, and that of mixed lines between them where
/// there are some.
pub open spec fn percentage_line(stats: CommitStats) -> Seq<char> {
    let (human, mixed, ai) = shares(stats);
    let start = "     "@ + left_aligned(decimal(human) + "%"@, 3);
    if mixed > 0 {
        start + spaces(12) + "mixed "@ + right_aligned(decimal(mixed), 3) + "%"@ + spaces(12)
            + right_aligned(decimal(ai), 3) + "%"@
    } else {
        start + spaces(33) + right_aligned(decimal(ai), 3) + "%"@
    }
}

/// What is said of the time that was spent waiting.
pub open spec fn waited(seconds: nat) -> Seq<char> {
    if seconds == 0 {
        Seq::empty()
    } else if seconds / 60 > 0 {
        " | waited "@ + decimal(seconds / 60) + "m for ai"@
    } else {
        " | waited "@ + decimal(seconds % 60) + "s for ai"@
    }
}

/// What is said of the tokens that were used.
pub open spec fn tokens_used(stats: CommitStats) -> Seq<char> {
    let total = (stats.ai_input_tokens + stats.ai_output_tokens) as nat;
    if total == 0 {
        Seq::empty()
    } else if stats.ai_cache_read_input_tokens > 0 || stats.ai_cache_creation_input_tokens > 0 {
        " | "@ + decimal(total) + " tokens"@ + " (cache read "@ + decimal(
            stats.ai_cache_read_input_tokens as nat,
        ) + " / cache write "@ + decimal(stats.ai_cache_creation_input_tokens as nat) + ")"@
    } else {
        " | "@ + decimal(total) + " tokens"@
    }
}

/// The line about the AI lines of a commit.
pub open spec fn acceptance_line(stats: CommitStats) -> Seq<char> {
    "     \x1b[90m"@ + decimal(acceptance(stats)) + "% AI code accepted"@ + waited(
        stats.time_waiting_for_ai as nat,
    ) + tokens_used(stats) + "\x1b[0m"@
}

/// Lines are printed, where they are to be, from place `i` on.
pub open spec fn print_lines_run(all: Seq<Seq<char>>, i: int, print: bool, s: Tape) -> Run<()>
    decreases all.len() - i,
{
    if !print || i < 0 || i >= all.len() {
        (Ok(()), s)
    } else {
        match printed(s, all[i]) {
            (Ok(_), s1) => print_lines_run(all, i + 1, print, s1),
            (Err(stop), s1) => (Err(stop), s1),
        }
    }
}

/// The lines, each with a line end.
pub open spec fn with_line_ends(all: Seq<Seq<char>>) -> Seq<char>
    decreases all.len(),
{
    if all.len() == 0 {
        Seq::empty()
    } else {
        with_line_ends(all.drop_last()) + all.last() + "\n"@
    }
}

/// The bar and the line under it.
pub open spec fn addition_lines(stats: CommitStats) -> Seq<Seq<char>> {
    seq![bar_text(bar_of(stats), "you  "@, " ai"@), percentage_line(stats)]
}

/// The line about the AI lines of a commit, where there are any.
pub open spec fn ai_lines(stats: CommitStats) -> Seq<Seq<char>> {
    if stats.ai_additions > 0 {
        seq![acceptance_line(stats)]
    } else {
        Seq::empty()
    }
}

/// The statistics as they are shown in a terminal; printed, where they are to be.
pub open spec fn terminal_run(stats: CommitStats, print: bool, s: Tape) -> Run<Seq<char>> {
    if only_deletes(stats) {
        match print_lines_run(deletion_lines(), 0, print, s) {
            (Ok(_), s1) => (Ok(with_line_ends(deletion_lines())), s1),
            (Err(stop), s1) => (Err(stop), s1),
        }
    } else if !sums_fit(stats) {
        aborted("attempt to add with overflow"@, s)
    } else {
        match print_lines_run(addition_lines(stats), 0, print, s) {
            (Ok(_), s1) => if stats.ai_additions > 0 && stats.ai_input_tokens
                + stats.ai_output_tokens > u64::MAX {
                aborted("attempt to add with overflow"@, s1)
            } else {
                match print_lines_run(ai_lines(stats), 0, print, s1) {
                    (Ok(_), s2) => (
                        Ok(with_line_ends(addition_lines(stats)) + with_line_ends(ai_lines(stats))),
                        s2,
                    ),
                    (Err(stop), s2) => (Err(stop), s2),
                }
            },
            (Err(stop), s1) => (Err(stop), s1),
        }
    }
}

fn print_lines(all: &Vec<String>, print: bool, session: &mut Session) -> (r: Result<String, Stop>)
    ensures
        match r {
            Ok(text) => text@ == with_line_ends(all.deep_view()) && print_lines_run(
                all.deep_view(),
                0,
                print,
                old(session)@,
            ) == (Ok::<(), StopView>(()), final(session)@),
            Err(stop) => print_lines_run(all.deep_view(), 0, print, old(session)@) == (
                Err::<(), StopView>(stop.deep_view()),
                final(session)@,
            ),
        },
{
    let ghost texts = all.deep_view();
    let ghost whole = print_lines_run(texts, 0, print, session@);
    let mut out = String::new();
    let mut i: usize = 0;
    assert(texts.take(0) =~= Seq::empty());
    assert(out@ =~= with_line_ends(Seq::empty()));
    while i < all.len()
        invariant
            i <= all@.len(),
            texts == all.deep_view(),
            out@ == with_line_ends(texts.take(i as int)),
            print_lines_run(texts, i as int, print, session@) == whole,
            whole == print_lines_run(texts, 0, print, old(session)@),
        decreases all@.len() - i,
    {
        assert(texts.take(i + 1).drop_last() =~= texts.take(i as int));
        assert(texts.take(i + 1).last() == all@[i as int]@);
        assert(texts[i as int] == all@[i as int]@);
        out = join3(out.as_str(), all[i].as_str(), "\n");
        if print {
            session.print(all[i].clone())?;
        }
        i = i + 1;
    }
    assert(texts.take(i as int) =~= texts);
    Ok(out)
}

fn build_deletion_lines() -> (r: Vec<String>)
    ensures
        r.deep_view() == deletion_lines(),
{
    let mut r: Vec<String> = Vec::new();
    // Show gray bar for deletion-only commit
    let gray = pad_right("", 40);
    assert(gray@ =~= spaces(40)) by {
        reveal_strlit("");
    }
    let start = join3("you  ", "\x1b[90m", gray.as_str());
    word(&mut r, join3(start.as_str(), "\x1b[0m", " ai").as_str());
    // Show "(no additions)" message below the bar
    let message = pad_both("(no additions)", 40);
    word(&mut r, join3("     \x1b[90m", message.as_str(), "\x1b[0m").as_str());
    assert(r.deep_view() =~= deletion_lines());
    r
}

fn blanks(n: usize) -> (r: String)
    ensures
        r@ == spaces(n as nat),
{
    let r = pad_right("", n);
    assert(r@ =~= spaces(n as nat)) by {
        reveal_strlit("");
    }
    r
}

fn build_percentage_line(stats: &CommitStats) -> (r: String)
    requires
        sums_fit(*stats),
    ensures
        r@ == percentage_line(*stats),
{
    let (human, mixed, ai) = build_shares(stats);
    let human_text = join2(decimal_text(human as u128).as_str(), "%");
    let start = join2("     ", pad_right(human_text.as_str(), 3).as_str());
    let ai_text = pad_left(decimal_text(ai as u128).as_str(), 3);
    if mixed > 0 {
        // Show all three: human, mixed, ai
        // Human% at left edge, mixed% in middle, AI% at right edge
        let mixed_text = pad_left(decimal_text(mixed as u128).as_str(), 3);
        let gap = blanks(12);
        let one = join3(start.as_str(), gap.as_str(), "mixed ");
        let two = join3(one.as_str(), mixed_text.as_str(), "%");
        let three = join3(two.as_str(), gap.as_str(), ai_text.as_str());
        join2(three.as_str(), "%")
    } else {
        // No mixed, just show human and ai at bar edges
        let gap = blanks(33);
        let one = join3(start.as_str(), gap.as_str(), ai_text.as_str());
        join2(one.as_str(), "%")
    }
}

fn waited_text(seconds: u64) -> (r: String)
    ensures
        r@ == waited(seconds as nat),
{
    if seconds == 0 {
        let none = String::new();
        assert(none@ =~= Seq::empty());
        none
    } else if seconds / 60 > 0 {
        join3(" | waited ", decimal_text((seconds / 60) as u128).as_str(), "m for ai")
    } else {
        join3(" | waited ", decimal_text((seconds % 60) as u128).as_str(), "s for ai")
    }
}

fn tokens_text(stats: &CommitStats) -> (r: String)
    requires
        stats.ai_input_tokens + stats.ai_output_tokens <= u64::MAX,
    ensures
        r@ == tokens_used(*stats),
{
    let total_tokens: u64 = stats.ai_input_tokens + stats.ai_output_tokens;
    if total_tokens == 0 {
        let none = String::new();
        assert(none@ =~= Seq::empty());
        return none;
    }
    let used = join3(" | ", decimal_text(total_tokens as u128).as_str(), " tokens");
    if stats.ai_cache_read_input_tokens > 0 || stats.ai_cache_creation_input_tokens > 0 {
        let read = decimal_text(stats.ai_cache_read_input_tokens as u128);
        let written = decimal_text(stats.ai_cache_creation_input_tokens as u128);
        let one = join3(used.as_str(), " (cache read ", read.as_str());
        let two = join3(one.as_str(), " / cache write ", written.as_str());
        join2(two.as_str(), ")")
    } else {
        used
    }
}

fn build_acceptance_line(stats: &CommitStats) -> (r: String)
    requires
        stats.ai_additions > 0,
        stats.ai_input_tokens + stats.ai_output_tokens <= u64::MAX,
    ensures
        r@ == acceptance_line(*stats),
{
    // Calculate AI acceptance percentage (capped at 100%)
    // It can go higher because AI can write on top of AI code. This feels reasonable for now
    let percent: u128 = round_even_of(
        share_of(stats.ai_accepted, stats.ai_additions, 100),
        100,
    );
    let one = join3("     \x1b[90m", decimal_text(percent).as_str(), "% AI code accepted");
    let waiting = waited_text(stats.time_waiting_for_ai);
    let used = tokens_text(stats);
    let two = join3(one.as_str(), waiting.as_str(), used.as_str());
    join2(two.as_str(), "\x1b[0m")
}

/// The statistics as they are shown in a terminal; printed, where they are to be.
pub fn write_stats_to_terminal(stats: &CommitStats, print: bool, session: &mut Session) -> (r:
    Result<String, Stop>)
    ensures
        (seen(r), final(session)@) == terminal_run(*stats, print, old(session)@),
{
    // Handle deletion-only commits (no additions)
    if stats.git_diff_added_lines == 0 && stats.git_diff_deleted_lines > 0 {
        // No percentage line or AI stats for deletion-only commits
        let all = build_deletion_lines();
        return print_lines(&all, print, session);
    }
    if stats.ai_additions > u32::MAX - stats.human_additions || stats.ai_additions > u32::MAX
        - stats.mixed_additions {
        return Err(Stop::Abort("attempt to add with overflow".to_string()));
    }
    let bar = build_bar(stats);
    let mut all: Vec<String> = Vec::new();
    word(&mut all, draw_bar(&bar, "you  ", " ai").as_str());
    word(&mut all, build_percentage_line(stats).as_str());
    assert(all.deep_view() =~= addition_lines(*stats));
    let shown = print_lines(&all, print, session)?;
    // Only show AI stats if there was actually AI code
    if stats.ai_additions > 0 {
        if stats.ai_output_tokens > u64::MAX - stats.ai_input_tokens {
            return Err(Stop::Abort("attempt to add with overflow".to_string()));
        }
        let mut more: Vec<String> = Vec::new();
        word(&mut more, build_acceptance_line(stats).as_str());
        assert(more.deep_view() =~= ai_lines(*stats));
        let rest = print_lines(&more, print, session)?;
        Ok(join2(shown.as_str(), rest.as_str()))
    } else {
        assert(shown@ + with_line_ends(Seq::empty()) =~= shown@);
        Ok(shown)
    }
}

/// The lines that are shown in Markdown of a commit that only deletes.
pub open spec fn markdown_deletion() -> Seq<Seq<char>> {
    seq![
        "you&nbsp;&nbsp;"@ + repeated("&nbsp;"@, 40) + "&nbsp;ai"@,
        repeated("&nbsp;"@, 6) + centered("(no additions)"@, 40),
    ]
}

/// The line under the bar in Markdown.
pub open spec fn markdown_percentages(stats: CommitStats) -> Seq<char> {
    let (human, mixed, ai) = shares(stats);
    let start = repeated("&nbsp;"@, 6) + decimal(human) + "%"@;
    if mixed > 0 {
        start + repeated("&nbsp;"@, 40) + "mixed&nbsp;"@ + decimal(mixed) + "%"@ + repeated(
            "&nbsp;"@,
            40,
        ) + decimal(ai) + "%"@
    } else {
        start + repeated("&nbsp;"@, 105) + decimal(ai) + "%"@
    }
}

/// The statistics as they are shown in Markdown.
pub open spec fn markdown_of(stats: CommitStats) -> Seq<char> {
    if only_deletes(stats) {
        with_line_ends(markdown_deletion())
    } else {
        with_line_ends(
            seq![
                bar_text(bar_of(stats), "you&nbsp;&nbsp;"@, "&nbsp;ai"@),
                markdown_percentages(stats),
            ],
        )
    }
}

fn join_lines(one: &str, two: &str) -> (r: String)
    ensures
        r@ == with_line_ends(seq![one@, two@]),
{
    let ghost both = seq![one@, two@];
    assert(both.drop_last() =~= seq![one@]);
    assert(seq![one@].drop_last() =~= Seq::empty());
    assert(with_line_ends(Seq::empty()) + one@ =~= one@);
    assert(with_line_ends(seq![one@]) == one@ + "\n"@);
    let first = join2(one, "\n");
    join3(first.as_str(), two, "\n")
}

fn build_markdown_percentages(stats: &CommitStats) -> (r: String)
    requires
        sums_fit(*stats),
    ensures
        r@ == markdown_percentages(*stats),
{
    let (human, mixed, ai) = build_shares(stats);
    let margin = repeat("&nbsp;", 6);
    let start = join3(margin.as_str(), decimal_text(human as u128).as_str(), "%");
    let ai_text = decimal_text(ai as u128);
    if mixed > 0 {
        // Show all three: human, mixed, ai
        // Human% at left edge, mixed% in middle, AI% at right edge
        let gap = repeat("&nbsp;", 40);
        let one = join3(start.as_str(), gap.as_str(), "mixed&nbsp;");
        let two = join3(one.as_str(), decimal_text(mixed as u128).as_str(), "%");
        let three = join3(two.as_str(), gap.as_str(), ai_text.as_str());
        join2(three.as_str(), "%")
    } else {
        // No mixed, just show human and ai at bar edges
        let gap = repeat("&nbsp;", 105);
        let one = join3(start.as_str(), gap.as_str(), ai_text.as_str());
        join2(one.as_str(), "%")
    }
}

/// The statistics as they are shown in Markdown.
pub fn write_stats_to_markdown(stats: &CommitStats) -> (r: String)
    requires
        only_deletes(*stats) || sums_fit(*stats),
    ensures
        r@ == markdown_of(*stats),
{
    // Handle deletion-only commits (no additions)
    if stats.git_diff_added_lines == 0 && stats.git_diff_deleted_lines > 0 {
        let gray = repeat("&nbsp;", 40);
        let bar = join3("you&nbsp;&nbsp;", gray.as_str(), "&nbsp;ai");
        let margin = repeat("&nbsp;", 6);
        let message = join2(margin.as_str(), pad_both("(no additions)", 40).as_str());
        // No percentage line or AI stats for deletion-only commits
        return join_lines(bar.as_str(), message.as_str());
    }
    let bar = build_bar(stats);
    // Block characters render much wider in markdown, so we need lots of spacing
    join_lines(
        draw_bar(&bar, "you&nbsp;&nbsp;", "&nbsp;ai").as_str(),
        build_markdown_percentages(stats).as_str(),
    )
}

// ---------------------------------------------------------------------------------------------
// The command
// ---------------------------------------------------------------------------------------------
/// The commit that is asked about, and under which name.
pub open spec fn stats_target_run(
    repo: RepositoryView,
    commit: Option<Seq<char>>,
    s: Tape,
) -> Run<(Seq<char>, Seq<char>)> {
    match commit {
        Some(sha) => match caught(rev_parse_run(repo, sha, s)) {
            (Ok(Ok(oid)), s1) => (Ok((oid, sha)), s1),
            (Ok(Err(GitAiErrorView::GitCliError { .. })), s1) => failed(
                GitAiErrorView::Generic("No commit found: "@ + sha),
                s1,
            ),
            (Ok(Err(e)), s1) => failed(e, s1),
            (Err(stop), s1) => (Err(stop), s1),
        },
        None => match head_run(repo, s) {
            (Ok(head), s1) => match target_run(repo, head.ref_name, s1) {
                (Ok(target), s2) => (Ok((target, head.ref_name)), s2),
                (Err(stop), s2) => (Err(stop), s2),
            },
            (Err(stop), s1) => (Err(stop), s1),
        },
    }
}

/// Statistics are written, as JSON or as they are shown in a terminal.
pub open spec fn show_stats_run(stats: CommitStats, json: bool, s: Tape) -> Run<()> {
    if json {
        must(s, RequestView::StatsJson { stats })
    } else {
        match terminal_run(stats, true, s) {
            (Ok(_), s1) => (Ok(()), s1),
            (Err(stop), s1) => (Err(stop), s1),
        }
    }
}

/// The statistics of a commit, or of what HEAD points at, are written.
pub open spec fn stats_command_run(
    repo: RepositoryView,
    commit: Option<Seq<char>>,
    json: bool,
    s: Tape,
) -> Run<()> {
    match stats_target_run(repo, commit, s) {
        (Ok((target, refname)), s1) => match complained(
            s1,
            "[DEBUG] Stats command found commit: "@ + target + " refname: "@ + refname,
            None,
        ) {
            (Ok(_), s2) => match commit_stats_run(repo, target, s2) {
                (Ok(stats), s3) => show_stats_run(stats, json, s3),
                (Err(stop), s3) => (Err(stop), s3),
            },
            (Err(stop), s2) => (Err(stop), s2),
        },
        (Err(stop), s1) => (Err(stop), s1),
    }
}

fn find_stats_target(repo: &Repository, commit_sha: Option<&str>, session: &mut Session) -> (r:
    Result<(String, String), Stop>)
    ensures
        (seen(r), final(session)@) == stats_target_run(
            repo.deep_view(),
            commit_sha.deep_view(),
            old(session)@,
        ),
{
    match commit_sha {
        // Validate that the commit exists using revparse_single
        Some(sha) => match catch(repo.revparse_single(sha, session))? {
            // For a specific commit, we don't have a refname, so use the commit SHA
            Ok(commit_obj) => Ok((commit_obj.id(), sha.to_string())),
            Err(GitAiError::GitCliError { .. }) => Err(
                Stop::Fail(GitAiError::Generic(join2("No commit found: ", sha))),
            ),
            Err(e) => Err(Stop::Fail(e)),
        },
        None => {
            // Default behavior: use current HEAD
            let head = repo.head(session)?;
            let target = head.target(session)?;
            let name = match head.name() {
                Some(name) => name.to_string(),
                None => "HEAD".to_string(),
            };
            Ok((target, name))
        },
    }
}

pub fn stats_command(
    repo: &Repository,
    commit_sha: Option<&str>,
    json: bool,
    session: &mut Session,
) -> (r: Result<(), Stop>)
    ensures
        (seen(r), final(session)@) == stats_command_run(
            repo.deep_view(),
            commit_sha.deep_view(),
            json,
            old(session)@,
        ),
{
    let (target, refname) = find_stats_target(repo, commit_sha, session)?;
    let start = join3("[DEBUG] Stats command found commit: ", target.as_str(), " refname: ");
    session.complain(join2(start.as_str(), refname.as_str()), None)?;
    let stats = stats_for_commit_stats(repo, target.as_str(), refname.as_str(), session)?;
    if json {
        session.must(Request::StatsJson { stats })
    } else {
        write_stats_to_terminal(&stats, true, session)?;
        Ok(())
    }
}

} // verus!
