//! What the statistics of a commit count.
use crate::answers::{
    answer, behind, git_command, law_git_line, left, lemma_behind, waits_for, wrote,
};
use crate::assoc::{has_key, lemma_place_bounds, lemma_place_of, place_of, value_of};
use crate::authorship::authorship_log::{
    AttestationEntryView, AuthorshipLogView, FileAttestationView, LineRange, PromptRecordView,
};
use crate::authorship::carrying::name_question;
use crate::authorship::reconstruction::{range_end, range_start, total_len};
use crate::authorship::squashing::wrote_text;
use crate::authorship::stats::{
    acceptance, acceptance_line, addition_lines, ai_lines, all_entries, answer_times, bar_of,
    bar_text, commit_stats_run, countable, deletion_lines, is_named, law_bar, markdown_deletion,
    markdown_of, markdown_percentages, no_tally, numstat_sum, percentage, percentage_line,
    print_lines_run, pure_human, ranges_valid, same_lines, same_usage, shares, stats_command_run,
    stats_target_run, sums_fit, tally, tally_fits, tally_of, terminal_run, tokens_used, waited,
    waiting_of, with_line_ends, with_sessions, with_usages, BarView, CommitStats, Tally,
};
use crate::authorship::transcript::MessageView;
use crate::binary64::{
    at_most, floor, law_nearest, law_product, law_quotient, law_whole_numbers, nearest, quotient,
    round, share, times, RatioView,
};
use crate::clock::seconds_from_to;
use crate::error::GitAiErrorView;
use crate::git::repository::RepositoryView;
use crate::session::{Reply, RequestView, StopView, Tape};
use crate::text::{decimal, law_repeated, left_aligned, lines_of, repeated, right_aligned};
use vstd::prelude::*;

verus! {

broadcast use vstd::seq::group_seq_axioms;

// ---------------------------------------------------------------------------------------------
// Lines
// ---------------------------------------------------------------------------------------------
/// The sum of what two counts say of lines.
pub open spec fn lines_add_up(whole: Tally, one: Tally, other: Tally) -> bool {
    &&& whole.human == one.human + other.human
    &&& whole.mixed == one.mixed + other.mixed
    &&& whole.ai == one.ai + other.ai
    &&& whole.accepted == one.accepted + other.accepted
}

/// The lines of some entries and of others are those of all of them.
pub proof fn law_lines_of_entries_add_up(
    prompts: Seq<(Seq<char>, PromptRecordView)>,
    one: Seq<AttestationEntryView>,
    other: Seq<AttestationEntryView>,
)
    ensures
        lines_add_up(tally(prompts, one + other), tally(prompts, one), tally(prompts, other)),
    decreases other.len(),
{
    if other.len() == 0 {
        assert(one + other =~= one);
    } else {
        assert((one + other).drop_last() =~= one + other.drop_last());
        law_lines_of_entries_add_up(prompts, one, other.drop_last());
    }
}

/// The entries of a log are those of its files, one file after the other.
pub proof fn law_entries_are_those_of_the_files(
    one: Seq<FileAttestationView>,
    other: Seq<FileAttestationView>,
    file: FileAttestationView,
)
    ensures
        all_entries(one + other) == all_entries(one) + all_entries(other),
        all_entries(seq![file]) == file.entries,
    decreases other.len(),
{
    if other.len() == 0 {
        assert(one + other =~= one);
        assert(all_entries(one) + all_entries(other) =~= all_entries(one));
    } else {
        assert((one + other).drop_last() =~= one + other.drop_last());
        law_entries_are_those_of_the_files(one, other.drop_last(), file);
        assert(all_entries(one + other) =~= all_entries(one) + all_entries(other));
    }
    assert(seq![file].drop_last() =~= Seq::<FileAttestationView>::empty());
    assert(all_entries(seq![file].drop_last()) =~= Seq::<AttestationEntryView>::empty());
    assert(all_entries(seq![file]) =~= file.entries);
}

/// What an entry of one run of lines counts: each of its lines, from the first to the last. Those of
/// a session that the log knows are accepted; as many of them as were overridden are mixed, and the
/// others are the AI's. Those of a session that the log does not know are a human's.
pub proof fn law_lines_of_an_entry(
    prompts: Seq<(Seq<char>, PromptRecordView)>,
    hash: Seq<char>,
    first: u32,
    last: u32,
)
    requires
        first <= last,
    ensures
        ({
            let lines: nat = (last - first + 1) as nat;
            let entry = AttestationEntryView {
                hash,
                line_ranges: seq![LineRange::Range(first, last)],
            };
            let t = tally(prompts, seq![entry]);
            match value_of(prompts, hash) {
                Some(prompt) => {
                    &&& t.human == 0
                    &&& t.accepted == lines
                    &&& t.mixed + t.ai == lines
                    &&& prompt.overriden_lines <= lines ==> t.mixed == prompt.overriden_lines
                    &&& prompt.overriden_lines > lines ==> t.ai == 0
                },
                None => t.human == lines && t.accepted == 0 && t.mixed == 0 && t.ai == 0,
            }
        }),
        ({
            let entry = AttestationEntryView { hash, line_ranges: seq![LineRange::Single(first)] };
            let t = tally(prompts, seq![entry]);
            &&& t.human + t.accepted == 1
            &&& t.mixed + t.ai == t.accepted
            &&& (t.accepted == 1) == has_key(prompts, hash)
        }),
{
    let run = AttestationEntryView { hash, line_ranges: seq![LineRange::Range(first, last)] };
    let single = AttestationEntryView { hash, line_ranges: seq![LineRange::Single(first)] };
    assert(seq![run].drop_last() =~= Seq::<AttestationEntryView>::empty());
    assert(seq![single].drop_last() =~= Seq::<AttestationEntryView>::empty());
    assert(run.line_ranges.drop_first() =~= Seq::<LineRange>::empty());
    assert(single.line_ranges.drop_first() =~= Seq::<LineRange>::empty());
    assert(total_len(run.line_ranges.drop_first()) == 0);
    assert(total_len(single.line_ranges.drop_first()) == 0);
    assert(tally(prompts, seq![run].drop_last()) == no_tally());
    assert(tally(prompts, seq![single].drop_last()) == no_tally());
}

/// The lines of two runs of an entry add up.
pub proof fn law_runs_add_up(one: Seq<LineRange>, other: Seq<LineRange>)
    ensures
        total_len(one + other) == total_len(one) + total_len(other),
    decreases one.len(),
{
    if one.len() == 0 {
        assert(one + other =~= other);
    } else {
        assert((one + other).drop_first() =~= one.drop_first() + other);
        law_runs_add_up(one.drop_first(), other);
    }
}

proof fn lemma_usages_keep_lines(t: Tally, messages: Seq<MessageView>)
    ensures
        same_lines(with_usages(t, messages), t),
    decreases messages.len(),
{
    if messages.len() > 0 {
        lemma_usages_keep_lines(t, messages.drop_last());
    }
}

proof fn lemma_sessions_keep_lines(
    t: Tally,
    prompts: Seq<(Seq<char>, PromptRecordView)>,
    entries: Seq<AttestationEntryView>,
    k: nat,
)
    requires
        k <= prompts.len(),
    ensures
        same_lines(with_sessions(t, prompts, entries, k), t),
    decreases k,
{
    if k > 0 {
        lemma_sessions_keep_lines(t, prompts, entries, (k - 1) as nat);
        let before = with_sessions(t, prompts, entries, (k - 1) as nat);
        let prompt = prompts[k - 1].1;
        lemma_usages_keep_lines(
            Tally { waiting: before.waiting + waiting_of(prompt.messages), ..before },
            prompt.messages,
        );
    }
}

/// The lines that a log counts are those of its entries.
pub proof fn law_lines_of_a_log(log: AuthorshipLogView)
    ensures
        same_lines(tally_of(log), tally(log.metadata.prompts, all_entries(log.attestations))),
{
    let entries = all_entries(log.attestations);
    lemma_sessions_keep_lines(
        tally(log.metadata.prompts, entries),
        log.metadata.prompts,
        entries,
        log.metadata.prompts.len(),
    );
}

// ---------------------------------------------------------------------------------------------
// Time and tokens
// ---------------------------------------------------------------------------------------------
/// An answer to a question counts the time from the one to the other, as far as both have a time
/// and the answer came later; what the AI says behind its answer counts nothing more, and while a
/// question has no answer, nothing counts at all.
pub proof fn law_waiting(
    before: Seq<MessageView>,
    question: MessageView,
    reply: MessageView,
    more: MessageView,
)
    requires
        question is User,
        reply !is User,
        more !is User,
        before.len() > 0 ==> before.last() !is User,
    ensures
        waiting_of(before.push(question).push(reply)) == waiting_of(before) + (match (
            question,
            reply,
        ) {
            (
                MessageView::User { timestamp: Some(asked_at), .. },
                MessageView::Assistant { timestamp: Some(answered_at), .. },
            ) => match seconds_from_to(asked_at, answered_at) {
                Some(n) if n > 0 => n as nat,
                _ => 0nat,
            },
            _ => 0nat,
        }),
        waiting_of(before.push(question)) == 0,
        before.len() > 0 ==> waiting_of(before.push(more)) == waiting_of(before),
        waiting_of(Seq::empty()) == 0,
{
    let asked = before.push(question);
    let answered = asked.push(reply);
    assert(answered.drop_last() =~= asked);
    assert(asked.drop_last() =~= before);
    assert(before.push(more).drop_last() =~= before);
    assert(answer_times(asked) == answer_times(before));
}

/// Tokens that are not said are none.
pub open spec fn said(tokens: Option<u32>) -> nat {
    if tokens is Some {
        tokens->Some_0 as nat
    } else {
        0
    }
}

/// The tokens of what an AI said count, each kind for itself; nothing else that was said does.
pub proof fn law_tokens_of_a_message(t: Tally, before: Seq<MessageView>, message: MessageView)
    ensures
        ({
            let a = with_usages(t, before);
            let b = with_usages(t, before.push(message));
            match message {
                MessageView::Assistant { usage: Some(usage), .. } => {
                    &&& b.input == a.input + said(usage.input_tokens)
                    &&& b.output == a.output + said(usage.output_tokens)
                    &&& b.cache_read == a.cache_read + said(usage.cache_read_input_tokens)
                    &&& b.cache_creation == a.cache_creation + said(
                        usage.cache_creation_input_tokens,
                    )
                    &&& b.waiting == a.waiting
                },
                _ => same_usage(a, b),
            }
        }),
        with_usages(t, Seq::empty()) == t,
{
    assert(before.push(message).drop_last() =~= before);
}

proof fn lemma_sessions_before(
    t: Tally,
    prompts: Seq<(Seq<char>, PromptRecordView)>,
    more: (Seq<char>, PromptRecordView),
    entries: Seq<AttestationEntryView>,
    k: nat,
)
    requires
        k <= prompts.len(),
    ensures
        with_sessions(t, prompts.push(more), entries, k) == with_sessions(t, prompts, entries, k),
    decreases k,
{
    if k > 0 {
        lemma_sessions_before(t, prompts, more, entries, (k - 1) as nat);
        let key = prompts[k - 1].0;
        assert(prompts.push(more)[k - 1] == prompts[k - 1]);
        lemma_place_bounds(prompts, key);
        lemma_place_bounds(prompts.push(more), key);
        let p = place_of(prompts, key);
        assert(p <= k - 1) by {
            if p > k - 1 {
                assert(prompts[k - 1].0 != key);
            }
        }
        assert forall|j: int| 0 <= j < p implies (#[trigger] prompts.push(more)[j]).0 != key by {
            assert(prompts[j].0 != key);
        }
        assert(prompts.push(more)[p] == prompts[p]);
        lemma_place_of(prompts.push(more), key, p);
    }
}

/// A session that some entry names counts, with the time that was waited in it and the tokens of all
/// of its messages; one that no entry names counts nothing.
pub proof fn law_session_counts(
    t: Tally,
    prompts: Seq<(Seq<char>, PromptRecordView)>,
    session: Seq<char>,
    record: PromptRecordView,
    entries: Seq<AttestationEntryView>,
)
    requires
        !has_key(prompts, session),
    ensures
        ({
            let a = with_sessions(t, prompts, entries, prompts.len());
            let b = with_sessions(
                t,
                prompts.push((session, record)),
                entries,
                prompts.len() + 1,
            );
            if is_named(entries, session) {
                &&& b.waiting == a.waiting + waiting_of(record.messages)
                &&& b.input == with_usages(a, record.messages).input
                &&& b.output == with_usages(a, record.messages).output
                &&& b.cache_read == with_usages(a, record.messages).cache_read
                &&& b.cache_creation == with_usages(a, record.messages).cache_creation
            } else {
                b == a
            }
        }),
{
    let all = prompts.push((session, record));
    lemma_sessions_before(t, prompts, (session, record), entries, prompts.len());
    lemma_place_bounds(prompts, session);
    assert forall|j: int| 0 <= j < prompts.len() implies (#[trigger] all[j]).0 != session by {
        assert(prompts[j].0 != session);
    }
    lemma_place_of(all, session, prompts.len() as int);
    let a = with_sessions(t, prompts, entries, prompts.len());
    lemma_usages_from(
        a,
        Tally { waiting: a.waiting + waiting_of(record.messages), ..a },
        record.messages,
    );
}

proof fn lemma_usages_from(a: Tally, b: Tally, messages: Seq<MessageView>)
    requires
        a.input == b.input,
        a.output == b.output,
        a.cache_read == b.cache_read,
        a.cache_creation == b.cache_creation,
    ensures
        with_usages(a, messages).input == with_usages(b, messages).input,
        with_usages(a, messages).output == with_usages(b, messages).output,
        with_usages(a, messages).cache_read == with_usages(b, messages).cache_read,
        with_usages(a, messages).cache_creation == with_usages(b, messages).cache_creation,
        with_usages(a, messages).waiting == a.waiting,
        with_usages(b, messages).waiting == b.waiting,
    decreases messages.len(),
{
    if messages.len() > 0 {
        lemma_usages_from(a, b, messages.drop_last());
    }
}

// ---------------------------------------------------------------------------------------------
// A commit
// ---------------------------------------------------------------------------------------------
/// What the statistics say: what git counted, what the log counted, and as a human's what git
/// counted beyond the AI's lines, or, where that is less than none, what the log says of a human.
pub open spec fn say(stats: CommitStats, added: nat, deleted: nat, t: Tally) -> bool {
    &&& stats.git_diff_added_lines == added
    &&& stats.git_diff_deleted_lines == deleted
    &&& stats.ai_additions == t.ai
    &&& stats.mixed_additions == t.mixed
    &&& stats.ai_accepted == t.accepted
    &&& stats.time_waiting_for_ai == t.waiting
    &&& stats.ai_input_tokens == t.input
    &&& stats.ai_output_tokens == t.output
    &&& stats.ai_cache_read_input_tokens == t.cache_read
    &&& stats.ai_cache_creation_input_tokens == t.cache_creation
    &&& t.ai <= added ==> stats.human_additions + t.ai == added
    &&& t.ai > added ==> stats.human_additions == t.human
}

/// The statistics of a commit: git is asked what it added and deleted, its log is looked for, and
/// both are counted; a commit without a log has no lines of an AI.
pub proof fn law_commit_is_counted(
    repo: RepositoryView,
    commit: Seq<char>,
    text: Seq<char>,
    s: Tape,
)
    requires
        0 <= s.next <= s.replies.len(),
        left(s) > 0 ==> wrote_text(answer(s, 0), text) && numstat_sum(lines_of(text), 0) <= u32::MAX
            && numstat_sum(lines_of(text), 1) <= u32::MAX,
    ensures
        ({
            let run = commit_stats_run(repo, commit, s);
            let added = numstat_sum(lines_of(text), 0);
            let deleted = numstat_sum(lines_of(text), 1);
            &&& left(s) == 0 ==> waits_for(
                run,
                git_command(
                    repo.args().push("show"@).push("--numstat"@).push("--format="@).push(commit),
                ),
            )
            &&& left(s) == 1 ==> waits_for(run, RequestView::FindLog { commit })
            &&& left(s) > 1 ==> match answer(s, 1) {
                Reply::MaybeLog(Some(log)) => countable(log.deep_view()) ==> run.1 == behind(s, 2)
                    && (run.0 matches Ok(stats) && say(
                    stats,
                    added,
                    deleted,
                    tally_of(log.deep_view()),
                )),
                Reply::MaybeLog(None) => run.1 == behind(s, 2) && (run.0 matches Ok(stats) && say(
                    stats,
                    added,
                    deleted,
                    no_tally(),
                )),
                _ => true,
            }
        }),
{
    if left(s) > 0 {
        lemma_behind(s, 1);
        assert(left(s) > 1 ==> answer(behind(s, 1), 0) == answer(s, 1));
    }
}

/// The statistics command on a commit: the commit is looked up, it is counted under the name that
/// git has for it, and the outcome is given as JSON where that was asked for. Where git knows no
/// such commit, that is what the failure says.
pub proof fn law_stats_command(
    repo: RepositoryView,
    sha: Seq<char>,
    oid: Seq<char>,
    text: Seq<char>,
    s: Tape,
)
    requires
        0 <= s.next <= s.replies.len(),
        left(s) > 1 ==> answer(s, 1) == Reply::Done(Ok(())),
        left(s) > 2 ==> wrote_text(answer(s, 2), text) && numstat_sum(lines_of(text), 0) <= u32::MAX
            && numstat_sum(lines_of(text), 1) <= u32::MAX,
    ensures
        ({
            let run = stats_command_run(repo, Some(sha), true, s);
            let added = numstat_sum(lines_of(text), 0);
            let deleted = numstat_sum(lines_of(text), 1);
            let found = wrote(answer(s, 0), oid);
            &&& left(s) == 0 ==> waits_for(run, name_question(repo, sha))
            &&& left(s) > 0 && (answer(s, 0) matches Reply::Exit { success, .. } && !success)
                ==> run.0 == Err::<(), StopView>(
                StopView::Fail(GitAiErrorView::Generic("No commit found: "@ + sha)),
            )
            &&& left(s) == 2 && found ==> waits_for(
                run,
                git_command(
                    repo.args().push("show"@).push("--numstat"@).push("--format="@).push(oid),
                ),
            )
            &&& left(s) == 3 && found ==> waits_for(run, RequestView::FindLog { commit: oid })
            &&& left(s) == 4 && found ==> match answer(s, 3) {
                Reply::MaybeLog(Some(log)) => countable(log.deep_view()) ==> (run.0 matches Err(
                    StopView::Pending(RequestView::StatsJson { stats }),
                ) && say(stats, added, deleted, tally_of(log.deep_view()))),
                Reply::MaybeLog(None) => run.0 matches Err(
                    StopView::Pending(RequestView::StatsJson { stats }),
                ) && say(stats, added, deleted, no_tally()),
                _ => true,
            }
        }),
{
    law_git_line(s, repo.args().push("rev-parse"@).push("--verify"@).push(sha), oid);
    if left(s) > 1 && wrote(answer(s, 0), oid) {
        lemma_behind(s, 1);
        assert(answer(behind(s, 1), 0) == answer(s, 1));
        let s2 = behind(s, 2);
        lemma_behind(s, 2);
        assert(left(s) > 2 ==> answer(s2, 0) == answer(s, 2));
        assert(left(s) > 3 ==> answer(s2, 1) == answer(s, 3));
        law_commit_is_counted(repo, oid, text, s2);
        assert(behind(s2, 2) == behind(s, 4));
    }
}

/// Without a commit, the statistics are those of what `HEAD` points to.
pub proof fn law_stats_of_head(
    repo: RepositoryView,
    refname: Seq<char>,
    oid: Seq<char>,
    s: Tape,
)
    requires
        0 <= s.next <= s.replies.len(),
        left(s) > 0 ==> wrote(answer(s, 0), refname),
        left(s) > 1 ==> wrote(answer(s, 1), oid),
    ensures
        ({
            let run = stats_target_run(repo, None, s);
            &&& left(s) == 0 ==> waits_for(
                run,
                git_command(repo.args().push("symbolic-ref"@).push("HEAD"@)),
            )
            &&& left(s) == 1 ==> waits_for(
                run,
                git_command(repo.args().push("rev-parse"@).push(refname)),
            )
            &&& left(s) > 1 ==> run == (
                Ok::<(Seq<char>, Seq<char>), StopView>((oid, refname)),
                behind(s, 2),
            )
        }),
{
    if left(s) > 0 {
        crate::text::law_trimmed_line(refname);
        lemma_behind(s, 1);
        assert(left(s) > 1 ==> answer(behind(s, 1), 0) == answer(s, 1));
        law_git_line(behind(s, 1), repo.args().push("rev-parse"@).push(refname), oid);
    }
}

// ---------------------------------------------------------------------------------------------
// On the terminal
// ---------------------------------------------------------------------------------------------
/// The time that was waited is given in seconds below a minute, and otherwise in whole minutes;
/// nothing is said of none.
pub proof fn law_waited(seconds: nat)
    ensures
        seconds == 0 ==> waited(seconds).len() == 0,
        0 < seconds < 60 ==> waited(seconds) == " | waited "@ + decimal(seconds) + "s for ai"@,
        seconds >= 60 ==> waited(seconds) == " | waited "@ + decimal(seconds / 60) + "m for ai"@,
{
    if 0 < seconds < 60 {
        assert(seconds / 60 == 0);
        assert(seconds % 60 == seconds);
    }
    if seconds >= 60 {
        assert(seconds / 60 > 0);
    }
}

proof fn lemma_printed(all: Seq<Seq<char>>, i: int, s: Tape)
    requires
        0 <= i <= all.len(),
        0 <= s.next <= s.replies.len(),
        forall|k: int| 0 <= k < left(s) ==> #[trigger] answer(s, k) == Reply::Done(Ok(())),
    ensures
        left(s) < all.len() - i ==> waits_for(
            print_lines_run(all, i, true, s),
            RequestView::Stdout { line: all[i + left(s)] },
        ),
        left(s) >= all.len() - i ==> print_lines_run(all, i, true, s) == (
            Ok::<(), StopView>(()),
            behind(s, all.len() - i),
        ),
    decreases all.len() - i,
{
    if i < all.len() && left(s) > 0 {
        let s1 = behind(s, 1);
        lemma_behind(s, 1);
        assert(answer(s, 0) == Reply::Done(Ok(())));
        assert forall|k: int| 0 <= k < left(s1) implies #[trigger] answer(s1, k) == Reply::Done(
            Ok(()),
        ) by {
            assert(answer(s, k + 1) == Reply::Done(Ok(())));
        }
        lemma_printed(all, i + 1, s1);
    }
}

/// Lines are printed one by one, in their order, or none of them is.
pub proof fn law_lines_are_printed(all: Seq<Seq<char>>, s: Tape)
    requires
        0 <= s.next <= s.replies.len(),
        forall|k: int| 0 <= k < left(s) ==> #[trigger] answer(s, k) == Reply::Done(Ok(())),
    ensures
        left(s) < all.len() ==> waits_for(
            print_lines_run(all, 0, true, s),
            RequestView::Stdout { line: all[left(s)] },
        ),
        left(s) >= all.len() ==> print_lines_run(all, 0, true, s) == (
            Ok::<(), StopView>(()),
            behind(s, all.len() as int),
        ),
        print_lines_run(all, 0, false, s) == (Ok::<(), StopView>(()), s),
{
    lemma_printed(all, 0, s);
}

/// Lines put together are read back.
pub proof fn law_lines_with_ends(all: Seq<Seq<char>>, line: Seq<char>)
    ensures
        with_line_ends(all.push(line)) == (with_line_ends(all) + line).push('\n'),
        with_line_ends(Seq::empty()).len() == 0,
{
    reveal_strlit("\n");
    assert("\n"@ =~= seq!['\n']);
    assert(all.push(line).drop_last() =~= all);
    assert(with_line_ends(all.push(line)) =~= (with_line_ends(all) + line).push('\n'));
}

// ---------------------------------------------------------------------------------------------
// Shares
// ---------------------------------------------------------------------------------------------
proof fn lemma_share(n: nat, d: nat, w: nat)
    requires
        0 < n <= d <= 0x2_0000_0000,
        w <= 100,
    ensures
        ({
            let r = share(n, d, w);
            &&& r.bottom >= 0x10_0000_0000_0000
            &&& 2 * (r.top * d) <= 2 * ((w * n) * r.bottom) + 3 * (w * d)
            &&& 2 * ((w * n) * r.bottom) <= 2 * (r.top * d) + 3 * (w * d)
        }),
{
    let q = quotient(n, d);
    let t = q.top;
    let b = q.bottom;
    assert(n < 0x20_0000_0000_0000 * d);
    law_quotient(n, d);
    assert(b >= t) by (nonlinear_arith)
        requires
            2 * t * d <= 2 * (n * b) + d,
            n <= d,
            d > 0,
    ;
    law_product(q, w);
    let p = t * w;
    let top = times(q, w).top;
    assert(p <= 0x20_0000_0000_0000 * w) by (nonlinear_arith)
        requires
            p == t * w,
            t <= 0x20_0000_0000_0000,
    ;
    assert(top <= p + w);
    assert(p <= top + w);
    assert(top * d <= p * d + w * d) by (nonlinear_arith)
        requires
            top <= p + w,
    ;
    assert(p * d <= top * d + w * d) by (nonlinear_arith)
        requires
            p <= top + w,
    ;
    assert(2 * (p * d) <= 2 * ((w * n) * b) + w * d) by (nonlinear_arith)
        requires
            p == t * w,
            2 * t * d <= 2 * (n * b) + d,
    ;
    assert(2 * ((w * n) * b) <= 2 * (p * d) + w * d) by (nonlinear_arith)
        requires
            p == t * w,
            2 * (n * b) <= 2 * t * d + d,
    ;
}

/// A percentage is the nearest whole number of hundredths, but for what binary fractions cannot
/// hold, which is less than half of one part of the whole.
pub proof fn law_percentage(n: nat, total: nat)
    requires
        0 < n <= total <= 0x1_ffff_fffe,
    ensures
        2 * (percentage(n, total) * total) <= 200 * n + total + 1,
        200 * n <= 2 * (percentage(n, total) * total) + total + 1,
{
    lemma_share(n, total, 100);
    let r = share(n, total, 100);
    law_whole_numbers(r);
    let whole = round(r);
    let b = r.bottom;
    let d = total;
    let top = r.top;
    assert(300 * d <= b);
    assert(2 * (whole * d) <= 200 * n + d + 1) by (nonlinear_arith)
        requires
            2 * (whole * b) <= 2 * top + b,
            2 * (top * d) <= 2 * ((100 * n) * b) + 3 * (100 * d),
            300 * d <= b,
            b > 0,
            d > 0,
    {
        assert(2 * (whole * b) * d <= (2 * top + b) * d);
        assert((2 * (whole * d)) * b <= (200 * n + d + 1) * b);
    }
    assert(200 * n <= 2 * (whole * d) + d + 1) by (nonlinear_arith)
        requires
            2 * top <= 2 * (whole * b) + b,
            2 * ((100 * n) * b) <= 2 * (top * d) + 3 * (100 * d),
            300 * d <= b,
            b > 0,
            d > 0,
    {
        assert((2 * top) * d <= (2 * (whole * b) + b) * d);
        assert((200 * n) * b <= (2 * (whole * d) + d + 1) * b);
    }
    assert(whole <= 0xffff_ffff) by (nonlinear_arith)
        requires
            2 * (whole * d) <= 200 * n + d + 1,
            n <= d,
            d > 0,
    ;
}

/// The blocks of a bar that a part of a whole takes up: as many as fit into its share.
pub proof fn law_blocks(n: nat, total: nat, width: nat)
    requires
        0 < n <= total <= 0x1_ffff_fffe,
        width <= 100,
    ensures
        floor(share(n, total, width)) * total <= width * n,
        width * n <= (floor(share(n, total, width)) + 1) * total,
{
    lemma_share(n, total, width);
    let r = share(n, total, width);
    law_whole_numbers(r);
    let whole = floor(r);
    let b = r.bottom;
    let d = total;
    let top = r.top;
    let wn = width * n;
    let wd = width * d;
    assert(3 * wd <= 300 * d) by (nonlinear_arith)
        requires
            wd == width * d,
            width <= 100,
    ;
    assert(3 * wd < 2 * b);
    assert(whole * d <= wn) by (nonlinear_arith)
        requires
            whole * b <= top,
            2 * (top * d) <= 2 * (wn * b) + 3 * wd,
            3 * wd < 2 * b,
            b > 0,
            d > 0,
    {
        assert((whole * b) * d <= top * d);
        assert(2 * (whole * d) * b < (2 * wn + 2) * b);
    }
    assert(wn <= (whole + 1) * d) by (nonlinear_arith)
        requires
            top <= (whole + 1) * b,
            2 * (wn * b) <= 2 * (top * d) + 3 * wd,
            3 * wd < 2 * b,
            b > 0,
            d > 0,
    {
        assert(top * d <= ((whole + 1) * b) * d);
        assert((2 * wn) * b < (2 * ((whole + 1) * d) + 2) * b);
    }
}

/// The share of nothing is nothing.
pub proof fn law_no_share(total: nat, width: nat)
    requires
        total > 0,
    ensures
        floor(share(0, total, width)) == 0,
        percentage(0, total) == 0,
{
    assert(0nat / total == 0 && 0nat % total == 0) by (nonlinear_arith)
        requires
            total > 0,
    ;
    assert(quotient(0, total) == (RatioView { top: 0, bottom: 1 }));
    law_product(quotient(0, total), width);
    law_product(quotient(0, total), 100);
    assert(0 * width == 0) by (nonlinear_arith);
    let r = share(0, total, 100);
    assert(r.top == 0 && r.bottom == 1);
    assert(round(r) == 0) by {
        assert((2 * r.top + r.bottom) / (2 * r.bottom) == 1nat / 2nat);
    }
}

/// What the bar shows: a human's lines without the mixed ones in proportion to all lines, though two
/// blocks at least where there are two lines or more; of what is left of the bar, the mixed lines in
/// proportion to themselves and the AI's; and the AI's in what is left then.
pub proof fn law_bar_is_in_proportion(stats: CommitStats)
    requires
        sums_fit(stats),
    ensures
        ({
            let bar = bar_of(stats);
            let human: int = if stats.human_additions >= stats.mixed_additions {
                stats.human_additions - stats.mixed_additions
            } else {
                0
            };
            let total = stats.human_additions + stats.ai_additions;
            let others = stats.mixed_additions + stats.ai_additions;
            &&& bar.human != 2 ==> bar.human * total <= 40 * human
            &&& total > 0 ==> 40 * human <= (bar.human + 1) * total
            &&& others > 0 && bar.human <= 40 ==> bar.mixed * others <= (40 - bar.human)
                * stats.mixed_additions <= (bar.mixed + 1) * others
            &&& stats.mixed_additions == 0 ==> bar.mixed == 0
            &&& bar.human <= 40 ==> bar.human + bar.mixed + bar.ai == 40
        }),
{
    let bar = bar_of(stats);
    let total = (stats.human_additions + stats.ai_additions) as nat;
    let others = (stats.mixed_additions + stats.ai_additions) as nat;
    let human = pure_human(stats);
    law_bar(stats);
    if total > 0 {
        if human > 0 {
            law_blocks(human, total, 40);
        } else {
            law_no_share(total, 40);
        }
        let blocks = floor(share(human, total, 40));
        assert(40 * human <= (bar.human + 1) * total) by (nonlinear_arith)
            requires
                40 * human <= (blocks + 1) * total || human == 0,
                blocks <= bar.human,
        ;
        if bar.human != 2 {
            assert(bar.human == blocks);
            assert(human == 0 ==> blocks * total == 0) by (nonlinear_arith)
                requires
                    human == 0 ==> blocks == 0,
            ;
        }
    } else {
        assert(bar.human * total == 0) by (nonlinear_arith)
            requires
                total == 0,
        ;
    }
    if others > 0 && bar.human <= 40 {
        let left_over: nat = (40 - bar.human) as nat;
        if stats.mixed_additions > 0 {
            law_blocks(stats.mixed_additions as nat, others, left_over);
        } else {
            law_no_share(others, left_over);
            assert(bar.mixed * others == 0 && left_over * 0 == 0) by (nonlinear_arith)
                requires
                    bar.mixed == 0,
            ;
        }
    }
}

/// How much of an AI's lines was accepted is the nearest whole percentage, but for what binary
/// fractions cannot hold, and never more than all of them.
pub proof fn law_acceptance_is_nearest(stats: CommitStats)
    requires
        stats.ai_additions > 0,
    ensures
        stats.ai_accepted == 0 ==> acceptance(stats) == 0,
        0 < stats.ai_accepted <= stats.ai_additions ==> 2 * (acceptance(stats) * stats.ai_additions)
            <= 200 * stats.ai_accepted + stats.ai_additions + 1 && 200 * stats.ai_accepted <= 2 * (
        acceptance(stats) * stats.ai_additions) + stats.ai_additions + 1,
{
    let n = stats.ai_accepted as nat;
    let d = stats.ai_additions as nat;
    let r = share(n, d, 100);
    if n == 0 {
        law_no_share(d, 100);
        assert(0nat / d == 0 && 0nat % d == 0) by (nonlinear_arith)
            requires
                d > 0,
        ;
        assert(quotient(0, d) == (RatioView { top: 0, bottom: 1 }));
        law_product(quotient(0, d), 100);
        law_nearest(0, 1);
        assert(nearest(0, 1) == 0);
    } else if n <= d {
        lemma_share(n, d, 100);
        let b = r.bottom;
        let top = r.top;
        assert(300 * d <= b);
        let cut = at_most(r, 100);
        let whole = acceptance(stats);
        if top > 100 * b {
            law_nearest(100, 1);
            assert(whole == 100);
            assert(100 * d <= 100 * n) by (nonlinear_arith)
                requires
                    top > 100 * b,
                    2 * (top * d) <= 2 * ((100 * n) * b) + 3 * (100 * d),
                    300 * d <= b,
                    b > 0,
                    d > 0,
            {
                assert(top * d > (100 * b) * d);
                assert((200 * d) * b < (200 * n + 2) * b);
            }
        } else {
            law_nearest(top, b);
            assert(2 * (whole * d) <= 200 * n + d + 1) by (nonlinear_arith)
                requires
                    2 * whole * b <= 2 * top + b,
                    2 * (top * d) <= 2 * ((100 * n) * b) + 3 * (100 * d),
                    300 * d <= b,
                    b > 0,
                    d > 0,
            {
                assert((2 * whole * b) * d <= (2 * top + b) * d);
                assert((2 * (whole * d)) * b <= (200 * n + d + 1) * b);
            }
            assert(200 * n <= 2 * (whole * d) + d + 1) by (nonlinear_arith)
                requires
                    2 * top <= 2 * whole * b + b,
                    2 * ((100 * n) * b) <= 2 * (top * d) + 3 * (100 * d),
                    300 * d <= b,
                    b > 0,
                    d > 0,
            {
                assert((2 * top) * d <= (2 * whole * b + b) * d);
                assert((200 * n) * b <= (2 * (whole * d) + d + 1) * b);
            }
        }
    }
}

/// The three percentages are those of a human's lines without the mixed ones, of the mixed lines,
/// and of the AI's, each in all lines.
pub proof fn law_shares(stats: CommitStats)
    ensures
        ({
            let (human, mixed, ai) = shares(stats);
            let total = (stats.human_additions + stats.ai_additions) as nat;
            &&& ai == percentage(stats.ai_additions as nat, total)
            &&& mixed == percentage(stats.mixed_additions as nat, total)
            &&& stats.human_additions >= stats.mixed_additions ==> human == percentage(
                (stats.human_additions - stats.mixed_additions) as nat,
                total,
            )
            &&& stats.human_additions < stats.mixed_additions ==> human == percentage(0, total)
        }),
{
}

/// The tokens that were used are those that went in and those that came out, with those that a
/// cache was read for and those that were written to one, if there are any.
pub proof fn law_tokens_used(stats: CommitStats)
    ensures
        ({
            let all = decimal((stats.ai_input_tokens + stats.ai_output_tokens) as nat);
            let read = stats.ai_cache_read_input_tokens;
            let written = stats.ai_cache_creation_input_tokens;
            let some = stats.ai_input_tokens + stats.ai_output_tokens > 0;
            &&& !some ==> tokens_used(stats).len() == 0
            &&& some && read + written == 0 ==> tokens_used(stats) == " | "@ + all + " tokens"@
            &&& some && read + written > 0 ==> tokens_used(stats) == " | "@ + all + " tokens"@
                + " (cache read "@ + decimal(read as nat) + " / cache write "@ + decimal(
                written as nat,
            ) + ")"@
        }),
{
}

/// What is written on the terminal is what is returned: the same lines, one by one and in order;
/// where nothing is to be written, the same text is returned.
pub proof fn law_terminal(stats: CommitStats, s: Tape)
    requires
        sums_fit(stats),
        stats.ai_input_tokens + stats.ai_output_tokens <= u64::MAX,
        0 <= s.next <= s.replies.len(),
        forall|k: int| 0 <= k < left(s) ==> #[trigger] answer(s, k) == Reply::Done(Ok(())),
    ensures
        ({
            let deletes = stats.git_diff_added_lines == 0 && stats.git_diff_deleted_lines > 0;
            let lines = if deletes {
                deletion_lines()
            } else if stats.ai_additions > 0 {
                addition_lines(stats).push(acceptance_line(stats))
            } else {
                addition_lines(stats)
            };
            &&& left(s) < lines.len() ==> waits_for(
                terminal_run(stats, true, s),
                RequestView::Stdout { line: lines[left(s)] },
            )
            &&& left(s) >= lines.len() ==> terminal_run(stats, true, s) == (
                Ok::<Seq<char>, StopView>(with_line_ends(lines)),
                behind(s, lines.len() as int),
            )
            &&& terminal_run(stats, false, s) == (
                Ok::<Seq<char>, StopView>(with_line_ends(lines)),
                s,
            )
        }),
{
    let first = addition_lines(stats);
    let more = ai_lines(stats);
    law_lines_are_printed(deletion_lines(), s);
    law_lines_are_printed(first, s);
    assert(first.len() == 2);
    if left(s) >= 2 {
        let s1 = behind(s, 2);
        lemma_behind(s, 2);
        assert forall|k: int| 0 <= k < left(s1) implies #[trigger] answer(s1, k) == Reply::Done(
            Ok(()),
        ) by {
            assert(answer(s, k + 2) == Reply::Done(Ok(())));
        }
        law_lines_are_printed(more, s1);
    }
    assert(print_lines_run(more, 0, false, s) == (Ok::<(), StopView>(()), s));
    law_lines_with_ends(first, acceptance_line(stats));
    law_lines_with_ends(Seq::empty(), acceptance_line(stats));
    assert(Seq::<Seq<char>>::empty().push(acceptance_line(stats)) =~= seq![acceptance_line(stats)]);
    assert(with_line_ends(Seq::empty()) =~= Seq::<char>::empty());
    if stats.ai_additions > 0 {
        assert(with_line_ends(more) =~= acceptance_line(stats).push('\n'));
        assert(with_line_ends(first) + with_line_ends(more) =~= with_line_ends(
            first.push(acceptance_line(stats)),
        ));
    } else {
        assert(with_line_ends(first) + with_line_ends(more) =~= with_line_ends(first));
    }
}

/// A bar's blocks are a human's, then the mixed ones, then the AI's.
pub proof fn law_bar_text(bar: BarView, start: Seq<char>, end: Seq<char>)
    ensures
        ({
            let text = bar_text(bar, start, end);
            let n = start.len();
            &&& text.len() == n + bar.human + bar.mixed + bar.ai + end.len()
            &&& text.take(n as int) == start
            &&& text.skip((n + bar.human + bar.mixed + bar.ai) as int) == end
            &&& forall|i: int| n <= i < n + bar.human ==> #[trigger] text[i] == '█'
            &&& forall|i: int|
                n + bar.human <= i < n + bar.human + bar.mixed ==> #[trigger] text[i] == '▒'
            &&& forall|i: int|
                n + bar.human + bar.mixed <= i < n + bar.human + bar.mixed + bar.ai
                    ==> #[trigger] text[i] == '░'
        }),
{
    reveal_strlit("█");
    reveal_strlit("▒");
    reveal_strlit("░");
    law_repeated("█"@, bar.human);
    law_repeated("▒"@, bar.mixed);
    law_repeated("░"@, bar.ai);
    assert(bar.human * 1 == bar.human && bar.mixed * 1 == bar.mixed && bar.ai * 1 == bar.ai);
    let text = bar_text(bar, start, end);
    assert(text.take(start.len() as int) =~= start);
    assert(text.skip((start.len() + bar.human + bar.mixed + bar.ai) as int) =~= end);
}

/// The percentages stand below the ends of the bar, and that of the mixed lines, if there is one,
/// between them.
pub proof fn law_percentages_are_written(stats: CommitStats)
    ensures
        ({
            let (human, mixed, ai) = shares(stats);
            let first = "     "@ + left_aligned(decimal(human) + "%"@, 3);
            let last = right_aligned(decimal(ai), 3) + "%"@;
            let wide = repeated("&nbsp;"@, 6) + decimal(human) + "%"@;
            &&& mixed == 0 ==> percentage_line(stats) == first + repeated(" "@, 33) + last
            &&& mixed > 0 ==> percentage_line(stats) == first + repeated(" "@, 12) + "mixed "@
                + right_aligned(decimal(mixed), 3) + "%"@ + repeated(" "@, 12) + last
            &&& mixed == 0 ==> markdown_percentages(stats) == wide + repeated("&nbsp;"@, 105)
                + decimal(ai) + "%"@
            &&& mixed > 0 ==> markdown_percentages(stats) == wide + repeated("&nbsp;"@, 40)
                + "mixed&nbsp;"@ + decimal(mixed) + "%"@ + repeated("&nbsp;"@, 40) + decimal(ai)
                + "%"@
        }),
{
    let (human, mixed, ai) = shares(stats);
    let first = "     "@ + left_aligned(decimal(human) + "%"@, 3);
    let last = right_aligned(decimal(ai), 3) + "%"@;
    if mixed == 0 {
        assert(percentage_line(stats) =~= first + repeated(" "@, 33) + last);
    } else {
        assert(percentage_line(stats) =~= first + repeated(" "@, 12) + "mixed "@ + right_aligned(
            decimal(mixed),
            3,
        ) + "%"@ + repeated(" "@, 12) + last);
    }
}

/// The statistics as Markdown are the bar and the percentages, each on a line.
pub proof fn law_markdown(stats: CommitStats)
    ensures
        ({
            let deletes = stats.git_diff_added_lines == 0 && stats.git_diff_deleted_lines > 0;
            &&& deletes ==> markdown_of(stats) == with_line_ends(markdown_deletion())
            &&& !deletes ==> markdown_of(stats) == (bar_text(
                bar_of(stats),
                "you&nbsp;&nbsp;"@,
                "&nbsp;ai"@,
            ).push('\n') + markdown_percentages(stats)).push('\n')
        }),
{
    let bar = bar_text(bar_of(stats), "you&nbsp;&nbsp;"@, "&nbsp;ai"@);
    let line = markdown_percentages(stats);
    law_lines_with_ends(Seq::empty(), bar);
    law_lines_with_ends(seq![bar], line);
    assert(Seq::<Seq<char>>::empty().push(bar) =~= seq![bar]);
    assert(seq![bar].push(line) =~= seq![bar, line]);
    assert(with_line_ends(Seq::empty()) =~= Seq::<char>::empty());
    assert(with_line_ends(seq![bar]) =~= bar.push('\n'));
}

/// A second record under the name of a session counts nothing.
pub proof fn law_session_counts_under_its_first_record(
    t: Tally,
    prompts: Seq<(Seq<char>, PromptRecordView)>,
    session: Seq<char>,
    record: PromptRecordView,
    entries: Seq<AttestationEntryView>,
)
    requires
        has_key(prompts, session),
    ensures
        with_sessions(t, prompts.push((session, record)), entries, prompts.len() + 1)
            == with_sessions(t, prompts, entries, prompts.len()),
{
    let all = prompts.push((session, record));
    lemma_sessions_before(t, prompts, (session, record), entries, prompts.len());
    lemma_place_bounds(prompts, session);
    let p = place_of(prompts, session);
    assert forall|j: int| 0 <= j < p implies (#[trigger] all[j]).0 != session by {
        assert(prompts[j].0 != session);
    }
    assert(all[p] == prompts[p]);
    lemma_place_of(all, session, p);
}

// ---------------------------------------------------------------------------------------------
// Limits
// ---------------------------------------------------------------------------------------------
/// What can be counted and shown: nothing but numbers that are too great for where they are kept,
/// and runs of lines that end before they start, stand against it.
pub proof fn law_what_can_be_counted(log: AuthorshipLogView, t: Tally, stats: CommitStats)
    ensures
        tally_fits(t) <==> t.human <= 0xffff_ffff && t.mixed <= 0xffff_ffff && t.ai <= 0xffff_ffff
            && t.accepted <= 0xffff_ffff && t.waiting <= 0xffff_ffff_ffff_ffff && t.input
            <= 0xffff_ffff_ffff_ffff && t.output <= 0xffff_ffff_ffff_ffff && t.cache_read
            <= 0xffff_ffff_ffff_ffff && t.cache_creation <= 0xffff_ffff_ffff_ffff,
        countable(log) <==> tally_fits(tally_of(log)) && forall|e: int, r: int|
            #![trigger all_entries(log.attestations)[e].line_ranges[r]]
            0 <= e < all_entries(log.attestations).len() && 0 <= r < all_entries(
                log.attestations,
            )[e].line_ranges.len() ==> (all_entries(log.attestations)[e].line_ranges[r]
                matches LineRange::Range(first, last) ==> first <= last),
        sums_fit(stats) <==> stats.human_additions + stats.ai_additions <= 0xffff_ffff
            && stats.mixed_additions + stats.ai_additions <= 0xffff_ffff,
{
    let entries = all_entries(log.attestations);
    if countable(log) {
        assert forall|e: int, r: int|
            #![trigger entries[e].line_ranges[r]]
            0 <= e < entries.len() && 0 <= r < entries[e].line_ranges.len() implies (
        entries[e].line_ranges[r] matches LineRange::Range(first, last) ==> first <= last) by {
            assert(ranges_valid(entries[e].line_ranges));
        }
    }
    if forall|e: int, r: int|
        #![trigger entries[e].line_ranges[r]]
        0 <= e < entries.len() && 0 <= r < entries[e].line_ranges.len() ==> (
        entries[e].line_ranges[r] matches LineRange::Range(first, last) ==> first <= last) {
        assert forall|e: int| 0 <= e < entries.len() implies ranges_valid(
            (#[trigger] entries[e]).line_ranges,
        ) by {
            assert forall|r: int| 0 <= r < entries[e].line_ranges.len() implies range_start(
                #[trigger] entries[e].line_ranges[r],
            ) <= range_end(entries[e].line_ranges[r]) by {}
        }
    }
}

} // verus!
