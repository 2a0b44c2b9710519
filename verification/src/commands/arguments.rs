//! What the arguments of a command ask for.
use crate::answers::{
    answer, behind, git_command, law_repository_is_found, law_setting_is_read, left, waits_for,
    wrote,
};
use crate::authorship::carrying::name_question;
use crate::authorship::range_authorship::{print_range_run, range_authorship_run};
use crate::authorship::stats::stats_command_run;
use crate::authorship::working_log::CheckpointKind;
use crate::commands::agent::{all_presets, capitalized, AgentRunResultView, PresetView};
use crate::commands::git_ai_handlers::{
    agent_run_run, blame_run, checkpoint_flags_run, checkpoint_run, command_run, complaints_run,
    done_or_died, first_unknown, help_lines, hook_input_run, listed_names, no_flags,
    preset_complaint, program_run, range_argument_run, record_run, repository_run, show_commit_run,
    show_range_run, stats_delta_run, stats_failed, stats_request_run, stats_run, user_name_run,
    CheckpointFlagsView, StatsRequestView,
};
use crate::error::GitAiErrorView;
use crate::git::repository::{find_repository_run, CommitRangeView, RepositoryView};
use crate::session::{Reply, RequestView, StopView, Tape};
use crate::text::{
    decimal, find_from, has_prefix, law_found, occurs_at, split_at_text, split_at_text_from,
    trimmed,
};
use vstd::prelude::*;

verus! {

broadcast use vstd::seq::group_seq_axioms;

// ---------------------------------------------------------------------------------------------
// Checkpoints
// ---------------------------------------------------------------------------------------------
/// The argument at this place is the value of a `--hook-input` before it.
pub open spec fn is_value(args: Seq<Seq<char>>, i: int) -> bool
    decreases i,
{
    0 < i && args[i - 1] == "--hook-input"@ && !is_value(args, i - 1)
}

/// The argument at this place is this word, and no value.
pub open spec fn is_option(args: Seq<Seq<char>>, i: int, word: Seq<char>) -> bool {
    0 <= i < args.len() && args[i] == word && !is_value(args, i)
}

/// One of the arguments from this place on is this word, and no value.
pub open spec fn asks_from(args: Seq<Seq<char>>, i: int, word: Seq<char>) -> bool {
    exists|j: int| i <= j && #[trigger] is_option(args, j, word)
}

/// One of the arguments is this word, and no value.
pub open spec fn asks_for(args: Seq<Seq<char>>, word: Seq<char>) -> bool {
    asks_from(args, 0, word)
}

/// This is the last `--hook-input`.
pub open spec fn is_last_input(args: Seq<Seq<char>>, i: int) -> bool {
    is_option(args, i, "--hook-input"@) && forall|j: int|
        i < j ==> !#[trigger] is_option(args, j, "--hook-input"@)
}

/// The text is the value behind the last `--hook-input`, or what was read in its place.
pub open spec fn is_last_value(args: Seq<Seq<char>>, text: Seq<char>) -> bool {
    exists|i: int| #[trigger]
        is_last_input(args, i) && i + 1 < args.len() && (text == args[i + 1] || args[i + 1]
            == "stdin"@)
}

proof fn lemma_flags(args: Seq<Seq<char>>, i: int, flags: CheckpointFlagsView, s: Tape)
    requires
        0 <= i <= args.len(),
        !is_value(args, i),
        flags.hook_input matches Some(text) ==> trimmed(text).len() > 0,
    ensures
        checkpoint_flags_run(args, i, flags, s).0 matches Ok(found) ==> {
            &&& found.reset == (flags.reset || asks_from(args, i, "--reset"@))
            &&& found.show_working_log == (flags.show_working_log || asks_from(
                args,
                i,
                "--show-working-log"@,
            ))
            &&& found.hook_input is Some == (flags.hook_input is Some || asks_from(
                args,
                i,
                "--hook-input"@,
            ))
            &&& (found.hook_input matches Some(text) ==> trimmed(text).len() > 0)
            &&& if asks_from(args, i, "--hook-input"@) {
                is_last_value(args, found.hook_input->Some_0)
            } else {
                found.hook_input == flags.hook_input
            }
        },
        !asks_from(args, i, "--hook-input"@) ==> checkpoint_flags_run(args, i, flags, s).0 is Ok
            && checkpoint_flags_run(args, i, flags, s).1 == s,
        checkpoint_flags_run(args, i, flags, s).0 matches Err(StopView::Pending(request)) ==> request
            is ReadStdin || request is Stderr,
    decreases args.len() - i,
{
    reveal_strlit("--reset");
    reveal_strlit("--show-working-log");
    reveal_strlit("--hook-input");
    assert("--reset"@.len() == 7);
    assert("--show-working-log"@.len() == 18);
    assert("--hook-input"@.len() == 12);
    let words = seq!["--reset"@, "--show-working-log"@, "--hook-input"@];
    if i < args.len() {
        let next: int = if args[i] == "--hook-input"@ {
            i + 2
        } else {
            i + 1
        };
        assert forall|word: Seq<char>| #![trigger asks_from(args, i, word)]
            asks_from(args, i, word) == (args[i] == word || asks_from(args, next, word)) by {
            assert(is_option(args, i, word) == (args[i] == word));
            if asks_from(args, i, word) && args[i] != word {
                let j = choose|j: int| i <= j && #[trigger] is_option(args, j, word);
                assert(j != i);
                if next == i + 2 {
                    assert(is_value(args, i + 1));
                    assert(j != i + 1);
                }
                assert(next <= j && is_option(args, j, word));
            }
            if asks_from(args, next, word) {
                let j = choose|j: int| next <= j && #[trigger] is_option(args, j, word);
                assert(i <= j && is_option(args, j, word));
            }
        }
        if args[i] == "--show-working-log"@ {
            lemma_flags(
                args,
                i + 1,
                CheckpointFlagsView { show_working_log: true, ..flags },
                s,
            );
        } else if args[i] == "--reset"@ {
            lemma_flags(args, i + 1, CheckpointFlagsView { reset: true, ..flags }, s);
        } else if args[i] == "--hook-input"@ {
            if i + 1 < args.len() {
                assert(is_value(args, i + 1));
                assert(!is_value(args, i + 2));
                if let (Ok(text), s1) = hook_input_run(args[i + 1], s) {
                    let more = CheckpointFlagsView { hook_input: Some(text), ..flags };
                    lemma_flags(args, i + 2, more, s1);
                    if !asks_from(args, i + 2, "--hook-input"@) {
                        assert forall|j: int| i < j implies !#[trigger] is_option(
                            args,
                            j,
                            "--hook-input"@,
                        ) by {
                            if j > i + 1 && is_option(args, j, "--hook-input"@) {
                                assert(asks_from(args, i + 2, "--hook-input"@));
                            }
                        }
                        assert(is_option(args, i, "--hook-input"@));
                        assert(is_last_input(args, i));
                        assert(is_last_value(args, text));
                    }
                }
            }
        } else {
            lemma_flags(args, i + 1, flags, s);
        }
    } else {
        assert forall|word: Seq<char>| !#[trigger] asks_from(args, i, word) by {}
    }
}

/// What is read of the arguments of a checkpoint: that the working log is reset just where
/// `--reset` is one of those that are no value, that it is shown just where `--show-working-log`
/// is, and input for a hook just where `--hook-input` is. That input is never blank, and is what
/// stands behind the last `--hook-input`, unless it is read from standard input; nothing else is
/// asked for.
pub proof fn law_checkpoint_flags(args: Seq<Seq<char>>, s: Tape)
    ensures
        checkpoint_flags_run(args, 0, no_flags(), s).0 matches Ok(found) ==> {
            &&& found.reset == asks_for(args, "--reset"@)
            &&& found.show_working_log == asks_for(args, "--show-working-log"@)
            &&& found.hook_input is Some == asks_for(args, "--hook-input"@)
            &&& (found.hook_input matches Some(text) ==> trimmed(text).len() > 0
                && is_last_value(args, text))
        },
        !asks_for(args, "--hook-input"@) ==> checkpoint_flags_run(args, 0, no_flags(), s).0 is Ok
            && checkpoint_flags_run(args, 0, no_flags(), s).1 == s,
        checkpoint_flags_run(args, 0, no_flags(), s).0 matches Err(StopView::Pending(request))
            ==> request is ReadStdin || request is Stderr,
{
    lemma_flags(args, 0, no_flags(), s);
}

/// The agent is one of those with a hook.
pub open spec fn is_preset(presets: Seq<PresetView>, name: Seq<char>) -> bool {
    exists|i: int| 0 <= i < presets.len() && (#[trigger] presets[i]).name == name
}

proof fn lemma_preset(presets: Seq<PresetView>, name: Seq<char>, i: int)
    requires
        0 <= i <= presets.len(),
    ensures
        preset_complaint(presets, name, i) is Some <==> exists|j: int|
            i <= j < presets.len() && (#[trigger] presets[j]).name == name,
    decreases presets.len() - i,
{
    if i < presets.len() {
        lemma_preset(presets, name, i + 1);
    }
}

/// Whatever the answers, a checkpoint is recorded with what the arguments ask for, quietly never,
/// and as a human's just where no agent ran; the agent is the one that the first argument names.
#[verifier::rlimit(30)]
pub proof fn law_checkpoint_is_recorded_as_asked(
    presets: Seq<PresetView>,
    args: Seq<Seq<char>>,
    s: Tape,
)
    ensures
        match checkpoint_run(presets, args, s).0 {
            Err(
                StopView::Pending(
                    RequestView::RunCheckpoint {
                        kind,
                        show_working_log,
                        reset,
                        quiet,
                        agent_run,
                        ..
                    },
                ),
            ) => {
                &&& reset == asks_for(args, "--reset"@)
                &&& show_working_log == asks_for(args, "--show-working-log"@)
                &&& !quiet
                &&& (agent_run is None ==> kind == CheckpointKind::Human)
                &&& (agent_run matches Some(run) ==> kind == run.checkpoint_kind)
                &&& agent_run is Some == (args.len() > 0 && (is_preset(presets, args[0]) || args[0]
                    == "mock_ai"@))
            },
            Err(StopView::Pending(RequestView::RunPreset { preset, hook_input })) => {
                &&& args.len() > 0 && preset == args[0] && is_preset(presets, preset)
                &&& hook_input is Some == asks_for(args, "--hook-input"@)
                &&& (hook_input matches Some(text) ==> is_last_value(args, text))
            },
            Err(StopView::Pending(RequestView::Clock)) => args.len() > 0 && args[0] == "mock_ai"@,
            _ => true,
        },
{
    if args.len() > 0 {
        lemma_preset(presets, args[0], 0);
    }
    if 0 <= s.next < s.replies.len() {
        law_checkpoint_flags(args, Tape { next: s.next + 1, ..s });
    }
}

/// A checkpoint without input for a hook and without an agent: the current directory is asked for,
/// the repository there, and the name that git is configured with; then the checkpoint is recorded
/// in that repository, as that human's.
pub proof fn law_human_checkpoint(
    presets: Seq<PresetView>,
    args: Seq<Seq<char>>,
    git_dir: Seq<char>,
    name: Seq<char>,
    s: Tape,
)
    requires
        0 <= s.next <= s.replies.len(),
        !asks_for(args, "--hook-input"@),
        args.len() > 0 ==> !is_preset(presets, args[0]) && args[0] != "mock_ai"@,
        left(s) > 0 ==> (answer(s, 0) matches Reply::Text(Ok(dir)) && dir@ != "--no-pager"@),
        left(s) > 1 ==> wrote(answer(s, 1), git_dir),
        left(s) > 2 ==> answer(s, 2) == Reply::Flag(true),
        left(s) > 3 ==> wrote(answer(s, 3), name) && name.len() > 0,
    ensures
        ({
            let run = checkpoint_run(presets, args, s);
            let dir = answer(s, 0)->Text_0->Ok_0@;
            &&& left(s) == 0 ==> waits_for(run, RequestView::CurrentDir)
            &&& left(s) == 1 ==> waits_for(
                run,
                git_command(seq!["-C"@, dir, "rev-parse"@, "--absolute-git-dir"@]),
            )
            &&& left(s) == 2 ==> waits_for(run, RequestView::IsDir { path: git_dir })
            &&& left(s) == 3 ==> waits_for(
                run,
                git_command(
                    seq!["-C"@, dir, "--no-pager"@, "config"@, "--get"@, "user.name"@],
                ),
            )
            &&& left(s) == 4 ==> waits_for(
                run,
                RequestView::RunCheckpoint {
                    git_dir,
                    author: name,
                    kind: CheckpointKind::Human,
                    show_working_log: asks_for(args, "--show-working-log"@),
                    reset: asks_for(args, "--reset"@),
                    quiet: false,
                    agent_run: None,
                },
            )
            &&& left(s) == 5 && answer(s, 4) == Reply::Done(Ok(())) ==> run == (
                Ok::<(), StopView>(()),
                behind(s, 5),
            )
        }),
{
    if args.len() > 0 {
        lemma_preset(presets, args[0], 0);
    }
    if left(s) > 0 {
        let s1 = behind(s, 1);
        law_checkpoint_flags(args, s1);
        let dir = answer(s, 0)->Text_0->Ok_0@;
        let flags = checkpoint_flags_run(args, 0, no_flags(), s1).0->Ok_0;
        assert(agent_run_run(presets, args, flags.hook_input, s1) == (
            Ok::<Option<AgentRunResultView>, StopView>(None),
            s1,
        ));
        lemma_record(flags, None, dir, git_dir, name, s1, dir);
    }
}

/// A checkpoint with this outcome of an agent's hook is recorded: where the agent ran, if it says
/// where, and otherwise in the current directory.
proof fn lemma_record(
    flags: CheckpointFlagsView,
    agent_run: Option<AgentRunResultView>,
    current_dir: Seq<char>,
    git_dir: Seq<char>,
    name: Seq<char>,
    s: Tape,
    dir: Seq<char>,
)
    requires
        0 <= s.next <= s.replies.len(),
        dir == (match agent_run {
            Some(run) => match run.repo_working_dir {
                Some(there) => there,
                None => current_dir,
            },
            None => current_dir,
        }),
        dir != "--no-pager"@,
        left(s) > 0 ==> wrote(answer(s, 0), git_dir),
        left(s) > 1 ==> answer(s, 1) == Reply::Flag(true),
        left(s) > 2 ==> wrote(answer(s, 2), name) && name.len() > 0,
    ensures
        ({
            let run = record_run(flags, agent_run, current_dir, s);
            &&& left(s) == 0 ==> waits_for(
                run,
                git_command(seq!["-C"@, dir, "rev-parse"@, "--absolute-git-dir"@]),
            )
            &&& left(s) == 1 ==> waits_for(run, RequestView::IsDir { path: git_dir })
            &&& left(s) == 2 ==> waits_for(
                run,
                git_command(
                    seq!["-C"@, dir, "--no-pager"@, "config"@, "--get"@, "user.name"@],
                ),
            )
            &&& left(s) == 3 ==> waits_for(
                run,
                RequestView::RunCheckpoint {
                    git_dir,
                    author: name,
                    kind: match agent_run {
                        Some(run) => run.checkpoint_kind,
                        None => CheckpointKind::Human,
                    },
                    show_working_log: flags.show_working_log,
                    reset: flags.reset,
                    quiet: false,
                    agent_run,
                },
            )
            &&& left(s) == 4 && answer(s, 3) == Reply::Done(Ok(())) ==> run == (
                Ok::<(), StopView>(()),
                behind(s, 4),
            )
        }),
{
    let there = seq!["-C"@, dir];
    reveal_strlit("-C");
    reveal_strlit("--no-pager");
    assert(there.push("rev-parse"@).push("--absolute-git-dir"@) =~= seq![
        "-C"@,
        dir,
        "rev-parse"@,
        "--absolute-git-dir"@,
    ]);
    law_repository_is_found(there, git_dir, s);
    if left(s) > 1 {
        let repo = find_repository_run(there, s).0->Ok_0;
        let s1 = behind(s, 2);
        assert(!there.contains("--no-pager"@)) by {
            assert("-C"@.len() != "--no-pager"@.len());
        }
        assert(repo.args().push("config"@).push("--get"@).push("user.name"@) =~= seq![
            "-C"@,
            dir,
            "--no-pager"@,
            "config"@,
            "--get"@,
            "user.name"@,
        ]);
        law_setting_is_read(repo, "user.name"@, name, s1);
        if left(s) > 2 {
            assert(answer(s1, 0) == answer(s, 2));
        }
    }
}

/// Where an agent ran: where it says, or here.
pub open spec fn where_it_ran(ran: AgentRunResultView, here: Seq<char>) -> Seq<char> {
    match ran.repo_working_dir {
        Some(there) => there,
        None => here,
    }
}

/// A checkpoint of an agent with a hook: behind the current directory, the agent that the first
/// argument names is run; then the checkpoint is recorded as its, where it ran.
pub proof fn law_agent_checkpoint(
    presets: Seq<PresetView>,
    args: Seq<Seq<char>>,
    git_dir: Seq<char>,
    name: Seq<char>,
    s: Tape,
)
    requires
        0 <= s.next <= s.replies.len(),
        !asks_for(args, "--hook-input"@),
        args.len() > 0 && is_preset(presets, args[0]),
        left(s) > 0 ==> (answer(s, 0) matches Reply::Text(Ok(dir)) && dir@ != "--no-pager"@),
        left(s) > 1 ==> (answer(s, 1) matches Reply::AgentRun(Ok(_))),
        left(s) > 2 ==> wrote(answer(s, 2), git_dir),
        left(s) > 3 ==> answer(s, 3) == Reply::Flag(true),
        left(s) > 4 ==> wrote(answer(s, 4), name) && name.len() > 0,
    ensures
        ({
            let run = checkpoint_run(presets, args, s);
            let ran = answer(s, 1)->AgentRun_0->Ok_0.deep_view();
            &&& left(s) == 0 ==> waits_for(run, RequestView::CurrentDir)
            &&& left(s) == 1 ==> waits_for(
                run,
                RequestView::RunPreset { preset: args[0], hook_input: None },
            )
            &&& left(s) == 2 && (ran.repo_working_dir matches Some(there) ==> there
                != "--no-pager"@) ==> waits_for(
                run,
                git_command(
                    seq![
                        "-C"@,
                        where_it_ran(ran, answer(s, 0)->Text_0->Ok_0@),
                        "rev-parse"@,
                        "--absolute-git-dir"@,
                    ],
                ),
            )
            &&& left(s) == 5 && (ran.repo_working_dir matches Some(there) ==> there
                != "--no-pager"@) ==> waits_for(
                run,
                RequestView::RunCheckpoint {
                    git_dir,
                    author: name,
                    kind: ran.checkpoint_kind,
                    show_working_log: asks_for(args, "--show-working-log"@),
                    reset: asks_for(args, "--reset"@),
                    quiet: false,
                    agent_run: Some(ran),
                },
            )
        }),
{
    lemma_preset(presets, args[0], 0);
    if left(s) > 0 {
        let s1 = behind(s, 1);
        law_checkpoint_flags(args, s1);
        let current = answer(s, 0)->Text_0->Ok_0@;
        let flags = checkpoint_flags_run(args, 0, no_flags(), s1).0->Ok_0;
        if left(s) > 1 {
            let s2 = behind(s, 2);
            assert(answer(s1, 0) == answer(s, 1));
            let ran = answer(s, 1)->AgentRun_0->Ok_0.deep_view();
            assert(agent_run_run(presets, args, flags.hook_input, s1) == (
                Ok::<Option<AgentRunResultView>, StopView>(Some(ran)),
                s2,
            ));
            let dir = where_it_ran(ran, current);
            if dir != "--no-pager"@ {
                assert(left(s) > 2 ==> answer(s2, 0) == answer(s, 2));
                assert(left(s) > 3 ==> answer(s2, 1) == answer(s, 3));
                assert(left(s) > 4 ==> answer(s2, 2) == answer(s, 4));
                lemma_record(flags, Some(ran), current, git_dir, name, s2, dir);
                assert(checkpoint_run(presets, args, s) == record_run(
                    flags,
                    Some(ran),
                    current,
                    s2,
                ));
            }
        }
    }
}

// ---------------------------------------------------------------------------------------------
// The other commands
// ---------------------------------------------------------------------------------------------
proof fn lemma_unknown(args: Seq<Seq<char>>, i: int)
    requires
        0 <= i <= args.len(),
    ensures
        match first_unknown(args, i) {
            Some(j) => i <= j < args.len() && args[j] != "--json"@ && forall|k: int|
                i <= k < j ==> #[trigger] args[k] == "--json"@,
            None => forall|k: int| i <= k < args.len() ==> #[trigger] args[k] == "--json"@,
        },
    decreases args.len() - i,
{
    if i < args.len() {
        lemma_unknown(args, i + 1);
    }
}

/// The delta of the statistics: the repository is looked for, and what is to be done is done in it,
/// as JSON just where `--json` is an argument. No other argument is known: the first that is
/// another is complained of, and nothing else is done.
pub proof fn law_stats_delta(args: Seq<Seq<char>>, unknown: int, git_dir: Seq<char>, s: Tape)
    requires
        0 <= s.next <= s.replies.len(),
    ensures
        ({
            let run = stats_delta_run(args, s);
            let known = forall|k: int| 0 <= k < args.len() ==> #[trigger] args[k] == "--json"@;
            let first_other = 0 <= unknown < args.len() && args[unknown] != "--json"@ && forall|
                k: int,
            |
                0 <= k < unknown ==> #[trigger] args[k] == "--json"@;
            &&& first_other && left(s) == 0 ==> waits_for(
                run,
                RequestView::Stderr {
                    line: "Unknown stats-delta argument: "@ + args[unknown],
                    cause: None,
                },
            )
            &&& first_other && left(s) > 0 && answer(s, 0) == Reply::Done(Ok(())) ==> run == (
                Err::<(), StopView>(StopView::Exit(1)),
                behind(s, 1),
            )
            &&& known && left(s) == 0 ==> waits_for(
                run,
                git_command(seq!["rev-parse"@, "--absolute-git-dir"@]),
            )
            &&& known && left(s) == 1 && wrote(answer(s, 0), git_dir) ==> waits_for(
                run,
                RequestView::IsDir { path: git_dir },
            )
            &&& known && left(s) == 2 && wrote(answer(s, 0), git_dir) && answer(s, 1)
                == Reply::Flag(true) ==> waits_for(
                run,
                RequestView::RunStatsDelta { git_dir, json: args.contains("--json"@) },
            )
        }),
{
    lemma_unknown(args, 0);
    if let Some(j) = first_unknown(args, 0) {
        if 0 <= unknown < args.len() && args[unknown] != "--json"@ && (forall|k: int|
            0 <= k < unknown ==> #[trigger] args[k] == "--json"@) {
            assert(unknown == j) by {
                if j < unknown {
                    assert(args[j] == "--json"@);
                }
                if unknown < j {
                    assert(args[unknown] == "--json"@);
                }
            }
        }
    } else if args.len() > 0 {
        assert(args[0] == "--json"@);
        assert(args.contains("--json"@));
    }
    assert(Seq::<Seq<char>>::empty().push("rev-parse"@).push("--absolute-git-dir"@) =~= seq![
        "rev-parse"@,
        "--absolute-git-dir"@,
    ]);
    if left(s) == 0 || wrote(answer(s, 0), git_dir) {
        law_repository_is_found(Seq::empty(), git_dir, s);
    }
}

/// Blame: the repository is looked for, it is asked whether the arguments ask for the incremental
/// form and whether this is a terminal, and blame is run there with just these arguments, unless
/// both are so. Without an argument, only a complaint is written.
pub proof fn law_blame(args: Seq<Seq<char>>, git_dir: Seq<char>, s: Tape)
    requires
        0 <= s.next <= s.replies.len(),
        args.len() > 0,
        left(s) > 0 ==> wrote(answer(s, 0), git_dir),
        left(s) > 1 ==> answer(s, 1) == Reply::Flag(true),
        left(s) > 2 ==> answer(s, 2) is Flag,
        left(s) > 3 ==> answer(s, 3) is Flag,
    ensures
        ({
            let run = blame_run(args, s);
            let incremental = answer(s, 2) == Reply::Flag(true);
            let terminal = answer(s, 3) == Reply::Flag(true);
            &&& left(s) == 0 ==> waits_for(
                run,
                git_command(seq!["rev-parse"@, "--absolute-git-dir"@]),
            )
            &&& left(s) == 1 ==> waits_for(run, RequestView::IsDir { path: git_dir })
            &&& left(s) == 2 ==> waits_for(run, RequestView::ParseBlameArgs { args })
            &&& left(s) == 3 ==> waits_for(run, RequestView::IsTerminal)
            &&& left(s) == 4 && !(incremental && terminal) ==> waits_for(
                run,
                RequestView::RunBlame { git_dir, args },
            )
            &&& left(s) == 4 && incremental && terminal ==> (run.0 matches Err(
                StopView::Pending(RequestView::Stderr { .. }),
            ))
            &&& left(s) == 5 && incremental && terminal && answer(s, 4) == Reply::Done(Ok(()))
                ==> run.0 == Err::<(), StopView>(StopView::Exit(1))
            &&& left(s) == 5 && !(incremental && terminal) && answer(s, 4) == Reply::Done(Ok(()))
                ==> run == (Ok::<(), StopView>(()), behind(s, 5))
        }),
        blame_run(Seq::empty(), Tape { replies: Seq::empty(), next: 0 }).0 matches Err(
            StopView::Pending(RequestView::Stderr { .. }),
        ),
{
    assert(Seq::<Seq<char>>::empty().push("rev-parse"@).push("--absolute-git-dir"@) =~= seq![
        "rev-parse"@,
        "--absolute-git-dir"@,
    ]);
    law_repository_is_found(Seq::empty(), git_dir, s);
    if left(s) > 1 {
        let s2 = behind(s, 2);
        assert(left(s) > 2 ==> s2.replies[s2.next] == answer(s, 2));
    }
}

/// The argument names commits from one to another.
pub open spec fn is_range(arg: Seq<char>) -> bool {
    arg != "--json"@ && find_from(arg, ".."@, 0) is Some
}

/// The argument names one commit.
pub open spec fn is_commit(arg: Seq<char>) -> bool {
    arg != "--json"@ && find_from(arg, ".."@, 0) is None
}

/// One of the arguments from this place on is one of those.
pub open spec fn some_from(
    args: Seq<Seq<char>>,
    i: int,
    holds: spec_fn(Seq<char>) -> bool,
) -> bool {
    exists|j: int| i <= j < args.len() && holds(#[trigger] args[j])
}

proof fn lemma_stats_request(
    repo: RepositoryView,
    args: Seq<Seq<char>>,
    i: int,
    wanted: StatsRequestView,
    s: Tape,
)
    requires
        0 <= i <= args.len(),
    ensures
        stats_request_run(repo, args, i, wanted, s).0 matches Ok(found) ==> {
            &&& found.json == (wanted.json || some_from(args, i, |arg: Seq<char>| arg == "--json"@))
            &&& found.range is Some == (wanted.range is Some || some_from(
                args,
                i,
                |arg: Seq<char>| is_range(arg),
            ))
            &&& found.commit is Some == (wanted.commit is Some || some_from(
                args,
                i,
                |arg: Seq<char>| is_commit(arg),
            ))
            &&& (found.commit matches Some(commit) ==> found.commit == wanted.commit || (
            args.contains(commit) && is_commit(commit)))
            &&& wanted.commit is Some ==> found.commit == wanted.commit && forall|j: int|
                i <= j < args.len() ==> #[trigger] args[j] == "--json"@
        },
    decreases args.len() - i,
{
    if i < args.len() {
        let arg = args[i];
        assert forall|holds: spec_fn(Seq<char>) -> bool|
            #![trigger some_from(args, i, holds)]
            some_from(args, i, holds) == (holds(arg) || some_from(args, i + 1, holds)) by {
            if some_from(args, i, holds) && !holds(arg) {
                let j = choose|j: int| i <= j < args.len() && holds(#[trigger] args[j]);
                assert(i + 1 <= j < args.len() && holds(args[j]));
            }
            if some_from(args, i + 1, holds) {
                let j = choose|j: int| i + 1 <= j < args.len() && holds(#[trigger] args[j]);
                assert(i <= j < args.len() && holds(args[j]));
            }
            if holds(arg) {
                assert(holds(args[i]));
            }
        }
        if arg == "--json"@ {
            lemma_stats_request(
                repo,
                args,
                i + 1,
                StatsRequestView { json: true, ..wanted },
                s,
            );
        } else if wanted.commit is None {
            if find_from(arg, ".."@, 0) is Some {
                if let (Ok(range), s1) = range_argument_run(
                    repo,
                    arg,
                    s,
                ) {
                    lemma_stats_request(
                        repo,
                        args,
                        i + 1,
                        StatsRequestView { range: Some(range), ..wanted },
                        s1,
                    );
                }
            } else {
                lemma_stats_request(
                    repo,
                    args,
                    i + 1,
                    StatsRequestView { commit: Some(arg), ..wanted },
                    s,
                );
            }
        }
    }
}

/// What is read of the arguments of the statistics: JSON just where `--json` is one of them, a range
/// just where one of the others has two dots in it, and otherwise the commit that one of them names.
pub proof fn law_stats_request(repo: RepositoryView, args: Seq<Seq<char>>, s: Tape)
    ensures
        stats_request_run(
            repo,
            args,
            0,
            StatsRequestView { json: false, commit: None, range: None },
            s,
        ).0 matches Ok(found) ==> {
            &&& found.json == args.contains("--json"@)
            &&& found.range is Some == exists|i: int|
                0 <= i < args.len() && is_range(#[trigger] args[i])
            &&& found.commit is Some == exists|i: int|
                0 <= i < args.len() && is_commit(#[trigger] args[i])
            &&& (found.commit matches Some(commit) ==> args.contains(commit) && is_commit(commit))
        },
{
    lemma_stats_request(
        repo,
        args,
        0,
        StatsRequestView { json: false, commit: None, range: None },
        s,
    );
    assert(some_from(args, 0, |arg: Seq<char>| arg == "--json"@) == args.contains("--json"@));
}

proof fn lemma_complaints(all: Seq<Seq<char>>, i: int, s: Tape)
    requires
        0 <= i <= all.len(),
        0 <= s.next <= s.replies.len(),
        forall|k: int| s.next <= k < s.replies.len() ==> #[trigger] s.replies[k] == Reply::Done(
            Ok(()),
        ),
    ensures
        left(s) < all.len() - i ==> waits_for(
            complaints_run(all, i, s),
            RequestView::Stderr { line: all[i + left(s)], cause: None },
        ),
        left(s) >= all.len() - i ==> complaints_run(all, i, s) == (
            Ok::<(), StopView>(()),
            behind(s, all.len() - i),
        ),
    decreases all.len() - i,
{
    if i < all.len() && left(s) > 0 {
        assert(s.replies[s.next] == Reply::Done(Ok(())));
        lemma_complaints(all, i + 1, behind(s, 1));
    }
}

/// Help is written to standard error line by line, and the program ends well. It is what a program
/// without arguments writes, and what each of the three words for it asks for.
pub proof fn law_help(
    args: Seq<Seq<char>>,
    version: Seq<char>,
    presets: Seq<PresetView>,
    s: Tape,
)
    requires
        args.len() == 0 || args[0] == "help"@ || args[0] == "--help"@ || args[0] == "-h"@,
        0 <= s.next <= s.replies.len(),
        forall|k: int| s.next <= k < s.replies.len() ==> #[trigger] s.replies[k] == Reply::Done(
            Ok(()),
        ),
    ensures
        ({
            let run = program_run(args, version, presets, s);
            let lines = help_lines(presets);
            &&& left(s) < lines.len() ==> waits_for(
                run,
                RequestView::Stderr { line: lines[left(s)], cause: None },
            )
            &&& left(s) >= lines.len() ==> run.0 == Err::<(), StopView>(StopView::Exit(0))
        }),
{
    lemma_complaints(help_lines(presets), 0, s);
}

/// What a command asks for first, with the arguments behind it: the version is written; the commands
/// that other parts of the program carry out get those arguments; and of a word that is no command
/// it is said that it is unknown, and the program ends with exit code 1.
#[verifier::rlimit(30)]
pub proof fn law_commands(
    args: Seq<Seq<char>>,
    version: Seq<char>,
    presets: Seq<PresetView>,
    s: Tape,
)
    requires
        args.len() > 0,
        0 <= s.next <= s.replies.len(),
    ensures
        ({
            let run = program_run(args, version, presets, s);
            let word = args[0];
            let rest = args.skip(1);
            let find_repository = git_command(seq!["rev-parse"@, "--absolute-git-dir"@]);
            let is_version = word == "version"@ || word == "--version"@ || word == "-v"@;
            let is_help = word == "help"@ || word == "--help"@ || word == "-h"@;
            let is_known = is_version || is_help || word == "stats-delta"@ || word == "stats"@
                || word == "checkpoint"@ || word == "blame"@ || word == "git-path"@ || word
                == "install-hooks"@ || word == "squash-authorship"@;
            &&& left(s) == 0 && is_version ==> waits_for(
                run,
                RequestView::Stdout { line: version },
            )
            &&& left(s) > 0 && answer(s, 0) == Reply::Done(Ok(())) && is_version ==> run.0 == Err::<
                (),
                StopView,
            >(StopView::Exit(0))
            &&& left(s) == 0 && word == "stats-delta"@ && rest.len() == 0 ==> waits_for(
                run,
                find_repository,
            )
            &&& left(s) == 0 && word == "stats"@ ==> waits_for(run, find_repository)
            &&& left(s) == 0 && word == "checkpoint"@ ==> waits_for(run, RequestView::CurrentDir)
            &&& left(s) == 0 && word == "blame"@ && rest.len() > 0 ==> waits_for(
                run,
                find_repository,
            )
            &&& left(s) == 0 && word == "git-path"@ ==> waits_for(run, RequestView::GitPath)
            &&& left(s) == 1 && word == "git-path"@ ==> (answer(s, 0) matches Reply::Text(Ok(path))
                ==> waits_for(run, RequestView::Stdout { line: path@ }))
            &&& left(s) == 0 && word == "install-hooks"@ ==> waits_for(
                run,
                RequestView::InstallHooks { args: rest },
            )
            &&& left(s) == 0 && word == "squash-authorship"@ ==> waits_for(
                run,
                RequestView::SquashAuthorship { args: rest },
            )
            &&& left(s) == 0 && !is_known ==> waits_for(
                run,
                RequestView::Stdout { line: "Unknown git-ai command: "@ + word },
            )
            &&& left(s) > 0 && answer(s, 0) == Reply::Done(Ok(())) && !is_known ==> run.0 == Err::<
                (),
                StopView,
            >(StopView::Exit(1))
        }),
{
    reveal_strlit("help");
    reveal_strlit("--help");
    reveal_strlit("-h");
    reveal_strlit("version");
    reveal_strlit("--version");
    reveal_strlit("-v");
    reveal_strlit("stats-delta");
    reveal_strlit("stats");
    reveal_strlit("checkpoint");
    reveal_strlit("blame");
    reveal_strlit("git-path");
    reveal_strlit("install-hooks");
    reveal_strlit("squash-authorship");
    let word = args[0];
    assert("-h"@[1] != "-v"@[1]);
    assert("stats"@[0] != "blame"@[0]);
    assert(Seq::<Seq<char>>::empty().push("rev-parse"@).push("--absolute-git-dir"@) =~= seq![
        "rev-parse"@,
        "--absolute-git-dir"@,
    ]);
    if left(s) == 0 {
        law_repository_is_found(Seq::empty(), Seq::empty(), s);
    }
    assert(program_run(args, version, presets, s) == command_run(
        word,
        args.skip(1),
        version,
        presets,
        s,
    ));
}

/// Input for a hook: the text that is given, or what standard input holds; a blank one ends the
/// program with a complaint.
pub proof fn law_hook_input(given: Seq<char>, s: Tape)
    requires
        0 <= s.next <= s.replies.len(),
    ensures
        given != "stdin"@ && trimmed(given).len() > 0 ==> hook_input_run(given, s) == (
            Ok::<Seq<char>, StopView>(given),
            s,
        ),
        given != "stdin"@ && trimmed(given).len() == 0 && left(s) == 0 ==> (hook_input_run(given, s).0
            matches Err(StopView::Pending(RequestView::Stderr { .. }))),
        given == "stdin"@ && left(s) == 0 ==> waits_for(
            hook_input_run(given, s),
            RequestView::ReadStdin,
        ),
        given == "stdin"@ && left(s) > 0 ==> (answer(s, 0) matches Reply::Text(Ok(text)) ==> (trimmed(
            text@,
        ).len() > 0 ==> hook_input_run(given, s) == (
            Ok::<Seq<char>, StopView>(text@),
            behind(s, 1),
        )) && (trimmed(text@).len() == 0 && left(s) == 1 ==> (hook_input_run(given, s).0 matches Err(
            StopView::Pending(RequestView::Stderr { .. }),
        )))),
{
}

/// Whose name a checkpoint bears: the one that git is configured with, and where there is none or a
/// blank one, `unknown`, behind a warning.
pub proof fn law_user_name(repo: RepositoryView, name: Seq<char>, s: Tape)
    requires
        0 <= s.next <= s.replies.len(),
    ensures
        ({
            let run = user_name_run(repo, s);
            let unset = answer(s, 0) matches Reply::Exit { success, .. } && !success;
            &&& left(s) == 0 ==> waits_for(
                run,
                git_command(repo.args().push("config"@).push("--get"@).push("user.name"@)),
            )
            &&& left(s) > 0 && wrote(answer(s, 0), name) && name.len() > 0 ==> run == (
                Ok::<Seq<char>, StopView>(name),
                behind(s, 1),
            )
            &&& left(s) == 1 && unset ==> (run.0 matches Err(
                StopView::Pending(RequestView::Stderr { .. }),
            ))
            &&& left(s) > 1 && unset && answer(s, 1) == Reply::Done(Ok(())) ==> run == (
                Ok::<Seq<char>, StopView>("unknown"@),
                behind(s, 2),
            )
        }),
{
    law_setting_is_read(repo, "user.name"@, name, s);
    if left(s) > 0 {
        assert(left(s) > 1 ==> answer(behind(s, 1), 0) == answer(s, 1));
    }
}

/// The mock agent runs at the time that the clock says, which is part of the name of its session.
pub proof fn law_mock_agent(presets: Seq<PresetView>, args: Seq<Seq<char>>, input: Option<Seq<char>>, s: Tape)
    requires
        0 <= s.next <= s.replies.len(),
        args.len() > 0 && args[0] == "mock_ai"@,
        !is_preset(presets, "mock_ai"@),
    ensures
        ({
            let run = agent_run_run(presets, args, input, s);
            &&& left(s) == 0 ==> waits_for(run, RequestView::Clock)
            &&& left(s) > 0 ==> (answer(s, 0) matches Reply::Number(nanos) ==> run.1 == behind(s, 1)
                && (run.0 matches Ok(Some(ran)) && ran.agent_id.tool == "mock_ai"@
                && ran.agent_id.id == "ai-thread-"@ + decimal(nanos as nat) && ran.agent_id.model
                == "unknown"@ && ran.checkpoint_kind == CheckpointKind::AiAgent && ran.transcript
                is None && ran.repo_working_dir is None && ran.edited_filepaths is None
                && ran.will_edit_filepaths is None))
        }),
{
    lemma_preset(presets, args[0], 0);
}

/// The agents with a hook: the one that is named first, and four others.
pub proof fn law_presets(first: Seq<char>, name: Seq<char>)
    ensures
        is_preset(all_presets(first), name) <==> name == first || name == "cursor"@ || name
            == "github-copilot"@ || name == "rooode"@ || name == "agent-v1"@,
        preset_complaint(all_presets(first), first, 0) == Some(
            capitalized(first) + " preset error: "@,
        ),
        first.len() > 0 && 'a' <= first[0] <= 'z' ==> capitalized(first).len() == first.len()
            && capitalized(first).skip(1) == first.skip(1) && capitalized(first)[0] as u32 + 32
            == first[0] as u32,
{
    let all = all_presets(first);
    assert(all[0].name == first);
    assert(all[1].name == "cursor"@);
    assert(all[2].name == "github-copilot"@);
    assert(all[3].name == "rooode"@);
    assert(all[4].name == "agent-v1"@);
    assert(all.len() == 5);
    if first.len() > 0 && 'a' <= first[0] <= 'z' {
        assert(capitalized(first).skip(1) =~= first.skip(1));
    }
}

/// A commit range is two names with two dots between them: both are looked up, the one before the
/// dots first.
pub proof fn law_range_argument(
    repo: RepositoryView,
    start: Seq<char>,
    end: Seq<char>,
    start_oid: Seq<char>,
    end_oid: Seq<char>,
    s: Tape,
)
    requires
        0 <= s.next <= s.replies.len(),
        !start.contains('.'),
        !end.contains('.'),
        left(s) > 0 ==> wrote(answer(s, 0), start_oid),
        left(s) > 1 ==> wrote(answer(s, 1), end_oid),
    ensures
        ({
            let run = range_argument_run(repo, start + ".."@ + end, s);
            &&& is_range(start + ".."@ + end) || start + ".."@ + end == "--json"@
            &&& left(s) == 0 ==> waits_for(run, name_question(repo, start))
            &&& left(s) == 1 ==> waits_for(run, name_question(repo, end))
            &&& left(s) == 2 ==> waits_for(
                run,
                git_command(
                    repo.args().push("for-each-ref"@).push("--points-at"@).push(end_oid).push(
                        "--format=%(refname)"@,
                    ),
                ),
            )
        }),
{
    reveal_strlit("..");
    let p = ".."@;
    let arg = start + p + end;
    let n = start.len() as int;
    law_found(arg, p, 0);
    assert(arg.subrange(n, n + 2) =~= p);
    assert(occurs_at(arg, p, n));
    assert forall|j: int| 0 <= j && j != n implies !occurs_at(arg, p, j) by {
        if occurs_at(arg, p, j) {
            assert(arg.subrange(j, j + 2)[0] == arg[j]);
            assert(arg.subrange(j, j + 2)[1] == arg[j + 1]);
            if j < n {
                assert(arg[j] == start[j]);
                assert(start.contains('.'));
            } else if j == n + 1 {
                assert(arg[j + 1] == end[0]);
                assert(end.contains('.'));
            } else {
                assert(arg[j] == end[j - n - 2]);
                assert(end.contains('.'));
            }
        }
    }
    assert(find_from(arg, p, 0) == Some(n));
    law_found(arg, p, n + 2);
    assert(find_from(arg, p, n + 2) is None);
    let rest = split_at_text_from(arg, p, n + 2);
    assert(rest =~= seq![arg.skip(n + 2)]);
    assert(arg.skip(n + 2) =~= end);
    assert(arg.subrange(0, n) =~= start);
    assert(split_at_text(arg, p) =~= seq![start, end]);
    crate::answers::law_git_line(
        s,
        repo.args().push("rev-parse"@).push("--verify"@).push(start),
        start_oid,
    );
    if left(s) > 0 {
        crate::answers::lemma_behind(s, 1);
        assert(left(s) > 1 ==> answer(behind(s, 1), 0) == answer(s, 1));
        crate::answers::law_git_line(
            behind(s, 1),
            repo.args().push("rev-parse"@).push("--verify"@).push(end),
            end_oid,
        );
    }
}

/// The statistics of one commit: the repository is looked for, and the commit is counted there, as
/// JSON where that was asked for.
pub proof fn law_stats_of_a_commit(
    commit: Seq<char>,
    json: bool,
    git_dir: Seq<char>,
    s: Tape,
)
    requires
        0 <= s.next <= s.replies.len(),
        is_commit(commit),
        left(s) > 0 ==> wrote(answer(s, 0), git_dir),
        left(s) > 1 ==> answer(s, 1) == Reply::Flag(true),
    ensures
        ({
            let args = if json {
                seq![commit, "--json"@]
            } else {
                seq![commit]
            };
            let run = stats_run(args, s);
            &&& left(s) == 0 ==> waits_for(
                run,
                git_command(seq!["rev-parse"@, "--absolute-git-dir"@]),
            )
            &&& left(s) == 1 ==> waits_for(run, RequestView::IsDir { path: git_dir })
            &&& left(s) == 2 ==> waits_for(
                run,
                git_command(seq!["--no-pager"@, "rev-parse"@, "--verify"@, commit]),
            )
            &&& left(s) > 1 ==> {
                let repo = find_repository_run(Seq::empty(), s).0->Ok_0;
                let counted = stats_command_run(repo, Some(commit), json, behind(s, 2));
                &&& repo.git_dir == git_dir
                &&& counted.0 is Ok ==> run == counted
                &&& (counted.0 matches Err(stop) ==> (!(stop is Fail) ==> run == counted))
            }
        }),
{
    let none = Seq::<Seq<char>>::empty();
    assert(none.push("rev-parse"@).push("--absolute-git-dir"@) =~= seq![
        "rev-parse"@,
        "--absolute-git-dir"@,
    ]);
    law_repository_is_found(none, git_dir, s);
    if left(s) > 1 {
        let repo = find_repository_run(none, s).0->Ok_0;
        let s2 = behind(s, 2);
        let start = StatsRequestView { json: false, commit: None, range: None };
        let one = StatsRequestView { commit: Some(commit), ..start };
        let both = StatsRequestView { json: true, ..one };
        let plain = seq![commit];
        let with_json = seq![commit, "--json"@];
        assert(plain[0] == commit && with_json[0] == commit && with_json[1] == "--json"@);
        assert(stats_request_run(repo, plain, 1, one, s2) == (
            Ok::<StatsRequestView, StopView>(one),
            s2,
        ));
        assert(stats_request_run(repo, with_json, 2, both, s2) == (
            Ok::<StatsRequestView, StopView>(both),
            s2,
        ));
        assert(stats_request_run(repo, with_json, 1, one, s2) == (
            Ok::<StatsRequestView, StopView>(both),
            s2,
        ));
        assert(repo.args() =~= seq!["--no-pager"@]);
        assert(repo.args().push("rev-parse"@).push("--verify"@).push(commit) =~= seq![
            "--no-pager"@,
            "rev-parse"@,
            "--verify"@,
            commit,
        ]);
    }
}

/// What cannot be done is complained of, with why, and ends the program with exit code 1.
pub proof fn law_failure_ends_the_program(request: RequestView, line: Seq<char>, s: Tape)
    requires
        0 <= s.next <= s.replies.len(),
    ensures
        ({
            let run = done_or_died(s, request, line);
            &&& left(s) == 0 ==> waits_for(run, request)
            &&& left(s) > 0 && answer(s, 0) == Reply::Done(Ok(())) ==> run == (
                Ok::<(), StopView>(()),
                behind(s, 1),
            )
            &&& left(s) == 1 ==> (answer(s, 0) matches Reply::Done(Err(e)) ==> waits_for(
                run,
                RequestView::Stderr { line, cause: Some(e.deep_view()) },
            ))
            &&& left(s) > 1 && (answer(s, 0) matches Reply::Done(Err(_))) && answer(s, 1)
                == Reply::Done(Ok(())) ==> run == (
                Err::<(), StopView>(StopView::Exit(1)),
                behind(s, 2),
            )
        }),
{
}

/// Where there is no repository, a command complains of that and ends with exit code 1.
pub proof fn law_no_repository(global_args: Seq<Seq<char>>, s: Tape)
    requires
        0 <= s.next <= s.replies.len(),
        left(s) > 0 ==> (answer(s, 0) matches Reply::Exit { success, .. } && !success),
    ensures
        left(s) == 1 ==> (repository_run(global_args, s).0 matches Err(
            StopView::Pending(RequestView::Stderr { line, cause }),
        ) && line == "Failed to find repository: "@ && cause is Some),
        left(s) > 1 && answer(s, 1) == Reply::Done(Ok(())) ==> repository_run(global_args, s) == (
            Err::<RepositoryView, StopView>(StopView::Exit(1)),
            behind(s, 2),
        ),
{
}

/// The statistics of a range that could be had are given as JSON where that was asked for, and
/// otherwise printed.
pub proof fn law_range_is_shown(range: CommitRangeView, json: bool, s: Tape)
    requires
        0 <= s.next <= s.replies.len(),
    ensures
        ({
            let (found, s1) = range_authorship_run(range, true, s);
            &&& (found matches Ok(stats) ==> (json && 0 <= s1.next && left(s1) == 0 ==> waits_for(
                show_range_run(range, json, s),
                RequestView::RangeStatsJson { range: stats },
            )) && (!json ==> show_range_run(range, json, s) == print_range_run(stats, s1)))
            &&& (found matches Err(StopView::Fail(e)) ==> (0 <= s1.next && left(s1) == 0
                ==> waits_for(
                show_range_run(range, json, s),
                RequestView::Stderr { line: "Range authorship failed: "@, cause: Some(e) },
            )))
        }),
{
}

/// Where there is no such commit, just that is complained of; any other failure is complained of
/// with why.
pub proof fn law_stats_failure(message: Seq<char>, s: Tape)
    requires
        0 <= s.next <= s.replies.len(),
    ensures
        ({
            let e = GitAiErrorView::Generic(message);
            &&& has_prefix(message, "No commit found:"@) && left(s) == 0 ==> waits_for(
                stats_failed(e, s),
                RequestView::Stderr { line: message, cause: None },
            )
            &&& !has_prefix(message, "No commit found:"@) && left(s) == 0 ==> waits_for(
                stats_failed(e, s),
                RequestView::Stderr { line: "Stats failed: "@, cause: Some(e) },
            )
            &&& left(s) > 0 && answer(s, 0) == Reply::Done(Ok(())) ==> stats_failed(e, s) == (
                Err::<(), StopView>(StopView::Exit(1)),
                behind(s, 1),
            )
        }),
{
}

/// A range among the arguments decides: it is looked up, and its statistics are shown, in the form
/// that was asked for.
pub proof fn law_stats_of_a_range(args: Seq<Seq<char>>, s: Tape)
    ensures
        match repository_run(Seq::empty(), s) {
            (Ok(repo), s1) => match stats_request_run(
                repo,
                args,
                0,
                StatsRequestView { json: false, commit: None, range: None },
                s1,
            ) {
                (Ok(wanted), s2) => {
                    &&& (exists|i: int| 0 <= i < args.len() && is_range(#[trigger] args[i])) ==> (
                    wanted.range matches Some(range) && stats_run(args, s) == show_range_run(
                        range,
                        args.contains("--json"@),
                        s2,
                    ))
                    &&& !(exists|i: int| 0 <= i < args.len() && is_range(#[trigger] args[i]))
                        ==> stats_run(args, s) == show_commit_run(
                        repo,
                        wanted.commit,
                        args.contains("--json"@),
                        s2,
                    )
                },
                (Err(stop), s2) => stats_run(args, s) == (Err::<(), StopView>(stop), s2),
            },
            (Err(stop), s1) => stats_run(args, s) == (Err::<(), StopView>(stop), s1),
        },
{
    if let (Ok(repo), s1) = repository_run(Seq::empty(), s) {
        law_stats_request(repo, args, s1);
    }
}

/// Help lists the agents that it should, in their order, each followed by a comma.
pub proof fn law_listed_names(presets: Seq<PresetView>, i: int)
    requires
        0 <= i < presets.len(),
    ensures
        presets[i].listed ==> listed_names(presets, i) == presets[i].name + ", "@ + listed_names(
            presets,
            i + 1,
        ),
        !presets[i].listed ==> listed_names(presets, i) == listed_names(presets, i + 1),
        listed_names(presets, presets.len() as int).len() == 0,
{
}

/// Behind a commit, nothing but `--json` is known to the statistics.
pub proof fn law_unknown_stats_argument(
    repo: RepositoryView,
    args: Seq<Seq<char>>,
    i: int,
    wanted: StatsRequestView,
    s: Tape,
)
    requires
        0 <= i < args.len(),
        0 <= s.next <= s.replies.len(),
        wanted.commit is Some,
        args[i] != "--json"@,
    ensures
        left(s) == 0 ==> waits_for(
            stats_request_run(repo, args, i, wanted, s),
            RequestView::Stderr { line: "Unknown stats argument: "@ + args[i], cause: None },
        ),
        left(s) > 0 && answer(s, 0) == Reply::Done(Ok(())) ==> stats_request_run(
            repo,
            args,
            i,
            wanted,
            s,
        ) == (Err::<StatsRequestView, StopView>(StopView::Exit(1)), behind(s, 1)),
{
}

/// A range is of two names: with more or fewer, what is expected is written, and the program ends.
pub proof fn law_other_range_arguments(repo: RepositoryView, arg: Seq<char>, s: Tape)
    requires
        0 <= s.next <= s.replies.len(),
        split_at_text(arg, ".."@).len() != 2,
    ensures
        left(s) == 0 ==> waits_for(
            range_argument_run(repo, arg, s),
            RequestView::Stderr {
                line: "Invalid commit range format. Expected: <commit>..<commit>"@,
                cause: None,
            },
        ),
        left(s) > 0 && answer(s, 0) == Reply::Done(Ok(())) ==> range_argument_run(repo, arg, s).0
            == Err::<CommitRangeView, StopView>(StopView::Exit(1)),
{
}

proof fn lemma_first_preset(presets: Seq<PresetView>, i: int, k: int)
    requires
        0 <= i <= k < presets.len(),
        forall|j: int| i <= j < k ==> (#[trigger] presets[j]).name != presets[k].name,
    ensures
        preset_complaint(presets, presets[k].name, i) == Some(presets[k].complaint),
    decreases k - i,
{
    if i < k {
        assert(presets[i].name != presets[k].name);
        lemma_first_preset(presets, i + 1, k);
    }
}

/// Where an agent's hook fails, what is complained of is that agent's, with why, and the program ends
/// with exit code 1.
pub proof fn law_agent_failure(
    presets: Seq<PresetView>,
    k: int,
    args: Seq<Seq<char>>,
    input: Option<Seq<char>>,
    s: Tape,
)
    requires
        0 <= k < presets.len(),
        forall|j: int| 0 <= j < k ==> (#[trigger] presets[j]).name != presets[k].name,
        args.len() > 0 && args[0] == presets[k].name,
        0 <= s.next <= s.replies.len(),
        left(s) > 0 ==> (answer(s, 0) matches Reply::AgentRun(Err(_))),
    ensures
        ({
            let run = agent_run_run(presets, args, input, s);
            &&& left(s) == 0 ==> waits_for(
                run,
                RequestView::RunPreset { preset: args[0], hook_input: input },
            )
            &&& left(s) == 1 ==> waits_for(
                run,
                RequestView::Stderr {
                    line: presets[k].complaint,
                    cause: Some(answer(s, 0)->AgentRun_0->Err_0.deep_view()),
                },
            )
            &&& left(s) > 1 && answer(s, 1) == Reply::Done(Ok(())) ==> run.0 == Err::<
                Option<AgentRunResultView>,
                StopView,
            >(StopView::Exit(1))
        }),
{
    lemma_first_preset(presets, 0, k);
}

} // verus!
