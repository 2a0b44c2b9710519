//! How lines are found again, and what a log made from blamed lines holds.
use crate::assoc::{
    has_key, law_by_key, lemma_place_bounds, lemma_place_of, lemma_with_value_found, place_of,
    value_of, with_value,
};
use crate::authorship::authorship_log::PromptRecordView;
use crate::authorship::reconstruction::{
    all_fit, blamed_session, first_unused, grouped, law_matched_lines, lines_in, log_fits, log_of,
    matched_lines, ranges_of, session_total, sessions_in, sessions_of, sorted, with_line,
    BlamedLineView, FileLines,
};
use crate::text::before;
use vstd::prelude::*;

verus! {

broadcast use vstd::seq::group_seq_axioms;

proof fn lemma_first_unused(
    line: Seq<char>,
    hanging: Seq<Seq<char>>,
    used: Seq<int>,
    from: int,
)
    requires
        0 <= from <= hanging.len(),
    ensures
        match first_unused(line, hanging, used, from) {
            Some(n) => from < n <= hanging.len() && hanging[n - 1] == line && !used.contains(n)
                && forall|k: int|
                from < k < n && #[trigger] hanging[k - 1] == line ==> used.contains(k),
            None => forall|k: int|
                from < k <= hanging.len() && #[trigger] hanging[k - 1] == line ==> used.contains(k),
        },
    decreases hanging.len() - from,
{
    if from < hanging.len() {
        lemma_first_unused(line, hanging, used, from + 1);
    }
}

/// A line is found again in the first line that holds the same text and that no line before it was
/// found in; where there is none, it is not found.
pub proof fn law_line_is_found_in_the_first_that_is_free(
    inserted: Seq<Seq<char>>,
    line: Seq<char>,
    hanging: Seq<Seq<char>>,
)
    ensures
        ({
            let before = matched_lines(inserted, hanging);
            let after = matched_lines(inserted.push(line), hanging);
            if exists|k: int|
                0 < k <= hanging.len() && #[trigger] hanging[k - 1] == line && !before.contains(k) {
                &&& after.len() == before.len() + 1
                &&& after.drop_last() == before
                &&& 0 < after.last() <= hanging.len()
                &&& hanging[after.last() - 1] == line
                &&& !before.contains(after.last())
                &&& forall|k: int|
                    0 < k < after.last() && #[trigger] hanging[k - 1] == line ==> before.contains(k)
            } else {
                after == before
            }
        }),
        matched_lines(Seq::empty(), hanging).len() == 0,
{
    let before = matched_lines(inserted, hanging);
    assert(inserted.push(line).drop_last() =~= inserted);
    lemma_first_unused(line, hanging, before, 0);
    if let Some(n) = first_unused(line, hanging, before, 0) {
        assert(hanging[n - 1] == line && !before.contains(n));
        assert(before.push(n).drop_last() =~= before);
    }
}

proof fn lemma_session_record(blamed: Seq<BlamedLineView>, i: int, session: Seq<char>)
    requires
        0 <= i < blamed.len(),
        blamed_session(blamed[i], session),
        forall|j: int| i < j < blamed.len() ==> !blamed_session(#[trigger] blamed[j], session),
    ensures
        value_of(sessions_of(blamed), session) == blamed[i].prompt,
    decreases blamed.len(),
{
    let before = blamed.drop_last();
    let last = blamed.len() - 1;
    assert(blamed.last() == blamed[last]);
    if i < last {
        assert(!blamed_session(blamed[last], session));
        assert(before[i] == blamed[i]);
        assert forall|j: int| i < j < before.len() implies !blamed_session(
            #[trigger] before[j],
            session,
        ) by {
            assert(before[j] == blamed[j]);
        }
        lemma_session_record(before, i, session);
    }
    if let Some(prompt) = blamed[last].prompt {
        lemma_with_value_found(sessions_of(before), prompt.agent_id.id, prompt, session);
    }
}

/// What a log says of a session is what the last line that was blamed on it said, with the number of
/// its lines as those that were accepted.
pub proof fn law_session_is_told_as_last_blamed(
    blamed: Seq<BlamedLineView>,
    i: int,
    session: Seq<char>,
)
    requires
        0 <= i < blamed.len(),
        blamed_session(blamed[i], session),
        forall|j: int| i < j < blamed.len() ==> !blamed_session(#[trigger] blamed[j], session),
    ensures
        value_of(log_of(blamed).metadata.prompts, session) matches Some(record) && (
        PromptRecordView { accepted_lines: record.accepted_lines, ..blamed[i].prompt->Some_0 })
            == record,
{
    lemma_session_record(blamed, i, session);
    let sessions = sessions_of(blamed);
    let prompts = log_of(blamed).metadata.prompts;
    lemma_place_bounds(sessions, session);
    let p = place_of(sessions, session);
    assert forall|j: int| 0 <= j < p implies (#[trigger] prompts[j]).0 != session by {
        assert(sessions[j].0 != session);
    }
    assert(prompts[p].0 == sessions[p].0);
    lemma_place_of(prompts, session, p);
}

/// The files of a log are in the order in which their first lines were blamed on a session; a line
/// that is blamed on none adds nothing.
pub proof fn law_files_are_in_order(blamed: Seq<BlamedLineView>, line: BlamedLineView)
    ensures
        ({
            let old = log_of(blamed).attestations.map_values(
                |a: crate::authorship::authorship_log::FileAttestationView| a.file_path,
            );
            let new = log_of(blamed.push(line)).attestations.map_values(
                |a: crate::authorship::authorship_log::FileAttestationView| a.file_path,
            );
            if line.prompt is None {
                log_of(blamed.push(line)).attestations == log_of(blamed).attestations
            } else if old.contains(line.file) {
                new == old
            } else {
                new == old.push(line.file)
            }
        }),
        log_of(blamed).metadata.base_commit_sha.len() == 0,
        log_of(blamed).metadata.rest.len() == 0,
{
    let files = grouped(blamed);
    let all = blamed.push(line);
    assert(all.drop_last() =~= blamed);
    let name = |a: crate::authorship::authorship_log::FileAttestationView| a.file_path;
    let old = log_of(blamed).attestations.map_values(name);
    let new = log_of(all).attestations.map_values(name);
    assert(forall|i: int| 0 <= i < files.len() ==> old[i] == (#[trigger] files[i]).0);
    if line.prompt is None {
        assert(grouped(all) == files);
        assert(log_of(all).attestations =~= log_of(blamed).attestations);
    } else {
        lemma_place_bounds(files, line.file);
        let p = place_of(files, line.file);
        let more = grouped(all);
        assert(forall|i: int| 0 <= i < more.len() ==> new[i] == (#[trigger] more[i]).0);
        if has_key(files, line.file) {
            assert(old[p] == line.file);
            assert(new =~= old);
        } else {
            assert(!old.contains(line.file)) by {
                if old.contains(line.file) {
                    let i = old.index_of(line.file);
                    assert(files[i].0 != line.file);
                }
            }
            assert(new =~= old.push(line.file));
        }
    }
}

/// The entries of a file are in the order of their sessions' names.
pub proof fn law_entries_are_in_order(blamed: Seq<BlamedLineView>, a: int, e: int, f: int)
    requires
        0 <= a < log_of(blamed).attestations.len(),
        0 <= e < f < log_of(blamed).attestations[a].entries.len(),
    ensures
        ({
            let entries = log_of(blamed).attestations[a].entries;
            !before(entries[f].hash, entries[e].hash)
        }),
{
    let sessions = grouped(blamed)[a].1;
    let pairs = Seq::new(
        sessions.len(),
        |i: int| (sessions[i].0, ranges_of(sorted(sessions[i].1))),
    );
    law_by_key(pairs);
}

/// Lines that were found again can be numbered, and a log can be made of blamed lines, unless there
/// are more of them than numbers: of lines that were looked through in the one, and of those that
/// one session wrote in the other.
pub proof fn law_what_can_be_logged(
    inserted: Seq<Seq<char>>,
    hanging: Seq<Seq<char>>,
    blamed: Seq<BlamedLineView>,
)
    ensures
        hanging.len() <= 0xffff_ffff ==> all_fit(matched_lines(inserted, hanging)),
        blamed.len() <= 0xffff_ffff ==> log_fits(blamed),
{
    law_matched_lines(inserted, hanging);
    assert forall|i: int| 0 <= i < sessions_of(blamed).len() implies session_total(
        grouped(blamed),
        #[trigger] sessions_of(blamed)[i].0,
    ) <= blamed.len() by {
        lemma_session_total(blamed, sessions_of(blamed)[i].0);
    }
}

proof fn lemma_total_with(
    files: FileLines,
    file: Seq<char>,
    session: Seq<char>,
    line: u32,
    other: Seq<char>,
)
    ensures
        session_total(with_line(files, file, session, line), other) <= session_total(files, other)
            + 1,
    decreases files.len(),
{
    let sessions = sessions_in(files, file);
    let lines = lines_in(sessions, session).push(line);
    let more = with_value(sessions, session, lines);
    lemma_with_value_found(sessions, session, lines, other);
    lemma_place_bounds(files, file);
    let p = place_of(files, file);
    assert(lines_in(more, other).len() <= lines_in(sessions, other).len() + 1);
    if has_key(files, file) {
        assert(sessions == files[p].1);
        lemma_total_update(files, p, (file, more), other);
    } else {
        assert(files.push((file, more)).drop_last() =~= files);
        assert(lines_in(sessions, other).len() == 0);
    }
}

proof fn lemma_total_update(
    files: FileLines,
    p: int,
    pair: (Seq<char>, Seq<(Seq<char>, Seq<u32>)>),
    other: Seq<char>,
)
    requires
        0 <= p < files.len(),
        lines_in(pair.1, other).len() <= lines_in(files[p].1, other).len() + 1,
    ensures
        session_total(files.update(p, pair), other) <= session_total(files, other) + 1,
    decreases files.len(),
{
    let after = files.update(p, pair);
    if p == files.len() - 1 {
        assert(after.drop_last() =~= files.drop_last());
    } else {
        assert(after.drop_last() =~= files.drop_last().update(p, pair));
        assert(files.drop_last()[p] == files[p]);
        lemma_total_update(files.drop_last(), p, pair, other);
    }
}

proof fn lemma_session_total(blamed: Seq<BlamedLineView>, session: Seq<char>)
    ensures
        session_total(grouped(blamed), session) <= blamed.len(),
    decreases blamed.len(),
{
    if blamed.len() > 0 {
        lemma_session_total(blamed.drop_last(), session);
        let last = blamed.last();
        if let Some(prompt) = last.prompt {
            lemma_total_with(
                grouped(blamed.drop_last()),
                last.file,
                prompt.agent_id.id,
                last.line,
                session,
            );
        }
    }
}

} // verus!
