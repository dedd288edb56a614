//! The steps by which changed preferences reach the configuration file.
//!
//! The new text goes to a temporary file beside the configuration, which then
//! takes the configuration's place: a reader sees the old text or the new one.

use vstd::prelude::*;

use crate::text::{decimal, decimal_text};

verus! {

/// A step on the way to the changed configuration.
#[derive(Debug, Clone, Copy, PartialEq, Eq, Structural)]
pub enum Stage {
    /// Read the configuration file.
    Read,
    /// Put the preferences into its text.
    Update,
    /// Find the directory that holds the file.
    Locate,
    /// Create the temporary file.
    Create,
    /// Write the new text to the temporary file.
    Write,
    /// Force the temporary file to disk.
    Sync,
    /// Put the temporary file in the configuration's place.
    Replace,
}

/// Where saving the preferences stands.
#[derive(Debug, Clone, Copy, PartialEq, Eq, Structural)]
pub enum Progress {
    /// This step is due.
    Due(Stage),
    /// This step failed, and the temporary file is to be removed.
    CleanUp(Stage),
    /// The configuration file holds the preferences.
    Saved,
    /// This step failed; the configuration file is as it was.
    Failed(Stage),
}

/// The step after one that succeeded.
pub open spec fn following(stage: Stage) -> Progress {
    match stage {
        Stage::Read => Progress::Due(Stage::Update),
        Stage::Update => Progress::Due(Stage::Locate),
        Stage::Locate => Progress::Due(Stage::Create),
        Stage::Create => Progress::Due(Stage::Write),
        Stage::Write => Progress::Due(Stage::Sync),
        Stage::Sync => Progress::Due(Stage::Replace),
        Stage::Replace => Progress::Saved,
    }
}

/// The step concerns the temporary file.
pub open spec fn uses_temporary(stage: Stage) -> bool {
    stage is Create || stage is Write || stage is Sync || stage is Replace
}

/// Where saving stands after the step that was due, or the clean-up, ended well
/// or not.
pub open spec fn progress_after(progress: Progress, ok: bool) -> Progress {
    match progress {
        Progress::Due(stage) => if ok {
            following(stage)
        } else if uses_temporary(stage) {
            Progress::CleanUp(stage)
        } else {
            Progress::Failed(stage)
        },
        Progress::CleanUp(stage) => Progress::Failed(stage),
        Progress::Saved => Progress::Saved,
        Progress::Failed(stage) => Progress::Failed(stage),
    }
}

/// Where saving stands after steps that ended like this.
pub open spec fn progress_of(outcomes: Seq<bool>) -> Progress
    decreases outcomes.len(),
{
    if outcomes.len() == 0 {
        Progress::Due(Stage::Read)
    } else {
        progress_after(progress_of(outcomes.drop_last()), outcomes.last())
    }
}

/// How many steps come before this one.
pub open spec fn rank(stage: Stage) -> int {
    match stage {
        Stage::Read => 0,
        Stage::Update => 1,
        Stage::Locate => 2,
        Stage::Create => 3,
        Stage::Write => 4,
        Stage::Sync => 5,
        Stage::Replace => 6,
    }
}

/// A step is due only after every step before it succeeded; in particular the
/// configuration file is not touched before the temporary file holds the whole
/// text and is on disk. The preferences are saved exactly if all seven steps
/// succeeded.
pub proof fn law_steps_in_order(outcomes: Seq<bool>)
    ensures
        progress_of(outcomes) matches Progress::Due(stage) ==> outcomes.len() == rank(stage)
            && (forall|i: int| 0 <= i < outcomes.len() ==> #[trigger] outcomes[i]),
        progress_of(outcomes) is Saved <==> outcomes.len() >= 7 && (forall|i: int|
            0 <= i < 7 ==> #[trigger] outcomes[i]),
    decreases outcomes.len(),
{
    if outcomes.len() > 0 {
        let earlier = outcomes.drop_last();
        law_steps_in_order(earlier);
        assert forall|i: int| 0 <= i < earlier.len() implies earlier[i] == #[trigger] outcomes[i] by {}
        if outcomes.len() >= 7 && (forall|i: int| 0 <= i < 7 ==> #[trigger] outcomes[i]) {
            lemma_success_prefix(outcomes);
        }
    }
}

proof fn lemma_success_prefix(outcomes: Seq<bool>)
    requires
        outcomes.len() >= 1,
        forall|i: int| 0 <= i < 7 && i < outcomes.len() ==> #[trigger] outcomes[i],
    ensures
        outcomes.len() == 1 ==> progress_of(outcomes) == Progress::Due(Stage::Update),
        outcomes.len() == 2 ==> progress_of(outcomes) == Progress::Due(Stage::Locate),
        outcomes.len() == 3 ==> progress_of(outcomes) == Progress::Due(Stage::Create),
        outcomes.len() == 4 ==> progress_of(outcomes) == Progress::Due(Stage::Write),
        outcomes.len() == 5 ==> progress_of(outcomes) == Progress::Due(Stage::Sync),
        outcomes.len() == 6 ==> progress_of(outcomes) == Progress::Due(Stage::Replace),
        outcomes.len() >= 7 ==> progress_of(outcomes) == Progress::Saved,
    decreases outcomes.len(),
{
    let earlier = outcomes.drop_last();
    assert(outcomes.len() <= 7 ==> outcomes[outcomes.len() - 1]);
    if earlier.len() > 0 {
        assert forall|i: int| 0 <= i < 7 && i < earlier.len() implies #[trigger] earlier[i] by {
            assert(outcomes[i]);
        }
        lemma_success_prefix(earlier);
    } else {
        assert(progress_of(earlier) == Progress::Due(Stage::Read));
    }
}

/// A failed step is reported, and once the temporary file may exist it is
/// removed first.
pub proof fn law_failure_cleans_up(progress: Progress, again: bool)
    requires
        progress is Due,
    ensures
        ({
            let failed = progress_after(progress, false);
            let stage = progress->Due_0;
            if uses_temporary(stage) {
                failed == Progress::CleanUp(stage) && progress_after(failed, again)
                    == Progress::Failed(stage)
            } else {
                failed == Progress::Failed(stage)
            }
        }),
{
}

/// Saving begins with reading the configuration file.
pub fn first_step() -> (progress: Progress)
    ensures
        progress == progress_of(Seq::empty()),
{
    Progress::Due(Stage::Read)
}

/// Tell what follows, once the step that was due, or the clean-up, has ended.
pub fn next_step(progress: Progress, ok: bool) -> (next: Progress)
    ensures
        next == progress_after(progress, ok),
{
    match progress {
        Progress::Due(stage) => if ok {
            match stage {
                Stage::Read => Progress::Due(Stage::Update),
                Stage::Update => Progress::Due(Stage::Locate),
                Stage::Locate => Progress::Due(Stage::Create),
                Stage::Create => Progress::Due(Stage::Write),
                Stage::Write => Progress::Due(Stage::Sync),
                Stage::Sync => Progress::Due(Stage::Replace),
                Stage::Replace => Progress::Saved,
            }
        } else {
            match stage {
                Stage::Read | Stage::Update | Stage::Locate => Progress::Failed(stage),
                Stage::Create | Stage::Write | Stage::Sync | Stage::Replace => Progress::CleanUp(
                    stage,
                ),
            }
        },
        Progress::CleanUp(stage) => Progress::Failed(stage),
        Progress::Saved => Progress::Saved,
        Progress::Failed(stage) => Progress::Failed(stage),
    }
}

/// What is said of a step that failed, beside the failure itself.
pub open spec fn context_text(stage: Stage, config: Seq<char>, temporary: Seq<char>) -> Option<
    Seq<char>,
> {
    match stage {
        Stage::Read => Some("failed to read "@ + config),
        Stage::Update => Some("failed to parse "@ + config),
        Stage::Locate => Some("config path does not have a parent directory"@),
        Stage::Create => Some("failed to create "@ + temporary),
        Stage::Write => None,
        Stage::Sync => None,
        Stage::Replace => Some("failed to replace "@ + config),
    }
}

/// What to say of a step that failed, beside the failure itself, given the paths
/// of the configuration and of the temporary file.
pub fn failure_context(stage: Stage, config: &str, temporary: &str) -> (r: Option<String>)
    ensures
        match r {
            Some(text) => context_text(stage, config@, temporary@) == Some(text@),
            None => context_text(stage, config@, temporary@) is None,
        },
{
    match stage {
        Stage::Read => Some("failed to read ".to_string().concat(config)),
        Stage::Update => Some("failed to parse ".to_string().concat(config)),
        Stage::Locate => Some("config path does not have a parent directory".to_string()),
        Stage::Create => Some("failed to create ".to_string().concat(temporary)),
        Stage::Write => None,
        Stage::Sync => None,
        Stage::Replace => Some("failed to replace ".to_string().concat(config)),
    }
}

/// Name of the temporary file, from the process id and the time in nanoseconds.
pub fn temporary_name(process: u32, nanos: u128) -> (name: String)
    ensures
        name@ == ".config.toml.whisrs-"@ + decimal(process as nat) + "-"@ + decimal(nanos as nat)
            + ".tmp"@,
{
    let mut name: String = ".config.toml.whisrs-".to_string();
    name.append(decimal_text(process as u128).as_str());
    name.append("-");
    name.append(decimal_text(nanos).as_str());
    name.append(".tmp");
    name
}

/// Saving reads, updates, finds the directory, creates, writes, syncs and replaces,
/// in this order; after that the preferences are saved.
pub proof fn law_saving_order(good: Seq<bool>)
    requires
        forall|i: int| 0 <= i < good.len() ==> #[trigger] good[i],
    ensures
        good.len() == 0 ==> progress_of(good) == Progress::Due(Stage::Read),
        good.len() == 1 ==> progress_of(good) == Progress::Due(Stage::Update),
        good.len() == 2 ==> progress_of(good) == Progress::Due(Stage::Locate),
        good.len() == 3 ==> progress_of(good) == Progress::Due(Stage::Create),
        good.len() == 4 ==> progress_of(good) == Progress::Due(Stage::Write),
        good.len() == 5 ==> progress_of(good) == Progress::Due(Stage::Sync),
        good.len() == 6 ==> progress_of(good) == Progress::Due(Stage::Replace),
        good.len() >= 7 ==> progress_of(good) == Progress::Saved,
{
    if good.len() > 0 {
        lemma_success_prefix(good);
    }
}

/// Where one of the first three steps fails, saving has failed. Where a later one
/// does, the temporary file is removed first. Either way the step that failed is
/// reported, and nothing that follows changes that.
pub proof fn law_saving_fails(good: Seq<bool>, rest: Seq<bool>)
    requires
        good.len() < 7,
        forall|i: int| 0 <= i < good.len() ==> #[trigger] good[i],
    ensures
        progress_of(good) is Due,
        ({
            let stage = progress_of(good)->Due_0;
            progress_of(good.push(false) + rest) == (if good.len() >= 3 && rest.len() == 0 {
                Progress::CleanUp(stage)
            } else {
                Progress::Failed(stage)
            })
        }),
    decreases rest.len(),
{
    law_saving_order(good);
    let all = good.push(false) + rest;
    if rest.len() > 0 {
        law_saving_fails(good, rest.drop_last());
        assert(all.drop_last() =~= good.push(false) + rest.drop_last());
    } else {
        assert(all.drop_last() =~= good);
        assert(all.last() == false);
    }
}

/// A saved configuration stays saved.
pub proof fn law_saved_stays_saved(good: Seq<bool>, rest: Seq<bool>)
    requires
        good.len() == 7,
        forall|i: int| 0 <= i < good.len() ==> #[trigger] good[i],
    ensures
        progress_of(good + rest) == Progress::Saved,
    decreases rest.len(),
{
    law_saving_order(good);
    if rest.len() > 0 {
        law_saved_stays_saved(good, rest.drop_last());
        assert((good + rest).drop_last() =~= good + rest.drop_last());
    } else {
        assert(good + rest =~= good);
    }
}

/// [`first_step`] is where saving stands before anything ended, and [`next_step`]
/// is where it stands after one more outcome.
pub proof fn law_next_step(outcomes: Seq<bool>, ok: bool, first: Progress, next: Progress)
    requires
        call_ensures(first_step, (), first),
        call_ensures(next_step, (progress_of(outcomes), ok), next),
    ensures
        call_requires(first_step, ()),
        call_requires(next_step, (progress_of(outcomes), ok)),
        first == progress_of(Seq::empty()),
        next == progress_of(outcomes.push(ok)),
{
    assert(outcomes.push(ok).drop_last() =~= outcomes);
}

/// What is said of a failed step names the file that it concerns; of writing and
/// syncing nothing is said beside the failure itself.
pub proof fn law_failure_context(stage: Stage, config: &str, temporary: &str, r: Option<String>)
    requires
        call_ensures(failure_context, (stage, config, temporary), r),
    ensures
        call_requires(failure_context, (stage, config, temporary)),
        r is None <==> stage is Write || stage is Sync,
        stage is Read ==> r->0@ == "failed to read "@ + config@,
        stage is Update ==> r->0@ == "failed to parse "@ + config@,
        stage is Locate ==> r->0@ == "config path does not have a parent directory"@,
        stage is Create ==> r->0@ == "failed to create "@ + temporary@,
        stage is Replace ==> r->0@ == "failed to replace "@ + config@,
{
}

/// The temporary file is named after the process and the time.
pub proof fn law_temporary_name(
    process: u32,
    nanos: u128,
    name: String,
    process_text: String,
    nanos_text: String,
)
    requires
        call_ensures(temporary_name, (process, nanos), name),
        call_ensures(decimal_text, (process as u128,), process_text),
        call_ensures(decimal_text, (nanos,), nanos_text),
    ensures
        call_requires(temporary_name, (process, nanos)),
        name@ == ".config.toml.whisrs-"@ + process_text@ + "-"@ + nanos_text@ + ".tmp"@,
{
}

} // verus!
