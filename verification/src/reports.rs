//! What is told of the progress that rsync's output shows.

use crate::action::{ActionView, AnswerView, OutputEvent};
use crate::command::ConfigView;
use crate::message::MessageView;
use crate::order::{rsync_after, rsync_follows};
use crate::profile::Platform;
use crate::progress::{
    law_bytes_report_every_line, output_lines, pending_line, reported, reports_of,
};
use crate::rsync::{rsync_next, RsyncView};
use crate::run::{group_select, lemma_select_concat, select};
use vstd::prelude::*;

verus! {

/// Finds the progress that is told.
pub open spec fn progress_told() -> spec_fn(ActionView) -> Option<(u64, u64)> {
    |a: ActionView|
        match a {
            ActionView::Send(MessageView::FileProgress(sent, total)) => Some((sent, total)),
            _ => None,
        }
}

/// The progress that some actions tell, in order.
pub open spec fn progress(asked: Seq<ActionView>) -> Seq<(u64, u64)> {
    select(asked, progress_told())
}

/// What has come out of the programs that were started, one after the other.
pub struct OutputLog {
    /// What is to be told of the programs before the last one.
    pub earlier: Seq<(u64, u64)>,
    /// The output of the last one.
    pub output: Seq<u8>,
    /// Whether that has been read to its end.
    pub closed: bool,
}

impl OutputLog {
    /// What is to be told: of a program that has been read to its end, the progress on each of its
    /// lines; of one that is still being read, that on each line that is complete.
    pub open spec fn reports(self) -> Seq<(u64, u64)> {
        self.earlier + (if self.closed {
            reports_of(output_lines(self.output))
        } else {
            reported(self.output)
        })
    }
}

/// What has come out of the programs, by the answers of a transfer.
pub open spec fn output_log(answers: Seq<AnswerView>) -> OutputLog
    decreases answers.len(),
{
    if answers.len() == 0 {
        OutputLog { earlier: Seq::empty(), output: Seq::empty(), closed: false }
    } else {
        let before = output_log(answers.drop_last());
        match answers.last() {
            AnswerView::Spawned(_) => OutputLog {
                earlier: before.reports(),
                output: Seq::empty(),
                closed: false,
            },
            AnswerView::Output(OutputEvent::Byte(byte)) => OutputLog {
                output: before.output.push(byte),
                ..before
            },
            AnswerView::Output(OutputEvent::End) => OutputLog { closed: true, ..before },
            _ => before,
        }
    }
}

/// Whether a transfer has the unfinished line of the output at hand while it reads it.
spec fn log_fits(t: RsyncView, log: OutputLog) -> bool {
    t.stage is BeforeRead || t.stage is Reading ==> !log.closed && t.line == pending_line(
        log.output,
    )
}

proof fn lemma_no_progress(t: RsyncView, answer: AnswerView)
    requires
        t.expects(answer),
        !(answer is Output),
    ensures
        progress(rsync_next(t, answer).1).len() == 0,
{
    broadcast use group_select;

}

proof fn lemma_output_reports(t: RsyncView, asked: Seq<ActionView>, answers: Seq<AnswerView>)
    requires
        answers.len() > 0,
        t.expects(answers.last()),
        answers.last() is Output,
        log_fits(t, output_log(answers.drop_last())),
        progress(asked) == output_log(answers.drop_last()).reports(),
    ensures
        log_fits(rsync_next(t, answers.last()).0, output_log(answers)),
        progress(asked + rsync_next(t, answers.last()).1) == output_log(answers).reports(),
{
    broadcast use group_select;

    let before = output_log(answers.drop_last());
    let after = output_log(answers);
    let actions = rsync_next(t, answers.last()).1;
    lemma_select_concat(asked, actions, progress_told());
    match answers.last() {
        AnswerView::Output(OutputEvent::Byte(_)) => {
            assert(after.output.drop_last() == before.output);
        },
        _ => {
            law_bytes_report_every_line(before.output);
        },
    }
    assert(progress(asked) + progress(actions) =~= after.reports());
}

/// A transfer by rsync tells exactly the progress that the output of the programs shows, line by
/// line and in order: nothing is lost, told twice or made up.
pub proof fn law_progress_is_what_the_output_shows(
    config: ConfigView,
    platform: Platform,
    answers: Seq<AnswerView>,
)
    requires
        rsync_follows(config, platform, answers),
    ensures
        progress(rsync_after(config, platform, answers).1) == output_log(answers).reports(),
{
    lemma_reports(config, platform, answers);
}

proof fn lemma_reports(config: ConfigView, platform: Platform, answers: Seq<AnswerView>)
    requires
        rsync_follows(config, platform, answers),
    ensures
        progress(rsync_after(config, platform, answers).1) == output_log(answers).reports(),
        log_fits(rsync_after(config, platform, answers).0, output_log(answers)),
    decreases answers.len(),
{
    if answers.len() == 0 {
        broadcast use group_select;

        assert(progress(rsync_after(config, platform, answers).1) =~= output_log(
            answers,
        ).reports());
    } else {
        let front = answers.drop_last();
        lemma_reports(config, platform, front);
        let (t, asked) = rsync_after(config, platform, front);
        let actions = rsync_next(t, answers.last()).1;
        if answers.last() is Output {
            lemma_output_reports(t, asked, answers);
        } else {
            lemma_no_progress(t, answers.last());
            lemma_select_concat(asked, actions, progress_told());
            assert(progress(asked + actions) =~= output_log(answers).reports());
        }
    }
}

} // verus!
