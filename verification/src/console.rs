//! The console step: poll the input decoupling channel for one line and, when
//! one arrived, process it. A dedicated producer task blocks on the input
//! stream and sends whole lines through a bounded capacity-1 channel, so the
//! host's tick loop never blocks here.
use vstd::prelude::*;

use crate::dispatch::process_line;
use crate::dispatch::spec_line_quits;
use crate::dispatch::spec_line_resumes;
use crate::dispatch::spec_process_output;
use crate::model::WorldModel;
use crate::model::wf;
use crate::runstate::Pause;

verus! {

#[verifier::external_type_specification]
#[verifier::external_body]
#[verifier::reject_recursive_types(T)]
pub struct ExReceiver<T>(crossbeam::channel::Receiver<T>);

/// Relies on crossbeam_channel::Receiver::try_recv: it returns without
/// blocking, with a pending message or with an emptiness/disconnection error
/// and never panics. Which line arrives, if any, depends on the producer
/// thread, so nothing is assumed of the result.
#[verifier::external_body]
fn poll_line(rx: &crossbeam::channel::Receiver<String>) -> (r: Option<String>) {
    rx.try_recv().ok()
}

/// One console tick: poll the channel; when no line is pending, do nothing;
/// when one is, process it and hand back its report text and whether the
/// operator asked to quit. Whatever line the channel delivered, the result is
/// exactly that line's processing.
pub fn console_step(rx: &crossbeam::channel::Receiver<String>, w: &WorldModel, pause: &mut Pause)
    -> (r: Option<(String, bool)>)
    requires
        wf(*w),
    ensures
        match r {
            Option::Some(out) => exists|line: Seq<char>|
                {
                    &&& out.0@ == #[trigger] spec_process_output(line, *w)
                    &&& out.1 == spec_line_quits(line)
                    &&& final(pause).0 == (old(pause).0 && !spec_line_resumes(line))
                },
            Option::None => *final(pause) == *old(pause),
        },
{
    match poll_line(rx) {
        Option::Some(line) => {
            let out = process_line(line.as_str(), w, pause);
            proof {
                let witness = line@;
                assert(out.0@ == spec_process_output(witness, *w));
            }
            Some(out)
        },
        Option::None => None,
    }
}

} // verus!
