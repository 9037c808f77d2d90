//! Stack traces, and the header of a recording.

use crate::frame::StackFrame;
use std::time::SystemTime;
use vstd::prelude::*;
use vstd::string::StringExecFns;

verus! {

/// The identifier of a process.
pub type Pid = remoteprocess::Pid;

/// What a recording says of itself.
#[derive(Debug, PartialEq, Eq, Hash, Clone)]
pub struct Header {
    pub sample_rate: Option<u32>,
    pub rbspy_version: Option<String>,
    pub start_time: Option<SystemTime>,
}

impl Header {
    /// The header of a file that has none.
    pub fn absent() -> (header: Header)
        ensures
            header.sample_rate is None,
            header.rbspy_version is None,
            header.start_time is None,
    {
        Header { sample_rate: None, rbspy_version: None, start_time: None }
    }

    /// The header of a recording that starts at `start_time`.
    pub fn recording(sample_rate: u32, rbspy_version: &str, start_time: SystemTime) -> (header:
        Header)
        ensures
            header.sample_rate == Some(sample_rate),
            header.rbspy_version matches Some(version) && version@ == rbspy_version@,
            header.start_time == Some(start_time),
    {
        Header {
            sample_rate: Some(sample_rate),
            rbspy_version: Some(rbspy_version.to_string()),
            start_time: Some(start_time),
        }
    }
}

/// The stack of one thread at one time.
#[derive(Debug, PartialEq, Eq, Hash, Clone)]
pub struct StackTrace {
    pub trace: Vec<StackFrame>,
    pub pid: Option<Pid>,
    pub thread_id: Option<usize>,
    pub time: Option<SystemTime>,
    pub on_cpu: Option<bool>,
}

/// The texts of frames from the last to the first, one per line.
pub open spec fn frames_text(frames: Seq<StackFrame>) -> Seq<char>
    decreases frames.len(),
{
    if frames.len() == 0 {
        Seq::empty()
    } else if frames.len() == 1 {
        frames[0].text()
    } else {
        frames.last().text() + "\n"@ + frames_text(frames.drop_last())
    }
}

/// A frame that is put behind the others comes first in the text, on a line of its own,
/// and what follows that line is the text of the others.
pub proof fn last_frame_comes_first(frames: Seq<StackFrame>, frame: StackFrame)
    ensures
        frames_text(Seq::empty()) == Seq::<char>::empty(),
        frames_text(seq![frame]) == frame.text(),
        frames.len() > 0 ==> frames_text(frames.push(frame)) == frame.text() + seq!['\n']
            + frames_text(frames),
{
    reveal_strlit("\n");
    assert("\n"@ =~= seq!['\n']);
    assert(frames.push(frame).drop_last() =~= frames);
    assert(frames.push(frame).last() == frame);
}

/// Every frame has its line: the text of frame `i` stands behind those of the frames after
/// it and before those of the frames before it, with newlines between.
pub proof fn every_frame_has_its_line(frames: Seq<StackFrame>, i: int)
    requires
        0 <= i < frames.len(),
    ensures
        ({
            let above = frames_text(frames.skip(i + 1));
            let below = frames_text(frames.take(i));
            let before = if i + 1 < frames.len() {
                above + seq!['\n']
            } else {
                above
            };
            let after = if i > 0 {
                seq!['\n'] + below
            } else {
                below
            };
            frames_text(frames) == before + frames[i].text() + after
        }),
    decreases frames.len(),
{
    let last = frames.last();
    let others = frames.drop_last();
    assert(frames =~= others.push(last));
    last_frame_comes_first(others, last);
    last_frame_comes_first(frames.take(i), frames[i]);
    if i + 1 == frames.len() {
        assert(frames.skip(i + 1) =~= Seq::empty());
        assert(frames.take(i) =~= others);
        if i == 0 {
            assert(frames =~= seq![last]);
            assert(others =~= Seq::empty());
        }
        let after = if i > 0 {
            seq!['\n'] + frames_text(frames.take(i))
        } else {
            frames_text(frames.take(i))
        };
        assert(frames_text(frames) =~= frames_text(frames.skip(i + 1)) + frames[i].text() + after);
    } else {
        every_frame_has_its_line(others, i);
        assert(others.take(i) =~= frames.take(i));
        let above = frames.skip(i + 1);
        assert(above.drop_last() =~= others.skip(i + 1));
        assert(above =~= others.skip(i + 1).push(last));
        last_frame_comes_first(others.skip(i + 1), last);
        if i + 1 == others.len() {
            assert(others.skip(i + 1) =~= Seq::empty());
            assert(above =~= seq![last]);
        }
        let after = if i > 0 {
            seq!['\n'] + frames_text(frames.take(i))
        } else {
            frames_text(frames.take(i))
        };
        assert(frames_text(frames) =~= frames_text(above) + seq!['\n'] + frames[i].text() + after);
    }
}

impl StackTrace {
    /// A trace without frames, of which nothing else is known.
    pub fn new_empty() -> (r: StackTrace)
        ensures
            r.trace@ == Seq::<StackFrame>::empty(),
            r.pid is None,
            r.thread_id is None,
            r.time is None,
            r.on_cpu is None,
    {
        StackTrace { pid: None, trace: Vec::new(), thread_id: None, time: None, on_cpu: None }
    }

    /// The trace of a bare list of frames, of which nothing else is known.
    pub fn from_frames(trace: Vec<StackFrame>) -> (r: StackTrace)
        ensures
            r.trace == trace,
            r.pid is None,
            r.thread_id is None,
            r.time is None,
            r.on_cpu is None,
    {
        StackTrace { trace, pid: None, thread_id: None, time: None, on_cpu: None }
    }

    /// The frames of the trace, in order.
    pub fn iter(&self) -> (frames: std::slice::Iter<'_, StackFrame>)
        ensures
            vstd::std_specs::iter::IteratorSpec::remaining(&frames) == self.trace@.as_ref(),
    {
        self.trace.iter()
    }

    /// The text of the trace: its frames from the last to the first, one per line.
    pub fn to_string(&self) -> (text: String)
        ensures
            text@ == frames_text(self.trace@),
    {
        let mut text: String = String::new();
        let mut left: usize = self.trace.len();
        assert(self.trace@.take(left as int) == self.trace@);
        while left > 0
            invariant
                left <= self.trace@.len(),
                left == 0 ==> text@ == frames_text(self.trace@),
                left > 0 ==> text@ + frames_text(self.trace@.take(left as int)) == frames_text(
                    self.trace@,
                ),
            decreases left,
        {
            let ghost before = text@;
            let ghost frames = self.trace@.take(left as int);
            text.append(self.trace[left - 1].to_string().as_str());
            left -= 1;
            assert(frames.drop_last() == self.trace@.take(left as int));
            if left > 0 {
                text.append("\n");
                assert(text@ + frames_text(self.trace@.take(left as int)) =~= before + frames_text(
                    frames,
                ));
            } else {
                assert(frames[0] == frames.last());
            }
        }
        text
    }
}

} // verus!
