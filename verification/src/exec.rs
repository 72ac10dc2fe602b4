use vstd::prelude::*;

verus! {

/// One message observed on an executor's channel, reduced to what the
/// executor's decision depends on.
pub enum ExecEvent {
    /// A chunk of command output.
    Data(Vec<u8>),
    /// The channel signalled end of file.
    Eof,
    /// The command's exit status arrived.
    ExitStatus(u32),
    /// A window adjustment or any other message kind.
    Other,
    /// The stream yielded no further message.
    Closed,
}

/// The message kinds at which the executor stops draining: exit status, end
/// of file, or a closed stream.
pub open spec fn spec_is_terminal(e: ExecEvent) -> bool {
    e is Eof || e is ExitStatus || e is Closed
}

/// The combined output of a command, over the messages its channel delivered:
/// data chunks are concatenated in order up to the first terminal message;
/// all other message kinds contribute nothing.
pub open spec fn spec_exec_output(events: Seq<ExecEvent>) -> Seq<u8>
    decreases events.len(),
{
    if events.len() == 0 {
        Seq::empty()
    } else {
        match events[0] {
            ExecEvent::Data(d) => d@ + spec_exec_output(events.drop_first()),
            ExecEvent::Eof => Seq::empty(),
            ExecEvent::ExitStatus(_) => Seq::empty(),
            ExecEvent::Closed => Seq::empty(),
            ExecEvent::Other => spec_exec_output(events.drop_first()),
        }
    }
}

/// Whether this message ends the drain loop. The caller feeds messages in
/// arrival order and stops waiting for more once this returns true.
pub fn is_terminal_event(e: &ExecEvent) -> (r: bool)
    ensures
        r == spec_is_terminal(*e),
{
    match e {
        ExecEvent::Eof => true,
        ExecEvent::ExitStatus(_) => true,
        ExecEvent::Closed => true,
        ExecEvent::Data(_) => false,
        ExecEvent::Other => false,
    }
}

/// Drain a recorded message sequence into the combined output buffer: data
/// chunks are appended in order until the first exit-status, end-of-file or
/// stream-closed message; any other message kinds are ignored.
pub fn collect_exec_output(events: Vec<ExecEvent>) -> (out: Vec<u8>)
    ensures
        out@ == spec_exec_output(events@),
{
    let mut out: Vec<u8> = Vec::new();
    let n = events.len();
    let mut i: usize = 0;
    proof {
        assert(events@.skip(0) =~= events@);
        assert(Seq::<u8>::empty() + spec_exec_output(events@) =~= spec_exec_output(events@));
    }
    while i < n
        invariant
            n == events@.len(),
            0 <= i <= n,
            spec_exec_output(events@) == out@ + spec_exec_output(events@.skip(i as int)),
        decreases n - i,
    {
        proof {
            assert(events@.skip(i as int)[0] == events@[i as int]);
            assert(events@.skip(i as int).drop_first() =~= events@.skip(i as int + 1));
        }
        match &events[i] {
            ExecEvent::Data(d) => {
                let ghost out0 = out@;
                let mut j: usize = 0;
                while j < d.len()
                    invariant
                        0 <= j <= d@.len(),
                        out@ == out0 + d@.take(j as int),
                    decreases d@.len() - j,
                {
                    out.push(d[j]);
                    proof {
                        assert((out0 + d@.take(j as int)).push(d@[j as int]) =~= out0 + d@.take(
                            j as int + 1,
                        ));
                    }
                    j = j + 1;
                }
                proof {
                    assert(d@.take(d@.len() as int) =~= d@);
                }
            },
            ExecEvent::Eof => {
                proof {
                    assert(out@ + Seq::<u8>::empty() =~= out@);
                }
                return out;
            },
            ExecEvent::ExitStatus(_) => {
                proof {
                    assert(out@ + Seq::<u8>::empty() =~= out@);
                }
                return out;
            },
            ExecEvent::Closed => {
                proof {
                    assert(out@ + Seq::<u8>::empty() =~= out@);
                }
                return out;
            },
            ExecEvent::Other => {},
        }
        i = i + 1;
    }
    proof {
        assert(events@.skip(n as int) =~= Seq::<ExecEvent>::empty());
    }
    out
}

/// What the decoding of command output into text returns. Relied on below:
/// the decoding is a pure function of the bytes alone.
pub uninterp spec fn lossy_utf8_of(bytes: Seq<u8>) -> Seq<char>;

/// Relies on String::from_utf8_lossy: decodes the bytes as UTF-8, replacing
/// invalid sequences with the replacement character rather than failing, and
/// leaves an empty input empty.
#[verifier::external_body]
fn lossy_utf8(bytes: &Vec<u8>) -> (r: String)
    ensures
        r@ == lossy_utf8_of(bytes@),
        bytes@.len() == 0 ==> r@.len() == 0,
{
    String::from_utf8_lossy(bytes).to_string()
}

/// The executor's whole drain step as one function: accumulate the data
/// chunks delivered before the first terminal message and decode them as
/// text, invalid encoding replaced rather than failing the call.
pub fn render_exec_output(events: Vec<ExecEvent>) -> (r: String)
    ensures
        r@ == lossy_utf8_of(spec_exec_output(events@)),
{
    let out = collect_exec_output(events);
    lossy_utf8(&out)
}

} // verus!
