use vstd::prelude::*;

verus! {

/// The wire form of one event: `event: <name>\ndata: <data>\n\n`.
pub open spec fn frame_text(name: Seq<char>, data: Seq<char>) -> Seq<char> {
    "event: "@ + name + "\ndata: "@ + data + "\n\n"@
}

/// Encodes one event frame.
pub fn encode_frame(name: &str, data: &str) -> (r: String)
    ensures
        r@ == frame_text(name@, data@),
{
    let mut f = String::from_str("event: ");
    f.append(name);
    f.append("\ndata: ");
    f.append(data);
    f.append("\n\n");
    f
}

/// What became ready for a subscriber's stream.
#[derive(Debug)]
pub enum StreamInput {
    /// The stream opened; the data of its first heartbeat.
    Open(String),
    /// A captured request arrived, encoded as JSON.
    Request(String),
    /// The channel dropped this many items the subscriber had not read.
    Lagged(u64),
    /// The periodic heartbeat fired; its data.
    Tick(String),
}

/// The per-subscriber merge of live requests and heartbeats.
#[derive(Debug)]
pub struct StreamMux {
    pub started: bool,
    /// Items lost to lag so far, saturating.
    pub dropped: u64,
}

impl StreamMux {
    /// A stream that has sent nothing yet.
    pub fn new() -> (r: StreamMux)
        ensures
            !r.started,
            r.dropped == 0,
    {
        StreamMux { started: false, dropped: 0 }
    }

    /// The frame to send for one input, if any.  The opening heartbeat goes out
    /// first and once; nothing goes out before it.  Requests become `request`
    /// frames and heartbeats `ping` frames; lag sends nothing and only adds to
    /// the drop count.
    pub fn on_input(&mut self, input: StreamInput) -> (r: Option<String>)
        ensures
            final(self).started == (old(self).started || input is Open),
            input matches StreamInput::Open(d) ==> (!old(self).started ==> (r matches Some(f) && f@
                == frame_text("ping"@, d@))) && (old(self).started ==> r is None),
            input matches StreamInput::Request(d) ==> (old(self).started ==> (r matches Some(f) && f@
                == frame_text("request"@, d@))) && (!old(self).started ==> r is None),
            input matches StreamInput::Tick(d) ==> (old(self).started ==> (r matches Some(f) && f@
                == frame_text("ping"@, d@))) && (!old(self).started ==> r is None),
            input is Lagged ==> r is None,
            input matches StreamInput::Lagged(n) ==> final(self).dropped as int == if old(
                self,
            ).dropped + n > u64::MAX {
                u64::MAX as int
            } else {
                old(self).dropped + n
            },
            !(input is Lagged) ==> final(self).dropped == old(self).dropped,
    {
        match input {
            StreamInput::Open(d) => {
                if self.started {
                    None
                } else {
                    self.started = true;
                    Some(encode_frame("ping", d.as_str()))
                }
            },
            StreamInput::Request(d) => {
                if self.started {
                    Some(encode_frame("request", d.as_str()))
                } else {
                    None
                }
            },
            StreamInput::Tick(d) => {
                if self.started {
                    Some(encode_frame("ping", d.as_str()))
                } else {
                    None
                }
            },
            StreamInput::Lagged(n) => {
                self.dropped = self.dropped.saturating_add(n);
                None
            },
        }
    }
}

} // verus!
