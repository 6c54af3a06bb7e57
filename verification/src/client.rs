use crate::frame::{Frame, FrameView};
use crate::subscrib_stream::{texts_of, Command, ParseError, SubscribStream};
use vstd::prelude::*;
use vstd::string::StringExecFns;

verus! {

/// How long after it connected the recording client answers pings, in
/// microseconds: one minute. After that it stays silent, so that the server
/// ends the connection.
pub const ANSWER_PINGS_FOR: u64 = 60_000_000;

/// What a client is started with: where to connect, and the channel and the
/// method of its one command.
#[derive(Debug, PartialEq, Eq)]
pub struct Opts {
    pub url: String,
    pub stream_name: String,
    pub method: String,
}

impl Default for Opts {
    fn default() -> (opts: Opts)
        ensures
            opts.url@ == "wss://ws.backpack.exchange"@,
            opts.stream_name@ == "depth.SOL_USDC"@,
            opts.method@ == "SUBSCRIBE"@,
    {
        Opts {
            url: String::from_str("wss://ws.backpack.exchange"),
            stream_name: String::from_str("depth.SOL_USDC"),
            method: String::from_str("SUBSCRIBE"),
        }
    }
}

impl Opts {
    /// The command that the client sends first: its method for its one
    /// channel. A method or a channel name that cannot be read is refused.
    pub fn command(&self) -> (result: Result<SubscribStream, ParseError>)
        ensures
            match result {
                Ok(command) => Command::parse(self.method@, seq![self.stream_name@]) == Ok::<
                    Command,
                    ParseError,
                >(command@),
                Err(e) => Command::parse(self.method@, seq![self.stream_name@]) == Err::<
                    Command,
                    ParseError,
                >(e),
            },
    {
        let mut params: Vec<String> = Vec::new();
        params.push(self.stream_name.clone());
        assert(texts_of(params@) =~= seq![self.stream_name@]);
        SubscribStream::parse(self.method.as_str(), &params)
    }
}

/// What a client does with one frame.
#[derive(Debug, PartialEq, Eq)]
pub enum ClientAction {
    /// Keep the text of an update.
    Record(String),
    /// Send this frame back.
    Reply(Frame),
    /// Nothing.
    Ignore,
}

/// A client action as a mathematical value.
#[verifier::ext_equal]
pub enum ClientActionView {
    Record(Seq<char>),
    Reply(FrameView),
    Ignore,
}

impl View for ClientAction {
    type V = ClientActionView;

    open spec fn view(&self) -> ClientActionView {
        match self {
            ClientAction::Record(text) => ClientActionView::Record(text@),
            ClientAction::Reply(frame) => ClientActionView::Reply(frame@),
            ClientAction::Ignore => ClientActionView::Ignore,
        }
    }
}

/// Whether a client that answers pings until `answer_until` answers one at
/// `elapsed`. A client without such a limit answers every ping.
pub open spec fn answers(elapsed: u64, answer_until: Option<u64>) -> bool {
    match answer_until {
        Some(limit) => elapsed < limit,
        None => true,
    }
}

/// What a client does with `message`, which came `elapsed` after it
/// connected: it keeps the text of a text frame, answers a ping with a pong
/// that carries the payload of the ping, as long as it answers pings at all,
/// and passes over anything else.
pub fn read_message(message: Frame, elapsed: u64, answer_until: Option<u64>) -> (action:
    ClientAction)
    ensures
        action@ == match message@ {
            FrameView::Text(text) => ClientActionView::Record(text),
            FrameView::Ping(payload) => if answers(elapsed, answer_until) {
                ClientActionView::Reply(FrameView::Pong(payload))
            } else {
                ClientActionView::Ignore
            },
            _ => ClientActionView::Ignore,
        },
{
    match message {
        Frame::Text(text) => ClientAction::Record(text),
        Frame::Ping(payload) => {
            let answer = match answer_until {
                Some(limit) => elapsed < limit,
                None => true,
            };
            if answer {
                ClientAction::Reply(Frame::Pong(payload))
            } else {
                ClientAction::Ignore
            }
        },
        _ => ClientAction::Ignore,
    }
}

} // verus!
