//! The live feed adapter's decisions: when to connect, subscribe, read and
//! forward, and when to wait before connecting again. Its driver holds the
//! socket, performs each action and reports what came of it.

use vstd::prelude::*;

verus! {

/// Time to wait before connecting again after a failure.
pub const RECONNECT_DELAY: u64 = 5;

/// Whether the adapter holds a connection.
#[derive(Clone, Copy, Debug, PartialEq, Eq, Structural)]
pub enum Link {
    Down,
    Up,
}

/// What the driver reports.
#[derive(Debug)]
pub enum Report {
    /// An attempt to connect failed.
    ConnectFailed,
    /// An attempt to connect succeeded.
    Connected,
    /// A text message was read.
    Text(String),
    /// A message that is not text was read.
    Other,
    /// Reading failed.
    ReadFailed,
    /// The stream ended.
    Ended,
}

/// The mathematical view of [`Report`].
pub enum ReportView {
    ConnectFailed,
    Connected,
    Text(Seq<char>),
    Other,
    ReadFailed,
    Ended,
}

impl View for Report {
    type V = ReportView;

    open spec fn view(&self) -> ReportView {
        match self {
            Report::ConnectFailed => ReportView::ConnectFailed,
            Report::Connected => ReportView::Connected,
            Report::Text(t) => ReportView::Text(t@),
            Report::Other => ReportView::Other,
            Report::ReadFailed => ReportView::ReadFailed,
            Report::Ended => ReportView::Ended,
        }
    }
}

/// What the driver is to do next.
#[derive(Debug)]
pub enum Command {
    /// Connect after waiting for the given time.
    Connect(u64),
    /// Send the subscription request, then read.
    Subscribe(String),
    /// Parse this text into an event and put it on the bus, then read.
    Forward(String),
    /// Read the next message.
    Read,
}

/// The mathematical view of [`Command`].
pub enum CommandView {
    Connect(int),
    Subscribe(Seq<char>),
    Forward(Seq<char>),
    Read,
}

impl View for Command {
    type V = CommandView;

    open spec fn view(&self) -> CommandView {
        match self {
            Command::Connect(delay) => CommandView::Connect(*delay as int),
            Command::Subscribe(t) => CommandView::Subscribe(t@),
            Command::Forward(t) => CommandView::Forward(t@),
            Command::Read => CommandView::Read,
        }
    }
}

/// The adapter after a report, with the command that answers it. While the
/// link is down only the outcome of a connection attempt counts, and any
/// failure leads to another attempt after the delay. While it is up, text
/// is forwarded, other messages are passed over, and a failed or ended
/// read takes the link down.
pub open spec fn answered(link: Link, report: ReportView) -> (Link, CommandView) {
    match link {
        Link::Down => match report {
            ReportView::Connected => (Link::Up, CommandView::Subscribe("subscribe"@)),
            _ => (Link::Down, CommandView::Connect(RECONNECT_DELAY as int)),
        },
        Link::Up => match report {
            ReportView::Text(t) => (Link::Up, CommandView::Forward(t)),
            ReportView::ReadFailed => (Link::Down, CommandView::Connect(RECONNECT_DELAY as int)),
            ReportView::Ended => (Link::Down, CommandView::Connect(RECONNECT_DELAY as int)),
            _ => (Link::Up, CommandView::Read),
        },
    }
}

/// A live feed adapter for a set of symbols and intervals at an address.
#[derive(Debug)]
pub struct Client {
    pub symbols: Vec<String>,
    pub intervals: Vec<String>,
    pub ws_url: String,
    pub link: Link,
}

impl Client {
    /// An adapter that is not connected yet.
    pub fn new(symbols: Vec<String>, intervals: Vec<String>, ws_url: String) -> (r: Self)
        ensures
            r.symbols == symbols,
            r.intervals == intervals,
            r.ws_url == ws_url,
            r.link == Link::Down,
    {
        Client { symbols, intervals, ws_url, link: Link::Down }
    }

    /// The first command of a run: connect at once.
    pub fn start(&self) -> (r: Command)
        ensures
            r@ == CommandView::Connect(0),
    {
        Command::Connect(0)
    }

    /// Takes a report and answers it with the next command.
    pub fn step(&mut self, report: Report) -> (r: Command)
        ensures
            (final(self).link, r@) == answered(old(self).link, report@),
            final(self).symbols == old(self).symbols,
            final(self).intervals == old(self).intervals,
            final(self).ws_url == old(self).ws_url,
    {
        match self.link {
            Link::Down => match report {
                Report::Connected => {
                    self.link = Link::Up;
                    Command::Subscribe("subscribe".to_owned())
                },
                _ => Command::Connect(RECONNECT_DELAY),
            },
            Link::Up => match report {
                Report::Text(t) => Command::Forward(t),
                Report::ReadFailed => {
                    self.link = Link::Down;
                    Command::Connect(RECONNECT_DELAY)
                },
                Report::Ended => {
                    self.link = Link::Down;
                    Command::Connect(RECONNECT_DELAY)
                },
                _ => Command::Read,
            },
        }
    }
}

} // verus!
