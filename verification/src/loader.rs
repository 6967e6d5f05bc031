//! The loader stands between the cache and the connection to the backend.
//!
//! The loader does not own the connection. It tracks whether the connection
//! is open and queues the ranges to request; whoever owns the connection
//! takes the queue with [`Loader::take_outgoing`] and sends each range.

use vstd::prelude::*;

verus! {

/// How often a fetch is tried again while the connection is not open.
pub const MAX_RETRY: u64 = 10;

/// A half-open interval `[start, end)` of flat cell ids.
#[derive(Clone, Copy, Debug, PartialEq, Eq, Structural)]
pub struct FetchRange {
    pub start: u64,
    pub end: u64,
}

/// The character of a decimal digit.
pub open spec fn digit_char(digit: int) -> char {
    seq!['0', '1', '2', '3', '4', '5', '6', '7', '8', '9'][digit]
}

/// A number written in decimal digits, without leading zeros.
pub open spec fn decimal(n: nat) -> Seq<char>
    decreases n,
{
    if n < 10 {
        seq![digit_char(n as int)]
    } else {
        decimal(n / 10) + seq![digit_char((n % 10) as int)]
    }
}

/// The message that asks the backend for a range: a JSON object with the
/// start of the range under `from` and its end under `to`.
pub open spec fn fetch_text(range: FetchRange) -> Seq<char> {
    "{\"from\":"@ + decimal(range.start as nat) + ",\"to\":"@ + decimal(range.end as nat) + "}"@
}

/// Writes the request for a range as JSON: builds the object with
/// `serde_json::Map::insert` and `serde_json::Value::from`, and writes it
/// with the `to_string` of `serde_json::Value`. The contract claims that the
/// text is the compact form of the object, with no blanks, `from` before
/// `to`, and both numbers in decimal digits.
#[verifier::external_body]
fn range_object_text(from: u64, to: u64) -> (text: String)
    ensures
        text@ == fetch_text(FetchRange { start: from, end: to }),
{
    let mut object = serde_json::Map::new();
    object.insert("from".to_string(), serde_json::Value::from(from));
    object.insert("to".to_string(), serde_json::Value::from(to));
    serde_json::Value::Object(object).to_string()
}

impl FetchRange {
    /// The message that asks the backend for the range.
    pub fn to_message(&self) -> (text: String)
        ensures
            text@ == fetch_text(*self),
    {
        range_object_text(self.start, self.end)
    }

    /// Whether `id` lies in the range.
    pub open spec fn contains_spec(self, id: u64) -> bool {
        self.start <= id < self.end
    }

    /// Whether `id` lies in the range.
    pub fn contains(&self, id: u64) -> (inside: bool)
        ensures
            inside == self.contains_spec(id),
    {
        self.start <= id && id < self.end
    }
}

/// The text that `str::replace` makes of `text` when it puts `to` in the
/// place of `from`.
pub uninterp spec fn replaced(text: Seq<char>, from: Seq<char>, to: Seq<char>) -> Seq<char>;

/// Replaces text with `str::replace`. The contract names the characters of
/// the text that comes out, and claims that they depend on the three
/// arguments alone.
#[verifier::external_body]
fn replace_all(text: &str, from: &str, to: &str) -> (out: String)
    ensures
        out@ == replaced(text@, from@, to@),
{
    text.replace(from, to)
}

/// The address of the backend's message connection for the backend's web
/// address: the web schemes give way to the matching socket schemes, the
/// secure one first.
pub fn websocket_url(url: &str) -> (out: String)
    ensures
        out@ == replaced(replaced(url@, "https://"@, "wss://"@), "http://"@, "ws://"@),
{
    let secure = replace_all(url, "https://", "wss://");
    replace_all(secure.as_str(), "http://", "ws://")
}

/// What a [`Loader`] holds.
pub struct LoaderView {
    pub is_open: bool,
    pub outgoing: Seq<FetchRange>,
}

pub struct Loader {
    is_open: bool,
    outgoing: Vec<FetchRange>,
}

impl View for Loader {
    type V = LoaderView;

    closed spec fn view(&self) -> LoaderView {
        LoaderView { is_open: self.is_open, outgoing: self.outgoing@ }
    }
}

/// The loader after a request for `range`: queued where the connection is
/// open, dropped where it is not.
pub open spec fn after_fetch(before: LoaderView, range: FetchRange) -> LoaderView {
    if before.is_open {
        LoaderView { is_open: true, outgoing: before.outgoing.push(range) }
    } else {
        before
    }
}

impl Loader {
    /// A loader whose connection is not open yet, with nothing to send.
    pub fn new() -> (loader: Self)
        ensures
            loader@ == (LoaderView { is_open: false, outgoing: Seq::<FetchRange>::empty() }),
    {
        Loader { is_open: false, outgoing: Vec::new() }
    }

    /// Whether the connection is open.
    pub fn is_open(&self) -> (open: bool)
        ensures
            open == self@.is_open,
    {
        self.is_open
    }

    /// Records whether the connection is open.
    pub fn set_open(&mut self, open: bool)
        ensures
            final(self)@ == (LoaderView { is_open: open, outgoing: old(self)@.outgoing }),
    {
        self.is_open = open;
    }

    /// Requests `range`. Where the connection is not open nothing happens
    /// and the result is `false`; where it is open the range is queued for
    /// sending and the result is `true`.
    pub fn fetch(&mut self, range: FetchRange) -> (sent: bool)
        ensures
            sent == old(self)@.is_open,
            final(self)@ == after_fetch(old(self)@, range),
    {
        if !self.is_open {
            return false;
        }
        self.outgoing.push(range);
        true
    }

    /// Requests `range`, and while the connection is not open tries again at
    /// once, up to [`MAX_RETRY`] times. Gives up silently after that. The
    /// range is queued at most once.
    pub fn fetch_with_retry(&mut self, range: FetchRange) -> (sent: bool)
        ensures
            sent == old(self)@.is_open,
            final(self)@ == after_fetch(old(self)@, range),
    {
        let mut max_retry: u64 = MAX_RETRY;
        let mut sent: bool = self.fetch(range);
        while !sent && max_retry > 0
            invariant
                sent == old(self)@.is_open,
                self@ == after_fetch(old(self)@, range),
            decreases max_retry,
        {
            max_retry -= 1;
            sent = self.fetch(range);
        }
        sent
    }

    /// Hands out the ranges that wait for sending, oldest first, and leaves
    /// none behind.
    pub fn take_outgoing(&mut self) -> (ranges: Vec<FetchRange>)
        ensures
            ranges@ == old(self)@.outgoing,
            final(self)@ == (LoaderView {
                is_open: old(self)@.is_open,
                outgoing: Seq::<FetchRange>::empty(),
            }),
    {
        let mut ranges: Vec<FetchRange> = Vec::new();
        std::mem::swap(&mut ranges, &mut self.outgoing);
        ranges
    }
}

} // verus!
