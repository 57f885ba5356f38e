//! The connection between a host and its controller: messages in a stream of
//! bytes, and how the connection begins and ends.
use vstd::prelude::*;
use crate::host::HostConnectOpts;
use crate::strs::is_text;

verus! {

/// The version of the messages.
pub const VERSION: &'static str = "0.1.0";

/// What a controller says first.
#[derive(Debug)]
pub struct HostCtrlInit {
    pub version: String,
    pub opts: HostConnectOpts,
}

/// What the host answers.
#[derive(Debug)]
pub struct HostInitResponse {}

/// A controller was built for another version than the host.
#[derive(Debug)]
pub struct VersionMismatch {
    pub version: String,
}

/// A text in quotes, with what cannot be shown in it escaped.
pub uninterp spec fn quoted(text: Seq<char>) -> Seq<char>;

/// `std::fmt::Debug` of a string: the text in quotes is a function of the text.
#[verifier::external_body]
fn quote(text: &str) -> (r: String)
    ensures
        r@ == quoted(text@),
{
    format!("{:?}", text)
}

/// What is said of two versions that differ, each in quotes.
pub open spec fn mismatch_text(theirs: Seq<char>, ours: Seq<char>) -> Seq<char> {
    "Cannot run controller built against version "@ + theirs + " under version "@ + ours
}

/// What is said of two versions names the one of the controller first and the one of
/// the host last.
pub proof fn law_mismatch_names_both(theirs: Seq<char>, ours: Seq<char>)
    ensures
        ({
            let text = mismatch_text(theirs, ours);
            let start = "Cannot run controller built against version "@;
            &&& text.take(start.len() as int) == start
            &&& text.subrange(start.len() as int, (start.len() + theirs.len()) as int) == theirs
            &&& text.skip(text.len() - ours.len()) == ours
            &&& text.len() == start.len() + theirs.len() + " under version "@.len() + ours.len()
        }),
{
    let text = mismatch_text(theirs, ours);
    let start = "Cannot run controller built against version "@;
    assert(text.take(start.len() as int) =~= start);
    assert(text.subrange(start.len() as int, (start.len() + theirs.len()) as int) =~= theirs);
    assert(text.skip(text.len() - ours.len()) =~= ours);
}

/// What is said of two versions that differ, given each in quotes.
pub fn mk_mismatch_text(theirs: &str, ours: &str) -> (r: String)
    ensures
        r@ == mismatch_text(theirs@, ours@),
{
    let mut out: String = "Cannot run controller built against version ".to_owned();
    out.push_str(theirs);
    out.push_str(" under version ");
    out.push_str(ours);
    out
}

impl VersionMismatch {
    /// What went wrong: both versions are named.
    pub fn message(&self) -> (r: String)
        ensures
            r@ == mismatch_text(quoted(self.version@), quoted(VERSION@)),
    {
        mk_mismatch_text(&quote(&self.version), &quote(VERSION))
    }
}

/// Only a controller of the same version is taken.
pub fn check_version(version: &String) -> (r: Result<(), VersionMismatch>)
    ensures
        r is Ok <==> version@ == VERSION@,
        r matches Err(mismatch) ==> mismatch.version == *version,
{
    if is_text(version, VERSION) {
        Ok(())
    } else {
        Err(VersionMismatch { version: version.clone() })
    }
}

/// The byte that ends a message and occurs nowhere else in it.
pub const END: u8 = 0;

/// The place behind the first end of a message, if there is one.
pub open spec fn first_end(bytes: Seq<u8>) -> Option<int>
    decreases bytes.len(),
{
    if bytes.len() == 0 {
        None
    } else if bytes[0] == END {
        Some(1)
    } else {
        match first_end(bytes.drop_first()) {
            Some(n) => Some(n + 1),
            None => None,
        }
    }
}

/// The first end is the end of the first message: no byte before it is an end.
pub proof fn lemma_first_end(bytes: Seq<u8>)
    ensures
        first_end(bytes) matches Some(n) ==> 1 <= n <= bytes.len() && bytes[n - 1] == END && forall|
            i: int,
        |
            0 <= i < n - 1 ==> bytes[i] != END,
        first_end(bytes) is None ==> forall|i: int| 0 <= i < bytes.len() ==> bytes[i] != END,
    decreases bytes.len(),
{
    if bytes.len() > 0 && bytes[0] != END {
        let rest = bytes.drop_first();
        lemma_first_end(rest);
        assert(forall|i: int| 1 <= i < bytes.len() ==> bytes[i] == rest[i - 1]);
    }
}

proof fn lemma_first_end_at(bytes: Seq<u8>, n: int)
    requires
        1 <= n <= bytes.len(),
        bytes[n - 1] == END,
        forall|i: int| 0 <= i < n - 1 ==> bytes[i] != END,
    ensures
        first_end(bytes) == Some(n),
    decreases bytes.len(),
{
    if n > 1 {
        let rest = bytes.drop_first();
        assert(forall|i: int| 0 <= i < rest.len() ==> rest[i] == bytes[i + 1]);
        lemma_first_end_at(rest, n - 1);
    }
}

proof fn lemma_no_end(bytes: Seq<u8>)
    requires
        forall|i: int| 0 <= i < bytes.len() ==> bytes[i] != END,
    ensures
        first_end(bytes) is None,
    decreases bytes.len(),
{
    if bytes.len() > 0 {
        let rest = bytes.drop_first();
        assert(forall|i: int| 0 <= i < rest.len() ==> rest[i] == bytes[i + 1]);
        lemma_no_end(rest);
    }
}

/// The complete messages at the beginning of a stream, each with its end.
pub open spec fn messages(bytes: Seq<u8>) -> Seq<Seq<u8>>
    decreases bytes.len(),
{
    match first_end(bytes) {
        Some(n) => {
            proof {
                lemma_first_end(bytes);
            }
            seq![bytes.take(n)] + messages(bytes.skip(n))
        },
        None => Seq::empty(),
    }
}

/// What is left of a stream behind its complete messages.
pub open spec fn leftover(bytes: Seq<u8>) -> Seq<u8>
    decreases bytes.len(),
{
    match first_end(bytes) {
        Some(n) => {
            proof {
                lemma_first_end(bytes);
            }
            leftover(bytes.skip(n))
        },
        None => bytes,
    }
}

/// All bytes of some messages.
pub open spec fn joined(messages: Seq<Seq<u8>>) -> Seq<u8>
    decreases messages.len(),
{
    if messages.len() == 0 {
        Seq::empty()
    } else {
        messages[0] + joined(messages.drop_first())
    }
}

/// Whether bytes are one message: they end with the end, and have no other.
pub open spec fn is_message(bytes: Seq<u8>) -> bool {
    &&& bytes.len() > 0
    &&& bytes.last() == END
    &&& forall|i: int| 0 <= i < bytes.len() - 1 ==> bytes[i] != END
}

/// Bytes without an end make a message once an end is put behind them, and a message
/// is always made so.
pub proof fn law_message_ends_with_the_end(bytes: Seq<u8>)
    requires
        forall|i: int| 0 <= i < bytes.len() ==> #[trigger] bytes[i] != 0,
    ensures
        is_message(bytes.push(0)),
        !is_message(bytes),
        !is_message(bytes.push(0).push(0)),
{
    let twice = bytes.push(0).push(0);
    assert(twice[bytes.len() as int] == 0);
}

/// The messages of a stream and what is left behind them are the stream: no byte
/// is lost or added.
pub proof fn law_nothing_is_lost(bytes: Seq<u8>)
    ensures
        joined(messages(bytes)) + leftover(bytes) == bytes,
    decreases bytes.len(),
{
    lemma_first_end(bytes);
    match first_end(bytes) {
        Some(n) => {
            let rest = bytes.skip(n);
            law_nothing_is_lost(rest);
            let all = messages(bytes);
            assert(all.drop_first() =~= messages(rest));
            assert(all[0] == bytes.take(n));
            assert(joined(all) + leftover(bytes) =~= bytes.take(n) + (joined(messages(rest))
                + leftover(rest)));
            assert(bytes.take(n) + rest =~= bytes);
        },
        None => {
            assert(joined(messages(bytes)) + leftover(bytes) =~= bytes);
        },
    }
}

/// What was written as messages, one after the other, is read as these messages,
/// with nothing left.
pub proof fn law_messages_are_read_back(list: Seq<Seq<u8>>)
    requires
        forall|i: int| 0 <= i < list.len() ==> is_message(#[trigger] list[i]),
    ensures
        messages(joined(list)) == list,
        leftover(joined(list)) == Seq::<u8>::empty(),
    decreases list.len(),
{
    let bytes = joined(list);
    if list.len() == 0 {
        assert(messages(bytes) =~= list);
    } else {
        let first = list[0];
        let rest = list.drop_first();
        assert forall|i: int| 0 <= i < rest.len() implies is_message(#[trigger] rest[i]) by {
            assert(rest[i] == list[i + 1]);
        }
        law_messages_are_read_back(rest);
        let n = first.len() as int;
        assert(is_message(list[0]));
        assert(bytes[n - 1] == first[n - 1]);
        assert forall|i: int| 0 <= i < n - 1 implies bytes[i] != END by {
            assert(bytes[i] == first[i]);
        }
        lemma_first_end_at(bytes, n);
        assert(bytes.take(n) =~= first);
        assert(bytes.skip(n) =~= joined(rest));
        assert(messages(bytes) =~= list);
    }
}

/// A message at the beginning of a stream is read as it was written, whatever follows
/// it, and exactly its bytes are taken: what follows is read as if it had come alone.
pub proof fn law_first_message_is_read_back(message: Seq<u8>, rest: Seq<u8>)
    requires
        is_message(message),
    ensures
        messages(message + rest) == seq![message] + messages(rest),
        leftover(message + rest) == leftover(rest),
{
    let list = seq![message];
    assert(list.drop_first() =~= Seq::empty());
    assert(joined(list.drop_first()) == Seq::<u8>::empty());
    assert(joined(list) =~= message);
    law_messages_are_read_back(list);
    law_pieces_make_no_difference(message, rest);
    assert(Seq::<u8>::empty() + rest =~= rest);
}

/// It makes no difference in which pieces a stream comes: what is left of the
/// bytes so far, and the bytes that follow, give the same messages.
pub proof fn law_pieces_make_no_difference(before: Seq<u8>, after: Seq<u8>)
    ensures
        messages(before + after) == messages(before) + messages(leftover(before) + after),
        leftover(before + after) == leftover(leftover(before) + after),
    decreases before.len(),
{
    lemma_first_end(before);
    match first_end(before) {
        Some(n) => {
            let all = before + after;
            assert(all[n - 1] == before[n - 1]);
            assert forall|i: int| 0 <= i < n - 1 implies all[i] != END by {
                assert(all[i] == before[i]);
            }
            lemma_first_end_at(all, n);
            let rest = before.skip(n);
            law_pieces_make_no_difference(rest, after);
            assert(all.skip(n) =~= rest + after);
            assert(all.take(n) =~= before.take(n));
            assert(messages(all) =~= messages(before) + messages(leftover(before) + after));
        },
        None => {
            assert(messages(before) + messages(before + after) =~= messages(before + after));
        },
    }
}

/// The reading end of a connection: the bytes of a message that is not complete.
#[derive(Debug)]
pub struct FrameReader {
    pub buf: Vec<u8>,
}

/// The bytes of a list of messages.
pub open spec fn message_views(list: Seq<Vec<u8>>) -> Seq<Seq<u8>> {
    Seq::new(list.len(), |i: int| list[i]@)
}

impl FrameReader {
    /// Between two pieces no complete message is kept back.
    pub open spec fn wf(&self) -> bool {
        first_end(self.buf@) is None
    }

    pub fn new() -> (r: Self)
        ensures
            r.wf(),
            r.buf@.len() == 0,
    {
        FrameReader { buf: Vec::new() }
    }

    /// Takes in a piece of the stream. The result are the messages that it
    /// completes.
    pub fn push(&mut self, piece: &Vec<u8>) -> (r: Vec<Vec<u8>>)
        requires
            old(self).wf(),
        ensures
            final(self).wf(),
            message_views(r@) == messages(old(self).buf@ + piece@),
            final(self).buf@ == leftover(old(self).buf@ + piece@),
    {
        let ghost start = self.buf@;
        let mut done: Vec<Vec<u8>> = Vec::new();
        let mut i: usize = 0;
        proof {
            assert(start + piece@.take(0) =~= start);
            assert(message_views(done@) =~= messages(start));
        }
        while i < piece.len()
            invariant
                0 <= i <= piece@.len(),
                first_end(self.buf@) is None,
                message_views(done@) == messages(start + piece@.take(i as int)),
                self.buf@ == leftover(start + piece@.take(i as int)),
            decreases piece@.len() - i,
        {
            let byte: u8 = piece[i];
            let ghost had = message_views(done@);
            let ghost rest = self.buf@;
            let ghost so_far = start + piece@.take(i as int);
            self.buf.push(byte);
            let ghost now = self.buf@;
            proof {
                assert(start + piece@.take(i + 1) =~= so_far + seq![byte]);
                law_pieces_make_no_difference(so_far, seq![byte]);
                assert(rest + seq![byte] =~= now);
                lemma_first_end(rest);
                assert(forall|j: int| 0 <= j < rest.len() ==> now[j] == rest[j]);
            }
            if byte == END {
                proof {
                    lemma_first_end_at(now, now.len() as int);
                    assert(now.skip(now.len() as int) =~= Seq::empty());
                    assert(now.take(now.len() as int) =~= now);
                    let none = Seq::<u8>::empty();
                    assert(first_end(none) is None);
                    assert(messages(none) =~= Seq::empty());
                    assert(leftover(none) == none);
                    assert(messages(now) =~= seq![now]);
                    assert(leftover(now) =~= Seq::empty());
                }
                let mut message: Vec<u8> = Vec::new();
                std::mem::swap(&mut message, &mut self.buf);
                done.push(message);
                proof {
                    assert(message_views(done@) =~= had.push(now));
                    assert(message_views(done@) =~= had + messages(now));
                }
            } else {
                proof {
                    lemma_no_end(now);
                    assert(had + messages(now) =~= had);
                }
            }
            i += 1;
        }
        proof {
            assert(piece@.take(i as int) =~= piece@);
        }
        done
    }

    /// What is taken for a last message when the stream has ended.
    pub open spec fn last_message(self) -> Option<Seq<u8>> {
        if self.buf@.len() == 0 {
            None
        } else {
            Some(self.buf@)
        }
    }

    /// The stream has ended: what is left is taken for a last message, if there
    /// is anything.
    pub fn finish(self) -> (r: Option<Vec<u8>>)
        ensures
            match self.last_message() {
                Some(message) => r matches Some(bytes) && bytes@ == message,
                None => r is None,
            },
    {
        if self.buf.len() == 0 {
            None
        } else {
            Some(self.buf)
        }
    }
}

/// What is left at the end of a stream is the last message, whole; where nothing is
/// left there is none.
pub proof fn law_rest_is_the_last_message(reader: FrameReader)
    ensures
        reader.buf@.len() > 0 ==> reader.last_message() == Some(reader.buf@),
        reader.buf@.len() == 0 ==> reader.last_message() is None,
{
}

/// The messages that are handed on are those bytes, one by one.
pub proof fn law_messages_are_their_bytes(list: Seq<Vec<u8>>, i: int)
    ensures
        message_views(list).len() == list.len(),
        0 <= i < list.len() ==> message_views(list)[i] == list[i]@,
{
}

/// What became of a message.
#[derive(Clone, Copy, Debug, PartialEq, Eq, Structural)]
pub enum Delivery {
    /// It could not be understood.
    Garbled,
    Delivered,
    /// Nobody takes messages any more.
    Refused,
}

/// A message that is not understood is passed over; reading ends when nobody
/// takes messages any more.
pub fn reads_on(delivery: Delivery) -> (r: bool)
    ensures
        r == (delivery != Delivery::Refused),
{
    match delivery {
        Delivery::Garbled => true,
        Delivery::Delivered => true,
        Delivery::Refused => false,
    }
}

/// Whether the two ends of a connection are still at work, or how the first of
/// them stopped.
#[derive(Clone, Copy, Debug, PartialEq, Eq, Structural)]
pub enum StopState {
    Running,
    Stopped { err: bool },
}

/// What is done when an end of the connection has stopped.
#[derive(Clone, Copy, Debug, PartialEq, Eq, Structural)]
pub enum StopAct {
    /// Hand the outcome to whoever waits for the end of the connection.
    Report,
    LogError,
    LogDebug,
    Nothing,
}

impl StopState {
    pub fn new() -> (r: Self)
        ensures
            r == StopState::Running,
    {
        StopState::Running
    }

    /// How the first end stopped, after an end has.
    pub open spec fn after_stop(self, err: bool) -> StopState {
        match self {
            StopState::Running => StopState::Stopped { err },
            StopState::Stopped { .. } => self,
        }
    }

    /// What is done when an end has stopped.
    pub open spec fn stop_act(self, err: bool) -> StopAct {
        match self {
            StopState::Running => StopAct::Report,
            StopState::Stopped { err: first } => if !err {
                StopAct::Nothing
            } else if first {
                StopAct::LogError
            } else {
                StopAct::LogDebug
            },
        }
    }

    /// An end has stopped, by itself or with an error. The first one is reported.
    /// An error of the second one is worth mentioning only where the first one
    /// had one too.
    pub fn stopped(&mut self, err: bool) -> (r: StopAct)
        ensures
            *final(self) == old(self).after_stop(err),
            r == old(self).stop_act(err),
    {
        match *self {
            StopState::Running => {
                *self = StopState::Stopped { err };
                StopAct::Report
            },
            StopState::Stopped { err: first } => {
                if !err {
                    StopAct::Nothing
                } else if first {
                    StopAct::LogError
                } else {
                    StopAct::LogDebug
                }
            },
        }
    }
}

/// The first end that stops is reported and remembered, whatever the second one does.
/// Of the second one nothing is said unless it has an error, and that is an error of
/// its own only where the first one had one.
pub proof fn law_first_stop_is_reported(first: bool, second: bool)
    ensures
        ({
            let stopped = StopState::Running.after_stop(first);
            &&& StopState::Running.stop_act(first) == StopAct::Report
            &&& stopped == (StopState::Stopped { err: first })
            &&& stopped.after_stop(second) == stopped
            &&& stopped.stop_act(false) == StopAct::Nothing
            &&& first ==> stopped.stop_act(true) == StopAct::LogError
            &&& !first ==> stopped.stop_act(true) == StopAct::LogDebug
        }),
{
}

/// Whether the two ends of a connection may start: undecided at first, and then
/// what was said first.
#[derive(Clone, Copy, Debug, PartialEq, Eq, Structural)]
pub struct Ready {
    pub state: Option<bool>,
}

impl Ready {
    /// What is known after something was said: what was said first.
    pub open spec fn said(self, value: bool) -> Ready {
        Ready {
            state: match self.state {
                Some(said) => Some(said),
                None => Some(value),
            },
        }
    }

    pub fn new() -> (r: Self)
        ensures
            r.state is None,
    {
        Ready { state: None }
    }

    fn set(&mut self, value: bool)
        ensures
            *final(self) == old(self).said(value),
    {
        if self.state.is_none() {
            self.state = Some(value);
        }
    }

    /// Everything is in place.
    pub fn set_ready(&mut self)
        ensures
            *final(self) == old(self).said(true),
    {
        self.set(true);
    }

    /// Something went away before everything was in place.
    pub fn drop_guard(&mut self)
        ensures
            *final(self) == old(self).said(false),
    {
        self.set(false);
    }

    /// What was said, once something was.
    pub fn wait(&self) -> (r: Option<bool>)
        ensures
            r == self.state,
    {
        self.state
    }
}

/// What is known after all of this was said, one after the other.
pub open spec fn all_said(ready: Ready, words: Seq<bool>) -> Ready
    decreases words.len(),
{
    if words.len() == 0 {
        ready
    } else {
        all_said(ready, words.drop_last()).said(words.last())
    }
}

/// Whatever is said and however often, what was said first stays: from then on every
/// look gives the same.
pub proof fn law_first_word_stays(ready: Ready, words: Seq<bool>)
    requires
        ready.state is None,
        words.len() > 0,
    ensures
        all_said(ready, words).state == Some(words[0]),
    decreases words.len(),
{
    if words.len() > 1 {
        law_first_word_stays(ready, words.drop_last());
    } else {
        assert(all_said(ready, words.drop_last()) == ready);
    }
}

/// How far the start of one end of a connection has come.
#[derive(Clone, Copy, Debug, PartialEq, Eq, Structural)]
pub enum Start {
    /// The outcome of its first exchange went to nobody.
    NobodyWaits,
    /// Whether everything else is in place.
    Ready(bool),
}

/// An end goes to work where somebody waits for it and everything else is in
/// place.
pub fn goes_to_work(start: Start) -> (r: bool)
    ensures
        r == (start == Start::Ready(true)),
{
    match start {
        Start::NobodyWaits => false,
        Start::Ready(ready) => ready,
    }
}

} // verus!
