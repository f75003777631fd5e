//! Receiving backend messages with notice absorption.

use vstd::prelude::*;
use crate::connectivity::Stream;
use crate::error::Error;
use crate::protocol::backend_message::BackendMessage;
use crate::protocol::backend_message::BackendMessageModel;
use crate::protocol::backend_message::ErrorNoticeFieldArray;
use crate::protocol::backend_message::spec_parse;
use crate::protocol::read_backend_message::frame_ok;
use crate::protocol::read_backend_message::frame_size;

verus! {

/// Receives the field lists of absorbed `NoticeResponse` messages.
///
/// The receiver invokes the sink synchronously, before the `receive`
/// call that observed the notice returns; the cursor handed over is
/// released when the sink returns.  This crate implements the contract
/// for [`NoticeCollector`]; callers with their own delivery (printing,
/// logging) implement it outside the verified core.
pub trait NoticeSink {
    /// The notice field lists delivered so far, oldest first.
    ///
    /// Unverified sinks (printing, logging) can leave this default.
    open spec fn notices(&self) -> Seq<Seq<u8>> {
        Seq::empty()
    }

    /// Deliver one notice's field list.
    fn on_notice(&mut self, fields: &ErrorNoticeFieldArray)
        ensures
            final(self).notices() == old(self).notices().push(fields@),
    ;
}

/// The views of a sequence of owned byte vectors.
pub open spec fn vec_views(s: Seq<Vec<u8>>) -> Seq<Seq<u8>> {
    s.map_values(|v: Vec<u8>| v@)
}

/// Notice sink that stores each notice's raw field-list bytes.
#[derive(Debug)]
pub struct NoticeCollector {
    items: Vec<Vec<u8>>,
}

impl NoticeCollector {
    /// A collector that has seen no notices.
    pub fn new() -> (r: Self)
        ensures
            r.notices() == Seq::<Seq<u8>>::empty(),
    {
        let r = NoticeCollector { items: Vec::new() };
        proof {
            assert(r.notices() =~= Seq::<Seq<u8>>::empty());
        }
        r
    }

    /// The collected notice field lists, oldest first.
    pub fn items(&self) -> (r: &Vec<Vec<u8>>)
        ensures
            vec_views(r@) == self.notices(),
    {
        &self.items
    }
}

impl NoticeSink for NoticeCollector {
    closed spec fn notices(&self) -> Seq<Seq<u8>> {
        vec_views(self.items@)
    }

    fn on_notice(&mut self, fields: &ErrorNoticeFieldArray) {
        self.items.push(fields.remaining_to_vec());
        proof {
            assert(self.notices() =~= old(self).notices().push(fields@));
        }
    }
}

/// One complete `receive` on a stream: the notices delivered in order,
/// the first non-notice message, and the bytes consumed in total.
pub struct ReceiveSteps {
    pub notices: Seq<Seq<u8>>,
    pub message: BackendMessageModel,
    pub used: int,
}

/// What one `receive` yields on a stream that will deliver `s`: frames
/// are taken from the front for as long as they parse as notices, and
/// the first non-notice message ends the receive.  `None` stands for a
/// framing or parse failure.
pub open spec fn receive_steps(s: Seq<u8>) -> Option<ReceiveSteps>
    decreases s.len(),
{
    if !frame_ok(s) {
        None
    } else {
        let frame = s.take(frame_size(s));
        match spec_parse(frame) {
            Some(m) => match m {
                BackendMessageModel::NoticeResponse { fields } => match receive_steps(
                    s.skip(frame_size(s)),
                ) {
                    Some(st) => Some(ReceiveSteps {
                        notices: seq![fields] + st.notices,
                        message: st.message,
                        used: frame_size(s) + st.used,
                    }),
                    None => None,
                },
                _ => Some(ReceiveSteps { notices: seq![], message: m, used: frame_size(s) }),
            },
            None => None,
        }
    }
}

/// The well-formed notice frames at the front of `s`: their field
/// lists in order, and their total size in bytes.  The prefix ends at
/// the first frame that is not a decodable notice.
pub open spec fn notices_prefix(s: Seq<u8>) -> (Seq<Seq<u8>>, int)
    decreases s.len(),
{
    if !frame_ok(s) {
        (seq![], 0int)
    } else {
        match spec_parse(s.take(frame_size(s))) {
            Some(m) => match m {
                BackendMessageModel::NoticeResponse { fields } => {
                    let rest = notices_prefix(s.skip(frame_size(s)));
                    (seq![fields] + rest.0, frame_size(s) + rest.1)
                },
                _ => (seq![], 0int),
            },
            None => (seq![], 0int),
        }
    }
}

/// Utility for receiving backend messages.
///
/// The receiver contains a buffer for reading backend messages into.
/// This buffer is reused across receives, reducing the number of
/// allocations.
///
/// The receiver also owns a notice sink.  When a `NoticeResponse` is
/// received, the sink is invoked and the receive is retried until the
/// message isn't a notice.  This saves the caller from worrying about
/// notice responses.
pub struct Receiver<N> {
    buf: Vec<u8>,
    on_notice: N,
}

impl<N: NoticeSink> Receiver<N> {
    /// The notices the receiver's sink has seen so far.
    pub closed spec fn notices(&self) -> Seq<Seq<u8>> {
        self.on_notice.notices()
    }

    /// Create a receiver with a notice sink and an empty buffer.
    pub fn new(on_notice: N) -> (r: Self)
        ensures
            r.notices() == on_notice.notices(),
    {
        Receiver { buf: Vec::new(), on_notice }
    }

    /// Consume the receiver, handing back its notice sink.
    pub fn into_sink(self) -> (r: N)
        ensures
            r.notices() == self.notices(),
    {
        self.on_notice
    }

    /// Synchronously read and parse one backend message from a stream,
    /// absorbing any number of leading `NoticeResponse` messages.
    ///
    /// Each absorbed notice is handed to the sink, in arrival order,
    /// before this call returns; the returned message is the first
    /// non-notice message of the stream.
    #[verifier::loop_isolation(false)]
    pub fn receive<R: Stream>(&mut self, r: &mut R) -> (res: Result<BackendMessage, Error>)
        ensures
            final(r).written() == old(r).written(),
            final(r).reliable() == old(r).reliable(),
            old(r).reliable() && receive_steps(old(r).readable()) is Some ==> res is Ok,
            (res matches Err(Error::FramingLengthTooSmall)) ==> receive_steps(
                old(r).readable(),
            ) is None,
            (res matches Err(Error::BackendMessageParse)) ==> receive_steps(
                old(r).readable(),
            ) is None,
            (old(r).reliable() && (res matches Err(Error::Io(_)))) ==> (receive_steps(
                old(r).readable(),
            ) is None && !frame_ok(
                old(r).readable().skip(notices_prefix(old(r).readable()).1),
            )),
            match res {
                Ok(msg) => match receive_steps(old(r).readable()) {
                    Some(st) => {
                        &&& msg@ == st.message
                        &&& !(msg@ matches BackendMessageModel::NoticeResponse { .. })
                        &&& final(r).readable() == old(r).readable().skip(st.used)
                        &&& final(self).notices() == old(self).notices() + st.notices
                    },
                    None => false,
                },
                Err(e) => {
                    &&& (old(r).reliable() && (e matches Error::Io(_))) ==> (e matches Error::Io(
                        crate::error::IoErrorKind::UnexpectedEof,
                    ))
                    &&& ({
                        let np = notices_prefix(old(r).readable());
                        let rem = old(r).readable().skip(np.1);
                        match e {
                            Error::FramingLengthTooSmall => {
                                &&& final(self).notices() == old(self).notices() + np.0
                                &&& rem.len() >= 5
                                &&& crate::protocol::backend_message::be32_at(rem, 1) < 4
                                &&& final(r).readable() == old(r).readable().skip(np.1 + 5)
                            },
                            Error::BackendMessageParse => {
                                &&& final(self).notices() == old(self).notices() + np.0
                                &&& frame_ok(rem)
                                &&& spec_parse(rem.take(frame_size(rem))) is None
                                &&& final(r).readable() == old(r).readable().skip(
                                    np.1 + frame_size(rem),
                                )
                            },
                            Error::Io(_) => exists|k: int|
                                0 <= k <= np.0.len() && final(self).notices() == old(
                                    self,
                                ).notices() + np.0.take(k),
                            _ => false,
                        }
                    })
                },
            },
    {
        let ghost s0 = old(r).readable();
        let ghost mut delivered: Seq<Seq<u8>> = Seq::empty();
        let ghost mut consumed: int = 0;
        proof {
            assert(notices_prefix(s0).0 =~= delivered + notices_prefix(s0).0);
        }
        loop
            invariant
                r.written() == old(r).written(),
                r.reliable() == old(r).reliable(),
                self.notices() == old(self).notices() + delivered,
                0 <= consumed <= s0.len(),
                r.readable() == s0.skip(consumed),
                match receive_steps(r.readable()) {
                    Some(st) => receive_steps(s0) == Some(ReceiveSteps {
                        notices: delivered + st.notices,
                        message: st.message,
                        used: consumed + st.used,
                    }),
                    None => receive_steps(s0) is None,
                },
                notices_prefix(s0).0 == delivered + notices_prefix(r.readable()).0,
                notices_prefix(s0).1 == consumed + notices_prefix(r.readable()).1,
            decreases s0.len() - consumed,
        {
            proof {
                assert(self.notices() =~= old(self).notices() + delivered);
            }
            let ghost sc = r.readable();
            match crate::protocol::read_backend_message::read_backend_message(r, &mut self.buf) {
                Ok(()) => {},
                Err(e) => {
                    proof {
                        let np = notices_prefix(s0);
                        match e {
                            Error::FramingLengthTooSmall => {
                                assert(!frame_ok(sc));
                                assert(np.0 =~= delivered);
                                assert(self.notices() =~= old(self).notices() + np.0);
                                crate::protocol::backend_message::lemma_skip_skip(
                                    s0,
                                    consumed,
                                    5,
                                );
                            },
                            _ => {
                                assert(np.0.take(delivered.len() as int) =~= delivered);
                                assert(self.notices() =~= old(self).notices() + np.0.take(
                                    delivered.len() as int,
                                ));
                                if old(r).reliable() {
                                    assert(!frame_ok(sc));
                                    assert(np.0 =~= delivered);
                                    assert(np.1 == consumed);
                                }
                            },
                        }
                    }
                    return Err(e);
                },
            }
            let ghost f = frame_size(sc);
            match BackendMessage::parse(self.buf.as_slice()) {
                None => {
                    proof {
                        let np = notices_prefix(s0);
                        assert(notices_prefix(sc) == (Seq::<Seq<u8>>::empty(), 0int));
                        assert(np.0 =~= delivered);
                        assert(self.notices() =~= old(self).notices() + np.0);
                        crate::protocol::backend_message::lemma_skip_skip(
                            s0,
                            consumed,
                            frame_size(sc),
                        );
                    }
                    return Err(Error::BackendMessageParse);
                },
                Some(msg) => {
                    match msg {
                        BackendMessage::NoticeResponse { fields } => {
                            let ghost delivered0 = delivered;
                            let ghost consumed0 = consumed;
                            proof {
                                crate::protocol::backend_message::lemma_skip_skip(s0, consumed0, f);
                                assert(receive_steps(sc) == match receive_steps(sc.skip(f)) {
                                    Some(st) => Some(ReceiveSteps {
                                        notices: seq![fields@] + st.notices,
                                        message: st.message,
                                        used: f + st.used,
                                    }),
                                    None => None::<ReceiveSteps>,
                                });
                                delivered = delivered0.push(fields@);
                                consumed = consumed0 + f;
                            }
                            self.on_notice.on_notice(&fields);
                            proof {
                                assert(self.notices() =~= old(self).notices() + delivered);
                                match receive_steps(r.readable()) {
                                    Some(st2) => {
                                        assert(delivered + st2.notices =~= delivered0 + (seq![
                                            fields@
                                        ] + st2.notices));
                                    },
                                    None => {},
                                }
                                assert(notices_prefix(sc) == (
                                    seq![fields@] + notices_prefix(r.readable()).0,
                                    f + notices_prefix(r.readable()).1,
                                ));
                                assert(delivered + notices_prefix(r.readable()).0 =~= delivered0
                                    + (seq![fields@] + notices_prefix(r.readable()).0));
                            }
                        },
                        other => {
                            proof {
                                assert(receive_steps(sc) == Some(ReceiveSteps {
                                    notices: Seq::<Seq<u8>>::empty(),
                                    message: other@,
                                    used: f,
                                }));
                                match receive_steps(s0) {
                                    Some(st) => {
                                        assert(st.notices =~= delivered);
                                    },
                                    None => {},
                                }
                            }
                            return Ok(other);
                        },
                    }
                },
            }
        }
    }
}

/// A successful receive consumes at least one frame and no more than
/// the whole stream.
pub proof fn lemma_receive_steps_used(s: Seq<u8>)
    ensures
        match receive_steps(s) {
            Some(st) => 5 <= st.used <= s.len(),
            None => true,
        },
    decreases s.len(),
{
    if frame_ok(s) {
        let frame = s.take(frame_size(s));
        match spec_parse(frame) {
            Some(m) => match m {
                BackendMessageModel::NoticeResponse { fields } => {
                    lemma_receive_steps_used(s.skip(frame_size(s)));
                },
                _ => {},
            },
            None => {},
        }
    }
}

/// Synchronously read one backend message frame from a stream.
///
/// The provided buffer is replaced with the entire frame; reusing the
/// buffer across reads reduces the number of allocations.  If reading
/// fails, the contents of the buffer are unspecified.
pub fn read_backend_message<R: Stream>(r: &mut R, buf: &mut Vec<u8>) -> (res: Result<(), Error>)
    ensures
        final(r).written() == old(r).written(),
        final(r).reliable() == old(r).reliable(),
        old(r).reliable() && frame_ok(old(r).readable()) ==> res is Ok,
        (old(r).reliable() && old(r).readable().len() >= 5
            && crate::protocol::backend_message::be32_at(old(r).readable(), 1) < 4) ==> (
        res matches Err(Error::FramingLengthTooSmall)),
        match res {
            Ok(()) => {
                &&& frame_ok(old(r).readable())
                &&& final(buf)@ == old(r).readable().take(frame_size(old(r).readable()))
                &&& final(r).readable() == old(r).readable().skip(frame_size(old(r).readable()))
            },
            Err(e) => {
                ||| {
                    &&& (e matches Error::Io(_))
                    &&& old(r).reliable() ==> (e matches Error::Io(
                        crate::error::IoErrorKind::UnexpectedEof,
                    ))
                }
                ||| {
                    &&& (e matches Error::FramingLengthTooSmall)
                    &&& old(r).readable().len() >= 5
                    &&& crate::protocol::backend_message::be32_at(old(r).readable(), 1) < 4
                    &&& final(r).readable() == old(r).readable().skip(5)
                }
            },
        },
{
    crate::protocol::read_backend_message::read_backend_message(r, buf)
}

} // verus!
