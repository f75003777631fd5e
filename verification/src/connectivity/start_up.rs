//! Initiating a database connection on a connected stream.

use vstd::prelude::*;
use crate::capabilities::Md5;
use crate::connectivity::Stream;
use crate::error::Error;
use crate::error::IoErrorKind;
use crate::protocol::backend_message::ErrorNoticeField;
use crate::protocol::backend_message::error_notice_items;
use crate::protocol::backend_message::field_views;
use crate::protocol::backend_message::opt_bytes_view;
use crate::protocol::receiver::NoticeSink;
use crate::protocol::receiver::Receiver;
use crate::protocol::startup::ParamMap;
use crate::protocol::startup::assoc_map;
use crate::protocol::startup::AuthOutcome;
use crate::protocol::startup::InfoOutcome;
use crate::protocol::startup::auth_outcome;
use crate::protocol::startup::build_startup_message_params;
use crate::protocol::startup::bytes_to_vec;
use crate::protocol::startup::bytes_eq;
use crate::protocol::startup::handle_authentication;
use crate::protocol::startup::handle_info;
use crate::protocol::startup::info_outcome;
use crate::protocol::startup::initial_start_up_model;
use crate::protocol::startup::lemma_assoc_map_absent;
use crate::protocol::startup::lemma_assoc_map_found;
use crate::protocol::startup::lemma_auth_outcome_used;
use crate::protocol::startup::lemma_info_outcome_used;
use crate::protocol::startup::startup_broken;
use crate::protocol::startup::pair_views;
use crate::protocol::startup::params_bytes;
use crate::protocol::startup::params_have_nul;
use crate::protocol::startup::startup_message_bytes;
use crate::protocol::startup::user_param_name;

verus! {

/// Information discovered during the start-up flow.
pub struct StartUpInfo {
    /// The reported parameter statuses, last report winning.
    pub parameter_statuses: ParamMap,
    /// The process id of the backend, from `BackendKeyData`.
    pub backend_process_id: u32,
    /// The secret key of the backend, from `BackendKeyData`.
    pub backend_secret_key: u32,
    /// The status byte of the closing `ReadyForQuery`.
    pub transaction_status_indicator: u8,
}

/// Error returned by [`start_up`].
#[derive(Clone, Debug)]
pub enum StartUpError {
    /// A read or write on the stream failed.
    Io(IoErrorKind),
    /// A parameter name or value contained an interior nul byte.
    Nul,
    /// A backend message could not be decoded.
    BackendMessageParse,
    /// The declared frame length of a backend message was below 4.
    FramingLengthTooSmall,
    /// Received an unexpected backend message.
    UnexpectedBackendMessage,
    /// The server demanded an authentication method that the
    /// available capabilities cannot satisfy.
    AuthenticationUnsupported,
    /// The server sent `ErrorResponse` during authentication.
    AuthenticationFailed(Vec<ErrorNoticeField>),
    /// The server sent `ErrorResponse` during parameter collection.
    StartUpFailed(Vec<ErrorNoticeField>),
}

// SSL-related variants of `Error` cannot arise from the start-up
// flow, so the catch-all reports them as an I/O failure.
fn map_error(e: Error) -> (r: StartUpError)
    ensures
        (e matches Error::Nul) <==> (r matches StartUpError::Nul),
        match e {
            Error::Io(k) => r == StartUpError::Io(k),
            Error::BackendMessageParse => r == StartUpError::BackendMessageParse,
            Error::FramingLengthTooSmall => r == StartUpError::FramingLengthTooSmall,
            Error::BackendMessageUnexpected => r == StartUpError::UnexpectedBackendMessage,
            Error::AuthenticationUnsupported => r == StartUpError::AuthenticationUnsupported,
            Error::AuthenticationFailed(f) => (r matches StartUpError::AuthenticationFailed(g)
                && g == f),
            Error::StartupFailed(f) => (r matches StartUpError::StartUpFailed(g) && g == f),
            _ => true,
        },
{
    match e {
        Error::Io(kind) => StartUpError::Io(kind),
        Error::Nul => StartUpError::Nul,
        Error::BackendMessageParse => StartUpError::BackendMessageParse,
        Error::FramingLengthTooSmall => StartUpError::FramingLengthTooSmall,
        Error::BackendMessageUnexpected => StartUpError::UnexpectedBackendMessage,
        Error::AuthenticationUnsupported => StartUpError::AuthenticationUnsupported,
        Error::AuthenticationFailed(fields) => StartUpError::AuthenticationFailed(fields),
        Error::StartupFailed(fields) => StartUpError::StartUpFailed(fields),
        _ => StartUpError::Io(IoErrorKind::Other),
    }
}

/// The value of the last `user` parameter, or empty if none is given.
pub open spec fn user_of_params(params: Seq<(Seq<u8>, Seq<u8>)>) -> Seq<u8> {
    if assoc_map(params).contains_key(user_param_name()) {
        assoc_map(params)[user_param_name()]
    } else {
        Seq::empty()
    }
}

/// Copy the value of the last `user` parameter, or empty if none.
fn find_user(params: &Vec<(Vec<u8>, Vec<u8>)>) -> (r: Vec<u8>)
    ensures
        r@ == user_of_params(pair_views(params@)),
{
    let mut name: Vec<u8> = Vec::new();
    name.push(117);
    name.push(115);
    name.push(101);
    name.push(114);
    proof {
        assert(name@ =~= user_param_name());
    }
    let ghost s = pair_views(params@);
    let mut i: usize = params.len();
    while i > 0
        invariant
            i <= params@.len(),
            s == pair_views(params@),
            name@ == user_param_name(),
            forall|k: int| i <= k < s.len() ==> s[k].0 != user_param_name(),
        decreases i,
    {
        i = i - 1;
        if bytes_eq(params[i].0.as_slice(), name.as_slice()) {
            proof {
                assert(s[i as int].0 == user_param_name());
                lemma_assoc_map_found(s, user_param_name(), i as int);
            }
            return bytes_to_vec(params[i].1.as_slice());
        }
    }
    proof {
        lemma_assoc_map_absent(s, user_param_name());
    }
    Vec::new()
}

/// Initiate a database connection given a stream.
///
/// This function performs the start-up flow.  No data must be sent on
/// the stream prior to calling it.  The `parameters` argument
/// specifies the `StartupMessage` parameters, `user` at minimum and
/// commonly `database`; the password is consumed only if the server
/// demands password authentication, with the `md5` capability solving
/// `md5` challenges.
pub fn start_up<M: Md5, N: NoticeSink, S: Stream>(
    receiver: &mut Receiver<N>,
    stream: &mut S,
    parameters: &Vec<(Vec<u8>, Vec<u8>)>,
    password: &Option<Vec<u8>>,
    md5: &M,
) -> (r: Result<StartUpInfo, StartUpError>)
    requires
        params_bytes(pair_views(parameters@)).len() + 9 <= 0xFFFF_FFFF,
        match *password {
            Some(p) => p@.len() + 5 <= 0xFFFF_FFFF,
            None => true,
        },
    ensures
        final(stream).reliable() == old(stream).reliable(),
        (old(stream).reliable() && !params_have_nul(pair_views(parameters@)) && match auth_outcome(
            old(stream).readable(),
            user_of_params(pair_views(parameters@)),
            opt_bytes_view(*password),
            md5.available(),
        ) {
            AuthOutcome::Established { writes, used } => info_outcome(
                old(stream).readable().skip(used),
                initial_start_up_model(),
            ) matches InfoOutcome::Ready { .. },
            _ => false,
        }) ==> r is Ok,
        match r {
            Ok(info) => {
                &&& !params_have_nul(pair_views(parameters@))
                &&& match auth_outcome(
                    old(stream).readable(),
                    user_of_params(pair_views(parameters@)),
                    opt_bytes_view(*password),
                    md5.available(),
                ) {
                    AuthOutcome::Established { writes, used } => match info_outcome(
                        old(stream).readable().skip(used),
                        initial_start_up_model(),
                    ) {
                        InfoOutcome::Ready { model, status, used: info_used } => {
                            &&& final(stream).written() == old(stream).written()
                                + startup_message_bytes(pair_views(parameters@)) + writes
                            &&& final(stream).readable() == old(stream).readable().skip(
                                used + info_used,
                            )
                            &&& info.parameter_statuses@ == model.parameter_statuses
                            &&& info.backend_process_id == model.backend_process_id
                            &&& info.backend_secret_key == model.backend_secret_key
                            &&& info.transaction_status_indicator == status
                        },
                        _ => false,
                    },
                    _ => false,
                }
            },
            Err(e) => match e {
                StartUpError::Nul => {
                    ||| params_have_nul(pair_views(parameters@))
                    ||| (auth_outcome(
                        old(stream).readable(),
                        user_of_params(pair_views(parameters@)),
                        opt_bytes_view(*password),
                        md5.available(),
                    ) matches AuthOutcome::NulPassword { .. })
                },
                StartUpError::AuthenticationFailed(f) => match auth_outcome(
                    old(stream).readable(),
                    user_of_params(pair_views(parameters@)),
                    opt_bytes_view(*password),
                    md5.available(),
                ) {
                    AuthOutcome::Failed { fields, .. } => field_views(f@) == error_notice_items(
                        fields,
                    ),
                    _ => false,
                },
                StartUpError::AuthenticationUnsupported => auth_outcome(
                    old(stream).readable(),
                    user_of_params(pair_views(parameters@)),
                    opt_bytes_view(*password),
                    md5.available(),
                ) matches AuthOutcome::Unsupported { .. },
                StartUpError::UnexpectedBackendMessage => match auth_outcome(
                    old(stream).readable(),
                    user_of_params(pair_views(parameters@)),
                    opt_bytes_view(*password),
                    md5.available(),
                ) {
                    AuthOutcome::Unexpected { .. } => true,
                    AuthOutcome::Established { writes, used } => info_outcome(
                        old(stream).readable().skip(used),
                        initial_start_up_model(),
                    ) matches InfoOutcome::Unexpected { .. },
                    _ => false,
                },
                StartUpError::StartUpFailed(f) => match auth_outcome(
                    old(stream).readable(),
                    user_of_params(pair_views(parameters@)),
                    opt_bytes_view(*password),
                    md5.available(),
                ) {
                    AuthOutcome::Established { writes, used } => match info_outcome(
                        old(stream).readable().skip(used),
                        initial_start_up_model(),
                    ) {
                        InfoOutcome::Failed { fields, .. } => field_views(f@)
                            == error_notice_items(fields),
                        _ => false,
                    },
                    _ => false,
                },
                StartUpError::Io(k) => old(stream).reliable() ==> (k
                    == IoErrorKind::UnexpectedEof && startup_broken(
                    old(stream).readable(),
                    user_of_params(pair_views(parameters@)),
                    opt_bytes_view(*password),
                    md5.available(),
                )),
                StartUpError::FramingLengthTooSmall => startup_broken(
                    old(stream).readable(),
                    user_of_params(pair_views(parameters@)),
                    opt_bytes_view(*password),
                    md5.available(),
                ),
                StartUpError::BackendMessageParse => startup_broken(
                    old(stream).readable(),
                    user_of_params(pair_views(parameters@)),
                    opt_bytes_view(*password),
                    md5.available(),
                ),
            },
        },
{
    let startup_message = match build_startup_message_params(parameters) {
        Ok(m) => m,
        Err(e) => {
            return Err(map_error(e));
        },
    };
    match stream.write_all(startup_message.as_slice()) {
        Ok(()) => {},
        Err(e) => {
            return Err(map_error(e));
        },
    }
    let user = find_user(parameters);
    let ghost s0 = stream.readable();
    match handle_authentication(md5, receiver, stream, user.as_slice(), password) {
        Ok(()) => {},
        Err(e) => {
            return Err(map_error(e));
        },
    }
    let ghost a_writes = match auth_outcome(
        s0,
        user_of_params(pair_views(parameters@)),
        opt_bytes_view(*password),
        md5.available(),
    ) {
        AuthOutcome::Established { writes, used } => writes,
        _ => Seq::empty(),
    };
    let ghost a_used = match auth_outcome(
        s0,
        user_of_params(pair_views(parameters@)),
        opt_bytes_view(*password),
        md5.available(),
    ) {
        AuthOutcome::Established { writes, used } => used,
        _ => 0int,
    };
    let info = match handle_info(receiver, stream) {
        Ok(i) => i,
        Err(e) => {
            return Err(map_error(e));
        },
    };
    proof {
        lemma_auth_outcome_used(
            s0,
            user_of_params(pair_views(parameters@)),
            opt_bytes_view(*password),
            md5.available(),
        );
        lemma_info_outcome_used(s0.skip(a_used), initial_start_up_model());
        let i_used = match info_outcome(s0.skip(a_used), initial_start_up_model()) {
            InfoOutcome::Ready { model, status, used } => used,
            _ => 0int,
        };
        crate::protocol::backend_message::lemma_skip_skip(s0, a_used, i_used);
        assert(stream.written() =~= old(stream).written() + startup_message_bytes(
            pair_views(parameters@),
        ) + a_writes);
    }
    let r = StartUpInfo {
        parameter_statuses: info.parameter_statuses,
        backend_process_id: info.backend_process_id,
        backend_secret_key: info.backend_secret_key,
        transaction_status_indicator: info.transaction_status_indicator,
    };
    Ok(r)
}

} // verus!
