//! The start-up flow: `StartupMessage`, the authentication dialogue,
//! and parameter collection until `ReadyForQuery`.

use vstd::prelude::*;
use crate::capabilities::Md5;
use crate::capabilities::md5_md5::md5_of;
use crate::connectivity::Stream;
use crate::error::Error;
use crate::protocol::backend_message::BackendMessage;
use crate::protocol::backend_message::BackendMessageModel;
use crate::protocol::backend_message::error_notice_items;
use crate::protocol::backend_message::field_views;
use crate::protocol::backend_message::lemma_skip_skip;
use crate::protocol::backend_message::opt_bytes_view;
use crate::protocol::frontend_message::has_nul;
use crate::protocol::frontend_message::patch_int32_u32;
use crate::protocol::frontend_message::u32_be_bytes;
use crate::protocol::frontend_message::write_int32_u32;
use crate::protocol::frontend_message::write_string_slice;
use crate::protocol::receiver::NoticeSink;
use crate::protocol::receiver::Receiver;
use crate::protocol::receiver::ReceiveSteps;
use crate::protocol::receiver::lemma_receive_steps_used;
use crate::protocol::receiver::receive_steps;

verus! {

/* --------------------------- Parameter statuses --------------------------- */

/// The views of a sequence of owned name/value pairs.
pub open spec fn pair_views(s: Seq<(Vec<u8>, Vec<u8>)>) -> Seq<(Seq<u8>, Seq<u8>)> {
    s.map_values(|p: (Vec<u8>, Vec<u8>)| (p.0@, p.1@))
}

/// The mapping that a sequence of name/value updates builds up; a
/// later update to the same name wins.
pub open spec fn assoc_map(s: Seq<(Seq<u8>, Seq<u8>)>) -> Map<Seq<u8>, Seq<u8>>
    decreases s.len(),
{
    if s.len() == 0 {
        Map::empty()
    } else {
        assoc_map(s.drop_last()).insert(s.last().0, s.last().1)
    }
}

pub proof fn lemma_assoc_map_found(s: Seq<(Seq<u8>, Seq<u8>)>, name: Seq<u8>, j: int)
    requires
        0 <= j < s.len(),
        s[j].0 == name,
        forall|k: int| j < k < s.len() ==> s[k].0 != name,
    ensures
        assoc_map(s).contains_key(name),
        assoc_map(s)[name] == s[j].1,
    decreases s.len(),
{
    if j == s.len() - 1 {
    } else {
        assert(s.drop_last()[j] == s[j]);
        assert forall|k: int| j < k < s.drop_last().len() implies s.drop_last()[k].0 != name by {
            assert(s.drop_last()[k] == s[k]);
        }
        lemma_assoc_map_found(s.drop_last(), name, j);
    }
}

pub proof fn lemma_assoc_map_absent(s: Seq<(Seq<u8>, Seq<u8>)>, name: Seq<u8>)
    requires
        forall|k: int| 0 <= k < s.len() ==> s[k].0 != name,
    ensures
        !assoc_map(s).contains_key(name),
    decreases s.len(),
{
    if s.len() > 0 {
        assert forall|k: int| 0 <= k < s.drop_last().len() implies s.drop_last()[k].0 != name by {
            assert(s.drop_last()[k] == s[k]);
        }
        lemma_assoc_map_absent(s.drop_last(), name);
    }
}

/// Owned mapping from parameter name to its current value.
///
/// Updates are recorded in arrival order; a later update to the same
/// name shadows the earlier one for lookups.
#[derive(Debug)]
pub struct ParamMap {
    entries: Vec<(Vec<u8>, Vec<u8>)>,
}

impl View for ParamMap {
    type V = Map<Seq<u8>, Seq<u8>>;

    /// The mapping from names to current values.
    closed spec fn view(&self) -> Map<Seq<u8>, Seq<u8>> {
        assoc_map(pair_views(self.entries@))
    }
}

/// True if `a` and `b` hold the same bytes.
pub fn bytes_eq(a: &[u8], b: &[u8]) -> (r: bool)
    ensures
        r == (a@ == b@),
{
    if a.len() != b.len() {
        return false;
    }
    let mut i: usize = 0;
    while i < a.len()
        invariant
            0 <= i <= a@.len(),
            a@.len() == b@.len(),
            forall|k: int| 0 <= k < i ==> a@[k] == b@[k],
        decreases a@.len() - i,
    {
        if a[i] != b[i] {
            return false;
        }
        i = i + 1;
    }
    proof {
        assert(a@ =~= b@);
    }
    true
}

impl ParamMap {
    /// An empty mapping.
    pub fn new() -> (r: Self)
        ensures
            r@ == Map::<Seq<u8>, Seq<u8>>::empty(),
    {
        let r = ParamMap { entries: Vec::new() };
        proof {
            assert(pair_views(r.entries@) =~= Seq::<(Seq<u8>, Seq<u8>)>::empty());
        }
        r
    }

    /// Record an update; a later update to the same name wins.
    pub fn insert(&mut self, name: Vec<u8>, value: Vec<u8>)
        ensures
            final(self)@ == old(self)@.insert(name@, value@),
    {
        self.entries.push((name, value));
        proof {
            assert(pair_views(self.entries@).drop_last() =~= pair_views(old(self).entries@));
            assert(pair_views(self.entries@).last() == (name@, value@));
            assert(pair_views(self.entries@).len() == pair_views(old(self).entries@).len() + 1);
        }
    }

    /// Look up the current value recorded for a name.
    pub fn get(&self, name: &[u8]) -> (r: Option<&Vec<u8>>)
        ensures
            match r {
                Some(v) => self@.contains_key(name@) && v@ == self@[name@],
                None => !self@.contains_key(name@),
            },
    {
        let ghost s = pair_views(self.entries@);
        let mut i: usize = self.entries.len();
        while i > 0
            invariant
                i <= self.entries@.len(),
                s == pair_views(self.entries@),
                forall|k: int| i <= k < s.len() ==> s[k].0 != name@,
            decreases i,
        {
            i = i - 1;
            if bytes_eq(self.entries[i].0.as_slice(), name) {
                proof {
                    assert(s[i as int].0 == name@);
                    lemma_assoc_map_found(s, name@, i as int);
                }
                return Some(&self.entries[i].1);
            }
        }
        proof {
            lemma_assoc_map_absent(s, name@);
        }
        None
    }
}

/* ------------------------------ Hex encoding ------------------------------ */

/// A lower-case hex digit byte for a value below 16.
pub open spec fn hex_digit(d: u8) -> u8 {
    if d < 10 {
        (48 + d) as u8
    } else {
        (87 + d) as u8
    }
}

/// Lower-case hex encoding of a byte sequence, two digits per byte.
pub open spec fn hex_of(s: Seq<u8>) -> Seq<u8>
    decreases s.len(),
{
    if s.len() == 0 {
        Seq::empty()
    } else {
        seq![hex_digit(s[0] / 16), hex_digit(s[0] % 16)] + hex_of(s.skip(1))
    }
}

/// A hex encoding is twice as long as its input.
pub proof fn lemma_hex_len(s: Seq<u8>)
    ensures
        hex_of(s).len() == 2 * s.len(),
    decreases s.len(),
{
    if s.len() > 0 {
        lemma_hex_len(s.skip(1));
    }
}

/// A hex encoding never contains a nul byte.
pub proof fn lemma_hex_no_nul(s: Seq<u8>)
    ensures
        !has_nul(hex_of(s)),
    decreases s.len(),
{
    if s.len() == 0 {
    } else {
        lemma_hex_no_nul(s.skip(1));
        assert forall|i: int| 0 <= i < hex_of(s).len() implies hex_of(s)[i] != 0 by {
            if i >= 2 {
                assert(hex_of(s)[i] == hex_of(s.skip(1))[i - 2]);
                assert(!(exists|k: int|
                    0 <= k < hex_of(s.skip(1)).len() && hex_of(s.skip(1))[k] == 0));
            }
        }
    }
}

/// Encode bytes as lower-case hex.
#[verifier::loop_isolation(false)]
pub fn hex_lower(data: &[u8]) -> (r: Vec<u8>)
    ensures
        r@ == hex_of(data@),
{
    let mut r: Vec<u8> = Vec::new();
    let mut i: usize = 0;
    proof {
        assert(data@.skip(0) =~= data@);
    }
    while i < data.len()
        invariant
            0 <= i <= data@.len(),
            hex_of(data@) == r@ + hex_of(data@.skip(i as int)),
        decreases data@.len() - i,
    {
        let b: u8 = data[i];
        let hi: u8 = b / 16;
        let lo: u8 = b % 16;
        r.push(if hi < 10 { 48 + hi } else { 87 + hi });
        r.push(if lo < 10 { 48 + lo } else { 87 + lo });
        proof {
            assert(data@.skip(i as int)[0] == data@[i as int]);
            assert(data@.skip(i as int).skip(1) =~= data@.skip(i + 1));
            assert(hex_of(data@) =~= r@ + hex_of(data@.skip(i + 1)));
        }
        i = i + 1;
    }
    proof {
        assert(hex_of(data@.skip(i as int)) =~= Seq::<u8>::empty());
        assert(r@ =~= hex_of(data@));
    }
    r
}

/* --------------------------- Frontend messages ---------------------------- */

/// The payload of the `md5` password answer:
/// `md5` + hex(md5(hex(md5(password + user)) + salt)), hex lower-case.
pub open spec fn md5_password_payload(password: Seq<u8>, user: Seq<u8>, salt: Seq<u8>) -> Seq<u8> {
    seq![109u8, 100u8, 53u8] + hex_of(md5_of(hex_of(md5_of(password + user)) + salt))
}

/// The framed frontend password message: tag `p`, the length counting
/// itself, and the nul-terminated payload.
pub open spec fn password_message_bytes(payload: Seq<u8>) -> Seq<u8> {
    seq![112u8] + u32_be_bytes((payload.len() + 5) as u32) + payload + seq![0u8]
}

/// Build the frontend password message for a given payload.
pub fn build_password_message(payload: &[u8]) -> (r: Result<Vec<u8>, Error>)
    requires
        payload@.len() + 5 <= 0xFFFF_FFFF,
    ensures
        match r {
            Ok(v) => !has_nul(payload@) && v@ == password_message_bytes(payload@),
            Err(e) => (e matches Error::Nul) && has_nul(payload@),
        },
{
    let mut buf: Vec<u8> = Vec::new();
    buf.push(112);
    write_int32_u32(&mut buf, (payload.len() as u32) + 5);
    match write_string_slice(&mut buf, payload) {
        Ok(()) => {},
        Err(e) => {
            return Err(e);
        },
    }
    proof {
        assert(buf@ =~= password_message_bytes(payload@));
    }
    Ok(buf)
}

/// The bytes of the `name\0value\0` pair list of `StartupMessage`.
pub open spec fn params_bytes(params: Seq<(Seq<u8>, Seq<u8>)>) -> Seq<u8>
    decreases params.len(),
{
    if params.len() == 0 {
        Seq::empty()
    } else {
        params_bytes(params.drop_last()) + params.last().0 + seq![0u8] + params.last().1 + seq![
            0u8
        ]
    }
}

/// True if any name or value among `params` contains a nul byte.
pub open spec fn params_have_nul(params: Seq<(Seq<u8>, Seq<u8>)>) -> bool {
    exists|i: int| 0 <= i < params.len() && (has_nul(params[i].0) || has_nul(params[i].1))
}

/// The complete `StartupMessage`: total length, protocol version
/// 196608, the parameter pairs, and a zero terminator.
pub open spec fn startup_message_bytes(params: Seq<(Seq<u8>, Seq<u8>)>) -> Seq<u8> {
    let tail = u32_be_bytes(196608) + params_bytes(params) + seq![0u8];
    u32_be_bytes((tail.len() + 4) as u32) + tail
}

/// Build the `StartupMessage` frame for the given parameter pairs.
#[verifier::loop_isolation(false)]
pub fn build_startup_message_params(params: &Vec<(Vec<u8>, Vec<u8>)>) -> (r: Result<
    Vec<u8>,
    Error,
>)
    requires
        params_bytes(pair_views(params@)).len() + 9 <= 0xFFFF_FFFF,
    ensures
        match r {
            Ok(v) => {
                &&& !params_have_nul(pair_views(params@))
                &&& v@ == startup_message_bytes(pair_views(params@))
            },
            Err(e) => (e matches Error::Nul) && params_have_nul(pair_views(params@)),
        },
{
    let ghost ps = pair_views(params@);
    let mut buf: Vec<u8> = Vec::new();
    buf.push(0);
    buf.push(0);
    buf.push(0);
    buf.push(0);
    write_int32_u32(&mut buf, 196608);
    let ghost header = seq![0u8, 0u8, 0u8, 0u8] + u32_be_bytes(196608);
    proof {
        assert(buf@ =~= header + params_bytes(ps.take(0)));
    }
    let mut i: usize = 0;
    while i < params.len()
        invariant
            0 <= i <= params@.len(),
            buf@ == header + params_bytes(ps.take(i as int)),
            forall|k: int| 0 <= k < i ==> !has_nul(ps[k].0) && !has_nul(ps[k].1),
        decreases params@.len() - i,
    {
        match write_string_slice(&mut buf, params[i].0.as_slice()) {
            Ok(()) => {},
            Err(e) => {
                proof {
                    assert(has_nul(ps[i as int].0));
                }
                return Err(e);
            },
        }
        match write_string_slice(&mut buf, params[i].1.as_slice()) {
            Ok(()) => {},
            Err(e) => {
                proof {
                    assert(has_nul(ps[i as int].1));
                }
                return Err(e);
            },
        }
        proof {
            assert(ps.take(i + 1).drop_last() =~= ps.take(i as int));
            assert(ps.take(i + 1).last() == ps[i as int]);
            assert(buf@ =~= header + params_bytes(ps.take(i + 1)));
        }
        i = i + 1;
    }
    proof {
        assert(ps.take(i as int) =~= ps);
    }
    buf.push(0);
    let total: u32 = buf.len() as u32;
    patch_int32_u32(&mut buf, 0, total);
    proof {
        assert(buf@ =~= startup_message_bytes(ps));
    }
    Ok(buf)
}

/// The byte string `user`.
pub open spec fn user_param_name() -> Seq<u8> {
    seq![117u8, 115u8, 101u8, 114u8]
}

/// The byte string `database`.
pub open spec fn database_param_name() -> Seq<u8> {
    seq![100u8, 97u8, 116u8, 97u8, 98u8, 97u8, 115u8, 101u8]
}

/// The two standard `StartupMessage` parameters.
pub open spec fn user_database_params(user: Seq<u8>, database: Seq<u8>) -> Seq<
    (Seq<u8>, Seq<u8>),
> {
    seq![(user_param_name(), user), (database_param_name(), database)]
}

/// Copy a byte slice into an owned vector.
pub fn bytes_to_vec(data: &[u8]) -> (r: Vec<u8>)
    ensures
        r@ == data@,
{
    let r = crate::protocol::backend_message::copy_range(data, 0, data.len());
    proof {
        assert(r@ =~= data@);
    }
    r
}

/// Build the `StartupMessage` frame carrying `user` and `database`.
pub fn build_startup_message(user: &[u8], database: &[u8]) -> (r: Result<Vec<u8>, Error>)
    requires
        user@.len() + database@.len() + 64 <= 0xFFFF_FFFF,
    ensures
        match r {
            Ok(v) => {
                &&& !has_nul(user@)
                &&& !has_nul(database@)
                &&& v@ == startup_message_bytes(user_database_params(user@, database@))
            },
            Err(e) => (e matches Error::Nul) && (has_nul(user@) || has_nul(database@)),
        },
{
    let mut name_user: Vec<u8> = Vec::new();
    name_user.push(117);
    name_user.push(115);
    name_user.push(101);
    name_user.push(114);
    let mut name_database: Vec<u8> = Vec::new();
    name_database.push(100);
    name_database.push(97);
    name_database.push(116);
    name_database.push(97);
    name_database.push(98);
    name_database.push(97);
    name_database.push(115);
    name_database.push(101);
    proof {
        assert(name_user@ =~= user_param_name());
        assert(name_database@ =~= database_param_name());
    }
    let user_vec = bytes_to_vec(user);
    let database_vec = bytes_to_vec(database);
    let mut params: Vec<(Vec<u8>, Vec<u8>)> = Vec::new();
    params.push((name_user, user_vec));
    params.push((name_database, database_vec));
    let ghost ps = pair_views(params@);
    proof {
        assert(ps[0] == (params@[0].0@, params@[0].1@));
        assert(ps[1] == (params@[1].0@, params@[1].1@));
        assert(ps =~= user_database_params(user@, database@));
        let dl = ps.drop_last();
        assert(dl.len() == 1);
        assert(dl[0] == ps[0]);
        assert(dl.last() == (user_param_name(), user@));
        assert(dl.drop_last().len() == 0);
        assert(params_bytes(dl.drop_last()) =~= Seq::<u8>::empty());
        assert(params_bytes(dl).len() == user_param_name().len() + 1 + user@.len() + 1);
        assert(ps.last() == (database_param_name(), database@));
        assert(params_bytes(ps).len() == params_bytes(dl).len() + database_param_name().len()
            + 1 + database@.len() + 1);
    }
    let r = build_startup_message_params(&params);
    proof {
        assert(!has_nul(user_param_name())) by {
            assert forall|k: int|
                0 <= k < user_param_name().len() implies user_param_name()[k] != 0 by {}
        }
        assert(!has_nul(database_param_name())) by {
            assert forall|k: int|
                0 <= k < database_param_name().len() implies database_param_name()[k] != 0 by {}
        }
        if params_have_nul(ps) {
            let i = choose|i: int|
                0 <= i < ps.len() && (has_nul(ps[i].0) || has_nul(ps[i].1));
            assert(i == 0 || i == 1);
            assert(has_nul(user@) || has_nul(database@));
        }
    }
    match r {
        Ok(v) => Ok(v),
        Err(e) => Err(e),
    }
}

/* ------------------------- Authentication dialogue ------------------------ */

/// Terminal of the authentication dialogue on a given stream, with
/// the password frames written on the way and the bytes consumed,
/// including the terminal message's own frame.
pub enum AuthOutcome {
    /// `AuthenticationOk` ended the dialogue.
    Established { writes: Seq<u8>, used: int },
    /// The server sent `ErrorResponse` with the given field list.
    Failed { fields: Seq<u8>, writes: Seq<u8>, used: int },
    /// A challenge arrived that the supplied password or the
    /// available capabilities cannot answer.
    Unsupported { writes: Seq<u8>, used: int },
    /// A cleartext challenge arrived, but the password contains an
    /// interior nul byte and cannot be serialized.
    NulPassword { writes: Seq<u8>, used: int },
    /// A message with no place in the authentication dialogue.
    Unexpected { writes: Seq<u8>, used: int },
    /// The stream cannot yield another message: a frame is truncated,
    /// under-long, or undecodable.
    Broken,
}

/// `rest`, with `w` more bytes written and `u` more bytes consumed
/// before it.
pub open spec fn auth_prepend(w: Seq<u8>, u: int, rest: AuthOutcome) -> AuthOutcome {
    match rest {
        AuthOutcome::Established { writes, used } => AuthOutcome::Established {
            writes: w + writes,
            used: u + used,
        },
        AuthOutcome::Failed { fields, writes, used } => AuthOutcome::Failed {
            fields,
            writes: w + writes,
            used: u + used,
        },
        AuthOutcome::Unsupported { writes, used } => AuthOutcome::Unsupported {
            writes: w + writes,
            used: u + used,
        },
        AuthOutcome::NulPassword { writes, used } => AuthOutcome::NulPassword {
            writes: w + writes,
            used: u + used,
        },
        AuthOutcome::Unexpected { writes, used } => AuthOutcome::Unexpected {
            writes: w + writes,
            used: u + used,
        },
        AuthOutcome::Broken => AuthOutcome::Broken,
    }
}

/// Outcome of the authentication dialogue on a stream that will
/// deliver `s`: `AuthenticationOk` establishes the session; cleartext
/// and `md5` challenges are answered when the password (and, for
/// `md5`, the capability) allows, and `NegotiateProtocolVersion` is
/// read past; every other message ends the dialogue with the terminal
/// that names it.
pub open spec fn auth_outcome(
    s: Seq<u8>,
    user: Seq<u8>,
    password: Option<Seq<u8>>,
    md5_available: bool,
) -> AuthOutcome
    decreases s.len(),
    via auth_outcome_decreases
{
    match receive_steps(s) {
        None => AuthOutcome::Broken,
        Some(st) => match st.message {
            BackendMessageModel::AuthenticationOk => AuthOutcome::Established {
                writes: Seq::empty(),
                used: st.used,
            },
            BackendMessageModel::AuthenticationCleartextPassword => match password {
                Some(p) => if has_nul(p) {
                    AuthOutcome::NulPassword { writes: Seq::empty(), used: st.used }
                } else {
                    auth_prepend(
                        password_message_bytes(p),
                        st.used,
                        auth_outcome(s.skip(st.used), user, password, md5_available),
                    )
                },
                None => AuthOutcome::Unsupported { writes: Seq::empty(), used: st.used },
            },
            BackendMessageModel::AuthenticationMD5Password { salt } => match password {
                Some(p) => if md5_available {
                    auth_prepend(
                        password_message_bytes(md5_password_payload(p, user, salt)),
                        st.used,
                        auth_outcome(s.skip(st.used), user, password, md5_available),
                    )
                } else {
                    AuthOutcome::Unsupported { writes: Seq::empty(), used: st.used }
                },
                None => AuthOutcome::Unsupported { writes: Seq::empty(), used: st.used },
            },
            BackendMessageModel::AuthenticationKerberosV5 => AuthOutcome::Unsupported {
                writes: Seq::empty(),
                used: st.used,
            },
            BackendMessageModel::AuthenticationSCMCredential => AuthOutcome::Unsupported {
                writes: Seq::empty(),
                used: st.used,
            },
            BackendMessageModel::AuthenticationGSS => AuthOutcome::Unsupported {
                writes: Seq::empty(),
                used: st.used,
            },
            BackendMessageModel::AuthenticationGSSContinue { .. } => AuthOutcome::Unsupported {
                writes: Seq::empty(),
                used: st.used,
            },
            BackendMessageModel::AuthenticationSSPI => AuthOutcome::Unsupported {
                writes: Seq::empty(),
                used: st.used,
            },
            BackendMessageModel::AuthenticationSASL { .. } => AuthOutcome::Unsupported {
                writes: Seq::empty(),
                used: st.used,
            },
            BackendMessageModel::AuthenticationSASLContinue { .. } => AuthOutcome::Unsupported {
                writes: Seq::empty(),
                used: st.used,
            },
            BackendMessageModel::AuthenticationSASLFinal { .. } => AuthOutcome::Unsupported {
                writes: Seq::empty(),
                used: st.used,
            },
            BackendMessageModel::NegotiateProtocolVersion { .. } => auth_prepend(
                Seq::empty(),
                st.used,
                auth_outcome(s.skip(st.used), user, password, md5_available),
            ),
            BackendMessageModel::ErrorResponse { fields } => AuthOutcome::Failed {
                fields,
                writes: Seq::empty(),
                used: st.used,
            },
            _ => AuthOutcome::Unexpected { writes: Seq::empty(), used: st.used },
        },
    }
}

#[via_fn]
proof fn auth_outcome_decreases(
    s: Seq<u8>,
    user: Seq<u8>,
    password: Option<Seq<u8>>,
    md5_available: bool,
) {
    lemma_receive_steps_used(s);
}

/// Prepending nothing changes nothing.
pub proof fn lemma_auth_prepend_zero(o: AuthOutcome)
    ensures
        auth_prepend(Seq::empty(), 0, o) == o,
{
    match o {
        AuthOutcome::Established { writes, used } => {
            assert(Seq::empty() + writes =~= writes);
        },
        AuthOutcome::Failed { fields, writes, used } => {
            assert(Seq::empty() + writes =~= writes);
        },
        AuthOutcome::Unsupported { writes, used } => {
            assert(Seq::empty() + writes =~= writes);
        },
        AuthOutcome::NulPassword { writes, used } => {
            assert(Seq::empty() + writes =~= writes);
        },
        AuthOutcome::Unexpected { writes, used } => {
            assert(Seq::empty() + writes =~= writes);
        },
        AuthOutcome::Broken => {},
    }
}

/// Prepending twice is prepending the concatenation.
pub proof fn lemma_auth_prepend_compose(w1: Seq<u8>, u1: int, w2: Seq<u8>, u2: int, o: AuthOutcome)
    ensures
        auth_prepend(w1, u1, auth_prepend(w2, u2, o)) == auth_prepend(w1 + w2, u1 + u2, o),
{
    match o {
        AuthOutcome::Established { writes, used } => {
            assert(w1 + (w2 + writes) =~= (w1 + w2) + writes);
        },
        AuthOutcome::Failed { fields, writes, used } => {
            assert(w1 + (w2 + writes) =~= (w1 + w2) + writes);
        },
        AuthOutcome::Unsupported { writes, used } => {
            assert(w1 + (w2 + writes) =~= (w1 + w2) + writes);
        },
        AuthOutcome::NulPassword { writes, used } => {
            assert(w1 + (w2 + writes) =~= (w1 + w2) + writes);
        },
        AuthOutcome::Unexpected { writes, used } => {
            assert(w1 + (w2 + writes) =~= (w1 + w2) + writes);
        },
        AuthOutcome::Broken => {},
    }
}

/// Every terminal consumes at least one frame and no more than the
/// whole stream.
pub proof fn lemma_auth_outcome_used(
    s: Seq<u8>,
    user: Seq<u8>,
    password: Option<Seq<u8>>,
    md5_available: bool,
)
    ensures
        match auth_outcome(s, user, password, md5_available) {
            AuthOutcome::Established { used, .. } => 5 <= used <= s.len(),
            AuthOutcome::Failed { used, .. } => 5 <= used <= s.len(),
            AuthOutcome::Unsupported { used, .. } => 5 <= used <= s.len(),
            AuthOutcome::NulPassword { used, .. } => 5 <= used <= s.len(),
            AuthOutcome::Unexpected { used, .. } => 5 <= used <= s.len(),
            AuthOutcome::Broken => true,
        },
    decreases s.len(),
{
    lemma_receive_steps_used(s);
    match receive_steps(s) {
        None => {},
        Some(st) => {
            lemma_auth_outcome_used(s.skip(st.used), user, password, md5_available);
        },
    }
}

/// Drive the authentication dialogue, after `StartupMessage` was sent.
///
/// `AuthenticationOk` ends the dialogue.  Cleartext and `md5`
/// challenges are answered with a password message when the caller
/// supplied a password and, for `md5`, the capability is available;
/// otherwise the dialogue fails with `AuthenticationUnsupported`
/// without sending an answer.  `NegotiateProtocolVersion` is ignored.
/// An `ErrorResponse` fails with `AuthenticationFailed`, carrying the
/// fields; any other message fails with `BackendMessageUnexpected`.
/// Each failure is classified against [`auth_outcome`] below; on a
/// reliable stream whose outcome is `Established`, success is owed.
#[verifier::loop_isolation(false)]
#[verifier::rlimit(100)]
pub fn handle_authentication<M: Md5, N: NoticeSink, S: Stream>(
    md5: &M,
    receiver: &mut Receiver<N>,
    stream: &mut S,
    user: &[u8],
    password: &Option<Vec<u8>>,
) -> (r: Result<(), Error>)
    requires
        match *password {
            Some(p) => p@.len() + 5 <= 0xFFFF_FFFF,
            None => true,
        },
    ensures
        final(stream).reliable() == old(stream).reliable(),
        ({
            let outcome = auth_outcome(
                old(stream).readable(),
                user@,
                opt_bytes_view(*password),
                md5.available(),
            );
            &&& (old(stream).reliable() && (outcome matches AuthOutcome::Established { .. }))
                ==> r is Ok
            &&& match r {
                Ok(()) => match outcome {
                    AuthOutcome::Established { writes, used } => {
                        &&& final(stream).written() == old(stream).written() + writes
                        &&& final(stream).readable() == old(stream).readable().skip(used)
                    },
                    _ => false,
                },
                Err(e) => match e {
                    Error::AuthenticationFailed(f) => match outcome {
                        AuthOutcome::Failed { fields, writes, used } => {
                            &&& field_views(f@) == error_notice_items(fields)
                            &&& final(stream).written() == old(stream).written() + writes
                            &&& final(stream).readable() == old(stream).readable().skip(used)
                        },
                        _ => false,
                    },
                    Error::AuthenticationUnsupported => match outcome {
                        AuthOutcome::Unsupported { writes, used } => {
                            &&& final(stream).written() == old(stream).written() + writes
                            &&& final(stream).readable() == old(stream).readable().skip(used)
                        },
                        _ => false,
                    },
                    Error::Nul => match outcome {
                        AuthOutcome::NulPassword { writes, used } => {
                            &&& final(stream).written() == old(stream).written() + writes
                            &&& final(stream).readable() == old(stream).readable().skip(used)
                        },
                        _ => false,
                    },
                    Error::BackendMessageUnexpected => match outcome {
                        AuthOutcome::Unexpected { writes, used } => {
                            &&& final(stream).written() == old(stream).written() + writes
                            &&& final(stream).readable() == old(stream).readable().skip(used)
                        },
                        _ => false,
                    },
                    Error::Io(k) => old(stream).reliable() ==> (k
                        == crate::error::IoErrorKind::UnexpectedEof && (
                    outcome matches AuthOutcome::Broken)),
                    Error::FramingLengthTooSmall => outcome matches AuthOutcome::Broken,
                    Error::BackendMessageParse => outcome matches AuthOutcome::Broken,
                    _ => false,
                },
            }
        }),
{
    let ghost s0 = stream.readable();
    let ghost u = user@;
    let ghost pw = opt_bytes_view(*password);
    let ghost avail = md5.available();
    let ghost mut writes: Seq<u8> = Seq::empty();
    let ghost mut consumed: int = 0;
    proof {
        assert(stream.written() =~= old(stream).written() + writes);
        lemma_auth_prepend_zero(auth_outcome(s0, u, pw, avail));
    }
    loop
        invariant
            0 <= consumed <= s0.len(),
            stream.readable() == s0.skip(consumed),
            stream.written() == old(stream).written() + writes,
            stream.reliable() == old(stream).reliable(),
            auth_outcome(s0, u, pw, avail) == auth_prepend(
                writes,
                consumed,
                auth_outcome(stream.readable(), u, pw, avail),
            ),
        decreases s0.len() - consumed,
    {
        let ghost sc = stream.readable();
        proof {
            lemma_receive_steps_used(sc);
        }
        let message = match receiver.receive(stream) {
            Ok(m) => m,
            Err(e) => {
                proof {
                    match e {
                        Error::FramingLengthTooSmall => {
                            assert(receive_steps(sc) is None);
                            assert(auth_outcome(sc, u, pw, avail) == AuthOutcome::Broken);
                        },
                        Error::BackendMessageParse => {
                            assert(receive_steps(sc) is None);
                            assert(auth_outcome(sc, u, pw, avail) == AuthOutcome::Broken);
                        },
                        _ => {
                            if old(stream).reliable() {
                                assert(receive_steps(sc) is None);
                                assert(auth_outcome(sc, u, pw, avail) == AuthOutcome::Broken);
                            }
                        },
                    }
                }
                return Err(e);
            },
        };
        let ghost st = receive_steps(sc).unwrap();
        proof {
            lemma_skip_skip(s0, consumed, st.used);
        }
        match message {
            BackendMessage::AuthenticationOk => {
                proof {
                    assert(auth_outcome(sc, u, pw, avail) == (AuthOutcome::Established {
                        writes: Seq::<u8>::empty(),
                        used: st.used,
                    }));
                    assert(writes + Seq::<u8>::empty() =~= writes);
                }
                return Ok(());
            },
            BackendMessage::AuthenticationCleartextPassword => {
                match password {
                    Some(p) => {
                        let frame = match build_password_message(p.as_slice()) {
                            Ok(f) => f,
                            Err(e) => {
                                proof {
                                    assert(auth_outcome(sc, u, pw, avail)
                                        == (AuthOutcome::NulPassword {
                                        writes: Seq::<u8>::empty(),
                                        used: st.used,
                                    }));
                                    assert(writes + Seq::<u8>::empty() =~= writes);
                                }
                                return Err(e);
                            },
                        };
                        match stream.write_all(frame.as_slice()) {
                            Ok(()) => {},
                            Err(e) => {
                                return Err(e);
                            },
                        }
                        let ghost writes0 = writes;
                        let ghost consumed0 = consumed;
                        proof {
                            writes = writes0 + password_message_bytes(p@);
                            consumed = consumed0 + st.used;
                            assert(stream.written() =~= old(stream).written() + writes);
                            assert(auth_outcome(sc, u, pw, avail) == auth_prepend(
                                password_message_bytes(p@),
                                st.used,
                                auth_outcome(stream.readable(), u, pw, avail),
                            ));
                            lemma_auth_prepend_compose(
                                writes0,
                                consumed0,
                                password_message_bytes(p@),
                                st.used,
                                auth_outcome(stream.readable(), u, pw, avail),
                            );
                        }
                    },
                    None => {
                        proof {
                            assert(auth_outcome(sc, u, pw, avail) == (AuthOutcome::Unsupported {
                                writes: Seq::<u8>::empty(),
                                used: st.used,
                            }));
                            assert(writes + Seq::<u8>::empty() =~= writes);
                        }
                        return Err(Error::AuthenticationUnsupported);
                    },
                }
            },
            BackendMessage::AuthenticationMD5Password { salt } => {
                match password {
                    Some(p) => {
                        let mut first_plain: Vec<u8> = Vec::new();
                        first_plain.extend_from_slice(p.as_slice());
                        first_plain.extend_from_slice(user);
                        let first_digest = match md5.md5(first_plain.as_slice()) {
                            Some(d) => d,
                            None => {
                                proof {
                                    assert(auth_outcome(sc, u, pw, avail)
                                        == (AuthOutcome::Unsupported {
                                        writes: Seq::<u8>::empty(),
                                        used: st.used,
                                    }));
                                    assert(writes + Seq::<u8>::empty() =~= writes);
                                }
                                return Err(Error::AuthenticationUnsupported);
                            },
                        };
                        let mut second_plain = hex_lower(first_digest.as_slice());
                        second_plain.extend_from_slice(salt.as_slice());
                        let second_digest = match md5.md5(second_plain.as_slice()) {
                            Some(d) => d,
                            None => {
                                // The first hash succeeded, so the
                                // capability is available: unreachable.
                                return Err(Error::AuthenticationUnsupported);
                            },
                        };
                        let mut payload: Vec<u8> = Vec::new();
                        payload.push(109);
                        payload.push(100);
                        payload.push(53);
                        let mut digest_hex = hex_lower(second_digest.as_slice());
                        let ghost dh = digest_hex@;
                        payload.append(&mut digest_hex);
                        proof {
                            assert(first_plain@ =~= p@ + u);
                            assert(second_plain@ =~= hex_of(md5_of(p@ + u)) + salt@);
                            assert(second_digest@ == md5_of(hex_of(md5_of(p@ + u)) + salt@));
                            assert(second_digest@.len() == 16);
                            assert(dh == hex_of(md5_of(hex_of(md5_of(p@ + u)) + salt@)));
                            assert(payload@ =~= md5_password_payload(p@, u, salt@));
                            lemma_hex_len(md5_of(hex_of(md5_of(p@ + u)) + salt@));
                            lemma_hex_no_nul(md5_of(hex_of(md5_of(p@ + u)) + salt@));
                            assert(!has_nul(payload@)) by {
                                if has_nul(payload@) {
                                    let k = choose|k: int|
                                        0 <= k < payload@.len() && payload@[k] == 0;
                                    assert(k >= 3);
                                    assert(payload@[k] == hex_of(
                                        md5_of(hex_of(md5_of(p@ + u)) + salt@),
                                    )[k - 3]);
                                }
                            }
                        }
                        let frame = match build_password_message(payload.as_slice()) {
                            Ok(f) => f,
                            Err(e) => {
                                // The payload is hex and cannot hold a
                                // nul: unreachable.
                                return Err(e);
                            },
                        };
                        match stream.write_all(frame.as_slice()) {
                            Ok(()) => {},
                            Err(e) => {
                                return Err(e);
                            },
                        }
                        let ghost writes0 = writes;
                        let ghost consumed0 = consumed;
                        proof {
                            writes = writes0 + password_message_bytes(payload@);
                            consumed = consumed0 + st.used;
                            assert(stream.written() =~= old(stream).written() + writes);
                            assert(auth_outcome(sc, u, pw, avail) == auth_prepend(
                                password_message_bytes(payload@),
                                st.used,
                                auth_outcome(stream.readable(), u, pw, avail),
                            ));
                            lemma_auth_prepend_compose(
                                writes0,
                                consumed0,
                                password_message_bytes(payload@),
                                st.used,
                                auth_outcome(stream.readable(), u, pw, avail),
                            );
                        }
                    },
                    None => {
                        proof {
                            assert(auth_outcome(sc, u, pw, avail) == (AuthOutcome::Unsupported {
                                writes: Seq::<u8>::empty(),
                                used: st.used,
                            }));
                            assert(writes + Seq::<u8>::empty() =~= writes);
                        }
                        return Err(Error::AuthenticationUnsupported);
                    },
                }
            },
            BackendMessage::NegotiateProtocolVersion { .. } => {
                let ghost consumed0 = consumed;
                proof {
                    consumed = consumed0 + st.used;
                    assert(auth_outcome(sc, u, pw, avail) == auth_prepend(
                        Seq::<u8>::empty(),
                        st.used,
                        auth_outcome(stream.readable(), u, pw, avail),
                    ));
                    lemma_auth_prepend_compose(
                        writes,
                        consumed0,
                        Seq::<u8>::empty(),
                        st.used,
                        auth_outcome(stream.readable(), u, pw, avail),
                    );
                    assert(writes + Seq::<u8>::empty() =~= writes);
                }
            },
            BackendMessage::ErrorResponse { fields } => {
                proof {
                    assert(auth_outcome(sc, u, pw, avail) == (AuthOutcome::Failed {
                        fields: fields@,
                        writes: Seq::<u8>::empty(),
                        used: st.used,
                    }));
                    assert(writes + Seq::<u8>::empty() =~= writes);
                }
                return Err(Error::AuthenticationFailed(fields.collect()));
            },
            other => {
                proof {
                    let om = other@;
                    assert(auth_outcome(sc, u, pw, avail) == match om {
                        BackendMessageModel::AuthenticationKerberosV5
                        | BackendMessageModel::AuthenticationSCMCredential
                        | BackendMessageModel::AuthenticationGSS
                        | BackendMessageModel::AuthenticationGSSContinue { .. }
                        | BackendMessageModel::AuthenticationSSPI
                        | BackendMessageModel::AuthenticationSASL { .. }
                        | BackendMessageModel::AuthenticationSASLContinue { .. }
                        | BackendMessageModel::AuthenticationSASLFinal { .. } => AuthOutcome::Unsupported {
                            writes: Seq::<u8>::empty(),
                            used: st.used,
                        },
                        _ => AuthOutcome::Unexpected {
                            writes: Seq::<u8>::empty(),
                            used: st.used,
                        },
                    });
                    assert(writes + Seq::<u8>::empty() =~= writes);
                }
                match other {
                    BackendMessage::AuthenticationKerberosV5
                    | BackendMessage::AuthenticationSCMCredential
                    | BackendMessage::AuthenticationGSS
                    | BackendMessage::AuthenticationGSSContinue { .. }
                    | BackendMessage::AuthenticationSSPI
                    | BackendMessage::AuthenticationSASL { .. }
                    | BackendMessage::AuthenticationSASLContinue { .. }
                    | BackendMessage::AuthenticationSASLFinal { .. } => {
                        return Err(Error::AuthenticationUnsupported);
                    },
                    _ => {
                        return Err(Error::BackendMessageUnexpected);
                    },
                }
            },
        }
    }
}

/* -------------------------- Parameter collection -------------------------- */

/// What the parameter-collection phase accumulates.
pub struct StartUpModel {
    pub parameter_statuses: Map<Seq<u8>, Seq<u8>>,
    pub backend_process_id: u32,
    pub backend_secret_key: u32,
}

/// The accumulation before any message arrived.
pub open spec fn initial_start_up_model() -> StartUpModel {
    StartUpModel {
        parameter_statuses: Map::empty(),
        backend_process_id: 0,
        backend_secret_key: 0,
    }
}

/// Terminal of the parameter-collection phase on a given stream, with
/// the bytes consumed, including the terminal message's own frame.
pub enum InfoOutcome {
    /// `ReadyForQuery` closed the phase: the final accumulation and
    /// the transaction status indicator.
    Ready { model: StartUpModel, status: u8, used: int },
    /// The server sent `ErrorResponse` with the given field list.
    Failed { fields: Seq<u8>, used: int },
    /// A message with no place in the parameter collection.
    Unexpected { used: int },
    /// The stream cannot yield another message: a frame is truncated,
    /// under-long, or undecodable.
    Broken,
}

/// `rest`, with `u` more bytes consumed before it.
pub open spec fn info_add(u: int, rest: InfoOutcome) -> InfoOutcome {
    match rest {
        InfoOutcome::Ready { model, status, used } => InfoOutcome::Ready {
            model,
            status,
            used: u + used,
        },
        InfoOutcome::Failed { fields, used } => InfoOutcome::Failed { fields, used: u + used },
        InfoOutcome::Unexpected { used } => InfoOutcome::Unexpected { used: u + used },
        InfoOutcome::Broken => InfoOutcome::Broken,
    }
}

/// Outcome of parameter collection on a stream that will deliver `s`,
/// starting from `acc`: `ParameterStatus` and `BackendKeyData` update
/// the accumulation (the last report winning) and `ReadyForQuery`
/// closes the phase; every other message ends it with the terminal
/// that names it.
pub open spec fn info_outcome(s: Seq<u8>, acc: StartUpModel) -> InfoOutcome
    decreases s.len(),
    via info_outcome_decreases
{
    match receive_steps(s) {
        None => InfoOutcome::Broken,
        Some(st) => match st.message {
            BackendMessageModel::BackendKeyData {
                this_backend_process_id,
                this_backend_secret_key,
            } => info_outcome_tail(
                s,
                st,
                StartUpModel {
                    parameter_statuses: acc.parameter_statuses,
                    backend_process_id: this_backend_process_id,
                    backend_secret_key: this_backend_secret_key,
                },
            ),
            BackendMessageModel::ParameterStatus { name, current_value } => info_outcome_tail(
                s,
                st,
                StartUpModel {
                    parameter_statuses: acc.parameter_statuses.insert(name, current_value),
                    backend_process_id: acc.backend_process_id,
                    backend_secret_key: acc.backend_secret_key,
                },
            ),
            BackendMessageModel::ReadyForQuery { transaction_status_indicator } => InfoOutcome::Ready {
                model: acc,
                status: transaction_status_indicator,
                used: st.used,
            },
            BackendMessageModel::ErrorResponse { fields } => InfoOutcome::Failed {
                fields,
                used: st.used,
            },
            _ => InfoOutcome::Unexpected { used: st.used },
        },
    }
}

/// The rest of a parameter collection after one absorbed message.
pub open spec fn info_outcome_tail(s: Seq<u8>, st: ReceiveSteps, acc: StartUpModel) -> InfoOutcome
    decreases s.len(), 0int,
    when 5 <= st.used <= s.len()
{
    info_add(st.used, info_outcome(s.skip(st.used), acc))
}

#[via_fn]
proof fn info_outcome_decreases(s: Seq<u8>, acc: StartUpModel) {
    lemma_receive_steps_used(s);
}

/// Every terminal consumes at least one frame and no more than the
/// whole stream.
pub proof fn lemma_info_outcome_used(s: Seq<u8>, acc: StartUpModel)
    ensures
        match info_outcome(s, acc) {
            InfoOutcome::Ready { used, .. } => 5 <= used <= s.len(),
            InfoOutcome::Failed { used, .. } => 5 <= used <= s.len(),
            InfoOutcome::Unexpected { used } => 5 <= used <= s.len(),
            InfoOutcome::Broken => true,
        },
    decreases s.len(),
{
    lemma_receive_steps_used(s);
    match receive_steps(s) {
        None => {},
        Some(st) => match st.message {
            BackendMessageModel::BackendKeyData {
                this_backend_process_id,
                this_backend_secret_key,
            } => {
                lemma_info_outcome_used(
                    s.skip(st.used),
                    StartUpModel {
                        parameter_statuses: acc.parameter_statuses,
                        backend_process_id: this_backend_process_id,
                        backend_secret_key: this_backend_secret_key,
                    },
                );
            },
            BackendMessageModel::ParameterStatus { name, current_value } => {
                lemma_info_outcome_used(
                    s.skip(st.used),
                    StartUpModel {
                        parameter_statuses: acc.parameter_statuses.insert(name, current_value),
                        backend_process_id: acc.backend_process_id,
                        backend_secret_key: acc.backend_secret_key,
                    },
                );
            },
            _ => {},
        },
    }
}

/// Information discovered during the start-up flow.
pub struct StartupInfo {
    /// The reported parameter statuses, last report winning.
    pub parameter_statuses: ParamMap,
    /// The process id of the backend, from `BackendKeyData`.
    pub backend_process_id: u32,
    /// The secret key of the backend, from `BackendKeyData`.
    pub backend_secret_key: u32,
    /// The status byte of the closing `ReadyForQuery`, among
    /// `I`, `T` and `E`; captured but not further interpreted.
    pub transaction_status_indicator: u8,
}

/// Collect `ParameterStatus` and `BackendKeyData` until
/// `ReadyForQuery`.
///
/// Parameter statuses are copied into owned byte strings, the last
/// report for a name winning; multiple `BackendKeyData` messages are
/// tolerated, the last winning.  An `ErrorResponse` fails with
/// `StartupFailed`, carrying the fields; any other message fails with
/// `BackendMessageUnexpected`.  Each failure is classified against
/// [`info_outcome`]; on a reliable stream whose outcome is `Ready`,
/// success is owed.
#[verifier::loop_isolation(false)]
pub fn handle_info<N: NoticeSink, S: Stream>(receiver: &mut Receiver<N>, stream: &mut S) -> (r:
    Result<StartupInfo, Error>)
    ensures
        final(stream).written() == old(stream).written(),
        final(stream).reliable() == old(stream).reliable(),
        ({
            let outcome = info_outcome(old(stream).readable(), initial_start_up_model());
            &&& (old(stream).reliable() && (outcome matches InfoOutcome::Ready { .. })) ==> r is Ok
            &&& match r {
                Ok(info) => match outcome {
                    InfoOutcome::Ready { model, status, used } => {
                        &&& info.parameter_statuses@ == model.parameter_statuses
                        &&& info.backend_process_id == model.backend_process_id
                        &&& info.backend_secret_key == model.backend_secret_key
                        &&& info.transaction_status_indicator == status
                        &&& final(stream).readable() == old(stream).readable().skip(used)
                    },
                    _ => false,
                },
                Err(e) => match e {
                    Error::StartupFailed(f) => match outcome {
                        InfoOutcome::Failed { fields, used } => {
                            &&& field_views(f@) == error_notice_items(fields)
                            &&& final(stream).readable() == old(stream).readable().skip(used)
                        },
                        _ => false,
                    },
                    Error::BackendMessageUnexpected => match outcome {
                        InfoOutcome::Unexpected { used } => final(stream).readable() == old(
                            stream,
                        ).readable().skip(used),
                        _ => false,
                    },
                    Error::Io(k) => old(stream).reliable() ==> (k
                        == crate::error::IoErrorKind::UnexpectedEof && (
                    outcome matches InfoOutcome::Broken)),
                    Error::FramingLengthTooSmall => outcome matches InfoOutcome::Broken,
                    Error::BackendMessageParse => outcome matches InfoOutcome::Broken,
                    _ => false,
                },
            }
        }),
{
    let ghost s0 = stream.readable();
    let mut info = StartupInfo {
        parameter_statuses: ParamMap::new(),
        backend_process_id: 0,
        backend_secret_key: 0,
        transaction_status_indicator: 0,
    };
    let ghost mut consumed: int = 0;
    loop
        invariant
            0 <= consumed <= s0.len(),
            stream.readable() == s0.skip(consumed),
            stream.written() == old(stream).written(),
            stream.reliable() == old(stream).reliable(),
            info_outcome(s0, initial_start_up_model()) == info_add(
                consumed,
                info_outcome(
                    stream.readable(),
                    StartUpModel {
                        parameter_statuses: info.parameter_statuses@,
                        backend_process_id: info.backend_process_id,
                        backend_secret_key: info.backend_secret_key,
                    },
                ),
            ),
        decreases s0.len() - consumed,
    {
        let ghost sc = stream.readable();
        let ghost acc = StartUpModel {
            parameter_statuses: info.parameter_statuses@,
            backend_process_id: info.backend_process_id,
            backend_secret_key: info.backend_secret_key,
        };
        proof {
            lemma_receive_steps_used(sc);
        }
        let message = match receiver.receive(stream) {
            Ok(m) => m,
            Err(e) => {
                proof {
                    match e {
                        Error::FramingLengthTooSmall => {
                            assert(receive_steps(sc) is None);
                            assert(info_outcome(sc, acc) == InfoOutcome::Broken);
                        },
                        Error::BackendMessageParse => {
                            assert(receive_steps(sc) is None);
                            assert(info_outcome(sc, acc) == InfoOutcome::Broken);
                        },
                        _ => {
                            if old(stream).reliable() {
                                assert(receive_steps(sc) is None);
                                assert(info_outcome(sc, acc) == InfoOutcome::Broken);
                            }
                        },
                    }
                }
                return Err(e);
            },
        };
        let ghost st = receive_steps(sc).unwrap();
        proof {
            lemma_skip_skip(s0, consumed, st.used);
        }
        match message {
            BackendMessage::BackendKeyData {
                this_backend_process_id,
                this_backend_secret_key,
            } => {
                info.backend_process_id = this_backend_process_id;
                info.backend_secret_key = this_backend_secret_key;
                proof {
                    consumed = consumed + st.used;
                }
            },
            BackendMessage::ParameterStatus { name, current_value } => {
                info.parameter_statuses.insert(name, current_value);
                proof {
                    consumed = consumed + st.used;
                }
            },
            BackendMessage::ReadyForQuery { transaction_status_indicator } => {
                info.transaction_status_indicator = transaction_status_indicator;
                proof {
                    assert(info_outcome(sc, acc) == (InfoOutcome::Ready {
                        model: acc,
                        status: transaction_status_indicator,
                        used: st.used,
                    }));
                }
                return Ok(info);
            },
            BackendMessage::ErrorResponse { fields } => {
                proof {
                    assert(info_outcome(sc, acc) == (InfoOutcome::Failed {
                        fields: fields@,
                        used: st.used,
                    }));
                }
                return Err(Error::StartupFailed(fields.collect()));
            },
            _ => {
                return Err(Error::BackendMessageUnexpected);
            },
        }
    }
}

/* ------------------------------ The full flow ----------------------------- */

/// True if the start-up flow is certain to succeed on a reliable
/// stream delivering `s`: valid parameters, an authentication
/// dialogue that establishes, and a parameter collection that closes
/// with `ReadyForQuery`.
pub open spec fn startup_owed(
    s: Seq<u8>,
    user: Seq<u8>,
    database: Seq<u8>,
    password: Option<Seq<u8>>,
    md5_available: bool,
) -> bool {
    &&& !has_nul(user)
    &&& !has_nul(database)
    &&& match auth_outcome(s, user, password, md5_available) {
        AuthOutcome::Established { writes, used } => info_outcome(
            s.skip(used),
            initial_start_up_model(),
        ) matches InfoOutcome::Ready { .. },
        _ => false,
    }
}

/// True if the stream broke in whichever phase the flow reached: a
/// truncated, under-long, or undecodable frame ended the
/// authentication dialogue, or the parameter collection after it.
pub open spec fn startup_broken(
    s: Seq<u8>,
    user: Seq<u8>,
    password: Option<Seq<u8>>,
    md5_available: bool,
) -> bool {
    match auth_outcome(s, user, password, md5_available) {
        AuthOutcome::Broken => true,
        AuthOutcome::Established { writes, used } => info_outcome(
            s.skip(used),
            initial_start_up_model(),
        ) matches InfoOutcome::Broken,
        _ => false,
    }
}

/// How each start-up failure is classified against the stream that
/// delivers `s`: interior nuls are rejected while the message is
/// built, and each dialogue terminal maps to the error that names it.
/// I/O and framing failures are decided by the stream and carry no
/// further claim.
pub open spec fn startup_error_matches(
    e: Error,
    s: Seq<u8>,
    user: Seq<u8>,
    database: Seq<u8>,
    password: Option<Seq<u8>>,
    md5_available: bool,
) -> bool {
    match e {
        Error::Nul => {
            ||| has_nul(user)
            ||| has_nul(database)
            ||| (auth_outcome(s, user, password, md5_available) matches AuthOutcome::NulPassword {
                ..
            })
        },
        Error::AuthenticationFailed(f) => match auth_outcome(s, user, password, md5_available) {
            AuthOutcome::Failed { fields, .. } => field_views(f@) == error_notice_items(fields),
            _ => false,
        },
        Error::AuthenticationUnsupported => auth_outcome(
            s,
            user,
            password,
            md5_available,
        ) matches AuthOutcome::Unsupported { .. },
        Error::BackendMessageUnexpected => match auth_outcome(s, user, password, md5_available) {
            AuthOutcome::Unexpected { .. } => true,
            AuthOutcome::Established { writes, used } => info_outcome(
                s.skip(used),
                initial_start_up_model(),
            ) matches InfoOutcome::Unexpected { .. },
            _ => false,
        },
        Error::StartupFailed(f) => match auth_outcome(s, user, password, md5_available) {
            AuthOutcome::Established { writes, used } => match info_outcome(
                s.skip(used),
                initial_start_up_model(),
            ) {
                InfoOutcome::Failed { fields, .. } => field_views(f@) == error_notice_items(
                    fields,
                ),
                _ => false,
            },
            _ => false,
        },
        Error::Io(_) => true,
        Error::FramingLengthTooSmall => startup_broken(s, user, password, md5_available),
        Error::BackendMessageParse => startup_broken(s, user, password, md5_available),
        _ => false,
    }
}

/// Implementation of the start-up flow: send `StartupMessage`, drive
/// the authentication dialogue, and collect parameters until
/// `ReadyForQuery`.
///
/// No data must be sent on the stream prior to calling this function.
/// The `user` and `database` arguments specify `StartupMessage`
/// parameters; the password is consumed only if the server demands
/// password authentication.  A failure in either phase aborts the
/// later phases and propagates unchanged, classified by
/// [`startup_error_matches`]; on a reliable stream that owes success,
/// success is returned.
pub fn startup<M: Md5, N: NoticeSink, S: Stream>(
    md5: &M,
    receiver: &mut Receiver<N>,
    stream: &mut S,
    user: &[u8],
    database: &[u8],
    password: &Option<Vec<u8>>,
) -> (r: Result<StartupInfo, Error>)
    requires
        user@.len() + database@.len() + 64 <= 0xFFFF_FFFF,
        match *password {
            Some(p) => p@.len() + 5 <= 0xFFFF_FFFF,
            None => true,
        },
    ensures
        final(stream).reliable() == old(stream).reliable(),
        (old(stream).reliable() && startup_owed(
            old(stream).readable(),
            user@,
            database@,
            opt_bytes_view(*password),
            md5.available(),
        )) ==> r is Ok,
        match r {
            Ok(info) => {
                &&& !has_nul(user@)
                &&& !has_nul(database@)
                &&& match auth_outcome(
                    old(stream).readable(),
                    user@,
                    opt_bytes_view(*password),
                    md5.available(),
                ) {
                    AuthOutcome::Established { writes, used } => match info_outcome(
                        old(stream).readable().skip(used),
                        initial_start_up_model(),
                    ) {
                        InfoOutcome::Ready { model, status, used: info_used } => {
                            &&& final(stream).written() == old(stream).written()
                                + startup_message_bytes(user_database_params(user@, database@))
                                + writes
                            &&& final(stream).readable() == old(stream).readable().skip(
                                used + info_used,
                            )
                            &&& info.parameter_statuses@ == model.parameter_statuses
                            &&& info.backend_process_id == model.backend_process_id
                            &&& info.backend_secret_key == model.backend_secret_key
                            &&& info.transaction_status_indicator == status
                        },
                        _ => false,
                    },
                    _ => false,
                }
            },
            Err(e) => {
                &&& startup_error_matches(
                    e,
                    old(stream).readable(),
                    user@,
                    database@,
                    opt_bytes_view(*password),
                    md5.available(),
                )
                &&& (old(stream).reliable() && (e matches Error::Io(_))) ==> ((e matches Error::Io(
                    crate::error::IoErrorKind::UnexpectedEof,
                )) && startup_broken(
                    old(stream).readable(),
                    user@,
                    opt_bytes_view(*password),
                    md5.available(),
                ))
            },
        },
{
    let startup_message = match build_startup_message(user, database) {
        Ok(m) => m,
        Err(e) => {
            return Err(e);
        },
    };
    match stream.write_all(startup_message.as_slice()) {
        Ok(()) => {},
        Err(e) => {
            return Err(e);
        },
    }
    let ghost s0 = stream.readable();
    match handle_authentication(md5, receiver, stream, user, password) {
        Ok(()) => {},
        Err(e) => {
            return Err(e);
        },
    }
    let ghost a_writes = match auth_outcome(
        s0,
        user@,
        opt_bytes_view(*password),
        md5.available(),
    ) {
        AuthOutcome::Established { writes, used } => writes,
        _ => Seq::empty(),
    };
    let ghost a_used = match auth_outcome(s0, user@, opt_bytes_view(*password), md5.available()) {
        AuthOutcome::Established { writes, used } => used,
        _ => 0int,
    };
    let info = match handle_info(receiver, stream) {
        Ok(i) => i,
        Err(e) => {
            return Err(e);
        },
    };
    proof {
        lemma_auth_outcome_used(s0, user@, opt_bytes_view(*password), md5.available());
        lemma_info_outcome_used(s0.skip(a_used), initial_start_up_model());
        let i_used = match info_outcome(s0.skip(a_used), initial_start_up_model()) {
            InfoOutcome::Ready { model, status, used } => used,
            _ => 0int,
        };
        lemma_skip_skip(s0, a_used, i_used);
        assert(stream.written() =~= old(stream).written() + startup_message_bytes(
            user_database_params(user@, database@),
        ) + a_writes);
    }
    Ok(info)
}

} // verus!
