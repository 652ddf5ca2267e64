//! One login-session observation and its binary record codec.
use vstd::prelude::*;

use crate::bytes::{
    i32_to_u32, i64_to_u64, read_u32_be, read_u64_be, push_u32_be, push_u64_be, spec_i32_to_u32,
    spec_i64_to_u64, spec_u32_from_be_bytes, spec_u32_to_be_bytes, spec_u32_to_i32,
    spec_u64_from_be_bytes, spec_u64_to_be_bytes, spec_u64_to_i64,
};
use crate::error::{EncodeDecodeError, EncodeDecodeResult};
use crate::{MAX_REMOTE_LENGTH, MAX_USER_TTY_LENGTH};

verus! {

/// One login session, live or recently ended.
///
/// Textual fields are kept as the bytes seen on the wire or in the
/// session table; rendering them as text is a display concern.
#[derive(Debug, Clone, PartialEq, Eq)]
pub struct Session {
    /// Label of the server this record came from; never carried on the wire.
    pub host: Option<Vec<u8>>,
    /// Account name, at most `MAX_USER_TTY_LENGTH` bytes.
    pub user: Vec<u8>,
    /// Process identifier of the session leader.
    pub pid: i32,
    /// Terminal or device name, at most `MAX_USER_TTY_LENGTH` bytes.
    pub tty: Vec<u8>,
    /// Remote origin host; absent means the session is local.
    pub remote: Option<Vec<u8>>,
    /// True for a live user process, false for a dead accounting entry.
    pub active: bool,
    /// Unix epoch seconds when the session began.
    pub login_time: i64,
}

/// Mathematical image of a `Session`.
pub ghost struct SessionView {
    pub host: Option<Seq<u8>>,
    pub user: Seq<u8>,
    pub pid: i32,
    pub tty: Seq<u8>,
    pub remote: Option<Seq<u8>>,
    pub active: bool,
    pub login_time: i64,
}

impl View for Session {
    type V = SessionView;

    open spec fn view(&self) -> SessionView {
        SessionView {
            host: match self.host {
                Some(h) => Some(h@),
                None => None,
            },
            user: self.user@,
            pid: self.pid,
            tty: self.tty@,
            remote: match self.remote {
                Some(r) => Some(r@),
                None => None,
            },
            active: self.active,
            login_time: self.login_time,
        }
    }
}

/// The mathematical images of a sequence of sessions.
pub open spec fn views_of(ss: Seq<Session>) -> Seq<SessionView> {
    ss.map_values(|s: Session| s@)
}

impl SessionView {
    /// The size invariant every session observes: user and tty fit their
    /// limit, and a remote origin, when present, is non-empty and fits its own.
    pub open spec fn wf(self) -> bool {
        &&& self.user.len() <= MAX_USER_TTY_LENGTH
        &&& self.tty.len() <= MAX_USER_TTY_LENGTH
        &&& match self.remote {
            Some(r) => 1 <= r.len() <= MAX_REMOTE_LENGTH,
            None => true,
        }
    }
}

/// The exact wire bytes of one session record. The `host` field is not
/// carried: identity comes from which server was asked.
pub open spec fn spec_encode_record(s: SessionView) -> Seq<u8> {
    spec_u32_to_be_bytes(spec_i32_to_u32(s.pid)) + spec_u64_to_be_bytes(
        spec_i64_to_u64(s.login_time),
    ) + spec_u32_to_be_bytes(s.user.len() as u32) + s.user + spec_u32_to_be_bytes(
        s.tty.len() as u32,
    ) + s.tty + (match s.remote {
        None => seq![0u8],
        Some(r) => seq![1u8] + spec_u32_to_be_bytes(r.len() as u32) + r,
    }) + seq![if s.active { 1u8 } else { 0u8 }]
}

/// Reads the trailing active flag and assembles the decoded record.
pub open spec fn spec_decode_active(
    buf: Seq<u8>,
    pos: int,
    host: Option<Seq<u8>>,
    pid: i32,
    login_time: i64,
    user: Seq<u8>,
    tty: Seq<u8>,
    remote: Option<Seq<u8>>,
) -> Result<(SessionView, int), EncodeDecodeError> {
    if pos + 1 > buf.len() {
        Err(EncodeDecodeError::TruncatedInput)
    } else if buf[pos] > 1 {
        Err(EncodeDecodeError::InvalidBoolean)
    } else {
        Ok(
            (
                SessionView {
                    host,
                    user,
                    pid,
                    tty,
                    remote,
                    active: buf[pos] == 1,
                    login_time,
                },
                pos + 1,
            ),
        )
    }
}

/// One session record, decoded from `buf` at `pos`, in declared field order
/// and without backtracking; `host` is the label the decoder assigns.
pub open spec fn spec_decode_record(buf: Seq<u8>, pos: int, host: Option<Seq<u8>>) -> Result<
    (SessionView, int),
    EncodeDecodeError,
> {
    if pos + 4 > buf.len() {
        Err(EncodeDecodeError::TruncatedInput)
    } else {
        let pid = spec_u32_to_i32(spec_u32_from_be_bytes(buf.subrange(pos, pos + 4)));
        let p1 = pos + 4;
        if p1 + 8 > buf.len() {
            Err(EncodeDecodeError::TruncatedInput)
        } else {
            let login_time = spec_u64_to_i64(spec_u64_from_be_bytes(buf.subrange(p1, p1 + 8)));
            let p2 = p1 + 8;
            if p2 + 4 > buf.len() {
                Err(EncodeDecodeError::TruncatedInput)
            } else {
                let user_len = spec_u32_from_be_bytes(buf.subrange(p2, p2 + 4));
                let p3 = p2 + 4;
                if user_len > MAX_USER_TTY_LENGTH as u32 {
                    Err(EncodeDecodeError::StringTooLong(user_len, MAX_USER_TTY_LENGTH))
                } else if p3 + user_len > buf.len() {
                    Err(EncodeDecodeError::TruncatedInput)
                } else {
                    let user = buf.subrange(p3, p3 + user_len);
                    let p4 = p3 + user_len;
                    if p4 + 4 > buf.len() {
                        Err(EncodeDecodeError::TruncatedInput)
                    } else {
                        let tty_len = spec_u32_from_be_bytes(buf.subrange(p4, p4 + 4));
                        let p5 = p4 + 4;
                        if tty_len > MAX_USER_TTY_LENGTH as u32 {
                            Err(EncodeDecodeError::StringTooLong(tty_len, MAX_USER_TTY_LENGTH))
                        } else if p5 + tty_len > buf.len() {
                            Err(EncodeDecodeError::TruncatedInput)
                        } else {
                            let tty = buf.subrange(p5, p5 + tty_len);
                            let p6 = p5 + tty_len;
                            if p6 + 1 > buf.len() {
                                Err(EncodeDecodeError::TruncatedInput)
                            } else if buf[p6] > 1 {
                                Err(EncodeDecodeError::InvalidBoolean)
                            } else if buf[p6] == 0 {
                                spec_decode_active(
                                    buf,
                                    p6 + 1,
                                    host,
                                    pid,
                                    login_time,
                                    user,
                                    tty,
                                    None,
                                )
                            } else {
                                let p7 = p6 + 1;
                                if p7 + 4 > buf.len() {
                                    Err(EncodeDecodeError::TruncatedInput)
                                } else {
                                    let remote_len = spec_u32_from_be_bytes(
                                        buf.subrange(p7, p7 + 4),
                                    );
                                    let p8 = p7 + 4;
                                    if remote_len > MAX_REMOTE_LENGTH as u32 {
                                        Err(
                                            EncodeDecodeError::StringTooLong(
                                                remote_len,
                                                MAX_REMOTE_LENGTH,
                                            ),
                                        )
                                    } else if remote_len == 0 {
                                        Err(EncodeDecodeError::EmptyRemote)
                                    } else if p8 + remote_len > buf.len() {
                                        Err(EncodeDecodeError::TruncatedInput)
                                    } else {
                                        let remote = buf.subrange(p8, p8 + remote_len);
                                        spec_decode_active(
                                            buf,
                                            p8 + remote_len,
                                            host,
                                            pid,
                                            login_time,
                                            user,
                                            tty,
                                            Some(remote),
                                        )
                                    }
                                }
                            }
                        }
                    }
                }
            }
        }
    }
}

/// Wherever a well-formed session's encoding sits inside a larger buffer,
/// decoding at its first byte succeeds, restores the session, and consumes
/// exactly the encoding.
#[verifier::rlimit(100)]
pub proof fn lemma_decode_encoded_record(
    buf: Seq<u8>,
    pos: int,
    s: SessionView,
    host: Option<Seq<u8>>,
)
    requires
        s.wf(),
        0 <= pos,
        pos + spec_encode_record(s).len() <= buf.len(),
        buf.subrange(pos, pos + spec_encode_record(s).len()) == spec_encode_record(s),
    ensures
        spec_decode_record(buf, pos, host) == Ok::<(SessionView, int), EncodeDecodeError>(
            (SessionView { host, ..s }, pos + spec_encode_record(s).len()),
        ),
{
    let enc = spec_encode_record(s);
    let ulen = s.user.len() as int;
    let tlen = s.tty.len() as int;
    let a = spec_u32_to_be_bytes(spec_i32_to_u32(s.pid));
    let b = spec_u64_to_be_bytes(spec_i64_to_u64(s.login_time));
    let c = spec_u32_to_be_bytes(s.user.len() as u32);
    let e = spec_u32_to_be_bytes(s.tty.len() as u32);
    let g = match s.remote {
        None => seq![0u8],
        Some(r) => seq![1u8] + spec_u32_to_be_bytes(r.len() as u32) + r,
    };
    let h = seq![if s.active { 1u8 } else { 0u8 }];
    assert(enc == a + b + c + s.user + e + s.tty + g + h);
    assert forall|k: int| pos <= k < pos + enc.len() implies #[trigger] buf[k] == enc[k - pos] by {
        assert(buf.subrange(pos, pos + enc.len())[k - pos] == enc[k - pos]);
    }
    crate::bytes::lemma_u32_be_bytes_roundtrip(spec_i32_to_u32(s.pid));
    crate::bytes::lemma_u64_be_bytes_roundtrip(spec_i64_to_u64(s.login_time));
    crate::bytes::lemma_u32_be_bytes_roundtrip(s.user.len() as u32);
    crate::bytes::lemma_u32_be_bytes_roundtrip(s.tty.len() as u32);
    crate::bytes::lemma_i32_u32_roundtrip(s.pid);
    crate::bytes::lemma_i64_u64_roundtrip(s.login_time);
    assert(buf.subrange(pos, pos + 4) =~= a);
    assert(buf.subrange(pos + 4, pos + 12) =~= b);
    assert(buf.subrange(pos + 12, pos + 16) =~= c);
    assert(buf.subrange(pos + 16, pos + 16 + ulen) =~= s.user);
    assert(buf.subrange(pos + 16 + ulen, pos + 20 + ulen) =~= e);
    assert(buf.subrange(pos + 20 + ulen, pos + 20 + ulen + tlen) =~= s.tty);
    let p6 = pos + 20 + ulen + tlen;
    match s.remote {
        None => {
            assert(buf[p6] == g[0]);
            assert(buf[p6 + 1] == h[0]);
        },
        Some(r) => {
            let rlen = r.len() as int;
            crate::bytes::lemma_u32_be_bytes_roundtrip(r.len() as u32);
            assert(buf[p6] == g[0]);
            assert(buf.subrange(p6 + 1, p6 + 5) =~= spec_u32_to_be_bytes(r.len() as u32));
            assert(buf.subrange(p6 + 5, p6 + 5 + rlen) =~= r);
            assert(buf[p6 + 5 + rlen] == h[0]);
        },
    }
}

/// Law: decoding an encoded session record restores the session exactly,
/// with the host label supplied by the decoder — the wire form carries none.
pub proof fn lemma_record_round_trip(s: SessionView, host: Option<Seq<u8>>)
    requires
        s.wf(),
    ensures
        spec_decode_record(spec_encode_record(s), 0, host) == Ok::<
            (SessionView, int),
            EncodeDecodeError,
        >((SessionView { host, ..s }, spec_encode_record(s).len() as int)),
{
    let enc = spec_encode_record(s);
    assert(enc.subrange(0, enc.len() as int) =~= enc);
    lemma_decode_encoded_record(enc, 0, s, host);
}

impl Session {
    /// Encodes this session as one wire record, field by field,
    /// all multi-byte integers big-endian.
    pub fn to_udp_payload(&self) -> (r: Vec<u8>)
        requires
            self@.wf(),
        ensures
            r@ == spec_encode_record(self@),
    {
        let mut bytes: Vec<u8> = Vec::new();
        push_u32_be(&mut bytes, i32_to_u32(self.pid));
        push_u64_be(&mut bytes, i64_to_u64(self.login_time));
        push_u32_be(&mut bytes, self.user.len() as u32);
        bytes.extend_from_slice(self.user.as_slice());
        push_u32_be(&mut bytes, self.tty.len() as u32);
        bytes.extend_from_slice(self.tty.as_slice());
        match &self.remote {
            None => bytes.push(0u8),
            Some(r) => {
                bytes.push(1u8);
                push_u32_be(&mut bytes, r.len() as u32);
                bytes.extend_from_slice(r.as_slice());
            },
        }
        bytes.push(if self.active {
            1u8
        } else {
            0u8
        });
        proof {
            assert(bytes@ =~= spec_encode_record(self@));
        }
        bytes
    }

    /// Decodes one wire record from `buf` at `pos`, tagging the session with
    /// `host`; returns the session and the cursor past its last byte.
    pub fn from_udp_payload(buf: &[u8], pos: usize, host: &[u8]) -> (r: EncodeDecodeResult<
        (Session, usize),
    >)
        requires
            pos <= buf@.len(),
        ensures
            match r {
                Ok((s, end)) => {
                    &&& spec_decode_record(buf@, pos as int, Some(host@)) == Ok::<
                        (SessionView, int),
                        EncodeDecodeError,
                    >((s@, end as int))
                    &&& pos <= end <= buf@.len()
                    &&& s@.wf()
                    &&& s@.host == Some(host@)
                },
                Err(e) => spec_decode_record(buf@, pos as int, Some(host@)) == Err::<
                    (SessionView, int),
                    EncodeDecodeError,
                >(e),
            },
    {
        let n = buf.len();
        if n - pos < 4 {
            return Err(EncodeDecodeError::TruncatedInput);
        }
        let pid = crate::bytes::u32_to_i32(read_u32_be(buf, pos));
        let p1 = pos + 4;
        if n - p1 < 8 {
            return Err(EncodeDecodeError::TruncatedInput);
        }
        let login_time = crate::bytes::u64_to_i64(read_u64_be(buf, p1));
        let p2 = p1 + 8;
        if n - p2 < 4 {
            return Err(EncodeDecodeError::TruncatedInput);
        }
        let user_len = read_u32_be(buf, p2);
        let p3 = p2 + 4;
        if user_len > MAX_USER_TTY_LENGTH as u32 {
            return Err(EncodeDecodeError::StringTooLong(user_len, MAX_USER_TTY_LENGTH));
        }
        let user_len = user_len as usize;
        if n - p3 < user_len {
            return Err(EncodeDecodeError::TruncatedInput);
        }
        let user = vstd::slice::slice_to_vec(vstd::slice::slice_subrange(buf, p3, p3 + user_len));
        let p4 = p3 + user_len;
        if n - p4 < 4 {
            return Err(EncodeDecodeError::TruncatedInput);
        }
        let tty_len = read_u32_be(buf, p4);
        let p5 = p4 + 4;
        if tty_len > MAX_USER_TTY_LENGTH as u32 {
            return Err(EncodeDecodeError::StringTooLong(tty_len, MAX_USER_TTY_LENGTH));
        }
        let tty_len = tty_len as usize;
        if n - p5 < tty_len {
            return Err(EncodeDecodeError::TruncatedInput);
        }
        let tty = vstd::slice::slice_to_vec(vstd::slice::slice_subrange(buf, p5, p5 + tty_len));
        let p6 = p5 + tty_len;
        if n - p6 < 1 {
            return Err(EncodeDecodeError::TruncatedInput);
        }
        let tag = *vstd::slice::slice_index_get(buf, p6);
        if tag > 1 {
            return Err(EncodeDecodeError::InvalidBoolean);
        }
        let p7 = p6 + 1;
        let (remote, p_active): (Option<Vec<u8>>, usize) = if tag == 1 {
            if n - p7 < 4 {
                return Err(EncodeDecodeError::TruncatedInput);
            }
            let remote_len = read_u32_be(buf, p7);
            let p8 = p7 + 4;
            if remote_len > MAX_REMOTE_LENGTH as u32 {
                return Err(EncodeDecodeError::StringTooLong(remote_len, MAX_REMOTE_LENGTH));
            }
            if remote_len == 0 {
                return Err(EncodeDecodeError::EmptyRemote);
            }
            let remote_len = remote_len as usize;
            if n - p8 < remote_len {
                return Err(EncodeDecodeError::TruncatedInput);
            }
            let remote = vstd::slice::slice_to_vec(
                vstd::slice::slice_subrange(buf, p8, p8 + remote_len),
            );
            (Some(remote), p8 + remote_len)
        } else {
            (None, p7)
        };
        if n - p_active < 1 {
            return Err(EncodeDecodeError::TruncatedInput);
        }
        let active_byte = *vstd::slice::slice_index_get(buf, p_active);
        if active_byte > 1 {
            return Err(EncodeDecodeError::InvalidBoolean);
        }
        let session = Session {
            host: Some(vstd::slice::slice_to_vec(host)),
            user,
            pid,
            tty,
            remote,
            active: active_byte == 1,
            login_time,
        };
        Ok((session, p_active + 1))
    }

    /// Builds a session from one raw row of the session table: user, tty and
    /// host are cut to their wire limits, and an empty host means a local
    /// session rather than an empty remote name.
    pub fn from_parts(
        user: Vec<u8>,
        pid: i32,
        tty: Vec<u8>,
        host: Vec<u8>,
        active: bool,
        login_time: i64,
    ) -> (r: Session)
        ensures
            r@.host == None::<Seq<u8>>,
            r@.user == (if user@.len() <= MAX_USER_TTY_LENGTH {
                user@
            } else {
                user@.subrange(0, MAX_USER_TTY_LENGTH as int)
            }),
            r@.tty == (if tty@.len() <= MAX_USER_TTY_LENGTH {
                tty@
            } else {
                tty@.subrange(0, MAX_USER_TTY_LENGTH as int)
            }),
            r@.remote == (if host@.len() == 0 {
                None::<Seq<u8>>
            } else if host@.len() <= MAX_REMOTE_LENGTH {
                Some(host@)
            } else {
                Some(host@.subrange(0, MAX_REMOTE_LENGTH as int))
            }),
            r@.pid == pid,
            r@.active == active,
            r@.login_time == login_time,
            r@.wf(),
    {
        let mut user = user;
        let mut tty = tty;
        let mut host = host;
        user.truncate(MAX_USER_TTY_LENGTH);
        tty.truncate(MAX_USER_TTY_LENGTH);
        host.truncate(MAX_REMOTE_LENGTH);
        let remote = if host.len() == 0 {
            None
        } else {
            Some(host)
        };
        Session { host: None, user, pid, tty, remote, active, login_time }
    }
}

} // verus!
