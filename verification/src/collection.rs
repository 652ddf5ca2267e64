//! Framing of session records into one UDP payload: magic, count, records.
use vstd::prelude::*;

use crate::bytes::{push_u16_be, read_u16_be, spec_u16_from_be_bytes, spec_u16_to_be_bytes};
use crate::error::{EncodeDecodeError, EncodeDecodeResult};
use crate::session::{
    spec_decode_record, spec_encode_record, views_of, Session, SessionView,
};
use crate::{spec_magic, whered_magic, MAX_ENTRY_LENGTH, MAX_PAYLOAD_LENGTH};

verus! {

/// An ordered batch of sessions, as produced by one server response.
#[derive(Debug)]
pub struct SessionCollection {
    inner: Vec<Session>,
}

impl View for SessionCollection {
    type V = Seq<SessionView>;

    closed spec fn view(&self) -> Seq<SessionView> {
        views_of(self.inner@)
    }
}

/// Every session in the batch observes the session size invariant.
pub open spec fn collection_wf(ss: Seq<SessionView>) -> bool {
    forall|i: int| 0 <= i < ss.len() ==> #[trigger] ss[i].wf()
}

/// Every record's encoding stays within the single-entry ceiling.
pub open spec fn all_entries_fit(ss: Seq<SessionView>) -> bool {
    forall|i: int|
        0 <= i < ss.len() ==> #[trigger] spec_encode_record(ss[i]).len() <= MAX_ENTRY_LENGTH
}

/// The concatenation of the records' encodings, in order.
pub open spec fn spec_concat_records(ss: Seq<SessionView>) -> Seq<u8>
    decreases ss.len(),
{
    if ss.len() == 0 {
        Seq::empty()
    } else {
        spec_encode_record(ss[0]) + spec_concat_records(ss.drop_first())
    }
}

/// The exact wire bytes of one whole payload: magic, big-endian entry
/// count, then every record in order.
pub open spec fn spec_encode_collection(ss: Seq<SessionView>) -> Seq<u8> {
    spec_magic() + spec_u16_to_be_bytes(ss.len() as u16) + spec_concat_records(ss)
}

pub proof fn lemma_concat_records_push(ss: Seq<SessionView>, s: SessionView)
    ensures
        spec_concat_records(ss.push(s)) == spec_concat_records(ss) + spec_encode_record(s),
    decreases ss.len(),
{
    if ss.len() == 0 {
        reveal_with_fuel(spec_concat_records, 3);
        assert(ss.push(s)[0] == s);
        assert(ss.push(s).drop_first() =~= Seq::<SessionView>::empty());
        assert(spec_concat_records(ss.push(s)) =~= spec_concat_records(ss) + spec_encode_record(s));
    } else {
        assert(ss.push(s)[0] == ss[0]);
        assert(ss.push(s).drop_first() =~= ss.drop_first().push(s));
        lemma_concat_records_push(ss.drop_first(), s);
        assert(spec_concat_records(ss.push(s)) =~= spec_concat_records(ss) + spec_encode_record(s));
    }
}

/// No record encodes to fewer bytes than its fixed-width fields alone.
pub proof fn lemma_record_min_length(s: SessionView)
    ensures
        spec_encode_record(s).len() >= 22,
{
}

/// `count` records decoded back to back from `buf` at `pos`; the batch is
/// accepted only if they consume the buffer exactly. A record cut short by
/// the end of the buffer means the declared count was not honoured.
pub open spec fn spec_decode_records(
    buf: Seq<u8>,
    pos: int,
    count: int,
    host: Option<Seq<u8>>,
) -> Result<Seq<SessionView>, EncodeDecodeError>
    decreases count,
{
    if count <= 0 {
        if pos == buf.len() {
            Ok(Seq::empty())
        } else {
            Err(EncodeDecodeError::EntryCountMismatch)
        }
    } else {
        match spec_decode_record(buf, pos, host) {
            Ok((s, end)) => match spec_decode_records(buf, end, count - 1, host) {
                Ok(rest) => Ok(seq![s] + rest),
                Err(e) => Err(e),
            },
            Err(EncodeDecodeError::TruncatedInput) => Err(EncodeDecodeError::EntryCountMismatch),
            Err(e) => Err(e),
        }
    }
}

/// One whole payload decoded: magic checked first, then the declared number
/// of records, each tagged with `host`.
pub open spec fn spec_decode_collection(buf: Seq<u8>, host: Option<Seq<u8>>) -> Result<
    Seq<SessionView>,
    EncodeDecodeError,
> {
    if buf.len() < 4 {
        Err(EncodeDecodeError::TruncatedInput)
    } else if buf.subrange(0, 4) != spec_magic() {
        Err(EncodeDecodeError::BadMagic(buf[0], buf[1], buf[2], buf[3]))
    } else if buf.len() < 6 {
        Err(EncodeDecodeError::TruncatedInput)
    } else {
        spec_decode_records(
            buf,
            6,
            spec_u16_from_be_bytes(buf.subrange(4, 6)) as int,
            host,
        )
    }
}

/// The batch as the decoder returns it: every session tagged with the
/// decoder's host label.
pub open spec fn with_host(ss: Seq<SessionView>, host: Option<Seq<u8>>) -> Seq<SessionView> {
    ss.map_values(|s: SessionView| SessionView { host, ..s })
}

/// Wherever the back-to-back encodings of well-formed sessions fill `buf`
/// exactly from `pos` to its end, decoding that many records succeeds and
/// restores the sessions in order.
#[verifier::rlimit(100)]
pub proof fn lemma_decode_encoded_records(
    buf: Seq<u8>,
    pos: int,
    ss: Seq<SessionView>,
    host: Option<Seq<u8>>,
)
    requires
        collection_wf(ss),
        0 <= pos,
        pos + spec_concat_records(ss).len() == buf.len(),
        buf.subrange(pos, buf.len() as int) == spec_concat_records(ss),
    ensures
        spec_decode_records(buf, pos, ss.len() as int, host) == Ok::<
            Seq<SessionView>,
            EncodeDecodeError,
        >(with_host(ss, host)),
    decreases ss.len(),
{
    let cat = spec_concat_records(ss);
    if ss.len() == 0 {
        assert(with_host(ss, host) =~= Seq::<SessionView>::empty());
    } else {
        let first = ss[0];
        let enc0 = spec_encode_record(first);
        let rest = ss.drop_first();
        let l0 = enc0.len() as int;
        let catrest = spec_concat_records(rest);
        assert(cat == enc0 + catrest);
        assert forall|i: int|
            0 <= i < l0 implies buf.subrange(pos, pos + l0)[i] == enc0[i] by {
            assert(buf.subrange(pos, buf.len() as int)[i] == cat[i]);
        }
        assert(buf.subrange(pos, pos + l0) =~= enc0);
        crate::session::lemma_decode_encoded_record(buf, pos, first, host);
        assert forall|i: int|
            0 <= i < catrest.len() implies buf.subrange(pos + l0, buf.len() as int)[i]
                == catrest[i] by {
            assert(buf.subrange(pos, buf.len() as int)[l0 + i] == cat[l0 + i]);
        }
        assert(buf.subrange(pos + l0, buf.len() as int) =~= catrest);
        lemma_decode_encoded_records(buf, pos + l0, rest, host);
        assert(with_host(ss, host) =~= seq![SessionView { host, ..first }] + with_host(
            rest,
            host,
        ));
    }
}

/// Law: decoding an encoded payload restores the whole batch exactly, with
/// every session tagged by the decoder's host label, which the wire form
/// does not carry.
pub proof fn lemma_collection_round_trip(ss: Seq<SessionView>, host: Option<Seq<u8>>)
    requires
        collection_wf(ss),
        ss.len() <= 65535,
    ensures
        spec_decode_collection(spec_encode_collection(ss), host) == Ok::<
            Seq<SessionView>,
            EncodeDecodeError,
        >(with_host(ss, host)),
{
    let buf = spec_encode_collection(ss);
    assert(buf.subrange(0, 4) =~= spec_magic());
    crate::bytes::lemma_u16_be_bytes_roundtrip(ss.len() as u16);
    assert(buf.subrange(4, 6) =~= spec_u16_to_be_bytes(ss.len() as u16));
    assert(spec_u16_from_be_bytes(buf.subrange(4, 6)) == ss.len());
    assert(buf.subrange(6, buf.len() as int) =~= spec_concat_records(ss));
    lemma_decode_encoded_records(buf, 6, ss, host);
}

impl SessionCollection {
    /// An empty batch.
    pub fn get_empty() -> (r: SessionCollection)
        ensures
            r@ == Seq::<SessionView>::empty(),
    {
        let r = SessionCollection { inner: Vec::new() };
        proof {
            assert(r@ =~= Seq::<SessionView>::empty());
        }
        r
    }

    /// Wraps an already-built list of sessions as a batch.
    pub fn from_vec(sessions: Vec<Session>) -> (r: SessionCollection)
        ensures
            r@ == views_of(sessions@),
    {
        SessionCollection { inner: sessions }
    }

    /// Releases the sessions, in order.
    pub fn into_vec(self) -> (r: Vec<Session>)
        ensures
            views_of(r@) == self@,
    {
        self.inner
    }

    /// How many sessions the batch holds.
    pub fn len(&self) -> (r: usize)
        ensures
            r == self@.len(),
    {
        self.inner.len()
    }

    /// Encodes the batch as one UDP payload. Succeeds exactly when every
    /// record fits `MAX_ENTRY_LENGTH` and the whole payload fits
    /// `MAX_PAYLOAD_LENGTH`; nothing is ever silently truncated.
    pub fn to_udp_payload(self) -> (r: EncodeDecodeResult<Vec<u8>>)
        requires
            collection_wf(self@),
        ensures
            r is Ok <==> (all_entries_fit(self@) && spec_encode_collection(self@).len()
                <= MAX_PAYLOAD_LENGTH),
            match r {
                Ok(bytes) => {
                    &&& bytes@ == spec_encode_collection(self@)
                    &&& bytes@.len() <= MAX_PAYLOAD_LENGTH
                    &&& self@.len() <= 65535
                },
                Err(e) => match e {
                    EncodeDecodeError::EntryTooLarge(l) => exists|i: int|
                        0 <= i < self@.len() && #[trigger] spec_encode_record(self@[i]).len() == l
                            && l > MAX_ENTRY_LENGTH && (forall|j: int|
                            0 <= j < i ==> #[trigger] spec_encode_record(self@[j]).len()
                                <= MAX_ENTRY_LENGTH),
                    EncodeDecodeError::PayloadTooLarge(l) => {
                        &&& all_entries_fit(self@)
                        &&& spec_encode_collection(self@).len() > MAX_PAYLOAD_LENGTH
                        &&& spec_encode_collection(self@).len() <= usize::MAX ==> l
                            == spec_encode_collection(self@).len()
                    },
                    _ => false,
                },
            },
    {
        let n = self.inner.len();
        let mut body: Vec<u8> = Vec::new();
        let mut i: usize = 0;
        while i < n
            invariant
                i <= n,
                n == self@.len(),
                self@ == views_of(self.inner@),
                collection_wf(self@),
                body@ == spec_concat_records(self@.take(i as int)),
                body@.len() >= 22 * i,
                forall|j: int|
                    0 <= j < i ==> #[trigger] spec_encode_record(self@[j]).len()
                        <= MAX_ENTRY_LENGTH,
            decreases n - i,
        {
            proof {
                assert(self@[i as int] == self.inner@[i as int]@);
            }
            let entry = self.inner[i].to_udp_payload();
            if entry.len() > MAX_ENTRY_LENGTH {
                return Err(EncodeDecodeError::EntryTooLarge(entry.len()));
            }
            proof {
                lemma_record_min_length(self@[i as int]);
                lemma_concat_records_push(self@.take(i as int), self@[i as int]);
                assert(self@.take(i as int).push(self@[i as int]) =~= self@.take(i as int + 1));
            }
            body.extend_from_slice(entry.as_slice());
            i += 1;
        }
        proof {
            assert(self@.take(n as int) =~= self@);
        }
        if body.len() > MAX_PAYLOAD_LENGTH - 6 {
            let total = if body.len() <= usize::MAX - 6 {
                body.len() + 6
            } else {
                usize::MAX
            };
            return Err(EncodeDecodeError::PayloadTooLarge(total));
        }
        let mut bytes = whered_magic();
        push_u16_be(&mut bytes, n as u16);
        bytes.extend_from_slice(body.as_slice());
        proof {
            assert(bytes@ =~= spec_encode_collection(self@));
        }
        Ok(bytes)
    }

    /// Decodes one UDP payload into a batch, tagging every session with
    /// `host`. A payload that does not open with the magic token is
    /// rejected outright, whatever follows.
    pub fn from_udp_payload(buf: &[u8], host: &[u8]) -> (r: EncodeDecodeResult<
        SessionCollection,
    >)
        ensures
            match r {
                Ok(c) => {
                    &&& spec_decode_collection(buf@, Some(host@)) == Ok::<
                        Seq<SessionView>,
                        EncodeDecodeError,
                    >(c@)
                    &&& collection_wf(c@)
                    &&& forall|i: int| 0 <= i < c@.len() ==> #[trigger] c@[i].host == Some(host@)
                },
                Err(e) => spec_decode_collection(buf@, Some(host@)) == Err::<
                    Seq<SessionView>,
                    EncodeDecodeError,
                >(e),
            },
            buf@.len() >= 4 && buf@.subrange(0, 4) != spec_magic() ==> r == Err::<
                SessionCollection,
                EncodeDecodeError,
            >(EncodeDecodeError::BadMagic(buf@[0], buf@[1], buf@[2], buf@[3])),
    {
        let n = buf.len();
        if n < 4 {
            return Err(EncodeDecodeError::TruncatedInput);
        }
        let m0 = *vstd::slice::slice_index_get(buf, 0);
        let m1 = *vstd::slice::slice_index_get(buf, 1);
        let m2 = *vstd::slice::slice_index_get(buf, 2);
        let m3 = *vstd::slice::slice_index_get(buf, 3);
        if m0 != 87 || m1 != 72 || m2 != 82 || m3 != 68 {
            proof {
                assert(buf@.subrange(0, 4)[0] == m0 && buf@.subrange(0, 4)[1] == m1
                    && buf@.subrange(0, 4)[2] == m2 && buf@.subrange(0, 4)[3] == m3);
            }
            return Err(EncodeDecodeError::BadMagic(m0, m1, m2, m3));
        }
        proof {
            assert(buf@.subrange(0, 4) =~= spec_magic());
        }
        if n < 6 {
            return Err(EncodeDecodeError::TruncatedInput);
        }
        let count = read_u16_be(buf, 4);
        let ghost whole = spec_decode_records(buf@, 6, count as int, Some(host@));
        proof {
            assert(spec_decode_collection(buf@, Some(host@)) == whole);
        }
        let mut sessions: Vec<Session> = Vec::new();
        let mut pos: usize = 6;
        let mut k: usize = 0;
        while k < count as usize
            invariant
                n == buf@.len(),
                pos <= n,
                k <= count as usize,
                sessions@.len() == k,
                whole == spec_decode_records(buf@, 6, count as int, Some(host@)),
                spec_decode_collection(buf@, Some(host@)) == whole,
                whole == (match spec_decode_records(
                    buf@,
                    pos as int,
                    count - k,
                    Some(host@),
                ) {
                    Ok(rest) => Ok::<Seq<SessionView>, EncodeDecodeError>(
                        views_of(sessions@) + rest,
                    ),
                    Err(e) => Err::<Seq<SessionView>, EncodeDecodeError>(e),
                }),
                collection_wf(views_of(sessions@)),
                forall|i: int|
                    0 <= i < sessions@.len() ==> #[trigger] views_of(sessions@)[i].host == Some(
                        host@,
                    ),
            decreases count - k,
        {
            match Session::from_udp_payload(buf, pos, host) {
                Ok((s, end)) => {
                    proof {
                        assert(views_of(sessions@.push(s)) =~= views_of(sessions@) + seq![s@]);
                        match spec_decode_records(buf@, end as int, count - k - 1, Some(host@)) {
                            Ok(rest) => {
                                assert(views_of(sessions@) + (seq![s@] + rest) =~= (views_of(
                                    sessions@,
                                ) + seq![s@]) + rest);
                            },
                            Err(_) => {},
                        }
                    }
                    sessions.push(s);
                    pos = end;
                    k += 1;
                },
                Err(e) => {
                    match e {
                        EncodeDecodeError::TruncatedInput => {
                            return Err(EncodeDecodeError::EntryCountMismatch);
                        },
                        _ => {
                            return Err(e);
                        },
                    }
                },
            }
        }
        if pos != n {
            return Err(EncodeDecodeError::EntryCountMismatch);
        }
        proof {
            assert(views_of(sessions@) + Seq::<SessionView>::empty() =~= views_of(sessions@));
        }
        Ok(SessionCollection { inner: sessions })
    }
}

} // verus!
