//! Reassembly of fragmented datagrams, one buffer per source.
//!
//! A message that does not fit one datagram travels as a run of fragments.
//! Each fragment starts with a five byte header: the magic byte, a flags
//! byte, the sequence id of the message, a final marker and the index of the
//! fragment. Every fragment but the final one fills its datagram, so the index
//! alone tells where the payload belongs in the message.

use std::collections::HashMap;
use vstd::prelude::*;

verus! {

/// First byte of every fragment datagram.
pub const FRAG_MAGIC: u8 = 0xfa;

/// The one flags value that is understood.
pub const FRAG_FLAGS: u8 = 1;

/// Capacity of a reassembly buffer in bytes.
pub const MAX_MESSAGE_SIZE: usize = 65536;

/// Size of a full datagram, header included.
pub const MAX_UDP: usize = 1460;

/// Size of the fragment header.
pub const FRAG_INFO_SZ: usize = 5;

/// Payload bytes carried by a full datagram.
pub const MAX_LOG_FRAGMENT: usize = MAX_UDP - FRAG_INFO_SZ;

/// Why a datagram, or the message it completed, was dropped.
#[derive(Debug, Clone, Copy, PartialEq, Eq, Structural)]
pub enum FragmentError {
    /// The datagram is shorter than a header.
    TooShort,
    /// The first byte is not the magic byte.
    BadMagic,
    /// The flags byte is not the supported value.
    UnsupportedFlags,
    /// The payload would end beyond the reassembly buffer.
    MessageTooLarge,
    /// A fragment that is not final does not fill its datagram.
    WrongFragmentSize,
    /// The reassembled bytes are not a message.
    CorruptPayload,
}

/// The header fields of one datagram.
#[derive(Debug, Clone, Copy, PartialEq, Eq, Structural)]
pub struct FragInfo {
    pub magic: u8,
    pub flags: u8,
    pub seq: u8,
    pub is_final: bool,
    pub curr: u8,
}

/// What the final fragment of a message announced.
#[derive(Debug, Clone, Copy, PartialEq, Eq, Structural)]
pub struct LastMessage {
    /// Number of fragments the message consists of.
    pub nfrag: u8,
    /// Length of the whole message in bytes.
    pub total_size: usize,
}

/// The state of one source's reassembly, as contracts see it.
pub struct Assembly {
    /// Sequence id of the message in progress.
    pub seq: u8,
    /// Fragments taken in for that message; stops counting at 255.
    pub recv_frag: u8,
    /// Set once a final fragment was taken in.
    pub last: Option<LastMessage>,
    /// The buffer, always `MAX_MESSAGE_SIZE` bytes.
    pub message: Seq<u8>,
}

/// The reason for which a datagram is dropped before any state is looked at.
pub open spec fn header_error(d: Seq<u8>) -> Option<FragmentError> {
    if d.len() < FRAG_INFO_SZ {
        Some(FragmentError::TooShort)
    } else if d[0] != FRAG_MAGIC {
        Some(FragmentError::BadMagic)
    } else if d[1] != FRAG_FLAGS {
        Some(FragmentError::UnsupportedFlags)
    } else {
        None
    }
}

/// The header fields of a datagram of at least header size.
pub open spec fn header_of(d: Seq<u8>) -> FragInfo {
    FragInfo { magic: d[0], flags: d[1], seq: d[2], is_final: d[3] != 0, curr: d[4] }
}

/// Where the payload of a datagram starts in the message.
pub open spec fn payload_begin(d: Seq<u8>) -> int {
    d[4] as int * MAX_LOG_FRAGMENT as int
}

/// Where the payload of a datagram ends in the message.
pub open spec fn payload_end(d: Seq<u8>) -> int {
    payload_begin(d) + d.len() - FRAG_INFO_SZ as int
}

/// An empty reassembly for the given sequence id.
pub open spec fn fresh(seq: u8) -> Assembly {
    Assembly {
        seq,
        recv_frag: 0,
        last: None,
        message: Seq::new(MAX_MESSAGE_SIZE as nat, |i: int| 0u8),
    }
}

/// The state a datagram meets: the stored one if it belongs to the same
/// message, an empty one for the datagram's sequence id otherwise.
pub open spec fn generation(a: Assembly, d: Seq<u8>) -> Assembly {
    if a.seq == d[2] {
        a
    } else {
        fresh(d[2])
    }
}

/// The reason for which a datagram with a good header is dropped, if any.
pub open spec fn fragment_error(d: Seq<u8>) -> Option<FragmentError> {
    if payload_end(d) > MAX_MESSAGE_SIZE {
        Some(FragmentError::MessageTooLarge)
    } else if d[3] == 0 && d.len() != MAX_UDP {
        Some(FragmentError::WrongFragmentSize)
    } else {
        None
    }
}

/// The fragment count after one more fragment.
pub open spec fn count_up(n: u8) -> u8 {
    if n < u8::MAX {
        (n + 1) as u8
    } else {
        n
    }
}

/// The state of a source after a datagram with a good header.
pub open spec fn accepted(a: Assembly, d: Seq<u8>) -> Assembly {
    let cur = generation(a, d);
    if fragment_error(d) is Some {
        cur
    } else {
        Assembly {
            seq: cur.seq,
            recv_frag: count_up(cur.recv_frag),
            last: if d[3] != 0 {
                Some(
                    LastMessage {
                        nfrag: (d[4] + 1) as u8,
                        total_size: payload_end(d) as usize,
                    },
                )
            } else {
                cur.last
            },
            message: cur.message.subrange(0, payload_begin(d)) + d.subrange(
                FRAG_INFO_SZ as int,
                d.len() as int,
            ) + cur.message.subrange(payload_end(d), MAX_MESSAGE_SIZE as int),
        }
    }
}

/// The message that a state holds complete, if it does.
pub open spec fn completed(a: Assembly) -> Option<Seq<u8>> {
    match a.last {
        Some(last) if last.nfrag == a.recv_frag => Some(
            a.message.subrange(0, last.total_size as int),
        ),
        _ => None,
    }
}

/// What a datagram with a good header yields: an error, nothing yet, or the
/// message it completed.
pub open spec fn outcome(a: Assembly, d: Seq<u8>) -> Result<Option<Seq<u8>>, FragmentError> {
    match fragment_error(d) {
        Some(e) => Err(e),
        None => Ok(completed(accepted(a, d))),
    }
}

/// Whether an executable result is the one a contract names.
pub open spec fn same_outcome(
    r: Result<Option<Vec<u8>>, FragmentError>,
    o: Result<Option<Seq<u8>>, FragmentError>,
) -> bool {
    match r {
        Ok(Some(v)) => o == Ok::<Option<Seq<u8>>, FragmentError>(Some(v@)),
        Ok(None) => o == Ok::<Option<Seq<u8>>, FragmentError>(None),
        Err(e) => o == Err::<Option<Seq<u8>>, FragmentError>(e),
    }
}

impl FragInfo {
    /// Reads the header of a datagram and checks its fixed fields.
    pub fn parse(buf: &[u8]) -> (r: Result<FragInfo, FragmentError>)
        ensures
            match header_error(buf@) {
                Some(e) => r == Err::<FragInfo, FragmentError>(e),
                None => r == Ok::<FragInfo, FragmentError>(header_of(buf@)),
            },
    {
        if buf.len() < FRAG_INFO_SZ {
            return Err(FragmentError::TooShort);
        }
        let info = FragInfo {
            magic: buf[0],
            flags: buf[1],
            seq: buf[2],
            is_final: buf[3] != 0,
            curr: buf[4],
        };
        if info.magic != FRAG_MAGIC {
            return Err(FragmentError::BadMagic);
        }
        if info.flags != FRAG_FLAGS {
            return Err(FragmentError::UnsupportedFlags);
        }
        Ok(info)
    }
}

/// The reassembly state of one source.
pub struct Fragments {
    seq: u8,
    recv_frag: u8,
    last: Option<LastMessage>,
    message: Vec<u8>,
}

impl View for Fragments {
    type V = Assembly;

    closed spec fn view(&self) -> Assembly {
        Assembly {
            seq: self.seq,
            recv_frag: self.recv_frag,
            last: self.last,
            message: self.message@,
        }
    }
}

/// The greatest number of fragments that a message can have: so many fit
/// the buffer.
pub const MAX_FRAGMENTS: u8 = 46;

/// What holds of every stored state: the buffer has its full size, and an
/// announced length lies within it and an announced number of fragments
/// within what the buffer can hold.
pub open spec fn well_formed(a: Assembly) -> bool {
    &&& a.message.len() == MAX_MESSAGE_SIZE
    &&& match a.last {
        Some(last) => last.total_size <= MAX_MESSAGE_SIZE && 1 <= last.nfrag <= MAX_FRAGMENTS,
        None => true,
    }
}

/// An empty reassembly state with sequence id 0.
pub fn init_new_fragments() -> (r: Fragments)
    ensures
        r@ == fresh(0),
        well_formed(r@),
{
    let r = Fragments { seq: 0, recv_frag: 0, last: None, message: vec![0u8; MAX_MESSAGE_SIZE] };
    assert(r.message@ =~= fresh(0).message);
    r
}

impl Fragments {
    #[verifier::type_invariant]
    spec fn inv(&self) -> bool {
        well_formed(self@)
    }

    /// Sequence id of the message in progress.
    pub fn seq(&self) -> (r: u8)
        ensures
            r == self@.seq,
    {
        self.seq
    }

    /// Number of fragments taken in for the message in progress.
    pub fn recv_frag(&self) -> (r: u8)
        ensures
            r == self@.recv_frag,
    {
        self.recv_frag
    }

    /// What the final fragment announced, once one was taken in.
    pub fn last(&self) -> (r: Option<LastMessage>)
        ensures
            r == self@.last,
    {
        self.last
    }

    /// Takes in one datagram whose header `info` was read from `buf`, and
    /// hands the state back together with what the datagram yielded.
    pub fn add(self, info: FragInfo, buf: &[u8]) -> (r: (
        Fragments,
        Result<Option<Vec<u8>>, FragmentError>,
    ))
        requires
            header_error(buf@) is None,
            info == header_of(buf@),
        ensures
            r.0@ == accepted(self@, buf@),
            same_outcome(r.1, outcome(self@, buf@)),
            well_formed(r.0@),
    {
        proof {
            use_type_invariant(&self);
        }
        let cur = if self.seq != info.seq {
            let zeroed = init_new_fragments();
            Fragments { seq: info.seq, recv_frag: 0, last: None, message: zeroed.message }
        } else {
            self
        };
        assert(cur@ == generation(self@, buf@));
        proof {
            use_type_invariant(&cur);
        }
        let payload_len: usize = buf.len() - FRAG_INFO_SZ;
        let begin: usize = (info.curr as usize) * MAX_LOG_FRAGMENT;
        if payload_len > MAX_MESSAGE_SIZE || begin > MAX_MESSAGE_SIZE - payload_len {
            return (cur, Err(FragmentError::MessageTooLarge));
        }
        let end: usize = begin + payload_len;
        if !info.is_final && buf.len() != MAX_UDP {
            return (cur, Err(FragmentError::WrongFragmentSize));
        }
        let ghost before = cur@;
        assert(MAX_LOG_FRAGMENT == 1455);
        assert(begin == info.curr * 1455) by (nonlinear_arith)
            requires
                begin == info.curr * MAX_LOG_FRAGMENT,
                MAX_LOG_FRAGMENT == 1455,
        ;
        assert(info.curr <= 45);
        let Fragments { seq, recv_frag, last, mut message } = cur;
        let last = if info.is_final {
            Some(LastMessage { nfrag: info.curr + 1, total_size: end })
        } else {
            last
        };
        let mut i: usize = 0;
        while i < payload_len
            invariant
                i <= payload_len,
                payload_len == buf@.len() - FRAG_INFO_SZ,
                end == begin + payload_len,
                end <= MAX_MESSAGE_SIZE,
                message@.len() == MAX_MESSAGE_SIZE,
                forall|j: int| 0 <= j < begin ==> message@[j] == before.message[j],
                forall|j: int|
                    begin <= j < begin + i ==> #[trigger] message@[j] == buf@[j - begin
                        + FRAG_INFO_SZ],
                forall|j: int| begin + i <= j < MAX_MESSAGE_SIZE ==> message@[j] == before.message[j],
            decreases payload_len - i,
        {
            message.set(begin + i, buf[FRAG_INFO_SZ + i]);
            i = i + 1;
        }
        let recv_frag = if recv_frag < u8::MAX {
            recv_frag + 1
        } else {
            recv_frag
        };
        assert(message@ =~= accepted(self@, buf@).message);
        let whole = match last {
            Some(l) if l.nfrag == recv_frag => {
                let bytes = vstd::slice::slice_subrange(message.as_slice(), 0, l.total_size);
                Some(vstd::slice::slice_to_vec(bytes))
            },
            _ => None,
        };
        let next = Fragments { seq, recv_frag, last, message };
        proof {
            use_type_invariant(&next);
        }
        (next, Ok(whole))
    }
}

/// The state that a datagram from `src` meets: the stored one, or an empty
/// one with sequence id 0 for a source not heard before.
pub open spec fn stored(m: Map<u64, Assembly>, src: u64) -> Assembly {
    if m.contains_key(src) {
        m[src]
    } else {
        fresh(0)
    }
}

/// The states of all sources after a datagram from `src`: one with a bad
/// header changes nothing, any other changes the state of `src` alone.
pub open spec fn taken(m: Map<u64, Assembly>, src: u64, d: Seq<u8>) -> Map<u64, Assembly> {
    if header_error(d) is Some {
        m
    } else {
        m.insert(src, accepted(stored(m, src), d))
    }
}

/// What a datagram from `src` yields: the error of its header, or what it
/// yields in the state that it meets.
pub open spec fn yielded(m: Map<u64, Assembly>, src: u64, d: Seq<u8>) -> Result<
    Option<Seq<u8>>,
    FragmentError,
> {
    match header_error(d) {
        Some(e) => Err(e),
        None => outcome(stored(m, src), d),
    }
}

/// Whether a datagram is a keep-alive: one to three bytes.
pub open spec fn keep_alive(d: Seq<u8>) -> bool {
    1 <= d.len() <= 3
}

/// What came in with a datagram.
#[derive(Debug, PartialEq, Eq)]
pub enum Datagram {
    /// A keep-alive, which is no fragment.
    KeepAlive,
    /// A fragment, with what it yielded.
    Fragment(Result<Option<Vec<u8>>, FragmentError>),
}

/// Whether every stored state is well formed.
pub open spec fn all_well_formed(m: Map<u64, Assembly>) -> bool {
    forall|k: u64| m.contains_key(k) ==> well_formed(#[trigger] m[k])
}

/// The reassembly states of all sources, keyed by source id.
pub struct FragmentCombiner {
    hosts: HashMap<u64, Fragments>,
}

impl View for FragmentCombiner {
    type V = Map<u64, Assembly>;

    closed spec fn view(&self) -> Map<u64, Assembly> {
        self.hosts@.map_values(|f: Fragments| f@)
    }
}

impl FragmentCombiner {
    /// A combiner that has heard from no source.
    pub fn new() -> (r: FragmentCombiner)
        ensures
            r@ == Map::<u64, Assembly>::empty(),
    {
        let r = FragmentCombiner { hosts: HashMap::new() };
        assert(r@ =~= Map::<u64, Assembly>::empty());
        r
    }

    /// Takes in one datagram from the source `src`.
    ///
    /// A datagram with a bad header changes nothing. Any other datagram
    /// changes the state of `src` alone, and yields the reassembled message
    /// when it completes one.
    pub fn add_fragment(&mut self, src: u64, buf: &[u8]) -> (r: Result<
        Option<Vec<u8>>,
        FragmentError,
    >)
        ensures
            final(self)@ == taken(old(self)@, src, buf@),
            same_outcome(r, yielded(old(self)@, src, buf@)),
            all_well_formed(old(self)@) ==> all_well_formed(final(self)@),
            buf@.len() >= FRAG_INFO_SZ && buf@[3] == 0 && buf@.len() != MAX_UDP ==> r is Err,
    {
        broadcast use vstd::std_specs::hash::group_hash_axioms;

        let info = match FragInfo::parse(buf) {
            Ok(info) => info,
            Err(e) => {
                return Err(e);
            },
        };
        let prior = match self.hosts.remove(&src) {
            Some(f) => f,
            None => init_new_fragments(),
        };
        assert(prior@ == stored(old(self)@, src));
        let (next, r) = prior.add(info, buf);
        proof {
            use_type_invariant(&next);
        }
        self.hosts.insert(src, next);
        assert(self@ =~= old(self)@.insert(src, accepted(stored(old(self)@, src), buf@)));
        r
    }

    /// Takes in whatever came from the source `src`: a keep-alive is told
    /// apart before any header is looked at and changes nothing, anything
    /// else is taken in as a fragment.
    pub fn receive(&mut self, src: u64, buf: &[u8]) -> (r: Datagram)
        ensures
            keep_alive(buf@) ==> r == Datagram::KeepAlive && final(self)@ == old(self)@,
            !keep_alive(buf@) ==> {
                &&& final(self)@ == taken(old(self)@, src, buf@)
                &&& r matches Datagram::Fragment(f) && same_outcome(
                    f,
                    yielded(old(self)@, src, buf@),
                )
            },
            all_well_formed(old(self)@) ==> all_well_formed(final(self)@),
    {
        if is_keep_alive(buf) {
            Datagram::KeepAlive
        } else {
            Datagram::Fragment(self.add_fragment(src, buf))
        }
    }
}

/// The source id of a network endpoint, given by its address and port.
pub fn source_id(host: u32, port: u16) -> (r: u64)
    ensures
        r == host as int * 65536 + port as int,
{
    (host as u64) * 65536 + (port as u64)
}

/// Two endpoints have the same source id only if they are the same endpoint.
pub proof fn lemma_source_id_injective(host_a: u32, port_a: u16, host_b: u32, port_b: u16)
    requires
        host_a as int * 65536 + port_a as int == host_b as int * 65536 + port_b as int,
    ensures
        host_a == host_b,
        port_a == port_b,
{
}

/// Whether a datagram is a keep-alive.
pub fn is_keep_alive(buf: &[u8]) -> (r: bool)
    ensures
        r == keep_alive(buf@),
{
    1 <= buf.len() && buf.len() <= 3
}

/// What becomes of a reassembled message once its bytes were decoded:
/// bytes that are no message are reported as a corrupt payload.
pub fn decoded<M>(parsed: Option<M>) -> (r: Result<M, FragmentError>)
    ensures
        r == match parsed {
            Some(m) => Ok::<M, FragmentError>(m),
            None => Err::<M, FragmentError>(FragmentError::CorruptPayload),
        },
{
    match parsed {
        Some(m) => Ok(m),
        None => Err(FragmentError::CorruptPayload),
    }
}

/// The number of fragments in which a message of `len` bytes travels.
pub open spec fn fragment_count(len: int) -> int {
    if len <= 0 {
        1
    } else {
        (len + MAX_LOG_FRAGMENT - 1) / (MAX_LOG_FRAGMENT as int)
    }
}

/// Where fragment `i` of a message of `len` bytes ends in the message.
pub open spec fn fragment_end(len: int, i: int) -> int {
    if i == fragment_count(len) - 1 {
        len
    } else {
        (i + 1) * MAX_LOG_FRAGMENT
    }
}

/// The datagram that carries fragment `i` of `payload` under sequence id
/// `seq`: every fragment but the last is full, and the last is marked final.
pub open spec fn fragment(payload: Seq<u8>, seq: u8, i: int) -> Seq<u8> {
    seq![
        FRAG_MAGIC,
        FRAG_FLAGS,
        seq,
        if i == fragment_count(payload.len() as int) - 1 { 1u8 } else { 0u8 },
        i as u8,
    ] + payload.subrange(i * MAX_LOG_FRAGMENT, fragment_end(payload.len() as int, i))
}

/// Whether `order` names each fragment of a message of `len` bytes once.
pub open spec fn is_fragment_order(order: Seq<int>, len: int) -> bool {
    &&& order.len() == fragment_count(len)
    &&& order.no_duplicates()
    &&& forall|k: int| 0 <= k < order.len() ==> 0 <= #[trigger] order[k] < fragment_count(len)
}

/// The datagrams of `payload` in the order in which `order` names them.
pub open spec fn sent(payload: Seq<u8>, seq: u8, order: Seq<int>) -> Seq<Seq<u8>> {
    Seq::new(order.len(), |k: int| fragment(payload, seq, order[k]))
}

/// The state of a source after it took in `datagrams` one after the other.
pub open spec fn run(a: Assembly, datagrams: Seq<Seq<u8>>) -> Assembly
    decreases datagrams.len(),
{
    if datagrams.len() == 0 {
        a
    } else {
        accepted(run(a, datagrams.drop_last()), datagrams.last())
    }
}

/// Whether a message of sequence id `seq` may start in state `a`: either
/// the state belongs to another message, or nothing was taken in yet.
pub open spec fn ready_for(a: Assembly, seq: u8) -> bool {
    a.seq != seq || (well_formed(a) && a.recv_frag == 0 && a.last is None)
}

proof fn lemma_fragment_shape(payload: Seq<u8>, seq: u8, i: int)
    requires
        payload.len() <= MAX_MESSAGE_SIZE,
        0 <= i < fragment_count(payload.len() as int),
    ensures
        fragment_count(payload.len() as int) <= 46,
        i * MAX_LOG_FRAGMENT <= fragment_end(payload.len() as int, i) <= payload.len(),
        fragment_end(payload.len() as int, i) - i * MAX_LOG_FRAGMENT <= MAX_LOG_FRAGMENT,
        header_error(fragment(payload, seq, i)) is None,
        fragment_error(fragment(payload, seq, i)) is None,
        fragment(payload, seq, i)[2] == seq,
        (fragment(payload, seq, i)[3] != 0) == (i == fragment_count(payload.len() as int) - 1),
        payload_begin(fragment(payload, seq, i)) == i * MAX_LOG_FRAGMENT,
        payload_end(fragment(payload, seq, i)) == fragment_end(payload.len() as int, i),
        fragment(payload, seq, i).subrange(
            FRAG_INFO_SZ as int,
            fragment(payload, seq, i).len() as int,
        ) == payload.subrange(i * MAX_LOG_FRAGMENT, fragment_end(payload.len() as int, i)),
{
    let len = payload.len() as int;
    let n = fragment_count(len);
    assert(MAX_LOG_FRAGMENT == 1455);
    if len > 0 {
        assert(n == (len + 1454) / 1455);
        assert((n - 1) * 1455 < len <= n * 1455);
    }
    assert(i * 1455 <= (n - 1) * 1455);
    let d = fragment(payload, seq, i);
    let body = payload.subrange(i * MAX_LOG_FRAGMENT, fragment_end(len, i));
    assert(d.len() == 5 + body.len());
    assert(d[0] == FRAG_MAGIC);
    assert(d[1] == FRAG_FLAGS);
    assert(d[2] == seq);
    assert(d[4] == i as u8);
    assert(d.subrange(FRAG_INFO_SZ as int, d.len() as int) =~= body);
}

/// A sequence of `n` different numbers below `n` holds every number below
/// `n`.
proof fn lemma_order_holds_all(order: Seq<int>, n: int, v: int)
    requires
        order.len() == n,
        order.no_duplicates(),
        forall|k: int| 0 <= k < order.len() ==> 0 <= #[trigger] order[k] < n,
        0 <= v < n,
    ensures
        exists|k: int| 0 <= k < n && order[k] == v,
{
    if !order.contains(v) {
        let values = order.to_set();
        let others = vstd::set_lib::set_int_range(0, n).remove(v);
        order.unique_seq_to_set();
        vstd::set_lib::lemma_int_range(0, n);
        assert forall|x: int| values.contains(x) implies others.contains(x) by {
            let k = choose|k: int| 0 <= k < order.len() && order[k] == x;
            assert(order[k] == x);
        }
        vstd::set_lib::lemma_len_subset(values, others);
    }
    let k = choose|k: int| 0 <= k < order.len() && order[k] == v;
    assert(0 <= k < n && order[k] == v);
}

/// What holds of the state that the `k`-th datagram of a message meets.
spec fn progress(e: Assembly, payload: Seq<u8>, seq: u8, order: Seq<int>, k: int) -> bool {
    let n = fragment_count(payload.len() as int);
    &&& e.seq == seq
    &&& e.message.len() == MAX_MESSAGE_SIZE
    &&& e.recv_frag == k
    &&& e.last == if exists|j: int| 0 <= j < k && order[j] == n - 1 {
        Some(LastMessage { nfrag: n as u8, total_size: payload.len() as usize })
    } else {
        None
    }
    &&& forall|j: int, p: int|
        0 <= j < k && #[trigger] in_fragment(payload.len() as int, order[j], p) ==> e.message[p]
            == payload[p]
}

/// Whether byte `p` of a message of `len` bytes travels in fragment `i`.
spec fn in_fragment(len: int, i: int, p: int) -> bool {
    i * MAX_LOG_FRAGMENT <= p < fragment_end(len, i)
}

proof fn lemma_progress(a: Assembly, payload: Seq<u8>, seq: u8, order: Seq<int>, k: int)
    requires
        payload.len() <= MAX_MESSAGE_SIZE,
        is_fragment_order(order, payload.len() as int),
        ready_for(a, seq),
        0 <= k < order.len(),
    ensures
        progress(
            generation(run(a, sent(payload, seq, order).take(k)), sent(payload, seq, order)[k]),
            payload,
            seq,
            order,
            k,
        ),
    decreases k,
{
    let n = fragment_count(payload.len() as int);
    let ds = sent(payload, seq, order);
    let d = ds[k];
    lemma_fragment_shape(payload, seq, order[k]);
    if k == 0 {
        assert(ds.take(0) =~= Seq::<Seq<u8>>::empty());
        assert(run(a, ds.take(0)) == a);
    } else {
        lemma_progress(a, payload, seq, order, k - 1);
        lemma_fragment_shape(payload, seq, order[k - 1]);
        let before = run(a, ds.take(k - 1));
        let c = ds[k - 1];
        let e = generation(before, c);
        assert(ds.take(k).drop_last() =~= ds.take(k - 1));
        assert(ds.take(k).last() == c);
        let after = run(a, ds.take(k));
        assert(after == accepted(before, c));
        assert(after.seq == seq);
        assert(generation(after, d) == after);
        let i = order[k - 1];
        let begin = i * MAX_LOG_FRAGMENT;
        let end = fragment_end(payload.len() as int, i);
        let seen_before = exists|j: int| 0 <= j < k - 1 && order[j] == n - 1;
        let seen_now = exists|j: int| 0 <= j < k && order[j] == n - 1;
        if i == n - 1 {
            assert(0 <= k - 1 < k && order[k - 1] == n - 1);
            assert(seen_now);
        } else {
            if seen_now {
                let j = choose|j: int| 0 <= j < k && order[j] == n - 1;
                assert(0 <= j < k - 1 && order[j] == n - 1);
            }
            assert(seen_now == seen_before);
        }
        assert forall|j: int, p: int|
            0 <= j < k && #[trigger] in_fragment(
                payload.len() as int,
                order[j],
                p,
            ) implies after.message[p] == payload[p] by {
            lemma_fragment_shape(payload, seq, order[j]);
            if j == k - 1 {
                assert(after.message[p] == c.subrange(FRAG_INFO_SZ as int, c.len() as int)[p
                    - begin]);
            } else {
                assert(order[j] != order[k - 1]);
                assert(e.message[p] == payload[p]);
                if order[j] < i {
                    assert(p < begin);
                } else {
                    assert(p >= end);
                }
            }
        }
    }
}

/// Order independence: whatever the order in which the fragments of one
/// message arrive, the datagram that arrives last, and no earlier one,
/// yields the message, and it is the message that was fragmented.
///
/// The message may start in any state of another sequence id, which the
/// first fragment discards, or in a state that has taken in nothing.
pub proof fn lemma_reassembly_any_order(a: Assembly, payload: Seq<u8>, seq: u8, order: Seq<int>)
    requires
        payload.len() <= MAX_MESSAGE_SIZE,
        is_fragment_order(order, payload.len() as int),
        ready_for(a, seq),
    ensures
        forall|k: int|
            0 <= k < order.len() ==> header_error(#[trigger] sent(payload, seq, order)[k]) is None,
        forall|k: int|
            0 <= k < order.len() - 1 ==> outcome(
                run(a, sent(payload, seq, order).take(k)),
                #[trigger] sent(payload, seq, order)[k],
            ) == Ok::<Option<Seq<u8>>, FragmentError>(None),
        outcome(
            run(a, sent(payload, seq, order).take(order.len() - 1)),
            sent(payload, seq, order)[order.len() - 1],
        ) == Ok::<Option<Seq<u8>>, FragmentError>(Some(payload)),
{
    let n = fragment_count(payload.len() as int);
    let ds = sent(payload, seq, order);
    assert forall|k: int| 0 <= k < order.len() implies header_error(#[trigger] ds[k]) is None
        && outcome(run(a, ds.take(k)), ds[k]) == Ok::<Option<Seq<u8>>, FragmentError>(
        if k == n - 1 {
            Some(payload)
        } else {
            None
        },
    ) by {
        let s = run(a, ds.take(k));
        let d = ds[k];
        let e = generation(s, d);
        let i = order[k];
        lemma_progress(a, payload, seq, order, k);
        lemma_fragment_shape(payload, seq, i);
        let next = accepted(s, d);
        assert(next.recv_frag == k + 1);
        let seen = exists|j: int| 0 <= j < k && order[j] == n - 1;
        if k < n - 1 {
            if i != n - 1 && !seen {
                assert(next.last is None);
            }
        } else {
            lemma_order_holds_all(order, n, n - 1);
            let j = choose|j: int| 0 <= j < n && order[j] == n - 1;
            if j < k {
                assert(seen);
            } else {
                assert(i == n - 1);
            }
            assert(next.last == Some(
                LastMessage { nfrag: n as u8, total_size: payload.len() as usize },
            ));
            let whole = next.message.subrange(0, payload.len() as int);
            assert forall|p: int| 0 <= p < payload.len() implies whole[p] == payload[p] by {
                assert(MAX_LOG_FRAGMENT == 1455);
                let f = p / 1455;
                assert(f * 1455 <= p < (f + 1) * 1455);
                assert(0 <= f < n);
                lemma_order_holds_all(order, n, f);
                let j = choose|j: int| 0 <= j < n && order[j] == f;
                lemma_fragment_shape(payload, seq, f);
                assert(p < fragment_end(payload.len() as int, f));
                if j < k {
                    assert(in_fragment(payload.len() as int, order[j], p));
                    assert(e.message[p] == payload[p]);
                    assert(order[j] != order[k]);
                    if f < i {
                        assert(p < i * MAX_LOG_FRAGMENT);
                    } else {
                        assert(p >= fragment_end(payload.len() as int, i));
                    }
                } else {
                    assert(f == i);
                    assert(next.message[p] == d.subrange(FRAG_INFO_SZ as int, d.len() as int)[p
                        - i * MAX_LOG_FRAGMENT]);
                }
            }
            assert(whole =~= payload);
        }
    }
}

/// Round trip: the fragments of a message, taken in from first to last,
/// yield the message with the last fragment and nothing before.
pub proof fn lemma_reassembly_in_order(a: Assembly, payload: Seq<u8>, seq: u8)
    requires
        payload.len() <= MAX_MESSAGE_SIZE,
        ready_for(a, seq),
    ensures
        ({
            let n = fragment_count(payload.len() as int);
            let ds = Seq::new(n as nat, |i: int| fragment(payload, seq, i));
            &&& forall|k: int|
                0 <= k < n - 1 ==> outcome(run(a, ds.take(k)), #[trigger] ds[k]) == Ok::<
                    Option<Seq<u8>>,
                    FragmentError,
                >(None)
            &&& outcome(run(a, ds.take(n - 1)), ds[n - 1]) == Ok::<Option<Seq<u8>>, FragmentError>(
                Some(payload),
            )
        }),
{
    let n = fragment_count(payload.len() as int);
    let order = Seq::new(n as nat, |i: int| i);
    let ds = Seq::new(n as nat, |i: int| fragment(payload, seq, i));
    assert(sent(payload, seq, order) =~= ds);
    lemma_reassembly_any_order(a, payload, seq, order);
}

/// Generation reset: a datagram of another sequence id than the stored one
/// is taken in as if nothing had been stored before it.
pub proof fn lemma_generation_reset(a: Assembly, d: Seq<u8>)
    requires
        header_error(d) is None,
        a.seq != d[2],
    ensures
        accepted(a, d) == accepted(fresh(d[2]), d),
        outcome(a, d) == outcome(fresh(d[2]), d),
{
}

/// Whether a state has taken in as many fragments as its message has, or
/// more.
pub open spec fn is_complete(a: Assembly) -> bool {
    a.last matches Some(last) && last.nfrag <= a.recv_frag
}

/// No second message: once a state has taken in as many fragments as its
/// message has, no further fragment of that message yields it again,
/// unless it is a final fragment that announces more fragments than were
/// taken in; and the state stays complete.
pub proof fn lemma_no_second_message(a: Assembly, d: Seq<u8>)
    requires
        well_formed(a),
        header_error(d) is None,
        is_complete(a),
        a.seq == d[2],
        d[3] != 0 ==> d[4] < a.recv_frag,
    ensures
        outcome(a, d) is Err || outcome(a, d) == Ok::<Option<Seq<u8>>, FragmentError>(None),
        is_complete(accepted(a, d)),
        well_formed(accepted(a, d)),
{
    assert(MAX_LOG_FRAGMENT == 1455);
}

/// Every state that a datagram leaves behind is well formed.
pub proof fn lemma_accepted_well_formed(a: Assembly, d: Seq<u8>)
    requires
        well_formed(a),
        header_error(d) is None,
    ensures
        well_formed(accepted(a, d)),
{
    assert(MAX_LOG_FRAGMENT == 1455);
}

/// A fragment that is not final and does not fill its datagram is rejected,
/// whatever the state and whatever it carries.
pub proof fn lemma_partial_fragment_rejected(a: Assembly, d: Seq<u8>)
    requires
        header_error(d) is None,
        d[3] == 0,
        d.len() != MAX_UDP,
    ensures
        outcome(a, d) is Err,
        accepted(a, d) == generation(a, d),
{
}

} // verus!
