//! The relay state machine.
//!
//! One `Relay` value owns the accumulation buffer for the lifetime of one
//! session. Each iteration of the surrounding loop races the two channel
//! reads and hands the winning outcome to [`Relay::handle_event`] as an
//! [`Event`]; the relay decides what to do and returns the transfers to
//! perform as [`Action`]s. All buffer decisions live here; the channel
//! I/O that produces the events and performs the actions does not.
//!
//! Three buffer policies are deliberate and contractual:
//! - appending bytes that would exceed the buffer's capacity resets the
//!   buffer and rejects the incoming bytes, and the session continues;
//! - a header or address mismatch clears the buffer instead of leaving
//!   unparseable bytes in place, where they would stall detection forever;
//! - after extracting a frame, detection is re-run on the leftover bytes,
//!   so a burst holding several complete frames forwards all of them.

use vstd::prelude::*;
use crate::detector::Detection;
use crate::detector::detect;
use crate::detector::spec_detect;
use crate::detector::spec_declared_len;
use crate::hbuf::contents;
use crate::hbuf::buf_new;
use crate::hbuf::buf_as_slice;
use crate::hbuf::buf_extend;
use crate::hbuf::buf_clear;

verus! {

/// One outcome of racing the two channel reads, as the caller saw it.
#[derive(Debug, PartialEq, Eq)]
pub enum Event {
    /// A discrete host message arrived.
    HostMessage(Vec<u8>),
    /// The host-channel read failed; non-fatal.
    HostReadError,
    /// Device-channel bytes arrived, in arrival order.
    DeviceBytes(Vec<u8>),
    /// The device line reported a break; expected, benign.
    DeviceBreak,
    /// The device-channel read failed; non-fatal.
    DeviceReadError,
    /// The device-channel read timed out; expected under polling.
    DeviceTimeout,
}

/// One transfer the caller must perform after an event was handled.
#[derive(Debug, PartialEq, Eq)]
pub enum Action {
    /// Write these bytes to the device channel in a single write.
    ForwardToDevice(Vec<u8>),
    /// Write these bytes to the host channel in a single write.
    ForwardToHost(Vec<u8>),
}

/// The payload bytes an action carries.
pub open spec fn action_bytes(a: Action) -> Seq<u8> {
    match a {
        Action::ForwardToDevice(d) => d@,
        Action::ForwardToHost(d) => d@,
    }
}

/// Every action in the sequence forwards to the host channel.
pub open spec fn all_to_host(s: Seq<Action>) -> bool {
    forall|i: int| 0 <= i < s.len() ==> s[i] is ForwardToHost
}

/// The payloads of a sequence of actions, in order.
pub open spec fn action_payloads(s: Seq<Action>) -> Seq<Seq<u8>> {
    s.map(|i: int, a: Action| action_bytes(a))
}

/// The frames extracted greedily from the front of `b`, in order, paired
/// with the bytes that remain buffered afterwards. A header or address
/// mismatch clears the buffer, so a mismatch yields no frames and leaves
/// nothing behind.
pub open spec fn spec_extract(b: Seq<u8>, addr: Seq<u8>) -> (Seq<Seq<u8>>, Seq<u8>)
    decreases b.len(),
{
    match spec_detect(b, addr) {
        Detection::Frame(l) => {
            if 0 < l <= b.len() {
                let tail = spec_extract(b.skip(l as int), addr);
                (seq![b.take(l as int)] + tail.0, tail.1)
            } else {
                (Seq::<Seq<u8>>::empty(), b)
            }
        }
        Detection::Incomplete => (Seq::<Seq<u8>>::empty(), b),
        Detection::Invalid => (Seq::<Seq<u8>>::empty(), Seq::<u8>::empty()),
    }
}

/// A detected frame length always lies between the minimum frame size and
/// the buffer's own length.
pub proof fn lemma_frame_len_bounds(b: Seq<u8>, addr: Seq<u8>, l: usize)
    requires
        spec_detect(b, addr) == Detection::Frame(l),
    ensures
        12 <= l <= b.len(),
{
}

/// Splitting the device stream over two reads does not change what is
/// forwarded: when the bytes of the first read alone hold no complete
/// frame and no mismatch, handling them forwards nothing and leaves
/// exactly those bytes buffered, so the second read decides over the
/// concatenation — the same frames and the same leftover bytes as a
/// single read delivering both parts at once.
pub proof fn lemma_incremental_accumulation(b1: Seq<u8>, b2: Seq<u8>, addr: Seq<u8>)
    requires
        spec_detect(b1, addr) is Incomplete,
    ensures
        spec_extract(b1, addr) == (Seq::<Seq<u8>>::empty(), b1),
        spec_extract(spec_extract(b1, addr).1 + b2, addr) == spec_extract(b1 + b2, addr),
{
}

/// Every frame the extractor yields is itself one complete frame for the
/// same address: detection on the forwarded bytes alone reports exactly
/// their length, so each forwarded message is a whole frame, nothing more
/// and nothing less.
pub proof fn lemma_extracted_frames_complete(b: Seq<u8>, addr: Seq<u8>)
    ensures
        forall|k: int|
            0 <= k < spec_extract(b, addr).0.len() ==> spec_detect(
                #[trigger] spec_extract(b, addr).0[k],
                addr,
            ) == Detection::Frame(spec_extract(b, addr).0[k].len() as usize),
    decreases b.len(),
{
    match spec_detect(b, addr) {
        Detection::Frame(l) => {
            lemma_frame_len_bounds(b, addr, l);
            let head = b.take(l as int);
            assert(spec_declared_len(head) == spec_declared_len(b));
            assert(spec_detect(head, addr) == Detection::Frame(l));
            lemma_extracted_frames_complete(b.skip(l as int), addr);
            let tail = spec_extract(b.skip(l as int), addr);
            assert forall|k: int| 0 <= k < spec_extract(b, addr).0.len() implies spec_detect(
                #[trigger] spec_extract(b, addr).0[k],
                addr,
            ) == Detection::Frame(spec_extract(b, addr).0[k].len() as usize) by {
                if k == 0 {
                    assert(spec_extract(b, addr).0[k] == head);
                } else {
                    assert(spec_extract(b, addr).0[k] == tail.0[k - 1]);
                }
            }
        },
        Detection::Incomplete => {},
        Detection::Invalid => {},
    }
}

/// The relay's state: the bounded accumulation buffer and the 4-byte
/// device address this bridge instance expects, owned for one session.
pub struct Relay {
    buf: heapless::Vec<u8, 256>,
    address: [u8; 4],
}

impl View for Relay {
    type V = Seq<u8>;

    /// The bytes currently buffered, front first.
    closed spec fn view(&self) -> Seq<u8> {
        contents(self.buf)
    }
}

impl Relay {
    /// The address this session expects in every frame.
    pub closed spec fn addr_spec(&self) -> Seq<u8> {
        self.address@
    }

    /// The buffer never holds more than its capacity of 256 bytes.
    pub closed spec fn wf(&self) -> bool {
        self@.len() <= 256
    }

    /// Starts a session: an empty buffer for the given expected address.
    pub fn new(address: [u8; 4]) -> (r: Relay)
        ensures
            r.wf(),
            r@ == Seq::<u8>::empty(),
            r.addr_spec() == address@,
    {
        Relay { buf: buf_new(), address }
    }

    /// A copy of the bytes currently buffered; observation only.
    pub fn buffered(&self) -> (r: Vec<u8>)
        ensures
            r@ == self@,
    {
        let s = buf_as_slice(&self.buf);
        let r = copy_range(s, 0, s.len());
        proof {
            assert(r@ =~= self@);
        }
        r
    }

    /// Handles one outcome of the channel race and returns the transfers
    /// to perform, in order.
    ///
    /// A host message is forwarded verbatim to the device and the buffer
    /// is untouched. Device bytes are appended — unless buffer plus bytes
    /// would exceed the capacity of 256, which resets the buffer and
    /// rejects the bytes — and every complete frame now at the front is
    /// forwarded to the host in order, the buffer keeping only the bytes
    /// after the last extracted frame; a mismatched header or address
    /// clears the buffer. Errors, breaks and timeouts change nothing.
    pub fn handle_event(&mut self, event: Event) -> (actions: Vec<Action>)
        requires
            old(self).wf(),
        ensures
            final(self).wf(),
            final(self).addr_spec() == old(self).addr_spec(),
            (match event {
                Event::HostMessage(m) => final(self)@ == old(self)@
                    && actions@.len() == 1
                    && actions@[0] is ForwardToDevice
                    && action_bytes(actions@[0]) == m@,
                Event::DeviceBytes(b) => if old(self)@.len() + b@.len() > 256 {
                    final(self)@ == Seq::<u8>::empty() && actions@.len() == 0
                } else {
                    all_to_host(actions@)
                    && action_payloads(actions@)
                        == spec_extract(old(self)@ + b@, old(self).addr_spec()).0
                    && final(self)@
                        == spec_extract(old(self)@ + b@, old(self).addr_spec()).1
                },
                _ => final(self)@ == old(self)@ && actions@.len() == 0,
            }),
    {
        match event {
            Event::HostMessage(m) => {
                let mut acts: Vec<Action> = Vec::new();
                acts.push(Action::ForwardToDevice(m));
                acts
            }
            Event::DeviceBytes(b) => self.on_device_bytes(b),
            Event::HostReadError => Vec::new(),
            Event::DeviceBreak => Vec::new(),
            Event::DeviceReadError => Vec::new(),
            Event::DeviceTimeout => Vec::new(),
        }
    }

    /// Appends the arrived bytes and extracts every complete frame now at
    /// the front of the buffer.
    fn on_device_bytes(&mut self, b: Vec<u8>) -> (actions: Vec<Action>)
        requires
            old(self).wf(),
        ensures
            final(self).wf(),
            final(self).addr_spec() == old(self).addr_spec(),
            old(self)@.len() + b@.len() > 256 ==> final(self)@ == Seq::<u8>::empty()
                && actions@.len() == 0,
            old(self)@.len() + b@.len() <= 256 ==> all_to_host(actions@)
                && action_payloads(actions@)
                    == spec_extract(old(self)@ + b@, old(self).addr_spec()).0
                && final(self)@ == spec_extract(old(self)@ + b@, old(self).addr_spec()).1,
    {
        let cur = buf_as_slice(&self.buf).len();
        if b.len() > 256 - cur {
            buf_clear(&mut self.buf);
            return Vec::new();
        }
        let _ = buf_extend(&mut self.buf, b.as_slice());
        let ghost comb: Seq<u8> = self@;
        let ghost addr: Seq<u8> = self.addr_spec();
        proof {
            assert(comb == old(self)@ + b@);
        }
        let mut acts: Vec<Action> = Vec::new();
        loop
            invariant
                self.wf(),
                self.address@ == addr,
                addr == old(self).addr_spec(),
                comb == old(self)@ + b@,
                old(self)@.len() + b@.len() <= 256,
                all_to_host(acts@),
                spec_extract(comb, addr).0 == action_payloads(acts@)
                    + spec_extract(self@, addr).0,
                spec_extract(comb, addr).1 == spec_extract(self@, addr).1,
            decreases self@.len(),
        {
            let ghost prev: Seq<u8> = self@;
            let s = buf_as_slice(&self.buf);
            match detect(s, &self.address) {
                Detection::Frame(l) => {
                    proof {
                        lemma_frame_len_bounds(prev, addr, l);
                    }
                    let frame = copy_range(s, 0, l);
                    let rest = copy_range(s, l, s.len());
                    buf_clear(&mut self.buf);
                    let _ = buf_extend(&mut self.buf, rest.as_slice());
                    let ghost before = acts@;
                    acts.push(Action::ForwardToHost(frame));
                    proof {
                        assert(frame@ == prev.take(l as int));
                        assert(rest@ =~= prev.skip(l as int));
                        assert(self@ == prev.skip(l as int));
                        assert(spec_extract(prev, addr).0
                            =~= seq![prev.take(l as int)] + spec_extract(self@, addr).0);
                        assert(action_payloads(acts@)
                            =~= action_payloads(before) + seq![frame@]);
                        assert(action_payloads(before) + (seq![prev.take(l as int)]
                            + spec_extract(self@, addr).0)
                            =~= action_payloads(acts@) + spec_extract(self@, addr).0);
                    }
                }
                Detection::Incomplete => {
                    proof {
                        assert(spec_extract(prev, addr).0 =~= Seq::<Seq<u8>>::empty());
                        assert(action_payloads(acts@) + Seq::<Seq<u8>>::empty()
                            =~= action_payloads(acts@));
                    }
                    return acts;
                }
                Detection::Invalid => {
                    buf_clear(&mut self.buf);
                    proof {
                        assert(spec_extract(prev, addr).0 =~= Seq::<Seq<u8>>::empty());
                        assert(spec_extract(self@, addr).0 =~= Seq::<Seq<u8>>::empty());
                        assert(action_payloads(acts@) + Seq::<Seq<u8>>::empty()
                            =~= action_payloads(acts@));
                    }
                    return acts;
                }
            }
        }
    }
}

/// Copies `s[start..end]` into a fresh vector.
fn copy_range(s: &[u8], start: usize, end: usize) -> (r: Vec<u8>)
    requires
        start <= end <= s@.len(),
    ensures
        r@ == s@.subrange(start as int, end as int),
{
    let mut out: Vec<u8> = Vec::new();
    let mut i: usize = start;
    while i < end
        invariant
            start <= i <= end <= s@.len(),
            out@ == s@.subrange(start as int, i as int),
        decreases end - i,
    {
        let v = s[i];
        out.push(v);
        i += 1;
        proof {
            assert(out@ =~= s@.subrange(start as int, i as int));
        }
    }
    out
}

} // verus!
