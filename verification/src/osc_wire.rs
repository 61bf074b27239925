//! OSC on the wire: a datagram is decoded, and each message in it is
//! answered if it is a query and offered to the store if it is not.
//! Receiving the datagram, and encoding and sending the answers, is the
//! caller's.

use vstd::prelude::*;
use crate::introspect::{osc_try_introspect, spec_answers, spec_query, Reply};
use crate::osc::OscRuntime;
use crate::params::Sample;
use crate::store::{spec_osc_applied, Drive, ParamStore};

verus! {

/// A packet as `rosc` decodes it. What it holds is known by name only.
#[verifier::external_type_specification]
#[verifier::external_body]
pub struct ExOscPacket(rosc::OscPacket);

/// An argument as `rosc` decodes it. What it holds is known by name only.
#[verifier::external_type_specification]
#[verifier::external_body]
pub struct ExOscType(rosc::OscType);

/// The longest datagram that is decoded, in bytes.
pub const MAX_DATAGRAM: usize = 2048;

/// A numeric argument as it came over the wire: the bits of a single or a
/// double precision number, or an integer.
#[derive(Clone, Copy, PartialEq, Eq, Structural, Debug)]
pub enum OscNumber {
    Float(u32),
    Double(u64),
    Int(i32),
    Long(i64),
}

/// `rosc::decoder::decode_udp`: the packet that the bytes encode, `None`
/// where they encode none. The contract gives the messages of that packet
/// a name. The decoder goes as deep as the bundles nest, so it is given no
/// more bytes than the listener reads at a time.
#[verifier::external_body]
fn decode_udp(bytes: &[u8]) -> (r: Option<rosc::OscPacket>)
    requires
        bytes@.len() <= MAX_DATAGRAM,
    ensures
        match r {
            Some(p) => osc_decoded(bytes@) == Some(packet_messages(p)),
            None => osc_decoded(bytes@) is None,
        },
{
    match rosc::decoder::decode_udp(bytes) {
        Ok((_, packet)) => Some(packet),
        Err(_) => None,
    }
}

/// Takes a `rosc::OscPacket` apart: a message gives its address and its
/// arguments, a bundle the packets it holds. The contract says how the
/// messages and the size of the packet are made of those of its parts.
#[verifier::external_body]
fn unpack(packet: rosc::OscPacket) -> (r: Unpacked)
    ensures
        match r {
            Unpacked::Message(addr, args) => packet_size(packet) == 1 && packet_messages(packet)
                == seq![spec_wire_message(addr@, args@)],
            Unpacked::Bundle(content) => packet_size(packet) == 1 + spec_bundle_size(content@)
                && packet_messages(packet) == spec_bundle_messages(content@),
        },
{
    match packet {
        rosc::OscPacket::Message(m) => Unpacked::Message(m.addr, m.args),
        rosc::OscPacket::Bundle(b) => Unpacked::Bundle(b.content),
    }
}

/// The number a `rosc::OscType` holds, as it came over the wire; `None`
/// for an argument that is no number. The contract gives it a name.
#[verifier::external_body]
fn number_of(arg: &rosc::OscType) -> (r: Option<OscNumber>)
    ensures
        r == arg_number(*arg),
{
    match arg {
        rosc::OscType::Float(x) => Some(OscNumber::Float(x.to_bits())),
        rosc::OscType::Double(x) => Some(OscNumber::Double(x.to_bits())),
        rosc::OscType::Int(x) => Some(OscNumber::Int(*x)),
        rosc::OscType::Long(x) => Some(OscNumber::Long(*x)),
        _ => None,
    }
}

/// The messages of a datagram in the order in which they stand in it, the
/// messages of a bundle in place of the bundle. A datagram that is longer
/// than [`MAX_DATAGRAM`] or encodes no packet holds no message.
///
/// The packets still to be taken apart are kept with the next one on top,
/// so that the messages of a bundle come out where the bundle stood.
pub fn decode_messages(bytes: &[u8]) -> (r: Vec<Incoming>)
    ensures
        wire_views(r@) == spec_datagram_messages(bytes@),
{
    let mut out: Vec<Incoming> = Vec::new();
    assert(wire_views(out@) =~= Seq::<WireMessage>::empty());
    if bytes.len() > MAX_DATAGRAM {
        return out;
    }
    let mut pending: Vec<rosc::OscPacket> = Vec::new();
    match decode_udp(bytes) {
        Some(packet) => {
            pending.push(packet);
            proof {
                assert(pending@.last() == packet);
                assert(pending@.drop_last() =~= Seq::<rosc::OscPacket>::empty());
                assert(spec_pending_messages(pending@.drop_last()) =~= Seq::<WireMessage>::empty());
                assert(spec_pending_messages(pending@) =~= packet_messages(packet));
            }
        },
        None => {},
    }
    let ghost want = spec_datagram_messages(bytes@);
    assert(wire_views(out@) + spec_pending_messages(pending@) =~= want);
    while pending.len() > 0
        invariant
            wire_views(out@) + spec_pending_messages(pending@) == want,
        decreases spec_pending_size(pending@),
    {
        let ghost held = wire_views(out@);
        let ghost before = pending@;
        let packet = match pending.pop() {
            Some(p) => p,
            None => {
                return out;
            },
        };
        let ghost rest = pending@;
        assert(rest == before.drop_last() && packet == before.last());
        match unpack(packet) {
            Unpacked::Message(addr, args) => {
                let first = if args.len() > 0 {
                    number_of(&args[0])
                } else {
                    None
                };
                let ghost m = spec_wire_message(addr@, args@);
                out.push(Incoming { addr, first });
                proof {
                    assert(wire_views(out@) =~= held.push(m));
                    assert(held + (seq![m] + spec_pending_messages(rest)) =~= held.push(m)
                        + spec_pending_messages(rest));
                }
            },
            Unpacked::Bundle(content) => {
                let mut content = content;
                let ghost all = content@;
                while content.len() > 0
                    invariant
                        spec_bundle_messages(content@) + spec_pending_messages(pending@)
                            == spec_bundle_messages(all) + spec_pending_messages(rest),
                        spec_bundle_size(content@) + spec_pending_size(pending@) == spec_bundle_size(
                            all,
                        ) + spec_pending_size(rest),
                    decreases content.len(),
                {
                    let ghost upper = content@;
                    let ghost lower = pending@;
                    match content.pop() {
                        Some(p) => {
                            pending.push(p);
                            proof {
                                assert(pending@.drop_last() =~= lower);
                                assert(content@ =~= upper.drop_last());
                                assert((spec_bundle_messages(content@) + packet_messages(p))
                                    + spec_pending_messages(lower) =~= spec_bundle_messages(content@)
                                    + (packet_messages(p) + spec_pending_messages(lower)));
                            }
                        },
                        None => {},
                    }
                }
                proof {
                    assert(spec_bundle_messages(content@) =~= Seq::<WireMessage>::empty());
                    assert(spec_pending_messages(pending@) =~= spec_bundle_messages(all)
                        + spec_pending_messages(rest));
                    assert(held + (spec_bundle_messages(all) + spec_pending_messages(rest)) =~= held + (
                    packet_messages(packet) + spec_pending_messages(rest)));
                }
            },
        }
    }
    proof {
        assert(spec_pending_messages(pending@) =~= Seq::<WireMessage>::empty());
        assert(wire_views(out@) + Seq::<WireMessage>::empty() =~= wire_views(out@));
    }
    out
}

/// What became of a message that was handed to [`handle_message`] on
/// its own.
pub enum Handled {
    /// It was a query, and this is the answer.
    Answered(Reply),
    /// It wrote a parameter: the name, the new target, and whether the
    /// input was read as normalized.
    Applied(String, Sample, bool),
    /// It was neither a query nor applied.
    Ignored,
}

/// What became of one message of a datagram.
///
/// Each outcome names the address of its message, so that the caller can
/// log it and send an answer back to where the datagram came from.
pub enum Outcome {
    /// The message at `addr` was a query, and this is the answer.
    Answered { addr: String, reply: Reply },
    /// The message at `addr` wrote the parameter `name`.
    Applied { addr: String, name: String, target: Sample, normalized: bool },
    /// The message at `addr` was neither a query nor applied.
    Ignored { addr: String },
}

/// Takes one datagram: each message in it is handled as
/// [`handle_message`] says, in order.
///
/// `number` turns a numeric argument into a sample.
pub fn handle_datagram<F: Fn(Sample, Sample, Drive) -> Sample + Copy, N: Fn(OscNumber) -> Sample>(
    store: &mut ParamStore,
    rt: &OscRuntime,
    bytes: &[u8],
    shape: F,
    number: N,
) -> (r: Vec<Outcome>)
    requires
        old(store).wf(),
        rt.wf(),
        forall|mn: Sample, mx: Sample, d: Drive| call_requires(shape, (mn, mx, d)),
        forall|x: OscNumber| call_requires(number, (x,)),
    ensures
        final(store).wf(),
        spec_outcomes(
            shape,
            number,
            *rt,
            *old(store),
            *final(store),
            spec_datagram_messages(bytes@),
            r@,
        ),
{
    let messages = decode_messages(bytes);
    handle_messages(store, rt, &messages, shape, number)
}

/// Takes one message: it is answered if its address is a query, and
/// offered to the store if it is not. A query never changes the store.
///
/// `arg` is the first argument of the message as a sample, `None` when
/// the message has no argument or its first argument is not a number.
pub fn handle_message<F: Fn(Sample, Sample, Drive) -> Sample>(
    store: &mut ParamStore,
    rt: &OscRuntime,
    addr: &str,
    arg: Option<Sample>,
    shape: F,
) -> (r: Handled)
    requires
        old(store).wf(),
        rt.wf(),
        forall|mn: Sample, mx: Sample, d: Drive| call_requires(shape, (mn, mx, d)),
    ensures
        final(store).wf(),
        match r {
            Handled::Answered(reply) => {
                &&& spec_answers(rt.spec_cfg().prefix@, addr@, *old(store), reply)
                &&& final(store)@ == old(store)@
            },
            Handled::Applied(name, target, normalized) => {
                &&& spec_query(rt.spec_cfg().prefix@, addr@) is None
                &&& spec_osc_applied(
                    shape,
                    old(store)@,
                    final(store)@,
                    *rt,
                    addr@,
                    arg,
                    Some((name, target, normalized)),
                )
            },
            Handled::Ignored => {
                &&& spec_query(rt.spec_cfg().prefix@, addr@) is None
                &&& spec_osc_applied(shape, old(store)@, final(store)@, *rt, addr@, arg, None)
            },
        },
{
    match osc_try_introspect(rt.cfg().prefix.as_str(), addr, store) {
        Some(reply) => Handled::Answered(reply),
        None => match store.apply_osc_runtime(rt, addr, arg, shape) {
            Some((name, target, normalized)) => Handled::Applied(name, target, normalized),
            None => Handled::Ignored,
        },
    }
}

/// A message as it is offered to the store: its address and its first
/// argument if that is a number.
pub struct Incoming {
    pub addr: String,
    pub first: Option<OscNumber>,
}

/// A packet taken apart one level.
pub enum Unpacked {
    /// A message: its address and its arguments.
    Message(String, Vec<rosc::OscType>),
    /// A bundle: the packets in it.
    Bundle(Vec<rosc::OscPacket>),
}

/// Takes the messages of a datagram one by one, in order: each is handled
/// as [`handle_message`] says, on the store as the messages before it left
/// it. There is one outcome for each message.
pub fn handle_messages<F: Fn(Sample, Sample, Drive) -> Sample + Copy, N: Fn(OscNumber) -> Sample>(
    store: &mut ParamStore,
    rt: &OscRuntime,
    messages: &Vec<Incoming>,
    shape: F,
    number: N,
) -> (r: Vec<Outcome>)
    requires
        old(store).wf(),
        rt.wf(),
        forall|mn: Sample, mx: Sample, d: Drive| call_requires(shape, (mn, mx, d)),
        forall|x: OscNumber| call_requires(number, (x,)),
    ensures
        final(store).wf(),
        spec_outcomes(shape, number, *rt, *old(store), *final(store), wire_views(messages@), r@),
{
    let ghost all = wire_views(messages@);
    let ghost mut stores: Seq<ParamStore> = seq![*store];
    let mut out: Vec<Outcome> = Vec::new();
    let mut i: usize = 0;
    while i < messages.len()
        invariant
            i <= messages.len(),
            all == wire_views(messages@),
            store.wf(),
            rt.wf(),
            forall|mn: Sample, mx: Sample, d: Drive| call_requires(shape, (mn, mx, d)),
            forall|x: OscNumber| call_requires(number, (x,)),
            spec_run(shape, number, *rt, stores, all.take(i as int), out@),
            stores[0] == *old(store),
            stores.last() == *store,
        decreases messages.len() - i,
    {
        let ghost run = stores;
        let ghost done = out@;
        let m = &messages[i];
        let arg = match m.first {
            Some(x) => Some(number(x)),
            None => None,
        };
        let addr = m.addr.clone();
        match handle_message(store, rt, m.addr.as_str(), arg, shape) {
            Handled::Answered(reply) => {
                out.push(Outcome::Answered { addr, reply });
            },
            Handled::Applied(name, target, normalized) => {
                out.push(Outcome::Applied { addr, name, target, normalized });
            },
            Handled::Ignored => {
                out.push(Outcome::Ignored { addr });
            },
        }
        proof {
            stores = run.push(*store);
            let now = all.take(i + 1);
            assert(spec_converted(number, all[i as int].first, arg));
            assert(spec_outcome(shape, number, *rt, run.last(), *store, all[i as int], out@[i as int]));
            assert forall|k: int| 0 <= k < now.len() implies spec_outcome(
                shape,
                number,
                *rt,
                stores[k],
                stores[k + 1],
                now[k],
                #[trigger] out@[k],
            ) by {
                if k < i {
                    assert(out@[k] == done[k]);
                    assert(now[k] == all.take(i as int)[k]);
                }
            }
        }
        i += 1;
    }
    assert(all.take(all.len() as int) =~= all);
    out
}

/// A message as it stands in a datagram: its address and its first
/// argument if that is a number.
pub struct WireMessage {
    pub addr: Seq<char>,
    pub first: Option<OscNumber>,
}

/// The messages that `rosc::decoder::decode_udp` finds in a datagram, in
/// order, the messages of a bundle in place of the bundle; `None` where the
/// bytes encode no packet.
pub uninterp spec fn osc_decoded(bytes: Seq<u8>) -> Option<Seq<WireMessage>>;

/// The messages that a packet holds, in order, the messages of a bundle in
/// place of the bundle.
pub uninterp spec fn packet_messages(p: rosc::OscPacket) -> Seq<WireMessage>;

/// The number of packets that a packet is made of, itself included.
pub uninterp spec fn packet_size(p: rosc::OscPacket) -> nat;

/// The number an argument holds, as it came over the wire.
pub uninterp spec fn arg_number(a: rosc::OscType) -> Option<OscNumber>;

/// A message with its arguments as it is offered to the store.
pub open spec fn spec_wire_message(addr: Seq<char>, args: Seq<rosc::OscType>) -> WireMessage {
    WireMessage {
        addr,
        first: if args.len() > 0 {
            arg_number(args[0])
        } else {
            None
        },
    }
}

/// The messages of the packets of a bundle, in order.
pub open spec fn spec_bundle_messages(content: Seq<rosc::OscPacket>) -> Seq<WireMessage>
    decreases content.len(),
{
    if content.len() == 0 {
        Seq::empty()
    } else {
        spec_bundle_messages(content.drop_last()) + packet_messages(content.last())
    }
}

/// The number of packets that the packets of a bundle are made of.
pub open spec fn spec_bundle_size(content: Seq<rosc::OscPacket>) -> nat
    decreases content.len(),
{
    if content.len() == 0 {
        0
    } else {
        spec_bundle_size(content.drop_last()) + packet_size(content.last())
    }
}

/// The messages of the packets that are still to be taken apart, the last
/// of them first.
pub open spec fn spec_pending_messages(pending: Seq<rosc::OscPacket>) -> Seq<WireMessage>
    decreases pending.len(),
{
    if pending.len() == 0 {
        Seq::empty()
    } else {
        packet_messages(pending.last()) + spec_pending_messages(pending.drop_last())
    }
}

/// The number of packets that are still to be taken apart.
pub open spec fn spec_pending_size(pending: Seq<rosc::OscPacket>) -> nat
    decreases pending.len(),
{
    if pending.len() == 0 {
        0
    } else {
        packet_size(pending.last()) + spec_pending_size(pending.drop_last())
    }
}

/// The messages of a datagram: those that the decoder finds in it, and none
/// in a datagram that is longer than [`MAX_DATAGRAM`] or encodes no packet.
pub open spec fn spec_datagram_messages(bytes: Seq<u8>) -> Seq<WireMessage> {
    if bytes.len() > MAX_DATAGRAM {
        Seq::empty()
    } else {
        match osc_decoded(bytes) {
            Some(messages) => messages,
            None => Seq::empty(),
        }
    }
}

/// The messages of a list as they stand in a datagram.
pub open spec fn wire_views(messages: Seq<Incoming>) -> Seq<WireMessage> {
    Seq::new(
        messages.len(),
        |i: int| WireMessage { addr: messages[i].addr@, first: messages[i].first },
    )
}

/// Whether `arg` is what `number` made of the first argument of a message:
/// a sample for a number, nothing where there is no number.
pub open spec fn spec_converted<N: Fn(OscNumber) -> Sample>(
    number: N,
    first: Option<OscNumber>,
    arg: Option<Sample>,
) -> bool {
    match first {
        Some(x) => arg is Some && call_ensures(number, (x,), arg->0),
        None => arg is None,
    }
}

/// Whether `outcome` and the store `after` are what the message `m` leads
/// to on the store `before`: a query is answered and leaves the store; any
/// other message is offered to the store with its first argument as
/// `number` converts it.
pub open spec fn spec_outcome<F: Fn(Sample, Sample, Drive) -> Sample, N: Fn(OscNumber) -> Sample>(
    shape: F,
    number: N,
    rt: OscRuntime,
    before: ParamStore,
    after: ParamStore,
    m: WireMessage,
    outcome: Outcome,
) -> bool {
    exists|arg: Option<Sample>| #[trigger]
        spec_converted(number, m.first, arg) && match outcome {
            Outcome::Answered { addr, reply } => {
                &&& addr@ == m.addr
                &&& spec_answers(rt.spec_cfg().prefix@, m.addr, before, reply)
                &&& after@ == before@
            },
            Outcome::Applied { addr, name, target, normalized } => {
                &&& addr@ == m.addr
                &&& spec_query(rt.spec_cfg().prefix@, m.addr) is None
                &&& spec_osc_applied(
                    shape,
                    before@,
                    after@,
                    rt,
                    m.addr,
                    arg,
                    Some((name, target, normalized)),
                )
            },
            Outcome::Ignored { addr } => {
                &&& addr@ == m.addr
                &&& spec_query(rt.spec_cfg().prefix@, m.addr) is None
                &&& spec_osc_applied(shape, before@, after@, rt, m.addr, arg, None)
            },
        }
}

/// Whether the stores are a run of the messages: the store before each
/// message and, after the last one, the store they leave, with the outcome
/// of each message as [`spec_outcome`] says.
pub open spec fn spec_run<F: Fn(Sample, Sample, Drive) -> Sample, N: Fn(OscNumber) -> Sample>(
    shape: F,
    number: N,
    rt: OscRuntime,
    stores: Seq<ParamStore>,
    messages: Seq<WireMessage>,
    outcomes: Seq<Outcome>,
) -> bool {
    &&& stores.len() == messages.len() + 1
    &&& outcomes.len() == messages.len()
    &&& forall|i: int|
        0 <= i < messages.len() ==> spec_outcome(
            shape,
            number,
            rt,
            stores[i],
            stores[i + 1],
            messages[i],
            #[trigger] outcomes[i],
        )
}

/// Whether `outcomes` and the store `after` are what the messages lead to
/// on the store `before`, taken one by one in order: there is one outcome
/// for each message, and each message meets the store as the messages
/// before it left it.
pub open spec fn spec_outcomes<F: Fn(Sample, Sample, Drive) -> Sample, N: Fn(OscNumber) -> Sample>(
    shape: F,
    number: N,
    rt: OscRuntime,
    before: ParamStore,
    after: ParamStore,
    messages: Seq<WireMessage>,
    outcomes: Seq<Outcome>,
) -> bool {
    exists|stores: Seq<ParamStore>| #[trigger]
        spec_run(shape, number, rt, stores, messages, outcomes) && stores[0] == before
            && stores.last() == after
}

} // verus!
