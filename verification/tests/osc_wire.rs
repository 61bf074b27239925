use rosc::{OscBundle, OscMessage, OscPacket, OscTime, OscType};
use shadecore::introspect::ReplyArg;
use shadecore::midi::MidiGlobalCfg;
use shadecore::names::NameMap;
use shadecore::osc::{OscCfg, OscRuntime};
use shadecore::osc_wire::{decode_messages, handle_datagram, handle_message, Handled, OscNumber, Outcome};
use shadecore::params::{ParamDef, ParamsFile, ProfileHotkeysCfg, Sample};
use shadecore::store::{Drive, ParamStore};

fn s(x: f32) -> Sample {
    Sample { bits: x.to_bits() }
}

fn f(x: Sample) -> f32 {
    f32::from_bits(x.bits)
}

fn shape(mn: Sample, mx: Sample, d: Drive) -> Sample {
    let (a, b) = (f(mn), f(mx));
    let v = match d {
        Drive::Controller(v) => a + (b - a) * (v as f32 / 127.0),
        Drive::Normalized(x) => a + (b - a) * f(x).clamp(0.0, 1.0),
        Drive::Raw(x) => f(x).max(a.min(b)).min(a.max(b)),
    };
    s(v)
}

fn number(x: OscNumber) -> Sample {
    match x {
        OscNumber::Float(bits) => Sample { bits },
        OscNumber::Double(bits) => s(f64::from_bits(bits) as f32),
        OscNumber::Int(i) => s(i as f32),
        OscNumber::Long(l) => s(l as f32),
    }
}

fn message(addr: &str, args: Vec<OscType>) -> OscPacket {
    OscPacket::Message(OscMessage { addr: addr.to_string(), args })
}

fn bundle(content: Vec<OscPacket>) -> OscPacket {
    OscPacket::Bundle(OscBundle { timetag: OscTime { seconds: 0, fractional: 1 }, content })
}

fn wire(p: &OscPacket) -> Vec<u8> {
    rosc::encoder::encode(p).unwrap()
}

fn store() -> ParamStore {
    let pf = ParamsFile {
        version: 1,
        midi: MidiGlobalCfg { preferred_device_contains: None, channel: None },
        osc: OscCfg::default(),
        params: vec![ParamDef {
            name: "gain".to_string(),
            kind: None,
            default: s(1.0),
            min: s(0.0),
            max: s(2.0),
            smoothing: s(0.1),
            midi: None,
        }],
        profiles: NameMap::new(),
        shader_profiles: NameMap::new(),
        active_shader_profiles: NameMap::new(),
        active_profile: None,
        profile_hotkeys: ProfileHotkeysCfg { next: vec![], prev: vec![], set: NameMap::new() },
    };
    ParamStore::new(&pf)
}

#[test]
fn single_message_is_decoded() {
    let bytes = wire(&message("/shadecore/param/gain", vec![OscType::Float(0.5), OscType::Int(3)]));
    let msgs = decode_messages(&bytes);
    assert_eq!(msgs.len(), 1);
    assert_eq!(msgs[0].addr, "/shadecore/param/gain");
    assert_eq!(msgs[0].first, Some(OscNumber::Float(0.5f32.to_bits())));
}

#[test]
fn numbers_keep_their_kind() {
    let first = |arg: OscType| decode_messages(&wire(&message("/a", vec![arg])))[0].first;
    assert_eq!(first(OscType::Double(0.25)), Some(OscNumber::Double(0.25f64.to_bits())));
    assert_eq!(first(OscType::Int(-7)), Some(OscNumber::Int(-7)));
    assert_eq!(first(OscType::Long(1 << 40)), Some(OscNumber::Long(1 << 40)));
    assert_eq!(first(OscType::String("x".to_string())), None);
    assert_eq!(first(OscType::Bool(true)), None);
    assert_eq!(decode_messages(&wire(&message("/a", vec![])))[0].first, None);
}

#[test]
fn bundles_are_flattened_in_order() {
    let p = bundle(vec![
        message("/one", vec![OscType::Int(1)]),
        bundle(vec![message("/two", vec![]), bundle(vec![]), message("/three", vec![OscType::Float(3.0)])]),
        message("/four", vec![OscType::String("x".to_string())]),
    ]);
    let msgs = decode_messages(&wire(&p));
    let addrs: Vec<&str> = msgs.iter().map(|m| m.addr.as_str()).collect();
    assert_eq!(addrs, vec!["/one", "/two", "/three", "/four"]);
    assert_eq!(msgs[0].first, Some(OscNumber::Int(1)));
    assert_eq!(msgs[2].first, Some(OscNumber::Float(3.0f32.to_bits())));
    assert_eq!(msgs[3].first, None);
}

#[test]
fn bytes_that_are_no_packet_hold_no_message() {
    assert!(decode_messages(&[]).is_empty());
    assert!(decode_messages(&[1, 2, 3]).is_empty());
    assert!(decode_messages(b"hello world, this is not osc").is_empty());
    assert!(decode_messages(&vec![b'/'; 70_000]).is_empty());
    let mut long = wire(&message("/a", vec![OscType::String("x".repeat(2040))]));
    assert!(long.len() > 2048);
    assert!(decode_messages(&long).is_empty());
    long.truncate(2048);
    assert!(decode_messages(&long).is_empty());
    let fits = wire(&message("/a", vec![OscType::String("x".repeat(2000))]));
    assert!(fits.len() <= 2048);
    assert_eq!(decode_messages(&fits).len(), 1);
}

#[test]
fn query_is_answered_and_leaves_the_store() {
    let mut st = store();
    let rt = OscRuntime::new(OscCfg::default());
    match handle_message(&mut st, &rt, "/shadecore/get/gain", Some(s(0.0)), shape) {
        Handled::Answered(reply) => {
            assert_eq!(reply.addr, "/shadecore/reply/get/gain");
            assert_eq!(reply.args.len(), 5);
            assert!(matches!(&reply.args[0], ReplyArg::Number(n) if *n == s(1.0)));
        }
        _ => panic!("a query is answered"),
    }
    assert_eq!(st.target("gain"), Some(s(1.0)));
    assert!(matches!(
        handle_message(&mut st, &rt, "/shadecore/param/gain", Some(s(0.25)), shape),
        Handled::Applied(name, target, true) if name == "gain" && target == s(0.5)
    ));
    assert!(matches!(handle_message(&mut st, &rt, "/shadecore/param/nope", Some(s(0.25)), shape), Handled::Ignored));
    assert!(matches!(handle_message(&mut st, &rt, "/shadecore/param/gain", None, shape), Handled::Ignored));
}

#[test]
fn datagram_is_handled_message_by_message() {
    let mut st = store();
    let rt = OscRuntime::new(OscCfg::default());
    let p = bundle(vec![
        message("/shadecore/raw/gain", vec![OscType::Int(5)]),
        message("/shadecore/list", vec![]),
        message("/elsewhere", vec![OscType::Float(1.0)]),
        message("/shadecore/param/gain", vec![OscType::Double(0.75)]),
    ]);
    let out = handle_datagram(&mut st, &rt, &wire(&p), shape, number);
    assert_eq!(out.len(), 4);
    assert!(matches!(&out[0], Outcome::Applied { addr, name, target, normalized: false }
        if addr == "/shadecore/raw/gain" && name == "gain" && *target == s(2.0)));
    assert!(matches!(&out[1], Outcome::Answered { addr, reply }
        if addr == "/shadecore/list" && reply.addr == "/shadecore/reply/list/params" && reply.args.len() == 1));
    assert!(matches!(&out[2], Outcome::Ignored { addr } if addr == "/elsewhere"));
    assert!(matches!(&out[3], Outcome::Applied { target, normalized: true, .. } if *target == s(1.5)));
    assert_eq!(st.target("gain"), Some(s(1.5)));
    assert!(handle_datagram(&mut st, &rt, &[0u8; 3], shape, number).is_empty());
    assert_eq!(st.target("gain"), Some(s(1.5)));
}
