use modality_ctf::event::{field_to_attr, FieldToAttrKeysGen, OwnedField, ScalarField};
use modality_ctf::ids::TimelineId;
use modality_ctf::values::{AttrVal, FloatBits, KvMap, LogicalTimeQuad};

// {
//   l0_f0: bool,               == <prefix>.l0_f0 = true
//   anonymous_0: u64,          == <prefix>.anonymous_0 = 0
//   l0_f1: String,             == <prefix>.l0_f1 = "blah"
//   l0_s0: struct {
//     anonymous_0: bool,       == <prefix>.l0_s0.anonymous_0 = false
//     l1_f0: i64,              == <prefix>.l0_s0.l1_f0 = -1
//     anonymous_1: struct {
//       l2_f0: String,         == <prefix>.l0_s0.anonymous_1.l2_f0 = "blah"
//       anonymous_0: bool,     == <prefix>.l0_s0.anonymous_1.anonymous_0 = true
//       anonymous_1: u64,      == <prefix>.l0_s0.anonymous_1.anonymous_1 = 2
//     }
//     anonymous_2: i64,        == <prefix>.l0_s0.anonymous_2 = 3
//     l1_f1: String,           == <prefix>.l0_s0.l1_f1 = "foo"
//   },
//   l0_f2: i64,                == <prefix>.l0_f2 = -2
//   anonymous_1: bool,         == <prefix>.anonymous_1 = false
// }
use modality_ctf::event::OwnedField::{Scalar, Structure};
use modality_ctf::event::ScalarField::{Bool, SignedInteger, String, UnsignedInteger};

fn messy_event_structure() -> OwnedField {
    Structure(
        None, // Root structure never has a name
        vec![
            Scalar("l0_f0".to_string().into(), Bool(true)),
            Scalar(None, UnsignedInteger(0)),
            Scalar("l0_f1".to_string().into(), String("blah".to_string())),
            Structure(
                "l0_s0".to_string().into(),
                vec![
                    Scalar(None, Bool(false)),
                    Scalar("l1_f0".to_string().into(), SignedInteger(-1)),
                    Structure(
                        None,
                        vec![
                            Scalar("l2_f0".to_string().into(), String("blah".to_string())),
                            Scalar(None, Bool(true)),
                            Scalar(None, UnsignedInteger(2)),
                        ],
                    ),
                    Scalar(None, SignedInteger(3)),
                    Scalar("l1_f1".to_string().into(), String("foo".to_string())),
                ],
            ),
            Scalar("l0_f2".to_string().into(), SignedInteger(-2)),
            Scalar(None, Bool(false)),
            Scalar(
                "remote_timeline_id".to_string().into(),
                String("d1118896-314e-45f0-ae50-18a38786d957".to_string()),
            ),
            Scalar("remote_nonce".to_string().into(), UnsignedInteger(8)),
            Scalar(
                "mutator_id".to_string().into(),
                String("d1118891-314e-45f0-ae50-18a38786d957".to_string()),
            ),
            Scalar(
                "mutation_id".to_string().into(),
                String("d1118892-314e-45f0-ae50-18a38786d957".to_string()),
            ),
            Scalar("mutation_success".to_string().into(), UnsignedInteger(1)),
        ],
    )
}

fn sorted_entries(m: KvMap<AttrVal>) -> Vec<(std::string::String, AttrVal)> {
    let mut attrs = m.entries;
    attrs.sort_by(|a, b| a.0.cmp(&b.0));
    attrs
}

#[test]
fn attr_key_gen_mixed_nested_structs() {
    let root = messy_event_structure();
    let gen = FieldToAttrKeysGen::new("some.prefix", true, true).unwrap();
    let attrs = sorted_entries(gen.generate(&root));
    assert_eq!(
        attrs,
        vec![
            (
                "interaction.remote_nonce".to_owned(),
                AttrVal::Integer(8)
            ),
            (
                "interaction.remote_timeline_id".to_owned(),
                AttrVal::TimelineId(TimelineId {
                    bits: 116772292640754019124460142024729301457u128
                }),
            ),
            (
                "mutation.id".to_owned(),
                AttrVal::BigInt(116772292640754019124460142024662192593)
            ),
            ("mutation.success".to_owned(), AttrVal::Bool(true)),
            (
                "mutator.id".to_owned(),
                AttrVal::BigInt(116772292640754019124460142024645415377)
            ),
            (
                "some.prefix.anonymous_0".to_owned(),
                AttrVal::Integer(0)
            ),
            ("some.prefix.anonymous_1".to_owned(), AttrVal::Bool(false)),
            ("some.prefix.l0_f0".to_owned(), AttrVal::Bool(true)),
            (
                "some.prefix.l0_f1".to_owned(),
                AttrVal::String("blah".to_string())
            ),
            ("some.prefix.l0_f2".to_owned(), AttrVal::Integer(-2)),
            (
                "some.prefix.l0_s0.anonymous_0".to_owned(),
                AttrVal::Bool(false)
            ),
            (
                "some.prefix.l0_s0.anonymous_1.anonymous_0".to_owned(),
                AttrVal::Bool(true)
            ),
            (
                "some.prefix.l0_s0.anonymous_1.anonymous_1".to_owned(),
                AttrVal::Integer(2)
            ),
            (
                "some.prefix.l0_s0.anonymous_1.l2_f0".to_owned(),
                AttrVal::String("blah".to_string())
            ),
            (
                "some.prefix.l0_s0.anonymous_2".to_owned(),
                AttrVal::Integer(3)
            ),
            ("some.prefix.l0_s0.l1_f0".to_owned(), AttrVal::Integer(-1)),
            (
                "some.prefix.l0_s0.l1_f1".to_owned(),
                AttrVal::String("foo".to_string())
            ),
        ]
    );
}

#[test]
fn attr_key_gen_smoke() {
    assert!(FieldToAttrKeysGen::new(".asdf", false, false).is_err());
    assert!(FieldToAttrKeysGen::new("asdf.", false, false).is_err());
}

#[test]
fn enum_with_one_label_gets_label_attr() {
    let root = OwnedField::Structure(
        None,
        vec![OwnedField::Scalar(
            Some("state".to_string()),
            ScalarField::UnsignedEnumeration(5, vec!["RUNNING".to_string()]),
        )],
    );
    let m = field_to_attr(&root, "event", false, false).unwrap();
    assert_eq!(m.entries.len(), 2);
    assert_eq!(m.get("event.state"), Some(&AttrVal::Integer(5)));
    assert_eq!(
        m.get("event.state.label"),
        Some(&AttrVal::String("RUNNING".to_string()))
    );
}

#[test]
fn enum_with_zero_or_many_labels_gets_no_label_attr() {
    let zero = OwnedField::Structure(
        None,
        vec![OwnedField::Scalar(
            Some("state".to_string()),
            ScalarField::SignedEnumeration(-7, vec![]),
        )],
    );
    let m = field_to_attr(&zero, "event", false, false).unwrap();
    assert_eq!(m.entries.len(), 1);
    assert_eq!(m.get("event.state"), Some(&AttrVal::Integer(-7)));

    let many = OwnedField::Structure(
        None,
        vec![OwnedField::Scalar(
            Some("state".to_string()),
            ScalarField::UnsignedEnumeration(
                1,
                vec!["A".to_string(), "B".to_string()],
            ),
        )],
    );
    let m = field_to_attr(&many, "event", false, false).unwrap();
    assert_eq!(m.entries.len(), 1);
    assert_eq!(m.get("event.state"), Some(&AttrVal::Integer(1)));
    assert_eq!(m.get("event.state.label"), None);
}

#[test]
fn floats_carry_their_bit_patterns() {
    let root = OwnedField::Structure(
        None,
        vec![
            OwnedField::Scalar(
                Some("single".to_string()),
                ScalarField::SinglePrecisionReal(1.5f32.to_bits()),
            ),
            OwnedField::Scalar(
                Some("double".to_string()),
                ScalarField::DoublePrecisionReal(2.25f64.to_bits()),
            ),
        ],
    );
    let m = field_to_attr(&root, "p", false, false).unwrap();
    assert_eq!(
        m.get("p.single"),
        Some(&AttrVal::Float(FloatBits::Single(1.5f32.to_bits())))
    );
    assert_eq!(
        m.get("p.double"),
        Some(&AttrVal::Float(FloatBits::Double(2.25f64.to_bits())))
    );
}

#[test]
fn remote_logical_time_is_parsed_from_string() {
    let root = OwnedField::Structure(
        None,
        vec![OwnedField::Scalar(
            Some("remote_logical_time".to_string()),
            ScalarField::String("1:2:3:4".to_string()),
        )],
    );
    let m = field_to_attr(&root, "", true, false).unwrap();
    assert_eq!(
        m.get("interaction.remote_logical_time"),
        Some(&AttrVal::LogicalTime(LogicalTimeQuad {
            a: 1,
            b: 2,
            c: 3,
            d: 4
        }))
    );
    assert_eq!(m.get("remote_logical_time"), None);
}

#[test]
fn remote_timestamp_requires_unsigned_integer() {
    let good = OwnedField::Structure(
        None,
        vec![OwnedField::Scalar(
            Some("remote_timestamp".to_string()),
            ScalarField::UnsignedInteger(12345),
        )],
    );
    let m = field_to_attr(&good, "", true, false).unwrap();
    assert_eq!(
        m.get("interaction.remote_timestamp"),
        Some(&AttrVal::Timestamp(12345))
    );

    // The wrong scalar shape falls back to the computed key and value.
    let bad = OwnedField::Structure(
        None,
        vec![OwnedField::Scalar(
            Some("remote_timestamp".to_string()),
            ScalarField::String("12345".to_string()),
        )],
    );
    let m = field_to_attr(&bad, "", true, false).unwrap();
    assert_eq!(m.get("interaction.remote_timestamp"), None);
    assert_eq!(
        m.get("remote_timestamp"),
        Some(&AttrVal::String("12345".to_string()))
    );
}

#[test]
fn unparsable_remote_timeline_id_is_omitted() {
    let root = OwnedField::Structure(
        None,
        vec![OwnedField::Scalar(
            Some("remote_timeline_id".to_string()),
            ScalarField::String("not-a-uuid".to_string()),
        )],
    );
    let m = field_to_attr(&root, "", true, false).unwrap();
    assert_eq!(m.get("interaction.remote_timeline_id"), None);
    assert_eq!(m.get("remote_timeline_id"), None);
    assert_eq!(m.entries.len(), 0);
}

#[test]
fn non_string_remote_timeline_id_is_omitted() {
    let root = OwnedField::Structure(
        None,
        vec![OwnedField::Scalar(
            Some("remote_timeline_id".to_string()),
            ScalarField::UnsignedInteger(7),
        )],
    );
    let m = field_to_attr(&root, "", true, false).unwrap();
    assert_eq!(m.get("interaction.remote_timeline_id"), None);
    assert_eq!(m.get("remote_timeline_id"), None);
    assert_eq!(m.entries.len(), 0);
}

#[test]
fn empty_prefix_produces_bare_keys() {
    let root = OwnedField::Structure(
        None,
        vec![OwnedField::Scalar(Some("a".to_string()), ScalarField::Bool(true))],
    );
    let m = field_to_attr(&root, "", false, false).unwrap();
    assert_eq!(m.entries.len(), 1);
    assert_eq!(m.get("a"), Some(&AttrVal::Bool(true)));
}
