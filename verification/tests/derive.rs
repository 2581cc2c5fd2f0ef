use tdlib_rs::derive::deserialize_plan;
use tdlib_rs::derive::from1_plan;
use tdlib_rs::derive::opt_deserialize_plan;
use tdlib_rs::derive::serialize_plan;
use tdlib_rs::derive::Conversion;
use tdlib_rs::derive::Derive;
use tdlib_rs::derive::Dispatch;
use tdlib_rs::derive::FieldSource;
use tdlib_rs::derive::ItemKind;
use tdlib_rs::derive::Marks;
use tdlib_rs::derive::VariantShape;

const PLAIN: Marks = Marks {
    skip_serialize: false,
    skip_deserialize: false,
};

const BOTH: Marks = Marks {
    skip_serialize: true,
    skip_deserialize: true,
};

#[test]
fn serializer_writes_the_fields_in_order_and_leaves_out_the_skipped() {
    assert_eq!(serialize_plan(&[]), Vec::<usize>::new());
    assert_eq!(serialize_plan(&[PLAIN, PLAIN, PLAIN]), vec![0, 1, 2]);
    assert_eq!(serialize_plan(&[PLAIN, PLAIN, PLAIN, PLAIN, BOTH]), vec![0, 1, 2, 3]);
    let write_only = Marks {
        skip_serialize: false,
        skip_deserialize: true,
    };
    let read_only = Marks {
        skip_serialize: true,
        skip_deserialize: false,
    };
    assert_eq!(serialize_plan(&[read_only, write_only, BOTH, PLAIN]), vec![1, 3]);
    assert_eq!(serialize_plan(&[BOTH, BOTH]), Vec::<usize>::new());
}

#[test]
fn deserializer_gives_skipped_fields_their_default() {
    assert_eq!(deserialize_plan(&[]), Vec::<FieldSource>::new());
    assert_eq!(
        deserialize_plan(&[PLAIN, PLAIN, PLAIN, PLAIN, BOTH]),
        vec![
            FieldSource::Read,
            FieldSource::Read,
            FieldSource::Read,
            FieldSource::Read,
            FieldSource::Default
        ]
    );
    let write_only = Marks {
        skip_serialize: false,
        skip_deserialize: true,
    };
    let read_only = Marks {
        skip_serialize: true,
        skip_deserialize: false,
    };
    assert_eq!(
        deserialize_plan(&[read_only, write_only]),
        vec![FieldSource::Read, FieldSource::Default]
    );
}

#[test]
fn tagged_sum_gets_a_conversion_for_each_layer_of_boxes() {
    let boxed = VariantShape {
        unnamed_fields: 1,
        box_depth: 1,
    };
    let bare = VariantShape {
        unnamed_fields: 1,
        box_depth: 0,
    };
    let pair = VariantShape {
        unnamed_fields: 2,
        box_depth: 1,
    };
    let unit = VariantShape {
        unnamed_fields: 0,
        box_depth: 0,
    };
    let twice = VariantShape {
        unnamed_fields: 1,
        box_depth: 2,
    };
    assert_eq!(from1_plan(&[]), Vec::<Conversion>::new());
    assert_eq!(
        from1_plan(&[boxed, bare]),
        vec![
            Conversion { variant: 0, layers: 0 },
            Conversion { variant: 0, layers: 1 },
            Conversion { variant: 1, layers: 0 }
        ]
    );
    assert_eq!(
        from1_plan(&[pair, unit, twice]),
        vec![
            Conversion { variant: 2, layers: 0 },
            Conversion { variant: 2, layers: 1 },
            Conversion { variant: 2, layers: 2 }
        ]
    );
}

#[test]
fn deserializer_of_a_tagged_sum_has_a_branch_for_each_variant_of_one_field() {
    let boxed = VariantShape {
        unnamed_fields: 1,
        box_depth: 1,
    };
    let bare = VariantShape {
        unnamed_fields: 1,
        box_depth: 0,
    };
    let pair = VariantShape {
        unnamed_fields: 2,
        box_depth: 0,
    };
    let twice = VariantShape {
        unnamed_fields: 1,
        box_depth: 2,
    };
    assert_eq!(opt_deserialize_plan(&[]), Vec::<Dispatch>::new());
    assert_eq!(
        opt_deserialize_plan(&[boxed, pair, bare, twice]),
        vec![
            Dispatch { variant: 0, boxed: true },
            Dispatch { variant: 2, boxed: false },
            Dispatch { variant: 3, boxed: true }
        ]
    );
}

#[test]
fn each_part_of_a_codec_is_made_for_its_kinds_of_item() {
    assert!(Derive::Serialize.supports(ItemKind::NamedStruct));
    assert!(Derive::Serialize.supports(ItemKind::Enum));
    assert!(!Derive::Serialize.supports(ItemKind::OtherStruct));
    assert!(!Derive::Serialize.supports(ItemKind::Other));
    assert!(Derive::Deserialize.supports(ItemKind::NamedStruct));
    assert!(!Derive::Deserialize.supports(ItemKind::Enum));
    assert!(!Derive::Deserialize.supports(ItemKind::OtherStruct));
    assert!(!Derive::Deserialize.supports(ItemKind::Other));
    for derive in [Derive::From1, Derive::OptDeserialize] {
        assert!(derive.supports(ItemKind::Enum));
        assert!(!derive.supports(ItemKind::NamedStruct));
        assert!(!derive.supports(ItemKind::OtherStruct));
        assert!(!derive.supports(ItemKind::Other));
    }
}
