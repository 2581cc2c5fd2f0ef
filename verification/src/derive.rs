//! What a generated codec does, decided from the shape of a record or of a
//! tagged sum: which fields go over the wire and in what order, which are
//! filled in by default, which constructor ID leads to which variant, and
//! which conversions a tagged sum gets. A field or a variant is known here
//! by its place in the declaration.

use vstd::prelude::*;

verus! {

/// The kinds of item that a codec can be asked for.
#[derive(Clone, Copy, Debug, PartialEq, Eq, Structural)]
pub enum ItemKind {
    /// A record with named fields.
    NamedStruct,
    /// A record of another form.
    OtherStruct,
    /// A tagged sum.
    Enum,
    /// Anything else.
    Other,
}

/// The parts of a codec that can be generated.
#[derive(Clone, Copy, Debug, PartialEq, Eq, Structural)]
pub enum Derive {
    /// The serializer.
    Serialize,
    /// The conversions into a tagged sum.
    From1,
    /// The deserializer of a record.
    Deserialize,
    /// The deserializer of a tagged sum.
    OptDeserialize,
}

impl Derive {
    /// Whether this part is made for items of the given kind: a serializer
    /// for records with named fields and for tagged sums, a deserializer for
    /// records with named fields, the rest for tagged sums.
    pub open spec fn spec_supports(&self, kind: ItemKind) -> bool {
        match self {
            Derive::Serialize => kind == ItemKind::NamedStruct || kind == ItemKind::Enum,
            Derive::From1 => kind == ItemKind::Enum,
            Derive::Deserialize => kind == ItemKind::NamedStruct,
            Derive::OptDeserialize => kind == ItemKind::Enum,
        }
    }

    /// Whether this part is made for items of the given kind.
    pub fn supports(&self, kind: ItemKind) -> (b: bool)
        ensures
            b == self.spec_supports(kind),
    {
        match self {
            Derive::Serialize => match kind {
                ItemKind::NamedStruct => true,
                ItemKind::Enum => true,
                _ => false,
            },
            Derive::Deserialize => match kind {
                ItemKind::NamedStruct => true,
                _ => false,
            },
            _ => match kind {
                ItemKind::Enum => true,
                _ => false,
            },
        }
    }
}

/// The marks on a field of a record, or on a variant of a tagged sum.
#[derive(Clone, Copy, Debug, PartialEq, Eq, Structural)]
pub struct Marks {
    /// Whether the serializer leaves it out.
    pub skip_serialize: bool,
    /// Whether the deserializer gives it its default and reads nothing.
    pub skip_deserialize: bool,
}

/// Where the deserializer takes a field from.
#[derive(Clone, Copy, Debug, PartialEq, Eq, Structural)]
pub enum FieldSource {
    /// From the wire.
    Read,
    /// From the default of its type.
    Default,
}

/// The places of the fields that the serializer writes, in the order of
/// the declaration: all but those marked to be left out.
pub open spec fn written(fields: Seq<Marks>) -> Seq<usize>
    decreases fields.len(),
{
    if fields.len() == 0 {
        Seq::empty()
    } else if fields.last().skip_serialize {
        written(fields.drop_last())
    } else {
        written(fields.drop_last()).push((fields.len() - 1) as usize)
    }
}

/// The places of the fields, or of the variants, that the serializer writes.
pub fn serialize_plan(fields: &[Marks]) -> (plan: Vec<usize>)
    ensures
        plan@ == written(fields@),
{
    let mut plan: Vec<usize> = Vec::new();
    let mut i: usize = 0;
    assert(fields@.take(0) =~= Seq::<Marks>::empty());
    while i < fields.len()
        invariant
            i <= fields@.len(),
            plan@ == written(fields@.take(i as int)),
        decreases fields@.len() - i,
    {
        assert(fields@.take(i + 1).drop_last() =~= fields@.take(i as int));
        if !fields[i].skip_serialize {
            plan.push(i);
        }
        i = i + 1;
    }
    assert(fields@.take(fields@.len() as int) =~= fields@);
    plan
}

/// The serializer writes a field exactly when it is not marked to be left
/// out, and writes the fields in the order of the declaration.
pub proof fn lemma_written(fields: Seq<Marks>)
    requires
        fields.len() <= usize::MAX,
    ensures
        forall|k: int| 0 <= k < written(fields).len() ==> (#[trigger] written(fields)[k])
            < fields.len() && !fields[written(fields)[k] as int].skip_serialize,
        forall|j: int, k: int|
            0 <= j < k < written(fields).len() ==> written(fields)[j] < written(fields)[k],
        forall|i: int|
            0 <= i < fields.len() && !fields[i].skip_serialize ==> written(fields).contains(
                i as usize,
            ),
    decreases fields.len(),
{
    if fields.len() > 0 {
        let rest = fields.drop_last();
        lemma_written(rest);
        let w = written(fields);
        assert forall|i: int| 0 <= i < fields.len() && !fields[i].skip_serialize implies w.contains(
            i as usize,
        ) by {
            if i < fields.len() - 1 {
                assert(rest[i] == fields[i]);
                let k = choose|k: int| 0 <= k < written(rest).len() && written(rest)[k] == i as usize;
                assert(w[k] == i as usize);
            } else {
                assert(w[w.len() - 1] == i as usize);
            }
        }
        assert forall|k: int| 0 <= k < w.len() implies (#[trigger] w[k]) < fields.len()
            && !fields[w[k] as int].skip_serialize by {
            if k < written(rest).len() {
                assert(w[k] == written(rest)[k]);
                assert(rest[w[k] as int] == fields[w[k] as int]);
            }
        }
    }
}

/// Where the deserializer takes each field from: the default for a field
/// marked so, the wire for every other.
pub open spec fn sources(fields: Seq<Marks>) -> Seq<FieldSource> {
    Seq::new(
        fields.len(),
        |i: int|
            if fields[i].skip_deserialize {
                FieldSource::Default
            } else {
                FieldSource::Read
            },
    )
}

/// Where the deserializer takes each field from, in the order of the declaration.
pub fn deserialize_plan(fields: &[Marks]) -> (plan: Vec<FieldSource>)
    ensures
        plan@ == sources(fields@),
{
    let mut plan: Vec<FieldSource> = Vec::new();
    let mut i: usize = 0;
    while i < fields.len()
        invariant
            i <= fields@.len(),
            plan@.len() == i,
            forall|j: int| 0 <= j < i ==> plan@[j] == sources(fields@)[j],
        decreases fields@.len() - i,
    {
        if fields[i].skip_deserialize {
            plan.push(FieldSource::Default);
        } else {
            plan.push(FieldSource::Read);
        }
        i = i + 1;
    }
    assert(plan@ =~= sources(fields@));
    plan
}

/// The shape of a variant of a tagged sum.
#[derive(Clone, Copy, Debug, PartialEq, Eq, Structural)]
pub struct VariantShape {
    /// How many unnamed fields the variant has; none where its fields are named or it has none.
    pub unnamed_fields: usize,
    /// How many times the type of its first field is wrapped in `Box`.
    pub box_depth: usize,
}

/// One conversion into a tagged sum: from the type that is reached when
/// `layers` boxes are taken off the field of the variant, by putting them on.
#[derive(Clone, Copy, Debug, PartialEq, Eq, Structural)]
pub struct Conversion {
    /// The place of the variant.
    pub variant: usize,
    /// How many boxes the conversion puts on.
    pub layers: usize,
}

/// One branch of the deserializer of a tagged sum: the constructor ID of the
/// type inside the variant leads to the variant.
#[derive(Clone, Copy, Debug, PartialEq, Eq, Structural)]
pub struct Dispatch {
    /// The place of the variant.
    pub variant: usize,
    /// Whether the variant holds its value in a box: the ID is then that of
    /// the type in the box, and the value read is put in a box.
    pub boxed: bool,
}

/// The conversions of one variant: from the type of its field as it is
/// written, and from what each box in it holds.
pub open spec fn layers_of(variant: usize, depth: nat) -> Seq<Conversion>
    decreases depth,
{
    if depth == 0 {
        seq![Conversion { variant, layers: 0 }]
    } else {
        layers_of(variant, (depth - 1) as nat).push(Conversion { variant, layers: depth as usize })
    }
}

/// The conversions of a tagged sum: those of each variant that has exactly
/// one unnamed field, in the order of the declaration.
pub open spec fn conversions(variants: Seq<VariantShape>) -> Seq<Conversion>
    decreases variants.len(),
{
    if variants.len() == 0 {
        Seq::empty()
    } else if variants.last().unnamed_fields == 1 {
        conversions(variants.drop_last()) + layers_of(
            (variants.len() - 1) as usize,
            variants.last().box_depth as nat,
        )
    } else {
        conversions(variants.drop_last())
    }
}

/// The conversions into a tagged sum.
pub fn from1_plan(variants: &[VariantShape]) -> (plan: Vec<Conversion>)
    ensures
        plan@ == conversions(variants@),
{
    let mut plan: Vec<Conversion> = Vec::new();
    let mut i: usize = 0;
    assert(variants@.take(0) =~= Seq::<VariantShape>::empty());
    while i < variants.len()
        invariant
            i <= variants@.len(),
            plan@ == conversions(variants@.take(i as int)),
        decreases variants@.len() - i,
    {
        assert(variants@.take(i + 1).drop_last() =~= variants@.take(i as int));
        if variants[i].unnamed_fields == 1 {
            let ghost before = plan@;
            let depth: usize = variants[i].box_depth;
            plan.push(Conversion { variant: i, layers: 0 });
            let mut layers: usize = 0;
            assert(plan@ =~= before + layers_of(i, 0));
            while layers < depth
                invariant
                    layers <= depth,
                    plan@ == before + layers_of(i, layers as nat),
                decreases depth - layers,
            {
                layers = layers + 1;
                plan.push(Conversion { variant: i, layers });
                assert(plan@ =~= before + layers_of(i, layers as nat));
            }
        }
        i = i + 1;
    }
    assert(variants@.take(variants@.len() as int) =~= variants@);
    plan
}

/// The branches of the deserializer of a tagged sum: one for each variant
/// that has exactly one unnamed field, in the order of the declaration. An
/// ID that no branch claims is a miss.
pub open spec fn dispatches(variants: Seq<VariantShape>) -> Seq<Dispatch>
    decreases variants.len(),
{
    if variants.len() == 0 {
        Seq::empty()
    } else if variants.last().unnamed_fields == 1 {
        dispatches(variants.drop_last()).push(
            Dispatch {
                variant: (variants.len() - 1) as usize,
                boxed: variants.last().box_depth >= 1,
            },
        )
    } else {
        dispatches(variants.drop_last())
    }
}

/// The branches of the deserializer of a tagged sum.
pub fn opt_deserialize_plan(variants: &[VariantShape]) -> (plan: Vec<Dispatch>)
    ensures
        plan@ == dispatches(variants@),
{
    let mut plan: Vec<Dispatch> = Vec::new();
    let mut i: usize = 0;
    assert(variants@.take(0) =~= Seq::<VariantShape>::empty());
    while i < variants.len()
        invariant
            i <= variants@.len(),
            plan@ == dispatches(variants@.take(i as int)),
        decreases variants@.len() - i,
    {
        assert(variants@.take(i + 1).drop_last() =~= variants@.take(i as int));
        if variants[i].unnamed_fields == 1 {
            plan.push(Dispatch { variant: i, boxed: variants[i].box_depth >= 1 });
        }
        i = i + 1;
    }
    assert(variants@.take(variants@.len() as int) =~= variants@);
    plan
}

} // verus!
