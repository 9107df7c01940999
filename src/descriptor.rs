use crate::identity::{base58_of, Identity};
use vstd::prelude::*;

verus! {

#[verifier::external_type_specification]
#[verifier::external_body]
pub struct ExJsonValue(serde_json::Value);

/// One declared trait of an item: its type and an arbitrary JSON value.
pub struct Attribute {
    pub trait_type: String,
    pub value: serde_json::Value,
}

/// The attributes of a descriptor document, written either as a single
/// object or as an array of objects.
pub enum AttributeList {
    One(Attribute),
    Many(Vec<Attribute>),
}

/// An item's off-chain descriptor, with its attributes in document order.
pub struct Descriptor {
    pub name: String,
    pub image: String,
    pub attributes: Vec<Attribute>,
}

/// A resolved item: its descriptor joined with its mint, the attributes
/// flattened to one value per trait type.
pub struct Token {
    pub name: String,
    pub image: String,
    pub mint_address: String,
    /// One pair per trait type, no trait type twice.
    pub attributes: Vec<(String, serde_json::Value)>,
}

/// What a token states: its fixed fields and its trait mapping.
pub struct TokenView {
    pub name: Seq<char>,
    pub image: Seq<char>,
    pub mint_address: Seq<char>,
    pub fields: Map<Seq<char>, serde_json::Value>,
}

/// The mapping from trait type to value given by `attrs`, a later attribute
/// overwriting an earlier one of the same trait type.
pub open spec fn fields_of(attrs: Seq<Attribute>) -> Map<Seq<char>, serde_json::Value>
    decreases attrs.len(),
{
    if attrs.len() == 0 {
        Map::empty()
    } else {
        fields_of(attrs.drop_last()).insert(attrs.last().trait_type@, attrs.last().value)
    }
}

/// The mapping that a list of (trait type, value) pairs spells out.
pub open spec fn pair_map(pairs: Seq<(String, serde_json::Value)>) -> Map<
    Seq<char>,
    serde_json::Value,
>
    decreases pairs.len(),
{
    if pairs.len() == 0 {
        Map::empty()
    } else {
        pair_map(pairs.drop_last()).insert(pairs.last().0@, pairs.last().1)
    }
}

/// No trait type occurs twice among `pairs`.
pub open spec fn keys_unique(pairs: Seq<(String, serde_json::Value)>) -> bool {
    forall|i: int, j: int|
        0 <= i < pairs.len() && 0 <= j < pairs.len() && i != j ==> pairs[i].0@ != pairs[j].0@
}

/// The token that a mint and a descriptor resolve to.
pub open spec fn token_view_of(owner: Seq<u8>, d: Descriptor) -> TokenView {
    TokenView {
        name: d.name@,
        image: d.image@,
        mint_address: base58_of(owner),
        fields: fields_of(d.attributes@),
    }
}

impl View for Token {
    type V = TokenView;

    open spec fn view(&self) -> TokenView {
        TokenView {
            name: self.name@,
            image: self.image@,
            mint_address: self.mint_address@,
            fields: pair_map(self.attributes@),
        }
    }
}

impl AttributeList {
    /// The attributes in document order.
    pub open spec fn items(&self) -> Seq<Attribute> {
        match self {
            AttributeList::One(a) => seq![*a],
            AttributeList::Many(v) => v@,
        }
    }

    pub fn into_vec(self) -> (r: Vec<Attribute>)
        ensures
            r@ == self.items(),
    {
        match self {
            AttributeList::One(a) => {
                let mut v: Vec<Attribute> = Vec::new();
                v.push(a);
                proof {
                    assert(v@ =~= self.items());
                }
                v
            },
            AttributeList::Many(v) => v,
        }
    }
}

impl Descriptor {
    /// A descriptor with its attributes brought to a single list.
    pub fn new(name: String, image: String, attributes: AttributeList) -> (r: Descriptor)
        ensures
            r.name == name,
            r.image == image,
            r.attributes@ == attributes.items(),
    {
        Descriptor { name, image, attributes: attributes.into_vec() }
    }
}

proof fn lemma_pair_map_update(pairs: Seq<(String, serde_json::Value)>, j: int, p: (String, serde_json::Value))
    requires
        keys_unique(pairs),
        0 <= j < pairs.len(),
        pairs[j].0@ == p.0@,
    ensures
        pair_map(pairs.update(j, p)) == pair_map(pairs).insert(p.0@, p.1),
        keys_unique(pairs.update(j, p)),
    decreases pairs.len(),
{
    let u = pairs.update(j, p);
    assert(u.drop_last() =~= if j == pairs.len() - 1 {
        pairs.drop_last()
    } else {
        pairs.drop_last().update(j, p)
    });
    if j < pairs.len() - 1 {
        lemma_pair_map_update(pairs.drop_last(), j, p);
        assert(pairs.last().0@ != p.0@);
    }
    assert(pair_map(u) =~= pair_map(pairs).insert(p.0@, p.1));
}

/// Reduces attributes to one value per trait type, the last one written for
/// each, keeping the trait types in the order they first appear.
pub fn flatten_attributes(attrs: Vec<Attribute>) -> (r: Vec<(String, serde_json::Value)>)
    ensures
        pair_map(r@) == fields_of(attrs@),
        keys_unique(r@),
{
    let ghost whole = attrs@;
    let mut rest = attrs;
    let mut out: Vec<(String, serde_json::Value)> = Vec::new();
    let ghost mut done: int = 0;
    while rest.len() > 0
        invariant
            0 <= done <= whole.len(),
            rest@ == whole.skip(done),
            pair_map(out@) == fields_of(whole.take(done)),
            keys_unique(out@),
        decreases rest.len(),
    {
        let a = rest.remove(0);
        proof {
            assert(a == whole[done]);
            assert(whole.take(done + 1).drop_last() =~= whole.take(done));
        }
        let mut j: usize = 0;
        let mut found = false;
        while j < out.len()
            invariant_except_break
                !found,
            invariant
                j <= out.len(),
                forall|i: int| 0 <= i < j ==> out@[i].0@ != a.trait_type@,
            ensures
                found ==> j < out.len() && out@[j as int].0@ == a.trait_type@,
                !found ==> forall|i: int| 0 <= i < out.len() ==> out@[i].0@ != a.trait_type@,
            decreases out.len() - j,
        {
            if out[j].0 == a.trait_type {
                found = true;
                break;
            }
            j = j + 1;
        }
        let Attribute { trait_type, value } = a;
        if found {
            proof {
                lemma_pair_map_update(out@, j as int, (trait_type, value));
            }
            out.set(j, (trait_type, value));
        } else {
            let ghost before = out@;
            out.push((trait_type, value));
            proof {
                assert(out@.drop_last() =~= before);
            }
        }
        proof {
            done = done + 1;
            assert(rest@ =~= whole.skip(done));
        }
    }
    proof {
        assert(whole.take(done) =~= whole);
    }
    out
}

impl Token {
    /// Joins a mint with its resolved descriptor.
    pub fn from_resolved(owner: Identity, descriptor: Descriptor) -> (r: Token)
        ensures
            r@ == token_view_of(owner.bytes@, descriptor),
            keys_unique(r.attributes@),
    {
        let Descriptor { name, image, attributes } = descriptor;
        Token {
            name,
            image,
            mint_address: owner.to_base58(),
            attributes: flatten_attributes(attributes),
        }
    }
}

/// For a trait type that several attributes share, the flattened mapping
/// holds the value of the last of them.
pub proof fn lemma_last_attribute_wins(attrs: Seq<Attribute>, i: int)
    requires
        0 <= i < attrs.len(),
        forall|j: int| i < j < attrs.len() ==> attrs[j].trait_type@ != attrs[i].trait_type@,
    ensures
        fields_of(attrs).contains_key(attrs[i].trait_type@),
        fields_of(attrs)[attrs[i].trait_type@] == attrs[i].value,
    decreases attrs.len(),
{
    if i < attrs.len() - 1 {
        let rest = attrs.drop_last();
        assert(rest[i] == attrs[i]);
        assert forall|j: int| i < j < rest.len() implies rest[j].trait_type@
            != rest[i].trait_type@ by {
            assert(rest[j] == attrs[j]);
        }
        lemma_last_attribute_wins(rest, i);
    }
}

/// Attributes written as a single object and as a one-element array holding
/// that object give descriptors that resolve to the same token.
pub proof fn lemma_single_attribute_normalizes(
    a: Attribute,
    v: Vec<Attribute>,
    d1: Descriptor,
    d2: Descriptor,
    owner: Seq<u8>,
)
    requires
        v@ == seq![a],
        d1.name == d2.name,
        d1.image == d2.image,
        d1.attributes@ == AttributeList::One(a).items(),
        d2.attributes@ == AttributeList::Many(v).items(),
    ensures
        d1.attributes@ == d2.attributes@,
        token_view_of(owner, d1) == token_view_of(owner, d2),
{
}

} // verus!
