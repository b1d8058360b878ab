//! Laws of the element builder and of the order of the model.

use crate::binxml::name::BinXmlName;
use crate::binxml::value_variant::BinXmlValue;
use crate::model::xml::{
    assembled, attribute_of, attribute_order, attributes_of, by_attribute, element_order, fed,
    model_order, AttributeView, BuilderView, ElementView, ModelView, XmlAttribute, XmlElement,
    XmlModel,
};
use crate::order::{
    antisymmetric, lemma_lex_order_equal, lemma_lex_order_reversed, lemma_lex_order_transitive,
    separates, transitive, Order,
};
use crate::text::{
    lemma_text_order_equal, lemma_text_order_reversed, lemma_text_order_transitive, text_order,
};
use std::cmp::Ordering;
use vstd::laws_cmp::obeys_partial_cmp_spec_properties;
use vstd::laws_eq::obeys_eq_spec_properties;
use vstd::prelude::*;
use vstd::std_specs::cmp::{PartialEqSpec, PartialOrdSpec};

verus! {

/// Two attributes are `Equal` in order exactly when they say the same.
pub proof fn lemma_attribute_order_equal(a: AttributeView, b: AttributeView)
    ensures
        attribute_order(a, b) == Order::Equal <==> a == b,
{
    lemma_text_order_equal(a.name, b.name);
    lemma_text_order_equal(a.value, b.value);
}

/// Exchanging two attributes reverses their order.
pub proof fn lemma_attribute_order_reversed(a: AttributeView, b: AttributeView)
    ensures
        attribute_order(b, a) == attribute_order(a, b).reversed(),
{
    lemma_text_order_reversed(a.name, b.name);
    lemma_text_order_reversed(a.value, b.value);
}

/// `Less` chains in the order of attributes.
pub proof fn lemma_attribute_order_transitive(a: AttributeView, b: AttributeView, c: AttributeView)
    requires
        attribute_order(a, b) == Order::Less,
        attribute_order(b, c) == Order::Less,
    ensures
        attribute_order(a, c) == Order::Less,
{
    lemma_text_order_equal(a.name, b.name);
    lemma_text_order_equal(b.name, c.name);
    lemma_text_order_equal(a.name, c.name);
    let first = text_order(a.name, b.name);
    let second = text_order(b.name, c.name);
    if first == Order::Equal && second == Order::Equal {
        lemma_text_order_transitive(a.value, b.value, c.value);
    } else if first == Order::Less && second == Order::Less {
        lemma_text_order_transitive(a.name, b.name, c.name);
    }
}

/// The order of attributes separates attributes.
pub proof fn lemma_by_attribute_separates()
    ensures
        separates(by_attribute()),
{
    assert forall|x: AttributeView, y: AttributeView| #[trigger]
        by_attribute()(x, y) == Order::Equal <==> x == y by {
        lemma_attribute_order_equal(x, y);
    }
}

/// The order of attributes is transitive.
pub proof fn lemma_by_attribute_transitive()
    ensures
        transitive(by_attribute()),
{
    assert forall|x: AttributeView, y: AttributeView, z: AttributeView|
        #[trigger] by_attribute()(x, y) == Order::Less && #[trigger] by_attribute()(y, z)
            == Order::Less implies by_attribute()(x, z) == Order::Less by {
        lemma_attribute_order_transitive(x, y, z);
    }
}

/// Two elements are `Equal` in order exactly when they say the same.
pub proof fn lemma_element_order_equal(a: ElementView, b: ElementView)
    ensures
        element_order(a, b) == Order::Equal <==> a == b,
{
    lemma_text_order_equal(a.name, b.name);
    lemma_by_attribute_separates();
    lemma_lex_order_equal(a.attributes, b.attributes, by_attribute());
}

/// `Less` chains in the order of elements.
pub proof fn lemma_element_order_transitive(a: ElementView, b: ElementView, c: ElementView)
    requires
        element_order(a, b) == Order::Less,
        element_order(b, c) == Order::Less,
    ensures
        element_order(a, c) == Order::Less,
{
    lemma_text_order_equal(a.name, b.name);
    lemma_text_order_equal(b.name, c.name);
    lemma_text_order_equal(a.name, c.name);
    let first = text_order(a.name, b.name);
    let second = text_order(b.name, c.name);
    if first == Order::Equal && second == Order::Equal {
        lemma_by_attribute_separates();
        lemma_by_attribute_transitive();
        lemma_lex_order_transitive(a.attributes, b.attributes, c.attributes, by_attribute());
    } else if first == Order::Less && second == Order::Less {
        lemma_text_order_transitive(a.name, b.name, c.name);
    }
}

/// Exchanging two elements reverses their order.
pub proof fn lemma_element_order_reversed(a: ElementView, b: ElementView)
    ensures
        element_order(b, a) == element_order(a, b).reversed(),
{
    lemma_text_order_reversed(a.name, b.name);
    assert(antisymmetric(by_attribute())) by {
        assert forall|x: AttributeView, y: AttributeView| #[trigger]
            by_attribute()(y, x) == by_attribute()(x, y).reversed() by {
            lemma_attribute_order_reversed(x, y);
        }
    }
    lemma_lex_order_reversed(a.attributes, b.attributes, by_attribute());
}

/// Two events are `Equal` in order exactly when they say the same.
pub proof fn lemma_model_order_equal(a: ModelView, b: ModelView)
    ensures
        model_order(a, b) == Order::Equal <==> a == b,
{
    match (a, b) {
        (ModelView::OpenElement(x), ModelView::OpenElement(y)) => {
            lemma_element_order_equal(x, y);
        },
        (ModelView::String(x), ModelView::String(y)) => {
            lemma_text_order_equal(x, y);
        },
        _ => {},
    }
}

/// Exchanging two events reverses their order.
pub proof fn lemma_model_order_reversed(a: ModelView, b: ModelView)
    ensures
        model_order(b, a) == model_order(a, b).reversed(),
{
    match (a, b) {
        (ModelView::OpenElement(x), ModelView::OpenElement(y)) => {
            lemma_element_order_reversed(x, y);
        },
        (ModelView::String(x), ModelView::String(y)) => {
            lemma_text_order_reversed(x, y);
        },
        _ => {},
    }
}

/// `Less` chains in the order of events.
pub proof fn lemma_model_order_transitive(a: ModelView, b: ModelView, c: ModelView)
    requires
        model_order(a, b) == Order::Less,
        model_order(b, c) == Order::Less,
    ensures
        model_order(a, c) == Order::Less,
{
    match (a, b, c) {
        (ModelView::OpenElement(x), ModelView::OpenElement(y), ModelView::OpenElement(z)) => {
            lemma_element_order_transitive(x, y, z);
        },
        (ModelView::String(x), ModelView::String(y), ModelView::String(z)) => {
            lemma_text_order_transitive(x, y, z);
        },
        _ => {},
    }
}

/// Feeding pairs to a builder keeps the element's name and adds the pairs' attributes, in
/// order, after those that were completed before. Every name has its value afterwards.
pub proof fn lemma_fed_appends<'a>(
    start: BuilderView,
    pairs: Seq<(BinXmlName<'a>, BinXmlValue<'a>)>,
)
    ensures
        fed(start, pairs).name == start.name,
        fed(start, pairs).attributes == start.attributes + attributes_of(pairs),
        pairs.len() > 0 ==> fed(start, pairs).pending is None,
    decreases pairs.len(),
{
    if pairs.len() == 0 {
        assert(start.attributes + attributes_of(pairs) =~= start.attributes);
    } else {
        lemma_fed_appends(start, pairs.drop_last());
        assert(start.attributes + attributes_of(pairs) =~= (start.attributes + attributes_of(
            pairs.drop_last(),
        )).push(attribute_of(pairs.last())));
    }
}

/// An element assembled from a name and then any number of pairs of attribute name and
/// attribute value can be finished. It then has the name, as many attributes as there were
/// pairs, and the attribute at each position is the one that the pair at that position
/// gives rise to: the attributes stand in the order of the calls.
pub proof fn lemma_finish_keeps_call_order<'a>(
    name: BinXmlName<'a>,
    pairs: Seq<(BinXmlName<'a>, BinXmlValue<'a>)>,
)
    ensures
        assembled(name, pairs).is_named(),
        assembled(name, pairs).finished().name == name@,
        assembled(name, pairs).finished().attributes.len() == pairs.len(),
        forall|i: int|
            0 <= i < pairs.len() ==> #[trigger] assembled(name, pairs).finished().attributes[i]
                == attribute_of(pairs[i]),
        assembled(name, pairs).finished() == (ElementView {
            name: name@,
            attributes: attributes_of(pairs),
        }),
{
    lemma_fed_appends(BuilderView::empty().with_name(name@), pairs);
    assert(Seq::<AttributeView>::empty() + attributes_of(pairs) =~= attributes_of(pairs));
}

/// A value must follow an attribute name. In a new builder, and after any number of pairs
/// of attribute name and attribute value, with or without the element's name, no attribute
/// name waits: a value that comes next is refused, and no attribute is made of it.
pub proof fn lemma_value_needs_a_name<'a>(
    name: BinXmlName<'a>,
    pairs: Seq<(BinXmlName<'a>, BinXmlValue<'a>)>,
)
    ensures
        !BuilderView::empty().awaits_value(),
        !fed(BuilderView::empty(), pairs).awaits_value(),
        !assembled(name, pairs).awaits_value(),
{
    lemma_fed_appends(BuilderView::empty(), pairs);
    lemma_fed_appends(BuilderView::empty().with_name(name@), pairs);
}

/// An element must be named before it is finished. A builder that has been given pairs of
/// attribute name and attribute value, and perhaps one more attribute name, but never the
/// element's name, cannot be finished.
pub proof fn lemma_finish_needs_a_name<'a>(
    pairs: Seq<(BinXmlName<'a>, BinXmlValue<'a>)>,
    last: BinXmlName<'a>,
)
    ensures
        !BuilderView::empty().is_named(),
        !fed(BuilderView::empty(), pairs).is_named(),
        !fed(BuilderView::empty(), pairs).with_attribute_name(last@).is_named(),
{
    lemma_fed_appends(BuilderView::empty(), pairs);
}

/// Two elements assembled from token sequences compare equal exactly when the sequences
/// give the same name and, position by position, the same attributes. So identical
/// sequences give equal elements.
pub proof fn lemma_equal_tokens_equal_elements<'a>(
    first: XmlElement<'a>,
    first_name: BinXmlName<'a>,
    first_pairs: Seq<(BinXmlName<'a>, BinXmlValue<'a>)>,
    second: XmlElement<'a>,
    second_name: BinXmlName<'a>,
    second_pairs: Seq<(BinXmlName<'a>, BinXmlValue<'a>)>,
)
    requires
        first@ == assembled(first_name, first_pairs).finished(),
        second@ == assembled(second_name, second_pairs).finished(),
    ensures
        first.eq_spec(&second) <==> first_name@ == second_name@ && attributes_of(first_pairs)
            == attributes_of(second_pairs),
        first_name == second_name && first_pairs == second_pairs ==> first.eq_spec(&second),
{
    lemma_finish_keeps_call_order(first_name, first_pairs);
    lemma_finish_keeps_call_order(second_name, second_pairs);
}

/// Order matters: two elements assembled from the same name and from pairs that are the
/// same but for two positions, whose pairs give rise to different attributes and are
/// exchanged, compare unequal.
pub proof fn lemma_exchanged_attributes_unequal_elements<'a>(
    first: XmlElement<'a>,
    second: XmlElement<'a>,
    name: BinXmlName<'a>,
    pairs: Seq<(BinXmlName<'a>, BinXmlValue<'a>)>,
    i: int,
    j: int,
)
    requires
        0 <= i < pairs.len(),
        0 <= j < pairs.len(),
        attribute_of(pairs[i]) != attribute_of(pairs[j]),
        first@ == assembled(name, pairs).finished(),
        second@ == assembled(name, pairs.update(i, pairs[j]).update(j, pairs[i])).finished(),
    ensures
        !first.eq_spec(&second),
{
    let exchanged = pairs.update(i, pairs[j]).update(j, pairs[i]);
    lemma_finish_keeps_call_order(name, pairs);
    lemma_finish_keeps_call_order(name, exchanged);
    assert(first@.attributes[i] == attribute_of(pairs[i]));
    assert(second@.attributes[i] == attribute_of(exchanged[i]));
}

/// Names are ordered as the standard library expects of a partial order: comparing gives
/// `Equal` exactly for equal names, exchanging the sides turns `Less` into `Greater`, and
/// `Less` and `Greater` chain. Equality is symmetric and transitive.
pub proof fn lemma_names_are_ordered<'a>()
    ensures
        obeys_partial_cmp_spec_properties::<BinXmlName<'a>>(),
        obeys_eq_spec_properties::<BinXmlName<'a>>(),
{
    reveal(obeys_partial_cmp_spec_properties);
    reveal(obeys_eq_spec_properties);
    assert forall|x: BinXmlName<'a>, y: BinXmlName<'a>|
        #![trigger x.partial_cmp_spec(&y)]
        {
            &&& x.partial_cmp_spec(&y) == Some(Ordering::Equal) <==> x.eq_spec(&y)
            &&& x.partial_cmp_spec(&y) == Some(Ordering::Less) <==> y.partial_cmp_spec(
                &x,
            ) == Some(Ordering::Greater)
        } by {
        lemma_text_order_equal(x@, y@);
        lemma_text_order_reversed(x@, y@);
    }
    assert forall|x: BinXmlName<'a>, y: BinXmlName<'a>, z: BinXmlName<'a>|
        x.partial_cmp_spec(&y) == Some(Ordering::Less) && #[trigger] y.partial_cmp_spec(
            &z,
        ) == Some(Ordering::Less) implies #[trigger] x.partial_cmp_spec(&z) == Some(
        Ordering::Less,
    ) by {
        lemma_text_order_transitive(x@, y@, z@);
    }
    assert forall|x: BinXmlName<'a>, y: BinXmlName<'a>, z: BinXmlName<'a>|
        x.partial_cmp_spec(&y) == Some(Ordering::Greater)
            && #[trigger] y.partial_cmp_spec(&z) == Some(
            Ordering::Greater,
        ) implies #[trigger] x.partial_cmp_spec(&z) == Some(Ordering::Greater) by {
        lemma_text_order_reversed(x@, y@);
        lemma_text_order_reversed(y@, z@);
        lemma_text_order_reversed(x@, z@);
        lemma_text_order_transitive(z@, y@, x@);
    }
}

/// Attributes are ordered as the standard library expects of a partial order.
pub proof fn lemma_attributes_are_ordered<'a>()
    ensures
        obeys_partial_cmp_spec_properties::<XmlAttribute<'a>>(),
        obeys_eq_spec_properties::<XmlAttribute<'a>>(),
{
    reveal(obeys_partial_cmp_spec_properties);
    reveal(obeys_eq_spec_properties);
    assert forall|x: XmlAttribute<'a>, y: XmlAttribute<'a>|
        #![trigger x.partial_cmp_spec(&y)]
        {
            &&& x.partial_cmp_spec(&y) == Some(Ordering::Equal) <==> x.eq_spec(&y)
            &&& x.partial_cmp_spec(&y) == Some(Ordering::Less) <==> y.partial_cmp_spec(
                &x,
            ) == Some(Ordering::Greater)
        } by {
        lemma_attribute_order_equal(x@, y@);
        lemma_attribute_order_reversed(x@, y@);
    }
    assert forall|x: XmlAttribute<'a>, y: XmlAttribute<'a>, z: XmlAttribute<'a>|
        x.partial_cmp_spec(&y) == Some(Ordering::Less) && #[trigger] y.partial_cmp_spec(
            &z,
        ) == Some(Ordering::Less) implies #[trigger] x.partial_cmp_spec(&z) == Some(
        Ordering::Less,
    ) by {
        lemma_attribute_order_transitive(x@, y@, z@);
    }
    assert forall|x: XmlAttribute<'a>, y: XmlAttribute<'a>, z: XmlAttribute<'a>|
        x.partial_cmp_spec(&y) == Some(Ordering::Greater)
            && #[trigger] y.partial_cmp_spec(&z) == Some(
            Ordering::Greater,
        ) implies #[trigger] x.partial_cmp_spec(&z) == Some(Ordering::Greater) by {
        lemma_attribute_order_reversed(x@, y@);
        lemma_attribute_order_reversed(y@, z@);
        lemma_attribute_order_reversed(x@, z@);
        lemma_attribute_order_transitive(z@, y@, x@);
    }
}

/// Elements are ordered as the standard library expects of a partial order.
pub proof fn lemma_elements_are_ordered<'a>()
    ensures
        obeys_partial_cmp_spec_properties::<XmlElement<'a>>(),
        obeys_eq_spec_properties::<XmlElement<'a>>(),
{
    reveal(obeys_partial_cmp_spec_properties);
    reveal(obeys_eq_spec_properties);
    assert forall|x: XmlElement<'a>, y: XmlElement<'a>|
        #![trigger x.partial_cmp_spec(&y)]
        {
            &&& x.partial_cmp_spec(&y) == Some(Ordering::Equal) <==> x.eq_spec(&y)
            &&& x.partial_cmp_spec(&y) == Some(Ordering::Less) <==> y.partial_cmp_spec(
                &x,
            ) == Some(Ordering::Greater)
        } by {
        lemma_element_order_equal(x@, y@);
        lemma_element_order_reversed(x@, y@);
    }
    assert forall|x: XmlElement<'a>, y: XmlElement<'a>, z: XmlElement<'a>|
        x.partial_cmp_spec(&y) == Some(Ordering::Less) && #[trigger] y.partial_cmp_spec(
            &z,
        ) == Some(Ordering::Less) implies #[trigger] x.partial_cmp_spec(&z) == Some(
        Ordering::Less,
    ) by {
        lemma_element_order_transitive(x@, y@, z@);
    }
    assert forall|x: XmlElement<'a>, y: XmlElement<'a>, z: XmlElement<'a>|
        x.partial_cmp_spec(&y) == Some(Ordering::Greater)
            && #[trigger] y.partial_cmp_spec(&z) == Some(
            Ordering::Greater,
        ) implies #[trigger] x.partial_cmp_spec(&z) == Some(Ordering::Greater) by {
        lemma_element_order_reversed(x@, y@);
        lemma_element_order_reversed(y@, z@);
        lemma_element_order_reversed(x@, z@);
        lemma_element_order_transitive(z@, y@, x@);
    }
}

/// Events are ordered as the standard library expects of a partial order.
pub proof fn lemma_events_are_ordered<'a>()
    ensures
        obeys_partial_cmp_spec_properties::<XmlModel<'a>>(),
        obeys_eq_spec_properties::<XmlModel<'a>>(),
{
    reveal(obeys_partial_cmp_spec_properties);
    reveal(obeys_eq_spec_properties);
    assert forall|x: XmlModel<'a>, y: XmlModel<'a>|
        #![trigger x.partial_cmp_spec(&y)]
        {
            &&& x.partial_cmp_spec(&y) == Some(Ordering::Equal) <==> x.eq_spec(&y)
            &&& x.partial_cmp_spec(&y) == Some(Ordering::Less) <==> y.partial_cmp_spec(
                &x,
            ) == Some(Ordering::Greater)
        } by {
        lemma_model_order_equal(x@, y@);
        lemma_model_order_reversed(x@, y@);
    }
    assert forall|x: XmlModel<'a>, y: XmlModel<'a>, z: XmlModel<'a>|
        x.partial_cmp_spec(&y) == Some(Ordering::Less) && #[trigger] y.partial_cmp_spec(
            &z,
        ) == Some(Ordering::Less) implies #[trigger] x.partial_cmp_spec(&z) == Some(
        Ordering::Less,
    ) by {
        lemma_model_order_transitive(x@, y@, z@);
    }
    assert forall|x: XmlModel<'a>, y: XmlModel<'a>, z: XmlModel<'a>|
        x.partial_cmp_spec(&y) == Some(Ordering::Greater)
            && #[trigger] y.partial_cmp_spec(&z) == Some(
            Ordering::Greater,
        ) implies #[trigger] x.partial_cmp_spec(&z) == Some(Ordering::Greater) by {
        lemma_model_order_reversed(x@, y@);
        lemma_model_order_reversed(y@, z@);
        lemma_model_order_reversed(x@, z@);
        lemma_model_order_transitive(z@, y@, x@);
    }
}

} // verus!
