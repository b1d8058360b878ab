//! Element records, the builder that assembles them token by token, and stream events.
//!
//! Every type is modelled by a view that keeps the characters of its texts and forgets how
//! they are held. Equality is equality of views. The order is structural: texts byte by
//! byte, an attribute by name and then value, an element by name and then attributes.

use crate::binxml::name::BinXmlName;
use crate::binxml::value_variant::BinXmlValue;
use crate::model::laws::{
    lemma_attribute_order_equal, lemma_element_order_equal, lemma_finish_keeps_call_order,
    lemma_model_order_equal,
};
use crate::order::{int_order, lemma_lex_order_skip, lex_order, Order};
use crate::text::{clone_text, cow_str, order_str, text_order};
use std::borrow::Cow;
use std::cmp::Ordering;
use vstd::prelude::*;

verus! {

/// What an attribute says: the characters of its name and of its value.
pub struct AttributeView {
    pub name: Seq<char>,
    pub value: Seq<char>,
}

/// What an element says: the characters of its name, and its attributes in order.
pub struct ElementView {
    pub name: Seq<char>,
    pub attributes: Seq<AttributeView>,
}

/// The order of two attributes: by name, then by value.
pub open spec fn attribute_order(a: AttributeView, b: AttributeView) -> Order {
    text_order(a.name, b.name).followed_by(text_order(a.value, b.value))
}

/// `attribute_order` as an element order for sequences of attributes.
pub open spec fn by_attribute() -> spec_fn(AttributeView, AttributeView) -> Order {
    |a: AttributeView, b: AttributeView| attribute_order(a, b)
}

/// The order of two elements: by name, then by their attribute sequences.
pub open spec fn element_order(a: ElementView, b: ElementView) -> Order {
    text_order(a.name, b.name).followed_by(lex_order(a.attributes, b.attributes, by_attribute()))
}

/// The views of a run of attributes, in the same order.
pub open spec fn attribute_views<'a>(attributes: Seq<XmlAttribute<'a>>) -> Seq<AttributeView> {
    attributes.map_values(|a: XmlAttribute<'a>| a@)
}

/// One attribute of an element: a name and the text of its value. The value is borrowed
/// from the decoded buffer where it was decoded as a string, and owned otherwise.
#[derive(Debug)]
pub struct XmlAttribute<'a> {
    pub name: BinXmlName<'a>,
    pub value: Cow<'a, str>,
}

impl<'a> View for XmlAttribute<'a> {
    type V = AttributeView;

    open spec fn view(&self) -> AttributeView {
        AttributeView { name: self.name@, value: self.value@ }
    }
}

impl<'a> XmlAttribute<'a> {
    /// Compares two attributes by name, then by value.
    pub fn order(&self, other: &Self) -> (o: Order)
        ensures
            o == attribute_order(self@, other@),
    {
        match self.name.order(&other.name) {
            Order::Equal => order_str(cow_str(&self.value), cow_str(&other.value)),
            decided => decided,
        }
    }
}

impl<'a> Clone for XmlAttribute<'a> {
    /// A copy that holds each text the same way.
    fn clone(&self) -> (copy: Self)
        ensures
            copy == *self,
    {
        XmlAttribute { name: self.name.clone(), value: clone_text(&self.value) }
    }
}

impl<'a> PartialEq for XmlAttribute<'a> {
    fn eq(&self, other: &Self) -> (same: bool) {
        proof {
            lemma_attribute_order_equal(self@, other@);
        }
        match self.order(other) {
            Order::Equal => true,
            _ => false,
        }
    }
}

impl<'a> vstd::std_specs::cmp::PartialEqSpecImpl for XmlAttribute<'a> {
    open spec fn obeys_eq_spec() -> bool {
        true
    }

    open spec fn eq_spec(&self, other: &Self) -> bool {
        self@ == other@
    }
}

impl<'a> PartialOrd for XmlAttribute<'a> {
    fn partial_cmp(&self, other: &Self) -> (o: Option<Ordering>) {
        Some(self.order(other).to_ordering())
    }
}

impl<'a> vstd::std_specs::cmp::PartialOrdSpecImpl for XmlAttribute<'a> {
    open spec fn obeys_partial_cmp_spec() -> bool {
        true
    }

    open spec fn partial_cmp_spec(&self, other: &Self) -> Option<Ordering> {
        Some(attribute_order(self@, other@).std_ordering())
    }
}

/// A finished element: its name and its attributes, in the order in which they arrived.
/// Attribute names may repeat.
#[derive(Debug)]
pub struct XmlElement<'a> {
    pub name: BinXmlName<'a>,
    pub attributes: Vec<XmlAttribute<'a>>,
}

impl<'a> View for XmlElement<'a> {
    type V = ElementView;

    open spec fn view(&self) -> ElementView {
        ElementView { name: self.name@, attributes: attribute_views(self.attributes@) }
    }
}

/// Compares two runs of attributes lexicographically.
fn order_attributes<'a>(a: &Vec<XmlAttribute<'a>>, b: &Vec<XmlAttribute<'a>>) -> (o: Order)
    ensures
        o == lex_order(attribute_views(a@), attribute_views(b@), by_attribute()),
{
    let ghost va = attribute_views(a@);
    let ghost vb = attribute_views(b@);
    let n = if a.len() < b.len() {
        a.len()
    } else {
        b.len()
    };
    let mut i: usize = 0;
    while i < n
        invariant
            i <= n,
            n <= a@.len(),
            n <= b@.len(),
            va == attribute_views(a@),
            vb == attribute_views(b@),
            forall|k: int| 0 <= k < i ==> by_attribute()(#[trigger] va[k], vb[k]) == Order::Equal,
        decreases n - i,
    {
        let decided = a[i].order(&b[i]);
        match decided {
            Order::Equal => {},
            _ => {
                proof {
                    lemma_lex_order_skip(va, vb, by_attribute(), i as int);
                    assert(va.skip(i as int)[0] == a@[i as int]@);
                    assert(vb.skip(i as int)[0] == b@[i as int]@);
                }
                return decided;
            },
        }
        i += 1;
    }
    proof {
        lemma_lex_order_skip(va, vb, by_attribute(), n as int);
    }
    if a.len() < b.len() {
        Order::Less
    } else if a.len() > b.len() {
        Order::Greater
    } else {
        Order::Equal
    }
}

/// A copy of a run of attributes that holds each text the same way.
fn clone_attributes<'a>(attributes: &Vec<XmlAttribute<'a>>) -> (copy: Vec<XmlAttribute<'a>>)
    ensures
        copy@ == attributes@,
{
    let mut copy: Vec<XmlAttribute<'a>> = Vec::new();
    let mut i: usize = 0;
    while i < attributes.len()
        invariant
            i <= attributes@.len(),
            copy@ == attributes@.take(i as int),
        decreases attributes@.len() - i,
    {
        copy.push(attributes[i].clone());
        proof {
            assert(attributes@.take(i + 1) =~= attributes@.take(i as int).push(
                attributes@[i as int],
            ));
        }
        i += 1;
    }
    proof {
        assert(attributes@.take(i as int) =~= attributes@);
    }
    copy
}

impl<'a> XmlElement<'a> {
    /// Compares two elements by name, then by their attributes in order.
    pub fn order(&self, other: &Self) -> (o: Order)
        ensures
            o == element_order(self@, other@),
    {
        match self.name.order(&other.name) {
            Order::Equal => order_attributes(&self.attributes, &other.attributes),
            decided => decided,
        }
    }
}

impl<'a> Clone for XmlElement<'a> {
    /// A copy with the same name and the same attributes in the same order, each text held
    /// the same way.
    fn clone(&self) -> (copy: Self)
        ensures
            copy.name == self.name,
            copy.attributes@ == self.attributes@,
    {
        XmlElement { name: self.name.clone(), attributes: clone_attributes(&self.attributes) }
    }
}

impl<'a> PartialEq for XmlElement<'a> {
    fn eq(&self, other: &Self) -> (same: bool) {
        proof {
            lemma_element_order_equal(self@, other@);
        }
        match self.order(other) {
            Order::Equal => true,
            _ => false,
        }
    }
}

impl<'a> vstd::std_specs::cmp::PartialEqSpecImpl for XmlElement<'a> {
    open spec fn obeys_eq_spec() -> bool {
        true
    }

    open spec fn eq_spec(&self, other: &Self) -> bool {
        self@ == other@
    }
}

impl<'a> PartialOrd for XmlElement<'a> {
    fn partial_cmp(&self, other: &Self) -> (o: Option<Ordering>) {
        Some(self.order(other).to_ordering())
    }
}

impl<'a> vstd::std_specs::cmp::PartialOrdSpecImpl for XmlElement<'a> {
    open spec fn obeys_partial_cmp_spec() -> bool {
        true
    }

    open spec fn partial_cmp_spec(&self, other: &Self) -> Option<Ordering> {
        Some(element_order(self@, other@).std_ordering())
    }
}

/// What a builder has been told so far.
pub struct BuilderView {
    /// The element's name, once it has been set.
    pub name: Option<Seq<char>>,
    /// The attributes completed so far, in the order in which they were completed.
    pub attributes: Seq<AttributeView>,
    /// The name of the attribute that waits for its value, if one does.
    pub pending: Option<Seq<char>>,
}

impl BuilderView {
    /// The state of a builder that has been told nothing.
    pub open spec fn empty() -> BuilderView {
        BuilderView { name: None, attributes: Seq::empty(), pending: None }
    }

    /// The state after the element's name is set to `name`. A name set before is replaced.
    pub open spec fn with_name(self, name: Seq<char>) -> BuilderView {
        BuilderView { name: Some(name), ..self }
    }

    /// The state after `name` is staged as the name of the next attribute. A name that was
    /// still waiting for its value is replaced.
    pub open spec fn with_attribute_name(self, name: Seq<char>) -> BuilderView {
        BuilderView { pending: Some(name), ..self }
    }

    /// Whether a value can be taken: an attribute name waits for it.
    pub open spec fn awaits_value(self) -> bool {
        self.pending is Some
    }

    /// The state after the waiting attribute name is given the value text `text`: the pair
    /// joins the completed attributes at the end, and no name waits any more.
    pub open spec fn with_attribute_text(self, text: Seq<char>) -> BuilderView
        recommends
            self.awaits_value(),
    {
        BuilderView {
            attributes: self.attributes.push(
                AttributeView { name: self.pending->Some_0, value: text },
            ),
            pending: None,
            ..self
        }
    }

    /// Whether the element can be finished: its name has been set.
    pub open spec fn is_named(self) -> bool {
        self.name is Some
    }

    /// The element that finishing yields: the name that was set and the completed
    /// attributes. An attribute name that still waits for its value is left out.
    pub open spec fn finished(self) -> ElementView
        recommends
            self.is_named(),
    {
        ElementView { name: self.name->Some_0, attributes: self.attributes }
    }
}

/// Why a step of assembling an element was refused.
#[derive(Clone, Copy, Debug, PartialEq, Eq, Structural)]
pub enum BuilderError {
    /// A value arrived while no attribute name was waiting for one.
    MissingAttributeName,
    /// The element was to be finished before its name was set.
    MissingElementName,
    /// An attribute name arrived while another was still waiting for its value.
    AttributeNameAlreadyPending,
    /// The element's name was set a second time.
    ElementNameAlreadySet,
}

/// The two classes of refusal.
#[derive(Clone, Copy, Debug, PartialEq, Eq, Structural)]
pub enum ErrorClass {
    /// The token producer broke the protocol: decoding cannot go on.
    ContractViolation,
    /// The token sequence of this one element is malformed: the element is lost, the
    /// document is not.
    MalformedElement,
}

impl BuilderError {
    /// The class an error belongs to.
    pub open spec fn class_of(self) -> ErrorClass {
        match self {
            BuilderError::MissingAttributeName => ErrorClass::ContractViolation,
            BuilderError::MissingElementName => ErrorClass::ContractViolation,
            BuilderError::AttributeNameAlreadyPending => ErrorClass::MalformedElement,
            BuilderError::ElementNameAlreadySet => ErrorClass::MalformedElement,
        }
    }

    /// The class the error belongs to.
    pub fn class(&self) -> (class: ErrorClass)
        ensures
            class == self.class_of(),
    {
        match self {
            BuilderError::MissingAttributeName => ErrorClass::ContractViolation,
            BuilderError::MissingElementName => ErrorClass::ContractViolation,
            BuilderError::AttributeNameAlreadyPending => ErrorClass::MalformedElement,
            BuilderError::ElementNameAlreadySet => ErrorClass::MalformedElement,
        }
    }

    /// What went wrong, in words.
    pub open spec fn message_of(self) -> Seq<char> {
        match self {
            BuilderError::MissingAttributeName => "attribute value without an attribute name"@,
            BuilderError::MissingElementName => "element finished without a name"@,
            BuilderError::AttributeNameAlreadyPending =>
                "attribute name while another waits for its value"@,
            BuilderError::ElementNameAlreadySet => "element name set twice"@,
        }
    }

    /// What went wrong, in words.
    pub fn message(&self) -> (text: &'static str)
        ensures
            text@ == self.message_of(),
    {
        match self {
            BuilderError::MissingAttributeName => "attribute value without an attribute name",
            BuilderError::MissingElementName => "element finished without a name",
            BuilderError::AttributeNameAlreadyPending =>
                "attribute name while another waits for its value",
            BuilderError::ElementNameAlreadySet => "element name set twice",
        }
    }

    /// Whether decoding has to stop on this error.
    pub fn is_fatal(&self) -> (fatal: bool)
        ensures
            fatal == (self.class_of() == ErrorClass::ContractViolation),
    {
        match self.class() {
            ErrorClass::ContractViolation => true,
            ErrorClass::MalformedElement => false,
        }
    }
}

/// Assembles one element from the tokens of one element: its name, then for each attribute
/// the attribute's name followed by its value. Each step takes the builder and hands it
/// back, and `finish` uses it up.
///
/// The steps `name`, `attribute_name`, `attribute_value` and `finish` rely on the producer
/// of the tokens: a value needs a name that waits for it, finishing needs the element's
/// name, and a name that arrives twice replaces the earlier one. The steps that begin with
/// `try_` check instead, and refuse with the reason.
///
/// A value is staged and its attribute completed in one step, so a second value for the
/// same name finds no name waiting.
pub struct XmlElementBuilder<'a> {
    name: Option<BinXmlName<'a>>,
    attributes: Vec<XmlAttribute<'a>>,
    current_attribute_name: Option<BinXmlName<'a>>,
}

impl<'a> View for XmlElementBuilder<'a> {
    type V = BuilderView;

    open spec fn view(&self) -> BuilderView {
        BuilderView {
            name: match self.element_name() {
                Some(name) => Some(name@),
                None => None,
            },
            attributes: attribute_views(self.completed()),
            pending: match self.pending_name() {
                Some(name) => Some(name@),
                None => None,
            },
        }
    }
}

impl<'a> XmlElementBuilder<'a> {
    /// The element's name as it is held, once it has been set.
    pub closed spec fn element_name(&self) -> Option<BinXmlName<'a>> {
        self.name
    }

    /// The attributes completed so far as they are held.
    pub closed spec fn completed(&self) -> Seq<XmlAttribute<'a>> {
        self.attributes@
    }

    /// The attribute name that waits for its value as it is held, if one does.
    pub closed spec fn pending_name(&self) -> Option<BinXmlName<'a>> {
        self.current_attribute_name
    }

    /// Whether the builder holds exactly these: the element's name, the completed
    /// attributes in order, and the attribute name that waits for its value.
    pub open spec fn holds(
        &self,
        name: Option<BinXmlName<'a>>,
        completed: Seq<XmlAttribute<'a>>,
        pending: Option<BinXmlName<'a>>,
    ) -> bool {
        &&& self.element_name() == name
        &&& self.completed() == completed
        &&& self.pending_name() == pending
    }

    /// A builder that has been told nothing yet.
    pub fn new() -> (builder: Self)
        ensures
            builder@ == BuilderView::empty(),
            builder.holds(None, Seq::empty(), None),
    {
        let builder = XmlElementBuilder {
            name: None,
            attributes: Vec::new(),
            current_attribute_name: None,
        };
        proof {
            assert(builder@.attributes =~= Seq::empty());
        }
        builder
    }

    /// Sets the element's name. A name set before is replaced.
    pub fn name(self, name: BinXmlName<'a>) -> (builder: Self)
        ensures
            builder@ == self@.with_name(name@),
            builder.holds(Some(name), self.completed(), self.pending_name()),
    {
        XmlElementBuilder {
            name: Some(name),
            attributes: self.attributes,
            current_attribute_name: self.current_attribute_name,
        }
    }

    /// Stages the name of the next attribute. A name that was still waiting for its value
    /// is replaced, and the attribute it named is lost.
    pub fn attribute_name(self, name: BinXmlName<'a>) -> (builder: Self)
        ensures
            builder@ == self@.with_attribute_name(name@),
            builder.holds(self.element_name(), self.completed(), Some(name)),
    {
        XmlElementBuilder {
            name: self.name,
            attributes: self.attributes,
            current_attribute_name: Some(name),
        }
    }

    /// Gives the waiting attribute name its value and completes the attribute. The value's
    /// text is the string itself, held as the value held it, where the value is natively
    /// a string; else it is the value's canonical text, never empty, in a text of its own.
    pub fn attribute_value(self, value: BinXmlValue<'a>) -> (builder: Self)
        requires
            self@.awaits_value(),
        ensures
            builder@ == self@.with_attribute_text(value.canonical_text()),
            builder.holds(
                self.element_name(),
                self.completed().push(builder.completed().last()),
                None,
            ),
            builder.completed().last().name == self.pending_name()->Some_0,
            value.is_rendered_as(builder.completed().last().value),
            !value.is_string() ==> builder.completed().last().value@.len() > 0,
    {
        let ghost before = self.attributes@;
        let attribute = XmlAttribute {
            name: self.current_attribute_name.unwrap(),
            value: value.into_text(),
        };
        let mut attributes = self.attributes;
        attributes.push(attribute);
        proof {
            assert(attributes@ =~= before.push(attributes@.last()));
            assert(attribute_views(attributes@) =~= attribute_views(before).push(
                attributes@.last()@,
            ));
        }
        XmlElementBuilder { name: self.name, attributes, current_attribute_name: None }
    }

    /// Finishes the element: the name that was set, and the completed attributes in the
    /// order in which they were completed. An attribute name that still waits for its
    /// value is dropped.
    pub fn finish(self) -> (element: XmlElement<'a>)
        requires
            self@.is_named(),
        ensures
            element@ == self@.finished(),
            element.name == self.element_name()->Some_0,
            element.attributes@ == self.completed(),
    {
        XmlElement { name: self.name.unwrap(), attributes: self.attributes }
    }

    /// Whether the element's name has been set, so that the element can be finished.
    pub fn has_name(&self) -> (named: bool)
        ensures
            named == self@.is_named(),
    {
        self.name.is_some()
    }

    /// Whether an attribute name waits for its value, so that a value can be taken.
    pub fn has_pending_attribute(&self) -> (pending: bool)
        ensures
            pending == self@.awaits_value(),
    {
        self.current_attribute_name.is_some()
    }

    /// Sets the element's name, unless it has been set already: a second name is a
    /// malformed element.
    pub fn try_name(self, name: BinXmlName<'a>) -> (outcome: Result<Self, BuilderError>)
        ensures
            (match outcome {
                Ok(builder) => {
                    &&& !self@.is_named()
                    &&& builder@ == self@.with_name(name@)
                    &&& builder.holds(Some(name), self.completed(), self.pending_name())
                },
                Err(error) => self@.is_named() && error == BuilderError::ElementNameAlreadySet,
            }),
    {
        if self.has_name() {
            Err(BuilderError::ElementNameAlreadySet)
        } else {
            Ok(self.name(name))
        }
    }

    /// Stages the name of the next attribute, unless a name still waits for its value: a
    /// second name in a row is a malformed element.
    pub fn try_attribute_name(self, name: BinXmlName<'a>) -> (outcome: Result<
        Self,
        BuilderError,
    >)
        ensures
            (match outcome {
                Ok(builder) => {
                    &&& !self@.awaits_value()
                    &&& builder@ == self@.with_attribute_name(name@)
                    &&& builder.holds(self.element_name(), self.completed(), Some(name))
                },
                Err(error) => self@.awaits_value() && error
                    == BuilderError::AttributeNameAlreadyPending,
            }),
    {
        if self.has_pending_attribute() {
            Err(BuilderError::AttributeNameAlreadyPending)
        } else {
            Ok(self.attribute_name(name))
        }
    }

    /// Gives the waiting attribute name its value and completes the attribute, as
    /// `attribute_value` does. Where no name waits, the producer of the tokens has broken
    /// the protocol, and no attribute is made.
    pub fn try_attribute_value(self, value: BinXmlValue<'a>) -> (outcome: Result<
        Self,
        BuilderError,
    >)
        ensures
            (match outcome {
                Ok(builder) => {
                    &&& self@.awaits_value()
                    &&& builder@ == self@.with_attribute_text(value.canonical_text())
                    &&& builder.holds(
                        self.element_name(),
                        self.completed().push(builder.completed().last()),
                        None,
                    )
                    &&& builder.completed().last().name == self.pending_name()->Some_0
                    &&& value.is_rendered_as(builder.completed().last().value)
                    &&& !value.is_string() ==> builder.completed().last().value@.len() > 0
                },
                Err(error) => !self@.awaits_value() && error
                    == BuilderError::MissingAttributeName,
            }),
    {
        if self.has_pending_attribute() {
            Ok(self.attribute_value(value))
        } else {
            Err(BuilderError::MissingAttributeName)
        }
    }

    /// Finishes the element, as `finish` does. Where the name has not been set, the
    /// producer of the tokens has broken the protocol, and no element is made.
    pub fn try_finish(self) -> (outcome: Result<XmlElement<'a>, BuilderError>)
        ensures
            (match outcome {
                Ok(element) => {
                    &&& self@.is_named()
                    &&& element@ == self@.finished()
                    &&& element.name == self.element_name()->Some_0
                    &&& element.attributes@ == self.completed()
                },
                Err(error) => !self@.is_named() && error == BuilderError::MissingElementName,
            }),
    {
        if self.has_name() {
            Ok(self.finish())
        } else {
            Err(BuilderError::MissingElementName)
        }
    }
}

/// The attribute that a name token and the value token after it give rise to.
pub open spec fn attribute_of<'a>(pair: (BinXmlName<'a>, BinXmlValue<'a>)) -> AttributeView {
    AttributeView { name: pair.0@, value: pair.1.canonical_text() }
}

/// The attributes that a run of name and value tokens gives rise to, in the same order.
pub open spec fn attributes_of<'a>(pairs: Seq<(BinXmlName<'a>, BinXmlValue<'a>)>) -> Seq<
    AttributeView,
> {
    pairs.map_values(|pair: (BinXmlName<'a>, BinXmlValue<'a>)| attribute_of(pair))
}

/// The state of a builder that was in state `start` and has then been given, for each pair
/// in order, the pair's name as an attribute name and the pair's value as its value.
pub open spec fn fed<'a>(
    start: BuilderView,
    pairs: Seq<(BinXmlName<'a>, BinXmlValue<'a>)>,
) -> BuilderView
    decreases pairs.len(),
{
    if pairs.len() == 0 {
        start
    } else {
        fed(start, pairs.drop_last()).with_attribute_name(pairs.last().0@).with_attribute_text(
            pairs.last().1.canonical_text(),
        )
    }
}

/// The state of a new builder that has been given `name` as the element's name and then
/// the pairs in order.
pub open spec fn assembled<'a>(
    name: BinXmlName<'a>,
    pairs: Seq<(BinXmlName<'a>, BinXmlValue<'a>)>,
) -> BuilderView {
    fed(BuilderView::empty().with_name(name@), pairs)
}

impl<'a> XmlElement<'a> {
    /// Assembles an element from the tokens of one element: a builder is given the name,
    /// then each pair's attribute name and attribute value in order, and is finished. The
    /// element has the name and one attribute for each pair, in the order of the pairs.
    pub fn from_tokens(
        name: BinXmlName<'a>,
        pairs: Vec<(BinXmlName<'a>, BinXmlValue<'a>)>,
    ) -> (element: Self)
        ensures
            element@ == assembled(name, pairs@).finished(),
            element@ == (ElementView { name: name@, attributes: attributes_of(pairs@) }),
            element.name == name,
            element.attributes@.len() == pairs@.len(),
            forall|i: int|
                0 <= i < pairs@.len() ==> (#[trigger] element.attributes@[i]).name == pairs@[i].0
                    && pairs@[i].1.is_rendered_as(element.attributes@[i].value),
    {
        let ghost all = pairs@;
        let mut builder = XmlElementBuilder::new().name(name);
        for pair in tokens: pairs.into_iter()
            invariant
                tokens.seq() == all,
                builder@ == assembled(name, all.take(tokens.index() as int)),
                builder.element_name() == Some(name),
                builder.completed().len() == tokens.index(),
                forall|k: int|
                    0 <= k < tokens.index() ==> (#[trigger] builder.completed()[k]).name
                        == all[k].0 && all[k].1.is_rendered_as(builder.completed()[k].value),
        {
            proof {
                let done = all.take(tokens.index() + 1);
                assert(done.drop_last() =~= all.take(tokens.index() as int));
                assert(done.last() == pair);
            }
            builder = builder.attribute_name(pair.0).attribute_value(pair.1);
        }
        proof {
            assert(all.take(all.len() as int) =~= all);
            lemma_finish_keeps_call_order(name, all);
        }
        builder.finish()
    }
}

/// What an event says.
pub enum ModelView {
    OpenElement(ElementView),
    CloseElement,
    String(Seq<char>),
    EndOfStream,
    StartOfStream,
}

impl ModelView {
    /// The place of the event's kind among the kinds: an element's opening comes first,
    /// then its closing, text, the end of the stream, and the start of the stream last.
    pub open spec fn rank(self) -> int {
        match self {
            ModelView::OpenElement(_) => 0,
            ModelView::CloseElement => 1,
            ModelView::String(_) => 2,
            ModelView::EndOfStream => 3,
            ModelView::StartOfStream => 4,
        }
    }
}

/// The order of two events: by kind, and within a kind by what the events carry.
pub open spec fn model_order(a: ModelView, b: ModelView) -> Order {
    match (a, b) {
        (ModelView::OpenElement(x), ModelView::OpenElement(y)) => element_order(x, y),
        (ModelView::String(x), ModelView::String(y)) => text_order(x, y),
        _ => int_order(a.rank(), b.rank()),
    }
}

/// One event of the flat stream that stands for a document.
#[derive(Debug)]
pub enum XmlModel<'a> {
    /// An element opens; the event carries the assembled element.
    OpenElement(XmlElement<'a>),
    /// The innermost open element closes.
    CloseElement,
    /// Text content, borrowed from the decoded buffer or owned.
    String(Cow<'a, str>),
    /// The stream ends.
    EndOfStream,
    /// The stream starts.
    StartOfStream,
}

impl<'a> View for XmlModel<'a> {
    type V = ModelView;

    open spec fn view(&self) -> ModelView {
        match self {
            XmlModel::OpenElement(element) => ModelView::OpenElement(element@),
            XmlModel::CloseElement => ModelView::CloseElement,
            XmlModel::String(text) => ModelView::String(text@),
            XmlModel::EndOfStream => ModelView::EndOfStream,
            XmlModel::StartOfStream => ModelView::StartOfStream,
        }
    }
}

impl<'a> XmlModel<'a> {
    /// Whether this event is of the same kind as `other` and holds what it carries the
    /// same way: the same name, the same attributes in the same order, the same text,
    /// each text borrowed from the same buffer or owned alike.
    pub open spec fn holds_like(&self, other: &Self) -> bool {
        match (*self, *other) {
            (XmlModel::OpenElement(mine), XmlModel::OpenElement(theirs)) => mine.name
                == theirs.name && mine.attributes@ == theirs.attributes@,
            (XmlModel::CloseElement, XmlModel::CloseElement) => true,
            (XmlModel::String(mine), XmlModel::String(theirs)) => mine == theirs,
            (XmlModel::EndOfStream, XmlModel::EndOfStream) => true,
            (XmlModel::StartOfStream, XmlModel::StartOfStream) => true,
            _ => false,
        }
    }

    /// The place of the event's kind among the kinds.
    fn rank(&self) -> (rank: u8)
        ensures
            rank == self@.rank(),
    {
        match self {
            XmlModel::OpenElement(_) => 0,
            XmlModel::CloseElement => 1,
            XmlModel::String(_) => 2,
            XmlModel::EndOfStream => 3,
            XmlModel::StartOfStream => 4,
        }
    }

    /// Compares two events by kind, and within a kind by what they carry.
    pub fn order(&self, other: &Self) -> (o: Order)
        ensures
            o == model_order(self@, other@),
    {
        match (self, other) {
            (XmlModel::OpenElement(x), XmlModel::OpenElement(y)) => x.order(y),
            (XmlModel::String(x), XmlModel::String(y)) => order_str(cow_str(x), cow_str(y)),
            _ => {
                let left = self.rank();
                let right = other.rank();
                if left < right {
                    Order::Less
                } else if left == right {
                    Order::Equal
                } else {
                    Order::Greater
                }
            },
        }
    }
}

impl<'a> Clone for XmlModel<'a> {
    /// A copy that says the same and holds each text the same way.
    fn clone(&self) -> (copy: Self)
        ensures
            copy@ == self@,
            copy.holds_like(self),
    {
        match self {
            XmlModel::OpenElement(element) => XmlModel::OpenElement(element.clone()),
            XmlModel::CloseElement => XmlModel::CloseElement,
            XmlModel::String(text) => XmlModel::String(clone_text(text)),
            XmlModel::EndOfStream => XmlModel::EndOfStream,
            XmlModel::StartOfStream => XmlModel::StartOfStream,
        }
    }
}

impl<'a> PartialEq for XmlModel<'a> {
    fn eq(&self, other: &Self) -> (same: bool) {
        proof {
            lemma_model_order_equal(self@, other@);
        }
        match self.order(other) {
            Order::Equal => true,
            _ => false,
        }
    }
}

impl<'a> vstd::std_specs::cmp::PartialEqSpecImpl for XmlModel<'a> {
    open spec fn obeys_eq_spec() -> bool {
        true
    }

    open spec fn eq_spec(&self, other: &Self) -> bool {
        self@ == other@
    }
}

impl<'a> PartialOrd for XmlModel<'a> {
    fn partial_cmp(&self, other: &Self) -> (o: Option<Ordering>) {
        Some(self.order(other).to_ordering())
    }
}

impl<'a> vstd::std_specs::cmp::PartialOrdSpecImpl for XmlModel<'a> {
    open spec fn obeys_partial_cmp_spec() -> bool {
        true
    }

    open spec fn partial_cmp_spec(&self, other: &Self) -> Option<Ordering> {
        Some(model_order(self@, other@).std_ordering())
    }
}

} // verus!
