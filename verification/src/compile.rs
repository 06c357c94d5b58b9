//! From parsed elements to renderable values: host elements get their
//! attribute map, custom elements are handed to their components, and
//! children are packed into composites.

use vstd::prelude::*;
use crate::attributes::{
    evaluate_or_error,
    host_form,
    property_list,
    property_views,
    value_of,
    PropertyView,
};
use crate::component::{children_view, is_custom, is_custom_name, property_values, Components};
use crate::composite::{
    encode,
    encoded,
    views_of,
    views_of_push,
    Composite,
    CompositeView,
    HostView,
};
use crate::element::{
    fragment_name,
    get_fragment_ident,
    node_view,
    node_views_index,
    Element,
    ElementView,
    Node,
    NodeView,
    Nodes,
};
use crate::error::{CompileError, CompileErrorView};
use crate::markup;
use crate::text::same_text;
use crate::value::{block_value, Expression, Scope, Value, ValueView};

verus! {

/// The mathematical content of a scope.
pub type ScopeView = Seq<(Seq<char>, ValueView)>;

/// What building a tree gives: a value, or the first error on the way.
pub type Built<T> = Result<T, CompileErrorView>;

/// The properties of a component with the values of their expressions in
/// the scope. The first expression without a value decides the error.
pub open spec fn evaluated_properties(properties: Seq<PropertyView>, scope: ScopeView) -> Built<
    Seq<(Seq<char>, ValueView)>,
>
    decreases properties.len(),
{
    if properties.len() == 0 {
        Ok(Seq::empty())
    } else {
        match evaluated_properties(properties.drop_last(), scope) {
            Err(x) => Err(x),
            Ok(values) => match value_of(properties.last().1, scope) {
                Err(x) => Err(x),
                Ok(v) => Ok(values.push((properties.last().0, v))),
            },
        }
    }
}

/// What an element is built into. Its children are built first. A custom
/// element is then what its component makes of the properties and the
/// children; a host element keeps its tag, gets its attributes as a map in
/// the order of names, and is a fragment where its tag is the empty one.
pub open spec fn compiled_element<C: Components>(e: ElementView, scope: ScopeView, components: &C)
    -> Built<CompositeView>
    decreases e, 1nat,
{
    match compiled_children(e, scope, components) {
        Err(x) => Err(x),
        Ok(children) => compiled_element_around(
            e,
            is_custom(e.tag.name),
            children,
            scope,
            components,
        ),
    }
}

/// What an element is built into around children that are built already,
/// as a custom element or as a host element.
pub open spec fn compiled_element_around<C: Components>(
    e: ElementView,
    custom: bool,
    children: Option<CompositeView>,
    scope: ScopeView,
    components: &C,
) -> Built<CompositeView> {
    if custom {
        match property_list(e.tag.attributes) {
            Err(x) => Err(x),
            Ok(properties) => match evaluated_properties(properties, scope) {
                Err(x) => Err(x),
                Ok(values) => match components.constructed(e.tag.name, values, children) {
                    Some(c) => Ok(c),
                    None => Err(CompileErrorView::UnknownComponent(e.tag.name)),
                },
            },
        }
    } else {
        match host_form(e.tag.attributes, scope) {
            Err(x) => Err(x),
            Ok(attributes) => Ok(
                CompositeView::Element(
                    Box::new(
                        HostView {
                            is_fragment: e.tag.name == fragment_name(),
                            tag: e.tag.name,
                            attributes,
                            children,
                            reff: None,
                        },
                    ),
                ),
            ),
        }
    }
}

/// What the children of an element are built into: nothing where it has
/// none, and else the composite that the built nodes are packed into.
pub open spec fn compiled_children<C: Components>(e: ElementView, scope: ScopeView, components: &C)
    -> Built<Option<CompositeView>>
    decreases e, 0nat,
{
    match e.children {
        None => Ok(None),
        Some(nodes) => match compiled_nodes(nodes, nodes.len(), scope, components) {
            Err(x) => Err(x),
            Ok(items) => Ok(Some(encoded(items))),
        },
    }
}

/// What the first `n` nodes of a sequence are built into, in their order.
/// The first node that cannot be built decides the error.
pub open spec fn compiled_nodes<C: Components>(
    nodes: Seq<NodeView>,
    n: nat,
    scope: ScopeView,
    components: &C,
) -> Built<Seq<CompositeView>>
    decreases nodes, n,
{
    if n == 0 || n > nodes.len() {
        Ok(Seq::empty())
    } else {
        match compiled_nodes(nodes, (n - 1) as nat, scope, components) {
            Err(x) => Err(x),
            Ok(items) => match compiled_node(nodes[n - 1], scope, components) {
                Err(x) => Err(x),
                Ok(c) => Ok(items.push(c)),
            },
        }
    }
}

/// What a node is built into: an element as elements are, a block into the
/// value of the expression that it stands for.
pub open spec fn compiled_node<C: Components>(n: NodeView, scope: ScopeView, components: &C)
    -> Built<CompositeView>
    decreases n, 0nat,
{
    match n {
        NodeView::Element(e) => compiled_element(*e, scope, components),
        NodeView::Block(b) => match value_of(block_value(b), scope) {
            Err(x) => Err(x),
            Ok(v) => Ok(CompositeView::Value(v)),
        },
    }
}

/// What a sequence of nodes is built into as a whole: the composite that
/// the built nodes are packed into.
pub open spec fn compiled_tuples<C: Components>(
    nodes: Seq<NodeView>,
    scope: ScopeView,
    components: &C,
) -> Built<CompositeView> {
    match compiled_nodes(nodes, nodes.len(), scope, components) {
        Err(x) => Err(x),
        Ok(items) => Ok(encoded(items)),
    }
}

/// An error among the first nodes is the error of the whole sequence.
pub proof fn compiled_nodes_keeps_error<C: Components>(
    nodes: Seq<NodeView>,
    n: nat,
    scope: ScopeView,
    components: &C,
)
    requires
        n <= nodes.len(),
        compiled_nodes(nodes, n, scope, components) is Err,
    ensures
        compiled_nodes(nodes, nodes.len(), scope, components) == compiled_nodes(
            nodes,
            n,
            scope,
            components,
        ),
    decreases nodes.len() - n,
{
    if n < nodes.len() {
        compiled_nodes_keeps_error(nodes, n + 1, scope, components);
    }
}

/// An error among the first properties is the error of the whole list.
pub proof fn evaluated_properties_keeps_error(
    properties: Seq<PropertyView>,
    n: int,
    scope: ScopeView,
)
    requires
        0 <= n <= properties.len(),
        evaluated_properties(properties.take(n), scope) is Err,
    ensures
        evaluated_properties(properties, scope) == evaluated_properties(properties.take(n), scope),
    decreases properties.len() - n,
{
    if n < properties.len() {
        assert(properties.take(n + 1).drop_last() =~= properties.take(n));
        evaluated_properties_keeps_error(properties, n + 1, scope);
    } else {
        assert(properties.take(n) =~= properties);
    }
}

/// The outcome of an executable builder, as mathematical values.
pub open spec fn built(r: Result<Composite, CompileError>) -> Built<CompositeView> {
    match r {
        Ok(c) => Ok(c@),
        Err(x) => Err(x@),
    }
}

/// The properties of a component with the values of their expressions in
/// the scope.
pub fn evaluate_properties(properties: &Vec<(String, Expression)>, scope: &Scope) -> (r: Result<
    Vec<(String, Value)>,
    CompileError,
>)
    ensures
        match r {
            Ok(values) => evaluated_properties(property_views(properties@), scope@) == Ok::<
                _,
                CompileErrorView,
            >(property_values(values@)),
            Err(x) => evaluated_properties(property_views(properties@), scope@) == Err::<
                Seq<(Seq<char>, ValueView)>,
                _,
            >(x@),
        },
{
    let ghost all = property_views(properties@);
    let mut values: Vec<(String, Value)> = Vec::new();
    let mut i: usize = 0;
    assert(all.take(0) =~= Seq::<PropertyView>::empty());
    assert(property_values(values@) =~= Seq::<(Seq<char>, ValueView)>::empty());
    while i < properties.len()
        invariant
            i <= properties.len(),
            all == property_views(properties@),
            evaluated_properties(all.take(i as int), scope@) == Ok::<_, CompileErrorView>(
                property_values(values@),
            ),
        decreases properties.len() - i,
    {
        let ghost before = property_values(values@);
        proof {
            assert(all.take(i + 1).drop_last() =~= all.take(i as int));
            assert(all.take(i + 1).last() == all[i as int]);
        }
        let v = match evaluate_or_error(&properties[i].1, scope) {
            Ok(v) => v,
            Err(x) => {
                proof {
                    evaluated_properties_keeps_error(all, i + 1, scope@);
                }
                return Err(x);
            },
        };
        values.push((properties[i].0.clone(), v));
        assert(property_values(values@) =~= before.push((all[i as int].0, v@)));
        i += 1;
    }
    assert(all.take(i as int) =~= all);
    Ok(values)
}

impl Element {
    /// Whether the element is a custom element: the first character of its
    /// tag is an uppercase letter.
    pub fn is_custom_element(&self) -> (r: bool)
        ensures
            r == is_custom(self@.tag.name),
    {
        is_custom_name(self.tag.name.as_str())
    }

    /// Builds the children of the element: nothing where it has none, and
    /// else the composite that they are packed into.
    pub fn children_stream<C: Components>(&self, scope: &Scope, components: &C) -> (r: Result<
        Option<Composite>,
        CompileError,
    >)
        ensures
            match r {
                Ok(c) => compiled_children(self@, scope@, components) == Ok::<
                    _,
                    CompileErrorView,
                >(children_view(c)),
                Err(x) => compiled_children(self@, scope@, components) == Err::<
                    Option<CompositeView>,
                    _,
                >(x@),
            },
        decreases self, 0nat,
    {
        match &self.children {
            Some(nodes) => {
                let c = nodes.get_tuples(scope, components)?;
                Ok(Some(c))
            },
            None => Ok(None),
        }
    }

    /// Builds the element, as a custom element where its name says so and
    /// as a host element otherwise.
    pub fn to_tokens<C: Components>(&self, scope: &Scope, components: &C) -> (r: Result<
        Composite,
        CompileError,
    >)
        ensures
            built(r) == compiled_element(self@, scope@, components),
        decreases self, 1nat,
    {
        let children = self.children_stream(scope, components)?;
        let custom = self.is_custom_element();
        self.to_tokens_around(custom, children, scope, components)
    }

    /// Builds the element around children that are built already, as a
    /// custom element or as a host element.
    pub fn to_tokens_around<C: Components>(
        &self,
        custom: bool,
        children: Option<Composite>,
        scope: &Scope,
        components: &C,
    ) -> (r: Result<Composite, CompileError>)
        ensures
            built(r) == compiled_element_around(
                self@,
                custom,
                children_view(children),
                scope@,
                components,
            ),
    {
        if custom {
            let properties = self.tag.attributes.to_properties()?;
            let values = evaluate_properties(&properties, scope)?;
            match components.construct(self.tag.name.as_str(), values, children) {
                Some(c) => Ok(c),
                None => Err(CompileError::UnknownComponent(self.tag.name.clone())),
            }
        } else {
            let attributes = self.tag.attributes.to_token_stream(scope)?;
            let tag = self.tag.name.clone();
            let fragment = get_fragment_ident();
            let is_fragment = same_text(tag.as_str(), fragment.as_str());
            Ok(
                Composite::Element(
                    Box::new(
                        markup::Element { is_fragment, tag, attributes, children, reff: None },
                    ),
                ),
            )
        }
    }
}

impl Node {
    /// Builds the node: an element as elements are, a block into the value
    /// of the expression that it stands for.
    pub fn to_tokens<C: Components>(&self, scope: &Scope, components: &C) -> (r: Result<
        Composite,
        CompileError,
    >)
        ensures
            built(r) == compiled_node(self@, scope@, components),
        decreases self, 0nat,
    {
        match self {
            Node::Element(el) => el.to_tokens(scope, components),
            Node::Block(block) => {
                let e = block.value();
                let v = evaluate_or_error(&e, scope)?;
                Ok(Composite::Value(v))
            },
        }
    }
}

impl Nodes {
    /// Builds the nodes and packs them into one composite.
    pub fn get_tuples<C: Components>(&self, scope: &Scope, components: &C) -> (r: Result<
        Composite,
        CompileError,
    >)
        ensures
            built(r) == compiled_tuples(self@, scope@, components),
        decreases self, 0nat,
    {
        let mut items: Vec<Composite> = Vec::new();
        let mut i: usize = 0;
        proof {
            node_views_index(self.list@, self.list@.len());
            assert(views_of(items@) =~= Seq::<CompositeView>::empty());
        }
        while i < self.list.len()
            invariant
                i <= self.list.len(),
                self@.len() == self.list@.len(),
                forall|j: int|
                    0 <= j < self.list@.len() ==> #[trigger] self@[j] == node_view(self.list@[j]),
                compiled_nodes(self@, i as nat, scope@, components) == Ok::<_, CompileErrorView>(
                    views_of(items@),
                ),
            decreases self.list.len() - i,
        {
            let ghost before = items@;
            let c = match self.list[i].to_tokens(scope, components) {
                Ok(c) => c,
                Err(x) => {
                    proof {
                        compiled_nodes_keeps_error(self@, (i + 1) as nat, scope@, components);
                    }
                    return Err(x);
                },
            };
            proof {
                views_of_push(before, c);
            }
            items.push(c);
            i += 1;
        }
        Ok(encode(items))
    }
}

} // verus!
