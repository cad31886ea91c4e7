//! The abstract syntax tree: one `App` root and a tree of `Element`
//! nodes, each owning its children, together with the tree's
//! specification-level model.

use crate::dict::Pairs;
use vstd::prelude::*;

verus! {

/// The style mapping of one element: logical key to logical value,
/// before alias resolution.
#[derive(Debug, PartialEq)]
pub struct Styles(pub Vec<(String, String)>);

/// The attribute mapping of one element: literal HTML attributes and
/// the synthetic binding markers.
#[derive(Debug, PartialEq)]
pub struct Attributes(pub Vec<(String, String)>);

/// The application state mapping: state key to string-encoded value.
#[derive(Debug, PartialEq)]
pub struct State(pub Vec<(String, String)>);

impl View for Styles {
    type V = Pairs;

    open spec fn view(&self) -> Pairs {
        self.0.deep_view()
    }
}

impl DeepView for Styles {
    type V = Pairs;

    open spec fn deep_view(&self) -> Pairs {
        self.view()
    }
}

impl View for Attributes {
    type V = Pairs;

    open spec fn view(&self) -> Pairs {
        self.0.deep_view()
    }
}

impl DeepView for Attributes {
    type V = Pairs;

    open spec fn deep_view(&self) -> Pairs {
        self.view()
    }
}

impl View for State {
    type V = Pairs;

    open spec fn view(&self) -> Pairs {
        self.0.deep_view()
    }
}

impl DeepView for State {
    type V = Pairs;

    open spec fn deep_view(&self) -> Pairs {
        self.view()
    }
}

/// One node of the tree. The `App` variant is the single root; every
/// other node is an `Element`. Children are owned exclusively by their
/// parent: the tree is a tree, never a graph.
#[derive(Debug, PartialEq)]
pub enum ASTNode {
    App {
        children: Vec<ASTNode>,
        title: String,
        state: State,
        logic_code: String,
    },
    Element {
        name: String,
        value: String,
        children: Vec<ASTNode>,
        styles: Styles,
        attributes: Attributes,
    },
}

/// The mathematical model of a node: strings become character
/// sequences, vectors become sequences, mappings become pair
/// sequences.
pub enum AstModel {
    App {
        children: Seq<AstModel>,
        title: Seq<char>,
        state: Pairs,
        logic_code: Seq<char>,
    },
    Element {
        name: Seq<char>,
        value: Seq<char>,
        children: Seq<AstModel>,
        styles: Pairs,
        attributes: Pairs,
    },
}

/// The models of a sequence of nodes, in order.
pub open spec fn nodes_deep_view(v: Seq<ASTNode>) -> Seq<AstModel>
    decreases v,
{
    if v.len() == 0 {
        Seq::empty()
    } else {
        seq![v[0].deep_view()] + nodes_deep_view(v.drop_first())
    }
}

impl DeepView for ASTNode {
    type V = AstModel;

    open spec fn deep_view(&self) -> AstModel
        decreases self,
    {
        match self {
            ASTNode::App { children, title, state, logic_code } => AstModel::App {
                children: nodes_deep_view(children@),
                title: title@,
                state: state.deep_view(),
                logic_code: logic_code@,
            },
            ASTNode::Element { name, value, children, styles, attributes } => AstModel::Element {
                name: name@,
                value: value@,
                children: nodes_deep_view(children@),
                styles: styles.deep_view(),
                attributes: attributes.deep_view(),
            },
        }
    }
}

/// A node sequence and its model have the same length.
pub proof fn lemma_nodes_deep_view_len(v: Seq<ASTNode>)
    ensures
        nodes_deep_view(v).len() == v.len(),
    decreases v.len(),
{
    if v.len() > 0 {
        assert(nodes_deep_view(v) == seq![v[0].deep_view()] + nodes_deep_view(v.drop_first()));
        lemma_nodes_deep_view_len(v.drop_first());
        assert(v.drop_first().len() == v.len() - 1);
    } else {
        assert(nodes_deep_view(v) == Seq::<AstModel>::empty());
    }
}

/// Each node's model stands at its position.
pub proof fn lemma_nodes_deep_view_index(v: Seq<ASTNode>, i: int)
    requires
        0 <= i < v.len(),
    ensures
        nodes_deep_view(v).len() == v.len(),
        nodes_deep_view(v)[i] == v[i].deep_view(),
    decreases v.len(),
{
    lemma_nodes_deep_view_len(v);
    assert(nodes_deep_view(v) == seq![v[0].deep_view()] + nodes_deep_view(v.drop_first()));
    if i > 0 {
        lemma_nodes_deep_view_index(v.drop_first(), i - 1);
        assert(v.drop_first()[i - 1] == v[i]);
    }
}

/// Extending a node sequence by one node appends that node's model.
pub proof fn lemma_nodes_deep_view_push(v: Seq<ASTNode>, n: ASTNode)
    ensures
        nodes_deep_view(v.push(n)) == nodes_deep_view(v).push(n.deep_view()),
    decreases v.len(),
{
    let w = v.push(n);
    assert(w.len() == v.len() + 1);
    assert(nodes_deep_view(w) == seq![w[0].deep_view()] + nodes_deep_view(w.drop_first()));
    if v.len() == 0 {
        assert(w.drop_first() =~= Seq::<ASTNode>::empty());
        assert(w[0] == n);
        assert(nodes_deep_view(v) == Seq::<AstModel>::empty());
        assert(nodes_deep_view(w) =~= nodes_deep_view(v).push(n.deep_view()));
    } else {
        assert(w.drop_first() =~= v.drop_first().push(n));
        lemma_nodes_deep_view_push(v.drop_first(), n);
        assert(w[0] == v[0]);
        assert(nodes_deep_view(v) == seq![v[0].deep_view()] + nodes_deep_view(v.drop_first()));
        assert(nodes_deep_view(w) =~= nodes_deep_view(v).push(n.deep_view()));
    }
}

impl View for ASTNode {
    type V = AstModel;

    open spec fn view(&self) -> AstModel {
        self.deep_view()
    }
}

} // verus!
