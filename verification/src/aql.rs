//! The query abstract syntax tree and its text compiler. Predicates are
//! composed as nodes and rendered to parameterized query text; caller values
//! never appear in the text, only named binds, so injection safety is
//! structural. Rendering is a pure function of the tree: identical trees give
//! identical text and identical ordered bind lists.

use vstd::prelude::*;

use crate::text::{render_bind_key, spec_bind_key};

verus! {

/// The comparison operator of a filter node.
pub enum AQLOperation {
    Equal,
}

/// The connective of a logical filter node.
pub enum AQLLogicalOperator {
    And,
    Or,
}

/// One predicate node: a comparison of two operand nodes, a logical
/// combination of any number of nodes, an attribute accessor, or a named
/// placeholder reference.
pub enum AQLNode {
    FilterOperation(Box<AQLNode>, AQLOperation, Box<AQLNode>),
    LogicalFilter(AQLLogicalOperator, Vec<AQLNode>),
    QueryParameter(String),
    QueryBind(String),
}

/// The views of a list of strings.
pub open spec fn views_of(s: Seq<String>) -> Seq<Seq<char>> {
    s.map_values(|x: String| x@)
}

/// The text of a comparison operator, spaces included.
pub open spec fn spec_operation_text(op: AQLOperation) -> Seq<char> {
    " == "@
}

/// The text a logical filter renders to when its node list is empty: the
/// identity of the connective, always-true for `And` and always-false for
/// `Or`.
pub open spec fn spec_identity_text(op: AQLLogicalOperator) -> Seq<char> {
    match op {
        AQLLogicalOperator::And => "true"@,
        AQLLogicalOperator::Or => "false"@,
    }
}

/// The separator a logical filter places between rendered child nodes.
pub open spec fn spec_separator_text(op: AQLLogicalOperator) -> Seq<char> {
    match op {
        AQLLogicalOperator::And => " AND "@,
        AQLLogicalOperator::Or => " OR "@,
    }
}

/// The text of one node, inside the query whose identifier is `id`.
pub open spec fn spec_node_text(n: AQLNode, id: nat) -> Seq<char>
    decreases n, 1int,
{
    match n {
        AQLNode::FilterOperation(left, op, right) => "("@ + spec_node_text(*left, id)
            + spec_operation_text(op) + spec_node_text(*right, id) + ")"@,
        AQLNode::LogicalFilter(op, nodes) => if nodes@.len() == 0 {
            spec_identity_text(op)
        } else {
            "("@ + spec_nodes_text(nodes@, op, id) + ")"@
        },
        AQLNode::QueryParameter(name) => "i."@ + name@,
        AQLNode::QueryBind(name) => "@"@ + spec_bind_key(id, name@),
    }
}

/// The text of a node list, children joined by the connective's separator.
pub open spec fn spec_nodes_text(nodes: Seq<AQLNode>, op: AQLLogicalOperator, id: nat) -> Seq<char>
    decreases nodes, 0int,
{
    if nodes.len() == 0 {
        Seq::empty()
    } else if nodes.len() == 1 {
        spec_node_text(nodes[0], id)
    } else {
        spec_node_text(nodes[0], id) + spec_separator_text(op) + spec_nodes_text(
            nodes.drop_first(),
            op,
            id,
        )
    }
}

/// The ordered bind names of one node: every placeholder reference, left to
/// right.
pub open spec fn spec_node_binds(n: AQLNode) -> Seq<Seq<char>>
    decreases n, 1int,
{
    match n {
        AQLNode::FilterOperation(left, op, right) => spec_node_binds(*left) + spec_node_binds(
            *right,
        ),
        AQLNode::LogicalFilter(op, nodes) => spec_nodes_binds(nodes@),
        AQLNode::QueryParameter(name) => Seq::empty(),
        AQLNode::QueryBind(name) => seq![name@],
    }
}

/// The ordered bind names of a node list.
pub open spec fn spec_nodes_binds(nodes: Seq<AQLNode>) -> Seq<Seq<char>>
    decreases nodes, 0int,
{
    if nodes.len() == 0 {
        Seq::empty()
    } else {
        spec_node_binds(nodes[0]) + spec_nodes_binds(nodes.drop_first())
    }
}

/// Appending one node to a non-empty list appends its text after one
/// separator.
pub proof fn lemma_nodes_text_push(nodes: Seq<AQLNode>, x: AQLNode, op: AQLLogicalOperator, id: nat)
    requires
        nodes.len() >= 1,
    ensures
        spec_nodes_text(nodes.push(x), op, id) == spec_nodes_text(nodes, op, id)
            + spec_separator_text(op) + spec_node_text(x, id),
    decreases nodes.len(),
{
    let pushed = nodes.push(x);
    assert(pushed[0] == nodes[0]);
    if nodes.len() == 1 {
        assert(pushed.drop_first() =~= seq![x]);
        assert(spec_nodes_text(pushed.drop_first(), op, id) == spec_node_text(x, id));
    } else {
        assert(pushed.drop_first() =~= nodes.drop_first().push(x));
        lemma_nodes_text_push(nodes.drop_first(), x, op, id);
        assert(spec_nodes_text(nodes, op, id) + spec_separator_text(op) + spec_node_text(x, id)
            =~= spec_node_text(nodes[0], id) + spec_separator_text(op) + (spec_nodes_text(
            nodes.drop_first(),
            op,
            id,
        ) + spec_separator_text(op) + spec_node_text(x, id)));
    }
}

/// Appending one node to a list appends its bind names.
pub proof fn lemma_nodes_binds_push(nodes: Seq<AQLNode>, x: AQLNode)
    ensures
        spec_nodes_binds(nodes.push(x)) == spec_nodes_binds(nodes) + spec_node_binds(x),
    decreases nodes.len(),
{
    let pushed = nodes.push(x);
    if nodes.len() == 0 {
        assert(pushed.len() == 1);
        assert(pushed[0] == x);
        assert(pushed.drop_first() =~= Seq::<AQLNode>::empty());
        assert(spec_nodes_binds(pushed.drop_first()) == Seq::<Seq<char>>::empty());
        assert(spec_nodes_binds(pushed) == spec_node_binds(x) + Seq::<Seq<char>>::empty());
        assert(spec_node_binds(x) + Seq::<Seq<char>>::empty() =~= spec_node_binds(x));
        assert(spec_nodes_binds(nodes) + spec_node_binds(x) =~= spec_node_binds(x));
    } else {
        assert(pushed[0] == nodes[0]);
        assert(pushed.drop_first() =~= nodes.drop_first().push(x));
        lemma_nodes_binds_push(nodes.drop_first(), x);
        assert(spec_nodes_binds(nodes) + spec_node_binds(x) =~= spec_node_binds(nodes[0])
            + (spec_nodes_binds(nodes.drop_first()) + spec_node_binds(x)));
    }
}

/// The views of a concatenation are the concatenated views.
pub proof fn lemma_views_of_concat(a: Seq<String>, b: Seq<String>)
    ensures
        views_of(a + b) == views_of(a) + views_of(b),
{
    assert(views_of(a + b) =~= views_of(a) + views_of(b));
}

impl AQLOperation {
    /// The rendered text of this operator.
    pub fn text(&self) -> (r: &'static str)
        ensures
            r@ == spec_operation_text(*self),
    {
        " == "
    }
}

impl AQLLogicalOperator {
    /// The rendered identity of this connective over no nodes.
    pub fn identity_text(&self) -> (r: &'static str)
        ensures
            r@ == spec_identity_text(*self),
    {
        match self {
            AQLLogicalOperator::And => "true",
            AQLLogicalOperator::Or => "false",
        }
    }

    /// The rendered separator of this connective.
    pub fn separator_text(&self) -> (r: &'static str)
        ensures
            r@ == spec_separator_text(*self),
    {
        match self {
            AQLLogicalOperator::And => " AND ",
            AQLLogicalOperator::Or => " OR ",
        }
    }
}

impl AQLNode {
    /// Renders this node to query text inside the query whose identifier is
    /// `id`.
    pub fn render(&self, id: u64) -> (r: String)
        ensures
            r@ == spec_node_text(*self, id as nat),
        decreases *self,
    {
        match self {
            AQLNode::FilterOperation(left, op, right) => {
                let mut s = <String as vstd::string::StringExecFns>::from_str("(");
                let left_text = left.render(id);
                s.append(left_text.as_str());
                s.append(op.text());
                let right_text = right.render(id);
                s.append(right_text.as_str());
                s.append(")");
                proof {
                    assert(s@ =~= spec_node_text(*self, id as nat));
                }
                s
            },
            AQLNode::LogicalFilter(op, nodes) => {
                if nodes.len() == 0 {
                    let s = <String as vstd::string::StringExecFns>::from_str(op.identity_text());
                    s
                } else {
                    let mut s = <String as vstd::string::StringExecFns>::from_str("(");
                    proof {
                        assert(decreases_to!(*self => self->LogicalFilter_1));
                        assert(decreases_to!(self->LogicalFilter_1 => nodes[0int]));
                        assert(decreases_to!(*self => nodes[0int]));
                    }
                    let first_text = nodes[0].render(id);
                    s.append(first_text.as_str());
                    proof {
                        assert(nodes@.subrange(0, 1)[0] == nodes@[0]);
                        assert(s@ =~= "("@ + spec_nodes_text(
                            nodes@.subrange(0, 1),
                            *op,
                            id as nat,
                        ));
                    }
                    let mut j: usize = 1;
                    while j < nodes.len()
                        invariant
                            1 <= j <= nodes.len(),
                            s@ == "("@ + spec_nodes_text(
                                nodes@.subrange(0, j as int),
                                *op,
                                id as nat,
                            ),
                            *self == AQLNode::LogicalFilter(*op, *nodes),
                        decreases nodes.len() - j,
                    {
                        s.append(op.separator_text());
                        proof {
                            assert(decreases_to!(*self => self->LogicalFilter_1));
                            assert(decreases_to!(self->LogicalFilter_1 => nodes[j as int]));
                            assert(decreases_to!(*self => nodes[j as int]));
                        }
                        let next_text = nodes[j].render(id);
                        s.append(next_text.as_str());
                        proof {
                            assert(nodes@.subrange(0, j + 1 as int) =~= nodes@.subrange(
                                0,
                                j as int,
                            ).push(nodes@[j as int]));
                            lemma_nodes_text_push(
                                nodes@.subrange(0, j as int),
                                nodes@[j as int],
                                *op,
                                id as nat,
                            );
                        }
                        j = j + 1;
                    }
                    s.append(")");
                    proof {
                        assert(nodes@.subrange(0, nodes@.len() as int) =~= nodes@);
                        assert(s@ =~= spec_node_text(*self, id as nat));
                    }
                    s
                }
            },
            AQLNode::QueryParameter(name) => {
                let mut s = <String as vstd::string::StringExecFns>::from_str("i.");
                s.append(name.as_str());
                proof {
                    assert(s@ =~= spec_node_text(*self, id as nat));
                }
                s
            },
            AQLNode::QueryBind(name) => {
                let mut s = <String as vstd::string::StringExecFns>::from_str("@");
                let key = render_bind_key(id, name.as_str());
                s.append(key.as_str());
                proof {
                    assert(s@ =~= spec_node_text(*self, id as nat));
                }
                s
            },
        }
    }

    /// Collects this node's ordered bind names.
    pub fn bind_names(&self) -> (r: Vec<String>)
        ensures
            views_of(r@) == spec_node_binds(*self),
        decreases *self,
    {
        match self {
            AQLNode::FilterOperation(left, op, right) => {
                let mut r = left.bind_names();
                let mut right_names = right.bind_names();
                let ghost a = r@;
                let ghost b = right_names@;
                r.append(&mut right_names);
                proof {
                    lemma_views_of_concat(a, b);
                    assert(views_of(r@) =~= spec_node_binds(*self));
                }
                r
            },
            AQLNode::LogicalFilter(op, nodes) => {
                let mut r: Vec<String> = Vec::new();
                proof {
                    assert(views_of(r@) =~= spec_nodes_binds(nodes@.subrange(0, 0)));
                }
                let mut j: usize = 0;
                while j < nodes.len()
                    invariant
                        j <= nodes.len(),
                        views_of(r@) == spec_nodes_binds(nodes@.subrange(0, j as int)),
                        *self == AQLNode::LogicalFilter(*op, *nodes),
                    decreases nodes.len() - j,
                {
                    proof {
                        assert(decreases_to!(*self => self->LogicalFilter_1));
                        assert(decreases_to!(self->LogicalFilter_1 => nodes[j as int]));
                        assert(decreases_to!(*self => nodes[j as int]));
                    }
                    let mut child = nodes[j].bind_names();
                    let ghost a = r@;
                    let ghost b = child@;
                    r.append(&mut child);
                    proof {
                        lemma_views_of_concat(a, b);
                        assert(nodes@.subrange(0, j + 1 as int) =~= nodes@.subrange(
                            0,
                            j as int,
                        ).push(nodes@[j as int]));
                        lemma_nodes_binds_push(nodes@.subrange(0, j as int), nodes@[j as int]);
                        assert(views_of(r@) =~= spec_nodes_binds(nodes@.subrange(0, j + 1 as int)));
                    }
                    j = j + 1;
                }
                proof {
                    assert(nodes@.subrange(0, nodes@.len() as int) =~= nodes@);
                }
                r
            },
            AQLNode::QueryParameter(name) => {
                let r: Vec<String> = Vec::new();
                proof {
                    assert(views_of(r@) =~= spec_node_binds(*self));
                }
                r
            },
            AQLNode::QueryBind(name) => {
                let mut r: Vec<String> = Vec::new();
                r.push(name.clone());
                proof {
                    assert(views_of(r@) =~= spec_node_binds(*self));
                }
                r
            },
        }
    }
}

/// The operation a query performs against its target collection.
pub enum AQLQueryMethod {
    Get,
    Create,
    Update,
    Remove,
}

/// A compiled query: a root predicate node, the method applied to matching
/// documents, and an identifier that namespaces every placeholder of this
/// query, so that composed queries never collide two binds with the same
/// logical name. The target collection is always the `@@collection` bind.
pub struct AQLQuery {
    pub id: u64,
    pub method: AQLQueryMethod,
    pub filter: AQLNode,
}

/// The placeholder name of the document payload of a `Create` query.
pub open spec fn spec_doc_key(id: nat) -> Seq<char> {
    spec_bind_key(id, "doc"@)
}

/// The placeholder name of the patch payload of an `Update` query.
pub open spec fn spec_patch_key(id: nat) -> Seq<char> {
    spec_bind_key(id, "patch"@)
}

/// The full query text: the filter's rendered predicate embedded in the
/// method's clause over the `@@collection` target.
pub open spec fn spec_query_text(q: AQLQuery) -> Seq<char> {
    match q.method {
        AQLQueryMethod::Get => "FOR i IN @@collection FILTER "@ + spec_node_text(
            q.filter,
            q.id as nat,
        ) + " RETURN i"@,
        AQLQueryMethod::Create => "INSERT @"@ + spec_doc_key(q.id as nat)
            + " INTO @@collection RETURN NEW"@,
        AQLQueryMethod::Update => "FOR i IN @@collection FILTER "@ + spec_node_text(
            q.filter,
            q.id as nat,
        ) + " UPDATE i WITH @"@ + spec_patch_key(q.id as nat) + " IN @@collection RETURN NEW"@,
        AQLQueryMethod::Remove => "FOR i IN @@collection FILTER "@ + spec_node_text(
            q.filter,
            q.id as nat,
        ) + " REMOVE i IN @@collection RETURN OLD"@,
    }
}

/// The ordered logical bind names the query's text refers to: the filter's
/// binds, plus the payload placeholder of a `Create` or `Update`.
pub open spec fn spec_query_binds(q: AQLQuery) -> Seq<Seq<char>> {
    match q.method {
        AQLQueryMethod::Get => spec_node_binds(q.filter),
        AQLQueryMethod::Create => seq!["doc"@],
        AQLQueryMethod::Update => spec_node_binds(q.filter).push("patch"@),
        AQLQueryMethod::Remove => spec_node_binds(q.filter),
    }
}

impl AQLQuery {
    /// Builds a query over the given predicate.
    pub fn new(id: u64, method: AQLQueryMethod, filter: AQLNode) -> (q: AQLQuery)
        ensures
            q.id == id,
            q.method == method,
            q.filter == filter,
    {
        AQLQuery { id, method, filter }
    }

    /// The namespaced placeholder identifier of the logical argument `name`
    /// inside this query.
    pub fn get_argument_key(&self, name: &str) -> (r: String)
        ensures
            r@ == spec_bind_key(self.id as nat, name@),
    {
        render_bind_key(self.id, name)
    }

    /// Renders this query to its parameterized text. The rendering is a pure
    /// function of the tree: no caller value is ever concatenated into it.
    pub fn to_aql(&self) -> (r: String)
        ensures
            r@ == spec_query_text(*self),
    {
        match self.method {
            AQLQueryMethod::Get => {
                let mut s = <String as vstd::string::StringExecFns>::from_str(
                    "FOR i IN @@collection FILTER ",
                );
                let filter_text = self.filter.render(self.id);
                s.append(filter_text.as_str());
                s.append(" RETURN i");
                proof {
                    assert(s@ =~= spec_query_text(*self));
                }
                s
            },
            AQLQueryMethod::Create => {
                let mut s = <String as vstd::string::StringExecFns>::from_str("INSERT @");
                let key = render_bind_key(self.id, "doc");
                s.append(key.as_str());
                s.append(" INTO @@collection RETURN NEW");
                proof {
                    assert(s@ =~= spec_query_text(*self));
                }
                s
            },
            AQLQueryMethod::Update => {
                let mut s = <String as vstd::string::StringExecFns>::from_str(
                    "FOR i IN @@collection FILTER ",
                );
                let filter_text = self.filter.render(self.id);
                s.append(filter_text.as_str());
                s.append(" UPDATE i WITH @");
                let key = render_bind_key(self.id, "patch");
                s.append(key.as_str());
                s.append(" IN @@collection RETURN NEW");
                proof {
                    assert(s@ =~= spec_query_text(*self));
                }
                s
            },
            AQLQueryMethod::Remove => {
                let mut s = <String as vstd::string::StringExecFns>::from_str(
                    "FOR i IN @@collection FILTER ",
                );
                let filter_text = self.filter.render(self.id);
                s.append(filter_text.as_str());
                s.append(" REMOVE i IN @@collection RETURN OLD");
                proof {
                    assert(s@ =~= spec_query_text(*self));
                }
                s
            },
        }
    }

    /// The ordered logical bind names of this query.
    pub fn bind_names(&self) -> (r: Vec<String>)
        ensures
            views_of(r@) == spec_query_binds(*self),
    {
        match self.method {
            AQLQueryMethod::Get => {
                let r = self.filter.bind_names();
                r
            },
            AQLQueryMethod::Create => {
                let mut r: Vec<String> = Vec::new();
                r.push(<String as vstd::string::StringExecFns>::from_str("doc"));
                proof {
                    assert(views_of(r@) =~= spec_query_binds(*self));
                }
                r
            },
            AQLQueryMethod::Update => {
                let mut r = self.filter.bind_names();
                let ghost a = r@;
                r.push(<String as vstd::string::StringExecFns>::from_str("patch"));
                proof {
                    assert(views_of(r@) =~= views_of(a).push("patch"@));
                }
                r
            },
            AQLQueryMethod::Remove => {
                let r = self.filter.bind_names();
                r
            },
        }
    }
}

/// One equality pair of the standard map filter: the attribute accessor for
/// `key`, compared equal to the placeholder named `key`.
pub open spec fn spec_equal_pair(n: AQLNode, key: String) -> bool {
    &&& n is FilterOperation
    &&& *n->FilterOperation_0 == AQLNode::QueryParameter(key)
    &&& n->FilterOperation_1 is Equal
    &&& *n->FilterOperation_2 == AQLNode::QueryBind(key)
}

/// The standard equality filter over a key/value map's keys: one Equal node
/// per key — attribute accessor on the left, same-named placeholder on the
/// right — all under a single AND, one bind per key, in key order.
pub fn get_filter_by_indices_attributes(attributes: &Vec<String>) -> (n: AQLNode)
    ensures
        n is LogicalFilter,
        n->LogicalFilter_0 is And,
        n->LogicalFilter_1@.len() == attributes@.len(),
        forall|k: int|
            0 <= k < attributes@.len() ==> spec_equal_pair(
                #[trigger] n->LogicalFilter_1@[k],
                attributes@[k],
            ),
        spec_node_binds(n) == views_of(attributes@),
{
    let mut nodes: Vec<AQLNode> = Vec::new();
    proof {
        assert(spec_nodes_binds(nodes@) =~= views_of(attributes@.subrange(0, 0)));
    }
    let mut i: usize = 0;
    while i < attributes.len()
        invariant
            i <= attributes@.len(),
            nodes@.len() == i,
            forall|k: int| 0 <= k < i ==> spec_equal_pair(#[trigger] nodes@[k], attributes@[k]),
            spec_nodes_binds(nodes@) == views_of(attributes@.subrange(0, i as int)),
        decreases attributes@.len() - i,
    {
        let key = attributes[i].clone();
        let bind_key = attributes[i].clone();
        let node = AQLNode::FilterOperation(
            Box::new(AQLNode::QueryParameter(key)),
            AQLOperation::Equal,
            Box::new(AQLNode::QueryBind(bind_key)),
        );
        let ghost old_nodes = nodes@;
        proof {
            lemma_nodes_binds_push(old_nodes, node);
            assert(spec_node_binds(*node->FilterOperation_0) == Seq::<Seq<char>>::empty());
            assert(spec_node_binds(*node->FilterOperation_2) =~= seq![attributes@[i as int]@]);
            assert(spec_node_binds(node) =~= seq![attributes@[i as int]@]);
        }
        nodes.push(node);
        proof {
            assert(attributes@.subrange(0, i + 1 as int) =~= attributes@.subrange(0, i as int).push(
                attributes@[i as int],
            ));
            assert(spec_nodes_binds(nodes@) =~= views_of(attributes@.subrange(0, i + 1 as int)));
        }
        i = i + 1;
    }
    proof {
        assert(attributes@.subrange(0, attributes@.len() as int) =~= attributes@);
    }
    AQLNode::LogicalFilter(AQLLogicalOperator::And, nodes)
}

/// Rendering is deterministic: structurally identical nodes render, inside
/// queries with the same identifier, to identical text and identical ordered
/// bind lists on every call.
pub proof fn lemma_render_deterministic(a: AQLNode, b: AQLNode, id: nat)
    requires
        a == b,
    ensures
        spec_node_text(a, id) == spec_node_text(b, id),
        spec_node_binds(a) == spec_node_binds(b),
{
}

/// Composing several predicates into one request never collides two binds:
/// queries with distinct identifiers render distinct placeholder names, even
/// for the same logical argument name.
pub proof fn lemma_composed_queries_never_collide(a: AQLQuery, b: AQLQuery, n1: Seq<char>, n2: Seq<char>)
    requires
        a.id != b.id,
    ensures
        spec_bind_key(a.id as nat, n1) != spec_bind_key(b.id as nat, n2),
{
    if spec_bind_key(a.id as nat, n1) == spec_bind_key(b.id as nat, n2) {
        crate::text::lemma_bind_key_injective(a.id as nat, n1, b.id as nat, n2);
    }
}

/// Query rendering is deterministic: structurally identical queries render to
/// identical text and identical ordered bind lists on every call.
pub proof fn lemma_query_render_deterministic(a: AQLQuery, b: AQLQuery)
    requires
        a.id == b.id,
        a.method == b.method,
        a.filter == b.filter,
    ensures
        spec_query_text(a) == spec_query_text(b),
        spec_query_binds(a) == spec_query_binds(b),
{
}

/// A logical filter over an empty node list renders to the explicit identity
/// of its connective — always-true for `And`, always-false for `Or` — never a
/// crash.
pub proof fn lemma_empty_logical_renders_identity(
    n: AQLNode,
    op: AQLLogicalOperator,
    nodes: Vec<AQLNode>,
    id: nat,
)
    requires
        n == AQLNode::LogicalFilter(op, nodes),
        nodes@.len() == 0,
    ensures
        spec_node_text(n, id) == spec_identity_text(op),
        op is And ==> spec_node_text(n, id) == "true"@,
        op is Or ==> spec_node_text(n, id) == "false"@,
{
}

} // verus!
