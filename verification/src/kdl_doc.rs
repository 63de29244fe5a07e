use vstd::prelude::*;

verus! {

#[verifier::external_type_specification]
#[verifier::external_body]
pub struct ExKdlError(kdl::KdlError);

#[verifier::external_type_specification]
#[verifier::external_body]
pub struct ExKdlNode(kdl::KdlNode);

/// An entry of a KDL node: a positional argument when it has no name, a
/// property otherwise.
pub struct DocEntry {
    /// The property name; none for a positional argument.
    pub name: Option<EntryName>,
    /// The value as KDL writes it.
    pub value: String,
}

/// The name of a property.
pub struct EntryName {
    /// The name as a plain string.
    pub value: String,
    /// The name as KDL writes it.
    pub text: String,
}

/// A KDL node with the parts of it that the configuration reads.
pub struct DocNode {
    /// The node name, as a plain string.
    pub name: String,
    /// The node name as it was written in the document.
    pub name_repr: Option<String>,
    pub entries: Vec<DocEntry>,
    pub children: Vec<DocNode>,
    /// The whole node, with its children, as KDL writes it.
    pub text: String,
}

pub struct EntryNameView {
    pub value: Seq<char>,
    pub text: Seq<char>,
}

pub struct DocEntryView {
    pub name: Option<EntryNameView>,
    pub value: Seq<char>,
}

pub struct DocNodeView {
    pub name: Seq<char>,
    pub name_repr: Option<Seq<char>>,
    pub entries: Seq<DocEntryView>,
    pub children: Seq<DocNodeView>,
    pub text: Seq<char>,
}

impl View for DocEntry {
    type V = DocEntryView;

    open spec fn view(&self) -> DocEntryView {
        DocEntryView {
            name: match self.name {
                Some(n) => Some(EntryNameView { value: n.value@, text: n.text@ }),
                None => None,
            },
            value: self.value@,
        }
    }
}

/// The view of a node and, in turn, of its children.
pub open spec fn node_view(n: DocNode) -> DocNodeView
    decreases n, 1nat,
{
    DocNodeView {
        name: n.name@,
        name_repr: match n.name_repr {
            Some(r) => Some(r@),
            None => None,
        },
        entries: n.entries@.map_values(|e: DocEntry| e@),
        children: nodes_view(n.children@),
        text: n.text@,
    }
}

/// The views of a sequence of nodes.
pub open spec fn nodes_view(ns: Seq<DocNode>) -> Seq<DocNodeView>
    decreases ns, 0nat,
{
    if ns.len() == 0 {
        Seq::empty()
    } else {
        nodes_view(ns.drop_last()).push(node_view(ns.last()))
    }
}

impl View for DocNode {
    type V = DocNodeView;

    open spec fn view(&self) -> DocNodeView {
        node_view(*self)
    }
}

/// The views of the nodes are the nodes' views, one for one.
pub proof fn lemma_nodes_view(ns: Seq<DocNode>)
    ensures
        nodes_view(ns).len() == ns.len(),
        forall|i: int| 0 <= i < ns.len() ==> #[trigger] nodes_view(ns)[i] == ns[i]@,
    decreases ns.len(),
{
    if ns.len() > 0 {
        lemma_nodes_view(ns.drop_last());
        assert forall|i: int| 0 <= i < ns.len() implies #[trigger] nodes_view(ns)[i] == ns[i]@ by {
            if i < ns.len() - 1 {
                assert(ns.drop_last()[i] == ns[i]);
            }
        }
    }
}

/// The top-level nodes of a KDL document, or `None` when the text is not KDL.
pub uninterp spec fn kdl_document(content: Seq<char>) -> Option<Seq<DocNodeView>>;

/// Calls `KdlDocument::parse` (through `str::parse`) on the text and keeps, of
/// each node, its name, the name's written form, its entries and its children.
/// The contract names the outcome by the nodes' views: the same text always
/// gives nodes with the same contents, and a text that does not parse gives
/// the error. Which error it is, is not stated.
#[verifier::external_body]
pub(crate) fn parse_document(content: &str) -> (r: Result<Vec<DocNode>, kdl::KdlError>)
    ensures
        match r {
            Ok(nodes) => kdl_document(content@) == Some(nodes_view(nodes@)),
            Err(_) => kdl_document(content@) is None,
        },
{
    let doc: kdl::KdlDocument = content.parse()?;
    Ok(doc.nodes().iter().map(doc_node).collect())
}

/// Copies one parsed node, and its children, into a `DocNode`; used only by
/// `parse_document`, whose contract covers what it returns.
#[verifier::external_body]
fn doc_node(node: &kdl::KdlNode) -> DocNode {
    DocNode {
        name: node.name().value().to_string(),
        name_repr: node.name().repr().map(|r| r.to_string()),
        entries: node.iter().map(|e| DocEntry {
            name: e.name().map(|n| EntryName { value: n.value().to_string(), text: n.to_string() }),
            value: e.value().to_string(),
        }).collect(),
        children: node.iter_children().map(doc_node).collect(),
        text: node.to_string(),
    }
}

/// The value of the `idx`-th positional argument among `entries`.
pub open spec fn argument(entries: Seq<DocEntryView>, idx: nat) -> Option<Seq<char>>
    decreases entries.len(),
{
    if entries.len() == 0 {
        None
    } else if entries[0].name is None {
        if idx == 0 {
            Some(entries[0].value)
        } else {
            argument(entries.drop_first(), (idx - 1) as nat)
        }
    } else {
        argument(entries.drop_first(), idx)
    }
}

/// The value of the last property called `key` among `entries`.
pub open spec fn property(entries: Seq<DocEntryView>, key: Seq<char>) -> Option<Seq<char>>
    decreases entries.len(),
{
    if entries.len() == 0 {
        None
    } else if entries.last().name matches Some(n) && n.value == key {
        Some(entries.last().value)
    } else {
        property(entries.drop_last(), key)
    }
}

/// Whether the node's name was written exactly as `s`.
pub open spec fn written_as(n: DocNodeView, s: Seq<char>) -> bool {
    n.name_repr == Some(s)
}

proof fn lemma_argument_zero_skip(entries: Seq<DocEntryView>, i: int)
    requires
        0 <= i <= entries.len(),
        forall|j: int| 0 <= j < i ==> (#[trigger] entries[j]).name is Some,
    ensures
        argument(entries, 0) == argument(entries.skip(i), 0),
    decreases i,
{
    if i > 0 {
        assert(entries.skip(1) =~= entries.drop_first());
        lemma_argument_zero_skip(entries.drop_first(), i - 1);
        assert(entries.drop_first().skip(i - 1) =~= entries.skip(i));
    } else {
        assert(entries.skip(0) =~= entries);
    }
}

proof fn lemma_property_take(entries: Seq<DocEntryView>, key: Seq<char>, i: int)
    requires
        0 <= i < entries.len(),
    ensures
        property(entries.take(i + 1), key) == if entries[i].name matches Some(n) && n.value == key {
            Some(entries[i].value)
        } else {
            property(entries.take(i), key)
        },
{
    assert(entries.take(i + 1).drop_last() =~= entries.take(i));
}

impl DocNode {
    /// Whether the node's name was written exactly as `s`.
    pub fn is_written_as(&self, s: &str) -> (r: bool)
        ensures
            r == written_as(self@, s@),
    {
        match &self.name_repr {
            Some(repr) => crate::strings::eq_str(repr, s),
            None => false,
        }
    }

    /// The node's first positional argument, as KDL writes it.
    pub fn first_argument(&self) -> (r: Option<&String>)
        ensures
            match argument(self@.entries, 0) {
                Some(v) => r matches Some(s) && s@ == v,
                None => r is None,
            },
    {
        let ghost es = self@.entries;
        let mut i: usize = 0;
        while i < self.entries.len()
            invariant
                i <= self.entries@.len(),
                es == self.entries@.map_values(|e: DocEntry| e@),
                forall|j: int| 0 <= j < i ==> (#[trigger] es[j]).name is Some,
            decreases self.entries@.len() - i,
        {
            if self.entries[i].name.is_none() {
                proof {
                    lemma_argument_zero_skip(es, i as int);
                    assert(es.skip(i as int)[0] == es[i as int]);
                }
                return Some(&self.entries[i].value);
            }
            i = i + 1;
        }
        proof {
            lemma_argument_zero_skip(es, i as int);
        }
        None
    }

    /// The value of the node's last property called `key`, as KDL writes it.
    pub fn property(&self, key: &str) -> (r: Option<&String>)
        ensures
            match property(self@.entries, key@) {
                Some(v) => r matches Some(s) && s@ == v,
                None => r is None,
            },
    {
        let ghost es = self@.entries;
        let mut found: Option<&String> = None;
        let mut i: usize = 0;
        while i < self.entries.len()
            invariant
                i <= self.entries@.len(),
                es == self.entries@.map_values(|e: DocEntry| e@),
                match property(es.take(i as int), key@) {
                    Some(v) => found matches Some(s) && s@ == v,
                    None => found is None,
                },
            decreases self.entries@.len() - i,
        {
            proof { lemma_property_take(es, key@, i as int); }
            match &self.entries[i].name {
                Some(n) => {
                    if crate::strings::eq_str(&n.value, key) {
                        found = Some(&self.entries[i].value);
                    }
                },
                None => {},
            }
            i = i + 1;
        }
        proof { assert(es.take(i as int) =~= es); }
        found
    }
}

} // verus!
