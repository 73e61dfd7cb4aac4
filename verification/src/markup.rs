//! The declarative UI document model (`UiNode`, `UiDocument`) and the XML
//! front end that builds it.
use vstd::prelude::*;
use vstd::utf8::*;
use crate::text::{
    chars_of, is_unicode_whitespace, is_whitespace, lemma_trim_start_is_suffix, lowercase_chars,
    push_char, push_str, str_eq, string_from_chars, to_lowercase, trim_chars, trim_range,
    trim_start_chars,
};
use crate::xml_reader::{
    cdata_text, open_xml_source, pair_chars, pairs_result, read_reply, read_text_until_close,
    tag_attributes, tag_name, text_result, unescaped_text, xml_cdata_text, xml_reply,
    xml_tag_attributes, xml_tag_name, xml_text_until_close, xml_unescaped_text, Reply,
    ReplyModel, XmlSource,
};

verus! {

/// The extra attributes of a node as a finite map from name to value.
pub type AttrModel = Map<Seq<char>, Seq<char>>;

/// The map that a list of `(name, value)` pairs stands for; a later pair
/// overrides an earlier one with the same name.
pub open spec fn pairs_map(pairs: Seq<(String, String)>) -> AttrModel
    decreases pairs.len(),
{
    if pairs.len() == 0 {
        Map::empty()
    } else {
        pairs_map(pairs.drop_last()).insert(pairs.last().0@, pairs.last().1@)
    }
}

/// No two pairs share a name.
pub open spec fn names_distinct(pairs: Seq<(String, String)>) -> bool {
    forall|i: int, j: int|
        0 <= i < pairs.len() && 0 <= j < pairs.len() && i != j ==> #[trigger] pairs[i].0@
            != #[trigger] pairs[j].0@
}

/// Every name in `pairs` is a key of its map.
proof fn lemma_pairs_map_dom(pairs: Seq<(String, String)>)
    ensures
        forall|k: Seq<char>|
            #[trigger] pairs_map(pairs).dom().contains(k) <==> exists|i: int|
                0 <= i < pairs.len() && #[trigger] pairs[i].0@ == k,
    decreases pairs.len(),
{
    if pairs.len() > 0 {
        let init = pairs.drop_last();
        lemma_pairs_map_dom(init);
        assert forall|k: Seq<char>|
            #[trigger] pairs_map(pairs).dom().contains(k) implies exists|i: int|
                0 <= i < pairs.len() && #[trigger] pairs[i].0@ == k by {
            if k == pairs.last().0@ {
                assert(pairs[pairs.len() - 1].0@ == k);
            } else {
                assert(pairs_map(init).dom().contains(k));
                let i = choose|i: int| 0 <= i < init.len() && #[trigger] init[i].0@ == k;
                assert(pairs[i] == init[i]);
            }
        }
        assert forall|k: Seq<char>|
            (exists|i: int| 0 <= i < pairs.len() && #[trigger] pairs[i].0@ == k) implies #[trigger] pairs_map(
                pairs,
            ).dom().contains(k) by {
            let i = choose|i: int| 0 <= i < pairs.len() && #[trigger] pairs[i].0@ == k;
            if i < pairs.len() - 1 {
                assert(init[i] == pairs[i]);
                assert(pairs_map(init).dom().contains(k));
            } else {
                assert(k == pairs.last().0@);
            }
        }
    }
}

/// With distinct names, the value under the name of pair `j` is that pair's value.
proof fn lemma_pairs_map_value(pairs: Seq<(String, String)>, j: int)
    requires
        names_distinct(pairs),
        0 <= j < pairs.len(),
    ensures
        pairs_map(pairs).dom().contains(pairs[j].0@),
        pairs_map(pairs)[pairs[j].0@] == pairs[j].1@,
    decreases pairs.len(),
{
    let init = pairs.drop_last();
    if j < pairs.len() - 1 {
        assert(init[j] == pairs[j]);
        assert(names_distinct(init)) by {
            assert forall|a: int, b: int|
                0 <= a < init.len() && 0 <= b < init.len() && a != b implies #[trigger] init[a].0@
                    != #[trigger] init[b].0@ by {
                assert(init[a] == pairs[a] && init[b] == pairs[b]);
            }
        }
        lemma_pairs_map_value(init, j);
        assert(pairs[j].0@ != pairs[pairs.len() - 1].0@);
    }
}

/// Replacing the value of pair `j` updates the map under that pair's name.
proof fn lemma_pairs_map_update(pairs: Seq<(String, String)>, j: int, entry: (String, String))
    requires
        names_distinct(pairs),
        0 <= j < pairs.len(),
        entry.0@ == pairs[j].0@,
    ensures
        pairs_map(pairs.update(j, entry)) == pairs_map(pairs).insert(entry.0@, entry.1@),
    decreases pairs.len(),
{
    let updated = pairs.update(j, entry);
    let init = pairs.drop_last();
    if j == pairs.len() - 1 {
        assert(updated.drop_last() =~= init);
        assert(pairs_map(pairs).insert(entry.0@, entry.1@) =~= pairs_map(init).insert(
            entry.0@,
            entry.1@,
        ));
    } else {
        assert(names_distinct(init)) by {
            assert forall|a: int, b: int|
                0 <= a < init.len() && 0 <= b < init.len() && a != b implies #[trigger] init[a].0@
                    != #[trigger] init[b].0@ by {
                assert(init[a] == pairs[a] && init[b] == pairs[b]);
            }
        }
        assert(updated.drop_last() =~= init.update(j, entry));
        lemma_pairs_map_update(init, j, entry);
        assert(pairs[j].0@ != pairs[pairs.len() - 1].0@);
        assert(updated.last() == pairs.last());
        assert(pairs_map(updated) =~= pairs_map(pairs).insert(entry.0@, entry.1@));
    }
}

/// Pair lists with the same text make the same map.
proof fn lemma_pairs_map_same_text(a: Seq<(String, String)>, b: Seq<(String, String)>)
    requires
        a.len() == b.len(),
        forall|k: int| 0 <= k < a.len() ==> (#[trigger] a[k]).0@ == b[k].0@ && a[k].1@ == b[k].1@,
    ensures
        pairs_map(a) == pairs_map(b),
        names_distinct(a) == names_distinct(b),
    decreases a.len(),
{
    if a.len() > 0 {
        lemma_pairs_map_same_text(a.drop_last(), b.drop_last());
        assert(a.last() == a[a.len() - 1]);
    }
    assert(names_distinct(a) == names_distinct(b)) by {
        if names_distinct(b) {
            assert forall|i: int, j: int|
                0 <= i < a.len() && 0 <= j < a.len() && i != j implies #[trigger] a[i].0@
                    != #[trigger] a[j].0@ by {
                assert(b[i].0@ != b[j].0@);
            }
        }
        if names_distinct(a) {
            assert forall|i: int, j: int|
                0 <= i < b.len() && 0 <= j < b.len() && i != j implies #[trigger] b[i].0@
                    != #[trigger] b[j].0@ by {
                assert(a[i].0@ != a[j].0@);
            }
        }
    }
}

/// Extra attributes of a node, keyed by name.
#[derive(Debug)]
pub struct AttributeMap {
    pairs: Vec<(String, String)>,
}

impl View for AttributeMap {
    type V = AttrModel;

    closed spec fn view(&self) -> AttrModel {
        pairs_map(self.pairs@)
    }
}

impl AttributeMap {
    /// Names are never repeated in the stored pairs.
    #[verifier::type_invariant]
    closed spec fn names_unique(&self) -> bool {
        names_distinct(self.pairs@)
    }

    /// An empty map.
    pub fn new() -> (m: AttributeMap)
        ensures
            m@ == AttrModel::empty(),
    {
        AttributeMap { pairs: Vec::new() }
    }

    /// Sets the value under `key`, replacing an earlier value under the same name.
    pub fn insert(&mut self, key: String, value: String)
        ensures
            final(self)@ == old(self)@.insert(key@, value@),
    {
        proof {
            use_type_invariant(&*self);
        }
        let mut pairs: Vec<(String, String)> = Vec::new();
        std::mem::swap(&mut pairs, &mut self.pairs);
        let ghost before = pairs@;
        assert(before == old(self).pairs@);
        let mut i: usize = 0;
        while i < pairs.len()
            invariant
                i <= pairs.len(),
                pairs@ == before,
                before == old(self).pairs@,
                names_distinct(before),
                forall|j: int| 0 <= j < i ==> #[trigger] before[j].0@ != key@,
            decreases pairs.len() - i,
        {
            if str_eq(pairs[i].0.as_str(), key.as_str()) {
                let entry = (key, value);
                proof {
                    lemma_pairs_map_update(before, i as int, entry);
                }
                pairs.set(i, entry);
                proof {
                    assert(pairs@ == before.update(i as int, entry));
                    assert forall|a: int, b: int|
                        0 <= a < pairs@.len() && 0 <= b < pairs@.len() && a != b implies #[trigger] pairs@[a].0@
                            != #[trigger] pairs@[b].0@ by {
                        if a != i && b != i {
                            assert(pairs@[a] == before[a] && pairs@[b] == before[b]);
                        } else if a == i {
                            assert(pairs@[b] == before[b]);
                        } else {
                            assert(pairs@[a] == before[a]);
                        }
                    }
                }
                self.pairs = pairs;
                return;
            }
            i += 1;
        }
        pairs.push((key, value));
        proof {
            assert(pairs@.drop_last() =~= before);
            assert forall|a: int, b: int|
                0 <= a < pairs@.len() && 0 <= b < pairs@.len() && a != b implies #[trigger] pairs@[a].0@
                    != #[trigger] pairs@[b].0@ by {
                if a < before.len() && b < before.len() {
                    assert(pairs@[a] == before[a] && pairs@[b] == before[b]);
                } else if a < before.len() {
                    assert(pairs@[a] == before[a]);
                } else {
                    assert(pairs@[b] == before[b]);
                }
            }
        }
        self.pairs = pairs;
    }

    /// The value under `key`, if there is one.
    pub fn get(&self, key: &str) -> (r: Option<&String>)
        ensures
            r.is_some() <==> self@.dom().contains(key@),
            r.is_some() ==> r.unwrap()@ == self@[key@],
    {
        proof {
            use_type_invariant(self);
            lemma_pairs_map_dom(self.pairs@);
        }
        let mut i: usize = 0;
        while i < self.pairs.len()
            invariant
                i <= self.pairs.len(),
                names_distinct(self.pairs@),
                forall|j: int| 0 <= j < i ==> #[trigger] self.pairs@[j].0@ != key@,
            decreases self.pairs.len() - i,
        {
            if str_eq(self.pairs[i].0.as_str(), key) {
                proof {
                    lemma_pairs_map_value(self.pairs@, i as int);
                }
                return Some(&self.pairs[i].1);
            }
            i += 1;
        }
        None
    }

    /// A map with the same names and values.
    pub fn duplicate(&self) -> (m: AttributeMap)
        ensures
            m@ == self@,
    {
        proof {
            use_type_invariant(self);
        }
        let mut pairs: Vec<(String, String)> = Vec::new();
        let mut i: usize = 0;
        while i < self.pairs.len()
            invariant
                i <= self.pairs.len(),
                names_distinct(self.pairs@),
                pairs.len() == i,
                forall|k: int|
                    0 <= k < i ==> (#[trigger] pairs@[k]).0@ == self.pairs@[k].0@ && pairs@[k].1@
                        == self.pairs@[k].1@,
            decreases self.pairs.len() - i,
        {
            let entry = (self.pairs[i].0.clone(), self.pairs[i].1.clone());
            pairs.push(entry);
            i += 1;
        }
        proof {
            lemma_pairs_map_same_text(pairs@, self.pairs@);
        }
        AttributeMap { pairs }
    }

    /// The number of names that carry a value.
    pub fn len(&self) -> (n: usize)
        ensures
            n == self@.dom().len(),
    {
        proof {
            use_type_invariant(self);
            lemma_pairs_map_len(self.pairs@);
        }
        self.pairs.len()
    }

    /// The stored `(name, value)` pairs, each name once.
    pub fn pairs(&self) -> (r: &Vec<(String, String)>)
        ensures
            pairs_map(r@) == self@,
            names_distinct(r@),
    {
        proof {
            use_type_invariant(self);
        }
        &self.pairs
    }
}

impl Clone for AttributeMap {
    /// A map with the same names and values.
    fn clone(&self) -> (m: AttributeMap)
        ensures
            m@ == self@,
    {
        self.duplicate()
    }
}

/// With distinct names, the map has one key per pair.
proof fn lemma_pairs_map_len(pairs: Seq<(String, String)>)
    requires
        names_distinct(pairs),
    ensures
        pairs_map(pairs).dom().finite(),
        pairs_map(pairs).dom().len() == pairs.len(),
    decreases pairs.len(),
{
    if pairs.len() > 0 {
        let init = pairs.drop_last();
        assert(names_distinct(init)) by {
            assert forall|a: int, b: int|
                0 <= a < init.len() && 0 <= b < init.len() && a != b implies #[trigger] init[a].0@
                    != #[trigger] init[b].0@ by {
                assert(init[a] == pairs[a] && init[b] == pairs[b]);
            }
        }
        lemma_pairs_map_len(init);
        lemma_pairs_map_dom(init);
        let last = pairs.last().0@;
        if pairs_map(init).dom().contains(last) {
            let i = choose|i: int| 0 <= i < init.len() && #[trigger] init[i].0@ == last;
            assert(init[i] == pairs[i]);
            assert(false);
        }
    }
}


/// The characters of an optional string.
pub open spec fn opt_chars(o: Option<String>) -> Option<Seq<char>> {
    match o {
        Some(s) => Some(s@),
        None => None,
    }
}

/// What a `UiNode` holds, as mathematical values.
pub struct NodeModel {
    pub element: Seq<char>,
    pub id: Option<Seq<char>>,
    pub class: Option<Seq<char>>,
    pub style: Option<Seq<char>>,
    pub text: Option<Seq<char>>,
    pub placeholder: Option<Seq<char>>,
    pub on_click: Option<Seq<char>>,
    pub on_change: Option<Seq<char>>,
    pub attributes: AttrModel,
    pub children: Seq<NodeModel>,
}

/// One element of a declarative UI tree.
#[derive(Debug)]
pub struct UiNode {
    pub element: String,
    pub id: Option<String>,
    pub class: Option<String>,
    pub style: Option<String>,
    pub text: Option<String>,
    pub placeholder: Option<String>,
    pub on_click: Option<String>,
    pub on_change: Option<String>,
    pub attributes: AttributeMap,
    pub children: Vec<UiNode>,
}

impl UiNode {
    /// The node and its subtree as mathematical values.
    pub open spec fn model(&self) -> NodeModel
        decreases self,
    {
        NodeModel {
            element: self.element@,
            id: opt_chars(self.id),
            class: opt_chars(self.class),
            style: opt_chars(self.style),
            text: opt_chars(self.text),
            placeholder: opt_chars(self.placeholder),
            on_click: opt_chars(self.on_click),
            on_change: opt_chars(self.on_change),
            attributes: self.attributes@,
            children: Seq::new(
                self.children@.len(),
                |i: int| {
                    if 0 <= i < self.children@.len() {
                        self.children@[i].model()
                    } else {
                        arbitrary()
                    }
                },
            ),
        }
    }
}


/// A model with its subtree children replaced by `children`.
pub open spec fn with_children(n: NodeModel, children: Seq<NodeModel>) -> NodeModel {
    NodeModel { children: children, ..n }
}

/// The models of a list of nodes, in order.
pub open spec fn nodes_model(nodes: Seq<UiNode>) -> Seq<NodeModel> {
    Seq::new(nodes.len(), |i: int| nodes[i].model())
}

/// A node model with the given element name and nothing else set.
pub open spec fn bare_node(element: Seq<char>) -> NodeModel {
    NodeModel {
        element: element,
        id: None,
        class: None,
        style: None,
        text: None,
        placeholder: None,
        on_click: None,
        on_change: None,
        attributes: AttrModel::empty(),
        children: Seq::empty(),
    }
}

proof fn lemma_children_model(n: UiNode)
    ensures
        n.model().children == nodes_model(n.children@),
{
    assert(n.model().children =~= nodes_model(n.children@));
}

impl UiNode {
    /// A node of the given element with no fields, attributes or children.
    pub fn with_element(element: String) -> (n: UiNode)
        ensures
            n.model() == bare_node(element@),
    {
        let n = UiNode {
            element: element,
            id: None,
            class: None,
            style: None,
            text: None,
            placeholder: None,
            on_click: None,
            on_change: None,
            attributes: AttributeMap::new(),
            children: Vec::new(),
        };
        assert(n.model().children =~= Seq::<NodeModel>::empty());
        n
    }

    /// Appends `child` to the children of this node.
    pub fn push_child(&mut self, child: UiNode)
        ensures
            final(self).model() == with_children(
                old(self).model(),
                old(self).model().children.push(child.model()),
            ),
    {
        let ghost before = *self;
        self.children.push(child);
        proof {
            lemma_children_model(before);
            lemma_children_model(*self);
            assert(nodes_model(self.children@) =~= nodes_model(before.children@).push(
                child.model(),
            ));
        }
    }
}

impl UiNode {
    /// A copy of the node and its whole subtree.
    pub fn duplicate(&self) -> (n: UiNode)
        ensures
            n.model() == self.model(),
        decreases self,
    {
        let mut children: Vec<UiNode> = Vec::new();
        let mut i: usize = 0;
        while i < self.children.len()
            invariant
                i <= self.children.len(),
                children.len() == i,
                forall|k: int| 0 <= k < i ==> (#[trigger] children@[k]).model() == self.children@[k].model(),
            decreases self.children.len() - i,
        {
            let child = self.children[i].duplicate();
            children.push(child);
            i += 1;
        }
        let n = UiNode {
            element: self.element.clone(),
            id: self.id.clone(),
            class: self.class.clone(),
            style: self.style.clone(),
            text: self.text.clone(),
            placeholder: self.placeholder.clone(),
            on_click: self.on_click.clone(),
            on_change: self.on_change.clone(),
            attributes: self.attributes.duplicate(),
            children,
        };
        assert(n.model().children =~= self.model().children);
        n
    }
}

impl Clone for UiNode {
    /// A copy of the node and its whole subtree.
    fn clone(&self) -> (n: UiNode)
        ensures
            n.model() == self.model(),
    {
        self.duplicate()
    }
}

impl Default for UiNode {
    /// A node with an empty element name and nothing else set.
    fn default() -> (n: UiNode)
        ensures
            n.model() == bare_node(Seq::empty()),
    {
        UiNode::with_element(String::new())
    }
}

/// The element name the TOML form gives a node that names none.
pub fn default_element() -> (s: String)
    ensures
        s@ == "Container"@,
{
    "Container".to_string()
}

/// What a `UiDocument` holds, as mathematical values.
pub struct DocumentModel {
    pub styles: Option<Seq<char>>,
    pub root: NodeModel,
}

/// A parsed declarative UI document: its style sheet text and its root node.
#[derive(Debug)]
pub struct UiDocument {
    pub styles: Option<String>,
    pub root: UiNode,
}

impl UiDocument {
    /// The document as mathematical values.
    pub open spec fn model(&self) -> DocumentModel {
        DocumentModel { styles: opt_chars(self.styles), root: self.root.model() }
    }

}

impl Clone for UiDocument {
    /// A copy of the document.
    fn clone(&self) -> (d: UiDocument)
        ensures
            d.model() == self.model(),
    {
        UiDocument { styles: self.styles.clone(), root: self.root.duplicate() }
    }
}

impl Default for UiDocument {
    /// No style sheet and a default root node.
    fn default() -> (d: UiDocument)
        ensures
            d.model() == (DocumentModel { styles: None, root: bare_node(Seq::empty()) }),
    {
        UiDocument { styles: None, root: UiNode::default() }
    }
}

/// The state of a tree under construction: the style sheet so far, the last
/// finished top-level node, and the elements that are open, outermost first.
pub struct BuildModel {
    pub styles: Option<Seq<char>>,
    pub root: NodeModel,
    pub stack: Seq<NodeModel>,
}

/// The state before any input.
pub open spec fn initial_build() -> BuildModel {
    BuildModel { styles: None, root: bare_node(Seq::empty()), stack: Seq::empty() }
}

/// Hands a finished node to the innermost open element, or makes it the root
/// when none is open.
pub open spec fn attach_node(m: BuildModel, n: NodeModel) -> BuildModel {
    if m.stack.len() == 0 {
        BuildModel { root: n, ..m }
    } else {
        let top = m.stack.last();
        BuildModel {
            stack: m.stack.update(
                m.stack.len() - 1,
                with_children(top, top.children.push(n)),
            ),
            ..m
        }
    }
}

/// Opens `n` inside the innermost open element.
pub open spec fn open_node(m: BuildModel, n: NodeModel) -> BuildModel {
    BuildModel { stack: m.stack.push(n), ..m }
}

/// Closes the innermost open element; nothing happens when none is open.
pub open spec fn close_node(m: BuildModel) -> BuildModel {
    if m.stack.len() == 0 {
        m
    } else {
        attach_node(BuildModel { stack: m.stack.drop_last(), ..m }, m.stack.last())
    }
}

/// Appends text to the text of the innermost open element; empty text, and
/// text outside every element, change nothing.
pub open spec fn add_text_model(m: BuildModel, t: Seq<char>) -> BuildModel {
    if t.len() == 0 || m.stack.len() == 0 {
        m
    } else {
        let top = m.stack.last();
        let text = match top.text {
            Some(existing) => existing + t,
            None => t,
        };
        BuildModel { stack: m.stack.update(m.stack.len() - 1, NodeModel { text: Some(text), ..top }), ..m }
    }
}

/// Adds a style sheet block; blocks are joined by a line break.
pub open spec fn add_styles_model(m: BuildModel, t: Seq<char>) -> BuildModel {
    let styles = match m.styles {
        Some(existing) => existing + seq!['\n'] + t,
        None => t,
    };
    BuildModel { styles: Some(styles), ..m }
}

/// The document that a state stands for once the input has ended.
pub open spec fn finished_document(m: BuildModel) -> DocumentModel {
    DocumentModel { styles: m.styles, root: m.root }
}

/// Builds a `UiDocument` from a stream of elements, texts and style blocks.
pub struct UiTreeBuilder {
    styles: Option<String>,
    root: UiNode,
    stack: Vec<UiNode>,
}

impl View for UiTreeBuilder {
    type V = BuildModel;

    closed spec fn view(&self) -> BuildModel {
        BuildModel {
            styles: opt_chars(self.styles),
            root: self.root.model(),
            stack: nodes_model(self.stack@),
        }
    }
}

impl UiTreeBuilder {
    /// A builder with no input yet.
    pub fn new() -> (b: UiTreeBuilder)
        ensures
            b@ == initial_build(),
    {
        let b = UiTreeBuilder { styles: None, root: UiNode::default(), stack: Vec::new() };
        assert(b@.stack =~= Seq::<NodeModel>::empty());
        b
    }

    /// Hands a finished node to the innermost open element, or makes it the
    /// root when none is open.
    pub fn attach(&mut self, node: UiNode)
        ensures
            final(self)@ == attach_node(old(self)@, node.model()),
    {
        let ghost before = self.stack@;
        match self.stack.pop() {
            None => {
                self.root = node;
            },
            Some(mut top) => {
                proof {
                    assert(before.drop_last() =~= self.stack@);
                }
                top.push_child(node);
                self.stack.push(top);
                proof {
                    assert(self.stack@ =~= before.update(before.len() - 1, top));
                    assert(nodes_model(self.stack@) =~= nodes_model(before).update(
                        before.len() - 1,
                        top.model(),
                    ));
                }
            },
        }
    }

    /// Opens `node` inside the innermost open element.
    pub fn open(&mut self, node: UiNode)
        ensures
            final(self)@ == open_node(old(self)@, node.model()),
    {
        let ghost before = self.stack@;
        self.stack.push(node);
        proof {
            assert(nodes_model(self.stack@) =~= nodes_model(before).push(node.model()));
        }
    }

    /// Closes the innermost open element; nothing happens when none is open.
    pub fn close(&mut self)
        ensures
            final(self)@ == close_node(old(self)@),
    {
        let ghost before = self.stack@;
        match self.stack.pop() {
            None => {},
            Some(top) => {
                proof {
                    assert(self.stack@ =~= before.drop_last());
                    assert(nodes_model(self.stack@) =~= nodes_model(before).drop_last());
                }
                self.attach(top);
            },
        }
    }

    /// Appends `text` to the text of the innermost open element; empty text,
    /// and text outside every element, change nothing.
    pub fn add_text(&mut self, text: String)
        ensures
            final(self)@ == add_text_model(old(self)@, text@),
    {
        if text.as_str().is_empty() {
            return;
        }
        let ghost before = self.stack@;
        match self.stack.pop() {
            None => {},
            Some(mut top) => {
                proof {
                    assert(before.drop_last() =~= self.stack@);
                }
                let ghost top_before = top;
                match top.text.take() {
                    Some(mut existing) => {
                        push_str(&mut existing, text.as_str());
                        top.text = Some(existing);
                    },
                    None => {
                        top.text = Some(text);
                    },
                }
                proof {
                    assert(top.model().children =~= top_before.model().children);
                }
                self.stack.push(top);
                proof {
                    assert(self.stack@ =~= before.update(before.len() - 1, top));
                    assert(nodes_model(self.stack@) =~= nodes_model(before).update(
                        before.len() - 1,
                        top.model(),
                    ));
                }
            },
        }
    }

    /// Adds a style sheet block; blocks are joined by a line break.
    pub fn add_styles(&mut self, text: String)
        ensures
            final(self)@ == add_styles_model(old(self)@, text@),
    {
        match self.styles.take() {
            Some(mut existing) => {
                let ghost prior = existing@;
                push_char(&mut existing, '\n');
                push_str(&mut existing, text.as_str());
                assert(existing@ =~= prior + seq!['\n'] + text@);
                self.styles = Some(existing);
            },
            None => {
                self.styles = Some(text);
            },
        }
    }

    /// The document built so far.
    pub fn finish(self) -> (d: UiDocument)
        ensures
            d.model() == finished_document(self@),
    {
        UiDocument { styles: self.styles, root: self.root }
    }
}


/// Where an attribute of a markup element goes in a `UiNode`.
#[derive(Debug, Clone, Copy, PartialEq, Eq, Structural)]
pub enum AttributeSlot {
    Id,
    Class,
    Style,
    Text,
    Placeholder,
    OnClick,
    OnChange,
    Extra,
}

/// The slot of an attribute name, matched on its lowercase form.
pub open spec fn attribute_slot(name: Seq<char>) -> AttributeSlot {
    let k = lowercase_chars(name);
    if k == "id"@ {
        AttributeSlot::Id
    } else if k == "class"@ {
        AttributeSlot::Class
    } else if k == "style"@ {
        AttributeSlot::Style
    } else if k == "text"@ {
        AttributeSlot::Text
    } else if k == "placeholder"@ {
        AttributeSlot::Placeholder
    } else if k == "onclick"@ || k == "on_click"@ {
        AttributeSlot::OnClick
    } else if k == "onchange"@ || k == "on_change"@ {
        AttributeSlot::OnChange
    } else {
        AttributeSlot::Extra
    }
}

/// The slot of an attribute name, matched on its lowercase form.
pub fn slot_of_attribute(name: &str) -> (slot: AttributeSlot)
    ensures
        slot == attribute_slot(name@),
{
    let lower = to_lowercase(name);
    let k = lower.as_str();
    if str_eq(k, "id") {
        AttributeSlot::Id
    } else if str_eq(k, "class") {
        AttributeSlot::Class
    } else if str_eq(k, "style") {
        AttributeSlot::Style
    } else if str_eq(k, "text") {
        AttributeSlot::Text
    } else if str_eq(k, "placeholder") {
        AttributeSlot::Placeholder
    } else if str_eq(k, "onclick") || str_eq(k, "on_click") {
        AttributeSlot::OnClick
    } else if str_eq(k, "onchange") || str_eq(k, "on_change") {
        AttributeSlot::OnChange
    } else {
        AttributeSlot::Extra
    }
}

/// `n` with one attribute applied: a known name sets its field, any other
/// name is kept, as written, among the extra attributes.
pub open spec fn with_attribute(n: NodeModel, name: Seq<char>, value: Seq<char>) -> NodeModel {
    match attribute_slot(name) {
        AttributeSlot::Id => NodeModel { id: Some(value), ..n },
        AttributeSlot::Class => NodeModel { class: Some(value), ..n },
        AttributeSlot::Style => NodeModel { style: Some(value), ..n },
        AttributeSlot::Text => NodeModel { text: Some(value), ..n },
        AttributeSlot::Placeholder => NodeModel { placeholder: Some(value), ..n },
        AttributeSlot::OnClick => NodeModel { on_click: Some(value), ..n },
        AttributeSlot::OnChange => NodeModel { on_change: Some(value), ..n },
        AttributeSlot::Extra => NodeModel { attributes: n.attributes.insert(name, value), ..n },
    }
}

/// `n` with the attributes applied in order, so a later one wins.
pub open spec fn with_attributes(n: NodeModel, attrs: Seq<(Seq<char>, Seq<char>)>) -> NodeModel
    decreases attrs.len(),
{
    if attrs.len() == 0 {
        n
    } else {
        with_attribute(with_attributes(n, attrs.drop_last()), attrs.last().0, attrs.last().1)
    }
}

/// The node that a markup element with this name and these attributes becomes.
pub open spec fn element_node(name: Seq<char>, attrs: Seq<(Seq<char>, Seq<char>)>) -> NodeModel {
    with_attributes(bare_node(name), attrs)
}

/// The node that a markup element with this name and these attributes becomes.
pub fn node_from_element(name: &String, attributes: &Vec<(String, String)>) -> (n: UiNode)
    ensures
        n.model() == element_node(name@, pair_chars(attributes@)),
{
    let ghost pairs = pair_chars(attributes@);
    let mut node = UiNode::with_element(name.clone());
    let mut i: usize = 0;
    while i < attributes.len()
        invariant
            i <= attributes.len(),
            pairs == pair_chars(attributes@),
            node.model() == with_attributes(bare_node(name@), pairs.take(i as int)),
        decreases attributes.len() - i,
    {
        let key = attributes[i].0.clone();
        let value = attributes[i].1.clone();
        let ghost before = node;
        let ghost entry = (key@, value@);
        match slot_of_attribute(key.as_str()) {
            AttributeSlot::Id => node.id = Some(value),
            AttributeSlot::Class => node.class = Some(value),
            AttributeSlot::Style => node.style = Some(value),
            AttributeSlot::Text => node.text = Some(value),
            AttributeSlot::Placeholder => node.placeholder = Some(value),
            AttributeSlot::OnClick => node.on_click = Some(value),
            AttributeSlot::OnChange => node.on_change = Some(value),
            AttributeSlot::Extra => node.attributes.insert(key, value),
        }
        proof {
            assert(pairs.take(i + 1).drop_last() =~= pairs.take(i as int));
            assert(pairs.take(i + 1).last() == entry);
            assert(node.model().children =~= before.model().children);
        }
        i += 1;
    }
    proof {
        assert(pairs.take(attributes.len() as int) =~= pairs);
    }
    node
}

/// A character folded to lowercase when it is an ASCII capital letter.
pub open spec fn ascii_folded(c: char) -> u32 {
    if 'A' <= c && c <= 'Z' {
        (c as u32 + 32) as u32
    } else {
        c as u32
    }
}

/// Whether two strings are equal once ASCII capitals are folded to lowercase.
pub open spec fn equal_ignoring_ascii_case(a: Seq<char>, b: Seq<char>) -> bool {
    a.len() == b.len() && forall|i: int| 0 <= i < a.len() ==> ascii_folded(#[trigger] a[i])
        == ascii_folded(b[i])
}

/// Whether two strings are equal once ASCII capitals are folded to lowercase.
pub fn eq_ignore_ascii_case(a: &str, b: &str) -> (r: bool)
    ensures
        r == equal_ignoring_ascii_case(a@, b@),
{
    let ca = chars_of(a);
    let cb = chars_of(b);
    if ca.len() != cb.len() {
        return false;
    }
    let mut i: usize = 0;
    while i < ca.len()
        invariant
            ca@ == a@,
            cb@ == b@,
            ca.len() == cb.len(),
            i <= ca.len(),
            forall|j: int| 0 <= j < i ==> ascii_folded(#[trigger] a@[j]) == ascii_folded(b@[j]),
        decreases ca.len() - i,
    {
        let x = ca[i];
        let y = cb[i];
        let fx: u32 = if 'A' <= x && x <= 'Z' { x as u32 + 32 } else { x as u32 };
        let fy: u32 = if 'A' <= y && y <= 'Z' { y as u32 + 32 } else { y as u32 };
        if fx != fy {
            return false;
        }
        i += 1;
    }
    true
}

/// Whether an element with this name holds the style sheet text.
pub open spec fn is_style_element(name: Seq<char>) -> bool {
    equal_ignoring_ascii_case(name, "Style"@) || equal_ignoring_ascii_case(name, "Styles"@)
}


/// One step of input to the tree builder: what the XML reader reported, or
/// the text of a style sheet element read on the builder's request.
#[derive(Debug)]
pub enum XmlEvent {
    /// An opening tag, with its attributes or the error met reading them.
    Start { name: String, attributes: Result<Vec<(String, String)>, String> },
    /// A self-closing tag, with its attributes or the error met reading them.
    Empty { name: String, attributes: Result<Vec<(String, String)>, String> },
    /// Character data with entities resolved, or the error met resolving them.
    Text(Result<String, String>),
    /// The contents of a CDATA section.
    CData(String),
    /// The raw contents of a style sheet element, or the error met reading them.
    StyleText(Result<String, String>),
    /// A closing tag.
    End,
    /// The end of the document.
    Eof,
    /// Anything the tree does not record (comments, declarations, ...).
    Other,
    /// The reader failed, with its message.
    Error(String),
}

/// An event for the tree builder, as mathematical values.
pub enum XmlEventModel {
    Start { name: Seq<char>, attributes: Result<Seq<(Seq<char>, Seq<char>)>, Seq<char>> },
    Empty { name: Seq<char>, attributes: Result<Seq<(Seq<char>, Seq<char>)>, Seq<char>> },
    Text(Result<Seq<char>, Seq<char>>),
    CData(Seq<char>),
    StyleText(Result<Seq<char>, Seq<char>>),
    End,
    Eof,
    Other,
    Error(Seq<char>),
}

impl XmlEvent {
    /// The event as mathematical values.
    pub open spec fn model(&self) -> XmlEventModel {
        match self {
            XmlEvent::Start { name, attributes } => XmlEventModel::Start {
                name: name@,
                attributes: pairs_result(*attributes),
            },
            XmlEvent::Empty { name, attributes } => XmlEventModel::Empty {
                name: name@,
                attributes: pairs_result(*attributes),
            },
            XmlEvent::Text(t) => XmlEventModel::Text(text_result(*t)),
            XmlEvent::CData(t) => XmlEventModel::CData(t@),
            XmlEvent::StyleText(t) => XmlEventModel::StyleText(text_result(*t)),
            XmlEvent::End => XmlEventModel::End,
            XmlEvent::Eof => XmlEventModel::Eof,
            XmlEvent::Other => XmlEventModel::Other,
            XmlEvent::Error(msg) => XmlEventModel::Error(msg@),
        }
    }
}

/// What the builder asks for after an event.
#[derive(Debug, Clone)]
pub enum Flow {
    /// Read the next event.
    Continue,
    /// Read the raw text up to the closing tag of the named style element and
    /// hand it back as `XmlEvent::StyleText`.
    ReadStyleText(String),
    /// The document is complete.
    Finished,
    /// Parsing failed with this message.
    Failed(String),
}

/// `Flow` as mathematical values.
pub enum FlowModel {
    Continue,
    ReadStyleText(Seq<char>),
    Finished,
    Failed(Seq<char>),
}

impl Flow {
    /// The flow as mathematical values.
    pub open spec fn model(&self) -> FlowModel {
        match self {
            Flow::Continue => FlowModel::Continue,
            Flow::ReadStyleText(name) => FlowModel::ReadStyleText(name@),
            Flow::Finished => FlowModel::Finished,
            Flow::Failed(msg) => FlowModel::Failed(msg@),
        }
    }
}

/// The state after `event` and what the builder asks for next.
pub open spec fn event_step(m: BuildModel, event: XmlEventModel) -> (BuildModel, FlowModel) {
    match event {
        XmlEventModel::Start { name, attributes } => {
            if is_style_element(name) {
                (m, FlowModel::ReadStyleText(name))
            } else {
                match attributes {
                    Ok(attrs) => (open_node(m, element_node(name, attrs)), FlowModel::Continue),
                    Err(msg) => (m, FlowModel::Failed(msg)),
                }
            }
        },
        XmlEventModel::Empty { name, attributes } => match attributes {
            Ok(attrs) => (attach_node(m, element_node(name, attrs)), FlowModel::Continue),
            Err(msg) => (m, FlowModel::Failed(msg)),
        },
        XmlEventModel::Text(text) => match text {
            Ok(t) => (add_text_model(m, t), FlowModel::Continue),
            Err(msg) => (m, FlowModel::Failed(msg)),
        },
        XmlEventModel::CData(t) => (add_text_model(m, t), FlowModel::Continue),
        XmlEventModel::StyleText(text) => match text {
            Ok(t) => (add_styles_model(m, t), FlowModel::Continue),
            Err(msg) => (m, FlowModel::Failed(msg)),
        },
        XmlEventModel::End => (close_node(m), FlowModel::Continue),
        XmlEventModel::Eof => (m, FlowModel::Finished),
        XmlEventModel::Other => (m, FlowModel::Continue),
        XmlEventModel::Error(msg) => (m, FlowModel::Failed(msg)),
    }
}

/// The outcome of feeding `events` to a builder in state `m`: the document
/// once the end is reached (or the events run out), or the first failure.
pub open spec fn run_events(m: BuildModel, events: Seq<XmlEventModel>) -> Result<
    DocumentModel,
    Seq<char>,
>
    decreases events.len(),
{
    if events.len() == 0 {
        Ok(finished_document(m))
    } else {
        let (next, flow) = event_step(m, events[0]);
        match flow {
            FlowModel::Finished => Ok(finished_document(next)),
            FlowModel::Failed(msg) => Err(msg),
            _ => run_events(next, events.drop_first()),
        }
    }
}

/// The models of a list of events, in order.
pub open spec fn events_model(events: Seq<XmlEvent>) -> Seq<XmlEventModel> {
    Seq::new(events.len(), |i: int| events[i].model())
}

/// A parse result as mathematical values.
pub open spec fn document_result(r: Result<UiDocument, String>) -> Result<DocumentModel, Seq<char>> {
    match r {
        Ok(d) => Ok(d.model()),
        Err(msg) => Err(msg@),
    }
}

impl UiTreeBuilder {
    /// Applies one event and says what the builder needs next.
    pub fn handle_event(&mut self, event: &XmlEvent) -> (flow: Flow)
        ensures
            (final(self)@, flow.model()) == event_step(old(self)@, event.model()),
    {
        match event {
            XmlEvent::Start { name, attributes } => {
                if eq_ignore_ascii_case(name.as_str(), "Style") || eq_ignore_ascii_case(
                    name.as_str(),
                    "Styles",
                ) {
                    return Flow::ReadStyleText(name.clone());
                }
                match attributes {
                    Ok(attrs) => {
                        let node = node_from_element(name, attrs);
                        self.open(node);
                        Flow::Continue
                    },
                    Err(msg) => Flow::Failed(msg.clone()),
                }
            },
            XmlEvent::Empty { name, attributes } => match attributes {
                Ok(attrs) => {
                    let node = node_from_element(name, attrs);
                    self.attach(node);
                    Flow::Continue
                },
                Err(msg) => Flow::Failed(msg.clone()),
            },
            XmlEvent::Text(text) => match text {
                Ok(t) => {
                    self.add_text(t.clone());
                    Flow::Continue
                },
                Err(msg) => Flow::Failed(msg.clone()),
            },
            XmlEvent::CData(t) => {
                self.add_text(t.clone());
                Flow::Continue
            },
            XmlEvent::StyleText(text) => match text {
                Ok(t) => {
                    self.add_styles(t.clone());
                    Flow::Continue
                },
                Err(msg) => Flow::Failed(msg.clone()),
            },
            XmlEvent::End => {
                self.close();
                Flow::Continue
            },
            XmlEvent::Eof => Flow::Finished,
            XmlEvent::Other => Flow::Continue,
            XmlEvent::Error(msg) => Flow::Failed(msg.clone()),
        }
    }
}

/// Builds the document that a recorded event stream describes: events are
/// applied in order until the end of the document or the first failure.
pub fn build_document(events: &Vec<XmlEvent>) -> (r: Result<UiDocument, String>)
    ensures
        document_result(r) == run_events(initial_build(), events_model(events@)),
{
    let ghost models = events_model(events@);
    let mut builder = UiTreeBuilder::new();
    let mut i: usize = 0;
    assert(models.skip(0) =~= models);
    while i < events.len()
        invariant
            i <= events.len(),
            models == events_model(events@),
            run_events(initial_build(), models) == run_events(builder@, models.skip(i as int)),
        decreases events.len() - i,
    {
        let ghost before = builder@;
        let flow = builder.handle_event(&events[i]);
        proof {
            assert(models.skip(i as int)[0] == events@[i as int].model());
            assert(models.skip(i as int).drop_first() =~= models.skip(i + 1));
        }
        match flow {
            Flow::Finished => return Ok(builder.finish()),
            Flow::Failed(msg) => return Err(msg),
            _ => {},
        }
        i += 1;
    }
    Ok(builder.finish())
}


/// Calls `simdutf8::basic::from_utf8`, which succeeds exactly on valid UTF-8;
/// the error is its message.
#[verifier::external_body]
fn check_utf8(bytes: &[u8]) -> (r: Result<(), String>)
    ensures
        r.is_ok() == valid_utf8(bytes@),
{
    simdutf8::basic::from_utf8(bytes).map(|_| ()).map_err(|err| err.to_string())
}

/// The event the reader hands out to the last of `requests`, with its parts
/// read out.
pub open spec fn reader_event(content: Seq<char>, requests: Seq<Option<Seq<char>>>) -> XmlEventModel {
    match xml_reply(content, requests) {
        ReplyModel::Start => XmlEventModel::Start {
            name: xml_tag_name(content, requests),
            attributes: xml_tag_attributes(content, requests),
        },
        ReplyModel::Empty => XmlEventModel::Empty {
            name: xml_tag_name(content, requests),
            attributes: xml_tag_attributes(content, requests),
        },
        ReplyModel::Text => XmlEventModel::Text(xml_unescaped_text(content, requests)),
        ReplyModel::CData => XmlEventModel::CData(xml_cdata_text(content, requests)),
        ReplyModel::End => XmlEventModel::End,
        ReplyModel::Eof => XmlEventModel::Eof,
        ReplyModel::Other => XmlEventModel::Other,
        ReplyModel::Error(msg) => XmlEventModel::Error(msg),
    }
}

/// Asks the reader for its next event and reads out the parts the builder
/// uses.
fn next_event(src: &mut XmlSource) -> (ev: XmlEvent)
    ensures
        final(src).content() == old(src).content(),
        final(src).requests() == old(src).requests().push(None),
        ev.model() == reader_event(final(src).content(), final(src).requests()),
{
    match read_reply(src) {
        Reply::Start => XmlEvent::Start { name: tag_name(src), attributes: tag_attributes(src) },
        Reply::Empty => XmlEvent::Empty { name: tag_name(src), attributes: tag_attributes(src) },
        Reply::Text => XmlEvent::Text(unescaped_text(src)),
        Reply::CData => XmlEvent::CData(cdata_text(src)),
        Reply::End => XmlEvent::End,
        Reply::Eof => XmlEvent::Eof,
        Reply::Other => XmlEvent::Other,
        Reply::Error(msg) => XmlEvent::Error(msg),
    }
}

/// The message given when the reader yields more events than the input has bytes.
pub open spec fn unending_document_message() -> Seq<char> {
    "XML parse error: the document does not end"@
}

/// The outcome of parsing `content` from the point where the reader has
/// answered `requests` and the builder is in state `m`: the next event is
/// read and handed to the builder, and a style sheet element's raw text is
/// read when the builder asks for it; `fuel` more rounds are allowed after
/// this one.
pub open spec fn xml_parse_from(
    content: Seq<char>,
    requests: Seq<Option<Seq<char>>>,
    m: BuildModel,
    fuel: nat,
) -> Result<DocumentModel, Seq<char>>
    decreases fuel,
{
    let asked = requests.push(None);
    let (next, flow) = event_step(m, reader_event(content, asked));
    match flow {
        FlowModel::Finished => Ok(finished_document(next)),
        FlowModel::Failed(msg) => Err(msg),
        FlowModel::Continue => {
            if fuel == 0 {
                Err(unending_document_message())
            } else {
                xml_parse_from(content, asked, next, (fuel - 1) as nat)
            }
        },
        FlowModel::ReadStyleText(name) => {
            let read = asked.push(Some(name));
            let (after, then) = event_step(
                next,
                XmlEventModel::StyleText(xml_text_until_close(content, read)),
            );
            match then {
                FlowModel::Failed(msg) => Err(msg),
                _ => {
                    if fuel == 0 {
                        Err(unending_document_message())
                    } else {
                        xml_parse_from(content, read, after, (fuel - 1) as nat)
                    }
                },
            }
        },
    }
}

/// The outcome of parsing an XML UI document: a fresh reader on `content`
/// and an empty builder, with one round for each byte of the text and one
/// more.
pub open spec fn xml_parse_result(content: Seq<char>) -> Result<DocumentModel, Seq<char>> {
    xml_parse_from(
        content,
        Seq::<Option<Seq<char>>>::empty(),
        initial_build(),
        encode_utf8(content).len(),
    )
}

/// Parses an XML UI document. The reader's events are handed to a
/// `UiTreeBuilder` one by one; a style sheet element's raw text is read when
/// the builder asks for it. The result is what the builder makes of the
/// events the reader produced, or the reader's or builder's error.
pub fn parse_xml(xml_content: &str) -> (r: Result<UiDocument, String>)
    ensures
        document_result(r) == xml_parse_result(xml_content@),
{
    let bytes = xml_content.as_bytes();
    proof {
        encode_utf8_valid_utf8(xml_content@);
    }
    if let Err(err) = check_utf8(bytes) {
        // Unreachable: the bytes of a `str` are valid UTF-8.
        let mut msg = "Invalid UTF-8 in XML document: ".to_string();
        push_str(&mut msg, err.as_str());
        assert(false);
        return Err(msg);
    }
    let mut src = open_xml_source(xml_content);
    let mut builder = UiTreeBuilder::new();
    let mut remaining: usize = bytes.len();
    loop
        invariant
            src.content() == xml_content@,
            xml_parse_result(xml_content@) == xml_parse_from(
                xml_content@,
                src.requests(),
                builder@,
                remaining as nat,
            ),
        decreases remaining,
    {
        let event = next_event(&mut src);
        let flow = builder.handle_event(&event);
        match flow {
            Flow::Continue => {},
            Flow::Finished => {
                return Ok(builder.finish());
            },
            Flow::Failed(msg) => {
                return Err(msg);
            },
            Flow::ReadStyleText(name) => {
                let text = read_text_until_close(&mut src, name.as_str());
                let then = builder.handle_event(&XmlEvent::StyleText(text));
                if let Flow::Failed(msg) = then {
                    return Err(msg);
                }
            },
        }
        if remaining == 0 {
            return Err("XML parse error: the document does not end".to_string());
        }
        remaining = remaining - 1;
    }
}

/// The widget a node's element name builds.
#[derive(Debug, Clone, Copy, PartialEq, Eq, Structural)]
pub enum WidgetKind {
    Text,
    Button,
    TextInput,
    HStack,
    VStack,
    /// Any other element name.
    Container,
}

/// The widget an element name builds; names are matched exactly.
pub open spec fn widget_kind_of(element: Seq<char>) -> WidgetKind {
    if element == "Text"@ {
        WidgetKind::Text
    } else if element == "Button"@ {
        WidgetKind::Button
    } else if element == "TextInput"@ {
        WidgetKind::TextInput
    } else if element == "HStack"@ {
        WidgetKind::HStack
    } else if element == "VStack"@ {
        WidgetKind::VStack
    } else {
        WidgetKind::Container
    }
}

/// The widget an element name builds.
pub fn widget_kind(element: &str) -> (k: WidgetKind)
    ensures
        k == widget_kind_of(element@),
{
    if str_eq(element, "Text") {
        WidgetKind::Text
    } else if str_eq(element, "Button") {
        WidgetKind::Button
    } else if str_eq(element, "TextInput") {
        WidgetKind::TextInput
    } else if str_eq(element, "HStack") {
        WidgetKind::HStack
    } else if str_eq(element, "VStack") {
        WidgetKind::VStack
    } else {
        WidgetKind::Container
    }
}

/// The signal a text value binds to: `$name` binds to `name`.
pub open spec fn binding_key_of(text: Seq<char>) -> Option<Seq<char>> {
    if text.len() > 0 && text[0] == '$' {
        Some(text.drop_first())
    } else {
        None
    }
}

/// The signal a text value binds to, as `binding_key_of` says.
pub fn binding_key(text: &str) -> (r: Option<String>)
    ensures
        match binding_key_of(text@) {
            Some(k) => r matches Some(s) && s@ == k,
            None => r is None,
        },
{
    let cs = chars_of(text);
    if cs.len() > 0 && cs[0] == '$' {
        let s = string_from_chars(&cs, 1, cs.len());
        assert(s@ =~= text@.drop_first());
        Some(s)
    } else {
        None
    }
}

/// `name` without any run of `()` at its end.
pub open spec fn strip_call_parens(name: Seq<char>) -> Seq<char>
    decreases name.len(),
{
    if name.len() >= 2 && name[name.len() - 2] == '(' && name[name.len() - 1] == ')' {
        strip_call_parens(name.take(name.len() - 2))
    } else {
        name
    }
}

/// The action handler an event attribute names: `increment()` and
/// ` increment ` both name `increment`.
pub open spec fn action_key_of(name: Seq<char>) -> Seq<char> {
    trim_chars(strip_call_parens(name))
}

/// The action handler an event attribute names, as `action_key_of` says.
pub fn action_key(name: &str) -> (r: String)
    ensures
        r@ == action_key_of(name@),
{
    let cs = chars_of(name);
    let mut b = cs.len();
    assert(cs@.take(b as int) =~= name@);
    while b >= 2 && cs[b - 2] == '(' && cs[b - 1] == ')'
        invariant
            cs@ == name@,
            b <= cs.len(),
            strip_call_parens(name@) == strip_call_parens(cs@.take(b as int)),
        decreases b,
    {
        assert(cs@.take(b as int).take(b - 2) =~= cs@.take(b - 2));
        b -= 2;
    }
    assert(cs@.subrange(0, b as int) =~= cs@.take(b as int));
    let (x, y) = trim_range(&cs, 0, b);
    string_from_chars(&cs, x, y)
}

/// The position of the first whitespace character of `s`, or its length.
pub open spec fn word_end(s: Seq<char>) -> int
    decreases s.len(),
{
    if s.len() == 0 || is_unicode_whitespace(s[0]) {
        0
    } else {
        1 + word_end(s.drop_first())
    }
}

/// Where the first word of `s` ends.
pub proof fn lemma_word_end(s: Seq<char>)
    ensures
        0 <= word_end(s) <= s.len(),
        forall|j: int| 0 <= j < word_end(s) ==> !is_unicode_whitespace(#[trigger] s[j]),
        word_end(s) < s.len() ==> is_unicode_whitespace(s[word_end(s)]),
    decreases s.len(),
{
    if s.len() > 0 && !is_unicode_whitespace(s[0]) {
        lemma_word_end(s.drop_first());
        assert forall|j: int| 0 <= j < word_end(s) implies !is_unicode_whitespace(#[trigger] s[j]) by {
            if j > 0 {
                assert(s[j] == s.drop_first()[j - 1]);
            }
        }
        if word_end(s) < s.len() {
            assert(s[word_end(s)] == s.drop_first()[word_end(s) - 1]);
        }
    }
}

/// The whitespace-separated words of `s`, as `str::split_whitespace` gives them.
pub open spec fn words(s: Seq<char>) -> Seq<Seq<char>>
    decreases s.len(),
{
    let t = trim_start_chars(s);
    if t.len() == 0 {
        Seq::empty()
    } else {
        proof {
            lemma_trim_start_is_suffix(s);
            lemma_word_end(t);
        }
        let k = word_end(t);
        if k >= 1 {
            seq![t.take(k)] + words(t.skip(k))
        } else {
            Seq::empty()
        }
    }
}

/// The class names of a `class` attribute, separated by whitespace.
pub fn class_names(class: &str) -> (r: Vec<String>)
    ensures
        r@.map_values(|s: String| s@) == words(class@),
{
    let cs = chars_of(class);
    let n = cs.len();
    let mut out: Vec<String> = Vec::new();
    let mut i: usize = 0;
    proof {
        assert(class@.skip(0) =~= class@);
        assert(out@.map_values(|s: String| s@) =~= Seq::<Seq<char>>::empty());
    }
    while i < n
        invariant
            cs@ == class@,
            n == cs.len(),
            i <= n,
            out@.map_values(|s: String| s@) + words(class@.skip(i as int)) == words(class@),
        decreases n - i,
    {
        let ghost rest = class@.skip(i as int);
        let mut a = i;
        proof {
            lemma_trim_start_is_suffix(rest);
        }
        while a < n && is_whitespace(cs[a])
            invariant
                cs@ == class@,
                n == cs.len(),
                i <= a <= n,
                rest == class@.skip(i as int),
                forall|j: int| i <= j < a ==> is_unicode_whitespace(#[trigger] cs@[j]),
            decreases n - a,
        {
            a += 1;
        }
        let ghost t = class@.skip(a as int);
        proof {
            let k = choose|k: int|
                0 <= k <= rest.len() && trim_start_chars(rest) == rest.subrange(k, rest.len() as int)
                    && (forall|j: int| 0 <= j < k ==> is_unicode_whitespace(#[trigger] rest[j])) && (k
                    < rest.len() ==> !is_unicode_whitespace(rest[k]));
            let e = a - i;
            if k < e {
                assert(rest[k] == cs@[i + k]);
            }
            if e < k {
                assert(rest[e] == cs@[a as int]);
            }
            assert(k == e);
            assert(trim_start_chars(rest) =~= t);
        }
        if a == n {
            proof {
                assert(t.len() == 0);
                assert(words(rest) == Seq::<Seq<char>>::empty());
                assert(class@.skip(n as int) =~= Seq::<char>::empty());
                assert(words(class@.skip(n as int)) == Seq::<Seq<char>>::empty());
            }
            i = n;
        } else {
            let mut b = a;
            while b < n && !is_whitespace(cs[b])
                invariant
                    cs@ == class@,
                    n == cs.len(),
                    a <= b <= n,
                    forall|j: int| a <= j < b ==> !is_unicode_whitespace(#[trigger] cs@[j]),
                decreases n - b,
            {
                b += 1;
            }
            let word = string_from_chars(&cs, a, b);
            proof {
                lemma_word_end(t);
                let k = word_end(t);
                let e = b - a;
                if k < e {
                    assert(t[k] == cs@[a + k]);
                }
                if e < k {
                    assert(t[e] == cs@[b as int]);
                }
                assert(k == e);
                assert(!is_unicode_whitespace(cs@[a as int]));
                assert(t[0] == cs@[a as int]);
                assert(t.take(k) =~= cs@.subrange(a as int, b as int));
                assert(t.skip(k) =~= class@.skip(b as int));
            }
            let ghost before = out@;
            out.push(word);
            proof {
                assert(out@.map_values(|s: String| s@) =~= before.map_values(|s: String| s@).push(
                    word@,
                ));
                let tail = words(class@.skip(b as int));
                assert(words(rest) == seq![word@] + tail);
                assert(before.map_values(|s: String| s@) + (seq![word@] + tail) =~= before.map_values(
                    |s: String| s@,
                ).push(word@) + tail);
            }
            i = b;
        }
    }
    proof {
        assert(class@.skip(n as int) =~= Seq::<char>::empty());
        assert(out@.map_values(|s: String| s@) + Seq::<Seq<char>>::empty() =~= out@.map_values(
            |s: String| s@,
        ));
    }
    out
}

/// Whether markup text is the XML form: its first non-blank character is `<`.
pub open spec fn is_xml_markup_of(content: Seq<char>) -> bool {
    let t = trim_start_chars(content);
    t.len() > 0 && t[0] == '<'
}

/// Whether markup text is the XML form rather than the TOML form.
pub fn is_xml_markup(content: &str) -> (b: bool)
    ensures
        b == is_xml_markup_of(content@),
{
    let cs = chars_of(content);
    let mut a: usize = 0;
    proof {
        lemma_trim_start_is_suffix(content@);
    }
    while a < cs.len() && is_whitespace(cs[a])
        invariant
            cs@ == content@,
            a <= cs.len(),
            forall|j: int| 0 <= j < a ==> is_unicode_whitespace(#[trigger] cs@[j]),
        decreases cs.len() - a,
    {
        a += 1;
    }
    proof {
        let s = content@;
        let k = choose|k: int|
            0 <= k <= s.len() && trim_start_chars(s) == s.subrange(k, s.len() as int) && (forall|
                j: int,
            | 0 <= j < k ==> is_unicode_whitespace(#[trigger] s[j])) && (k < s.len()
                ==> !is_unicode_whitespace(s[k]));
        if k < a {
            assert(is_unicode_whitespace(s[k]));
        }
        if a < k {
            assert(is_unicode_whitespace(s[a as int]));
        }
        assert(k == a);
        if a < cs.len() {
            assert(trim_start_chars(s)[0] == cs@[a as int]);
        }
    }
    a < cs.len() && cs[a] == '<'
}

/// The XML reading of `.quick` markup: when the text's first non-blank
/// character is `<`, what `parse_xml` makes of the whole text; otherwise
/// `None`, for the text is the TOML form.
pub fn parse_quick_xml(content: &str) -> (r: Option<Result<UiDocument, String>>)
    ensures
        r is Some <==> is_xml_markup_of(content@),
        r matches Some(d) ==> document_result(d) == xml_parse_result(content@),
{
    if is_xml_markup(content) {
        Some(parse_xml(content))
    } else {
        None
    }
}

/// The element names that build a widget of their own, with the widget each builds.
pub open spec fn widget_element_names() -> Seq<(Seq<char>, WidgetKind)> {
    seq![
        ("Text"@, WidgetKind::Text),
        ("Button"@, WidgetKind::Button),
        ("TextInput"@, WidgetKind::TextInput),
        ("HStack"@, WidgetKind::HStack),
        ("VStack"@, WidgetKind::VStack),
    ]
}

/// Each widget element name builds the widget the name table gives it, and every other element name builds a container.
pub proof fn law_widget_element_names(t: Seq<char>)
    ensures
        forall|i: int|
            #![trigger widget_element_names()[i]]
            0 <= i < widget_element_names().len() ==> widget_kind_of(widget_element_names()[i].0) == widget_element_names()[i].1,
        widget_kind_of(t) != WidgetKind::Container ==> exists|i: int|
            #![trigger widget_element_names()[i]]
            0 <= i < widget_element_names().len() && widget_element_names()[i].0 == t && widget_element_names()[i].1 == widget_kind_of(t),
{
    reveal_strlit("Text");
    reveal_strlit("Button");
    reveal_strlit("TextInput");
    reveal_strlit("HStack");
    reveal_strlit("VStack");
    assert("Text"@.len() != "Button"@.len());
    assert("Text"@.len() != "TextInput"@.len());
    assert("Text"@.len() != "HStack"@.len());
    assert("Text"@.len() != "VStack"@.len());
    assert("Button"@.len() != "TextInput"@.len());
    assert("Button"@[0] != "HStack"@[0]);
    assert("Button"@[0] != "VStack"@[0]);
    assert("TextInput"@.len() != "HStack"@.len());
    assert("TextInput"@.len() != "VStack"@.len());
    assert("HStack"@[0] != "VStack"@[0]);
    let tbl = widget_element_names();
    assert(tbl.len() == 5);
    assert forall|i: int| 0 <= i < tbl.len() implies #[trigger] widget_kind_of(tbl[i].0) == tbl[i].1 by {
        if i == 0 {
            assert(tbl[0] == ("Text"@, WidgetKind::Text));
            assert(widget_kind_of("Text"@) == WidgetKind::Text);
        } else if i == 1 {
            assert(tbl[1] == ("Button"@, WidgetKind::Button));
            assert(widget_kind_of("Button"@) == WidgetKind::Button);
        } else if i == 2 {
            assert(tbl[2] == ("TextInput"@, WidgetKind::TextInput));
            assert(widget_kind_of("TextInput"@) == WidgetKind::TextInput);
        } else if i == 3 {
            assert(tbl[3] == ("HStack"@, WidgetKind::HStack));
            assert(widget_kind_of("HStack"@) == WidgetKind::HStack);
        } else if i == 4 {
            assert(tbl[4] == ("VStack"@, WidgetKind::VStack));
            assert(widget_kind_of("VStack"@) == WidgetKind::VStack);
        }
    }
    if t == "Text"@ {
        assert(tbl[0] == ("Text"@, WidgetKind::Text));
    } else if t == "Button"@ {
        assert(tbl[1] == ("Button"@, WidgetKind::Button));
    } else if t == "TextInput"@ {
        assert(tbl[2] == ("TextInput"@, WidgetKind::TextInput));
    } else if t == "HStack"@ {
        assert(tbl[3] == ("HStack"@, WidgetKind::HStack));
    } else if t == "VStack"@ {
        assert(tbl[4] == ("VStack"@, WidgetKind::VStack));
    }
}

/// The lowercase attribute names that fill a field of a node, with the
/// field each fills.
pub open spec fn attribute_field_names() -> Seq<(Seq<char>, AttributeSlot)> {
    seq![
        ("id"@, AttributeSlot::Id),
        ("class"@, AttributeSlot::Class),
        ("style"@, AttributeSlot::Style),
        ("text"@, AttributeSlot::Text),
        ("placeholder"@, AttributeSlot::Placeholder),
        ("onclick"@, AttributeSlot::OnClick),
        ("on_click"@, AttributeSlot::OnClick),
        ("onchange"@, AttributeSlot::OnChange),
        ("on_change"@, AttributeSlot::OnChange),
    ]
}

/// An attribute whose lowercase name is in the name table fills the field
/// the table gives it, and every other attribute is kept as an extra one.
pub proof fn law_attribute_names(name: Seq<char>)
    ensures
        forall|i: int|
            #![trigger attribute_field_names()[i]]
            0 <= i < attribute_field_names().len() && lowercase_chars(name) == attribute_field_names()[i].0 ==> attribute_slot(name)
                == attribute_field_names()[i].1,
        attribute_slot(name) != AttributeSlot::Extra ==> exists|i: int|
            #![trigger attribute_field_names()[i]]
            0 <= i < attribute_field_names().len() && attribute_field_names()[i].0 == lowercase_chars(name) && attribute_field_names()[i].1
                == attribute_slot(name),
{
    reveal_strlit("id");
    reveal_strlit("class");
    reveal_strlit("style");
    reveal_strlit("text");
    reveal_strlit("placeholder");
    reveal_strlit("onclick");
    reveal_strlit("on_click");
    reveal_strlit("onchange");
    reveal_strlit("on_change");
    assert("id"@.len() != "class"@.len());
    assert("id"@.len() != "style"@.len());
    assert("id"@.len() != "text"@.len());
    assert("id"@.len() != "placeholder"@.len());
    assert("id"@.len() != "onclick"@.len());
    assert("id"@.len() != "on_click"@.len());
    assert("id"@.len() != "onchange"@.len());
    assert("id"@.len() != "on_change"@.len());
    assert("class"@[0] != "style"@[0]);
    assert("class"@.len() != "text"@.len());
    assert("class"@.len() != "placeholder"@.len());
    assert("class"@.len() != "onclick"@.len());
    assert("class"@.len() != "on_click"@.len());
    assert("class"@.len() != "onchange"@.len());
    assert("class"@.len() != "on_change"@.len());
    assert("style"@.len() != "text"@.len());
    assert("style"@.len() != "placeholder"@.len());
    assert("style"@.len() != "onclick"@.len());
    assert("style"@.len() != "on_click"@.len());
    assert("style"@.len() != "onchange"@.len());
    assert("style"@.len() != "on_change"@.len());
    assert("text"@.len() != "placeholder"@.len());
    assert("text"@.len() != "onclick"@.len());
    assert("text"@.len() != "on_click"@.len());
    assert("text"@.len() != "onchange"@.len());
    assert("text"@.len() != "on_change"@.len());
    assert("placeholder"@.len() != "onclick"@.len());
    assert("placeholder"@.len() != "on_click"@.len());
    assert("placeholder"@.len() != "onchange"@.len());
    assert("placeholder"@.len() != "on_change"@.len());
    assert("onclick"@.len() != "on_click"@.len());
    assert("onclick"@.len() != "onchange"@.len());
    assert("onclick"@.len() != "on_change"@.len());
    assert("on_click"@[2] != "onchange"@[2]);
    assert("on_click"@.len() != "on_change"@.len());
    assert("onchange"@.len() != "on_change"@.len());
    let tbl = attribute_field_names();
    let k = lowercase_chars(name);
    assert(tbl.len() == 9);
    assert forall|i: int| 0 <= i < tbl.len() && k == tbl[i].0 implies attribute_slot(name) == tbl[i].1 by {
        if i == 0 {
            assert(tbl[0] == ("id"@, AttributeSlot::Id));
        } else if i == 1 {
            assert(tbl[1] == ("class"@, AttributeSlot::Class));
        } else if i == 2 {
            assert(tbl[2] == ("style"@, AttributeSlot::Style));
        } else if i == 3 {
            assert(tbl[3] == ("text"@, AttributeSlot::Text));
        } else if i == 4 {
            assert(tbl[4] == ("placeholder"@, AttributeSlot::Placeholder));
        } else if i == 5 {
            assert(tbl[5] == ("onclick"@, AttributeSlot::OnClick));
        } else if i == 6 {
            assert(tbl[6] == ("on_click"@, AttributeSlot::OnClick));
        } else if i == 7 {
            assert(tbl[7] == ("onchange"@, AttributeSlot::OnChange));
        } else if i == 8 {
            assert(tbl[8] == ("on_change"@, AttributeSlot::OnChange));
        }
    }
    if k == "id"@ {
        assert(tbl[0] == ("id"@, AttributeSlot::Id));
    } else if k == "class"@ {
        assert(tbl[1] == ("class"@, AttributeSlot::Class));
    } else if k == "style"@ {
        assert(tbl[2] == ("style"@, AttributeSlot::Style));
    } else if k == "text"@ {
        assert(tbl[3] == ("text"@, AttributeSlot::Text));
    } else if k == "placeholder"@ {
        assert(tbl[4] == ("placeholder"@, AttributeSlot::Placeholder));
    } else if k == "onclick"@ {
        assert(tbl[5] == ("onclick"@, AttributeSlot::OnClick));
    } else if k == "on_click"@ {
        assert(tbl[6] == ("on_click"@, AttributeSlot::OnClick));
    } else if k == "onchange"@ {
        assert(tbl[7] == ("onchange"@, AttributeSlot::OnChange));
    } else if k == "on_change"@ {
        assert(tbl[8] == ("on_change"@, AttributeSlot::OnChange));
    }
}

/// The field of a node that an attribute slot fills (`None` for extras).
pub open spec fn slot_field(n: NodeModel, slot: AttributeSlot) -> Option<Seq<char>> {
    match slot {
        AttributeSlot::Id => n.id,
        AttributeSlot::Class => n.class,
        AttributeSlot::Style => n.style,
        AttributeSlot::Text => n.text,
        AttributeSlot::Placeholder => n.placeholder,
        AttributeSlot::OnClick => n.on_click,
        AttributeSlot::OnChange => n.on_change,
        AttributeSlot::Extra => None,
    }
}

/// Whether an attribute name fills `slot`: its lowercase form is one of the
/// slot's names in the name table.
pub open spec fn names_slot(name: Seq<char>, slot: AttributeSlot) -> bool {
    exists|i: int|
        #![trigger attribute_field_names()[i]]
        0 <= i < attribute_field_names().len() && attribute_field_names()[i].0 == lowercase_chars(name) && attribute_field_names()[i].1 == slot
}

/// One attribute: a name from the name table sets its field to the value and
/// leaves the rest of the node alone; any other name is added, as written, to
/// the extra attributes.
pub proof fn law_attribute_fills_its_field(n: NodeModel, name: Seq<char>, value: Seq<char>)
    ensures
        forall|slot: AttributeSlot|
            slot != AttributeSlot::Extra ==> (#[trigger] slot_field(with_attribute(n, name, value), slot)
                == if names_slot(name, slot) {
                Some(value)
            } else {
                slot_field(n, slot)
            }),
        (forall|slot: AttributeSlot| !#[trigger] names_slot(name, slot)) ==> with_attribute(n, name, value)
            == (NodeModel { attributes: n.attributes.insert(name, value), ..n }),
        (exists|slot: AttributeSlot| #[trigger] names_slot(name, slot)) ==> with_attribute(n, name, value).attributes
            == n.attributes && with_attribute(n, name, value).children == n.children
            && with_attribute(n, name, value).element == n.element,
{
    law_attribute_names(name);
    let k = lowercase_chars(name);
    let tbl = attribute_field_names();
    if attribute_slot(name) != AttributeSlot::Extra {
        let i = choose|i: int|
            #![trigger tbl[i]]
            0 <= i < tbl.len() && tbl[i].0 == k && tbl[i].1 == attribute_slot(name);
        assert(names_slot(name, attribute_slot(name)));
        assert forall|slot: AttributeSlot| slot != attribute_slot(name) implies !names_slot(name, slot) by {
            if names_slot(name, slot) {
                let j = choose|j: int|
                    #![trigger tbl[j]]
                    0 <= j < tbl.len() && tbl[j].0 == k && tbl[j].1 == slot;
            }
        }
    } else {
        assert forall|slot: AttributeSlot| !names_slot(name, slot) by {
            if names_slot(name, slot) {
                let j = choose|j: int|
                    #![trigger tbl[j]]
                    0 <= j < tbl.len() && tbl[j].0 == k && tbl[j].1 == slot;
            }
        }
    }
}

/// The node a markup element becomes: each field that an attribute name can
/// fill holds the value of the last attribute naming it, or nothing when no
/// attribute names it.
pub proof fn law_last_attribute_wins(element: Seq<char>, attrs: Seq<(Seq<char>, Seq<char>)>, slot: AttributeSlot)
    requires
        slot != AttributeSlot::Extra,
    ensures
        forall|i: int|
            0 <= i < attrs.len() && #[trigger] names_slot(attrs[i].0, slot) && (forall|j: int|
                i < j < attrs.len() ==> !names_slot(attrs[j].0, slot)) ==> slot_field(
                element_node(element, attrs),
                slot,
            ) == Some(attrs[i].1),
        (forall|j: int| 0 <= j < attrs.len() ==> !#[trigger] names_slot(attrs[j].0, slot)) ==> slot_field(
            element_node(element, attrs),
            slot,
        ) is None,
{
    lemma_last_attribute_wins(bare_node(element), attrs, slot);
}

proof fn lemma_last_attribute_wins(n: NodeModel, attrs: Seq<(Seq<char>, Seq<char>)>, slot: AttributeSlot)
    requires
        slot != AttributeSlot::Extra,
    ensures
        forall|i: int|
            0 <= i < attrs.len() && #[trigger] names_slot(attrs[i].0, slot) && (forall|j: int|
                i < j < attrs.len() ==> !names_slot(attrs[j].0, slot)) ==> slot_field(
                with_attributes(n, attrs),
                slot,
            ) == Some(attrs[i].1),
        (forall|j: int| 0 <= j < attrs.len() ==> !#[trigger] names_slot(attrs[j].0, slot)) ==> slot_field(
            with_attributes(n, attrs),
            slot,
        ) == slot_field(n, slot),
    decreases attrs.len(),
{
    if attrs.len() > 0 {
        let d = attrs.drop_last();
        let last = attrs.len() - 1;
        lemma_last_attribute_wins(n, d, slot);
        let m = with_attributes(n, d);
        law_attribute_fills_its_field(m, attrs[last].0, attrs[last].1);
        assert(attrs.last() == attrs[last]);
        assert(with_attributes(n, attrs) == with_attribute(m, attrs[last].0, attrs[last].1));
        assert(slot_field(with_attributes(n, attrs), slot) == if names_slot(attrs[last].0, slot) {
            Some(attrs[last].1)
        } else {
            slot_field(m, slot)
        });
        assert forall|i: int|
            0 <= i < attrs.len() && #[trigger] names_slot(attrs[i].0, slot) && (forall|j: int|
                i < j < attrs.len() ==> !names_slot(attrs[j].0, slot)) implies slot_field(
                with_attributes(n, attrs),
                slot,
            ) == Some(attrs[i].1) by {
            if i < last {
                assert(!names_slot(attrs[last].0, slot));
                assert(d[i] == attrs[i]);
                assert forall|j: int| i < j < d.len() implies !names_slot(d[j].0, slot) by {
                    assert(d[j] == attrs[j]);
                }
            }
        }
        if forall|j: int| 0 <= j < attrs.len() ==> !#[trigger] names_slot(attrs[j].0, slot) {
            assert(!names_slot(attrs[last].0, slot));
            assert forall|j: int| 0 <= j < d.len() implies !#[trigger] names_slot(d[j].0, slot) by {
                assert(d[j] == attrs[j]);
            }
        }
    }
}

/// An element written as a start tag followed at once by its end tag builds
/// the same tree as the self-closing form, and neither stops the reading.
pub proof fn law_empty_element_is_start_then_end(
    m: BuildModel,
    name: Seq<char>,
    attrs: Seq<(Seq<char>, Seq<char>)>,
)
    requires
        !is_style_element(name),
    ensures
        event_step(
            event_step(m, XmlEventModel::Start { name, attributes: Ok(attrs) }).0,
            XmlEventModel::End,
        ).0 == event_step(m, XmlEventModel::Empty { name, attributes: Ok(attrs) }).0,
        event_step(m, XmlEventModel::Start { name, attributes: Ok(attrs) }).1 == FlowModel::Continue,
        event_step(m, XmlEventModel::Empty { name, attributes: Ok(attrs) }).1 == FlowModel::Continue,
        event_step(m, XmlEventModel::End).1 == FlowModel::Continue,
{
    let n = element_node(name, attrs);
    assert(m.stack.push(n).drop_last() =~= m.stack);
    assert(BuildModel { stack: m.stack.push(n).drop_last(), ..m } == m);
}

/// Elements nest as written: a start tag opens an element inside the
/// innermost open one; a self-closing element becomes the last child of the
/// innermost open element, after the children it already has, or the root
/// when no element is open; the rest of the tree is left as it was.
pub proof fn law_elements_nest_in_order(
    m: BuildModel,
    name: Seq<char>,
    attrs: Seq<(Seq<char>, Seq<char>)>,
)
    ensures
        !is_style_element(name) ==> event_step(
            m,
            XmlEventModel::Start { name, attributes: Ok(attrs) },
        ).0 == (BuildModel { stack: m.stack.push(element_node(name, attrs)), ..m }),
        m.stack.len() == 0 ==> event_step(m, XmlEventModel::Empty { name, attributes: Ok(attrs) }).0
            == (BuildModel { root: element_node(name, attrs), ..m }),
        m.stack.len() > 0 ==> ({
            let after = event_step(m, XmlEventModel::Empty { name, attributes: Ok(attrs) }).0;
            &&& after.stack.len() == m.stack.len()
            &&& after.stack.drop_last() == m.stack.drop_last()
            &&& after.stack.last().children == m.stack.last().children.push(element_node(name, attrs))
            &&& after.stack.last().element == m.stack.last().element
            &&& after.root == m.root
            &&& after.styles == m.styles
        }),
{
    if m.stack.len() > 0 {
        let after = event_step(m, XmlEventModel::Empty { name, attributes: Ok(attrs) }).0;
        assert(after.stack.drop_last() =~= m.stack.drop_last());
    }
}

/// Character data goes to the innermost open element, pieces joined in the
/// order read, CDATA alike; text outside every element, and empty text, is
/// dropped.
pub proof fn law_text_joins_in_order(m: BuildModel, t1: Seq<char>, t2: Seq<char>)
    ensures
        t1.len() > 0 && t2.len() > 0 ==> event_step(
            event_step(m, XmlEventModel::Text(Ok(t1))).0,
            XmlEventModel::Text(Ok(t2)),
        ).0 == event_step(m, XmlEventModel::Text(Ok(t1 + t2))).0,
        event_step(m, XmlEventModel::CData(t1)) == event_step(m, XmlEventModel::Text(Ok(t1))),
        m.stack.len() == 0 || t1.len() == 0 ==> event_step(m, XmlEventModel::Text(Ok(t1))).0 == m,
        m.stack.len() > 0 && t1.len() > 0 ==> event_step(m, XmlEventModel::Text(Ok(t1))).0.stack.last().text
            == Some(
            match m.stack.last().text {
                Some(existing) => existing + t1,
                None => t1,
            },
        ),
{
    if t1.len() > 0 && t2.len() > 0 && m.stack.len() > 0 {
        let m1 = event_step(m, XmlEventModel::Text(Ok(t1))).0;
        let m2 = event_step(m1, XmlEventModel::Text(Ok(t2))).0;
        let m3 = event_step(m, XmlEventModel::Text(Ok(t1 + t2))).0;
        match m.stack.last().text {
            Some(e) => {
                assert(e + t1 + t2 =~= e + (t1 + t2));
            },
            None => {},
        }
        assert(m2.stack =~= m3.stack);
    }
}

/// A style sheet element is not part of the tree: its start tag asks for its
/// raw text and changes nothing, and each sheet read is added to the
/// document's styles, after a line break when there are styles already.
pub proof fn law_style_elements_feed_the_sheet(
    m: BuildModel,
    name: Seq<char>,
    attrs: Result<Seq<(Seq<char>, Seq<char>)>, Seq<char>>,
    sheet: Seq<char>,
)
    ensures
        is_style_element(name) ==> event_step(m, XmlEventModel::Start { name, attributes: attrs }) == (
        m,
        FlowModel::ReadStyleText(name),
        ),
        event_step(m, XmlEventModel::StyleText(Ok(sheet))).0 == (BuildModel {
            styles: Some(
                match m.styles {
                    Some(existing) => existing + seq!['\n'] + sheet,
                    None => sheet,
                },
            ),
            ..m
        }),
{
}

/// Reading stops at the end of the document, with the tree built so far,
/// and at the first error, with its message and nothing changed.
pub proof fn law_reading_stops(m: BuildModel, name: Seq<char>, msg: Seq<char>)
    ensures
        event_step(m, XmlEventModel::Eof) == (m, FlowModel::Finished),
        event_step(m, XmlEventModel::Error(msg)) == (m, FlowModel::Failed(msg)),
        event_step(m, XmlEventModel::Text(Err(msg))) == (m, FlowModel::Failed(msg)),
        event_step(m, XmlEventModel::StyleText(Err(msg))) == (m, FlowModel::Failed(msg)),
        event_step(m, XmlEventModel::Empty { name, attributes: Err(msg) }) == (m, FlowModel::Failed(msg)),
        !is_style_element(name) ==> event_step(m, XmlEventModel::Start { name, attributes: Err(msg) })
            == (m, FlowModel::Failed(msg)),
        event_step(m, XmlEventModel::Other) == (m, FlowModel::Continue),
{
}

/// A `$` before a name binds the text to the signal of that name; text that
/// does not start with `$` binds to nothing.
pub proof fn law_binding_keys(name: Seq<char>, text: Seq<char>)
    ensures
        binding_key_of(seq!['$'] + name) == Some(name),
        text.len() == 0 || text[0] != '$' ==> binding_key_of(text) is None,
{
    assert((seq!['$'] + name).drop_first() =~= name);
}

/// An action handler may be written as a call: `name()` names the same
/// handler as `name`.
pub proof fn law_action_call_parens(name: Seq<char>)
    ensures
        action_key_of(name + seq!['(', ')']) == action_key_of(name),
{
    let s = name + seq!['(', ')'];
    assert(s.take(s.len() - 2) =~= name);
}

/// Markup is read as XML exactly when its first non-blank character is `<`:
/// blanks before the `<` do not matter, and any other first character means
/// the TOML form.
pub proof fn law_xml_markup_starts_with_a_tag(blank: Seq<char>, rest: Seq<char>)
    ensures
        (forall|i: int| 0 <= i < blank.len() ==> is_unicode_whitespace(#[trigger] blank[i]))
            ==> is_xml_markup_of(blank + seq!['<'] + rest),
        rest.len() > 0 && !is_unicode_whitespace(rest[0]) && rest[0] != '<' ==> !is_xml_markup_of(rest),
    decreases blank.len(),
{
    if blank.len() > 0 && (forall|i: int| 0 <= i < blank.len() ==> is_unicode_whitespace(#[trigger] blank[i])) {
        let s = blank + seq!['<'] + rest;
        assert(s[0] == blank[0]);
        assert(s.drop_first() =~= blank.drop_first() + seq!['<'] + rest);
        assert forall|i: int| 0 <= i < blank.drop_first().len() implies is_unicode_whitespace(
            #[trigger] blank.drop_first()[i],
        ) by {
            assert(blank.drop_first()[i] == blank[i + 1]);
        }
        law_xml_markup_starts_with_a_tag(blank.drop_first(), rest);
    } else if blank.len() == 0 {
        assert(blank + seq!['<'] + rest =~= seq!['<'] + rest);
        assert((seq!['<'] + rest)[0] == '<');
    }
}

proof fn lemma_word_end_of_word(w: Seq<char>, rest: Seq<char>)
    requires
        forall|j: int| 0 <= j < w.len() ==> !is_unicode_whitespace(#[trigger] w[j]),
        rest.len() == 0 || is_unicode_whitespace(rest[0]),
    ensures
        word_end(w + rest) == w.len(),
    decreases w.len(),
{
    if w.len() > 0 {
        let s = w + rest;
        assert(s[0] == w[0]);
        assert(s.drop_first() =~= w.drop_first() + rest);
        assert forall|j: int| 0 <= j < w.drop_first().len() implies !is_unicode_whitespace(
            #[trigger] w.drop_first()[j],
        ) by {
            assert(w.drop_first()[j] == w[j + 1]);
        }
        lemma_word_end_of_word(w.drop_first(), rest);
    } else {
        assert(w + rest =~= rest);
    }
}

/// Class names are the blank-separated words of the attribute, in order:
/// a leading blank changes nothing, and a word followed by a blank comes
/// before the words of what follows.
pub proof fn law_class_words(w: Seq<char>, rest: Seq<char>)
    ensures
        words(seq![' '] + rest) == words(rest),
        w.len() > 0 && (forall|j: int| 0 <= j < w.len() ==> !is_unicode_whitespace(#[trigger] w[j]))
            ==> words(w + seq![' '] + rest) == seq![w] + words(rest),
        w.len() > 0 && (forall|j: int| 0 <= j < w.len() ==> !is_unicode_whitespace(#[trigger] w[j]))
            ==> words(w) == seq![w],
{
    let b = seq![' '] + rest;
    assert(b[0] == ' ');
    assert(b.drop_first() =~= rest);
    assert(trim_start_chars(b) == trim_start_chars(rest));
    if w.len() > 0 && (forall|j: int| 0 <= j < w.len() ==> !is_unicode_whitespace(#[trigger] w[j])) {
        let s = w + seq![' '] + rest;
        assert(s =~= w + b);
        assert(s[0] == w[0]);
        assert(trim_start_chars(s) == s);
        lemma_word_end_of_word(w, b);
        assert(s.take(w.len() as int) =~= w);
        assert(s.skip(w.len() as int) =~= b);
        let e = Seq::<char>::empty();
        assert(w + e =~= w);
        lemma_word_end_of_word(w, e);
        assert(trim_start_chars(w) == w);
        assert(w.take(w.len() as int) =~= w);
        assert(w.skip(w.len() as int) =~= e);
        assert(trim_start_chars(e) == e);
        assert(word_end(w) == w.len());
        assert(words(e) == Seq::<Seq<char>>::empty());
        assert(seq![w] + Seq::<Seq<char>>::empty() =~= seq![w]);
    }
}

/// The extra attributes keep the last value given for each name: the map
/// of two lists of pairs, one after the other, is the first list's map
/// overridden by the second's.
pub proof fn law_later_attribute_wins(a: Seq<(String, String)>, b: Seq<(String, String)>)
    ensures
        pairs_map(a + b) == pairs_map(a).union_prefer_right(pairs_map(b)),
    decreases b.len(),
{
    if b.len() == 0 {
        assert(a + b =~= a);
        assert(pairs_map(a).union_prefer_right(pairs_map(b)) =~= pairs_map(a));
    } else {
        let d = b.drop_last();
        law_later_attribute_wins(a, d);
        assert((a + b).drop_last() =~= a + d);
        assert((a + b).last() == b.last());
        assert(pairs_map(a + b) =~= pairs_map(a).union_prefer_right(pairs_map(b)));
    }
}

/// Style sheet elements are named `Style` or `Styles` in any mix of case:
/// names that differ only in ASCII case are alike, and `style` and `styles`
/// are such names.
pub proof fn law_style_element_names(a: Seq<char>, b: Seq<char>)
    ensures
        equal_ignoring_ascii_case(a, b) ==> is_style_element(a) == is_style_element(b),
        is_style_element("style"@),
        is_style_element("styles"@),
        is_style_element("Style"@),
        is_style_element("STYLES"@),
        !is_style_element("styl"@),
{
    reveal_strlit("style");
    reveal_strlit("styles");
    reveal_strlit("Style");
    reveal_strlit("Styles");
    reveal_strlit("STYLES");
    reveal_strlit("styl");
    if equal_ignoring_ascii_case(a, b) {
        assert forall|i: int| 0 <= i < a.len() implies ascii_folded(#[trigger] a[i]) == ascii_folded(b[i]) by {}
        if equal_ignoring_ascii_case(b, "Style"@) {
            assert forall|i: int| 0 <= i < a.len() implies ascii_folded(#[trigger] a[i]) == ascii_folded(
                "Style"@[i],
            ) by {
                assert(ascii_folded(b[i]) == ascii_folded("Style"@[i]));
            }
        }
        if equal_ignoring_ascii_case(b, "Styles"@) {
            assert forall|i: int| 0 <= i < a.len() implies ascii_folded(#[trigger] a[i]) == ascii_folded(
                "Styles"@[i],
            ) by {
                assert(ascii_folded(b[i]) == ascii_folded("Styles"@[i]));
            }
        }
        if equal_ignoring_ascii_case(a, "Style"@) {
            assert forall|i: int| 0 <= i < b.len() implies ascii_folded(#[trigger] b[i]) == ascii_folded(
                "Style"@[i],
            ) by {
                assert(ascii_folded(a[i]) == ascii_folded("Style"@[i]));
            }
        }
        if equal_ignoring_ascii_case(a, "Styles"@) {
            assert forall|i: int| 0 <= i < b.len() implies ascii_folded(#[trigger] b[i]) == ascii_folded(
                "Styles"@[i],
            ) by {
                assert(ascii_folded(a[i]) == ascii_folded("Styles"@[i]));
            }
        }
    }
    assert(equal_ignoring_ascii_case("style"@, "Style"@)) by {
        assert forall|i: int| 0 <= i < 5 implies ascii_folded(#[trigger] "style"@[i]) == ascii_folded("Style"@[i]) by {
            if i == 0 {} else if i == 1 {} else if i == 2 {} else if i == 3 {} else {}
        }
    }
    assert(equal_ignoring_ascii_case("styles"@, "Styles"@)) by {
        assert forall|i: int| 0 <= i < 6 implies ascii_folded(#[trigger] "styles"@[i]) == ascii_folded("Styles"@[i]) by {
            if i == 0 {} else if i == 1 {} else if i == 2 {} else if i == 3 {} else if i == 4 {} else {}
        }
    }
    assert(equal_ignoring_ascii_case("Style"@, "Style"@));
    assert(equal_ignoring_ascii_case("STYLES"@, "Styles"@)) by {
        assert forall|i: int| 0 <= i < 6 implies ascii_folded(#[trigger] "STYLES"@[i]) == ascii_folded("Styles"@[i]) by {
            if i == 0 {} else if i == 1 {} else if i == 2 {} else if i == 3 {} else if i == 4 {} else {}
        }
    }
}

} // verus!
