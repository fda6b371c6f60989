//! The parsed-document interface. The HTML tree itself belongs to the
//! outside parser and is opaque here; this module declares it, wraps the
//! handful of tree calls the pipeline needs, and builds the text-gathering
//! operations on top of them as verified loops.

use vstd::prelude::*;
use kuchiki::traits::NodeIterator;
use crate::strutil::{to_chars, from_chars, trim_chars};

verus! {

#[verifier::external_type_specification]
#[verifier::external_body]
pub struct ExNodeRef(kuchiki::NodeRef);

/// Relies on the derived `Clone` of `kuchiki::NodeRef`: cloning a
/// reference-counted handle yields the same node.
pub assume_specification[ <kuchiki::NodeRef as Clone>::clone ](n: &kuchiki::NodeRef) -> (r:
    kuchiki::NodeRef)
    ensures
        r == *n,
;

/// One node of a parsed document, held by shared ownership and never
/// mutated after parse.
pub struct Node {
    /// The underlying tree handle; opaque to every contract.
    pub raw: kuchiki::NodeRef,
}

impl Clone for Node {
    fn clone(&self) -> (r: Node)
        ensures
            r == *self,
    {
        Node { raw: self.raw.clone() }
    }
}

/// The element nodes one selector expression matched, in tree order.
pub struct Elements {
    pub nodes: Vec<Node>,
}

/// Whether a CSS-like selector expression is well-formed.
pub uninterp spec fn css_valid_of(css: Seq<char>) -> bool;

/// Relies on `kuchiki::NodeRef::select`: rejected exactly when the selector
/// expression does not compile; on success, the matching element nodes of
/// the inclusive subtree, in tree order.
#[verifier::external_body]
fn kq_select(node: &kuchiki::NodeRef, css: &str) -> (r: Result<Vec<Node>, ()>)
    ensures
        r is Ok <==> css_valid_of(css@),
{
    match node.select(css) {
        Ok(sel) => Ok(sel.map(|e| Node { raw: e.as_node().clone() }).collect()),
        Err(()) => Err(()),
    }
}

/// Relies on `kuchiki::NodeRef::descendants`: the node's descendants in
/// tree order, the node itself excluded.
#[verifier::external_body]
fn kq_descendants(node: &kuchiki::NodeRef) -> (r: Vec<Node>)
{
    node.descendants().map(|n| Node { raw: n }).collect()
}

/// Relies on `kuchiki::NodeRef::text_contents`: the concatenation of all
/// text in the node's inclusive subtree.
#[verifier::external_body]
fn kq_text_contents(node: &kuchiki::NodeRef) -> (r: String)
{
    node.text_contents()
}

/// Relies on `kuchiki::iter::NodeIterator::text_nodes` over
/// `kuchiki::NodeRef::children`: the text of the node's direct text
/// children, in order.
#[verifier::external_body]
fn kq_child_texts(node: &kuchiki::NodeRef) -> (r: Vec<String>)
{
    node.children().text_nodes().map(|t| t.borrow().clone()).collect()
}

/// Relies on `kuchiki::Attributes::get` behind `kuchiki::Node::as_element`:
/// the value of the attribute on this node, absent for a non-element node
/// or an attribute not present.
#[verifier::external_body]
fn kq_attr(node: &kuchiki::NodeRef, name: &str) -> (r: Option<String>)
{
    node.as_element().and_then(|e| e.attributes.borrow().get(name).map(|v| v.to_string()))
}

impl Node {
    /// Selects the element nodes matching a selector expression in this
    /// node's inclusive subtree; rejected iff the expression is malformed.
    pub fn select(&self, css: &str) -> (r: Result<Elements, ()>)
        ensures
            r is Ok <==> css_valid_of(css@),
    {
        match kq_select(&self.raw, css) {
            Ok(nodes) => Ok(Elements { nodes }),
            Err(()) => Err(()),
        }
    }

    /// The concatenation of all text in this node's subtree.
    pub fn text(&self) -> String {
        kq_text_contents(&self.raw)
    }

    /// The value of an attribute on this node itself.
    pub fn own_attr(&self, name: &str) -> Option<String> {
        kq_attr(&self.raw, name)
    }

    /// True when the selector expression is well-formed and matches at
    /// least one node here.
    pub fn probe(&self, css: &str) -> (r: bool)
        ensures
            r ==> css_valid_of(css@),
    {
        match kq_select(&self.raw, css) {
            Ok(nodes) => nodes.len() > 0,
            Err(()) => false,
        }
    }
}

/// Joins string parts with a separator between them.
fn join_strings(parts: &Vec<String>, sep: &str) -> (r: String)
{
    let mut out: Vec<char> = Vec::new();
    let sep_chars = to_chars(sep);
    let mut i: usize = 0;
    while i < parts.len()
        decreases parts@.len() - i,
    {
        if i > 0 {
            let mut k: usize = 0;
            while k < sep_chars.len()
                decreases sep_chars@.len() - k,
            {
                out.push(sep_chars[k]);
                k = k + 1;
            }
        }
        let cs = to_chars(parts[i].as_str());
        let mut k: usize = 0;
        while k < cs.len()
            decreases cs@.len() - k,
        {
            out.push(cs[k]);
            k = k + 1;
        }
        i = i + 1;
    }
    from_chars(&out)
}

/// Concatenates the direct text children of one node.
fn own_text_of_node(node: &Node) -> (r: String)
{
    let parts = kq_child_texts(&node.raw);
    join_strings(&parts, "")
}

/// Text-gathering operations over a node or a selection of nodes.
pub trait ElementsTrait {
    /// Number of items this value walks over.
    fn len(&self) -> usize;

    /// The direct text of each item, joined with newlines and trimmed.
    fn own_text(&self) -> String;

    /// The full text of each item, joined with the given string and trimmed.
    fn all_text(&self, join_str: &str) -> String;

    /// The first present attribute from an ordered preference list.
    fn attr_first_of(&self, attrs: &Vec<String>) -> Option<String>;

    /// The first occurrence of the attribute among the items.
    fn attr(&self, attr: &str) -> Option<String>;

    /// Every occurrence of the attribute among the items, in order.
    fn attrs(&self, attr: &str) -> Vec<String>;

    /// Per item, the first present attribute of the preference list.
    fn attrs_first_of(&self, attrs: &Vec<String>) -> Vec<String>;
}

impl ElementsTrait for Node {
    fn len(&self) -> usize {
        kq_descendants(&self.raw).len()
    }

    fn own_text(&self) -> String {
        let ds = kq_descendants(&self.raw);
        let mut parts: Vec<String> = Vec::new();
        let mut i: usize = 0;
        while i < ds.len()
            decreases ds@.len() - i,
        {
            parts.push(own_text_of_node(&ds[i]));
            i = i + 1;
        }
        let joined = join_strings(&parts, "\n");
        let t = trim_chars(&to_chars(joined.as_str()));
        from_chars(&t)
    }

    fn all_text(&self, join_str: &str) -> String {
        let ds = kq_descendants(&self.raw);
        let mut parts: Vec<String> = Vec::new();
        let mut i: usize = 0;
        while i < ds.len()
            decreases ds@.len() - i,
        {
            parts.push(kq_text_contents(&ds[i].raw));
            i = i + 1;
        }
        let joined = join_strings(&parts, join_str);
        let t = trim_chars(&to_chars(joined.as_str()));
        from_chars(&t)
    }

    fn attr_first_of(&self, attrs: &Vec<String>) -> Option<String> {
        let mut i: usize = 0;
        while i < attrs.len()
            decreases attrs@.len() - i,
        {
            let v = self.attr(attrs[i].as_str());
            if v.is_some() {
                return v;
            }
            i = i + 1;
        }
        None
    }

    fn attr(&self, attr: &str) -> Option<String> {
        let ds = kq_descendants(&self.raw);
        let mut i: usize = 0;
        while i < ds.len()
            decreases ds@.len() - i,
        {
            let v = kq_attr(&ds[i].raw, attr);
            if v.is_some() {
                return v;
            }
            i = i + 1;
        }
        None
    }

    fn attrs(&self, attr: &str) -> Vec<String> {
        let ds = kq_descendants(&self.raw);
        let mut out: Vec<String> = Vec::new();
        let mut i: usize = 0;
        while i < ds.len()
            decreases ds@.len() - i,
        {
            if let Some(v) = kq_attr(&ds[i].raw, attr) {
                out.push(v);
            }
            i = i + 1;
        }
        out
    }

    fn attrs_first_of(&self, attrs: &Vec<String>) -> Vec<String> {
        let ds = kq_descendants(&self.raw);
        let mut out: Vec<String> = Vec::new();
        let mut i: usize = 0;
        while i < ds.len()
            decreases ds@.len() - i,
        {
            let mut j: usize = 0;
            while j < attrs.len()
                invariant
                    i < ds@.len(),
                    j <= attrs@.len(),
                decreases attrs@.len() - j,
            {
                if let Some(v) = kq_attr(&ds[i].raw, attrs[j].as_str()) {
                    out.push(v);
                    j = attrs.len();
                } else {
                    j = j + 1;
                }
            }
            i = i + 1;
        }
        out
    }
}

impl ElementsTrait for Elements {
    fn len(&self) -> usize {
        self.nodes.len()
    }

    fn own_text(&self) -> String {
        let mut parts: Vec<String> = Vec::new();
        let mut i: usize = 0;
        while i < self.nodes.len()
            decreases self.nodes@.len() - i,
        {
            parts.push(own_text_of_node(&self.nodes[i]));
            i = i + 1;
        }
        let joined = join_strings(&parts, "\n");
        let t = trim_chars(&to_chars(joined.as_str()));
        from_chars(&t)
    }

    fn all_text(&self, join_str: &str) -> String {
        let mut parts: Vec<String> = Vec::new();
        let mut i: usize = 0;
        while i < self.nodes.len()
            decreases self.nodes@.len() - i,
        {
            parts.push(kq_text_contents(&self.nodes[i].raw));
            i = i + 1;
        }
        let joined = join_strings(&parts, join_str);
        let t = trim_chars(&to_chars(joined.as_str()));
        from_chars(&t)
    }

    fn attr_first_of(&self, attrs: &Vec<String>) -> Option<String> {
        let mut i: usize = 0;
        while i < attrs.len()
            decreases attrs@.len() - i,
        {
            let v = self.attr(attrs[i].as_str());
            if v.is_some() {
                return v;
            }
            i = i + 1;
        }
        None
    }

    fn attr(&self, attr: &str) -> Option<String> {
        let mut i: usize = 0;
        while i < self.nodes.len()
            decreases self.nodes@.len() - i,
        {
            let v = kq_attr(&self.nodes[i].raw, attr);
            if v.is_some() {
                return v;
            }
            i = i + 1;
        }
        None
    }

    fn attrs(&self, attr: &str) -> Vec<String> {
        let mut out: Vec<String> = Vec::new();
        let mut i: usize = 0;
        while i < self.nodes.len()
            decreases self.nodes@.len() - i,
        {
            if let Some(v) = kq_attr(&self.nodes[i].raw, attr) {
                out.push(v);
            }
            i = i + 1;
        }
        out
    }

    fn attrs_first_of(&self, attrs: &Vec<String>) -> Vec<String> {
        let mut out: Vec<String> = Vec::new();
        let mut i: usize = 0;
        while i < self.nodes.len()
            decreases self.nodes@.len() - i,
        {
            let mut j: usize = 0;
            while j < attrs.len()
                invariant
                    i < self.nodes@.len(),
                    j <= attrs@.len(),
                decreases attrs@.len() - j,
            {
                if let Some(v) = kq_attr(&self.nodes[i].raw, attrs[j].as_str()) {
                    out.push(v);
                    j = attrs.len();
                } else {
                    j = j + 1;
                }
            }
            i = i + 1;
        }
        out
    }
}

} // verus!
