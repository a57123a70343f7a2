//! The decoded form of a document's header block: a tree of scalars, lists
//! and tables, the typed lookups on it, and the decoder that produces it.

use crate::text::same_text;
use vstd::prelude::*;
use yaml_rust::{Yaml, YamlLoader};

verus! {

/// One node of a decoded header block.
#[derive(Debug)]
pub enum HeaderValue {
    /// A floating-point scalar, kept as written.
    Real(String),
    /// An integer scalar.
    Integer(i64),
    /// A string scalar.
    Text(String),
    /// A boolean scalar.
    Flag(bool),
    /// A list of nodes.
    List(Vec<HeaderValue>),
    /// A table of key and value nodes, in the order in which they were written.
    Table(Vec<(HeaderValue, HeaderValue)>),
    /// A reference to an anchored node.
    Alias(usize),
    /// The null scalar.
    Null,
    /// An absent or unusable node.
    Bad,
}

/// The mathematical value of a `HeaderValue`.
pub enum HeaderTree {
    Real(Seq<char>),
    Integer(i64),
    Text(Seq<char>),
    Flag(bool),
    List(Seq<HeaderTree>),
    Table(Seq<(HeaderTree, HeaderTree)>),
    Alias(usize),
    Null,
    Bad,
}

/// The value of one node.
pub open spec fn tree_of(v: HeaderValue) -> HeaderTree
    decreases v,
{
    match v {
        HeaderValue::Real(s) => HeaderTree::Real(s@),
        HeaderValue::Integer(i) => HeaderTree::Integer(i),
        HeaderValue::Text(s) => HeaderTree::Text(s@),
        HeaderValue::Flag(b) => HeaderTree::Flag(b),
        HeaderValue::List(items) => HeaderTree::List(trees_of(items@)),
        HeaderValue::Table(entries) => HeaderTree::Table(pairs_of(entries@)),
        HeaderValue::Alias(n) => HeaderTree::Alias(n),
        HeaderValue::Null => HeaderTree::Null,
        HeaderValue::Bad => HeaderTree::Bad,
    }
}

/// The values of a list's items, in order.
pub open spec fn trees_of(items: Seq<HeaderValue>) -> Seq<HeaderTree>
    decreases items,
{
    if items.len() == 0 {
        Seq::empty()
    } else {
        trees_of(items.drop_last()).push(tree_of(items.last()))
    }
}

/// The values of a table's entries, in order.
pub open spec fn pairs_of(entries: Seq<(HeaderValue, HeaderValue)>) -> Seq<
    (HeaderTree, HeaderTree),
>
    decreases entries,
{
    if entries.len() == 0 {
        Seq::empty()
    } else {
        pairs_of(entries.drop_last()).push(
            (tree_of(entries.last().0), tree_of(entries.last().1)),
        )
    }
}

impl DeepView for HeaderValue {
    type V = HeaderTree;

    open spec fn deep_view(&self) -> HeaderTree {
        tree_of(*self)
    }
}

/// `trees_of` works item by item.
pub proof fn lemma_trees_of(items: Seq<HeaderValue>)
    ensures
        trees_of(items).len() == items.len(),
        forall|i: int| 0 <= i < items.len() ==> #[trigger] trees_of(items)[i] == tree_of(items[i]),
    decreases items.len(),
{
    if items.len() > 0 {
        lemma_trees_of(items.drop_last());
    }
}

/// `pairs_of` works entry by entry.
pub proof fn lemma_pairs_of(entries: Seq<(HeaderValue, HeaderValue)>)
    ensures
        pairs_of(entries).len() == entries.len(),
        forall|i: int|
            0 <= i < entries.len() ==> #[trigger] pairs_of(entries)[i] == (
                tree_of(entries[i].0),
                tree_of(entries[i].1),
            ),
    decreases entries.len(),
{
    if entries.len() > 0 {
        lemma_pairs_of(entries.drop_last());
    }
}

/// The value under the first key of `entries` that is the string `key`, or
/// `Bad` where no key is.
pub open spec fn table_entry(entries: Seq<(HeaderTree, HeaderTree)>, key: Seq<char>) -> HeaderTree
    decreases entries.len(),
{
    if entries.len() == 0 {
        HeaderTree::Bad
    } else if entries[0].0 == HeaderTree::Text(key) {
        entries[0].1
    } else {
        table_entry(entries.skip(1), key)
    }
}

/// The string scalars among `items`, in order; every other node is passed over.
pub open spec fn texts_in(items: Seq<HeaderTree>) -> Seq<Seq<char>>
    decreases items.len(),
{
    if items.len() == 0 {
        Seq::empty()
    } else {
        match items.last() {
            HeaderTree::Text(s) => texts_in(items.drop_last()).push(s),
            _ => texts_in(items.drop_last()),
        }
    }
}

impl HeaderTree {
    /// The node under `key`: only a table has entries, and everything else
    /// answers with `Bad`.
    pub open spec fn entry(self, key: Seq<char>) -> HeaderTree {
        match self {
            HeaderTree::Table(entries) => table_entry(entries, key),
            _ => HeaderTree::Bad,
        }
    }

    /// The string, of a string scalar.
    pub open spec fn as_text(self) -> Option<Seq<char>> {
        match self {
            HeaderTree::Text(s) => Some(s),
            _ => None,
        }
    }

    /// The integer, of an integer scalar.
    pub open spec fn as_integer(self) -> Option<i64> {
        match self {
            HeaderTree::Integer(i) => Some(i),
            _ => None,
        }
    }

    /// The boolean, of a boolean scalar.
    pub open spec fn as_flag(self) -> Option<bool> {
        match self {
            HeaderTree::Flag(b) => Some(b),
            _ => None,
        }
    }

    /// The items, of a list.
    pub open spec fn as_list(self) -> Option<Seq<HeaderTree>> {
        match self {
            HeaderTree::List(items) => Some(items),
            _ => None,
        }
    }

    /// The string under `key`, if a string scalar stands there.
    pub open spec fn text_at(self, key: Seq<char>) -> Option<Seq<char>> {
        self.entry(key).as_text()
    }

    /// The integer under `key`, if an integer scalar stands there.
    pub open spec fn integer_at(self, key: Seq<char>) -> Option<i64> {
        self.entry(key).as_integer()
    }

    /// The boolean under `key`, if a boolean scalar stands there.
    pub open spec fn flag_at(self, key: Seq<char>) -> Option<bool> {
        self.entry(key).as_flag()
    }

    /// The strings of the list under `key`, if a list stands there.
    pub open spec fn texts_at(self, key: Seq<char>) -> Option<Seq<Seq<char>>> {
        match self.entry(key).as_list() {
            Some(items) => Some(texts_in(items)),
            None => None,
        }
    }
}

/// `yaml_rust::Yaml`, a node as the decoder hands it out. Opaque here: it is
/// turned into a `HeaderValue` before anything reads it.
#[verifier::external_type_specification]
#[verifier::external_body]
pub struct ExYaml(Yaml);

/// The documents that `yaml_rust::YamlLoader::load_from_str` reads out of
/// `source`, or, where it reports a `ScanError`, that error as it writes
/// itself.
pub uninterp spec fn yaml_documents(source: Seq<char>) -> Result<Seq<HeaderTree>, Seq<char>>;

/// Turns a `yaml_rust::Yaml` node into a `HeaderValue`, variant for variant:
/// `String` becomes `Text`, `Boolean` becomes `Flag`, `Array` becomes `List`,
/// `Hash` becomes `Table` with the entries in the order in which the hash
/// hands them out, `BadValue` becomes `Bad`.
#[verifier::external_body]
fn header_value_of(node: &Yaml) -> HeaderValue {
    match node {
        Yaml::Real(s) => HeaderValue::Real(s.clone()),
        Yaml::Integer(i) => HeaderValue::Integer(*i),
        Yaml::String(s) => HeaderValue::Text(s.clone()),
        Yaml::Boolean(b) => HeaderValue::Flag(*b),
        Yaml::Array(a) => HeaderValue::List(a.iter().map(header_value_of).collect()),
        Yaml::Hash(h) => HeaderValue::Table(
            h.iter().map(|(k, v)| (header_value_of(k), header_value_of(v))).collect(),
        ),
        Yaml::Alias(n) => HeaderValue::Alias(*n),
        Yaml::Null => HeaderValue::Null,
        Yaml::BadValue => HeaderValue::Bad,
    }
}

/// Calls `yaml_rust::YamlLoader::load_from_str` on `source`, and
/// `to_string` on the `ScanError` that it may report. The contract claims
/// only that the outcome is a function of the text: the same text gives
/// the same documents, or the same message.
#[verifier::external_body]
fn load_documents(source: &str) -> (r: Result<Vec<HeaderValue>, String>)
    ensures
        match r {
            Ok(docs) => yaml_documents(source@) == Ok::<_, Seq<char>>(docs.deep_view()),
            Err(message) => yaml_documents(source@) == Err::<Seq<HeaderTree>, _>(message@),
        },
{
    match YamlLoader::load_from_str(source) {
        Ok(docs) => Ok(docs.iter().map(header_value_of).collect()),
        Err(e) => Err(e.to_string()),
    }
}

/// Decodes a header block into its documents. `Err` carries the decoder's
/// own message.
pub fn decode_documents(source: &str) -> (r: Result<Vec<HeaderValue>, String>)
    ensures
        match r {
            Ok(docs) => yaml_documents(source@) == Ok::<_, Seq<char>>(docs.deep_view()),
            Err(message) => yaml_documents(source@) == Err::<Seq<HeaderTree>, _>(message@),
        },
{
    load_documents(source)
}

impl HeaderValue {
    /// The node under `key`. `None` stands for `Bad`.
    pub fn get(&self, key: &str) -> (r: Option<&HeaderValue>)
        ensures
            match r {
                Some(v) => v.deep_view() == self.deep_view().entry(key@),
                None => self.deep_view().entry(key@) == HeaderTree::Bad,
            },
    {
        match self {
            HeaderValue::Table(entries) => {
                let ghost all = pairs_of(entries@);
                let mut i: usize = 0;
                proof {
                    lemma_pairs_of(entries@);
                    assert(all.skip(0) == all);
                }
                while i < entries.len()
                    invariant
                        i <= entries.len(),
                        self.deep_view() == HeaderTree::Table(all),
                        all.len() == entries.len(),
                        forall|j: int|
                            0 <= j < entries.len() ==> #[trigger] all[j] == (
                                tree_of(entries@[j].0),
                                tree_of(entries@[j].1),
                            ),
                        table_entry(all, key@) == table_entry(all.skip(i as int), key@),
                    decreases entries.len() - i,
                {
                    let ghost rest = all.skip(i as int);
                    assert(rest[0] == all[i as int]);
                    assert(rest.skip(1) == all.skip(i + 1));
                    assert(all[i as int] == (
                        tree_of(entries@[i as int].0),
                        tree_of(entries@[i as int].1),
                    ));
                    let found = match &entries[i].0 {
                        HeaderValue::Text(k) => same_text(k.as_str(), key),
                        _ => false,
                    };
                    if found {
                        return Some(&entries[i].1);
                    }
                    i = i + 1;
                }
                None
            },
            _ => None,
        }
    }

    /// The string under `key`, if a string scalar stands there.
    pub fn get_string(&self, key: &str) -> (r: Option<String>)
        ensures
            r.deep_view() == self.deep_view().text_at(key@),
    {
        match self.get(key) {
            Some(HeaderValue::Text(s)) => Some(s.clone()),
            _ => None,
        }
    }

    /// The integer under `key`, if an integer scalar stands there.
    pub fn get_int(&self, key: &str) -> (r: Option<i64>)
        ensures
            r == self.deep_view().integer_at(key@),
    {
        match self.get(key) {
            Some(HeaderValue::Integer(i)) => Some(*i),
            _ => None,
        }
    }

    /// The boolean under `key`, if a boolean scalar stands there.
    pub fn get_bool(&self, key: &str) -> (r: Option<bool>)
        ensures
            r == self.deep_view().flag_at(key@),
    {
        match self.get(key) {
            Some(HeaderValue::Flag(b)) => Some(*b),
            _ => None,
        }
    }

    /// The strings of the list under `key`, if a list stands there. Items
    /// that are no string scalars are passed over.
    pub fn get_list_of_string(&self, key: &str) -> (r: Option<Vec<String>>)
        ensures
            r.deep_view() == self.deep_view().texts_at(key@),
    {
        match self.get(key) {
            Some(HeaderValue::List(items)) => {
                let mut out: Vec<String> = Vec::new();
                let mut i: usize = 0;
                assert(out.deep_view() =~= Seq::empty());
                assert(items@.take(0) =~= Seq::empty());
                while i < items.len()
                    invariant
                        i <= items.len(),
                        out.deep_view() == texts_in(trees_of(items@.take(i as int))),
                    decreases items.len() - i,
                {
                    let ghost before = out.deep_view();
                    assert(items@.take(i + 1).drop_last() == items@.take(i as int));
                    assert(items@.take(i + 1).last() == items@[i as int]);
                    assert(trees_of(items@.take(i + 1)).drop_last() == trees_of(
                        items@.take(i as int),
                    ));
                    assert(trees_of(items@.take(i + 1)).last() == tree_of(items@[i as int]));
                    match &items[i] {
                        HeaderValue::Text(s) => {
                            out.push(s.clone());
                            assert(out.deep_view() == before.push(s@));
                        },
                        _ => {},
                    }
                    i = i + 1;
                }
                assert(items@.take(items.len() as int) == items@);
                Some(out)
            },
            _ => None,
        }
    }
}

} // verus!
