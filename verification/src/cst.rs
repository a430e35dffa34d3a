//! Typed syntax traits and the bridge from external concrete syntax trees.
use vstd::prelude::*;

use crate::nodes::Symbol;
use crate::span::{Span, Spanned};
use crate::token_stream::{append_str, str_eq, TokenModel, TokenTree};

verus! {

/// A closed token atom backed by one matching raw [`TokenTree`].
///
/// Parsing validates the raw category and spelling, then retains the raw atom
/// so emission preserves distinctions such as implicit whitespace versus the
/// explicit `SPACE` spelling.
pub trait Token: Spanned + Sized {
    /// Whether a raw atom belongs to this token type.
    spec fn spec_matches(token: TokenModel) -> bool;

    /// The raw atom a token retains.
    spec fn spec_raw(&self) -> TokenModel;

    /// The canonical spelling of this token type.
    spec fn spec_spelling() -> Seq<char>;

    /// Canonical spelling used in diagnostics and freshly constructed atoms.
    fn spelling_text() -> (text: &'static str)
        ensures
            text@ == Self::spec_spelling(),
    ;

    /// Tests whether a raw atom belongs to this token type.
    fn matches_token_tree(token: &TokenTree) -> (r: bool)
        ensures
            r == Self::spec_matches(token@),
    ;

    /// Validates and retains a raw atom as this typed token.
    fn from_token_tree(token: TokenTree) -> (r: Option<Self>)
        ensures
            r is Some <==> Self::spec_matches(token@),
            r matches Some(t) ==> t.spec_raw() == token@,
    ;
}

/// Backend-local node identity used only during external tree reconstruction.
#[derive(Debug, Clone, PartialEq, Eq)]
pub struct CSTNodeClassLabel {
    pub name: String,
    pub named: bool,
}

impl CSTNodeClassLabel {
    pub fn new(name: &str, named: bool) -> (label: Self)
        ensures
            label.name@ == name@,
            label.named == named,
    {
        CSTNodeClassLabel { name: name.to_owned(), named }
    }

    /// Whether this label has the given name and namedness.
    pub fn matches(&self, name: &str, named: bool) -> (r: bool)
        ensures
            r == (self.named == named && self.name@ == name@),
    {
        self.named == named && str_eq(self.name.as_str(), name)
    }
}

/// One child of an external node, with the field it occupies, if any.
pub struct ExternalCstChild<N> {
    pub field: Option<&'static str>,
    pub node: N,
}

/// The minimal untyped view of a parser backend's concrete tree that typed
/// reconstruction needs. It is confined to parser adapters.
pub trait ExternalCstNode: Sized {
    /// The children of this node; a node type that does not say has none.
    open spec fn spec_children(&self) -> Seq<ExternalCstChild<Self>> {
        Seq::empty()
    }

    /// Whether this node is an extra; a node type that does not say is not.
    open spec fn spec_is_extra(&self) -> bool {
        false
    }

    fn identity(&self) -> CSTNodeClassLabel;

    fn children(&self) -> (children: Vec<ExternalCstChild<Self>>)
        ensures
            children@ == self.spec_children(),
    ;

    fn text(&self) -> String;

    fn span(&self) -> Span;

    /// Whether the node is an extra, such as a comment, that reconstruction skips.
    fn is_extra(&self) -> (r: bool)
        ensures
            r == self.spec_is_extra(),
    ;
}

/// Reconstructs one typed value from a parser backend's untyped node.
pub trait Reconstruct<N: ExternalCstNode>: Sized {
    fn matches(node: &N) -> bool;

    fn reconstruct(node: N) -> Result<Self, ReconstructError>;
}

/// A symbol reconstructs from a named `symbol` node, keeping the node's text
/// and span; any other node is the wrong one.
impl<N: ExternalCstNode> Reconstruct<N> for Symbol {
    fn matches(node: &N) -> (r: bool)
        ensures
            exists|label: CSTNodeClassLabel|
                #[trigger] call_ensures(N::identity, (node,), label) && r == (label.named
                    && label.name@ == "symbol"@),
    {
        let label = node.identity();
        label.matches("symbol", true)
    }

    fn reconstruct(node: N) -> (r: Result<Symbol, ReconstructError>)
        ensures
            exists|label: CSTNodeClassLabel|
                #[trigger] call_ensures(N::identity, (&node,), label) && (!(label.named
                    && label.name@ == "symbol"@) ==> r == Err::<Symbol, ReconstructError>(
                    ReconstructError::WrongNode {
                        expected: "symbol",
                        expected_named: true,
                        actual: label.name,
                        actual_named: label.named,
                    },
                )) && (label.named && label.name@ == "symbol"@ ==> exists|text: String, span: Span|
                    #[trigger] call_ensures(N::text, (&node,), text) && #[trigger] call_ensures(
                        N::span,
                        (&node,),
                        span,
                    ) && (r matches Ok(symbol) && symbol.text@ == text@ && symbol.span == span)),
    {
        let label = node.identity();
        if !label.matches("symbol", true) {
            return Err(ReconstructError::wrong_node("symbol", true, label));
        }
        let text = node.text();
        let span = node.span();
        Ok(Symbol::new(text.as_str(), span))
    }
}

/// Reconstructs a typed target from a parser-specific tree root: the result
/// is exactly what the target type's `reconstruct` gives.
pub fn reconstruct<T: Reconstruct<N>, N: ExternalCstNode>(root: N) -> (r: Result<T, ReconstructError>)
    ensures
        call_ensures(T::reconstruct, (root,), r),
{
    T::reconstruct(root)
}

/// Why an external tree could not be reconstructed as typed syntax.
#[derive(Debug, Clone, PartialEq, Eq)]
pub enum ReconstructError {
    WrongNode { expected: &'static str, expected_named: bool, actual: String, actual_named: bool },
    WrongCategory { category: &'static str, actual: String, actual_named: bool },
    MissingField { node: String, field: &'static str },
    MissingChild { node: String, expected: &'static str },
}

impl ReconstructError {
    pub fn wrong_node(expected: &'static str, expected_named: bool, actual: CSTNodeClassLabel) -> (error: Self)
        ensures
            error == (ReconstructError::WrongNode {
                expected,
                expected_named,
                actual: actual.name,
                actual_named: actual.named,
            }),
    {
        ReconstructError::WrongNode {
            expected,
            expected_named,
            actual: actual.name,
            actual_named: actual.named,
        }
    }

    pub fn wrong_category(category: &'static str, actual: CSTNodeClassLabel) -> (error: Self)
        ensures
            error == (ReconstructError::WrongCategory {
                category,
                actual: actual.name,
                actual_named: actual.named,
            }),
    {
        ReconstructError::WrongCategory { category, actual: actual.name, actual_named: actual.named }
    }
}

/// Single-pass field selection for reconstruction code: each child is taken at most once.
pub struct ChildCursor<N> {
    children: Vec<Option<ExternalCstChild<N>>>,
    parent: String,
}

/// Whether a remaining child occupies the named field.
pub open spec fn in_field<N>(child: Option<ExternalCstChild<N>>, field: &'static str) -> bool {
    child matches Some(c) && c.field matches Some(f) && f@ == field@
}

/// Whether a remaining child occupies no field.
pub open spec fn unfielded<N>(child: Option<ExternalCstChild<N>>) -> bool {
    child matches Some(c) && c.field is None
}

/// The nodes of the remaining children in the named field, in order.
pub open spec fn field_nodes<N>(children: Seq<Option<ExternalCstChild<N>>>, field: &'static str) -> Seq<N>
    decreases children.len(),
{
    if children.len() == 0 {
        seq![]
    } else if in_field(children.last(), field) {
        field_nodes(children.drop_last(), field).push(children.last().unwrap().node)
    } else {
        field_nodes(children.drop_last(), field)
    }
}

/// Whether a remaining child occupies no field and `T`'s `matches` gave
/// `answer` on its node.
pub open spec fn matched<N: ExternalCstNode, T: Reconstruct<N>>(
    child: Option<ExternalCstChild<N>>,
    answer: bool,
) -> bool {
    unfielded(child) && call_ensures(T::matches, (&child.unwrap().node,), answer)
}

/// The nodes of the children present in `before` and taken in `after`, in order.
pub open spec fn taken_nodes<N>(
    before: Seq<Option<ExternalCstChild<N>>>,
    after: Seq<Option<ExternalCstChild<N>>>,
) -> Seq<N>
    decreases before.len(),
{
    if before.len() == 0 {
        seq![]
    } else {
        let k = before.len() - 1;
        let rest = taken_nodes(before.drop_last(), after.subrange(0, k));
        if before.last() is Some && after[k] is None {
            rest.push(before.last().unwrap().node)
        } else {
            rest
        }
    }
}

fn field_is(child: &Option<ExternalCstChild<impl Sized>>, field: &'static str) -> (r: bool)
    ensures
        r == in_field(*child, field),
{
    match child {
        Some(child) => match child.field {
            Some(name) => str_eq(name, field),
            None => false,
        },
        None => false,
    }
}

impl<N: ExternalCstNode> ChildCursor<N> {
    /// The children not yet taken, in order; taken children are `None`.
    pub closed spec fn remaining(&self) -> Seq<Option<ExternalCstChild<N>>> {
        self.children@
    }

    pub closed spec fn parent_name(&self) -> Seq<char> {
        self.parent@
    }

    /// Starts a cursor over the children of `parent` that are not extras.
    pub fn new(parent: &N) -> (cursor: Self)
        ensures
            forall|i: int| 0 <= i < cursor.remaining().len() ==> (#[trigger] cursor.remaining()[i]) is Some,
            cursor.remaining().map_values(|c: Option<ExternalCstChild<N>>| c.unwrap())
                == parent.spec_children().filter(|c: ExternalCstChild<N>| !c.node.spec_is_extra()),
            exists|label: CSTNodeClassLabel|
                call_ensures(N::identity, (parent,), label) && cursor.parent_name() == label.name@,
    {
        let mut all = parent.children();
        let ghost original = all@;
        let mut kept: Vec<ExternalCstChild<N>> = Vec::new();
        let mut rest: Vec<ExternalCstChild<N>> = Vec::new();
        while all.len() > 0
            invariant
                all@.len() + rest@.len() == original.len(),
                all@ == original.subrange(0, all@.len() as int),
                forall|j: int| 0 <= j < rest@.len() ==> rest@[j] == original[original.len() - 1 - j],
            decreases all@.len(),
        {
            let child = all.pop().unwrap();
            rest.push(child);
        }
        let mut children: Vec<Option<ExternalCstChild<N>>> = Vec::new();
        let ghost mut taken: int = 0;
        while rest.len() > 0
            invariant
                taken + rest@.len() == original.len(),
                0 <= taken <= original.len(),
                forall|j: int| 0 <= j < rest@.len() ==> rest@[j] == original[original.len() - 1 - j],
                forall|i: int| 0 <= i < children@.len() ==> (#[trigger] children@[i]) is Some,
                children@.map_values(|c: Option<ExternalCstChild<N>>| c.unwrap())
                    == original.subrange(0, taken).filter(|c: ExternalCstChild<N>| !c.node.spec_is_extra()),
            decreases rest@.len(),
        {
            let child = rest.pop().unwrap();
            let ghost before = children@;
            proof {
                assert(child == original[taken]);
                assert(original.subrange(0, taken + 1).drop_last() =~= original.subrange(0, taken));
                original.subrange(0, taken).lemma_filter_push(
                    child,
                    |c: ExternalCstChild<N>| !c.node.spec_is_extra(),
                );
                assert(original.subrange(0, taken).push(child) =~= original.subrange(0, taken + 1));
            }
            if !child.node.is_extra() {
                children.push(Some(child));
                proof {
                    assert(children@.map_values(|c: Option<ExternalCstChild<N>>| c.unwrap())
                        =~= before.map_values(|c: Option<ExternalCstChild<N>>| c.unwrap()).push(child));
                }
            }
            proof {
                taken = taken + 1;
            }
        }
        proof {
            assert(original.subrange(0, taken) =~= original);
        }
        let label = parent.identity();
        let ghost spec_label = label;
        let cursor = ChildCursor { children, parent: label.name };
        proof {
            assert(call_ensures(N::identity, (parent,), spec_label));
            assert(cursor.parent_name() == spec_label.name@);
        }
        cursor
    }

    /// Takes the first remaining child in `field`.
    pub fn optional_field(&mut self, field: &'static str) -> (r: Option<N>)
        ensures
            final(self).parent_name() == old(self).parent_name(),
            r is None ==> final(self).remaining() == old(self).remaining() && forall|i: int|
                0 <= i < old(self).remaining().len() ==> !in_field(
                    #[trigger] old(self).remaining()[i],
                    field,
                ),
            r matches Some(node) ==> exists|i: int|
                0 <= i < old(self).remaining().len() && in_field(old(self).remaining()[i], field)
                    && (forall|j: int|
                    0 <= j < i ==> !in_field(#[trigger] old(self).remaining()[j], field))
                    && old(self).remaining()[i].unwrap().node == node && final(self).remaining()
                    == old(self).remaining().update(i, None),
    {
        let mut i: usize = 0;
        while i < self.children.len()
            invariant
                i <= self.children@.len(),
                self.children@ == old(self).children@,
                self.parent == old(self).parent,
                forall|j: int| 0 <= j < i ==> !in_field(#[trigger] self.children@[j], field),
            decreases self.children@.len() - i,
        {
            if field_is(&self.children[i], field) {
                let taken = self.children.remove(i);
                self.children.insert(i, None);
                proof {
                    assert(self.children@ =~= old(self).children@.update(i as int, None));
                    assert(taken == old(self).children@[i as int]);
                }
                return match taken {
                    Some(child) => {
                        let node = child.node;
                        proof {
                            let k = i as int;
                            assert(0 <= k < old(self).remaining().len() && in_field(
                                old(self).remaining()[k],
                                field,
                            ) && (forall|j: int|
                                0 <= j < k ==> !in_field(#[trigger] old(self).remaining()[j], field))
                                && old(self).remaining()[k].unwrap().node == node
                                && self.remaining() == old(self).remaining().update(k, None));
                        }
                        Some(node)
                    },
                    None => None,
                };
            }
            i = i + 1;
        }
        None
    }

    /// Takes the first remaining child in `field`, which must be present.
    pub fn required_field(&mut self, field: &'static str) -> (r: Result<N, ReconstructError>)
        ensures
            final(self).parent_name() == old(self).parent_name(),
            r is Err <==> forall|i: int|
                0 <= i < old(self).remaining().len() ==> !in_field(
                    #[trigger] old(self).remaining()[i],
                    field,
                ),
            r matches Err(e) ==> e matches ReconstructError::MissingField { node, field: f } && node@
                == old(self).parent_name() && f == field,
            r is Err ==> final(self).remaining() == old(self).remaining(),
            r matches Ok(node) ==> exists|i: int|
                0 <= i < old(self).remaining().len() && in_field(old(self).remaining()[i], field)
                    && (forall|j: int|
                    0 <= j < i ==> !in_field(#[trigger] old(self).remaining()[j], field))
                    && old(self).remaining()[i].unwrap().node == node && final(self).remaining()
                    == old(self).remaining().update(i, None),
    {
        match self.optional_field(field) {
            Some(node) => Ok(node),
            None => Err(ReconstructError::MissingField { node: self.parent.clone(), field }),
        }
    }

    /// Takes every remaining child in `field`, in order.
    pub fn repeated_field(&mut self, field: &'static str) -> (r: Vec<N>)
        ensures
            final(self).parent_name() == old(self).parent_name(),
            r@ == field_nodes(old(self).remaining(), field),
            final(self).remaining().len() == old(self).remaining().len(),
            forall|i: int|
                0 <= i < old(self).remaining().len() ==> (#[trigger] final(self).remaining()[i]) == if in_field(
                    old(self).remaining()[i],
                    field,
                ) {
                    None
                } else {
                    old(self).remaining()[i]
                },
    {
        let mut nodes: Vec<N> = Vec::new();
        let mut i: usize = 0;
        while i < self.children.len()
            invariant
                i <= self.children@.len(),
                self.children@.len() == old(self).children@.len(),
                self.parent == old(self).parent,
                nodes@ == field_nodes(old(self).children@.subrange(0, i as int), field),
                forall|j: int|
                    0 <= j < i ==> (#[trigger] self.children@[j]) == if in_field(
                        old(self).children@[j],
                        field,
                    ) {
                        None
                    } else {
                        old(self).children@[j]
                    },
                forall|j: int| i <= j < self.children@.len() ==> self.children@[j] == old(self).children@[j],
            decreases self.children@.len() - i,
        {
            proof {
                let prefix = old(self).children@.subrange(0, i + 1);
                assert(prefix.drop_last() =~= old(self).children@.subrange(0, i as int));
            }
            if field_is(&self.children[i], field) {
                let taken = self.children.remove(i);
                self.children.insert(i, None);
                match taken {
                    Some(child) => nodes.push(child.node),
                    None => {},
                }
            }
            i = i + 1;
        }
        proof {
            assert(old(self).children@.subrange(0, self.children@.len() as int) =~= old(self).children@);
        }
        nodes
    }

    /// Takes the first remaining unfielded child that `T` recognizes.
    pub fn optional_matching<T: Reconstruct<N>>(&mut self) -> (r: Option<N>)
        ensures
            final(self).parent_name() == old(self).parent_name(),
            r is None ==> final(self).remaining() == old(self).remaining() && forall|i: int|
                0 <= i < old(self).remaining().len() && unfielded(#[trigger] old(self).remaining()[i])
                    ==> matched::<N, T>(old(self).remaining()[i], false),
            r matches Some(node) ==> exists|i: int|
                0 <= i < old(self).remaining().len() && matched::<N, T>(old(self).remaining()[i], true)
                    && (forall|j: int|
                    0 <= j < i && unfielded(#[trigger] old(self).remaining()[j]) ==> matched::<N, T>(
                        old(self).remaining()[j],
                        false,
                    )) && old(self).remaining()[i].unwrap().node == node && final(self).remaining()
                    == old(self).remaining().update(i, None),
    {
        let mut i: usize = 0;
        while i < self.children.len()
            invariant
                i <= self.children@.len(),
                self.children@ == old(self).children@,
                self.parent == old(self).parent,
                forall|j: int|
                    0 <= j < i && unfielded(#[trigger] self.children@[j]) ==> matched::<N, T>(
                        self.children@[j],
                        false,
                    ),
            decreases self.children@.len() - i,
        {
            let hit = match &self.children[i] {
                Some(child) => child.field.is_none() && T::matches(&child.node),
                None => false,
            };
            proof {
                if unfielded(self.children@[i as int]) {
                    assert(matched::<N, T>(self.children@[i as int], hit));
                }
            }
            if hit {
                let taken = self.children.remove(i);
                self.children.insert(i, None);
                proof {
                    assert(self.children@ =~= old(self).children@.update(i as int, None));
                    assert(taken == old(self).children@[i as int]);
                }
                return match taken {
                    Some(child) => {
                        let node = child.node;
                        proof {
                            let k = i as int;
                            assert(0 <= k < old(self).remaining().len() && matched::<N, T>(
                                old(self).remaining()[k],
                                true,
                            ) && old(self).remaining()[k].unwrap().node == node && self.remaining()
                                == old(self).remaining().update(k, None));
                        }
                        Some(node)
                    },
                    None => None,
                };
            }
            i = i + 1;
        }
        None
    }

    /// Takes the first remaining unfielded child that `T` recognizes, which must exist.
    pub fn required_matching<T: Reconstruct<N>>(&mut self) -> (r: Result<N, ReconstructError>)
        ensures
            final(self).parent_name() == old(self).parent_name(),
            r matches Err(e) ==> e matches ReconstructError::MissingChild { node, .. } && node@
                == old(self).parent_name(),
            r is Err ==> final(self).remaining() == old(self).remaining() && forall|i: int|
                0 <= i < old(self).remaining().len() && unfielded(#[trigger] old(self).remaining()[i])
                    ==> matched::<N, T>(old(self).remaining()[i], false),
            r matches Ok(node) ==> exists|i: int|
                0 <= i < old(self).remaining().len() && matched::<N, T>(old(self).remaining()[i], true)
                    && (forall|j: int|
                    0 <= j < i && unfielded(#[trigger] old(self).remaining()[j]) ==> matched::<N, T>(
                        old(self).remaining()[j],
                        false,
                    )) && old(self).remaining()[i].unwrap().node == node && final(self).remaining()
                    == old(self).remaining().update(i, None),
    {
        match self.optional_matching::<T>() {
            Some(node) => Ok(node),
            None => Err(
                ReconstructError::MissingChild { node: self.parent.clone(), expected: "a child matching the requested syntax" },
            ),
        }
    }

    /// Takes every remaining unfielded child that `T` recognizes, in order.
    pub fn repeated_matching<T: Reconstruct<N>>(&mut self) -> (r: Vec<N>)
        ensures
            final(self).parent_name() == old(self).parent_name(),
            final(self).remaining().len() == old(self).remaining().len(),
            forall|i: int|
                0 <= i < old(self).remaining().len() ==> if matched::<N, T>(
                    #[trigger] old(self).remaining()[i],
                    true,
                ) && final(self).remaining()[i] is None {
                    true
                } else {
                    final(self).remaining()[i] == old(self).remaining()[i] && (unfielded(
                        old(self).remaining()[i],
                    ) ==> matched::<N, T>(old(self).remaining()[i], false))
                },
            r@ == taken_nodes(old(self).remaining(), final(self).remaining()),
    {
        let mut nodes: Vec<N> = Vec::new();
        let mut i: usize = 0;
        while i < self.children.len()
            invariant
                i <= self.children@.len(),
                self.children@.len() == old(self).children@.len(),
                self.parent == old(self).parent,
                forall|j: int|
                    0 <= j < i ==> if matched::<N, T>(#[trigger] old(self).children@[j], true)
                        && self.children@[j] is None {
                        true
                    } else {
                        self.children@[j] == old(self).children@[j] && (unfielded(
                            old(self).children@[j],
                        ) ==> matched::<N, T>(old(self).children@[j], false))
                    },
                forall|j: int| i <= j < self.children@.len() ==> self.children@[j] == old(self).children@[j],
                nodes@ == taken_nodes(
                    old(self).children@.subrange(0, i as int),
                    self.children@.subrange(0, i as int),
                ),
            decreases self.children@.len() - i,
        {
            let ghost before = self.children@;
            let hit = match &self.children[i] {
                Some(child) => child.field.is_none() && T::matches(&child.node),
                None => false,
            };
            proof {
                if unfielded(self.children@[i as int]) {
                    assert(matched::<N, T>(self.children@[i as int], hit));
                }
            }
            if hit {
                let taken = self.children.remove(i);
                self.children.insert(i, None);
                proof {
                    assert(self.children@ =~= before.update(i as int, None));
                }
                match taken {
                    Some(child) => nodes.push(child.node),
                    None => {},
                }
            }
            proof {
                let k = i as int;
                let ob = old(self).children@.subrange(0, k + 1);
                let nb = self.children@.subrange(0, k + 1);
                assert(ob.drop_last() =~= old(self).children@.subrange(0, k));
                assert(nb.subrange(0, k) =~= self.children@.subrange(0, k));
                assert(self.children@.subrange(0, k) =~= before.subrange(0, k));
            }
            i = i + 1;
        }
        proof {
            let n = self.children@.len() as int;
            assert(old(self).children@.subrange(0, n) =~= old(self).children@);
            assert(self.children@.subrange(0, n) =~= self.children@);
        }
        nodes
    }
}

} // verus!
