use m2_syn::{
    CSTNodeClassLabel, ChildCursor, ExternalCstChild, ExternalCstNode, Reconstruct,
    ReconstructError, Span,
};

#[derive(Clone)]
struct Node {
    name: &'static str,
    children: Vec<Node>,
}

impl Node {
    fn leaf(name: &'static str) -> Self {
        Self { name, children: Vec::new() }
    }
}

impl ExternalCstNode for Node {
    fn identity(&self) -> CSTNodeClassLabel {
        CSTNodeClassLabel::new(self.name, true)
    }

    fn children(&self) -> Vec<ExternalCstChild<Self>> {
        self.children
            .iter()
            .cloned()
            .map(|node| ExternalCstChild { field: None, node })
            .collect()
    }

    fn text(&self) -> String {
        self.name.to_owned()
    }

    fn span(&self) -> Span {
        Span::detached()
    }

    fn is_extra(&self) -> bool {
        false
    }
}

struct Left {
    text: String,
}

struct Right {
    text: String,
}

struct Pair {
    left: Left,
    right: Right,
}

impl Reconstruct<Node> for Left {
    fn matches(node: &Node) -> bool {
        node.identity().matches("left", true)
    }

    fn reconstruct(node: Node) -> Result<Self, ReconstructError> {
        if !Self::matches(&node) {
            return Err(ReconstructError::wrong_node("left", true, node.identity()));
        }
        Ok(Left { text: node.text() })
    }
}

impl Reconstruct<Node> for Right {
    fn matches(node: &Node) -> bool {
        node.identity().matches("right", true)
    }

    fn reconstruct(node: Node) -> Result<Self, ReconstructError> {
        if !Self::matches(&node) {
            return Err(ReconstructError::wrong_node("right", true, node.identity()));
        }
        Ok(Right { text: node.text() })
    }
}

impl Reconstruct<Node> for Pair {
    fn matches(node: &Node) -> bool {
        node.identity().matches("pair", true)
    }

    fn reconstruct(node: Node) -> Result<Self, ReconstructError> {
        if !Self::matches(&node) {
            return Err(ReconstructError::wrong_node("pair", true, node.identity()));
        }
        let mut cursor = ChildCursor::new(&node);
        let left = Left::reconstruct(cursor.required_matching::<Left>()?)?;
        let right = Right::reconstruct(cursor.required_matching::<Right>()?)?;
        Ok(Pair { left, right })
    }
}

#[test]
fn positional_fields_reconstruct_from_unnamed_cst_children() {
    let pair = Pair::reconstruct(Node {
        name: "pair",
        children: vec![Node::leaf("left"), Node::leaf("right")],
    })
    .unwrap();

    assert_eq!(pair.left.text, "left");
    assert_eq!(pair.right.text, "right");
}

#[test]
fn a_missing_positional_child_is_reported() {
    let result = Pair::reconstruct(Node { name: "pair", children: vec![Node::leaf("left")] });
    assert!(result.is_err());
    let wrong = Pair::reconstruct(Node::leaf("left"));
    assert!(wrong.is_err());
}
