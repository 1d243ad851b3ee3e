use geneprog::{BiVarFunc, Input, Node, UniVarFunc};

fn const_input(v: f64) -> Input {
    Input::Const { bits: v.to_bits(), text: format!("{:0.5}", v) }
}

#[test]
fn depth() {
    let input = Node::input((-3.0f64).to_bits(), format!("{:0.5}", -3.0f64));
    let mut root = Node::from_uvf(UniVarFunc::Abs, input);
    assert_eq!(root.depth(), 1);
    root.set_children(&[root.clone()]).unwrap();
    assert_eq!(root.depth(), 2);
    root.set_children(&[root.clone()]).unwrap();
    assert_eq!(root.depth(), 3);
    root.set_children(&[root.clone()]).unwrap();
    assert_eq!(root.depth(), 4);
}

#[test]
fn randnew() {
    let mut inputset: Vec<Input> = vec![];
    inputset.push(const_input(1.0));
    inputset.push(const_input(2.0));
    let mut uvfuncset: Vec<UniVarFunc> = vec![];
    uvfuncset.push(UniVarFunc::Abs);
    uvfuncset.push(UniVarFunc::Neg);
    uvfuncset.push(UniVarFunc::Cos);
    let mut bvfuncset: Vec<BiVarFunc> = vec![];
    bvfuncset.push(BiVarFunc::Sum);
    bvfuncset.push(BiVarFunc::Diff);
    bvfuncset.push(BiVarFunc::Prod);
    let node = Node::new_rand(inputset, uvfuncset, bvfuncset, 5);
    println!("{}", node.outline());
    println!("{:?}", node);
}

#[test]
fn new_rand_reaches_depth() {
    let inputset = vec![Input::XPos, Input::YPos];
    let uvfuncset = vec![UniVarFunc::Sqr];
    let bvfuncset = vec![BiVarFunc::Max];
    let node = Node::new_rand(inputset, uvfuncset, bvfuncset, 7);
    assert_eq!(node.depth(), 7);
}

#[test]
fn get_children_counts() {
    let leaf = Node::Input(Input::XPos);
    assert_eq!(leaf.get_children().len(), 0);
    let uni = Node::from_uvf(UniVarFunc::Neg, Node::Input(Input::YPos));
    assert_eq!(uni.get_children().len(), 1);
    let bi = Node::from_bvf(BiVarFunc::Sum, Node::Input(Input::XPos), Node::Input(Input::Zero));
    assert_eq!(bi.get_children().len(), 2);
}

#[test]
fn get_all_children_preorder() {
    let bi = Node::from_bvf(
        BiVarFunc::Sum,
        Node::Input(Input::XPos),
        Node::from_uvf(UniVarFunc::Abs, Node::Input(Input::YPos)),
    );
    let subs = bi.get_all_children();
    assert_eq!(subs.len(), 4);
    assert_eq!(subs[0].display(), "sum(x,abs(y))");
    assert_eq!(subs[1].display(), "x");
    assert_eq!(subs[2].display(), "abs(y)");
    assert_eq!(subs[3].display(), "y");
}

#[test]
fn set_children_rejects_wrong_arity() {
    let mut root = Node::from_uvf(UniVarFunc::Abs, Node::Input(Input::XPos));
    let before = root.display();
    let err = root.set_children(&[]);
    assert_eq!(err, Err("children length incompatible".to_string()));
    assert_eq!(root.display(), before);
    let err2 = root.set_children(&[Node::Input(Input::YPos), Node::Input(Input::Zero)]);
    assert!(err2.is_err());
    assert_eq!(root.display(), before);
}

#[test]
fn set_children_replaces() {
    let mut root = Node::from_uvf(UniVarFunc::Abs, Node::Input(Input::XPos));
    root.set_children(&[Node::Input(Input::YPos)]).unwrap();
    assert_eq!(root.display(), "abs(y)");
}
