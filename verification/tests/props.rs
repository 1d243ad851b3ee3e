use geneprog::{breed, mutate, random_tree, BiVarFunc, Input, Node, Tree, UniVarFunc};

fn sample_tree() -> Tree {
    Tree::new(Node::from_bvf(
        BiVarFunc::Sum,
        Node::Input(Input::XPos),
        Node::from_uvf(UniVarFunc::Abs, Node::Input(Input::YPos)),
    ))
}

#[test]
fn depth_bound() {
    for d in 0..7usize {
        for _ in 0..5 {
            let t = random_tree(d);
            assert!(t.depth() <= d);
        }
    }
}

#[test]
fn copy_on_write_mutate() {
    let t = sample_tree();
    let before = t.show();
    let _child = mutate(&t);
    assert_eq!(t.show(), before);
}

#[test]
fn copy_on_write_breed() {
    let a = sample_tree();
    let b = Tree::new(Node::from_uvf(UniVarFunc::Cos, Node::Input(Input::Zero)));
    let before_a = a.show();
    let before_b = b.show();
    let _child = breed(&a, &b);
    assert_eq!(a.show(), before_a);
    assert_eq!(b.show(), before_b);
}

#[test]
fn mutation_changes_structure() {
    let t = sample_tree();
    let before = t.show();
    let mut changed = false;
    for _ in 0..60 {
        if mutate(&t).show() != before {
            changed = true;
            break;
        }
    }
    assert!(changed);
}

#[test]
fn crossover_contains_donor() {
    let donor = Tree::new(Node::Input(Input::XPos));
    let recipient = Tree::new(Node::from_bvf(
        BiVarFunc::Prod,
        Node::Input(Input::Zero),
        Node::Input(Input::Zero),
    ));
    for _ in 0..10 {
        let child = breed(&donor, &recipient);
        assert!(child.show().contains('x'));
    }
}

#[test]
fn render_deterministic() {
    let t = Tree::new(Node::input(0.12345f64.to_bits(), format!("{:0.5}", 0.12345f64)));
    let r1 = t.show();
    let r2 = t.show();
    assert_eq!(r1, r2);
    assert_eq!(r1, "0.12345");
}

#[test]
fn render_exact() {
    assert_eq!(sample_tree().show(), "sum(x,abs(y))");
    let t = Node::from_bvf(
        BiVarFunc::Max,
        Node::from_bvf(BiVarFunc::Diff, Node::Input(Input::Zero), Node::Input(Input::YPos)),
        Node::from_uvf(UniVarFunc::Sqr, Node::from_uvf(UniVarFunc::Neg, Node::Input(Input::XPos))),
    );
    assert_eq!(t.display(), "max(dif(0,y),sqr(neg(x)))");
}

#[test]
fn mnemonics() {
    assert_eq!(UniVarFunc::Cos.display(), "cos");
    assert_eq!(UniVarFunc::Sqr.display(), "sqr");
    assert_eq!(UniVarFunc::Abs.display(), "abs");
    assert_eq!(UniVarFunc::Neg.display(), "neg");
    assert_eq!(BiVarFunc::Sum.display(), "sum");
    assert_eq!(BiVarFunc::Diff.display(), "dif");
    assert_eq!(BiVarFunc::Prod.display(), "prd");
    assert_eq!(BiVarFunc::Max.display(), "max");
}

fn check_arity(root: &Node) {
    for sub in root.get_all_children() {
        let want = match &sub {
            Node::Input(_) => 0,
            Node::UniVarFunc { .. } => 1,
            Node::BiVarFunc { .. } => 2,
        };
        assert_eq!(sub.get_children().len(), want);
    }
}

#[test]
fn arity_invariant() {
    for d in 0..5usize {
        let t = random_tree(d);
        check_arity(&t.root);
        let m = mutate(&t);
        check_arity(&m.root);
        let c = breed(&t, &m);
        check_arity(&c.root);
    }
}

#[test]
fn outline_shape() {
    let t = sample_tree();
    assert_eq!(t.root.outline(), "b(x,u(x))");
}
