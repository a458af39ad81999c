use rope_editor::rope::{Rope, RopeNode};
use std::rc::Rc;

fn hello_world() -> Rope {
    Rope::concat(Rope::from_string("hello"), Rope::from_string("world"))
}

#[test]
fn new_rope_is_empty() {
    let r = Rope::new();
    assert_eq!(r.len(), 0);
    assert_eq!(r.to_string(), "");
    assert_eq!(r.char_at(0), None);
}

#[test]
fn from_string_holds_the_text() {
    let r = Rope::from_string("hello");
    assert_eq!(r.len(), 5);
    assert_eq!(r.to_string(), "hello");
    assert!(matches!(&*r.root, RopeNode::Leaf(s) if s == "hello"));
}

#[test]
fn from_string_round_trips() {
    for s in ["", "a", "hello world", "line one\nline two\n", "naïve café ☕", "\t  \r\n"] {
        assert_eq!(Rope::from_string(s).to_string(), s);
    }
}

#[test]
fn concat_joins_two_ropes() {
    let r = hello_world();
    assert_eq!(r.to_string(), "helloworld");
    assert_eq!(r.len(), 10);
}

#[test]
fn concat_keeps_both_trees_and_caches_the_left_length() {
    let left = Rope::from_string("hello");
    let right = Rope::from_string("world");
    let r = Rope::concat(left.clone(), right.clone());
    match &*r.root {
        RopeNode::Internal { left: l, right: rr, weight } => {
            assert_eq!(*weight, 5);
            assert!(Rc::ptr_eq(l, &left.root));
            assert!(Rc::ptr_eq(rr, &right.root));
        }
        RopeNode::Leaf(_) => panic!("a concatenation is an internal node"),
    }
}

#[test]
fn split_cuts_at_the_index() {
    let (left, right) = hello_world().split(5);
    assert_eq!(left.to_string(), "hello");
    assert_eq!(right.to_string(), "world");
}

#[test]
fn split_inside_a_leaf() {
    let r = hello_world();
    let (left, right) = r.split(2);
    assert_eq!(left.to_string(), "he");
    assert_eq!(right.to_string(), "lloworld");
    let (left, right) = r.split(8);
    assert_eq!(left.to_string(), "hellowor");
    assert_eq!(right.to_string(), "ld");
}

#[test]
fn split_at_the_ends() {
    let r = hello_world();
    let (left, right) = r.split(0);
    assert_eq!(left.to_string(), "");
    assert_eq!(right.to_string(), "helloworld");
    let (left, right) = r.split(10);
    assert_eq!(left.to_string(), "helloworld");
    assert_eq!(right.to_string(), "");
}

#[test]
fn split_clamps_an_index_past_the_end() {
    let r = hello_world();
    let (left, right) = r.split(11);
    assert_eq!(left.to_string(), "helloworld");
    assert_eq!(right.to_string(), "");
    let (left, right) = r.split(usize::MAX);
    assert_eq!(left.to_string(), "helloworld");
    assert_eq!(right.to_string(), "");
}

#[test]
fn split_leaves_the_rope_as_it_was() {
    let r = hello_world();
    let _ = r.split(3);
    assert_eq!(r.to_string(), "helloworld");
    assert_eq!(r.len(), 10);
}

#[test]
fn split_then_concat_round_trips() {
    let r = Rope::concat(hello_world(), Rope::from_string("!"));
    for i in 0..=12 {
        let (left, right) = r.split(i);
        assert_eq!(left.len() + right.len(), 11);
        assert_eq!(Rope::concat(left, right).to_string(), "helloworld!");
    }
}

#[test]
fn split_keeps_the_weights_exact() {
    let r = Rope::concat(hello_world(), Rope::from_string("again"));
    for i in 0..=15 {
        let (left, right) = r.split(i);
        let text = "helloworldagain";
        for j in 0..16 {
            assert_eq!(left.char_at(j), text[..i].chars().nth(j));
            assert_eq!(right.char_at(j), text[i..].chars().nth(j));
        }
    }
}

#[test]
fn split_node_cuts_a_subtree() {
    let r = hello_world();
    let (left, right) = r.split_node(&r.root, 7);
    assert_eq!(r.total_len(&left), 7);
    assert_eq!(r.total_len(&right), 3);
    assert_eq!(Rope { root: left }.to_string(), "hellowo");
    assert_eq!(Rope { root: right }.to_string(), "rld");
}

#[test]
fn split_node_shares_the_untouched_child() {
    let a = Rope::from_string("hello");
    let b = Rope::from_string("world");
    let r = Rope::concat(a.clone(), b.clone());
    let (_, right) = r.split_node(&r.root, 2);
    match &*right {
        RopeNode::Internal { right: shared, weight, .. } => {
            assert_eq!(*weight, 3);
            assert!(Rc::ptr_eq(shared, &b.root));
        }
        RopeNode::Leaf(_) => panic!("the right half keeps the right child"),
    }
    let (left, _) = r.split_node(&r.root, 8);
    match &*left {
        RopeNode::Internal { left: shared, weight, .. } => {
            assert_eq!(*weight, 5);
            assert!(Rc::ptr_eq(shared, &a.root));
        }
        RopeNode::Leaf(_) => panic!("the left half keeps the left child"),
    }
}

#[test]
fn insert_places_text_at_the_index() {
    let r = hello_world().insert(5, ", ");
    assert_eq!(r.to_string(), "hello, world");
    assert_eq!(r.len(), 12);
}

#[test]
fn insert_at_beginning_and_end() {
    let r6 = hello_world();
    let r7 = r6.insert(0, "Say ");
    let r8 = r7.insert(r7.len(), "!");
    assert_eq!(r8.to_string(), "Say helloworld!");
}

#[test]
fn insert_clamps_an_index_past_the_end() {
    let r = Rope::from_string("abc").insert(99, "d");
    assert_eq!(r.to_string(), "abcd");
}

#[test]
fn insert_leaves_the_rope_as_it_was() {
    let r = hello_world();
    let s = r.insert(5, ", ");
    assert_eq!(r.to_string(), "helloworld");
    assert_eq!(s.to_string(), "hello, world");
}

#[test]
fn delete_removes_a_range() {
    let r5 = hello_world().insert(5, ", ");
    let r6 = r5.delete(5, 2);
    assert_eq!(r6.to_string(), "helloworld");
    assert_eq!(r6.len(), 10);
}

#[test]
fn delete_entire_rope() {
    let r8 = Rope::from_string("Say helloworld!");
    let r9 = r8.delete(0, r8.len());
    assert_eq!(r9.to_string(), "");
    assert_eq!(r9.len(), 0);
}

#[test]
fn delete_clamps_start_and_length() {
    let r = hello_world();
    assert_eq!(r.delete(7, 100).to_string(), "hellowo");
    assert_eq!(r.delete(10, 1).to_string(), "helloworld");
    assert_eq!(r.delete(42, 3).to_string(), "helloworld");
    assert_eq!(r.delete(3, 0).to_string(), "helloworld");
    assert_eq!(r.delete(0, usize::MAX).to_string(), "");
}

#[test]
fn delete_undoes_a_fresh_insert() {
    let r = hello_world();
    for i in 0..=10 {
        for t in ["", "x", ", ", "longer text"] {
            let back = r.insert(i, t).delete(i, t.chars().count());
            assert_eq!(back.to_string(), "helloworld");
        }
    }
}

#[test]
fn char_at_finds_each_character() {
    let r = hello_world().insert(5, ", ").delete(5, 2);
    assert_eq!(r.char_at(0), Some('h'));
    assert_eq!(r.char_at(4), Some('o'));
    assert_eq!(r.char_at(5), Some('w'));
    assert_eq!(r.char_at(9), Some('d'));
    assert_eq!(r.char_at(10), None);
    assert_eq!(r.char_at(usize::MAX), None);
}

#[test]
fn char_at_agrees_with_the_text_after_many_edits() {
    let mut r = Rope::new();
    let mut text = String::new();
    for (i, t) in ["abc", "de", "", "fghij", "k"].iter().enumerate() {
        let at = (i * 2).min(text.chars().count());
        r = r.insert(at, t);
        text.insert_str(at, t);
    }
    r = r.delete(1, 3);
    text.replace_range(1..4, "");
    let (a, b) = r.split(4);
    r = Rope::concat(b, a);
    text = format!("{}{}", &text[4..], &text[..4]);
    assert_eq!(r.to_string(), text);
    assert_eq!(r.len(), text.len());
    for i in 0..text.len() + 3 {
        assert_eq!(r.char_at(i), text.chars().nth(i));
    }
}

#[test]
fn get_char_walks_by_weight() {
    let r = hello_world();
    assert_eq!(r.get_char(&r.root, 4), Some('o'));
    assert_eq!(r.get_char(&r.root, 5), Some('w'));
    assert_eq!(r.get_char(&r.root, 10), None);
}

#[test]
fn total_len_and_weight_of_nodes() {
    let r = Rope::concat(Rope::from_string("ab"), hello_world());
    assert_eq!(r.total_len(&r.root), 12);
    assert_eq!(r.weight(&r.root), 2);
    let leaf = Rope::from_string("xyz");
    assert_eq!(leaf.total_len(&leaf.root), 3);
    assert_eq!(leaf.weight(&leaf.root), 3);
}

#[test]
fn collect_appends_to_what_is_there() {
    let r = hello_world();
    let mut out = String::from(">> ");
    r.collect(&r.root, &mut out);
    assert_eq!(out, ">> helloworld");
}

#[test]
fn indices_count_characters_not_bytes() {
    let r = Rope::from_string("héllo wörld");
    assert_eq!(r.len(), 11);
    assert_eq!(r.char_at(1), Some('é'));
    assert_eq!(r.char_at(7), Some('ö'));
    let (left, right) = r.split(2);
    assert_eq!(left.to_string(), "hé");
    assert_eq!(right.to_string(), "llo wörld");
    assert_eq!(r.insert(2, "☕").to_string(), "hé☕llo wörld");
    assert_eq!(r.delete(1, 1).to_string(), "hllo wörld");
    assert_eq!(r.insert(2, "☕").len(), 12);
}

#[test]
fn clone_shares_the_tree() {
    let r = hello_world();
    let c = r.clone();
    assert!(Rc::ptr_eq(&r.root, &c.root));
    assert_eq!(c.to_string(), "helloworld");
}
