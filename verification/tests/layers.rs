use seekcli::layers::{merge_layers, Layer};

fn table(es: Vec<(&str, Layer<i32>)>) -> Layer<i32> {
    Layer::Table(es.into_iter().map(|(k, v)| (k.to_string(), v)).collect())
}

fn leaf(l: &Layer<i32>) -> Option<i32> {
    match l {
        Layer::Leaf(v) => Some(*v),
        Layer::Table(_) => None,
    }
}

fn get<'a>(l: &'a Layer<i32>, k: &str) -> Option<&'a Layer<i32>> {
    match l {
        Layer::Table(es) => es.iter().find(|(n, _)| n == k).map(|(_, v)| v),
        Layer::Leaf(_) => None,
    }
}

#[test]
fn tables_merge_key_by_key_and_leaves_replace() {
    let base = table(vec![
        ("brain", table(vec![("model", Layer::Leaf(1)), ("effort", Layer::Leaf(2))])),
        ("limits", Layer::Leaf(3)),
    ]);
    let over = table(vec![
        ("brain", table(vec![("model", Layer::Leaf(9))])),
        ("limits", table(vec![("max", Layer::Leaf(4))])),
        ("new", Layer::Leaf(5)),
    ]);
    let m = merge_layers(base, over);
    let brain = get(&m, "brain").expect("brain stays");
    assert_eq!(leaf(get(brain, "model").unwrap()), Some(9));
    assert_eq!(leaf(get(brain, "effort").unwrap()), Some(2), "keys the override leaves alone stay");
    assert_eq!(leaf(get(get(&m, "limits").unwrap(), "max").unwrap()), Some(4), "a table replaces a leaf");
    assert_eq!(leaf(get(&m, "new").unwrap()), Some(5));
    match &m {
        Layer::Table(es) => assert_eq!(es.len(), 3),
        Layer::Leaf(_) => panic!("a table"),
    }
    assert_eq!(leaf(&merge_layers(table(vec![]), Layer::Leaf(7))), Some(7));
}
