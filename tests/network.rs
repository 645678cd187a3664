use jean_patrick::network::layer::{ComputeError, Layer};
use jean_patrick::matrix::Matrix;
use jean_patrick::network::{is_valid_layout, Network};

fn assert_weights_in_range(layer: &Layer) {
    let w = layer.weights().unwrap();
    for i in 0..w.get_size_i() {
        for j in 0..w.get_size_j() {
            let x = *w.get(i, j).unwrap();
            assert!((-1000..1000).contains(&x));
        }
    }
    for b in layer.biases().unwrap() {
        assert!((-1000..1000).contains(b));
    }
}

#[test]
fn bare_layer_is_not_linked() {
    let l = Layer::new(5);
    assert_eq!(l.get_size(), 5);
    assert!(!l.is_linked());
    assert!(l.weights().is_none());
    assert!(l.biases().is_none());
    assert!(l.next().is_none());
    assert_eq!(l.output_size(), 5);
}

#[test]
fn link_shapes_weights_after_the_successor() {
    let mut l = Layer::new(3);
    l.link(Box::new(Layer::new(6)));
    assert!(l.is_linked());
    let w = l.weights().unwrap();
    assert_eq!(w.get_size_i(), 6);
    assert_eq!(w.get_size_j(), 3);
    assert_eq!(l.biases().unwrap().len(), 6);
    assert_eq!(l.next().unwrap().get_size(), 6);
    assert_weights_in_range(&l);
}

#[test]
fn set_out_shapes_the_last_transform() {
    let mut l = Layer::new(4);
    l.set_out(2);
    assert!(l.is_linked());
    assert!(l.next().is_none());
    let w = l.weights().unwrap();
    assert_eq!(w.get_size_i(), 2);
    assert_eq!(w.get_size_j(), 4);
    assert_eq!(l.biases().unwrap().len(), 2);
    assert_eq!(l.output_size(), 2);
    assert_weights_in_range(&l);
}

#[test]
fn network_without_hidden_layers() {
    let n = Network::new(4, &[], 2);
    assert_eq!(n.input_size(), 4);
    assert_eq!(n.output_size(), 2);
    let head = n.input();
    assert!(head.is_linked());
    assert!(head.next().is_none());
    assert_eq!(head.weights().unwrap().get_size_i(), 2);
    assert_eq!(head.weights().unwrap().get_size_j(), 4);
    assert_weights_in_range(head);
}

#[test]
fn network_with_hidden_layers() {
    let n = Network::new(3, &[5, 4], 2);
    assert_eq!(n.input_size(), 3);
    assert_eq!(n.output_size(), 2);
    let mut widths = vec![];
    let mut shapes = vec![];
    let mut layer = Some(n.input());
    while let Some(l) = layer {
        widths.push(l.get_size());
        let w = l.weights().unwrap();
        shapes.push((w.get_size_i(), w.get_size_j()));
        assert_weights_in_range(l);
        layer = l.next();
    }
    assert_eq!(widths, vec![3, 5, 4]);
    assert_eq!(shapes, vec![(5, 3), (4, 5), (2, 4)]);
}

#[test]
fn weights_are_not_all_zero() {
    let n = Network::new(16, &[16], 16);
    let mut nonzero = false;
    let mut layer = Some(n.input());
    while let Some(l) = layer {
        let w = l.weights().unwrap();
        for i in 0..w.get_size_i() {
            for j in 0..w.get_size_j() {
                nonzero |= *w.get(i, j).unwrap() != 0;
            }
        }
        layer = l.next();
    }
    assert!(nonzero);
}

#[test]
fn bare_layer_refuses_to_compute() {
    let l = Layer::new(3);
    assert_eq!(l.check_input(3), Err(ComputeError::NotLinked));
    assert_eq!(
        l.check_input(2),
        Err(ComputeError::SizeMismatch { expected: 3, found: 2 })
    );
}

#[test]
fn network_checks_the_input_width() {
    let n = Network::new(3, &[5, 4], 2);
    assert_eq!(n.check_input(3), Ok(()));
    assert_eq!(
        n.check_input(4),
        Err(ComputeError::SizeMismatch { expected: 3, found: 4 })
    );
    let m = Network::new(4, &[], 2);
    assert_eq!(m.check_input(4), Ok(()));
    assert_eq!(
        m.check_input(0),
        Err(ComputeError::SizeMismatch { expected: 4, found: 0 })
    );
}

#[test]
fn linked_layer_accepts_its_width() {
    let mut l = Layer::new(2);
    l.set_out(1);
    assert_eq!(l.check_input(2), Ok(()));
}

#[test]
fn link_with_keeps_the_given_weights() {
    let mut w = Matrix::<i32>::new(2, 3, 250);
    *w.get_mut(1, 2).unwrap() = -999;
    let mut l = Layer::new(3);
    l.link_with(Box::new(Layer::new(2)), w, vec![-1000, 999]);
    assert!(l.is_linked());
    assert_eq!(l.weights().unwrap().get(0, 0), Some(&250));
    assert_eq!(l.weights().unwrap().get(1, 2), Some(&-999));
    assert_eq!(l.biases().unwrap(), &vec![-1000, 999]);
    assert_eq!(l.next().unwrap().get_size(), 2);
    assert_eq!(l.output_size(), 2);
}

#[test]
fn set_out_with_sets_the_output_width() {
    let mut l = Layer::new(2);
    l.set_out_with(Matrix::<i32>::new(5, 2, 0), vec![1, 2, 3, 4, 5]);
    assert!(l.is_linked());
    assert_eq!(l.output_size(), 5);
    assert_eq!(l.biases().unwrap().len(), 5);
    assert_eq!(l.check_input(2), Ok(()));
}

#[test]
fn zero_widths_are_rejected() {
    assert!(is_valid_layout(4, &[], 2));
    assert!(is_valid_layout(3, &[5, 4], 2));
    assert!(!is_valid_layout(0, &[5], 2));
    assert!(!is_valid_layout(3, &[5, 0], 2));
    assert!(!is_valid_layout(3, &[5], 0));
    assert!(!is_valid_layout(usize::MAX, &[2], 1));
    assert!(!is_valid_layout(1, &[], 0));
    assert!(Network::try_new(3, &[0], 2).is_none());
    let n = Network::try_new(3, &[5, 4], 2).unwrap();
    assert_eq!(n.input_size(), 3);
    assert_eq!(n.output_size(), 2);
}
