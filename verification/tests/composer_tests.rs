use visusta::composer::{ProcessorComposer, ProcessorPage, ProcessorPageSignal};

#[test]
fn create_starts_with_the_root_step() {
    let composer = ProcessorComposer::create();
    assert_eq!(composer.steps.len(), 1);
    assert_eq!(composer.steps[0].parent, 0);
    assert!(composer.steps[0].is_active);
    assert!(composer.steps[0].children.is_empty());
}

#[test]
fn add_step_links_child_to_parent() {
    let mut composer = ProcessorComposer::create();
    composer.add_step(0);
    composer.add_step(1);
    assert_eq!(composer.steps.len(), 3);
    assert_eq!(composer.steps[0].children, vec![1]);
    assert_eq!(composer.steps[1].parent, 0);
    assert_eq!(composer.steps[1].children, vec![2]);
    assert_eq!(composer.steps[2].parent, 1);
    assert!(composer.steps[2].is_active);
}

#[test]
fn remove_step_deactivates_and_unlinks() {
    let mut composer = ProcessorComposer::create();
    composer.add_step(0); // 1
    composer.add_step(1); // 2
    composer.add_step(1); // 3
    composer.remove_step(2);
    assert!(!composer.steps[2].is_active);
    assert_eq!(composer.steps[1].children, vec![3]);
}

#[test]
fn removing_a_root_child_only_deactivates_it() {
    // A child of the root is deactivated but stays in the root's list.
    let mut composer = ProcessorComposer::create();
    composer.add_step(0); // 1
    composer.remove_step(1);
    assert!(!composer.steps[1].is_active);
    assert_eq!(composer.steps[0].children, vec![1]);
}

#[test]
fn flip_y_mirrors_luminance_rows() {
    let page = ProcessorPage {
        signal: ProcessorPageSignal::Luminance,
        width: 3,
        height: 2,
        data: vec![1, 2, 3, 4, 5, 6],
    };
    let flipped = page.flip_y();
    assert_eq!(flipped.data, vec![3, 2, 1, 6, 5, 4]);
    assert_eq!(flipped.width, 3);
    assert_eq!(flipped.height, 2);
}

#[test]
fn flip_y_moves_whole_colour_cells() {
    let page = ProcessorPage {
        signal: ProcessorPageSignal::RGB,
        width: 2,
        height: 1,
        data: vec![10, 11, 12, 20, 21, 22],
    };
    let flipped = page.flip_y();
    assert_eq!(flipped.data, vec![20, 21, 22, 10, 11, 12]);
}

#[test]
fn flip_y_keeps_char_pages_single_channel() {
    let page = ProcessorPage {
        signal: ProcessorPageSignal::Char,
        width: 2,
        height: 2,
        data: vec![b'a', b'b', b'c', b'd'],
    };
    let flipped = page.flip_y();
    assert_eq!(flipped.data, vec![b'b', b'a', b'd', b'c']);
}
