use crosshair_compositor::startup::{choose_gpu, choose_render_node, later_devices, EglReport};

#[test]
fn primary_card_is_preferred() {
    assert_eq!(choose_gpu(Some("card0"), Some(vec!["card1"])), Some("card0"));
    assert_eq!(choose_gpu(Some("card0"), None), Some("card0"));
}

#[test]
fn last_card_stands_in_for_the_primary_one() {
    assert_eq!(choose_gpu(None, Some(vec!["card0", "card1"])), Some("card1"));
    assert_eq!(choose_gpu::<&str>(None, Some(vec![])), None);
    assert_eq!(choose_gpu::<&str>(None, None), None);
}

#[test]
fn egl_names_the_render_node() {
    assert_eq!(choose_render_node(1, EglReport::Device(Some(128))), 128);
    assert_eq!(choose_render_node(1, EglReport::Device(None)), 1);
    assert_eq!(choose_render_node(1, EglReport::NoDevice), 1);
    assert_eq!(choose_render_node(1, EglReport::NoDisplay), 1);
}

#[test]
fn first_device_is_not_brought_in_twice() {
    assert_eq!(later_devices(Some(5), &vec![5, 6, 5, 7]), vec![1, 3]);
    assert_eq!(later_devices(Some(5), &vec![5]), Vec::<usize>::new());
    assert_eq!(later_devices(None, &vec![]), Vec::<usize>::new());
    assert_eq!(later_devices(None, &vec![4, 4]), vec![0, 1]);
}
